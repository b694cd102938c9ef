//! What the agent does, as its users see it: which sensors it finds and sends,
//! where their values come from, and which temperature a disk is said to have.

use crate::agent::config::{
    config_views, AgentConfig, AgentSection, LsiHbaSection, PersistentConfigView, SmartctlSection,
    SourceView,
};
use crate::agent::discover::{
    disk_discoveries, disk_discovery, hba_discoveries, hba_discovery, hwmon_discoveries,
    hwmon_discovery,
};
use crate::agent::disks::{
    candidate, distinct_disks, fitting_paths, is_sensor_of, lists_path, partition_name,
    path_identity, DeviceFacts, DiskReading, FileFact, FoundDevice, SmartctlSensor,
};
use crate::agent::glob::fits;
use crate::agent::schedule::{due, next_steps, ticked, AgentClock, AgentStep};
use crate::agent::sensors::{
    are_persistent, candidate_matches, candidate_tracked, candidate_views, directory_candidates,
    disk_tracked, file_candidate, found_candidates, hba_sensors, hba_tracked, input_parts, is_scan,
    kept, number_behind, only_match, reading_at, resolves, scanned, sensor_values, shadowed,
    shadows, source_value, tracked_views, CandidateView, HbaReading, HwmonCandidate,
    HwmonDirectory, LiveView, TrackedSensor, TrackedSourceView, TrackedView,
};
use crate::agent::smartctl::{
    attribute_rank, better, columns_number, first_number, line_temperature, lines_temperature,
    number_in, printed_temperature, row_temperature, tells_temperature,
};
use crate::number::{
    decimal, fits_i64, law_printed_number_reads_back, lemma_decimal_shape, parsed_int,
};
use crate::order::{is_stable_sort, lemma_stable_sort_contains, Keyed};
use crate::path::{file_name_of, path_join};
use crate::protocol::{DescriptorView, SensorKind};
use crate::seqs::{
    lemma_filter_last, lemma_filter_mapped, lemma_filter_member, lemma_filter_none,
    lemma_filter_take,
};
use crate::text::{
    contains_text, has_prefix, has_suffix, is_digit, is_split_once, is_white,
    lemma_split_once_unique, lines, lower_char, lowercase, pieces, split_pair, stands_at,
    text_less, trimmed, trimmed_start, without_suffix, words, Separator,
};
use vstd::prelude::*;
use vstd::utf8::encode_utf8;

verus! {

// ── Sources of persistent sensors ────────────────────────────────────────────

/// Whether a candidate is of the kind, input, chip, label and device that a
/// persistent sensor asks for; what it does not ask for may be anything. A
/// candidate without a label of its own goes by the label of its sensor.
pub open spec fn is_asked_for(
    candidate: CandidateView,
    kind: SensorKind,
    chip_name: Option<Seq<char>>,
    input: Seq<char>,
    source_label: Option<Seq<char>>,
    device_path_contains: Option<Seq<char>>,
) -> bool {
    &&& candidate.descriptor.kind == kind
    &&& candidate.input_name == input
    &&& chip_name matches Some(chip) ==> candidate.chip_name == chip
    &&& source_label matches Some(label) ==> label == (if candidate.source_label is Some {
        candidate.source_label.unwrap()
    } else {
        candidate.descriptor.label
    })
    &&& device_path_contains matches Some(part) ==> exists|at: int|
        0 <= at <= candidate.device_path.len() - part.len() && #[trigger] candidate.device_path.subrange(
            at,
            at + part.len(),
        ) == part
}

proof fn lemma_asked_for(
    candidate: CandidateView,
    kind: SensorKind,
    chip_name: Option<Seq<char>>,
    input: Seq<char>,
    source_label: Option<Seq<char>>,
    device_path_contains: Option<Seq<char>>,
)
    ensures
        candidate_matches(
            candidate,
            kind,
            SourceView::Hwmon { chip_name, input, source_label, device_path_contains },
        ) == is_asked_for(
            candidate,
            kind,
            chip_name,
            input,
            source_label,
            device_path_contains,
        ),
{
    if let Some(part) = device_path_contains {
        let path = candidate.device_path;
        if contains_text(path, part) {
            let at = choose|at: int| stands_at(path, part, at);
            assert(path.subrange(at, at + part.len()) == part);
        }
        if exists|at: int|
            0 <= at <= path.len() - part.len() && #[trigger] path.subrange(at, at + part.len())
                == part {
            let at = choose|at: int|
                0 <= at <= path.len() - part.len() && #[trigger] path.subrange(at, at + part.len())
                    == part;
            assert(stands_at(path, part, at));
        }
    }
}

/// A persistent sensor of a hwmon device reads the one candidate that is asked
/// for; where none is, or more than one, its source is absent.
pub proof fn law_hwmon_source_is_the_one_asked_for(
    config: AgentConfig,
    candidates: Seq<CandidateView>,
    persistent: PersistentConfigView,
    chip_name: Option<Seq<char>>,
    input: Seq<char>,
    source_label: Option<Seq<char>>,
    device_path_contains: Option<Seq<char>>,
    resolved: Option<(LiveView, Seq<char>)>,
)
    requires
        persistent.source == (SourceView::Hwmon {
            chip_name,
            input,
            source_label,
            device_path_contains,
        }),
        resolves(config.smartctl, candidates, persistent, resolved),
    ensures
        ({
            let fits = |i: int|
                is_asked_for(
                    candidates[i],
                    persistent.kind,
                    chip_name,
                    input,
                    source_label,
                    device_path_contains,
                );
            &&& forall|i: int|
                0 <= i < candidates.len() && #[trigger] fits(i) && (forall|j: int|
                    0 <= j < candidates.len() && #[trigger] fits(j) ==> j == i) ==> resolved
                    == Some(
                    (LiveView::HwmonInput(candidates[i].input_path), candidates[i].descriptor.id),
                )
            &&& resolved is Some ==> exists|i: int|
                0 <= i < candidates.len() && #[trigger] fits(i) && forall|j: int|
                    0 <= j < candidates.len() && #[trigger] fits(j) ==> j == i
        }),
{
    let fits = |i: int|
        is_asked_for(
            candidates[i],
            persistent.kind,
            chip_name,
            input,
            source_label,
            device_path_contains,
        );
    let source = persistent.source;
    let kind = persistent.kind;
    assert forall|i: int| #[trigger] fits(i) == candidate_matches(candidates[i], kind, source) by {
        lemma_asked_for(
            candidates[i],
            kind,
            chip_name,
            input,
            source_label,
            device_path_contains,
        );
    }
    assert forall|i: int|
        0 <= i < candidates.len() && #[trigger] fits(i) && (forall|j: int|
            0 <= j < candidates.len() && #[trigger] fits(j) ==> j == i) implies resolved == Some(
        (LiveView::HwmonInput(candidates[i].input_path), candidates[i].descriptor.id),
    ) by {
        assert forall|j: int| 0 <= j < candidates.len() && j != i implies !candidate_matches(
            #[trigger] candidates[j],
            kind,
            source,
        ) by {
            assert(!fits(j));
        }
        assert(only_match(candidates, kind, source, i));
        if let Some((live, id)) = resolved {
            let k = choose|k: int|
                #[trigger] only_match(candidates, kind, source, k) && live
                    == LiveView::HwmonInput(candidates[k].input_path) && id
                    == candidates[k].descriptor.id;
            assert(k == i) by {
                if k != i {
                    assert(!candidate_matches(candidates[i], kind, source));
                }
            }
        }
    }
    if let Some((live, id)) = resolved {
        let k = choose|k: int|
            #[trigger] only_match(candidates, kind, source, k) && live == LiveView::HwmonInput(
                candidates[k].input_path,
            ) && id == candidates[k].descriptor.id;
        assert(fits(k));
        assert forall|j: int| 0 <= j < candidates.len() && #[trigger] fits(j) implies j == k by {
            if j != k {
                assert(!candidate_matches(candidates[j], kind, source));
            }
        }
    }
}

/// The source of a persistent sensor of a disk or a controller is always there:
/// the device that is asked for, in place of the sensor of that device.
pub proof fn law_device_source_is_the_one_asked_for(
    config: AgentConfig,
    candidates: Seq<CandidateView>,
    persistent: PersistentConfigView,
    resolved: Option<(LiveView, Seq<char>)>,
)
    requires
        resolves(config.smartctl, candidates, persistent, resolved),
    ensures
        persistent.source matches SourceView::Smartctl { device } ==> (resolved matches Some(
            (LiveView::SmartctlTemperature { command, device: read, cache, .. }, id),
        ) && read == device && command == config.smartctl.command@ && cache is None && id
            == "smartctl:"@ + device),
        persistent.source matches SourceView::LsiHba { device, ioc } ==> (resolved matches Some(
            (LiveView::Mpt2IocTemperature { device: read, ioc: port }, _),
        ) && read == device && port == ioc),
{
}

// ── All sensors ──────────────────────────────────────────────────────────────

/// Whether a persistent sensor takes the place of the sensor `id`: its source is
/// what that sensor reads.
pub open spec fn place_is_taken(
    config: AgentConfig,
    candidates: Seq<CandidateView>,
    id: Seq<char>,
) -> bool {
    exists|p: int, source: LiveView|
        0 <= p < config.persistent_sensor@.len() && #[trigger] resolves(
            config.smartctl,
            candidates,
            config.persistent_sensor@[p]@,
            Some((source, id)),
        )
}

proof fn lemma_resolves_one(
    config: AgentConfig,
    candidates: Seq<CandidateView>,
    persistent: PersistentConfigView,
    a: Option<(LiveView, Seq<char>)>,
    b: Option<(LiveView, Seq<char>)>,
)
    requires
        resolves(config.smartctl, candidates, persistent, a),
        resolves(config.smartctl, candidates, persistent, b),
    ensures
        a == b,
{
    if persistent.source is Hwmon {
        let kind = persistent.kind;
        let source = persistent.source;
        if let Some((live, id)) = a {
            let i = choose|i: int|
                #[trigger] only_match(candidates, kind, source, i) && live == LiveView::HwmonInput(
                    candidates[i].input_path,
                ) && id == candidates[i].descriptor.id;
            if let Some((other_live, other_id)) = b {
                let j = choose|j: int|
                    #[trigger] only_match(candidates, kind, source, j) && other_live
                        == LiveView::HwmonInput(candidates[j].input_path) && other_id
                        == candidates[j].descriptor.id;
                if i != j {
                    assert(!candidate_matches(candidates[j], kind, source));
                }
            }
        } else if let Some((live, id)) = b {
            let j = choose|j: int|
                #[trigger] only_match(candidates, kind, source, j) && live == LiveView::HwmonInput(
                    candidates[j].input_path,
                ) && id == candidates[j].descriptor.id;
            assert(false);
        }
    }
}

proof fn lemma_hidden_is_taken(
    config: AgentConfig,
    candidates: Seq<CandidateView>,
    resolved: Seq<Option<(LiveView, Seq<char>)>>,
    persistent: Seq<TrackedView>,
    hidden: Seq<Seq<char>>,
    id: Seq<char>,
)
    requires
        are_persistent(
            config.smartctl,
            candidates,
            config_views(config.persistent_sensor@),
            resolved,
            persistent,
            hidden,
        ),
    ensures
        hidden.contains(id) <==> place_is_taken(config, candidates, id),
{
    let configured = config_views(config.persistent_sensor@);
    assert(hidden.contains(id) <==> shadowed(resolved, id));
    if shadowed(resolved, id) {
        let p = choose|p: int| 0 <= p < resolved.len() && shadows(#[trigger] resolved[p], id);
        assert(resolves(config.smartctl, candidates, configured[p], resolved[p]));
        let source = resolved[p].unwrap().0;
        assert(resolves(
            config.smartctl,
            candidates,
            config.persistent_sensor@[p]@,
            Some((source, id)),
        ));
    }
    if place_is_taken(config, candidates, id) {
        let (p, source) = choose|p: int, source: LiveView|
            0 <= p < config.persistent_sensor@.len() && #[trigger] resolves(
                config.smartctl,
                candidates,
                config.persistent_sensor@[p]@,
                Some((source, id)),
            );
        assert(resolves(config.smartctl, candidates, configured[p], resolved[p]));
        lemma_resolves_one(config, candidates, configured[p], resolved[p], Some((source, id)));
        assert(shadows(resolved[p], id));
    }
}

proof fn lemma_kept_filter(sensors: Seq<TrackedView>, hidden: Seq<Seq<char>>)
    ensures
        kept(sensors, hidden) == sensors.filter(
            |sensor: TrackedView| !hidden.contains(sensor.descriptor.id),
        ),
    decreases sensors.len(),
{
    let stays = |sensor: TrackedView| !hidden.contains(sensor.descriptor.id);
    if sensors.len() == 0 {
        lemma_filter_none(sensors, stays);
    } else {
        lemma_kept_filter(sensors.drop_last(), hidden);
        lemma_filter_last(sensors, stays);
    }
}

/// Whether `sensor` is one of `sensors`, as a view.
pub open spec fn among(sensors: Seq<TrackedSensor>, sensor: TrackedView) -> bool {
    exists|i: int| 0 <= i < sensors.len() && (#[trigger] sensors[i])@ == sensor
}

proof fn lemma_sorted_among(found: Seq<TrackedSensor>, sensors: Seq<TrackedSensor>, x: TrackedView)
    requires
        is_stable_sort(found, sensors),
    ensures
        among(sensors, x) <==> tracked_views(found).contains(x),
{
    if among(sensors, x) {
        let i = choose|i: int| 0 <= i < sensors.len() && (#[trigger] sensors[i])@ == x;
        lemma_stable_sort_contains(found, sensors, sensors[i]);
        assert(sensors.contains(sensors[i]));
        let j = choose|j: int| 0 <= j < found.len() && found[j] == sensors[i];
        assert(tracked_views(found)[j] == x);
    }
    if tracked_views(found).contains(x) {
        let j = choose|j: int| 0 <= j < tracked_views(found).len() && tracked_views(found)[j] == x;
        lemma_stable_sort_contains(found, sensors, found[j]);
        assert(found.contains(found[j]));
        let i = choose|i: int| 0 <= i < sensors.len() && sensors[i] == found[j];
        assert(sensors[i]@ == x);
    }
}

/// The sensor of a persistent sensor with the given source, if any.
pub open spec fn sensor_as_configured(
    persistent: PersistentConfigView,
    source: Option<LiveView>,
) -> TrackedView {
    TrackedView {
        descriptor: DescriptorView {
            id: persistent.id,
            kind: persistent.kind,
            label: persistent.label,
            persistent: true,
            default_value: Some(persistent.default_value),
        },
        source: TrackedSourceView::Persistent { source, default_value: persistent.default_value },
    }
}

/// A scan finds every hwmon candidate, every controller that answered where
/// controllers are read, and every disk, each as what it is, unless a persistent
/// sensor takes its place, and every persistent sensor with its source.
pub proof fn law_scan_finds_every_sensor(
    config: AgentConfig,
    candidates: Seq<CandidateView>,
    readings: Seq<HbaReading>,
    disks: Seq<SmartctlSensor>,
    sensors: Seq<TrackedSensor>,
    i: int,
)
    requires
        scanned(config, candidates, readings, disks, sensors),
    ensures
        0 <= i < candidates.len() && !place_is_taken(config, candidates, candidates[i].descriptor.id)
            ==> among(
            sensors,
            TrackedView {
                descriptor: candidates[i].descriptor,
                source: TrackedSourceView::Live(LiveView::HwmonInput(candidates[i].input_path)),
            },
        ),
        0 <= i < disks.len() && !place_is_taken(config, candidates, disks[i].descriptor.id@)
            ==> among(
            sensors,
            TrackedView {
                descriptor: disks[i].descriptor@,
                source: TrackedSourceView::Live(
                    LiveView::SmartctlTemperature {
                        command: disks[i].source.command@,
                        device: disks[i].source.device@,
                        timeout_seconds: disks[i].source.timeout_seconds,
                        poll_seconds: disks[i].source.poll_seconds,
                        cache: disks[i].source.cache,
                    },
                ),
            },
        ),
        0 <= i < readings.len() && config.lsi_hba.enabled && !place_is_taken(
            config,
            candidates,
            hba_tracked(config.lsi_hba, readings[i]).descriptor.id,
        ) ==> among(sensors, hba_tracked(config.lsi_hba, readings[i])),
        0 <= i < config.persistent_sensor@.len() ==> exists|resolved: Option<
            (LiveView, Seq<char>),
        >|
            #[trigger] resolves(
                config.smartctl,
                candidates,
                config.persistent_sensor@[i]@,
                resolved,
            ) && among(
                sensors,
                sensor_as_configured(
                    config.persistent_sensor@[i]@,
                    match resolved {
                        Some((source, _)) => Some(source),
                        None => None,
                    },
                ),
            ),
{
    let (resolved, persistent, hidden, found) = choose|
        resolved: Seq<Option<(LiveView, Seq<char>)>>,
        persistent: Seq<TrackedView>,
        hidden: Seq<Seq<char>>,
        found: Seq<TrackedSensor>,
    |
        #[trigger] is_scan(
            config,
            candidates,
            readings,
            disks,
            resolved,
            persistent,
            hidden,
            tracked_views(found),
        ) && #[trigger] is_stable_sort(found, sensors);
    let stays = |sensor: TrackedView| !hidden.contains(sensor.descriptor.id);
    let a = candidates.map_values(|candidate: CandidateView| candidate_tracked(candidate));
    let b = hba_sensors(config.lsi_hba, readings);
    let c = disks.map_values(|sensor: SmartctlSensor| disk_tracked(sensor));
    lemma_kept_filter(a, hidden);
    lemma_kept_filter(b, hidden);
    lemma_kept_filter(c, hidden);
    let all = tracked_views(found);
    assert(all == persistent + kept(a, hidden) + kept(b, hidden) + kept(c, hidden));
    if 0 <= i < candidates.len() {
        lemma_hidden_is_taken(
            config,
            candidates,
            resolved,
            persistent,
            hidden,
            candidates[i].descriptor.id,
        );
        if !hidden.contains(candidates[i].descriptor.id) {
            assert(a[i] == candidate_tracked(candidates[i]));
            lemma_filter_member(a, stays, a[i]);
            let k = choose|k: int| 0 <= k < kept(a, hidden).len() && kept(a, hidden)[k] == a[i];
            assert(all[persistent.len() + k] == a[i]);
            lemma_sorted_among(found, sensors, a[i]);
        }
    }
    if 0 <= i < readings.len() && config.lsi_hba.enabled {
        assert(b[i] == hba_tracked(config.lsi_hba, readings[i]));
        lemma_hidden_is_taken(
            config,
            candidates,
            resolved,
            persistent,
            hidden,
            b[i].descriptor.id,
        );
        if !hidden.contains(b[i].descriptor.id) {
            lemma_filter_member(b, stays, b[i]);
            let k = choose|k: int| 0 <= k < kept(b, hidden).len() && kept(b, hidden)[k] == b[i];
            assert(all[persistent.len() + kept(a, hidden).len() + k] == b[i]);
            lemma_sorted_among(found, sensors, b[i]);
        }
    }
    if 0 <= i < disks.len() {
        lemma_hidden_is_taken(
            config,
            candidates,
            resolved,
            persistent,
            hidden,
            disks[i].descriptor.id@,
        );
        if !hidden.contains(disks[i].descriptor.id@) {
            assert(c[i] == disk_tracked(disks[i]));
            lemma_filter_member(c, stays, c[i]);
            let k = choose|k: int| 0 <= k < kept(c, hidden).len() && kept(c, hidden)[k] == c[i];
            assert(all[persistent.len() + kept(a, hidden).len() + kept(b, hidden).len() + k]
                == c[i]);
            lemma_sorted_among(found, sensors, c[i]);
        }
    }
    if 0 <= i < config.persistent_sensor@.len() {
        let configured = config_views(config.persistent_sensor@);
        assert(resolves(config.smartctl, candidates, configured[i], resolved[i]));
        assert(configured[i] == config.persistent_sensor@[i]@);
        assert(all[i] == persistent[i]);
        lemma_sorted_among(found, sensors, persistent[i]);
    }
}

/// A scan finds nothing else: whatever it lists is a persistent sensor as
/// configured, or a candidate, a controller or a disk whose place is not taken;
/// and it lists as many as there are of these.
pub proof fn law_scan_finds_nothing_else(
    config: AgentConfig,
    candidates: Seq<CandidateView>,
    readings: Seq<HbaReading>,
    disks: Seq<SmartctlSensor>,
    sensors: Seq<TrackedSensor>,
    i: int,
)
    requires
        scanned(config, candidates, readings, disks, sensors),
        0 <= i < sensors.len(),
    ensures
        (exists|p: int|
            0 <= p < config.persistent_sensor@.len() && sensors[i].descriptor.persistent && (
            #[trigger] config.persistent_sensor@[p]).id@ == sensors[i].descriptor.id@) || (
        !place_is_taken(config, candidates, sensors[i].descriptor.id@) && ((exists|k: int|
            0 <= k < candidates.len() && sensors[i].descriptor@ == (
            #[trigger] candidates[k]).descriptor) || (exists|k: int|
            0 <= k < disks.len() && sensors[i].descriptor@ == (#[trigger] disks[k]).descriptor@)
            || (config.lsi_hba.enabled && exists|k: int|
            0 <= k < readings.len() && sensors[i]@ == hba_tracked(
                config.lsi_hba,
                #[trigger] readings[k],
            )))),
        sensors.len() == config.persistent_sensor@.len() + candidates.filter(
            |candidate: CandidateView|
                !place_is_taken(config, candidates, candidate.descriptor.id),
        ).len() + disks.filter(
            |disk: SmartctlSensor| !place_is_taken(config, candidates, disk.descriptor.id@),
        ).len() + (if config.lsi_hba.enabled {
            readings.filter(
                |reading: HbaReading|
                    !place_is_taken(
                        config,
                        candidates,
                        hba_tracked(config.lsi_hba, reading).descriptor.id,
                    ),
            ).len()
        } else {
            0
        }),
{
    let (resolved, persistent, hidden, found) = choose|
        resolved: Seq<Option<(LiveView, Seq<char>)>>,
        persistent: Seq<TrackedView>,
        hidden: Seq<Seq<char>>,
        found: Seq<TrackedSensor>,
    |
        #[trigger] is_scan(
            config,
            candidates,
            readings,
            disks,
            resolved,
            persistent,
            hidden,
            tracked_views(found),
        ) && #[trigger] is_stable_sort(found, sensors);
    let stays = |sensor: TrackedView| !hidden.contains(sensor.descriptor.id);
    let a = candidates.map_values(|candidate: CandidateView| candidate_tracked(candidate));
    let b = hba_sensors(config.lsi_hba, readings);
    let c = disks.map_values(|sensor: SmartctlSensor| disk_tracked(sensor));
    lemma_kept_filter(a, hidden);
    lemma_kept_filter(b, hidden);
    lemma_kept_filter(c, hidden);
    let all = tracked_views(found);
    let x = sensors[i]@;
    assert(among(sensors, x));
    lemma_sorted_among(found, sensors, x);
    let k = choose|k: int| 0 <= k < all.len() && all[k] == x;
    let n = persistent.len() as int;
    let na = kept(a, hidden).len() as int;
    let nb = kept(b, hidden).len() as int;
    lemma_hidden_is_taken(config, candidates, resolved, persistent, hidden, x.descriptor.id);
    lemma_filter_member(a, stays, x);
    lemma_filter_member(b, stays, x);
    lemma_filter_member(c, stays, x);
    if k < n {
        let configured = config_views(config.persistent_sensor@);
        assert(resolves(config.smartctl, candidates, configured[k], resolved[k]));
        assert(x == persistent[k]);
        assert(config.persistent_sensor@[k].id@ == x.descriptor.id);
    } else if k < n + na {
        assert(kept(a, hidden)[k - n] == x);
        assert(a.contains(x));
        let m = choose|m: int| 0 <= m < a.len() && a[m] == x;
        assert(candidates[m].descriptor == x.descriptor);
    } else if k < n + na + nb {
        assert(kept(b, hidden)[k - n - na] == x);
        assert(b.contains(x));
        let m = choose|m: int| 0 <= m < b.len() && b[m] == x;
        assert(x == hba_tracked(config.lsi_hba, readings[m]));
    } else {
        assert(kept(c, hidden)[k - n - na - nb] == x);
        assert(c.contains(x));
        let m = choose|m: int| 0 <= m < c.len() && c[m] == x;
        assert(disks[m].descriptor@ == x.descriptor);
    }
    let untaken = |sensor: TrackedView|
        !place_is_taken(config, candidates, sensor.descriptor.id);
    assert forall|sensor: TrackedView| #[trigger] stays(sensor) == untaken(sensor) by {
        lemma_hidden_is_taken(
            config,
            candidates,
            resolved,
            persistent,
            hidden,
            sensor.descriptor.id,
        );
    }
    assert(stays =~= untaken);
    let of_candidate = |candidate: CandidateView| candidate_tracked(candidate);
    let of_disk = |disk: SmartctlSensor| disk_tracked(disk);
    let of_reading = |reading: HbaReading| hba_tracked(config.lsi_hba, reading);
    lemma_filter_mapped(candidates, of_candidate, untaken);
    lemma_filter_mapped(disks, of_disk, untaken);
    lemma_filter_mapped(readings, of_reading, untaken);
    assert((|candidate: CandidateView| untaken(of_candidate(candidate))) =~= (|
        candidate: CandidateView,
    | !place_is_taken(config, candidates, candidate.descriptor.id)));
    assert((|disk: SmartctlSensor| untaken(of_disk(disk))) =~= (|disk: SmartctlSensor|
        !place_is_taken(config, candidates, disk.descriptor.id@)));
    assert((|reading: HbaReading| untaken(of_reading(reading))) =~= (|reading: HbaReading|
        !place_is_taken(
            config,
            candidates,
            hba_tracked(config.lsi_hba, reading).descriptor.id,
        )));
    if !config.lsi_hba.enabled {
        lemma_filter_none(b, stays);
    }
    assert(all.len() == found.len());
}

/// What a scan lists stands in the order of its identifiers.
pub proof fn law_scan_is_in_order(
    config: AgentConfig,
    candidates: Seq<CandidateView>,
    readings: Seq<HbaReading>,
    disks: Seq<SmartctlSensor>,
    sensors: Seq<TrackedSensor>,
    i: int,
    j: int,
)
    requires
        scanned(config, candidates, readings, disks, sensors),
        0 <= i < j < sensors.len(),
    ensures
        !text_less(sensors[j].descriptor.id@, sensors[i].descriptor.id@),
{
    assert(!text_less(sensors[j].key_text(), sensors[i].key_text()));
}

/// The sensor of a controller reads the port of that controller, and is called
/// by its device and port.
pub proof fn law_controller_sensor(config: LsiHbaSection, reading: HbaReading)
    ensures
        ({
            let sensor = hba_tracked(config, reading);
            &&& sensor.source == TrackedSourceView::Live(
                LiveView::Mpt2IocTemperature { device: reading.device@, ioc: reading.ioc },
            )
            &&& sensor.descriptor.kind == SensorKind::Temperature
            &&& !sensor.descriptor.persistent
            &&& file_name_of(reading.device@) matches Some(name) ==> sensor.descriptor.id
                == "hba:"@ + name + ":ioc"@ + decimal(reading.ioc as nat)
        }),
{
}

// ── Inputs of sysfs ──────────────────────────────────────────────────────────

/// The files whose names begin with the letters of a kind, go on with a number
/// and end with `_input` hold readings of that kind.
pub proof fn law_input_names(n: u32)
    ensures
        input_parts("temp"@ + decimal(n as nat) + "_input"@) == Some(
            (SensorKind::Temperature, "temp"@, n as nat),
        ),
        input_parts("fan"@ + decimal(n as nat) + "_input"@) == Some(
            (SensorKind::Fan, "fan"@, n as nat),
        ),
        input_parts("in"@ + decimal(n as nat) + "_input"@) == Some(
            (SensorKind::Voltage, "in"@, n as nat),
        ),
        input_parts("curr"@ + decimal(n as nat) + "_input"@) == Some(
            (SensorKind::Current, "curr"@, n as nat),
        ),
        input_parts("power"@ + decimal(n as nat) + "_input"@) == Some(
            (SensorKind::Power, "power"@, n as nat),
        ),
{
    reveal_strlit("temp");
    reveal_strlit("fan");
    reveal_strlit("in");
    reveal_strlit("curr");
    reveal_strlit("power");
    lemma_input_stem("temp"@, n);
    lemma_input_stem("fan"@, n);
    lemma_input_stem("in"@, n);
    lemma_input_stem("curr"@, n);
    lemma_input_stem("power"@, n);
    let digits = decimal(n as nat);
    lemma_other_prefix("temp"@, "fan"@ + digits);
    lemma_other_prefix("temp"@, "in"@ + digits);
    lemma_other_prefix("fan"@, "in"@ + digits);
    lemma_other_prefix("temp"@, "curr"@ + digits);
    lemma_other_prefix("fan"@, "curr"@ + digits);
    lemma_other_prefix("in"@, "curr"@ + digits);
    lemma_other_prefix("temp"@, "power"@ + digits);
    lemma_other_prefix("fan"@, "power"@ + digits);
    lemma_other_prefix("in"@, "power"@ + digits);
    lemma_other_prefix("curr"@, "power"@ + digits);
}

proof fn lemma_input_stem(prefix: Seq<char>, n: u32)
    ensures
        without_suffix(prefix + decimal(n as nat) + "_input"@, "_input"@) == Some(
            prefix + decimal(n as nat),
        ),
        number_behind(prefix + decimal(n as nat), prefix) == Some(n as nat),
{
    let stem = prefix + decimal(n as nat);
    let name = stem + "_input"@;
    law_printed_number_reads_back(n as nat);
    assert(name.skip(name.len() - "_input"@.len()) =~= "_input"@);
    assert(name.take(name.len() - "_input"@.len()) =~= stem);
    assert(stem.take(prefix.len() as int) =~= prefix);
    assert(stem.skip(prefix.len() as int) =~= decimal(n as nat));
}

proof fn lemma_other_prefix(prefix: Seq<char>, stem: Seq<char>)
    requires
        prefix.len() > 0,
        stem.len() > 0,
        stem[0] != prefix[0],
    ensures
        number_behind(stem, prefix) is None,
{
    if has_prefix(stem, prefix) {
        assert(stem.take(prefix.len() as int)[0] == stem[0]);
    }
}

/// Any other file holds no readings: what holds some ends with `_input` and
/// begins with the letters of its kind.
pub proof fn law_inputs_have_their_names(name: Seq<char>)
    ensures
        input_parts(name) matches Some((kind, prefix, index)) ==> {
            &&& has_suffix(name, "_input"@)
            &&& has_prefix(name, prefix)
            &&& kind == SensorKind::Temperature ==> prefix == "temp"@
            &&& kind == SensorKind::Fan ==> prefix == "fan"@
            &&& kind == SensorKind::Voltage ==> prefix == "in"@
            &&& kind == SensorKind::Current ==> prefix == "curr"@
            &&& kind == SensorKind::Power ==> prefix == "power"@
            &&& index <= u32::MAX
        },
{
    if let Some((kind, prefix, index)) = input_parts(name) {
        let stem = without_suffix(name, "_input"@).unwrap();
        assert(has_prefix(stem, prefix));
        assert(name.take(prefix.len() as int) =~= stem.take(prefix.len() as int));
    }
}

proof fn lemma_directory_candidates(directory: HwmonDirectory, n: int, x: CandidateView)
    requires
        0 <= n <= directory.files@.len(),
    ensures
        directory_candidates(directory, n).contains(x) <==> exists|f: int|
            0 <= f < n && file_candidate(directory, #[trigger] directory.files@[f]) == Some(x),
    decreases n,
{
    if n > 0 {
        lemma_directory_candidates(directory, n - 1, x);
        let before = directory_candidates(directory, n - 1);
        let all = directory_candidates(directory, n);
        if before.contains(x) {
            let k = choose|k: int| 0 <= k < before.len() && before[k] == x;
            assert(all[k] == x);
        }
        if all.contains(x) {
            let k = choose|k: int| 0 <= k < all.len() && all[k] == x;
            if k < before.len() {
                assert(before[k] == x);
            } else {
                assert(file_candidate(directory, directory.files@[n - 1]) == Some(x));
            }
        }
        if file_candidate(directory, directory.files@[n - 1]) == Some(x) {
            assert(all[before.len() as int] == x);
        }
    }
}

proof fn lemma_found_candidates(directories: Seq<HwmonDirectory>, x: CandidateView)
    ensures
        found_candidates(directories).contains(x) <==> exists|d: int, f: int|
            0 <= d < directories.len() && 0 <= f < directories[d].files@.len() && file_candidate(
                directories[d],
                #[trigger] directories[d].files@[f],
            ) == Some(x),
    decreases directories.len(),
{
    if directories.len() > 0 {
        let before = directories.drop_last();
        let last = directories.last();
        let n = last.files@.len() as int;
        lemma_found_candidates(before, x);
        lemma_directory_candidates(last, n, x);
        let a = found_candidates(before);
        let b = directory_candidates(last, n);
        let all = found_candidates(directories);
        assert(all == a + b);
        if a.contains(x) {
            let k = choose|k: int| 0 <= k < a.len() && a[k] == x;
            assert(all[k] == x);
            let (d, f) = choose|d: int, f: int|
                0 <= d < before.len() && 0 <= f < before[d].files@.len() && file_candidate(
                    before[d],
                    #[trigger] before[d].files@[f],
                ) == Some(x);
            assert(file_candidate(directories[d], directories[d].files@[f]) == Some(x));
        }
        if b.contains(x) {
            let k = choose|k: int| 0 <= k < b.len() && b[k] == x;
            assert(all[a.len() + k] == x);
            let f = choose|f: int|
                0 <= f < n && file_candidate(last, #[trigger] last.files@[f]) == Some(x);
            let d = directories.len() - 1;
            assert(file_candidate(directories[d], directories[d].files@[f]) == Some(x));
        }
        if all.contains(x) {
            let k = choose|k: int| 0 <= k < all.len() && all[k] == x;
            if k < a.len() {
                assert(a[k] == x);
            } else {
                assert(b[k - a.len()] == x);
            }
        }
        if exists|d: int, f: int|
            0 <= d < directories.len() && 0 <= f < directories[d].files@.len() && file_candidate(
                directories[d],
                #[trigger] directories[d].files@[f],
            ) == Some(x) {
            let (d, f) = choose|d: int, f: int|
                0 <= d < directories.len() && 0 <= f < directories[d].files@.len()
                    && file_candidate(directories[d], #[trigger] directories[d].files@[f]) == Some(
                    x,
                );
            if d < before.len() {
                assert(file_candidate(before[d], before[d].files@[f]) == Some(x));
            } else {
                assert(file_candidate(last, last.files@[f]) == Some(x));
            }
        }
    } else {
        assert(found_candidates(directories).len() == 0);
    }
}

/// Every input of every device is a candidate: with its kind, its file, and the
/// chip and path of its device. It is called by its label where that says
/// anything, else by its chip and place.
pub proof fn law_every_input_is_a_candidate(
    directories: Seq<HwmonDirectory>,
    found: Seq<HwmonCandidate>,
    candidates: Seq<HwmonCandidate>,
    d: int,
    f: int,
    kind: SensorKind,
    prefix: Seq<char>,
    index: nat,
)
    requires
        candidate_views(found) == found_candidates(directories),
        is_stable_sort(found, candidates),
        0 <= d < directories.len(),
        0 <= f < directories[d].files@.len(),
        input_parts(directories[d].files@[f].file_name@) == Some((kind, prefix, index)),
    ensures
        exists|i: int|
            0 <= i < candidates.len() && {
                let directory = directories[d];
                let file = directory.files@[f];
                let candidate = (#[trigger] candidates[i])@;
                &&& candidate.descriptor.kind == kind
                &&& candidate.descriptor.id == directory.path@ + ":"@ + (prefix + decimal(index))
                &&& !candidate.descriptor.persistent
                &&& candidate.input_name == file.file_name@
                &&& candidate.device_path == directory.device_path@
                &&& directory.name matches Some(name) ==> candidate.chip_name == trimmed(name@)
                &&& directory.name is None ==> candidate.chip_name == "hwmon"@
                &&& candidate.source_label is Some <==> (file.label matches Some(label) && trimmed(
                    label@,
                ).len() > 0)
                &&& candidate.source_label matches Some(label) ==> label == trimmed(
                    file.label.unwrap()@,
                ) && candidate.descriptor.label == label
                &&& candidate.source_label is None ==> candidate.descriptor.label
                    == candidate.chip_name + " "@ + (prefix + decimal(index))
                &&& candidate.input_path == path_join(directory.path@, file.file_name@)
            },
{
    let x = file_candidate(directories[d], directories[d].files@[f]).unwrap();
    lemma_found_candidates(directories, x);
    assert(file_candidate(directories[d], directories[d].files@[f]) == Some(x));
    let k = choose|k: int| 0 <= k < candidate_views(found).len() && candidate_views(found)[k] == x;
    lemma_stable_sort_contains(found, candidates, found[k]);
    assert(found.contains(found[k]));
    let i = choose|i: int| 0 <= i < candidates.len() && candidates[i] == found[k];
    assert(candidates[i]@ == x);
}

/// There are no other candidates than inputs of devices.
pub proof fn law_candidates_are_inputs(
    directories: Seq<HwmonDirectory>,
    found: Seq<HwmonCandidate>,
    candidates: Seq<HwmonCandidate>,
    i: int,
)
    requires
        candidate_views(found) == found_candidates(directories),
        is_stable_sort(found, candidates),
        0 <= i < candidates.len(),
    ensures
        exists|d: int, f: int|
            0 <= d < directories.len() && 0 <= f < directories[d].files@.len() && candidates[i]@.input_name
                == (#[trigger] directories[d].files@[f]).file_name@ && input_parts(
                directories[d].files@[f].file_name@,
            ) is Some && candidates[i]@.device_path == directories[d].device_path@,
        forall|j: int|
            i < j < candidates.len() ==> !text_less(
                (#[trigger] candidates[j]).descriptor.id@,
                candidates[i].descriptor.id@,
            ),
{
    lemma_stable_sort_contains(found, candidates, candidates[i]);
    assert(candidates.contains(candidates[i]));
    let k = choose|k: int| 0 <= k < found.len() && found[k] == candidates[i];
    assert(candidate_views(found)[k] == candidates[i]@);
    lemma_found_candidates(directories, candidates[i]@);
    let (d, f) = choose|d: int, f: int|
        0 <= d < directories.len() && 0 <= f < directories[d].files@.len() && file_candidate(
            directories[d],
            #[trigger] directories[d].files@[f],
        ) == Some(candidates[i]@);
    assert(candidates[i]@.input_name == directories[d].files@[f].file_name@);
    assert forall|j: int| i < j < candidates.len() implies !text_less(
        (#[trigger] candidates[j]).descriptor.id@,
        candidates[i].descriptor.id@,
    ) by {
        assert(!text_less(candidates[j].key_text(), candidates[i].key_text()));
    }
}

// ── Readings ─────────────────────────────────────────────────────────────────

/// Whether the sensor at place `i` has a value: it always has one where it is
/// persistent, and else where its source read one.
pub open spec fn has_value(sensors: Seq<TrackedView>, reads: Seq<Option<i64>>, i: int) -> bool {
    sensors[i].source is Persistent || (i < reads.len() && reads[i] is Some)
}

/// A sample holds the value of every sensor that has one, under the identifier
/// of that sensor and in the order of the sensors: what its source read, or the
/// default of a persistent sensor whose source is absent or read nothing. It
/// holds nothing else.
pub proof fn law_sample_holds_every_value(
    sensors: Seq<TrackedView>,
    reads: Seq<Option<i64>>,
    i: int,
)
    ensures
        ({
            let places = Seq::new(sensors.len(), |k: int| k);
            let valued = |k: int| has_value(sensors, reads, k);
            let values = sensor_values(sensors, reads, sensors.len() as int);
            let place = places.take(i).filter(valued).len() as int;
            &&& values.len() == places.filter(valued).len()
            &&& 0 <= i < sensors.len() && has_value(sensors, reads, i) ==> {
                let read = if i < reads.len() {
                    reads[i]
                } else {
                    None
                };
                &&& place < values.len()
                &&& values[place].0 == sensors[i].descriptor.id
                &&& sensors[i].source is Live ==> Some(values[place].1) == read
                &&& sensors[i].source matches TrackedSourceView::Persistent {
                    source,
                    default_value,
                } ==> values[place].1 == (if source is Some && read is Some {
                    read.unwrap()
                } else {
                    default_value
                })
            }
        }),
{
    let places = Seq::new(sensors.len(), |k: int| k);
    let valued = |k: int| has_value(sensors, reads, k);
    lemma_sensor_values(sensors, reads, sensors.len() as int);
    assert(places.take(sensors.len() as int) =~= places);
}

proof fn lemma_sensor_values(sensors: Seq<TrackedView>, reads: Seq<Option<i64>>, n: int)
    requires
        0 <= n <= sensors.len(),
    ensures
        ({
            let places = Seq::new(sensors.len(), |k: int| k);
            let valued = |k: int| has_value(sensors, reads, k);
            let values = sensor_values(sensors, reads, n);
            &&& values.len() == places.take(n).filter(valued).len()
            &&& forall|i: int|
                0 <= i < n && #[trigger] has_value(sensors, reads, i) ==> {
                    let place = places.take(i).filter(valued).len() as int;
                    &&& 0 <= place < values.len()
                    &&& values[place].0 == sensors[i].descriptor.id
                    &&& Some(values[place].1) == source_value(
                        sensors[i].source,
                        reading_at(reads, i),
                    )
                }
        }),
    decreases n,
{
    let places = Seq::new(sensors.len(), |k: int| k);
    let valued = |k: int| has_value(sensors, reads, k);
    if n == 0 {
        lemma_filter_none(places.take(0), valued);
    } else {
        lemma_sensor_values(sensors, reads, n - 1);
        lemma_filter_take(places, valued, n - 1);
        let before = sensor_values(sensors, reads, n - 1);
        let values = sensor_values(sensors, reads, n);
        assert forall|i: int| 0 <= i < n && #[trigger] has_value(sensors, reads, i) implies {
            let place = places.take(i).filter(valued).len() as int;
            &&& 0 <= place < values.len()
            &&& values[place].0 == sensors[i].descriptor.id
            &&& Some(values[place].1) == source_value(sensors[i].source, reading_at(reads, i))
        } by {
            let place = places.take(i).filter(valued).len() as int;
            if i < n - 1 {
                assert(before[place] == values[place]);
            }
        }
    }
}

// ── Temperatures of disks ────────────────────────────────────────────────────

/// Where a line tells a temperature outright and none before it does, that is
/// the temperature of the disk, in thousandths of a degree, whatever other lines
/// and rows there are.
pub proof fn law_first_told_temperature(output: Seq<char>, i: int, degrees: int)
    requires
        0 <= i < lines(output).len(),
        line_temperature(lines(output)[i]) == Some(degrees),
        forall|j: int| 0 <= j < i ==> line_temperature(#[trigger] lines(output)[j]) is None,
    ensures
        printed_temperature(output) == Some(degrees * 1000),
{
    lemma_first_told(lines(output), None, i, degrees);
}

proof fn lemma_first_told(
    all: Seq<Seq<char>>,
    best: Option<(int, int)>,
    i: int,
    degrees: int,
)
    requires
        0 <= i < all.len(),
        line_temperature(all[i]) == Some(degrees),
        forall|j: int| 0 <= j < i ==> line_temperature(#[trigger] all[j]) is None,
    ensures
        lines_temperature(all, best) == Some(degrees),
    decreases all.len(),
{
    if i > 0 {
        let rest = all.skip(1);
        assert(line_temperature(all[0]) is None);
        assert(rest[i - 1] == all[i]);
        assert forall|j: int| 0 <= j < i - 1 implies line_temperature(
            #[trigger] rest[j],
        ) is None by {
            assert(rest[j] == all[j + 1]);
        }
        lemma_first_told(rest, better(best, row_temperature(all[0])), i - 1, degrees);
    }
}

/// Where no line tells a temperature outright, it is that of the best row of the
/// attribute table, the first of those that are equally good; without such a row
/// there is none.
pub proof fn law_best_row_tells_the_temperature(output: Seq<char>)
    requires
        forall|j: int|
            0 <= j < lines(output).len() ==> line_temperature(#[trigger] lines(output)[j]) is None,
    ensures
        match printed_temperature(output) {
            Some(value) => exists|i: int|
                0 <= i < lines(output).len() && is_best_row(lines(output), i) && Some(value) == Some(
                    row_temperature(#[trigger] lines(output)[i]).unwrap().1 * 1000,
                ),
            None => forall|j: int|
                0 <= j < lines(output).len() ==> row_temperature(#[trigger] lines(output)[j]) is None,
        },
{
    lemma_best_row(lines(output), None);
}

/// Whether the row at place `i` is the best: none is better, and none before it
/// is as good.
pub open spec fn is_best_row(all: Seq<Seq<char>>, i: int) -> bool {
    row_temperature(all[i]) matches Some((rank, _)) && forall|j: int|
        0 <= j < all.len() && j != i ==> (row_temperature(#[trigger] all[j]) matches Some((other, _))
            ==> (if j < i {
            rank < other
        } else {
            rank <= other
        }))
}

proof fn lemma_best_row(all: Seq<Seq<char>>, best: Option<(int, int)>)
    requires
        forall|j: int| 0 <= j < all.len() ==> line_temperature(#[trigger] all[j]) is None,
    ensures
        match lines_temperature(all, best) {
            Some(value) => (best matches Some((rank, own)) && own == value && forall|j: int|
                0 <= j < all.len() ==> (row_temperature(#[trigger] all[j]) matches Some((other, _))
                    ==> rank <= other)) || (exists|i: int|
                0 <= i < all.len() && is_best_row(all, i) && row_temperature(
                    #[trigger] all[i],
                ).unwrap().1 == value && (best matches Some((rank, _)) ==> row_temperature(
                    all[i],
                ).unwrap().0 < rank)),
            None => best is None && forall|j: int|
                0 <= j < all.len() ==> row_temperature(#[trigger] all[j]) is None,
        },
    decreases all.len(),
{
    if all.len() > 0 {
        let rest = all.skip(1);
        let next = better(best, row_temperature(all[0]));
        assert forall|j: int| 0 <= j < rest.len() implies line_temperature(
            #[trigger] rest[j],
        ) is None by {
            assert(rest[j] == all[j + 1]);
        }
        assert(line_temperature(all[0]) is None);
        lemma_best_row(rest, next);
        assert forall|j: int| 1 <= j < all.len() implies #[trigger] all[j] == rest[j - 1] by {}
        match lines_temperature(rest, next) {
            None => {
                assert forall|j: int| 0 <= j < all.len() implies row_temperature(
                    #[trigger] all[j],
                ) is None by {
                    if j > 0 {
                        assert(all[j] == rest[j - 1]);
                    }
                }
            },
            Some(value) => {
                if exists|i: int|
                    0 <= i < rest.len() && is_best_row(rest, i) && row_temperature(
                        #[trigger] rest[i],
                    ).unwrap().1 == value && (next matches Some((rank, _)) ==> row_temperature(
                        rest[i],
                    ).unwrap().0 < rank) {
                    let i = choose|i: int|
                        0 <= i < rest.len() && is_best_row(rest, i) && row_temperature(
                            #[trigger] rest[i],
                        ).unwrap().1 == value && (next matches Some((rank, _)) ==> row_temperature(
                            rest[i],
                        ).unwrap().0 < rank);
                    assert(all[i + 1] == rest[i]);
                    assert(is_best_row(all, i + 1)) by {
                        assert forall|j: int| 0 <= j < all.len() && j != i + 1 implies (
                        row_temperature(#[trigger] all[j]) matches Some((other, _)) ==> (if j < i
                            + 1 {
                            row_temperature(all[i + 1]).unwrap().0 < other
                        } else {
                            row_temperature(all[i + 1]).unwrap().0 <= other
                        })) by {
                            if j > 0 {
                                assert(all[j] == rest[j - 1]);
                            }
                        }
                    }
                } else if next == best {
                    assert forall|j: int| 0 <= j < all.len() implies (row_temperature(
                        #[trigger] all[j],
                    ) matches Some((other, _)) ==> best.unwrap().0 <= other) by {
                        if j > 0 {
                            assert(all[j] == rest[j - 1]);
                        }
                    }
                } else {
                    assert(next == row_temperature(all[0]));
                    assert(is_best_row(all, 0)) by {
                        assert forall|j: int| 0 <= j < all.len() && j != 0 implies (
                        row_temperature(#[trigger] all[j]) matches Some((other, _))
                            ==> row_temperature(all[0]).unwrap().0 <= other) by {
                            assert(all[j] == rest[j - 1]);
                        }
                    }
                }
            },
        }
    }
}

/// Behind separators a number stands as a piece of its own.
proof fn lemma_pieces_number(a: Seq<char>, digits: Seq<char>, b: Seq<char>)
    requires
        forall|i: int| 0 <= i < a.len() ==> Separator::NonNumber.splits(#[trigger] a[i]),
        forall|i: int| 0 <= i < digits.len() ==> is_digit(#[trigger] digits[i]),
        digits.len() > 0,
        b.len() > 0 ==> Separator::NonNumber.splits(b[0]),
    ensures
        pieces(a + digits + b, Separator::NonNumber).len() > a.len(),
        forall|k: int|
            0 <= k < a.len() ==> #[trigger] pieces(a + digits + b, Separator::NonNumber)[k]
                == Seq::<char>::empty(),
        pieces(a + digits + b, Separator::NonNumber)[a.len() as int] == digits,
        b.len() == 0 ==> pieces(a + digits + b, Separator::NonNumber).len() == a.len() + 1,
    decreases a.len() + digits.len() + b.len(),
{
    let s = a + digits + b;
    let sep = Separator::NonNumber;
    if b.len() > 0 {
        let c = b.drop_last();
        lemma_pieces_number(a, digits, c);
        assert(s.drop_last() =~= a + digits + c);
        assert(s.last() == b.last());
        let before = pieces(a + digits + c, sep);
        if b.len() == 1 {
            assert(sep.splits(b[0]));
        } else {
            lemma_pieces_longer(a, digits, c);
        }
    } else if digits.len() > 1 {
        let d = digits.drop_last();
        assert forall|i: int| 0 <= i < d.len() implies is_digit(#[trigger] d[i]) by {
            assert(d[i] == digits[i]);
        }
        lemma_pieces_number(a, d, b);
        assert(s.drop_last() =~= a + d + b);
        assert(is_digit(digits[digits.len() - 1]));
        assert(s.last() == digits.last());
        assert(d.push(digits.last()) =~= digits);
    } else {
        lemma_pieces_separators(a);
        assert(s.drop_last() =~= a);
        assert(is_digit(digits[0]));
        assert(s.last() == digits[0]);
        assert(Seq::<char>::empty().push(digits[0]) =~= digits);
    }
}

proof fn lemma_pieces_longer(a: Seq<char>, digits: Seq<char>, b: Seq<char>)
    requires
        forall|i: int| 0 <= i < a.len() ==> Separator::NonNumber.splits(#[trigger] a[i]),
        forall|i: int| 0 <= i < digits.len() ==> is_digit(#[trigger] digits[i]),
        digits.len() > 0,
        b.len() > 0,
        Separator::NonNumber.splits(b[0]),
    ensures
        pieces(a + digits + b, Separator::NonNumber).len() > a.len() + 1,
    decreases a.len() + digits.len() + b.len(),
{
    let s = a + digits + b;
    let c = b.drop_last();
    assert(s.drop_last() =~= a + digits + c);
    assert(s.last() == b.last());
    if b.len() == 1 {
        lemma_pieces_number(a, digits, c);
    } else {
        lemma_pieces_longer(a, digits, c);
    }
}

proof fn lemma_pieces_separators(a: Seq<char>)
    requires
        forall|i: int| 0 <= i < a.len() ==> Separator::NonNumber.splits(#[trigger] a[i]),
    ensures
        pieces(a, Separator::NonNumber).len() == a.len() + 1,
        forall|k: int|
            0 <= k <= a.len() ==> #[trigger] pieces(a, Separator::NonNumber)[k] == Seq::<
                char,
            >::empty(),
    decreases a.len(),
{
    if a.len() > 0 {
        let b = a.drop_last();
        assert forall|i: int| 0 <= i < b.len() implies Separator::NonNumber.splits(
            #[trigger] b[i],
        ) by {
            assert(b[i] == a[i]);
        }
        lemma_pieces_separators(b);
        assert(Separator::NonNumber.splits(a[a.len() - 1]));
    }
}

proof fn lemma_first_number(tokens: Seq<Seq<char>>, m: int, n: int)
    requires
        0 <= m < tokens.len(),
        forall|k: int| 0 <= k < m ==> #[trigger] tokens[k] == Seq::<char>::empty(),
        fits_i64(parsed_int(tokens[m])) == Some(n),
    ensures
        first_number(tokens) == Some(n),
    decreases m,
{
    if m > 0 {
        let rest = tokens.skip(1);
        assert(tokens[0] == Seq::<char>::empty());
        assert(rest[m - 1] == tokens[m]);
        assert forall|k: int| 0 <= k < m - 1 implies #[trigger] rest[k] == Seq::<
            char,
        >::empty() by {
            assert(rest[k] == tokens[k + 1]);
        }
        lemma_first_number(rest, m - 1, n);
    }
}

/// The first number of a text is the one that stands behind characters that
/// belong to no number.
pub proof fn law_first_number_in_a_text(a: Seq<char>, n: nat, b: Seq<char>)
    requires
        forall|i: int| 0 <= i < a.len() ==> !is_digit(#[trigger] a[i]) && a[i] != '-',
        b.len() > 0 ==> !is_digit(b[0]) && b[0] != '-',
        n <= i64::MAX,
    ensures
        number_in(a + decimal(n) + b) == Some(n as int),
{
    law_printed_number_reads_back(n);
    lemma_decimal_shape(n);
    lemma_pieces_number(a, decimal(n), b);
    assert(is_digit(decimal(n)[0]));
    lemma_first_number(pieces(a + decimal(n) + b, Separator::NonNumber), a.len() as int, n as int);
}

/// A line that names a temperature in degrees Celsius tells it, in whatever case
/// it is written and however far apart name and value are.
pub proof fn law_temperature_line(name: Seq<char>, gap: Seq<char>, degrees: nat)
    requires
        lowercase(name) == "temperature"@ || lowercase(name) == "current drive temperature"@,
        forall|i: int| 0 <= i < gap.len() ==> #[trigger] gap[i] == ' ',
        degrees <= 200,
    ensures
        line_temperature(name + ":"@ + gap + decimal(degrees) + " Celsius"@) == Some(
            degrees as int,
        ),
{
    reveal_strlit("temperature");
    reveal_strlit("current drive temperature");
    reveal_strlit("temperature:");
    reveal_strlit("current drive temperature:");
    reveal_strlit("celsius");
    reveal_strlit(" Celsius");
    reveal_strlit(":");
    let unit = " Celsius"@;
    let value = gap + decimal(degrees) + unit;
    let line = name + ":"@ + gap + decimal(degrees) + unit;
    assert(line =~= name + ":"@ + value);
    let small = lowercase(line);
    assert(small =~= lowercase(name) + ":"@ + lowercase(value));
    assert(small.take(lowercase(name).len() as int + 1) =~= lowercase(name) + ":"@);
    assert("temperature"@ + ":"@ =~= "temperature:"@);
    assert("current drive temperature"@ + ":"@ =~= "current drive temperature:"@);
    assert(small[0] == lowercase(name)[0]);
    assert(!is_white(small[0]));
    assert(trimmed_start(small) == small);
    let at = small.len() - 7;
    assert(small.subrange(at, at + 7) =~= "celsius"@) by {
        assert forall|k: int| 0 <= k < 7 implies small[at + k] == "celsius"@[k] by {
            assert(line[at + k] == unit[k + 1]);
        }
    }
    assert(stands_at(small, "celsius"@, at));
    assert(tells_temperature(small));
    assert forall|j: int| 0 <= j < name.len() implies !stands_at(line, ":"@, j) by {
        if stands_at(line, ":"@, j) {
            assert(line.subrange(j, j + 1)[0] == line[j]);
            assert(line[j] == name[j]);
            assert(lowercase(name)[j] == lower_char(name[j]));
            assert(lowercase(name)[j] == ':');
            if lowercase(name) == "temperature"@ {
                assert("temperature"@[j] != ':');
            } else {
                assert("current drive temperature"@[j] != ':');
            }
        }
    }
    assert(line.subrange(name.len() as int, name.len() as int + 1) =~= ":"@);
    assert(is_split_once(line, ":"@, Some((name, value))));
    lemma_split_once_unique(line, ":"@, Some((name, value)), split_pair(line, ":"@));
    law_first_number_in_a_text(gap, degrees, unit);
}

/// A row of the attribute table whose number is that of a temperature tells it in
/// its tenth column; the number of the row says how good it is.
pub proof fn law_temperature_row(line: Seq<char>, id: nat, degrees: nat)
    requires
        words(line).len() >= 10,
        words(line)[0] == decimal(id),
        id == 190 || id == 194 || id == 231,
        words(line)[9] == decimal(degrees),
        degrees <= 200,
    ensures
        row_temperature(line) == Some((attribute_rank(id), degrees as int)),
{
    law_printed_number_reads_back(id);
    let columns = words(line);
    let rest = columns.skip(9);
    assert(rest[0] == columns[9]);
    let none = Seq::<char>::empty();
    law_first_number_in_a_text(none, degrees, none);
    assert(none + decimal(degrees) + none =~= decimal(degrees));
    assert(columns_number(rest) == Some(degrees as int));
}

/// Attribute 194 is the best to read a temperature from, then 190, and 231 comes
/// last.
pub proof fn law_order_of_attributes(other: nat)
    requires
        other != 190 && other != 194 && other != 231,
    ensures
        attribute_rank(194) < attribute_rank(190) < attribute_rank(other) < attribute_rank(231),
{
}

// ── Discoveries ──────────────────────────────────────────────────────────────

proof fn lemma_hwmon_discoveries(candidates: Seq<CandidateView>, reads: Seq<Option<i64>>, n: int)
    requires
        0 <= n <= candidates.len(),
    ensures
        ({
            let places = Seq::new(candidates.len(), |k: int| k);
            let read = |k: int| k < reads.len() && reads[k] is Some;
            let found = hwmon_discoveries(candidates, reads, n);
            &&& found.len() == places.take(n).filter(read).len()
            &&& forall|i: int|
                0 <= i < n && i < reads.len() && (#[trigger] reads[i]) is Some ==> {
                    let place = places.take(i).filter(read).len() as int;
                    &&& 0 <= place < found.len()
                    &&& found[place] == hwmon_discovery(candidates[i], reads[i].unwrap())
                }
        }),
    decreases n,
{
    let places = Seq::new(candidates.len(), |k: int| k);
    let read = |k: int| k < reads.len() && reads[k] is Some;
    if n == 0 {
        lemma_filter_none(places.take(0), read);
    } else {
        lemma_hwmon_discoveries(candidates, reads, n - 1);
        lemma_filter_take(places, read, n - 1);
        let before = hwmon_discoveries(candidates, reads, n - 1);
        let found = hwmon_discoveries(candidates, reads, n);
        assert forall|i: int|
            0 <= i < n && i < reads.len() && (#[trigger] reads[i]) is Some implies {
            let place = places.take(i).filter(read).len() as int;
            &&& 0 <= place < found.len()
            &&& found[place] == hwmon_discovery(candidates[i], reads[i].unwrap())
        } by {
            let place = places.take(i).filter(read).len() as int;
            if i < n - 1 {
                assert(before[place] == found[place]);
            }
        }
    }
}

/// Every hwmon sensor that can be read is discovered, in order, with the value
/// that it read, and no other is.
pub proof fn law_readable_sensors_are_discovered(
    candidates: Seq<CandidateView>,
    reads: Seq<Option<i64>>,
    i: int,
)
    ensures
        ({
            let places = Seq::new(candidates.len(), |k: int| k);
            let read = |k: int| k < reads.len() && reads[k] is Some;
            let found = hwmon_discoveries(candidates, reads, candidates.len() as int);
            let place = places.take(i).filter(read).len() as int;
            &&& found.len() == places.filter(read).len()
            &&& 0 <= i < candidates.len() && i < reads.len() && reads[i] is Some ==> {
                &&& place < found.len()
                &&& found[place].value == reads[i].unwrap()
                &&& found[place].kind == candidates[i].descriptor.kind
                &&& found[place].label == candidates[i].descriptor.label
            }
        }),
{
    let places = Seq::new(candidates.len(), |k: int| k);
    lemma_hwmon_discoveries(candidates, reads, candidates.len() as int);
    assert(places.take(candidates.len() as int) =~= places);
    if 0 <= i < candidates.len() && i < reads.len() && reads[i] is Some {
        assert(reads[i] is Some);
    }
}

/// Every disk that can be read is discovered with the value that it read.
pub proof fn law_readable_disks_are_discovered(
    disks: Seq<SmartctlSensor>,
    reads: Seq<Option<i64>>,
    n: int,
    i: int,
)
    requires
        0 <= i < n <= disks.len(),
    ensures
        i < reads.len() && reads[i] is Some ==> exists|k: int|
            0 <= k < disk_discoveries(disks, reads, n).len() && {
                let found = #[trigger] disk_discoveries(disks, reads, n)[k];
                &&& found.value == reads[i].unwrap()
                &&& found.source == (SourceView::Smartctl { device: disks[i].source.device@ })
                &&& found.kind == disks[i].descriptor.kind
                &&& found.label == disks[i].descriptor.label@
            },
        forall|k: int|
            0 <= k < disk_discoveries(disks, reads, n).len() ==> exists|d: int|
                0 <= d < n && d < reads.len() && (#[trigger] reads[d]) == Some(
                    (#[trigger] disk_discoveries(disks, reads, n)[k]).value,
                ),
    decreases n,
{
    let all = disk_discoveries(disks, reads, n);
    let before = disk_discoveries(disks, reads, n - 1);
    if n > 1 {
        law_readable_disks_are_discovered(disks, reads, n - 1, if i < n - 1 { i } else { 0 });
    }
    if i < reads.len() && reads[i] is Some {
        if i < n - 1 {
            let k = choose|k: int|
                0 <= k < before.len() && {
                    let found = #[trigger] before[k];
                    &&& found.value == reads[i].unwrap()
                    &&& found.source == (SourceView::Smartctl { device: disks[i].source.device@ })
                    &&& found.kind == disks[i].descriptor.kind
                    &&& found.label == disks[i].descriptor.label@
                };
            assert(all[k] == before[k]);
        } else {
            assert(all[before.len() as int] == disk_discovery(disks[i], reads[i].unwrap()));
        }
    }
    assert forall|k: int| 0 <= k < all.len() implies exists|d: int|
        0 <= d < n && d < reads.len() && (#[trigger] reads[d]) == Some((#[trigger] all[k]).value) by {
        if k < before.len() {
            assert(all[k] == before[k]);
            if n > 1 {
                let d = choose|d: int|
                    0 <= d < n - 1 && d < reads.len() && (#[trigger] reads[d]) == Some(
                        before[k].value,
                    );
                assert(reads[d] == Some(all[k].value));
            }
        } else {
            assert(reads[n - 1] == Some(all[k].value));
        }
    }
}

/// What is discovered leads back to where it was found: made persistent, a hwmon
/// sensor asks for the very candidate that it was discovered as, a disk for its
/// device and a controller for its port.
pub proof fn law_discovery_leads_back(
    candidate: CandidateView,
    disk: SmartctlSensor,
    config: LsiHbaSection,
    reading: HbaReading,
    value: i64,
)
    ensures
        candidate_matches(
            candidate,
            hwmon_discovery(candidate, value).kind,
            hwmon_discovery(candidate, value).source,
        ),
        hwmon_discovery(candidate, value).value == value,
        disk_discovery(disk, value).source == (SourceView::Smartctl {
            device: disk.source.device@,
        }),
        disk_discovery(disk, value).value == value,
        hba_discovery(config, reading).source == (SourceView::LsiHba {
            device: reading.device@,
            ioc: reading.ioc,
        }),
        hba_discovery(config, reading).value == reading.value,
{
    let path = candidate.device_path;
    assert(path.subrange(0, path.len() as int) =~= path);
    assert(stands_at(path, path, 0));
}

/// Where controllers are read, each that answered is discovered; else none is.
pub proof fn law_controllers_are_discovered(
    config: LsiHbaSection,
    readings: Seq<HbaReading>,
    i: int,
)
    ensures
        config.enabled ==> hba_discoveries(config, readings).len() == readings.len(),
        !config.enabled ==> hba_discoveries(config, readings).len() == 0,
        config.enabled && 0 <= i < readings.len() ==> hba_discoveries(config, readings)[i].value
            == readings[i].value && hba_discoveries(config, readings)[i].source
            == (SourceView::LsiHba { device: readings[i].device@, ioc: readings[i].ioc }),
{
}

// ── Disks ────────────────────────────────────────────────────────────────────

proof fn lemma_lists_path_more(paths: Seq<Seq<char>>, more: Seq<char>, path: Seq<char>)
    ensures
        lists_path(paths.push(more), path) <==> lists_path(paths, path) || path_identity(more)
            == path_identity(path),
{
    let all = paths.push(more);
    if lists_path(paths, path) {
        let i = choose|i: int|
            0 <= i < paths.len() && path_identity(#[trigger] paths[i]) == path_identity(path);
        assert(all[i] == paths[i]);
    }
    if lists_path(all, path) {
        let i = choose|i: int|
            0 <= i < all.len() && path_identity(#[trigger] all[i]) == path_identity(path);
        if i < paths.len() {
            assert(paths[i] == all[i]);
        }
    }
    assert(all[paths.len() as int] == more);
}

/// Whether `path` is that of a disk among some devices.
pub open spec fn is_found_disk(found: Seq<FoundDevice>, path: Seq<char>) -> bool {
    exists|k: int|
        0 <= k < found.len() && candidate((#[trigger] found[k]).path@, found[k].facts)
            && found[k].path@ == path
}

/// Every disk that was found is read, under its path or under one that stands
/// for the same; no two of those that are read stand for the same, and each is a
/// disk that was found.
pub proof fn law_every_disk_is_read_once(found: Seq<FoundDevice>, i: int)
    ensures
        0 <= i < found.len() && candidate(found[i].path@, found[i].facts) ==> lists_path(
            distinct_disks(found),
            found[i].path@,
        ),
        forall|a: int, b: int|
            0 <= a < b < distinct_disks(found).len() ==> path_identity(
                #[trigger] distinct_disks(found)[a],
            ) != path_identity(#[trigger] distinct_disks(found)[b]),
        forall|a: int|
            0 <= a < distinct_disks(found).len() ==> is_found_disk(
                found,
                #[trigger] distinct_disks(found)[a],
            ),
    decreases found.len(),
{
    if found.len() > 0 {
        let earlier = found.drop_last();
        let before = distinct_disks(earlier);
        let all = distinct_disks(found);
        let device = found.last();
        law_every_disk_is_read_once(earlier, i);
        lemma_lists_path_more(before, device.path@, found[i].path@);
        if 0 <= i < earlier.len() {
            assert(earlier[i] == found[i]);
        }
        assert forall|a: int, b: int| 0 <= a < b < all.len() implies path_identity(
            #[trigger] all[a],
        ) != path_identity(#[trigger] all[b]) by {
            assert(all[a] == before[a]);
            if b < before.len() {
                assert(all[b] == before[b]);
            }
        }
        assert forall|a: int| 0 <= a < all.len() implies is_found_disk(found, #[trigger] all[a]) by {
            if a < before.len() {
                assert(all[a] == before[a]);
                assert(is_found_disk(earlier, before[a]));
                let k = choose|k: int|
                    0 <= k < earlier.len() && candidate(
                        (#[trigger] earlier[k]).path@,
                        earlier[k].facts,
                    ) && earlier[k].path@ == before[a];
                assert(found[k] == earlier[k]);
            } else {
                assert(found[found.len() - 1].path@ == all[a]);
            }
        }
    }
}

/// What counts as a disk: no partition ever, whatever else the kernel knows as a
/// block device, and else a device file, or one that cannot be looked at, whose
/// name is not that of a partition.
pub proof fn law_what_counts_as_a_disk(path: Seq<char>, facts: DeviceFacts)
    ensures
        facts.is_partition ==> !candidate(path, facts),
        file_name_of(path) is None ==> !candidate(path, facts),
        file_name_of(path) is Some && !facts.is_partition && facts.is_block ==> candidate(
            path,
            facts,
        ),
        !facts.is_block && (facts.file == FileFact::Missing || facts.file == FileFact::Other)
            ==> !candidate(path, facts),
        file_name_of(path) matches Some(name) ==> (!facts.is_partition && !facts.is_block && (
        facts.file == FileFact::Device || facts.file == FileFact::Unreadable) ==> candidate(
            path,
            facts,
        ) == !partition_name(name)),
{
}

/// Of a directory exactly the entries whose names fit the pattern are looked at.
pub proof fn law_fitting_entries(
    parent: Seq<char>,
    name_pattern: Seq<char>,
    entries: Seq<Seq<char>>,
    path: Seq<char>,
)
    ensures
        fitting_paths(parent, name_pattern, entries).contains(path) <==> exists|i: int|
            0 <= i < entries.len() && fits(
                encode_utf8(name_pattern),
                encode_utf8(#[trigger] entries[i]),
            ) && path == path_join(parent, entries[i]),
    decreases entries.len(),
{
    if entries.len() > 0 {
        let earlier = entries.drop_last();
        law_fitting_entries(parent, name_pattern, earlier, path);
        let before = fitting_paths(parent, name_pattern, earlier);
        let all = fitting_paths(parent, name_pattern, entries);
        if before.contains(path) {
            let k = choose|k: int| 0 <= k < before.len() && before[k] == path;
            assert(all[k] == path);
            let i = choose|i: int|
                0 <= i < earlier.len() && fits(
                    encode_utf8(name_pattern),
                    encode_utf8(#[trigger] earlier[i]),
                ) && path == path_join(parent, earlier[i]);
            assert(entries[i] == earlier[i]);
        }
        if all.contains(path) && !before.contains(path) {
            let k = choose|k: int| 0 <= k < all.len() && all[k] == path;
            if k < before.len() {
                assert(before[k] == path);
            }
            assert(entries[entries.len() - 1] == entries.last());
        }
        if exists|i: int|
            0 <= i < entries.len() && fits(
                encode_utf8(name_pattern),
                encode_utf8(#[trigger] entries[i]),
            ) && path == path_join(parent, entries[i]) {
            let i = choose|i: int|
                0 <= i < entries.len() && fits(
                    encode_utf8(name_pattern),
                    encode_utf8(#[trigger] entries[i]),
                ) && path == path_join(parent, entries[i]);
            if i < earlier.len() {
                assert(earlier[i] == entries[i]);
            } else {
                assert(all[before.len() as int] == path);
            }
        }
    } else {
        assert(fitting_paths(parent, name_pattern, entries).len() == 0);
    }
}

/// The sensor of a disk that answered reads that disk, holds the value that was
/// read, and is called by its device.
pub proof fn law_disk_sensor(
    sensor: SmartctlSensor,
    config: SmartctlSection,
    reading: DiskReading,
)
    requires
        is_sensor_of(sensor, config, reading),
    ensures
        sensor.descriptor.id@ == "smartctl:"@ + reading.device@,
        sensor.descriptor.kind == SensorKind::Temperature,
        !sensor.descriptor.persistent,
        sensor.source.device@ == reading.device@,
        sensor.source.command@ == config.command@,
        config.timeout_seconds >= 1 ==> sensor.source.timeout_seconds == config.timeout_seconds,
        config.poll_seconds >= 1 ==> sensor.source.poll_seconds == config.poll_seconds,
        sensor.source.timeout_seconds >= 1,
        sensor.source.poll_seconds >= 1,
        sensor.source.cache matches Some(cached) && cached.value == reading.value && cached.read_at
            == reading.read_at,
{
    let view = sensor.descriptor@;
}

// ── What is done when ────────────────────────────────────────────────────────

/// Of itself the agent sends a sample, sends a heartbeat and looks for sensors
/// each exactly where the configured time has passed since it last did, and at
/// least a second; asked for a resync it first sends all that the host needs.
pub proof fn law_what_is_done_when(
    clock: AgentClock,
    config: AgentSection,
    resync: bool,
    now: u64,
)
    requires
        clock.last_sample <= now,
        clock.last_heartbeat <= now,
        clock.last_rescan <= now,
    ensures
        ({
            let steps = next_steps(clock, config, resync, now);
            let after = ticked(clock, config, now);
            let sample = now - clock.last_sample >= 1_000_000_000 && now - clock.last_sample
                >= config.sample_seconds * 1_000_000_000;
            let heartbeat = now - clock.last_heartbeat >= 1_000_000_000 && now
                - clock.last_heartbeat >= config.heartbeat_seconds * 1_000_000_000;
            let rescan = now - clock.last_rescan >= 1_000_000_000 && now - clock.last_rescan
                >= config.rescan_seconds * 1_000_000_000;
            &&& steps.contains(AgentStep::SendSample) <==> sample || resync
            &&& steps.contains(AgentStep::SendHeartbeat) <==> heartbeat
            &&& steps.contains(AgentStep::Rescan) <==> rescan
            &&& steps.contains(AgentStep::SendHello) <==> resync
            &&& steps.contains(AgentStep::SendSchema) <==> resync
            &&& !steps.contains(AgentStep::SendGoodbye)
            &&& resync ==> steps[0] == AgentStep::SendHello && steps[1] == AgentStep::SendSchema
                && steps[2] == AgentStep::SendSample
            &&& after.generation == clock.generation
            &&& sample ==> after.last_sample == now
            &&& !sample ==> after.last_sample == clock.last_sample
            &&& heartbeat ==> after.last_heartbeat == now
            &&& !heartbeat ==> after.last_heartbeat == clock.last_heartbeat
            &&& rescan ==> after.last_rescan == now
            &&& !rescan ==> after.last_rescan == clock.last_rescan
        }),
{
    let steps = next_steps(clock, config, resync, now);
    let sample = due(now, clock.last_sample, config.sample_seconds);
    let heartbeat = due(now, clock.last_heartbeat, config.heartbeat_seconds);
    let rescan = due(now, clock.last_rescan, config.rescan_seconds);
    let r: int = if resync {
        3
    } else {
        0
    };
    let a: int = if sample {
        r + 1
    } else {
        r
    };
    let b: int = if heartbeat {
        a + 1
    } else {
        a
    };
    assert(resync ==> steps[0] == AgentStep::SendHello && steps[1] == AgentStep::SendSchema
        && steps[2] == AgentStep::SendSample);
    assert(sample ==> steps[r] == AgentStep::SendSample);
    assert(heartbeat ==> steps[a] == AgentStep::SendHeartbeat);
    assert(rescan ==> steps[b] == AgentStep::Rescan);
}

} // verus!
