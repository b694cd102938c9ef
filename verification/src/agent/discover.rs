//! Finding sensors that could be made persistent.

use crate::agent::config::{
    LsiHbaSection, PersistentConfigView, PersistentSensorConfig, PersistentSensorSource, SourceView,
};
use crate::agent::config_edit::{kind_text, sensor_kind_name};
use crate::agent::disks::SmartctlSensor;
use crate::agent::hba::hba_ioc_label;
use crate::agent::sensor_id::{stable_id, stable_sensor_id};
use crate::agent::sensors::{
    candidate_views, reading_at, reading_label, recognised_label, CandidateView, HbaReading,
    HwmonCandidate,
};
use crate::number::{decimal, format_i64, format_u64, signed_decimal};
use crate::protocol::SensorKind;
use crate::text::{concat3, copy_optional, texts};
use vstd::prelude::*;

verus! {

/// A sensor that could be made persistent.
#[derive(Debug)]
pub struct DiscoveredSensor {
    /// Its place in the list, counted from one.
    pub index: usize,
    pub id: String,
    pub kind: SensorKind,
    pub label: String,
    pub value: i64,
    pub source: PersistentSensorSource,
    pub summary: String,
}

/// A sensor that could be made persistent, with texts as sequences of
/// characters and without its place.
#[verifier::ext_equal]
pub struct DiscoveryView {
    pub id: Seq<char>,
    pub kind: SensorKind,
    pub label: Seq<char>,
    pub value: i64,
    pub source: SourceView,
    pub summary: Seq<char>,
}

impl View for DiscoveredSensor {
    type V = DiscoveryView;

    open spec fn view(&self) -> DiscoveryView {
        DiscoveryView {
            id: self.id@,
            kind: self.kind,
            label: self.label@,
            value: self.value,
            source: self.source@,
            summary: self.summary@,
        }
    }
}

/// The views of some discoveries.
pub open spec fn discovery_views(found: Seq<DiscoveredSensor>) -> Seq<DiscoveryView> {
    found.map_values(|sensor: DiscoveredSensor| sensor@)
}

/// Whether each discovery says its place, counted from one.
pub open spec fn numbered(found: Seq<DiscoveredSensor>) -> bool {
    forall|i: int| 0 <= i < found.len() ==> (#[trigger] found[i]).index == i + 1
}

impl DiscoveredSensor {
    /// The configuration that makes the sensor persistent.
    pub fn into_persistent_config(self, default_value: i64) -> (config: PersistentSensorConfig)
        ensures
            config@ == (PersistentConfigView {
                id: self.id@,
                kind: self.kind,
                label: self.label@,
                default_value,
                source: self.source@,
            }),
    {
        PersistentSensorConfig {
            id: self.id,
            kind: self.kind,
            label: self.label,
            default_value,
            source: self.source,
        }
    }
}

/// What is discovered of a sensor of a hwmon device.
pub open spec fn hwmon_discovery(candidate: CandidateView, value: i64) -> DiscoveryView {
    DiscoveryView {
        id: stable_id(
            seq![
                "hwmon"@,
                candidate.chip_name,
                candidate.input_name,
                recognised_label(candidate),
                candidate.device_path,
            ],
        ),
        kind: candidate.descriptor.kind,
        label: candidate.descriptor.label,
        value,
        source: SourceView::Hwmon {
            chip_name: Some(candidate.chip_name),
            input: candidate.input_name,
            source_label: candidate.source_label,
            device_path_contains: Some(candidate.device_path),
        },
        summary: candidate.chip_name + " "@ + candidate.input_name + " "@ + recognised_label(
            candidate,
        ),
    }
}

/// What is discovered of a disk.
pub open spec fn disk_discovery(sensor: SmartctlSensor, value: i64) -> DiscoveryView {
    DiscoveryView {
        id: stable_id(seq!["smartctl"@, sensor.source.device@]),
        kind: sensor.descriptor.kind,
        label: sensor.descriptor.label@,
        value,
        source: SourceView::Smartctl { device: sensor.source.device@ },
        summary: "smartctl "@ + sensor.source.device@ + " "@ + sensor.descriptor.label@,
    }
}

/// What is discovered of a controller.
pub open spec fn hba_discovery(config: LsiHbaSection, reading: HbaReading) -> DiscoveryView {
    DiscoveryView {
        id: stable_id(seq!["lsi_hba"@, reading.device@, decimal(reading.ioc as nat)]),
        kind: SensorKind::Temperature,
        label: reading_label(config, reading),
        value: reading.value,
        source: SourceView::LsiHba { device: reading.device@, ioc: reading.ioc },
        summary: "lsi_hba "@ + reading.device@ + " ioc"@ + decimal(reading.ioc as nat) + " "@
            + reading_label(config, reading),
    }
}

/// The discoveries among the first `n` hwmon sensors: those that can be read.
pub open spec fn hwmon_discoveries(
    candidates: Seq<CandidateView>,
    reads: Seq<Option<i64>>,
    n: int,
) -> Seq<DiscoveryView>
    decreases n,
{
    if n <= 0 {
        Seq::empty()
    } else {
        let before = hwmon_discoveries(candidates, reads, n - 1);
        match reading_at(reads, n - 1) {
            Some(value) => before.push(hwmon_discovery(candidates[n - 1], value)),
            None => before,
        }
    }
}

/// The discoveries among the first `n` disks: those that can be read.
pub open spec fn disk_discoveries(
    disks: Seq<SmartctlSensor>,
    reads: Seq<Option<i64>>,
    n: int,
) -> Seq<DiscoveryView>
    decreases n,
{
    if n <= 0 {
        Seq::empty()
    } else {
        let before = disk_discoveries(disks, reads, n - 1);
        match reading_at(reads, n - 1) {
            Some(value) => before.push(disk_discovery(disks[n - 1], value)),
            None => before,
        }
    }
}

/// The discoveries among the controllers that answered; none where controllers
/// are not read.
pub open spec fn hba_discoveries(config: LsiHbaSection, readings: Seq<HbaReading>) -> Seq<
    DiscoveryView,
> {
    if config.enabled {
        readings.map_values(|reading: HbaReading| hba_discovery(config, reading))
    } else {
        Seq::empty()
    }
}

fn recognise<'a>(candidate: &'a HwmonCandidate) -> (label: &'a String)
    ensures
        label@ == recognised_label(candidate@),
{
    match &candidate.source_label {
        Some(label) => label,
        None => &candidate.descriptor.label,
    }
}

fn discover_hwmon(candidate: &HwmonCandidate, value: i64, index: usize) -> (sensor:
    DiscoveredSensor)
    ensures
        sensor@ == hwmon_discovery(candidate@, value),
        sensor.index == index,
{
    let label = recognise(candidate);
    let mut parts: Vec<String> = Vec::new();
    parts.push("hwmon".to_string());
    parts.push(candidate.chip_name.clone());
    parts.push(candidate.input_name.clone());
    parts.push(label.clone());
    parts.push(candidate.device_path.clone());
    assert(texts(parts@) =~= seq![
        "hwmon"@,
        candidate.chip_name@,
        candidate.input_name@,
        recognised_label(candidate@),
        candidate.device_path@,
    ]);
    let mut summary = concat3(&candidate.chip_name, " ", &candidate.input_name);
    summary.append(" ");
    summary.append(label);
    DiscoveredSensor {
        index,
        id: stable_sensor_id(&parts),
        kind: candidate.descriptor.kind,
        label: candidate.descriptor.label.clone(),
        value,
        source: PersistentSensorSource::Hwmon {
            chip_name: Some(candidate.chip_name.clone()),
            input: candidate.input_name.clone(),
            source_label: copy_optional(&candidate.source_label),
            device_path_contains: Some(candidate.device_path.clone()),
        },
        summary,
    }
}

fn discover_disk(sensor: &SmartctlSensor, value: i64, index: usize) -> (found: DiscoveredSensor)
    ensures
        found@ == disk_discovery(*sensor, value),
        found.index == index,
{
    let device = &sensor.source.device;
    let mut parts: Vec<String> = Vec::new();
    parts.push("smartctl".to_string());
    parts.push(device.clone());
    assert(texts(parts@) =~= seq!["smartctl"@, device@]);
    let mut summary = concat3("smartctl ", device, " ");
    summary.append(&sensor.descriptor.label);
    DiscoveredSensor {
        index,
        id: stable_sensor_id(&parts),
        kind: sensor.descriptor.kind,
        label: sensor.descriptor.label.clone(),
        value,
        source: PersistentSensorSource::Smartctl { device: device.clone() },
        summary,
    }
}

fn discover_hba(config: &LsiHbaSection, reading: &HbaReading, index: usize) -> (found:
    DiscoveredSensor)
    ensures
        found@ == hba_discovery(*config, *reading),
        found.index == index,
{
    let ioc = format_u64(reading.ioc as u64);
    let label = hba_ioc_label(config, &reading.identity, reading.ioc);
    let mut parts: Vec<String> = Vec::new();
    parts.push("lsi_hba".to_string());
    parts.push(reading.device.clone());
    parts.push(ioc.clone());
    assert(texts(parts@) =~= seq!["lsi_hba"@, reading.device@, decimal(reading.ioc as nat)]);
    let mut summary = concat3("lsi_hba ", &reading.device, " ioc");
    summary.append(&ioc);
    summary.append(" ");
    summary.append(&label);
    DiscoveredSensor {
        index,
        id: stable_sensor_id(&parts),
        kind: SensorKind::Temperature,
        label,
        value: reading.value,
        source: PersistentSensorSource::LsiHba {
            device: reading.device.clone(),
            ioc: reading.ioc,
        },
        summary,
    }
}

/// The sensors that could be made persistent: those of hwmon devices and disks
/// that can be read, where `hwmon_reads` and `disk_reads` say what they read,
/// and those of controllers that answered.
pub fn discover_persistent_candidates(
    config: &LsiHbaSection,
    candidates: &[HwmonCandidate],
    hwmon_reads: &[Option<i64>],
    disks: &[SmartctlSensor],
    disk_reads: &[Option<i64>],
    readings: &[HbaReading],
) -> (found: Vec<DiscoveredSensor>)
    requires
        candidates@.len() + disks@.len() + readings@.len() < usize::MAX,
    ensures
        numbered(found@),
        discovery_views(found@) == hwmon_discoveries(
            candidate_views(candidates@),
            hwmon_reads@,
            candidates@.len() as int,
        ) + disk_discoveries(disks@, disk_reads@, disks@.len() as int) + hba_discoveries(
            *config,
            readings@,
        ),
{
    let ghost all = candidate_views(candidates@);
    let mut found: Vec<DiscoveredSensor> = Vec::new();
    assert(discovery_views(found@) =~= hwmon_discoveries(all, hwmon_reads@, 0));
    for i in 0..candidates.len()
        invariant
            candidates@.len() + disks@.len() + readings@.len() < usize::MAX,
            all == candidate_views(candidates@),
            numbered(found@),
            found@.len() <= i,
            discovery_views(found@) == hwmon_discoveries(all, hwmon_reads@, i as int),
    {
        let ghost before = found@;
        assert(all[i as int] == candidates@[i as int]@);
        let read = if i < hwmon_reads.len() {
            hwmon_reads[i]
        } else {
            None
        };
        if let Some(value) = read {
            found.push(discover_hwmon(&candidates[i], value, found.len() + 1));
            assert(discovery_views(found@) =~= discovery_views(before).push(
                hwmon_discovery(all[i as int], value),
            ));
        }
    }
    let ghost hwmon = discovery_views(found@);
    assert(hwmon + disk_discoveries(disks@, disk_reads@, 0) =~= hwmon);
    for i in 0..disks.len()
        invariant
            candidates@.len() + disks@.len() + readings@.len() < usize::MAX,
            numbered(found@),
            found@.len() <= candidates@.len() + i,
            discovery_views(found@) == hwmon + disk_discoveries(disks@, disk_reads@, i as int),
    {
        let ghost before = found@;
        let read = if i < disk_reads.len() {
            disk_reads[i]
        } else {
            None
        };
        if let Some(value) = read {
            found.push(discover_disk(&disks[i], value, found.len() + 1));
            assert(discovery_views(found@) =~= discovery_views(before).push(
                disk_discovery(disks@[i as int], value),
            ));
            assert(discovery_views(found@) =~= hwmon + disk_discoveries(
                disks@,
                disk_reads@,
                i + 1,
            ));
        }
    }
    let ghost so_far = discovery_views(found@);
    let ghost last = hba_discoveries(*config, readings@);
    if !config.enabled {
        assert(so_far + last =~= so_far);
        return found;
    }
    assert(so_far + last.take(0) =~= so_far);
    for i in 0..readings.len()
        invariant
            candidates@.len() + disks@.len() + readings@.len() < usize::MAX,
            config.enabled,
            last == hba_discoveries(*config, readings@),
            numbered(found@),
            found@.len() <= candidates@.len() + disks@.len() + i,
            discovery_views(found@) == so_far + last.take(i as int),
    {
        let ghost before = found@;
        found.push(discover_hba(config, &readings[i], found.len() + 1));
        assert(discovery_views(found@) =~= discovery_views(before).push(last[i as int]));
        assert(discovery_views(found@) =~= so_far + last.take(i as int + 1));
    }
    assert(last.take(last.len() as int) =~= last);
    found
}

/// The first discovery with the given place.
pub open spec fn discovery_at(found: Seq<DiscoveredSensor>, index: usize) -> Option<
    DiscoveredSensor,
>
    decreases found.len(),
{
    if found.len() == 0 {
        None
    } else if found[0].index == index {
        Some(found[0])
    } else {
        discovery_at(found.skip(1), index)
    }
}

/// The first discovery with the given place.
pub fn find_discovery(found: Vec<DiscoveredSensor>, index: usize) -> (sensor: Option<
    DiscoveredSensor,
>)
    ensures
        sensor == discovery_at(found@, index),
{
    let ghost all = found@;
    let mut rest = found;
    let n = rest.len();
    assert(all.skip(0) =~= all);
    for i in 0..n
        invariant
            n == all.len(),
            all == found@,
            rest@ == all,
            discovery_at(all, index) == discovery_at(all.skip(i as int), index),
    {
        assert(all.skip(i as int)[0] == all[i as int]);
        if rest[i].index == index {
            return Some(rest.swap_remove(i));
        }
        assert(all.skip(i as int).skip(1) =~= all.skip(i as int + 1));
    }
    None
}

/// Choosing by place finds the discovery that says so.
pub proof fn law_numbered_discovery_is_found(found: Seq<DiscoveredSensor>, i: int)
    requires
        numbered(found),
        0 <= i < found.len(),
        found.len() < usize::MAX,
    ensures
        discovery_at(found, (i + 1) as usize) == Some(found[i]),
{
    lemma_discovery_at(found, 0, i);
    assert(found.skip(0) =~= found);
}

proof fn lemma_discovery_at(found: Seq<DiscoveredSensor>, from: int, i: int)
    requires
        numbered(found),
        0 <= from <= i < found.len(),
        found.len() < usize::MAX,
    ensures
        discovery_at(found.skip(from), (i + 1) as usize) == Some(found[i]),
    decreases i - from,
{
    let rest = found.skip(from);
    assert(rest[0] == found[from]);
    assert(found[from].index == from + 1);
    if from < i {
        assert(rest.skip(1) =~= found.skip(from + 1));
        lemma_discovery_at(found, from + 1, i);
    }
}

// ── Lines ────────────────────────────────────────────────────────────────────

/// A text filled up with spaces to at least `width` characters.
pub open spec fn padded_right(s: Seq<char>, width: int) -> Seq<char> {
    if s.len() >= width {
        s
    } else {
        s + Seq::new((width - s.len()) as nat, |i: int| ' ')
    }
}

/// Fills a text up with spaces.
pub fn pad_right(s: &str, width: usize) -> (padded: String)
    ensures
        padded@ == padded_right(s@, width as int),
{
    let mut padded = s.to_string();
    let mut n: usize = s.unicode_len();
    let ghost start = n;
    assert(s@ + Seq::new(0, |i: int| ' ') =~= s@);
    while n < width
        invariant
            start == s@.len(),
            start <= n,
            n <= width || n == start,
            padded@ == s@ + Seq::new((n - start) as nat, |i: int| ' '),
        decreases width - n,
    {
        padded.push(' ');
        assert(padded@ =~= s@ + Seq::new((n + 1 - start) as nat, |i: int| ' '));
        n = n + 1;
    }
    padded
}

/// The line of a discovery.
pub fn discovery_line(sensor: &DiscoveredSensor) -> (line: String)
    ensures
        line@ == padded_right(decimal(sensor.index as nat), 3) + " "@ + padded_right(
            kind_text(sensor.kind),
            11,
        ) + " "@ + padded_right(signed_decimal(sensor.value as int), 8) + " "@ + sensor.summary@,
{
    let mut line = pad_right(&format_u64(sensor.index as u64), 3);
    line.append(" ");
    line.append(&pad_right(sensor_kind_name(sensor.kind), 11));
    line.append(" ");
    line.append(&pad_right(&format_i64(sensor.value), 8));
    line.append(" ");
    line.append(&sensor.summary);
    line
}

/// The line of a persistent sensor.
pub fn persistent_line(sensor: &PersistentSensorConfig) -> (line: String)
    ensures
        line@ == sensor.id@ + "  "@ + kind_text(sensor.kind) + "  "@ + sensor.label@
            + "  default="@ + signed_decimal(sensor.default_value as int),
{
    let mut line = concat3(&sensor.id, "  ", sensor_kind_name(sensor.kind));
    line.append("  ");
    line.append(&sensor.label);
    line.append("  default=");
    line.append(&format_i64(sensor.default_value));
    line
}

} // verus!
