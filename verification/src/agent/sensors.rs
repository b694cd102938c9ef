//! The sensors of a virtual machine: where they are found, which of them stay
//! registered while the agent is away, and what they read.

use crate::agent::config::{
    config_views, AgentConfig, LsiHbaSection, PersistentConfigView, PersistentSensorConfig,
    PersistentSensorSource, SmartctlSection, SourceView,
};
use crate::agent::disks::{
    smartctl_dynamic_id, smartctl_id, source_for_device, CachedTemperature, SmartctlSensor,
    SmartctlSource,
};
use crate::agent::hba::{hba_ioc_label, hba_label, unknown_identity, HbaIocIdentity};
use crate::number::{at_most, decimal, format_u64, parse_u32, parsed_nat};
use crate::order::{is_stable_sort, sort_by_key, Keyed};
use crate::path::{file_name, file_name_of, join_path, path_join};
use crate::protocol::{
    descriptor_views, value_views, DescriptorView, SensorDescriptor, SensorKind, SensorValue,
};
use crate::text::{
    concat, concat3, contains, contains_text, list_contains, optional_text, same, strip_prefix,
    strip_suffix, texts, trim, trimmed, without_prefix, without_suffix,
};
use vstd::prelude::*;

verus! {

// ── Sources ──────────────────────────────────────────────────────────────────

/// Where readings come from.
#[derive(Debug)]
pub enum LiveSource {
    /// A file of sysfs.
    HwmonInput(String),
    /// A controller.
    Mpt2IocTemperature { device: String, ioc: u32 },
    /// A disk.
    SmartctlTemperature(SmartctlSource),
}

/// Where the readings of a sensor come from.
#[derive(Debug)]
pub enum SensorSource {
    Live(LiveSource),
    /// A source that may be missing, and what is read where it is.
    Persistent { source: Option<LiveSource>, default_value: i64 },
}

/// A sensor and where its readings come from.
#[derive(Debug)]
pub struct TrackedSensor {
    pub descriptor: SensorDescriptor,
    pub source: SensorSource,
}

/// Where readings come from, with texts as sequences of characters.
#[verifier::ext_equal]
pub enum LiveView {
    HwmonInput(Seq<char>),
    Mpt2IocTemperature { device: Seq<char>, ioc: u32 },
    SmartctlTemperature {
        command: Seq<char>,
        device: Seq<char>,
        timeout_seconds: u64,
        poll_seconds: u64,
        cache: Option<CachedTemperature>,
    },
}

/// Where the readings of a sensor come from, with texts as sequences of
/// characters.
#[verifier::ext_equal]
pub enum TrackedSourceView {
    Live(LiveView),
    Persistent { source: Option<LiveView>, default_value: i64 },
}

/// A sensor and where its readings come from, with texts as sequences of
/// characters.
#[verifier::ext_equal]
pub struct TrackedView {
    pub descriptor: DescriptorView,
    pub source: TrackedSourceView,
}

/// The view of the source of a disk.
pub open spec fn disk_source(source: SmartctlSource) -> LiveView {
    LiveView::SmartctlTemperature {
        command: source.command@,
        device: source.device@,
        timeout_seconds: source.timeout_seconds,
        poll_seconds: source.poll_seconds,
        cache: source.cache,
    }
}

impl View for LiveSource {
    type V = LiveView;

    open spec fn view(&self) -> LiveView {
        match *self {
            LiveSource::HwmonInput(path) => LiveView::HwmonInput(path@),
            LiveSource::Mpt2IocTemperature { device, ioc } => LiveView::Mpt2IocTemperature {
                device: device@,
                ioc,
            },
            LiveSource::SmartctlTemperature(source) => disk_source(source),
        }
    }
}

impl View for SensorSource {
    type V = TrackedSourceView;

    open spec fn view(&self) -> TrackedSourceView {
        match *self {
            SensorSource::Live(source) => TrackedSourceView::Live(source@),
            SensorSource::Persistent {
                source,
                default_value,
            } => TrackedSourceView::Persistent {
                source: match source {
                    Some(source) => Some(source@),
                    None => None,
                },
                default_value,
            },
        }
    }
}

impl View for TrackedSensor {
    type V = TrackedView;

    open spec fn view(&self) -> TrackedView {
        TrackedView { descriptor: self.descriptor@, source: self.source@ }
    }
}

impl Keyed for TrackedSensor {
    open spec fn key_text(&self) -> Seq<char> {
        self.descriptor.id@
    }

    fn key(&self) -> (key: &str) {
        self.descriptor.id.as_str()
    }
}

/// The views of some sensors.
pub open spec fn tracked_views(sensors: Seq<TrackedSensor>) -> Seq<TrackedView> {
    sensors.map_values(|sensor: TrackedSensor| sensor@)
}

// ── Inputs of sysfs ──────────────────────────────────────────────────────────

/// The number that a text has behind `prefix`.
pub open spec fn number_behind(s: Seq<char>, prefix: Seq<char>) -> Option<nat> {
    match without_prefix(s, prefix) {
        Some(rest) => at_most(parsed_nat(rest), u32::MAX as nat),
        None => None,
    }
}

/// Kind, prefix and number of the input with the given file name.
pub open spec fn input_parts(name: Seq<char>) -> Option<(SensorKind, Seq<char>, nat)> {
    match without_suffix(name, "_input"@) {
        None => None,
        Some(stem) => match number_behind(stem, "temp"@) {
            Some(n) => Some((SensorKind::Temperature, "temp"@, n)),
            None => match number_behind(stem, "fan"@) {
                Some(n) => Some((SensorKind::Fan, "fan"@, n)),
                None => match number_behind(stem, "in"@) {
                    Some(n) => Some((SensorKind::Voltage, "in"@, n)),
                    None => match number_behind(stem, "curr"@) {
                        Some(n) => Some((SensorKind::Current, "curr"@, n)),
                        None => match number_behind(stem, "power"@) {
                            Some(n) => Some((SensorKind::Power, "power"@, n)),
                            None => None,
                        },
                    },
                },
            },
        },
    }
}

fn parse_number_behind(s: &str, prefix: &str) -> (n: Option<u32>)
    ensures
        match n {
            Some(v) => number_behind(s@, prefix@) == Some(v as nat),
            None => number_behind(s@, prefix@) is None,
        },
{
    match strip_prefix(s, prefix) {
        Some(rest) => parse_u32(&rest),
        None => None,
    }
}

/// The view of the parts of an input.
pub open spec fn parts_view(parts: Option<(SensorKind, &'static str, u32)>) -> Option<
    (SensorKind, Seq<char>, nat),
> {
    match parts {
        Some((kind, prefix, index)) => Some((kind, prefix@, index as nat)),
        None => None,
    }
}

/// Kind, prefix and number of the input with the given file name.
pub fn parse_input_name(name: &str) -> (parts: Option<(SensorKind, &'static str, u32)>)
    ensures
        parts_view(parts) == input_parts(name@),
{
    let stem = match strip_suffix(name, "_input") {
        Some(stem) => stem,
        None => {
            return None;
        },
    };
    if let Some(n) = parse_number_behind(&stem, "temp") {
        return Some((SensorKind::Temperature, "temp", n));
    }
    if let Some(n) = parse_number_behind(&stem, "fan") {
        return Some((SensorKind::Fan, "fan", n));
    }
    if let Some(n) = parse_number_behind(&stem, "in") {
        return Some((SensorKind::Voltage, "in", n));
    }
    if let Some(n) = parse_number_behind(&stem, "curr") {
        return Some((SensorKind::Current, "curr", n));
    }
    if let Some(n) = parse_number_behind(&stem, "power") {
        return Some((SensorKind::Power, "power", n));
    }
    None
}

/// The file that holds the label of an input.
pub fn label_file_name(name: &str) -> (file: Option<String>)
    ensures
        optional_text(file) == (match input_parts(name@) {
            Some((_, prefix, index)) => Some(prefix + decimal(index) + "_label"@),
            None => None,
        }),
{
    match parse_input_name(name) {
        Some((_, prefix, index)) => Some(concat3(prefix, &format_u64(index as u64), "_label")),
        None => None,
    }
}

/// A file of a hwmon device.
pub struct HwmonFile {
    pub file_name: String,
    /// What the label of the input says, where it could be read.
    pub label: Option<String>,
}

/// A hwmon device, as sysfs shows it.
pub struct HwmonDirectory {
    pub path: String,
    /// What its `name` file says, where it could be read.
    pub name: Option<String>,
    /// The device behind it.
    pub device_path: String,
    pub files: Vec<HwmonFile>,
}

/// A sensor of a hwmon device.
#[derive(Debug)]
pub struct HwmonCandidate {
    pub descriptor: SensorDescriptor,
    /// The file that holds its readings.
    pub input_path: String,
    pub chip_name: String,
    pub input_name: String,
    pub source_label: Option<String>,
    pub device_path: String,
}

/// A sensor of a hwmon device, with texts as sequences of characters.
#[verifier::ext_equal]
pub struct CandidateView {
    pub descriptor: DescriptorView,
    pub input_path: Seq<char>,
    pub chip_name: Seq<char>,
    pub input_name: Seq<char>,
    pub source_label: Option<Seq<char>>,
    pub device_path: Seq<char>,
}

impl View for HwmonCandidate {
    type V = CandidateView;

    open spec fn view(&self) -> CandidateView {
        CandidateView {
            descriptor: self.descriptor@,
            input_path: self.input_path@,
            chip_name: self.chip_name@,
            input_name: self.input_name@,
            source_label: optional_text(self.source_label),
            device_path: self.device_path@,
        }
    }
}

impl Keyed for HwmonCandidate {
    open spec fn key_text(&self) -> Seq<char> {
        self.descriptor.id@
    }

    fn key(&self) -> (key: &str) {
        self.descriptor.id.as_str()
    }
}

/// The views of some candidates.
pub open spec fn candidate_views(candidates: Seq<HwmonCandidate>) -> Seq<CandidateView> {
    candidates.map_values(|candidate: HwmonCandidate| candidate@)
}

/// The name of the chip of a device.
pub open spec fn chip_of(directory: HwmonDirectory) -> Seq<char> {
    match directory.name {
        Some(name) => trimmed(name@),
        None => "hwmon"@,
    }
}

/// What the label of an input says, if it says anything.
pub open spec fn label_of(file: HwmonFile) -> Option<Seq<char>> {
    match file.label {
        Some(label) => if trimmed(label@).len() > 0 {
            Some(trimmed(label@))
        } else {
            None
        },
        None => None,
    }
}

/// The sensor that a file of a device holds the readings of, if any.
pub open spec fn file_candidate(directory: HwmonDirectory, file: HwmonFile) -> Option<
    CandidateView,
> {
    match input_parts(file.file_name@) {
        None => None,
        Some((kind, prefix, index)) => Some(
            CandidateView {
                descriptor: DescriptorView {
                    id: directory.path@ + ":"@ + (prefix + decimal(index)),
                    kind,
                    label: match label_of(file) {
                        Some(label) => label,
                        None => chip_of(directory) + " "@ + (prefix + decimal(index)),
                    },
                    persistent: false,
                    default_value: None,
                },
                input_path: path_join(directory.path@, file.file_name@),
                chip_name: chip_of(directory),
                input_name: file.file_name@,
                source_label: label_of(file),
                device_path: directory.device_path@,
            },
        ),
    }
}

/// The sensors of the first `n` files of a device.
pub open spec fn directory_candidates(directory: HwmonDirectory, n: int) -> Seq<CandidateView>
    decreases n,
{
    if n <= 0 {
        Seq::empty()
    } else {
        let before = directory_candidates(directory, n - 1);
        match file_candidate(directory, directory.files@[n - 1]) {
            Some(candidate) => before.push(candidate),
            None => before,
        }
    }
}

/// The sensors of some devices, in the order in which they were found.
pub open spec fn found_candidates(directories: Seq<HwmonDirectory>) -> Seq<CandidateView>
    decreases directories.len(),
{
    if directories.len() == 0 {
        Seq::empty()
    } else {
        found_candidates(directories.drop_last()) + directory_candidates(
            directories.last(),
            directories.last().files@.len() as int,
        )
    }
}

fn make_candidate(directory: &HwmonDirectory, file: &HwmonFile) -> (candidate: Option<
    HwmonCandidate,
>)
    ensures
        match candidate {
            Some(candidate) => file_candidate(*directory, *file) == Some(candidate@),
            None => file_candidate(*directory, *file) is None,
        },
{
    let (kind, prefix, index) = match parse_input_name(&file.file_name) {
        Some(parts) => parts,
        None => {
            return None;
        },
    };
    let chip_name = match &directory.name {
        Some(name) => trim(name),
        None => "hwmon".to_string(),
    };
    let source_label = match &file.label {
        Some(label) => {
            let label = trim(label);
            if label.as_str().unicode_len() > 0 {
                Some(label)
            } else {
                None
            }
        },
        None => None,
    };
    let place = concat(prefix, &format_u64(index as u64));
    let label = match &source_label {
        Some(label) => label.clone(),
        None => concat3(&chip_name, " ", &place),
    };
    Some(
        HwmonCandidate {
            descriptor: SensorDescriptor {
                id: concat3(&directory.path, ":", &place),
                kind,
                label,
                persistent: false,
                default_value: None,
            },
            input_path: join_path(&directory.path, &file.file_name),
            chip_name,
            input_name: file.file_name.clone(),
            source_label,
            device_path: directory.device_path.clone(),
        },
    )
}

/// The sensors of some hwmon devices, in the order of their identifiers.
pub fn scan_hwmon_candidates(directories: &[HwmonDirectory]) -> (candidates: Vec<HwmonCandidate>)
    ensures
        exists|found: Seq<HwmonCandidate>|
            candidate_views(found) == found_candidates(directories@) && #[trigger] is_stable_sort(
                found,
                candidates@,
            ),
{
    let mut found: Vec<HwmonCandidate> = Vec::new();
    assert(candidate_views(found@) =~= found_candidates(directories@.take(0)));
    for i in 0..directories.len()
        invariant
            candidate_views(found@) == found_candidates(directories@.take(i as int)),
    {
        let directory = &directories[i];
        let ghost before = candidate_views(found@);
        assert(directories@.take(i as int + 1).drop_last() =~= directories@.take(i as int));
        assert(before + directory_candidates(*directory, 0) =~= before);
        for j in 0..directory.files.len()
            invariant
                candidate_views(found@) == before + directory_candidates(*directory, j as int),
        {
            let ghost so_far = candidate_views(found@);
            if let Some(candidate) = make_candidate(directory, &directory.files[j]) {
                let ghost fresh = candidate@;
                found.push(candidate);
                assert(candidate_views(found@) =~= so_far.push(fresh));
                assert(candidate_views(found@) =~= before + directory_candidates(
                    *directory,
                    j + 1,
                ));
            }
        }
    }
    assert(directories@.take(directories@.len() as int) =~= directories@);
    let ghost all = found@;
    let candidates = sort_by_key(found);
    assert(is_stable_sort(all, candidates@));
    candidates
}

// ── Persistent sensors ───────────────────────────────────────────────────────

/// Whether a text is as expected; anything is where nothing is expected.
pub open spec fn as_expected(expected: Option<Seq<char>>, actual: Seq<char>) -> bool {
    match expected {
        Some(text) => actual == text,
        None => true,
    }
}

/// The label by which a candidate is recognised.
pub open spec fn recognised_label(candidate: CandidateView) -> Seq<char> {
    match candidate.source_label {
        Some(label) => label,
        None => candidate.descriptor.label,
    }
}

/// Whether a candidate is what the source of a persistent sensor describes.
pub open spec fn candidate_matches(
    candidate: CandidateView,
    kind: SensorKind,
    source: SourceView,
) -> bool {
    match source {
        SourceView::Hwmon { chip_name, input, source_label, device_path_contains } => {
            &&& candidate.descriptor.kind == kind
            &&& candidate.input_name == input
            &&& as_expected(chip_name, candidate.chip_name)
            &&& as_expected(source_label, recognised_label(candidate))
            &&& match device_path_contains {
                Some(needle) => contains_text(candidate.device_path, needle),
                None => true,
            }
        },
        _ => false,
    }
}

fn is_expected(expected: &Option<String>, actual: &str) -> (yes: bool)
    ensures
        yes == as_expected(optional_text(*expected), actual@),
{
    match expected {
        Some(text) => same(actual, text),
        None => true,
    }
}

fn matches_source(
    candidate: &HwmonCandidate,
    kind: SensorKind,
    source: &PersistentSensorSource,
) -> (yes: bool)
    ensures
        yes == candidate_matches(candidate@, kind, source@),
{
    match source {
        PersistentSensorSource::Hwmon {
            chip_name,
            input,
            source_label,
            device_path_contains,
        } => {
            let label = match &candidate.source_label {
                Some(label) => label,
                None => &candidate.descriptor.label,
            };
            let below = match device_path_contains {
                Some(needle) => contains(&candidate.device_path, needle),
                None => true,
            };
            candidate.descriptor.kind == kind && same(&candidate.input_name, input) && is_expected(
                chip_name,
                &candidate.chip_name,
            ) && is_expected(source_label, label) && below
        },
        PersistentSensorSource::Smartctl { .. } => false,
        PersistentSensorSource::LsiHba { .. } => false,
    }
}

/// Whether `i` is the only candidate that a source describes.
pub open spec fn only_match(
    candidates: Seq<CandidateView>,
    kind: SensorKind,
    source: SourceView,
    i: int,
) -> bool {
    &&& 0 <= i < candidates.len()
    &&& candidate_matches(candidates[i], kind, source)
    &&& forall|j: int|
        0 <= j < candidates.len() && j != i ==> !candidate_matches(
            #[trigger] candidates[j],
            kind,
            source,
        )
}

/// The name of a controller device.
pub open spec fn controller_name(device: Seq<char>) -> Seq<char> {
    match file_name_of(device) {
        Some(name) => name,
        None => "mptctl"@,
    }
}

/// The identifier of the sensor of a controller.
pub open spec fn hba_id(device: Seq<char>, ioc: u32) -> Seq<char> {
    "hba:"@ + controller_name(device) + ":ioc"@ + decimal(ioc as nat)
}

/// The identifier of the sensor of a controller.
pub fn hba_dynamic_id(device: &str, ioc: u32) -> (id: String)
    ensures
        id@ == hba_id(device@, ioc),
{
    let name = match file_name(device) {
        Some(name) => name,
        None => "mptctl".to_string(),
    };
    let mut id = concat3("hba:", &name, ":ioc");
    id.append(&format_u64(ioc as u64));
    id
}

/// The source of a disk as configured, not yet read.
pub open spec fn fresh_disk_source(config: SmartctlSection, device: Seq<char>) -> LiveView {
    LiveView::SmartctlTemperature {
        command: config.command@,
        device,
        timeout_seconds: crate::agent::disks::at_least_one(config.timeout_seconds),
        poll_seconds: crate::agent::disks::at_least_one(config.poll_seconds),
        cache: None,
    }
}

/// Whether `resolved` is where the readings of a persistent sensor come from,
/// and which sensor it takes the place of. A hwmon source is found only where
/// exactly one candidate is what it describes.
pub open spec fn resolves(
    smartctl: SmartctlSection,
    candidates: Seq<CandidateView>,
    persistent: PersistentConfigView,
    resolved: Option<(LiveView, Seq<char>)>,
) -> bool {
    match persistent.source {
        SourceView::Hwmon { .. } => match resolved {
            Some((source, id)) => exists|i: int|
                #[trigger] only_match(candidates, persistent.kind, persistent.source, i) && source
                    == LiveView::HwmonInput(candidates[i].input_path) && id
                    == candidates[i].descriptor.id,
            None => forall|i: int| !only_match(candidates, persistent.kind, persistent.source, i),
        },
        SourceView::Smartctl { device } => resolved == Some(
            (fresh_disk_source(smartctl, device), smartctl_id(device)),
        ),
        SourceView::LsiHba { device, ioc } => resolved == Some(
            (LiveView::Mpt2IocTemperature { device, ioc }, hba_id(device, ioc)),
        ),
    }
}

/// The view of where readings come from, and which sensor that takes the place
/// of.
pub open spec fn resolved_view(resolved: Option<(LiveSource, String)>) -> Option<
    (LiveView, Seq<char>),
> {
    match resolved {
        Some((source, id)) => Some((source@, id@)),
        None => None,
    }
}

/// Where the readings of a persistent sensor come from.
pub fn resolve_persistent_source(
    config: &AgentConfig,
    candidates: &[HwmonCandidate],
    persistent: &PersistentSensorConfig,
) -> (resolved: Option<(LiveSource, String)>)
    ensures
        resolves(
            config.smartctl,
            candidate_views(candidates@),
            persistent@,
            resolved_view(resolved),
        ),
{
    match &persistent.source {
        PersistentSensorSource::Hwmon { .. } => {
            let ghost all = candidate_views(candidates@);
            let mut first: Option<usize> = None;
            for i in 0..candidates.len()
                invariant
                    all == candidate_views(candidates@),
                    match first {
                        None => forall|j: int|
                            0 <= j < i ==> !candidate_matches(
                                #[trigger] all[j],
                                persistent.kind,
                                persistent.source@,
                            ),
                        Some(f) => {
                            &&& f < i
                            &&& candidate_matches(
                                all[f as int],
                                persistent.kind,
                                persistent.source@,
                            )
                            &&& forall|j: int|
                                0 <= j < i && j != f ==> !candidate_matches(
                                    #[trigger] all[j],
                                    persistent.kind,
                                    persistent.source@,
                                )
                        },
                    },
                    persistent.source is Hwmon,
            {
                assert(all[i as int] == candidates@[i as int]@);
                if matches_source(&candidates[i], persistent.kind, &persistent.source) {
                    match first {
                        Some(f) => {
                            assert forall|k: int| !only_match(
                                all,
                                persistent.kind,
                                persistent.source@,
                                k,
                            ) by {
                                if k == i {
                                    assert(candidate_matches(
                                        all[f as int],
                                        persistent.kind,
                                        persistent.source@,
                                    ));
                                } else {
                                    assert(candidate_matches(
                                        all[i as int],
                                        persistent.kind,
                                        persistent.source@,
                                    ));
                                }
                            }
                            return None;
                        },
                        None => {
                            first = Some(i);
                        },
                    }
                }
            }
            match first {
                Some(f) => {
                    assert(only_match(all, persistent.kind, persistent.source@, f as int));
                    assert(all[f as int] == candidates@[f as int]@);
                    Some(
                        (
                            LiveSource::HwmonInput(candidates[f].input_path.clone()),
                            candidates[f].descriptor.id.clone(),
                        ),
                    )
                },
                None => None,
            }
        },
        PersistentSensorSource::Smartctl { device } => Some(
            (
                LiveSource::SmartctlTemperature(
                    source_for_device(&config.smartctl, device.clone()),
                ),
                smartctl_dynamic_id(device),
            ),
        ),
        PersistentSensorSource::LsiHba { device, ioc } => Some(
            (
                LiveSource::Mpt2IocTemperature { device: device.clone(), ioc: *ioc },
                hba_dynamic_id(device, *ioc),
            ),
        ),
    }
}

/// The sensor of a persistent sensor's configuration.
pub open spec fn persistent_tracked(
    persistent: PersistentConfigView,
    source: Option<LiveView>,
) -> TrackedView {
    TrackedView {
        descriptor: DescriptorView {
            id: persistent.id,
            kind: persistent.kind,
            label: persistent.label,
            persistent: true,
            default_value: Some(persistent.default_value),
        },
        source: TrackedSourceView::Persistent { source, default_value: persistent.default_value },
    }
}

/// Whether `sensors` are the persistent sensors as configured, and `hidden` the
/// identifiers of the sensors whose places they take.
pub open spec fn are_persistent(
    smartctl: SmartctlSection,
    candidates: Seq<CandidateView>,
    configured: Seq<PersistentConfigView>,
    resolved: Seq<Option<(LiveView, Seq<char>)>>,
    sensors: Seq<TrackedView>,
    hidden: Seq<Seq<char>>,
) -> bool {
    &&& sensors.len() == configured.len()
    &&& resolved.len() == configured.len()
    &&& forall|i: int|
        0 <= i < configured.len() ==> {
            &&& resolves(smartctl, candidates, configured[i], #[trigger] resolved[i])
            &&& sensors[i] == persistent_tracked(
                configured[i],
                match resolved[i] {
                    Some((source, _)) => Some(source),
                    None => None,
                },
            )
        }
    &&& forall|id: Seq<char>| #[trigger]
        hidden.contains(id) <==> shadowed(resolved, id)
}

/// Whether a source takes the place of the sensor `id`.
pub open spec fn shadows(resolved: Option<(LiveView, Seq<char>)>, id: Seq<char>) -> bool {
    match resolved {
        Some((_, shadow)) => shadow == id,
        None => false,
    }
}

/// Whether one of some sources takes the place of the sensor `id`.
pub open spec fn shadowed(resolved: Seq<Option<(LiveView, Seq<char>)>>, id: Seq<char>) -> bool {
    exists|i: int| 0 <= i < resolved.len() && shadows(#[trigger] resolved[i], id)
}

/// The persistent sensors as configured, and the identifiers of the sensors
/// whose places they take.
pub fn scan_persistent_sensors(config: &AgentConfig, candidates: &[HwmonCandidate]) -> (found: (
    Vec<TrackedSensor>,
    Vec<String>,
))
    ensures
        exists|resolved: Seq<Option<(LiveView, Seq<char>)>>| #[trigger]
            are_persistent(
                config.smartctl,
                candidate_views(candidates@),
                config_views(config.persistent_sensor@),
                resolved,
                tracked_views(found.0@),
                texts(found.1@),
            ),
{
    let ghost configured = config_views(config.persistent_sensor@);
    let ghost mut resolved: Seq<Option<(LiveView, Seq<char>)>> = Seq::empty();
    let mut sensors: Vec<TrackedSensor> = Vec::new();
    let mut hidden: Vec<String> = Vec::new();
    assert(tracked_views(sensors@) =~= Seq::<TrackedView>::empty());
    assert forall|id: Seq<char>| !#[trigger] texts(hidden@).contains(id) by {
        assert(texts(hidden@).len() == 0);
    }
    for i in 0..config.persistent_sensor.len()
        invariant
            configured == config_views(config.persistent_sensor@),
            sensors@.len() == i,
            are_persistent(
                config.smartctl,
                candidate_views(candidates@),
                configured.take(i as int),
                resolved,
                tracked_views(sensors@),
                texts(hidden@),
            ),
    {
        let persistent = &config.persistent_sensor[i];
        let ghost old_resolved = resolved;
        let ghost old_sensors = tracked_views(sensors@);
        let ghost old_hidden = texts(hidden@);
        let found = resolve_persistent_source(config, candidates, persistent);
        let ghost fresh = resolved_view(found);
        let source = match found {
            Some((source, shadow)) => {
                hidden.push(shadow);
                Some(source)
            },
            None => None,
        };
        sensors.push(
            TrackedSensor {
                descriptor: SensorDescriptor {
                    id: persistent.id.clone(),
                    kind: persistent.kind,
                    label: persistent.label.clone(),
                    persistent: true,
                    default_value: Some(persistent.default_value),
                },
                source: SensorSource::Persistent {
                    source,
                    default_value: persistent.default_value,
                },
            },
        );
        proof {
            resolved = resolved.push(fresh);
            let now = configured.take(i as int + 1);
            let views = tracked_views(sensors@);
            assert(configured[i as int] == persistent@);
            assert(views =~= old_sensors.push(sensors@[i as int]@));
            assert forall|j: int| 0 <= j < now.len() implies {
                &&& resolves(
                    config.smartctl,
                    candidate_views(candidates@),
                    now[j],
                    #[trigger] resolved[j],
                )
                &&& views[j] == persistent_tracked(
                    now[j],
                    match resolved[j] {
                        Some((source, _)) => Some(source),
                        None => None,
                    },
                )
            } by {
                if j < i {
                    assert(resolved[j] == old_resolved[j]);
                    assert(now[j] == configured.take(i as int)[j]);
                    assert(views[j] == old_sensors[j]);
                }
            }
            let ids = texts(hidden@);
            if let Some((_, shadow)) = fresh {
                assert(ids =~= old_hidden.push(shadow));
            } else {
                assert(ids =~= old_hidden);
            }
            assert forall|id: Seq<char>| #[trigger] ids.contains(id) <==> shadowed(
                resolved,
                id,
            ) by {
                assert(old_hidden.contains(id) <==> shadowed(old_resolved, id));
                if ids.contains(id) {
                    let k = choose|k: int| 0 <= k < ids.len() && ids[k] == id;
                    if k < old_hidden.len() {
                        assert(old_hidden[k] == id);
                        let j = choose|j: int|
                            0 <= j < old_resolved.len() && shadows(
                                #[trigger] old_resolved[j],
                                id,
                            );
                        assert(resolved[j] == old_resolved[j]);
                    } else {
                        assert(resolved[i as int] == fresh);
                    }
                }
                if shadowed(resolved, id) {
                    let j = choose|j: int|
                        0 <= j < resolved.len() && shadows(#[trigger] resolved[j], id);
                    if j < i {
                        assert(old_resolved[j] == resolved[j]);
                        let k = choose|k: int| 0 <= k < old_hidden.len() && old_hidden[k] == id;
                        assert(ids[k] == id);
                    } else {
                        assert(ids[old_hidden.len() as int] == id);
                    }
                }
            }
        }
    }
    assert(configured.take(configured.len() as int) =~= configured);
    let result = (sensors, hidden);
    assert(are_persistent(
        config.smartctl,
        candidate_views(candidates@),
        config_views(config.persistent_sensor@),
        resolved,
        tracked_views(result.0@),
        texts(result.1@),
    ));
    result
}

// ── Controllers and disks ────────────────────────────────────────────────────

/// A controller that answered.
pub struct HbaReading {
    pub device: String,
    pub ioc: u32,
    /// Its temperature, in thousandths of a degree.
    pub value: i64,
    /// How it presents itself, where it does.
    pub identity: Option<HbaIocIdentity>,
}

/// The label of a controller that answered.
pub open spec fn reading_label(config: LsiHbaSection, reading: HbaReading) -> Seq<char> {
    hba_label(
        config.label_template@,
        match reading.identity {
            Some(identity) => identity@,
            None => unknown_identity(reading.ioc),
        },
    )
}

/// The sensor of a controller that answered.
pub open spec fn hba_tracked(config: LsiHbaSection, reading: HbaReading) -> TrackedView {
    TrackedView {
        descriptor: DescriptorView {
            id: hba_id(reading.device@, reading.ioc),
            kind: SensorKind::Temperature,
            label: reading_label(config, reading),
            persistent: false,
            default_value: None,
        },
        source: TrackedSourceView::Live(
            LiveView::Mpt2IocTemperature { device: reading.device@, ioc: reading.ioc },
        ),
    }
}

/// The sensors of the controllers that answered; none where controllers are
/// not read.
pub open spec fn hba_sensors(config: LsiHbaSection, readings: Seq<HbaReading>) -> Seq<TrackedView> {
    if config.enabled {
        readings.map_values(|reading: HbaReading| hba_tracked(config, reading))
    } else {
        Seq::empty()
    }
}

/// The sensors of the controllers that answered.
pub fn scan_hba_sensors(config: &LsiHbaSection, readings: &[HbaReading]) -> (sensors: Vec<
    TrackedSensor,
>)
    ensures
        tracked_views(sensors@) == hba_sensors(*config, readings@),
{
    let mut sensors: Vec<TrackedSensor> = Vec::new();
    if !config.enabled {
        assert(tracked_views(sensors@) =~= Seq::<TrackedView>::empty());
        return sensors;
    }
    let ghost all = hba_sensors(*config, readings@);
    for i in 0..readings.len()
        invariant
            config.enabled,
            all == hba_sensors(*config, readings@),
            tracked_views(sensors@) == all.take(i as int),
    {
        let reading = &readings[i];
        let ghost before = tracked_views(sensors@);
        sensors.push(
            TrackedSensor {
                descriptor: SensorDescriptor {
                    id: hba_dynamic_id(&reading.device, reading.ioc),
                    kind: SensorKind::Temperature,
                    label: hba_ioc_label(config, &reading.identity, reading.ioc),
                    persistent: false,
                    default_value: None,
                },
                source: SensorSource::Live(
                    LiveSource::Mpt2IocTemperature {
                        device: reading.device.clone(),
                        ioc: reading.ioc,
                    },
                ),
            },
        );
        assert(tracked_views(sensors@) =~= before.push(hba_tracked(*config, *reading)));
        assert(tracked_views(sensors@) =~= all.take(i as int + 1));
    }
    assert(all.take(all.len() as int) =~= all);
    sensors
}

/// Every port of every controller device, in order.
pub open spec fn slots_of(devices: Seq<Seq<char>>, max_ioc: u32) -> Seq<(Seq<char>, u32)>
    decreases devices.len(),
{
    if devices.len() == 0 {
        Seq::empty()
    } else {
        slots_of(devices.drop_last(), max_ioc) + Seq::new(
            max_ioc as nat,
            |i: int| (devices.last(), i as u32),
        )
    }
}

/// The views of some slots.
pub open spec fn slot_views(slots: Seq<(String, u32)>) -> Seq<(Seq<char>, u32)> {
    slots.map_values(|slot: (String, u32)| (slot.0@, slot.1))
}

/// Every port of every controller device, in order.
pub fn controller_slots(config: &LsiHbaSection) -> (slots: Vec<(String, u32)>)
    ensures
        slot_views(slots@) == slots_of(texts(config.devices@), config.max_ioc),
{
    let mut slots: Vec<(String, u32)> = Vec::new();
    let ghost devices = texts(config.devices@);
    assert(slot_views(slots@) =~= slots_of(devices.take(0), config.max_ioc));
    for d in 0..config.devices.len()
        invariant
            devices == texts(config.devices@),
            slot_views(slots@) == slots_of(devices.take(d as int), config.max_ioc),
    {
        let ghost before = slot_views(slots@);
        let ghost device = devices[d as int];
        proof {
            assert(devices.take(d as int + 1).drop_last() =~= devices.take(d as int));
            assert(device == config.devices@[d as int]@);
            assert(before + Seq::new(0, |i: int| (device, i as u32)) =~= before);
        }
        for ioc in 0..config.max_ioc
            invariant
                d < config.devices@.len(),
                device == config.devices@[d as int]@,
                slot_views(slots@) == before + Seq::new(ioc as nat, |i: int| (device, i as u32)),
        {
            let ghost so_far = slot_views(slots@);
            slots.push((config.devices[d].clone(), ioc));
            assert(slot_views(slots@) =~= so_far.push((device, ioc)));
            assert(slot_views(slots@) =~= before + Seq::new(
                (ioc + 1) as nat,
                |i: int| (device, i as u32),
            ));
        }
    }
    assert(devices.take(devices.len() as int) =~= devices);
    slots
}

// ── All sensors ──────────────────────────────────────────────────────────────

/// The sensor of a hwmon candidate.
pub open spec fn candidate_tracked(candidate: CandidateView) -> TrackedView {
    TrackedView {
        descriptor: candidate.descriptor,
        source: TrackedSourceView::Live(LiveView::HwmonInput(candidate.input_path)),
    }
}

/// The sensor of a disk.
pub open spec fn disk_tracked(sensor: SmartctlSensor) -> TrackedView {
    TrackedView {
        descriptor: sensor.descriptor@,
        source: TrackedSourceView::Live(disk_source(sensor.source)),
    }
}

/// The sensors whose places are not taken.
pub open spec fn kept(sensors: Seq<TrackedView>, hidden: Seq<Seq<char>>) -> Seq<TrackedView>
    decreases sensors.len(),
{
    if sensors.len() == 0 {
        Seq::empty()
    } else {
        let before = kept(sensors.drop_last(), hidden);
        if hidden.contains(sensors.last().descriptor.id) {
            before
        } else {
            before.push(sensors.last())
        }
    }
}

/// All sensors before they are sorted: the persistent ones, and those of hwmon
/// devices, controllers and disks whose places they do not take.
pub open spec fn gathered_sensors(
    persistent: Seq<TrackedView>,
    hidden: Seq<Seq<char>>,
    candidates: Seq<CandidateView>,
    controllers: Seq<TrackedView>,
    disks: Seq<SmartctlSensor>,
) -> Seq<TrackedView> {
    persistent + kept(
        candidates.map_values(|candidate: CandidateView| candidate_tracked(candidate)),
        hidden,
    ) + kept(controllers, hidden) + kept(
        disks.map_values(|sensor: SmartctlSensor| disk_tracked(sensor)),
        hidden,
    )
}

/// Whether `found` is what a scan gathers, before it is sorted.
pub open spec fn is_scan(
    config: AgentConfig,
    candidates: Seq<CandidateView>,
    readings: Seq<HbaReading>,
    disks: Seq<SmartctlSensor>,
    resolved: Seq<Option<(LiveView, Seq<char>)>>,
    persistent: Seq<TrackedView>,
    hidden: Seq<Seq<char>>,
    found: Seq<TrackedView>,
) -> bool {
    &&& are_persistent(
        config.smartctl,
        candidates,
        config_views(config.persistent_sensor@),
        resolved,
        persistent,
        hidden,
    )
    &&& found == gathered_sensors(
        persistent,
        hidden,
        candidates,
        hba_sensors(config.lsi_hba, readings),
        disks,
    )
}

/// Whether `sensors` are what a scan comes to, in the order of their
/// identifiers.
pub open spec fn scanned(
    config: AgentConfig,
    candidates: Seq<CandidateView>,
    readings: Seq<HbaReading>,
    disks: Seq<SmartctlSensor>,
    sensors: Seq<TrackedSensor>,
) -> bool {
    exists|
        resolved: Seq<Option<(LiveView, Seq<char>)>>,
        persistent: Seq<TrackedView>,
        hidden: Seq<Seq<char>>,
        found: Seq<TrackedSensor>,
    |
        #[trigger] is_scan(
            config,
            candidates,
            readings,
            disks,
            resolved,
            persistent,
            hidden,
            tracked_views(found),
        ) && #[trigger] is_stable_sort(found, sensors)
}

/// Adds to `sensors` those of `more` whose places are not taken.
fn add_kept(sensors: &mut Vec<TrackedSensor>, more: Vec<TrackedSensor>, hidden: &[String])
    ensures
        tracked_views(final(sensors)@) == tracked_views(old(sensors)@) + kept(
            tracked_views(more@),
            texts(hidden@),
        ),
{
    let ghost before = tracked_views(sensors@);
    let ghost all = tracked_views(more@);
    let ghost items = more@;
    assert(before + kept(all.take(0), texts(hidden@)) =~= before);
    let mut rest = more;
    let mut queue: Vec<TrackedSensor> = Vec::new();
    while rest.len() > 0
        invariant
            rest@.len() <= items.len(),
            rest@ == items.take(rest@.len() as int),
            queue@ == items.skip(rest@.len() as int).reverse(),
        decreases rest@.len(),
    {
        let ghost n = rest@.len() as int;
        if let Some(sensor) = rest.pop() {
            queue.push(sensor);
            assert(rest@ =~= items.take(n - 1));
            assert(queue@ =~= items.skip(n - 1).reverse());
        }
    }
    assert(queue@ =~= items.reverse());
    while queue.len() > 0
        invariant
            all == tracked_views(items),
            queue@.len() <= items.len(),
            queue@ == items.skip(items.len() - queue@.len()).reverse(),
            tracked_views(sensors@) == before + kept(
                all.take(items.len() - queue@.len()),
                texts(hidden@),
            ),
        decreases queue@.len(),
    {
        let ghost n = items.len() - queue@.len();
        let ghost so_far = tracked_views(sensors@);
        if let Some(sensor) = queue.pop() {
            assert(sensor == items[n]);
            assert(queue@ =~= items.skip(n + 1).reverse());
            assert(all.take(n + 1).drop_last() =~= all.take(n));
            assert(all.take(n + 1).last() == sensor@);
            if !list_contains(hidden, &sensor.descriptor.id) {
                let ghost fresh = sensor@;
                sensors.push(sensor);
                assert(tracked_views(sensors@) =~= so_far.push(fresh));
                assert(tracked_views(sensors@) =~= before + kept(
                    all.take(n + 1),
                    texts(hidden@),
                ));
            }
        }
    }
    assert(all.take(items.len() as int) =~= all);
}

fn track_candidates(candidates: &[HwmonCandidate]) -> (sensors: Vec<TrackedSensor>)
    ensures
        tracked_views(sensors@) == candidate_views(candidates@).map_values(
            |candidate: CandidateView| candidate_tracked(candidate),
        ),
{
    let ghost all = candidate_views(candidates@).map_values(
        |candidate: CandidateView| candidate_tracked(candidate),
    );
    let mut sensors: Vec<TrackedSensor> = Vec::new();
    for i in 0..candidates.len()
        invariant
            all == candidate_views(candidates@).map_values(
                |candidate: CandidateView| candidate_tracked(candidate),
            ),
            tracked_views(sensors@) == all.take(i as int),
    {
        let candidate = &candidates[i];
        let ghost before = tracked_views(sensors@);
        sensors.push(
            TrackedSensor {
                descriptor: candidate.descriptor.clone(),
                source: SensorSource::Live(LiveSource::HwmonInput(candidate.input_path.clone())),
            },
        );
        assert(tracked_views(sensors@) =~= before.push(candidate_tracked(candidate@)));
        assert(tracked_views(sensors@) =~= all.take(i as int + 1));
    }
    assert(all.take(all.len() as int) =~= all);
    sensors
}

fn track_disks(disks: &[SmartctlSensor]) -> (sensors: Vec<TrackedSensor>)
    ensures
        tracked_views(sensors@) == disks@.map_values(
            |sensor: SmartctlSensor| disk_tracked(sensor),
        ),
{
    let ghost all = disks@.map_values(|sensor: SmartctlSensor| disk_tracked(sensor));
    let mut sensors: Vec<TrackedSensor> = Vec::new();
    for i in 0..disks.len()
        invariant
            all == disks@.map_values(|sensor: SmartctlSensor| disk_tracked(sensor)),
            tracked_views(sensors@) == all.take(i as int),
    {
        let disk = &disks[i];
        let ghost before = tracked_views(sensors@);
        sensors.push(
            TrackedSensor {
                descriptor: disk.descriptor.clone(),
                source: SensorSource::Live(LiveSource::SmartctlTemperature(disk.source.copy())),
            },
        );
        assert(tracked_views(sensors@) =~= before.push(disk_tracked(*disk)));
        assert(tracked_views(sensors@) =~= all.take(i as int + 1));
    }
    assert(all.take(all.len() as int) =~= all);
    sensors
}

/// All sensors, in the order of their identifiers, where `candidates`,
/// `readings` and `disks` are what was found on the system.
pub fn scan_all_sensors(
    config: &AgentConfig,
    candidates: &[HwmonCandidate],
    readings: &[HbaReading],
    disks: &[SmartctlSensor],
) -> (sensors: Vec<TrackedSensor>)
    ensures
        scanned(*config, candidate_views(candidates@), readings@, disks@, sensors@),
{
    let (persistent, hidden) = scan_persistent_sensors(config, candidates);
    let ghost resolved = choose|resolved: Seq<Option<(LiveView, Seq<char>)>>| #[trigger]
        are_persistent(
            config.smartctl,
            candidate_views(candidates@),
            config_views(config.persistent_sensor@),
            resolved,
            tracked_views(persistent@),
            texts(hidden@),
        );
    let ghost configured = tracked_views(persistent@);
    let mut found = persistent;
    add_kept(&mut found, track_candidates(candidates), &hidden);
    add_kept(&mut found, scan_hba_sensors(&config.lsi_hba, readings), &hidden);
    add_kept(&mut found, track_disks(disks), &hidden);
    let ghost all = found@;
    let sensors = sort_by_key(found);
    assert(is_scan(
        *config,
        candidate_views(candidates@),
        readings@,
        disks@,
        resolved,
        configured,
        texts(hidden@),
        tracked_views(all),
    ));
    assert(is_stable_sort(all, sensors@));
    sensors
}

proof fn lemma_kept(sensors: Seq<TrackedView>, hidden: Seq<Seq<char>>, i: int)
    requires
        0 <= i < kept(sensors, hidden).len(),
    ensures
        !hidden.contains(kept(sensors, hidden)[i].descriptor.id),
    decreases sensors.len(),
{
    if i < kept(sensors.drop_last(), hidden).len() {
        lemma_kept(sensors.drop_last(), hidden, i);
    }
}

/// No sensor is reported twice: what a persistent sensor reads is not reported
/// under its own identifier as well.
pub proof fn law_no_sensor_behind_persistent_is_listed(
    config: AgentConfig,
    candidates: Seq<CandidateView>,
    readings: Seq<HbaReading>,
    disks: Seq<SmartctlSensor>,
    resolved: Seq<Option<(LiveView, Seq<char>)>>,
    persistent: Seq<TrackedView>,
    hidden: Seq<Seq<char>>,
    found: Seq<TrackedView>,
    i: int,
)
    requires
        is_scan(config, candidates, readings, disks, resolved, persistent, hidden, found),
        0 <= i < found.len(),
    ensures
        i < persistent.len() ==> found[i].descriptor.persistent,
        i >= persistent.len() ==> !shadowed(resolved, found[i].descriptor.id),
{
    let a = kept(
        candidates.map_values(|candidate: CandidateView| candidate_tracked(candidate)),
        hidden,
    );
    let b = kept(hba_sensors(config.lsi_hba, readings), hidden);
    let c = kept(disks.map_values(|sensor: SmartctlSensor| disk_tracked(sensor)), hidden);
    let n = persistent.len() as int;
    if i < n {
        assert(found[i] == persistent[i]);
        assert(resolves(
            config.smartctl,
            candidates,
            config_views(config.persistent_sensor@)[i],
            resolved[i],
        ));
    } else {
        if i < n + a.len() {
            lemma_kept(
                candidates.map_values(|candidate: CandidateView| candidate_tracked(candidate)),
                hidden,
                i - n,
            );
            assert(found[i] == a[i - n]);
        } else if i < n + a.len() + b.len() {
            lemma_kept(hba_sensors(config.lsi_hba, readings), hidden, i - n - a.len());
            assert(found[i] == b[i - n - a.len()]);
        } else {
            lemma_kept(
                disks.map_values(|sensor: SmartctlSensor| disk_tracked(sensor)),
                hidden,
                i - n - a.len() - b.len(),
            );
            assert(found[i] == c[i - n - a.len() - b.len()]);
        }
        assert(!hidden.contains(found[i].descriptor.id));
    }
}

// ── Readings ─────────────────────────────────────────────────────────────────

/// What the host is told of the sensors.
pub fn descriptors(sensors: &[TrackedSensor]) -> (list: Vec<SensorDescriptor>)
    ensures
        descriptor_views(list@) == tracked_views(sensors@).map_values(
            |sensor: TrackedView| sensor.descriptor,
        ),
{
    let ghost all = tracked_views(sensors@).map_values(|sensor: TrackedView| sensor.descriptor);
    let mut list: Vec<SensorDescriptor> = Vec::new();
    for i in 0..sensors.len()
        invariant
            all == tracked_views(sensors@).map_values(|sensor: TrackedView| sensor.descriptor),
            descriptor_views(list@) == all.take(i as int),
    {
        let ghost before = descriptor_views(list@);
        list.push(sensors[i].descriptor.clone());
        assert(descriptor_views(list@) =~= before.push(sensors@[i as int].descriptor@));
        assert(descriptor_views(list@) =~= all.take(i as int + 1));
    }
    assert(all.take(all.len() as int) =~= all);
    list
}

/// The value of a sensor, where `read` is what its source read, if anything.
pub open spec fn source_value(source: TrackedSourceView, read: Option<i64>) -> Option<i64> {
    match source {
        TrackedSourceView::Live(_) => read,
        TrackedSourceView::Persistent { source, default_value } => match (source, read) {
            (Some(_), Some(value)) => Some(value),
            _ => Some(default_value),
        },
    }
}

/// The value of a sensor, where `read` is what its source read, if anything.
pub fn read_source_value(source: &SensorSource, read: Option<i64>) -> (value: Option<i64>)
    ensures
        value == source_value(source@, read),
{
    match source {
        SensorSource::Live(_) => read,
        SensorSource::Persistent { source, default_value } => match (source, read) {
            (Some(_), Some(value)) => Some(value),
            _ => Some(*default_value),
        },
    }
}

/// What the source at place `i` read; nothing where no reading was given.
pub open spec fn reading_at(reads: Seq<Option<i64>>, i: int) -> Option<i64> {
    if 0 <= i < reads.len() {
        reads[i]
    } else {
        None
    }
}

/// The values of the first `n` sensors that have one.
pub open spec fn sensor_values(
    sensors: Seq<TrackedView>,
    reads: Seq<Option<i64>>,
    n: int,
) -> Seq<(Seq<char>, i64)>
    decreases n,
{
    if n <= 0 {
        Seq::empty()
    } else {
        let before = sensor_values(sensors, reads, n - 1);
        match source_value(sensors[n - 1].source, reading_at(reads, n - 1)) {
            Some(value) => before.push((sensors[n - 1].descriptor.id, value)),
            None => before,
        }
    }
}

/// The values of the sensors that have one, where `reads` is what their sources
/// read.
pub fn read_values(sensors: &[TrackedSensor], reads: &[Option<i64>]) -> (values: Vec<SensorValue>)
    ensures
        value_views(values@) == sensor_values(
            tracked_views(sensors@),
            reads@,
            sensors@.len() as int,
        ),
{
    let ghost all = tracked_views(sensors@);
    let mut values: Vec<SensorValue> = Vec::new();
    assert(value_views(values@) =~= Seq::<(Seq<char>, i64)>::empty());
    for i in 0..sensors.len()
        invariant
            all == tracked_views(sensors@),
            value_views(values@) == sensor_values(all, reads@, i as int),
    {
        let ghost before = value_views(values@);
        assert(all[i as int] == sensors@[i as int]@);
        let read = if i < reads.len() {
            reads[i]
        } else {
            None
        };
        if let Some(value) = read_source_value(&sensors[i].source, read) {
            values.push(SensorValue { id: sensors[i].descriptor.id.clone(), value });
            assert(value_views(values@) =~= before.push((sensors@[i as int].descriptor.id@, value)));
        }
    }
    values
}

/// A persistent sensor has a value whatever its source reads.
pub proof fn law_persistent_always_has_value(
    source: Option<LiveView>,
    default_value: i64,
    read: Option<i64>,
)
    ensures
        source_value(TrackedSourceView::Persistent { source, default_value }, read) is Some,
        read is None ==> source_value(
            TrackedSourceView::Persistent { source, default_value },
            read,
        ) == Some(default_value),
{
}

impl TrackedSensor {
    /// The source to read, if there is one.
    pub fn live(&self) -> (source: Option<&LiveSource>)
        ensures
            (match source {
                Some(source) => Some(source@),
                None => None,
            }) == (match self@.source {
                TrackedSourceView::Live(source) => Some(source),
                TrackedSourceView::Persistent { source, .. } => source,
            }),
    {
        match &self.source {
            SensorSource::Live(source) => Some(source),
            SensorSource::Persistent { source, .. } => match source {
                Some(source) => Some(source),
                None => None,
            },
        }
    }
}

/// The name of the machine, where `contents` is what its file says, if it
/// could be read.
pub fn hostname(contents: Option<&str>) -> (name: String)
    ensures
        name@ == (match contents {
            Some(contents) => trimmed(contents@),
            None => "unknown"@,
        }),
{
    match contents {
        Some(contents) => trim(contents),
        None => "unknown".to_string(),
    }
}

} // verus!
