//! The configuration of the agent.

use crate::protocol::{is_plain, is_valid_text, valid_text, SensorKind, MAX_SENSOR_LABEL_BYTES};
use crate::text::laws::law_prefix_and_suffix;
use crate::text::{
    concat, copy_optional, ends_with, has_suffix, optional_text, same, texts,
};
use vstd::prelude::*;

verus! {

/// Where the configuration is, unless the command line says otherwise.
pub const DEFAULT_CONFIG: &'static str = "/etc/vfio-sensor-bridge/agent.toml";

/// The longest path in a configuration, in bytes.
pub const MAX_PATH_BYTES: usize = 512;

/// The longest identifier of a persistent sensor, in bytes.
pub const MAX_PERSISTENT_ID_BYTES: usize = 512;

/// The longest name of a hwmon input, in bytes.
pub const MAX_INPUT_BYTES: usize = 64;

/// The configuration of the agent.
#[derive(Debug)]
pub struct AgentConfig {
    pub agent: AgentSection,
    pub lsi_hba: LsiHbaSection,
    pub smartctl: SmartctlSection,
    pub persistent_sensor: Vec<PersistentSensorConfig>,
}

/// How the agent works.
#[derive(Debug)]
pub struct AgentSection {
    pub virtio_port: String,
    pub scan_root: String,
    pub hwmon_name_template: Option<String>,
    pub rescan_seconds: u64,
    pub sample_seconds: u64,
    pub heartbeat_seconds: u64,
}

/// How host bus adapters are read.
#[derive(Debug)]
pub struct LsiHbaSection {
    pub enabled: bool,
    pub devices: Vec<String>,
    pub max_ioc: u32,
    pub label_template: String,
}

/// How disks are read.
#[derive(Debug)]
pub struct SmartctlSection {
    pub enabled: bool,
    pub command: String,
    pub device_globs: Vec<String>,
    pub timeout_seconds: u64,
    pub poll_seconds: u64,
    pub label_template: String,
}

/// A sensor that the host keeps while the agent is away.
#[derive(Debug)]
pub struct PersistentSensorConfig {
    pub id: String,
    pub kind: SensorKind,
    pub label: String,
    pub default_value: i64,
    pub source: PersistentSensorSource,
}

/// Where the readings of a persistent sensor come from.
#[derive(Debug)]
pub enum PersistentSensorSource {
    Hwmon {
        chip_name: Option<String>,
        input: String,
        source_label: Option<String>,
        device_path_contains: Option<String>,
    },
    Smartctl { device: String },
    LsiHba { device: String, ioc: u32 },
}

/// Where readings come from, with texts as sequences of characters.
#[verifier::ext_equal]
pub enum SourceView {
    Hwmon {
        chip_name: Option<Seq<char>>,
        input: Seq<char>,
        source_label: Option<Seq<char>>,
        device_path_contains: Option<Seq<char>>,
    },
    Smartctl { device: Seq<char> },
    LsiHba { device: Seq<char>, ioc: u32 },
}

impl View for PersistentSensorSource {
    type V = SourceView;

    open spec fn view(&self) -> SourceView {
        match *self {
            PersistentSensorSource::Hwmon {
                chip_name,
                input,
                source_label,
                device_path_contains,
            } => SourceView::Hwmon {
                chip_name: optional_text(chip_name),
                input: input@,
                source_label: optional_text(source_label),
                device_path_contains: optional_text(device_path_contains),
            },
            PersistentSensorSource::Smartctl { device } => SourceView::Smartctl {
                device: device@,
            },
            PersistentSensorSource::LsiHba { device, ioc } => SourceView::LsiHba {
                device: device@,
                ioc,
            },
        }
    }
}

impl Clone for PersistentSensorSource {
    fn clone(&self) -> (copy: Self)
        ensures
            copy@ == self@,
    {
        match self {
            PersistentSensorSource::Hwmon {
                chip_name,
                input,
                source_label,
                device_path_contains,
            } => PersistentSensorSource::Hwmon {
                chip_name: copy_optional(chip_name),
                input: input.clone(),
                source_label: copy_optional(source_label),
                device_path_contains: copy_optional(device_path_contains),
            },
            PersistentSensorSource::Smartctl { device } => PersistentSensorSource::Smartctl {
                device: device.clone(),
            },
            PersistentSensorSource::LsiHba { device, ioc } => PersistentSensorSource::LsiHba {
                device: device.clone(),
                ioc: *ioc,
            },
        }
    }
}

/// A persistent sensor, with texts as sequences of characters.
#[verifier::ext_equal]
pub struct PersistentConfigView {
    pub id: Seq<char>,
    pub kind: SensorKind,
    pub label: Seq<char>,
    pub default_value: i64,
    pub source: SourceView,
}

impl View for PersistentSensorConfig {
    type V = PersistentConfigView;

    open spec fn view(&self) -> PersistentConfigView {
        PersistentConfigView {
            id: self.id@,
            kind: self.kind,
            label: self.label@,
            default_value: self.default_value,
            source: self.source@,
        }
    }
}

/// The views of some persistent sensors.
pub open spec fn config_views(sensors: Seq<PersistentSensorConfig>) -> Seq<PersistentConfigView> {
    sensors.map_values(|sensor: PersistentSensorConfig| sensor@)
}

// ── Defaults ─────────────────────────────────────────────────────────────────

impl AgentSection {
    /// Whether these are the defaults.
    pub open spec fn is_default(self) -> bool {
        &&& self.virtio_port@ == "/dev/virtio-ports/org.vfio_sensor_bridge.0"@
        &&& self.scan_root@ == "/sys/class/hwmon"@
        &&& self.hwmon_name_template is None
        &&& self.rescan_seconds == 10
        &&& self.sample_seconds == 1
        &&& self.heartbeat_seconds == 5
    }
}

impl Default for AgentSection {
    fn default() -> (section: Self)
        ensures
            section.is_default(),
    {
        AgentSection {
            virtio_port: "/dev/virtio-ports/org.vfio_sensor_bridge.0".to_string(),
            scan_root: "/sys/class/hwmon".to_string(),
            hwmon_name_template: None,
            rescan_seconds: 10,
            sample_seconds: 1,
            heartbeat_seconds: 5,
        }
    }
}

impl LsiHbaSection {
    /// Whether these are the defaults.
    pub open spec fn is_default(self) -> bool {
        &&& !self.enabled
        &&& texts(self.devices@) == seq!["/dev/mpt2ctl"@, "/dev/mpt3ctl"@]
        &&& self.max_ioc == 16
        &&& self.label_template@ == "{chip}"@
    }
}

impl Default for LsiHbaSection {
    fn default() -> (section: Self)
        ensures
            section.is_default(),
    {
        let mut devices: Vec<String> = Vec::new();
        devices.push("/dev/mpt2ctl".to_string());
        devices.push("/dev/mpt3ctl".to_string());
        assert(texts(devices@) =~= seq!["/dev/mpt2ctl"@, "/dev/mpt3ctl"@]);
        LsiHbaSection {
            enabled: false,
            devices,
            max_ioc: 16,
            label_template: "{chip}".to_string(),
        }
    }
}

impl SmartctlSection {
    /// Whether these are the defaults.
    pub open spec fn is_default(self) -> bool {
        &&& !self.enabled
        &&& self.command@ == "/usr/sbin/smartctl"@
        &&& texts(self.device_globs@) == seq!["/dev/sd*"@, "/dev/sata*"@]
        &&& self.timeout_seconds == 10
        &&& self.poll_seconds == 30
        &&& self.label_template@ == "{device} temperature"@
    }
}

impl Default for SmartctlSection {
    fn default() -> (section: Self)
        ensures
            section.is_default(),
    {
        let mut device_globs: Vec<String> = Vec::new();
        device_globs.push("/dev/sd*".to_string());
        device_globs.push("/dev/sata*".to_string());
        assert(texts(device_globs@) =~= seq!["/dev/sd*"@, "/dev/sata*"@]);
        SmartctlSection {
            enabled: false,
            command: "/usr/sbin/smartctl".to_string(),
            device_globs,
            timeout_seconds: 10,
            poll_seconds: 30,
            label_template: "{device} temperature".to_string(),
        }
    }
}

impl Default for AgentConfig {
    fn default() -> (config: Self)
        ensures
            config.agent.is_default(),
            config.lsi_hba.is_default(),
            config.smartctl.is_default(),
            config.persistent_sensor@.len() == 0,
    {
        AgentConfig {
            agent: AgentSection::default(),
            lsi_hba: LsiHbaSection::default(),
            smartctl: SmartctlSection::default(),
            persistent_sensor: Vec::new(),
        }
    }
}

// ── Rules ────────────────────────────────────────────────────────────────────

/// Why a configuration is refused.
#[derive(Debug)]
pub enum ConfigError {
    ZeroRescanSeconds,
    ZeroSampleSeconds,
    ZeroHeartbeatSeconds,
    ZeroSmartctlTimeout,
    ZeroSmartctlPoll,
    InvalidId,
    InvalidLabel,
    DuplicateId(String),
    InvalidInput,
    InputSuffix,
    InvalidDevice,
}

/// Why a configuration is refused, with texts as sequences of characters.
#[verifier::ext_equal]
pub enum ConfigFault {
    ZeroRescanSeconds,
    ZeroSampleSeconds,
    ZeroHeartbeatSeconds,
    ZeroSmartctlTimeout,
    ZeroSmartctlPoll,
    InvalidId,
    InvalidLabel,
    DuplicateId(Seq<char>),
    InvalidInput,
    InputSuffix,
    InvalidDevice,
}

impl View for ConfigError {
    type V = ConfigFault;

    open spec fn view(&self) -> ConfigFault {
        match *self {
            ConfigError::ZeroRescanSeconds => ConfigFault::ZeroRescanSeconds,
            ConfigError::ZeroSampleSeconds => ConfigFault::ZeroSampleSeconds,
            ConfigError::ZeroHeartbeatSeconds => ConfigFault::ZeroHeartbeatSeconds,
            ConfigError::ZeroSmartctlTimeout => ConfigFault::ZeroSmartctlTimeout,
            ConfigError::ZeroSmartctlPoll => ConfigFault::ZeroSmartctlPoll,
            ConfigError::InvalidId => ConfigFault::InvalidId,
            ConfigError::InvalidLabel => ConfigFault::InvalidLabel,
            ConfigError::DuplicateId(id) => ConfigFault::DuplicateId(id@),
            ConfigError::InvalidInput => ConfigFault::InvalidInput,
            ConfigError::InputSuffix => ConfigFault::InputSuffix,
            ConfigError::InvalidDevice => ConfigFault::InvalidDevice,
        }
    }
}

impl ConfigFault {
    /// What the error says to a reader.
    pub open spec fn text(self) -> Seq<char> {
        match self {
            ConfigFault::ZeroRescanSeconds => "agent.rescan_seconds must be greater than zero"@,
            ConfigFault::ZeroSampleSeconds => "agent.sample_seconds must be greater than zero"@,
            ConfigFault::ZeroHeartbeatSeconds => {
                "agent.heartbeat_seconds must be greater than zero"@
            },
            ConfigFault::ZeroSmartctlTimeout => {
                "smartctl.timeout_seconds must be greater than zero"@
            },
            ConfigFault::ZeroSmartctlPoll => "smartctl.poll_seconds must be greater than zero"@,
            ConfigFault::InvalidId => "invalid persistent_sensor.id"@,
            ConfigFault::InvalidLabel => "invalid persistent_sensor.label"@,
            ConfigFault::DuplicateId(id) => "duplicate persistent_sensor.id "@ + id,
            ConfigFault::InvalidInput => "invalid persistent_sensor.source.input"@,
            ConfigFault::InputSuffix => "persistent hwmon source input must end with _input"@,
            ConfigFault::InvalidDevice => "invalid persistent_sensor.source.device"@,
        }
    }
}

impl ConfigError {
    /// What the error says to a reader.
    pub fn message(&self) -> (message: String)
        ensures
            message@ == self@.text(),
    {
        match self {
            ConfigError::ZeroRescanSeconds => {
                "agent.rescan_seconds must be greater than zero".to_string()
            },
            ConfigError::ZeroSampleSeconds => {
                "agent.sample_seconds must be greater than zero".to_string()
            },
            ConfigError::ZeroHeartbeatSeconds => {
                "agent.heartbeat_seconds must be greater than zero".to_string()
            },
            ConfigError::ZeroSmartctlTimeout => {
                "smartctl.timeout_seconds must be greater than zero".to_string()
            },
            ConfigError::ZeroSmartctlPoll => {
                "smartctl.poll_seconds must be greater than zero".to_string()
            },
            ConfigError::InvalidId => "invalid persistent_sensor.id".to_string(),
            ConfigError::InvalidLabel => "invalid persistent_sensor.label".to_string(),
            ConfigError::DuplicateId(id) => concat("duplicate persistent_sensor.id ", id),
            ConfigError::InvalidInput => "invalid persistent_sensor.source.input".to_string(),
            ConfigError::InputSuffix => {
                "persistent hwmon source input must end with _input".to_string()
            },
            ConfigError::InvalidDevice => "invalid persistent_sensor.source.device".to_string(),
        }
    }
}

/// What is wrong with the source of a persistent sensor, if anything.
pub open spec fn source_fault(source: SourceView) -> Option<ConfigFault> {
    match source {
        SourceView::Hwmon { input, .. } => if !valid_text(input, MAX_INPUT_BYTES as int) {
            Some(ConfigFault::InvalidInput)
        } else if !has_suffix(input, "_input"@) {
            Some(ConfigFault::InputSuffix)
        } else {
            None
        },
        SourceView::Smartctl { device } => if !valid_text(device, MAX_PATH_BYTES as int) {
            Some(ConfigFault::InvalidDevice)
        } else {
            None
        },
        SourceView::LsiHba { device, .. } => if !valid_text(device, MAX_PATH_BYTES as int) {
            Some(ConfigFault::InvalidDevice)
        } else {
            None
        },
    }
}

/// Whether `id` is the identifier of one of some persistent sensors.
pub open spec fn configured(sensors: Seq<PersistentConfigView>, id: Seq<char>) -> bool {
    exists|j: int| 0 <= j < sensors.len() && (#[trigger] sensors[j]).id == id
}

/// The first thing that is wrong with some persistent sensors, taken in order.
pub open spec fn persistent_fault(sensors: Seq<PersistentConfigView>) -> Option<ConfigFault>
    decreases sensors.len(),
{
    if sensors.len() == 0 {
        None
    } else {
        let before = sensors.drop_last();
        let sensor = sensors.last();
        match persistent_fault(before) {
            Some(fault) => Some(fault),
            None => if !valid_text(sensor.id, MAX_PERSISTENT_ID_BYTES as int) {
                Some(ConfigFault::InvalidId)
            } else if !valid_text(sensor.label, MAX_SENSOR_LABEL_BYTES as int) {
                Some(ConfigFault::InvalidLabel)
            } else if configured(before, sensor.id) {
                Some(ConfigFault::DuplicateId(sensor.id))
            } else {
                source_fault(sensor.source)
            },
        }
    }
}

/// The first thing that is wrong with a configuration; `None` where nothing is.
pub open spec fn config_fault(config: AgentConfig) -> Option<ConfigFault> {
    if config.agent.rescan_seconds == 0 {
        Some(ConfigFault::ZeroRescanSeconds)
    } else if config.agent.sample_seconds == 0 {
        Some(ConfigFault::ZeroSampleSeconds)
    } else if config.agent.heartbeat_seconds == 0 {
        Some(ConfigFault::ZeroHeartbeatSeconds)
    } else if config.smartctl.timeout_seconds == 0 {
        Some(ConfigFault::ZeroSmartctlTimeout)
    } else if config.smartctl.poll_seconds == 0 {
        Some(ConfigFault::ZeroSmartctlPoll)
    } else {
        persistent_fault(config_views(config.persistent_sensor@))
    }
}

/// What a check came to.
pub open spec fn checked(result: Result<(), ConfigError>) -> Option<ConfigFault> {
    match result {
        Ok(_) => None,
        Err(error) => Some(error@),
    }
}

fn validate_source(source: &PersistentSensorSource) -> (result: Result<(), ConfigError>)
    ensures
        checked(result) == source_fault(source@),
{
    match source {
        PersistentSensorSource::Hwmon { input, .. } => {
            if !is_valid_text(input, MAX_INPUT_BYTES) {
                return Err(ConfigError::InvalidInput);
            }
            if !ends_with(input, "_input") {
                return Err(ConfigError::InputSuffix);
            }
            Ok(())
        },
        PersistentSensorSource::Smartctl { device } => {
            if !is_valid_text(device, MAX_PATH_BYTES) {
                return Err(ConfigError::InvalidDevice);
            }
            Ok(())
        },
        PersistentSensorSource::LsiHba { device, .. } => {
            if !is_valid_text(device, MAX_PATH_BYTES) {
                return Err(ConfigError::InvalidDevice);
            }
            Ok(())
        },
    }
}

/// A fault among the first sensors is the fault of all.
proof fn lemma_persistent_fault_stays(sensors: Seq<PersistentConfigView>, i: int)
    requires
        0 <= i <= sensors.len(),
    ensures
        persistent_fault(sensors.take(i)) is Some ==> persistent_fault(sensors)
            == persistent_fault(sensors.take(i)),
    decreases sensors.len() - i,
{
    if i < sensors.len() {
        lemma_persistent_fault_stays(sensors, i + 1);
        assert(sensors.take(i + 1).drop_last() =~= sensors.take(i));
    } else {
        assert(sensors.take(i) =~= sensors);
    }
}

fn is_configured(sensors: &[PersistentSensorConfig], n: usize, id: &str) -> (found: bool)
    requires
        n <= sensors@.len(),
    ensures
        found == configured(config_views(sensors@).take(n as int), id@),
{
    let ghost before = config_views(sensors@).take(n as int);
    for j in 0..n
        invariant
            n <= sensors@.len(),
            before == config_views(sensors@).take(n as int),
            forall|k: int| 0 <= k < j ==> (#[trigger] before[k]).id != id@,
    {
        assert(before[j as int] == sensors@[j as int]@);
        if same(&sensors[j].id, id) {
            assert(before[j as int].id == id@);
            return true;
        }
    }
    false
}

fn validate_persistent(sensors: &[PersistentSensorConfig]) -> (result: Result<(), ConfigError>)
    ensures
        checked(result) == persistent_fault(config_views(sensors@)),
{
    let ghost all = config_views(sensors@);
    for i in 0..sensors.len()
        invariant
            all == config_views(sensors@),
            persistent_fault(all.take(i as int)) is None,
    {
        let sensor = &sensors[i];
        proof {
            assert(all.take(i as int + 1).drop_last() =~= all.take(i as int));
            assert(all.take(i as int + 1).last() == sensor@);
            lemma_persistent_fault_stays(all, i as int + 1);
        }
        if !is_valid_text(&sensor.id, MAX_PERSISTENT_ID_BYTES) {
            return Err(ConfigError::InvalidId);
        }
        if !is_valid_text(&sensor.label, MAX_SENSOR_LABEL_BYTES) {
            return Err(ConfigError::InvalidLabel);
        }
        if is_configured(sensors, i, &sensor.id) {
            return Err(ConfigError::DuplicateId(sensor.id.clone()));
        }
        match validate_source(&sensor.source) {
            Ok(()) => {},
            Err(error) => {
                return Err(error);
            },
        }
    }
    assert(all.take(all.len() as int) =~= all);
    Ok(())
}

/// Checks a configuration.
pub fn validate_config(config: &AgentConfig) -> (result: Result<(), ConfigError>)
    ensures
        checked(result) == config_fault(*config),
{
    if config.agent.rescan_seconds == 0 {
        return Err(ConfigError::ZeroRescanSeconds);
    }
    if config.agent.sample_seconds == 0 {
        return Err(ConfigError::ZeroSampleSeconds);
    }
    if config.agent.heartbeat_seconds == 0 {
        return Err(ConfigError::ZeroHeartbeatSeconds);
    }
    if config.smartctl.timeout_seconds == 0 {
        return Err(ConfigError::ZeroSmartctlTimeout);
    }
    if config.smartctl.poll_seconds == 0 {
        return Err(ConfigError::ZeroSmartctlPoll);
    }
    validate_persistent(&config.persistent_sensor)
}

/// The default configuration keeps the rules.
pub proof fn law_default_config_is_valid(config: AgentConfig)
    requires
        config.agent.is_default(),
        config.smartctl.is_default(),
        config.persistent_sensor@.len() == 0,
    ensures
        config_fault(config) is None,
{
}

/// Persistent sensors that keep the rules have distinct identifiers.
pub proof fn law_persistent_ids_distinct(sensors: Seq<PersistentConfigView>, i: int, j: int)
    requires
        persistent_fault(sensors) is None,
        0 <= i < j < sensors.len(),
    ensures
        sensors[i].id != sensors[j].id,
    decreases sensors.len(),
{
    let before = sensors.drop_last();
    if j < sensors.len() - 1 {
        law_persistent_ids_distinct(before, i, j);
    } else {
        assert(before[i] == sensors[i]);
        assert(!configured(before, sensors.last().id));
    }
}

/// Which persistent sensors a configuration may have: each with a plain
/// identifier of at most 512 bytes that no other has, a plain label of at most
/// 128, and a source that can be read: a hwmon input whose name, of at most 64
/// bytes, ends with `_input`, or a device whose path takes at most 512.
pub open spec fn may_be_configured(sensors: Seq<PersistentConfigView>) -> bool {
    &&& forall|i: int|
        0 <= i < sensors.len() ==> {
            let sensor = #[trigger] sensors[i];
            &&& is_plain(sensor.id, 512)
            &&& is_plain(sensor.label, 128)
            &&& match sensor.source {
                SourceView::Hwmon { input, .. } => is_plain(input, 64) && exists|stem: Seq<char>|
                    input == #[trigger] (stem + "_input"@),
                SourceView::Smartctl { device } => is_plain(device, 512),
                SourceView::LsiHba { device, .. } => is_plain(device, 512),
            }
        }
    &&& forall|i: int, j: int|
        0 <= i < j < sensors.len() ==> (#[trigger] sensors[i]).id != (#[trigger] sensors[j]).id
}

/// A configuration is accepted if and only if no time in it is zero and its
/// persistent sensors may be configured.
pub proof fn law_accepted_configs(config: AgentConfig)
    ensures
        config_fault(config) is None <==> {
            &&& config.agent.rescan_seconds >= 1
            &&& config.agent.sample_seconds >= 1
            &&& config.agent.heartbeat_seconds >= 1
            &&& config.smartctl.timeout_seconds >= 1
            &&& config.smartctl.poll_seconds >= 1
            &&& may_be_configured(config_views(config.persistent_sensor@))
        },
{
    lemma_accepted_sensors(config_views(config.persistent_sensor@));
}

proof fn lemma_accepted_sensors(sensors: Seq<PersistentConfigView>)
    ensures
        persistent_fault(sensors) is None <==> may_be_configured(sensors),
    decreases sensors.len(),
{
    if sensors.len() > 0 {
        let before = sensors.drop_last();
        let last = sensors.len() - 1;
        lemma_accepted_sensors(before);
        lemma_accepted_source(sensors[last].source);
        if may_be_configured(sensors) {
            assert forall|i: int| 0 <= i < before.len() implies {
                let sensor = #[trigger] before[i];
                &&& is_plain(sensor.id, 512)
                &&& is_plain(sensor.label, 128)
                &&& match sensor.source {
                    SourceView::Hwmon { input, .. } => is_plain(input, 64) && exists|
                        stem: Seq<char>,
                    |
                        input == #[trigger] (stem + "_input"@),
                    SourceView::Smartctl { device } => is_plain(device, 512),
                    SourceView::LsiHba { device, .. } => is_plain(device, 512),
                }
            } by {
                assert(before[i] == sensors[i]);
            }
            assert forall|i: int, j: int| 0 <= i < j < before.len() implies (
            #[trigger] before[i]).id != (#[trigger] before[j]).id by {
                assert(sensors[i].id != sensors[j].id);
            }
            if configured(before, sensors[last].id) {
                let j = choose|j: int|
                    0 <= j < before.len() && (#[trigger] before[j]).id == sensors[last].id;
                assert(sensors[j].id != sensors[last].id);
            }
            assert(is_plain(sensors[last].id, 512));
            assert(persistent_fault(sensors) is None);
        }
        if persistent_fault(sensors) is None {
            assert forall|i: int| 0 <= i < sensors.len() implies {
                let sensor = #[trigger] sensors[i];
                &&& is_plain(sensor.id, 512)
                &&& is_plain(sensor.label, 128)
                &&& match sensor.source {
                    SourceView::Hwmon { input, .. } => is_plain(input, 64) && exists|
                        stem: Seq<char>,
                    |
                        input == #[trigger] (stem + "_input"@),
                    SourceView::Smartctl { device } => is_plain(device, 512),
                    SourceView::LsiHba { device, .. } => is_plain(device, 512),
                }
            } by {
                if i < last {
                    assert(before[i] == sensors[i]);
                }
            }
            assert forall|i: int, j: int| 0 <= i < j < sensors.len() implies (
            #[trigger] sensors[i]).id != (#[trigger] sensors[j]).id by {
                assert(before[i] == sensors[i]);
                if j < last {
                    assert(before[j] == sensors[j]);
                }
            }
        }
    }
}

proof fn lemma_accepted_source(source: SourceView)
    ensures
        source_fault(source) is None <==> match source {
            SourceView::Hwmon { input, .. } => is_plain(input, 64) && exists|stem: Seq<char>|
                input == #[trigger] (stem + "_input"@),
            SourceView::Smartctl { device } => is_plain(device, 512),
            SourceView::LsiHba { device, .. } => is_plain(device, 512),
        },
{
    if let SourceView::Hwmon { input, .. } = source {
        if has_suffix(input, "_input"@) {
            let stem = input.take(input.len() - "_input"@.len());
            assert(input =~= stem + "_input"@);
        }
        if exists|stem: Seq<char>| input == #[trigger] (stem + "_input"@) {
            let stem = choose|stem: Seq<char>| input == #[trigger] (stem + "_input"@);
            law_prefix_and_suffix(stem, "_input"@, Seq::empty(), input);
        }
    }
}

/// Without a configuration the agent talks to the port of the bridge, looks at
/// the sensors of the kernel alone, every second, tells that it is there every
/// five, and looks for new ones every ten. Controllers and disks are read only
/// where they are asked for.
pub proof fn law_default_values(config: AgentConfig)
    requires
        config.agent.is_default(),
        config.lsi_hba.is_default(),
        config.smartctl.is_default(),
    ensures
        config.agent.virtio_port@ == "/dev/virtio-ports/org.vfio_sensor_bridge.0"@,
        config.agent.scan_root@ == "/sys/class/hwmon"@,
        config.agent.hwmon_name_template is None,
        config.agent.sample_seconds == 1,
        config.agent.heartbeat_seconds == 5,
        config.agent.rescan_seconds == 10,
        !config.lsi_hba.enabled && !config.smartctl.enabled,
        config.lsi_hba.max_ioc == 16,
        config.lsi_hba.label_template@ == "{chip}"@,
        texts(config.lsi_hba.devices@) == seq!["/dev/mpt2ctl"@, "/dev/mpt3ctl"@],
        config.smartctl.command@ == "/usr/sbin/smartctl"@,
        texts(config.smartctl.device_globs@) == seq!["/dev/sd*"@, "/dev/sata*"@],
        config.smartctl.timeout_seconds == 10,
        config.smartctl.poll_seconds == 30,
        config.smartctl.label_template@ == "{device} temperature"@,
{
}

} // verus!
