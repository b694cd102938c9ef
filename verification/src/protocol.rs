//! The messages that agent, host daemon and management tool exchange, the rules
//! that every message keeps, and the framing in which payloads travel.
//!
//! A frame is the length of its payload as four bytes, lowest byte first,
//! followed by the payload. What a payload spells is not the business of this
//! module: the program around the library turns payloads into messages.

use crate::text::{optional_text, same};
use vstd::prelude::*;
use vstd::string::StringSliceAdditionalSpecFns;
use vstd::utf8::encode_utf8;

verus! {

/// The largest payload a frame may carry, in bytes.
pub const MAX_FRAME_SIZE: usize = 262144;

/// The most sensors of one schema, and the most values of one sample.
pub const MAX_SENSORS: usize = 128;

/// The longest sensor label, in bytes.
pub const MAX_SENSOR_LABEL_BYTES: usize = 128;

/// The longest sensor identifier, in bytes.
pub const MAX_SENSOR_ID_BYTES: usize = 512;

/// The longest agent version, in bytes.
pub const MAX_AGENT_VERSION_BYTES: usize = 128;

/// The longest host name, in bytes.
pub const MAX_HOSTNAME_BYTES: usize = 255;

/// The longest name of a hwmon device, in bytes.
pub const MAX_HWMON_NAME_BYTES: usize = 31;

/// What a sensor measures.
#[derive(Clone, Copy, Debug, PartialEq, Eq, Hash, Structural)]
pub enum SensorKind {
    Temperature,
    Fan,
    Voltage,
    Current,
    Power,
}

impl View for SensorKind {
    type V = SensorKind;

    open spec fn view(&self) -> SensorKind {
        *self
    }
}

/// What an agent says of one sensor.
#[derive(Debug, PartialEq, Eq)]
pub struct SensorDescriptor {
    pub id: String,
    pub kind: SensorKind,
    pub label: String,
    /// Whether the host keeps the sensor while the agent is away.
    pub persistent: bool,
    /// What a persistent sensor reads while the agent is away.
    pub default_value: Option<i64>,
}

/// A sensor descriptor, with its texts as sequences of characters.
#[verifier::ext_equal]
pub struct DescriptorView {
    pub id: Seq<char>,
    pub kind: SensorKind,
    pub label: Seq<char>,
    pub persistent: bool,
    pub default_value: Option<i64>,
}

impl View for SensorDescriptor {
    type V = DescriptorView;

    open spec fn view(&self) -> DescriptorView {
        DescriptorView {
            id: self.id@,
            kind: self.kind,
            label: self.label@,
            persistent: self.persistent,
            default_value: self.default_value,
        }
    }
}

impl Clone for SensorDescriptor {
    fn clone(&self) -> (copy: Self)
        ensures
            copy@ == self@,
    {
        SensorDescriptor {
            id: self.id.clone(),
            kind: self.kind,
            label: self.label.clone(),
            persistent: self.persistent,
            default_value: self.default_value,
        }
    }
}

/// The views of a sequence of descriptors.
pub open spec fn descriptor_views(sensors: Seq<SensorDescriptor>) -> Seq<DescriptorView> {
    sensors.map_values(|sensor: SensorDescriptor| sensor@)
}

/// Whether two descriptors say the same.
pub fn same_descriptor(a: &SensorDescriptor, b: &SensorDescriptor) -> (equal: bool)
    ensures
        equal == (a@ == b@),
{
    let same_default = match (a.default_value, b.default_value) {
        (Some(x), Some(y)) => x == y,
        (None, None) => true,
        _ => false,
    };
    same(&a.id, &b.id) && a.kind == b.kind && same(&a.label, &b.label) && a.persistent
        == b.persistent && same_default
}

/// One reading of one sensor.
#[derive(Debug, PartialEq, Eq)]
pub struct SensorValue {
    pub id: String,
    pub value: i64,
}

impl View for SensorValue {
    type V = (Seq<char>, i64);

    open spec fn view(&self) -> (Seq<char>, i64) {
        (self.id@, self.value)
    }
}

impl Clone for SensorValue {
    fn clone(&self) -> (copy: Self)
        ensures
            copy@ == self@,
    {
        SensorValue { id: self.id.clone(), value: self.value }
    }
}

/// The views of a sequence of readings.
pub open spec fn value_views(values: Seq<SensorValue>) -> Seq<(Seq<char>, i64)> {
    values.map_values(|value: SensorValue| value@)
}

/// What travels between agent and host daemon.
#[derive(Debug, PartialEq, Eq)]
pub enum Message {
    /// Opens a session.
    Hello { agent_version: String, hostname: String, hwmon_name: Option<String> },
    /// The full list of the agent's sensors.
    Schema { generation: u64, sensors: Vec<SensorDescriptor> },
    /// Readings of sensors of the schema with the same generation.
    Sample { generation: u64, values: Vec<SensorValue> },
    /// Says only that the agent is there.
    Heartbeat,
    /// Ends a session.
    Goodbye,
    /// Sent by the host daemon right after connecting. The agent answers with
    /// `Hello`, `Schema` and `Sample`, so that the daemon learns all sensors,
    /// those that it does not keep across restarts among them.
    RequestResync,
}

// ── Management protocol ──────────────────────────────────────────────────────

/// What the management tool asks of the host daemon.
#[derive(Clone, Copy, Debug, PartialEq, Eq)]
pub enum CtlRequest {
    /// The status of every known VM.
    ListVms,
    /// The status of one VM.
    GetVm { vmid: u32 },
}

/// What the host daemon reports of one sensor.
#[derive(Debug, PartialEq, Eq)]
pub struct SensorInfo {
    /// The identifier that the agent gave the sensor.
    pub id: String,
    pub kind: SensorKind,
    pub label: String,
    /// Whether the sensor stays while its VM is away.
    pub persistent: bool,
    /// What a persistent sensor reads while its VM is away.
    pub default_value: Option<i64>,
    /// The sysfs attribute of the sensor, such as `temp1_input`.
    pub hwmon_attr: String,
    /// What sysfs reads now; `None` where it could not be read.
    pub value: Option<i64>,
}

/// A sensor report, with its texts as sequences of characters.
#[verifier::ext_equal]
pub struct SensorInfoView {
    pub id: Seq<char>,
    pub kind: SensorKind,
    pub label: Seq<char>,
    pub persistent: bool,
    pub default_value: Option<i64>,
    pub hwmon_attr: Seq<char>,
    pub value: Option<i64>,
}

impl View for SensorInfo {
    type V = SensorInfoView;

    open spec fn view(&self) -> SensorInfoView {
        SensorInfoView {
            id: self.id@,
            kind: self.kind,
            label: self.label@,
            persistent: self.persistent,
            default_value: self.default_value,
            hwmon_attr: self.hwmon_attr@,
            value: self.value,
        }
    }
}

impl Clone for SensorInfo {
    fn clone(&self) -> (copy: Self)
        ensures
            copy@ == self@,
    {
        SensorInfo {
            id: self.id.clone(),
            kind: self.kind,
            label: self.label.clone(),
            persistent: self.persistent,
            default_value: self.default_value,
            hwmon_attr: self.hwmon_attr.clone(),
            value: self.value,
        }
    }
}

/// What the host daemon reports of one VM.
#[derive(Debug, PartialEq, Eq)]
pub struct VmInfo {
    pub vmid: u32,
    pub hwmon_name: String,
    pub hwmon_path: String,
    /// The generation of the schema in force.
    pub generation: u64,
    /// Whether a message came, and the last one is younger than the heartbeat
    /// timeout.
    pub online: bool,
    pub offline_reported: bool,
    /// Nanoseconds since the last message of the VM's agent, or, where none
    /// came, since the daemon brought the VM back.
    pub last_seen_nanos_ago: u64,
    pub sensors: Vec<SensorInfo>,
}

/// What the host daemon answers.
#[derive(Debug, PartialEq, Eq)]
pub enum CtlResponse {
    /// Answers `ListVms`.
    VmList { vms: Vec<VmInfo> },
    /// Answers `GetVm` of a known VM.
    VmInfo(VmInfo),
    /// Answers `GetVm` of a VM that the daemon does not know.
    NotFound { vmid: u32 },
    /// Something went wrong.
    Error { message: String },
}

// ── Errors ───────────────────────────────────────────────────────────────────

/// The texts of a message that share one rule.
#[derive(Clone, Copy, Debug, PartialEq, Eq, Structural)]
pub enum TextField {
    AgentVersion,
    Hostname,
    SensorId,
    SensorLabel,
}

/// What a frame carries.
#[derive(Clone, Copy, Debug, PartialEq, Eq, Structural)]
pub enum FrameKind {
    Message,
    CtlRequest,
    CtlResponse,
}

/// Why a message or a frame was refused.
#[derive(Clone, Copy, Debug, PartialEq, Eq, Structural)]
pub enum ProtocolError {
    /// A text is empty, too long, or holds a control character.
    InvalidText(TextField),
    /// A hwmon name is empty, too long, or holds more than letters, digits
    /// and underscores.
    InvalidHwmonName,
    TooManySensors,
    MissingDefaultValue,
    UnexpectedDefaultValue,
    DuplicateSchemaId,
    TooManyValues,
    DuplicateSampleId,
    /// A payload is longer than `MAX_FRAME_SIZE`.
    FrameTooLarge(FrameKind),
    /// The bytes end before the frame does.
    UnexpectedEof,
}

/// The two classes of errors.
#[derive(Clone, Copy, Debug, PartialEq, Eq, Structural)]
pub enum ErrorKind {
    InvalidData,
    UnexpectedEof,
}

impl ProtocolError {
    /// The class of the error.
    pub fn kind(&self) -> (kind: ErrorKind)
        ensures
            kind == (if *self == ProtocolError::UnexpectedEof {
                ErrorKind::UnexpectedEof
            } else {
                ErrorKind::InvalidData
            }),
    {
        match self {
            ProtocolError::UnexpectedEof => ErrorKind::UnexpectedEof,
            _ => ErrorKind::InvalidData,
        }
    }

    /// What the error says to a reader.
    pub open spec fn text(self) -> Seq<char> {
        match self {
            ProtocolError::InvalidText(TextField::AgentVersion) => "invalid agent_version"@,
            ProtocolError::InvalidText(TextField::Hostname) => "invalid hostname"@,
            ProtocolError::InvalidText(TextField::SensorId) => "invalid sensor id"@,
            ProtocolError::InvalidText(TextField::SensorLabel) => "invalid sensor label"@,
            ProtocolError::InvalidHwmonName => "invalid hwmon_name"@,
            ProtocolError::TooManySensors => "schema has too many sensors"@,
            ProtocolError::MissingDefaultValue => "persistent sensor is missing default_value"@,
            ProtocolError::UnexpectedDefaultValue => "dynamic sensor includes default_value"@,
            ProtocolError::DuplicateSchemaId => "schema has duplicate sensor id"@,
            ProtocolError::TooManyValues => "sample has too many values"@,
            ProtocolError::DuplicateSampleId => "sample has duplicate sensor id"@,
            ProtocolError::FrameTooLarge(FrameKind::Message) => "frame exceeds maximum size"@,
            ProtocolError::FrameTooLarge(
                FrameKind::CtlRequest,
            ) => "ctl request frame exceeds maximum size"@,
            ProtocolError::FrameTooLarge(
                FrameKind::CtlResponse,
            ) => "ctl response frame exceeds maximum size"@,
            ProtocolError::UnexpectedEof => "failed to fill whole buffer"@,
        }
    }

    /// What the error says to a reader.
    pub fn message(&self) -> (message: String)
        ensures
            message@ == self.text(),
    {
        let text = match self {
            ProtocolError::InvalidText(TextField::AgentVersion) => "invalid agent_version",
            ProtocolError::InvalidText(TextField::Hostname) => "invalid hostname",
            ProtocolError::InvalidText(TextField::SensorId) => "invalid sensor id",
            ProtocolError::InvalidText(TextField::SensorLabel) => "invalid sensor label",
            ProtocolError::InvalidHwmonName => "invalid hwmon_name",
            ProtocolError::TooManySensors => "schema has too many sensors",
            ProtocolError::MissingDefaultValue => "persistent sensor is missing default_value",
            ProtocolError::UnexpectedDefaultValue => "dynamic sensor includes default_value",
            ProtocolError::DuplicateSchemaId => "schema has duplicate sensor id",
            ProtocolError::TooManyValues => "sample has too many values",
            ProtocolError::DuplicateSampleId => "sample has duplicate sensor id",
            ProtocolError::FrameTooLarge(FrameKind::Message) => "frame exceeds maximum size",
            ProtocolError::FrameTooLarge(
                FrameKind::CtlRequest,
            ) => "ctl request frame exceeds maximum size",
            ProtocolError::FrameTooLarge(
                FrameKind::CtlResponse,
            ) => "ctl response frame exceeds maximum size",
            ProtocolError::UnexpectedEof => "failed to fill whole buffer",
        };
        text.to_string()
    }
}

// ── Rules on messages ────────────────────────────────────────────────────────

/// Whether a text may stand in a message: it is not empty, has at most `max`
/// bytes, and holds no ASCII control character.
pub open spec fn valid_text(s: Seq<char>, max: int) -> bool {
    let bytes = encode_utf8(s);
    &&& bytes.len() > 0
    &&& bytes.len() <= max
    &&& forall|i: int| 0 <= i < bytes.len() ==> #[trigger] bytes[i] >= 0x20 && bytes[i] != 0x7f
}

/// An ASCII letter, a digit or an underscore.
pub open spec fn name_byte(b: u8) -> bool {
    0x30 <= b <= 0x39 || 0x41 <= b <= 0x5a || 0x61 <= b <= 0x7a || b == 0x5f
}

/// Whether a text may name a hwmon device.
pub open spec fn valid_hwmon_name(s: Seq<char>) -> bool {
    let bytes = encode_utf8(s);
    &&& bytes.len() > 0
    &&& bytes.len() <= MAX_HWMON_NAME_BYTES
    &&& forall|i: int| 0 <= i < bytes.len() ==> name_byte(#[trigger] bytes[i])
}

/// Whether `id` is among the identifiers of the first sensors of a schema.
pub open spec fn described(sensors: Seq<DescriptorView>, id: Seq<char>) -> bool {
    exists|j: int| 0 <= j < sensors.len() && (#[trigger] sensors[j]).id == id
}

/// The first fault of a list of sensors, taken in order.
pub open spec fn sensors_fault(sensors: Seq<DescriptorView>) -> Option<ProtocolError>
    decreases sensors.len(),
{
    if sensors.len() == 0 {
        None
    } else {
        let before = sensors.drop_last();
        let sensor = sensors.last();
        match sensors_fault(before) {
            Some(fault) => Some(fault),
            None => if !valid_text(sensor.id, MAX_SENSOR_ID_BYTES as int) {
                Some(ProtocolError::InvalidText(TextField::SensorId))
            } else if !valid_text(sensor.label, MAX_SENSOR_LABEL_BYTES as int) {
                Some(ProtocolError::InvalidText(TextField::SensorLabel))
            } else if sensor.persistent && sensor.default_value is None {
                Some(ProtocolError::MissingDefaultValue)
            } else if !sensor.persistent && sensor.default_value is Some {
                Some(ProtocolError::UnexpectedDefaultValue)
            } else if described(before, sensor.id) {
                Some(ProtocolError::DuplicateSchemaId)
            } else {
                None
            },
        }
    }
}

/// Whether `id` is among the identifiers of some readings.
pub open spec fn sampled(values: Seq<(Seq<char>, i64)>, id: Seq<char>) -> bool {
    exists|j: int| 0 <= j < values.len() && (#[trigger] values[j]).0 == id
}

/// The first fault of a list of readings, taken in order.
pub open spec fn values_fault(values: Seq<(Seq<char>, i64)>) -> Option<ProtocolError>
    decreases values.len(),
{
    if values.len() == 0 {
        None
    } else {
        let before = values.drop_last();
        match values_fault(before) {
            Some(fault) => Some(fault),
            None => if !valid_text(values.last().0, MAX_SENSOR_ID_BYTES as int) {
                Some(ProtocolError::InvalidText(TextField::SensorId))
            } else if sampled(before, values.last().0) {
                Some(ProtocolError::DuplicateSampleId)
            } else {
                None
            },
        }
    }
}

/// The first fault of a message; `None` where it keeps all rules.
pub open spec fn message_fault(message: Message) -> Option<ProtocolError> {
    match message {
        Message::Hello { agent_version, hostname, hwmon_name } => {
            if !valid_text(agent_version@, MAX_AGENT_VERSION_BYTES as int) {
                Some(ProtocolError::InvalidText(TextField::AgentVersion))
            } else if !valid_text(hostname@, MAX_HOSTNAME_BYTES as int) {
                Some(ProtocolError::InvalidText(TextField::Hostname))
            } else {
                match optional_text(hwmon_name) {
                    Some(name) if !valid_hwmon_name(name) => Some(ProtocolError::InvalidHwmonName),
                    _ => None,
                }
            }
        },
        Message::Schema { sensors, .. } => {
            if sensors@.len() > MAX_SENSORS {
                Some(ProtocolError::TooManySensors)
            } else {
                sensors_fault(descriptor_views(sensors@))
            }
        },
        Message::Sample { values, .. } => {
            if values@.len() > MAX_SENSORS {
                Some(ProtocolError::TooManyValues)
            } else {
                values_fault(value_views(values@))
            }
        },
        Message::Heartbeat | Message::Goodbye | Message::RequestResync => None,
    }
}

/// Whether a text may stand in a message.
pub fn is_valid_text(value: &str, max: usize) -> (valid: bool)
    ensures
        valid == valid_text(value@, max as int),
{
    let bytes = value.as_bytes();
    if bytes.len() == 0 || bytes.len() > max {
        return false;
    }
    for i in 0..bytes.len()
        invariant
            bytes@ == encode_utf8(value@),
            forall|j: int| 0 <= j < i ==> #[trigger] bytes@[j] >= 0x20 && bytes@[j] != 0x7f,
    {
        if bytes[i] < 0x20 || bytes[i] == 0x7f {
            assert(!(bytes@[i as int] >= 0x20 && bytes@[i as int] != 0x7f));
            return false;
        }
    }
    true
}

fn validate_text(value: &str, max: usize, field: TextField) -> (result: Result<(), ProtocolError>)
    ensures
        result == (if valid_text(value@, max as int) {
            Ok::<(), ProtocolError>(())
        } else {
            Err(ProtocolError::InvalidText(field))
        }),
{
    if is_valid_text(value, max) {
        Ok(())
    } else {
        Err(ProtocolError::InvalidText(field))
    }
}

fn validate_hwmon_name(value: &str) -> (result: Result<(), ProtocolError>)
    ensures
        result == (if valid_hwmon_name(value@) {
            Ok::<(), ProtocolError>(())
        } else {
            Err(ProtocolError::InvalidHwmonName)
        }),
{
    let bytes = value.as_bytes();
    if bytes.len() == 0 || bytes.len() > MAX_HWMON_NAME_BYTES {
        return Err(ProtocolError::InvalidHwmonName);
    }
    for i in 0..bytes.len()
        invariant
            bytes@ == encode_utf8(value@),
            forall|j: int| 0 <= j < i ==> name_byte(#[trigger] bytes@[j]),
    {
        let b = bytes[i];
        let named = (0x30 <= b && b <= 0x39) || (0x41 <= b && b <= 0x5a) || (0x61 <= b && b <= 0x7a)
            || b == 0x5f;
        if !named {
            assert(!name_byte(bytes@[i as int]));
            return Err(ProtocolError::InvalidHwmonName);
        }
    }
    Ok(())
}

fn validate_sensors(sensors: &[SensorDescriptor]) -> (result: Result<(), ProtocolError>)
    ensures
        result == (match sensors_fault(descriptor_views(sensors@)) {
            None => Ok::<(), ProtocolError>(()),
            Some(fault) => Err(fault),
        }),
{
    let ghost all = descriptor_views(sensors@);
    for i in 0..sensors.len()
        invariant
            all == descriptor_views(sensors@),
            sensors_fault(all.take(i as int)) is None,
    {
        let sensor = &sensors[i];
        let ghost before = all.take(i as int);
        proof {
            assert(all.take(i as int + 1).drop_last() =~= before);
            assert(all[i as int] == sensor@);
            lemma_sensors_fault_stays(all, i as int + 1);
        }
        validate_text(&sensor.id, MAX_SENSOR_ID_BYTES, TextField::SensorId)?;
        validate_text(&sensor.label, MAX_SENSOR_LABEL_BYTES, TextField::SensorLabel)?;
        if sensor.persistent && sensor.default_value.is_none() {
            return Err(ProtocolError::MissingDefaultValue);
        }
        if !sensor.persistent && sensor.default_value.is_some() {
            return Err(ProtocolError::UnexpectedDefaultValue);
        }
        for j in 0..i
            invariant
                i < sensors@.len(),
                all == descriptor_views(sensors@),
                before == all.take(i as int),
                sensor == sensors@[i as int],
                forall|k: int| 0 <= k < j ==> (#[trigger] before[k]).id != sensor.id@,
                described(before, sensor.id@) ==> sensors_fault(all) == Some(
                    ProtocolError::DuplicateSchemaId,
                ),
        {
            assert(before[j as int] == sensors@[j as int]@);
            if same(&sensors[j].id, &sensor.id) {
                assert(before[j as int].id == sensor.id@);
                return Err(ProtocolError::DuplicateSchemaId);
            }
        }
    }
    assert(all.take(all.len() as int) =~= all);
    Ok(())
}

/// A fault among the first sensors is the fault of the whole list.
proof fn lemma_sensors_fault_stays(sensors: Seq<DescriptorView>, i: int)
    requires
        0 <= i <= sensors.len(),
    ensures
        sensors_fault(sensors.take(i)) is Some ==> sensors_fault(sensors) == sensors_fault(
            sensors.take(i),
        ),
    decreases sensors.len() - i,
{
    if i < sensors.len() {
        lemma_sensors_fault_stays(sensors, i + 1);
        assert(sensors.take(i + 1).drop_last() =~= sensors.take(i));
    } else {
        assert(sensors.take(i) =~= sensors);
    }
}

fn validate_values(values: &[SensorValue]) -> (result: Result<(), ProtocolError>)
    ensures
        result == (match values_fault(value_views(values@)) {
            None => Ok::<(), ProtocolError>(()),
            Some(fault) => Err(fault),
        }),
{
    let ghost all = value_views(values@);
    for i in 0..values.len()
        invariant
            all == value_views(values@),
            values_fault(all.take(i as int)) is None,
    {
        let value = &values[i];
        let ghost before = all.take(i as int);
        proof {
            assert(all.take(i as int + 1).drop_last() =~= before);
            assert(all[i as int] == value@);
            lemma_values_fault_stays(all, i as int + 1);
        }
        validate_text(&value.id, MAX_SENSOR_ID_BYTES, TextField::SensorId)?;
        for j in 0..i
            invariant
                i < values@.len(),
                all == value_views(values@),
                before == all.take(i as int),
                value == values@[i as int],
                forall|k: int| 0 <= k < j ==> (#[trigger] before[k]).0 != value.id@,
                sampled(before, value.id@) ==> values_fault(all) == Some(
                    ProtocolError::DuplicateSampleId,
                ),
        {
            assert(before[j as int] == values@[j as int]@);
            if same(&values[j].id, &value.id) {
                assert(before[j as int].0 == value.id@);
                return Err(ProtocolError::DuplicateSampleId);
            }
        }
    }
    assert(all.take(all.len() as int) =~= all);
    Ok(())
}

/// A fault among the first readings is the fault of the whole list.
proof fn lemma_values_fault_stays(values: Seq<(Seq<char>, i64)>, i: int)
    requires
        0 <= i <= values.len(),
    ensures
        values_fault(values.take(i)) is Some ==> values_fault(values) == values_fault(
            values.take(i),
        ),
    decreases values.len() - i,
{
    if i < values.len() {
        lemma_values_fault_stays(values, i + 1);
        assert(values.take(i + 1).drop_last() =~= values.take(i));
    } else {
        assert(values.take(i) =~= values);
    }
}

/// Checks that a message keeps the rules.
pub fn validate_message(message: &Message) -> (result: Result<(), ProtocolError>)
    ensures
        result == (match message_fault(*message) {
            None => Ok::<(), ProtocolError>(()),
            Some(fault) => Err(fault),
        }),
{
    match message {
        Message::Hello { agent_version, hostname, hwmon_name } => {
            validate_text(agent_version, MAX_AGENT_VERSION_BYTES, TextField::AgentVersion)?;
            validate_text(hostname, MAX_HOSTNAME_BYTES, TextField::Hostname)?;
            if let Some(name) = hwmon_name {
                validate_hwmon_name(name)?;
            }
            Ok(())
        },
        Message::Schema { sensors, .. } => {
            if sensors.len() > MAX_SENSORS {
                return Err(ProtocolError::TooManySensors);
            }
            validate_sensors(sensors)
        },
        Message::Sample { values, .. } => {
            if values.len() > MAX_SENSORS {
                return Err(ProtocolError::TooManyValues);
            }
            validate_values(values)
        },
        Message::Heartbeat | Message::Goodbye | Message::RequestResync => Ok(()),
    }
}

/// What a list of sensors without a fault looks like: every identifier and
/// label is valid, exactly the persistent sensors have a default value, and no
/// two sensors share an identifier.
pub open spec fn sound_sensors(sensors: Seq<DescriptorView>) -> bool {
    &&& forall|i: int|
        0 <= i < sensors.len() ==> {
            let sensor = #[trigger] sensors[i];
            &&& valid_text(sensor.id, MAX_SENSOR_ID_BYTES as int)
            &&& valid_text(sensor.label, MAX_SENSOR_LABEL_BYTES as int)
            &&& sensor.persistent == sensor.default_value is Some
        }
    &&& forall|i: int, j: int|
        0 <= i < j < sensors.len() ==> (#[trigger] sensors[i]).id != (#[trigger] sensors[j]).id
}

/// A list of sensors has no fault if and only if it is sound.
pub proof fn law_sensors_fault(sensors: Seq<DescriptorView>)
    ensures
        sensors_fault(sensors) is None <==> sound_sensors(sensors),
    decreases sensors.len(),
{
    if sensors.len() > 0 {
        let before = sensors.drop_last();
        let last = sensors.len() - 1;
        law_sensors_fault(before);
        if sensors_fault(sensors) is None {
            assert(sound_sensors(before));
            assert forall|i: int, j: int| 0 <= i < j < sensors.len() implies (
            #[trigger] sensors[i]).id != (#[trigger] sensors[j]).id by {
                assert(before[i] == sensors[i]);
                if j < last {
                    assert(before[j] == sensors[j]);
                } else {
                    assert(!described(before, sensors[last].id));
                }
            }
            assert forall|i: int| 0 <= i < sensors.len() implies {
                let sensor = #[trigger] sensors[i];
                &&& valid_text(sensor.id, MAX_SENSOR_ID_BYTES as int)
                &&& valid_text(sensor.label, MAX_SENSOR_LABEL_BYTES as int)
                &&& sensor.persistent == sensor.default_value is Some
            } by {
                if i < last {
                    assert(before[i] == sensors[i]);
                }
            }
        }
        if sound_sensors(sensors) {
            assert forall|i: int| 0 <= i < before.len() implies {
                let sensor = #[trigger] before[i];
                &&& valid_text(sensor.id, MAX_SENSOR_ID_BYTES as int)
                &&& valid_text(sensor.label, MAX_SENSOR_LABEL_BYTES as int)
                &&& sensor.persistent == sensor.default_value is Some
            } by {
                assert(before[i] == sensors[i]);
            }
            assert forall|i: int, j: int| 0 <= i < j < before.len() implies (
            #[trigger] before[i]).id != (#[trigger] before[j]).id by {
                assert(before[i] == sensors[i]);
                assert(before[j] == sensors[j]);
            }
            assert(sensors[last] == sensors.last());
            if described(before, sensors.last().id) {
                let j = choose|j: int|
                    0 <= j < before.len() && (#[trigger] before[j]).id == sensors.last().id;
                assert(before[j] == sensors[j]);
            }
        }
    }
}

/// What a list of readings without a fault looks like.
pub open spec fn sound_values(values: Seq<(Seq<char>, i64)>) -> bool {
    &&& forall|i: int|
        0 <= i < values.len() ==> valid_text(
            (#[trigger] values[i]).0,
            MAX_SENSOR_ID_BYTES as int,
        )
    &&& forall|i: int, j: int|
        0 <= i < j < values.len() ==> (#[trigger] values[i]).0 != (#[trigger] values[j]).0
}

/// A list of readings has no fault if and only if it is sound.
pub proof fn law_values_fault(values: Seq<(Seq<char>, i64)>)
    ensures
        values_fault(values) is None <==> sound_values(values),
    decreases values.len(),
{
    if values.len() > 0 {
        let before = values.drop_last();
        let last = values.len() - 1;
        law_values_fault(before);
        if values_fault(values) is None {
            assert forall|i: int, j: int| 0 <= i < j < values.len() implies (
            #[trigger] values[i]).0 != (#[trigger] values[j]).0 by {
                assert(before[i] == values[i]);
                if j < last {
                    assert(before[j] == values[j]);
                } else {
                    assert(!sampled(before, values[last].0));
                }
            }
            assert forall|i: int| 0 <= i < values.len() implies valid_text(
                (#[trigger] values[i]).0,
                MAX_SENSOR_ID_BYTES as int,
            ) by {
                if i < last {
                    assert(before[i] == values[i]);
                }
            }
        }
        if sound_values(values) {
            assert forall|i: int| 0 <= i < before.len() implies valid_text(
                (#[trigger] before[i]).0,
                MAX_SENSOR_ID_BYTES as int,
            ) by {
                assert(before[i] == values[i]);
            }
            assert forall|i: int, j: int| 0 <= i < j < before.len() implies (
            #[trigger] before[i]).0 != (#[trigger] before[j]).0 by {
                assert(before[i] == values[i]);
                assert(before[j] == values[j]);
            }
            assert(values[last] == values.last());
            if sampled(before, values.last().0) {
                let j = choose|j: int|
                    0 <= j < before.len() && (#[trigger] before[j]).0 == values.last().0;
                assert(before[j] == values[j]);
            }
        }
    }
}

// ── Frames ───────────────────────────────────────────────────────────────────

/// A number as four bytes, lowest byte first.
pub open spec fn length_bytes(n: int) -> Seq<u8> {
    seq![
        (n % 256) as u8,
        (n / 256 % 256) as u8,
        (n / 65536 % 256) as u8,
        (n / 16777216 % 256) as u8,
    ]
}

/// The number that four bytes stand for, lowest byte first.
pub open spec fn length_value(bytes: Seq<u8>) -> int {
    bytes[0] + bytes[1] * 256 + bytes[2] * 65536 + bytes[3] * 16777216
}

/// The frame of a payload.
pub open spec fn framed(payload: Seq<u8>) -> Seq<u8> {
    length_bytes(payload.len() as int) + payload
}

/// What stands at the head of `input`: a payload and how many bytes its frame
/// takes, or why there is none.
pub open spec fn unframed(input: Seq<u8>, kind: FrameKind) -> Result<
    (Seq<u8>, int),
    ProtocolError,
> {
    if input.len() < 4 {
        Err(ProtocolError::UnexpectedEof)
    } else {
        let len = length_value(input);
        if len > MAX_FRAME_SIZE {
            Err(ProtocolError::FrameTooLarge(kind))
        } else if input.len() < 4 + len {
            Err(ProtocolError::UnexpectedEof)
        } else {
            Ok((input.subrange(4, 4 + len), 4 + len))
        }
    }
}

/// The view of what a frame reader returns.
pub open spec fn read_view(result: Result<(Vec<u8>, usize), ProtocolError>) -> Result<
    (Seq<u8>, int),
    ProtocolError,
> {
    match result {
        Ok((payload, taken)) => Ok((payload@, taken as int)),
        Err(error) => Err(error),
    }
}

/// The view of what a frame writer returns.
pub open spec fn written_view(result: Result<Vec<u8>, ProtocolError>) -> Result<
    Seq<u8>,
    ProtocolError,
> {
    match result {
        Ok(frame) => Ok(frame@),
        Err(error) => Err(error),
    }
}

/// How many bytes the payload has whose frame begins with `header`.
pub fn payload_length(header: [u8; 4], kind: FrameKind) -> (len: Result<usize, ProtocolError>)
    ensures
        len == (if length_value(header@) > MAX_FRAME_SIZE {
            Err::<usize, ProtocolError>(ProtocolError::FrameTooLarge(kind))
        } else {
            Ok(length_value(header@) as usize)
        }),
{
    let len: u32 = header[0] as u32 + header[1] as u32 * 256 + header[2] as u32 * 65536
        + header[3] as u32 * 16777216;
    if len > MAX_FRAME_SIZE as u32 {
        return Err(ProtocolError::FrameTooLarge(kind));
    }
    Ok(len as usize)
}

fn open_frame(input: &[u8], kind: FrameKind) -> (result: Result<(Vec<u8>, usize), ProtocolError>)
    ensures
        read_view(result) == unframed(input@, kind),
{
    if input.len() < 4 {
        return Err(ProtocolError::UnexpectedEof);
    }
    let header: [u8; 4] = [input[0], input[1], input[2], input[3]];
    let len = payload_length(header, kind)?;
    if input.len() - 4 < len {
        return Err(ProtocolError::UnexpectedEof);
    }
    let mut payload: Vec<u8> = Vec::new();
    for i in 4..4 + len
        invariant
            4 + len <= input@.len(),
            payload@ == input@.subrange(4, i as int),
    {
        payload.push(input[i]);
        assert(input@.subrange(4, i as int + 1) =~= input@.subrange(4, i as int).push(
            input@[i as int],
        ));
    }
    Ok((payload, 4 + len))
}

fn seal_frame(payload: &[u8], kind: FrameKind) -> (result: Result<Vec<u8>, ProtocolError>)
    ensures
        written_view(result) == (if payload@.len() > MAX_FRAME_SIZE {
            Err::<Seq<u8>, ProtocolError>(ProtocolError::FrameTooLarge(kind))
        } else {
            Ok(framed(payload@))
        }),
{
    if payload.len() > MAX_FRAME_SIZE {
        return Err(ProtocolError::FrameTooLarge(kind));
    }
    let len: u32 = payload.len() as u32;
    let mut frame: Vec<u8> = Vec::new();
    frame.push((len % 256) as u8);
    frame.push((len / 256 % 256) as u8);
    frame.push((len / 65536 % 256) as u8);
    frame.push((len / 16777216 % 256) as u8);
    assert(frame@ =~= length_bytes(payload@.len() as int));
    for i in 0..payload.len()
        invariant
            frame@ == length_bytes(payload@.len() as int) + payload@.take(i as int),
    {
        frame.push(payload[i]);
        assert(frame@ =~= length_bytes(payload@.len() as int) + payload@.take(i as int + 1));
    }
    assert(payload@.take(payload@.len() as int) =~= payload@);
    Ok(frame)
}

/// Takes the payload of a message off the head of `input`, and says how many
/// bytes its frame took.
pub fn read_frame(input: &[u8]) -> (result: Result<(Vec<u8>, usize), ProtocolError>)
    ensures
        read_view(result) == unframed(input@, FrameKind::Message),
{
    open_frame(input, FrameKind::Message)
}

/// The frame of `message`, whose payload is `payload`. A message that breaks a
/// rule is refused before its size is looked at.
pub fn write_frame(message: &Message, payload: &[u8]) -> (result: Result<Vec<u8>, ProtocolError>)
    ensures
        written_view(result) == (match message_fault(*message) {
            Some(fault) => Err::<Seq<u8>, ProtocolError>(fault),
            None => if payload@.len() > MAX_FRAME_SIZE {
                Err(ProtocolError::FrameTooLarge(FrameKind::Message))
            } else {
                Ok(framed(payload@))
            },
        }),
{
    validate_message(message)?;
    seal_frame(payload, FrameKind::Message)
}

/// Takes the payload of a management request off the head of `input`.
pub fn read_ctl_request(input: &[u8]) -> (result: Result<(Vec<u8>, usize), ProtocolError>)
    ensures
        read_view(result) == unframed(input@, FrameKind::CtlRequest),
{
    open_frame(input, FrameKind::CtlRequest)
}

/// The frame of a management request with the given payload.
pub fn write_ctl_request(payload: &[u8]) -> (result: Result<Vec<u8>, ProtocolError>)
    ensures
        written_view(result) == (if payload@.len() > MAX_FRAME_SIZE {
            Err::<Seq<u8>, ProtocolError>(ProtocolError::FrameTooLarge(FrameKind::CtlRequest))
        } else {
            Ok(framed(payload@))
        }),
{
    seal_frame(payload, FrameKind::CtlRequest)
}

/// Takes the payload of a management response off the head of `input`.
pub fn read_ctl_response(input: &[u8]) -> (result: Result<(Vec<u8>, usize), ProtocolError>)
    ensures
        read_view(result) == unframed(input@, FrameKind::CtlResponse),
{
    open_frame(input, FrameKind::CtlResponse)
}

/// The frame of a management response with the given payload.
pub fn write_ctl_response(payload: &[u8]) -> (result: Result<Vec<u8>, ProtocolError>)
    ensures
        written_view(result) == (if payload@.len() > MAX_FRAME_SIZE {
            Err::<Seq<u8>, ProtocolError>(ProtocolError::FrameTooLarge(FrameKind::CtlResponse))
        } else {
            Ok(framed(payload@))
        }),
{
    seal_frame(payload, FrameKind::CtlResponse)
}

/// Reading a frame gives back the payload that was written, whatever follows
/// it, and takes exactly the bytes of the frame.
pub proof fn law_frame_round_trip(payload: Seq<u8>, rest: Seq<u8>, kind: FrameKind)
    requires
        payload.len() <= MAX_FRAME_SIZE,
    ensures
        unframed(framed(payload) + rest, kind) == Ok::<(Seq<u8>, int), ProtocolError>(
            (payload, framed(payload).len() as int),
        ),
{
    let n = payload.len() as int;
    let input = framed(payload) + rest;
    assert(n / 256 % 256 == n / 256 - n / 65536 * 256);
    assert(n / 65536 % 256 == n / 65536 - n / 16777216 * 256);
    assert(n / 16777216 == 0);
    assert(length_value(input) == n);
    assert(input.subrange(4, 4 + n) =~= payload);
}

/// The bytes that a successful read takes are the frame of what it returns.
pub proof fn law_frame_read_exact(input: Seq<u8>, kind: FrameKind)
    ensures
        unframed(input, kind) matches Ok((payload, taken)) ==> {
            &&& payload.len() <= MAX_FRAME_SIZE
            &&& taken <= input.len()
            &&& input.take(taken) == framed(payload)
        },
{
    if let Ok((payload, taken)) = unframed(input, kind) {
        let n = length_value(input);
        let (a, b, c, d) = (input[0] as int, input[1] as int, input[2] as int, input[3] as int);
        assert(n == a + b * 256 + c * 65536 + d * 16777216);
        assert(n % 256 == a);
        assert(n / 256 == b + c * 256 + d * 65536);
        assert(n / 65536 == c + d * 256);
        assert(n / 16777216 == d);
        assert(input.take(taken) =~= framed(payload));
    }
}

/// No input is read as a frame whose payload is over the limit.
pub proof fn law_oversized_frame_refused(input: Seq<u8>, kind: FrameKind)
    requires
        input.len() >= 4,
        length_value(input) > MAX_FRAME_SIZE,
    ensures
        unframed(input, kind) == Err::<(Seq<u8>, int), ProtocolError>(
            ProtocolError::FrameTooLarge(kind),
        ),
{
}

// ── What is accepted ─────────────────────────────────────────────────────────

/// Whether a text takes between one byte and `most`, none of which is an ASCII
/// control character.
pub open spec fn is_plain(s: Seq<char>, most: int) -> bool {
    &&& 1 <= encode_utf8(s).len() <= most
    &&& forall|i: int|
        0 <= i < encode_utf8(s).len() ==> !((#[trigger] encode_utf8(s)[i]) < 32 || encode_utf8(s)[i]
            == 127)
}

/// Which schemas are accepted: those of at most 128 sensors, each with a plain
/// identifier of its own and a plain label, of which exactly the persistent ones
/// have a default value.
pub proof fn law_accepted_schemas(generation: u64, sensors: Vec<SensorDescriptor>)
    ensures
        message_fault(Message::Schema { generation, sensors }) is None <==> {
            &&& sensors@.len() <= 128
            &&& forall|i: int|
                0 <= i < sensors@.len() ==> {
                    let sensor = #[trigger] sensors@[i];
                    &&& is_plain(sensor.id@, 512)
                    &&& is_plain(sensor.label@, 128)
                    &&& sensor.persistent <==> sensor.default_value is Some
                }
            &&& forall|i: int, j: int|
                0 <= i < j < sensors@.len() ==> (#[trigger] sensors@[i]).id@ != (
                #[trigger] sensors@[j]).id@
        },
        sensors@.len() > 128 ==> message_fault(Message::Schema { generation, sensors }) == Some(
            ProtocolError::TooManySensors,
        ),
{
    let views = descriptor_views(sensors@);
    law_sensors_fault(views);
    assert(forall|i: int|
        0 <= i < sensors@.len() ==> (#[trigger] views[i]) == sensors@[i]@);
    if message_fault(Message::Schema { generation, sensors }) is None {
        assert forall|i: int| 0 <= i < sensors@.len() implies {
            let sensor = #[trigger] sensors@[i];
            &&& is_plain(sensor.id@, 512)
            &&& is_plain(sensor.label@, 128)
            &&& sensor.persistent <==> sensor.default_value is Some
        } by {
            assert(views[i] == sensors@[i]@);
        }
        assert forall|i: int, j: int| 0 <= i < j < sensors@.len() implies (
        #[trigger] sensors@[i]).id@ != (#[trigger] sensors@[j]).id@ by {
            assert(views[i].id != views[j].id);
        }
    }
    if sensors@.len() <= 128 && (forall|i: int|
        0 <= i < sensors@.len() ==> {
            let sensor = #[trigger] sensors@[i];
            &&& is_plain(sensor.id@, 512)
            &&& is_plain(sensor.label@, 128)
            &&& sensor.persistent <==> sensor.default_value is Some
        }) && (forall|i: int, j: int|
        0 <= i < j < sensors@.len() ==> (#[trigger] sensors@[i]).id@ != (
        #[trigger] sensors@[j]).id@) {
        assert forall|i: int| 0 <= i < views.len() implies {
            let sensor = #[trigger] views[i];
            &&& valid_text(sensor.id, MAX_SENSOR_ID_BYTES as int)
            &&& valid_text(sensor.label, MAX_SENSOR_LABEL_BYTES as int)
            &&& sensor.persistent == sensor.default_value is Some
        } by {
            assert(is_plain(sensors@[i].id@, 512));
        }
        assert forall|i: int, j: int| 0 <= i < j < views.len() implies (#[trigger] views[i]).id
            != (#[trigger] views[j]).id by {
            assert(sensors@[i].id@ != sensors@[j].id@);
        }
        assert(sound_sensors(views));
    }
}

/// Which samples are accepted: those of at most 128 values, each under a plain
/// identifier of its own, whatever the values are.
pub proof fn law_accepted_samples(generation: u64, values: Vec<SensorValue>)
    ensures
        message_fault(Message::Sample { generation, values }) is None <==> {
            &&& values@.len() <= 128
            &&& forall|i: int| 0 <= i < values@.len() ==> is_plain((#[trigger] values@[i]).id@, 512)
            &&& forall|i: int, j: int|
                0 <= i < j < values@.len() ==> (#[trigger] values@[i]).id@ != (
                #[trigger] values@[j]).id@
        },
        values@.len() > 128 ==> message_fault(Message::Sample { generation, values }) == Some(
            ProtocolError::TooManyValues,
        ),
{
    let views = value_views(values@);
    law_values_fault(views);
    assert(forall|i: int| 0 <= i < values@.len() ==> (#[trigger] views[i]) == values@[i]@);
    if message_fault(Message::Sample { generation, values }) is None {
        assert forall|i: int| 0 <= i < values@.len() implies is_plain(
            (#[trigger] values@[i]).id@,
            512,
        ) by {
            assert(views[i] == values@[i]@);
        }
        assert forall|i: int, j: int| 0 <= i < j < values@.len() implies (
        #[trigger] values@[i]).id@ != (#[trigger] values@[j]).id@ by {
            assert(views[i].0 != views[j].0);
        }
    }
    if values@.len() <= 128 && (forall|i: int|
        0 <= i < values@.len() ==> is_plain((#[trigger] values@[i]).id@, 512)) && (forall|
        i: int,
        j: int,
    |
        0 <= i < j < values@.len() ==> (#[trigger] values@[i]).id@ != (#[trigger] values@[j]).id@) {
        assert forall|i: int| 0 <= i < views.len() implies valid_text(
            (#[trigger] views[i]).0,
            MAX_SENSOR_ID_BYTES as int,
        ) by {
            assert(is_plain(values@[i].id@, 512));
        }
        assert forall|i: int, j: int| 0 <= i < j < views.len() implies (#[trigger] views[i]).0 != (
        #[trigger] views[j]).0 by {
            assert(values@[i].id@ != values@[j].id@);
        }
        assert(sound_values(views));
    }
}

/// Which greetings are accepted: those with a plain version, a plain host name
/// and, if any, a device name of at most 31 letters, digits and underscores. The
/// messages that carry nothing always are.
pub proof fn law_accepted_greetings(
    agent_version: String,
    hostname: String,
    hwmon_name: Option<String>,
)
    ensures
        message_fault(Message::Hello { agent_version, hostname, hwmon_name }) is None <==> {
            &&& is_plain(agent_version@, 128)
            &&& is_plain(hostname@, 255)
            &&& hwmon_name matches Some(name) ==> {
                let bytes = encode_utf8(name@);
                &&& 1 <= bytes.len() <= 31
                &&& forall|i: int|
                    0 <= i < bytes.len() ==> 48 <= (#[trigger] bytes[i]) <= 57 || 65 <= bytes[i]
                        <= 90 || 97 <= bytes[i] <= 122 || bytes[i] == 95
            }
        },
        message_fault(Message::Heartbeat) is None,
        message_fault(Message::Goodbye) is None,
        message_fault(Message::RequestResync) is None,
{
    if let Some(name) = hwmon_name {
        let bytes = encode_utf8(name@);
        if valid_hwmon_name(name@) {
            assert forall|i: int| 0 <= i < bytes.len() implies 48 <= (#[trigger] bytes[i]) <= 57
                || 65 <= bytes[i] <= 90 || 97 <= bytes[i] <= 122 || bytes[i] == 95 by {
                assert(name_byte(bytes[i]));
            }
        }
    }
}

/// A frame is four bytes of length, lowest first, and the payload. Payloads of up
/// to 262144 bytes are read back whatever follows; a frame that says more is
/// refused.
pub proof fn law_frames(payload: Seq<u8>, rest: Seq<u8>, input: Seq<u8>, kind: FrameKind)
    ensures
        payload.len() <= 262144 ==> framed(payload).len() == payload.len() + 4 && framed(
            payload,
        ).skip(4) == payload && framed(payload)[0] + framed(payload)[1] * 256 + framed(payload)[2]
            * 65536 + framed(payload)[3] * 16777216 == payload.len(),
        payload.len() <= 262144 ==> unframed(framed(payload) + rest, kind) == Ok::<
            (Seq<u8>, int),
            ProtocolError,
        >((payload, payload.len() as int + 4)),
        input.len() >= 4 && input[0] + input[1] * 256 + input[2] * 65536 + input[3] * 16777216
            > 262144 ==> unframed(input, kind) == Err::<(Seq<u8>, int), ProtocolError>(
            ProtocolError::FrameTooLarge(kind),
        ),
        input.len() < 4 ==> unframed(input, kind) == Err::<(Seq<u8>, int), ProtocolError>(
            ProtocolError::UnexpectedEof,
        ),
{
    if payload.len() <= 262144 {
        law_frame_round_trip(payload, rest, kind);
        assert(framed(payload).skip(4) =~= payload);
        let n = payload.len() as int;
        assert(n % 256 + n / 256 % 256 * 256 + n / 65536 % 256 * 65536 + n / 16777216 % 256
            * 16777216 == n);
    }
}

} // verus!
