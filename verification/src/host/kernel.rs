//! What the host daemon hands to the kernel module: the layout of schemas and
//! values, the numbers of kinds and channels, and the ioctl requests.

use crate::protocol::SensorKind;
use vstd::prelude::*;
use vstd::string::StringSliceAdditionalSpecFns;
use vstd::utf8::encode_utf8;

verus! {

/// The most sensors that the kernel takes for one VM.
pub const VSB_MAX_SENSORS: usize = 128;

/// The size of a label, with the zero byte that ends it.
pub const VSB_LABEL_LEN: usize = 129;

/// The size of a device name, with the zero byte that ends it.
pub const VSB_HWMON_NAME_LEN: usize = 32;

/// One sensor of a schema.
#[derive(Clone, Copy, Debug)]
pub struct VsbSensorDesc {
    pub id: u32,
    pub kind: u32,
    pub channel: u32,
    pub reserved: u32,
    pub label: [u8; 129],
}

/// All sensors of one VM.
#[derive(Clone, Copy, Debug)]
pub struct VsbSchema {
    pub vmid: u32,
    pub sensor_count: u32,
    pub hwmon_name: [u8; 32],
    pub reserved: u32,
    pub sensors: [VsbSensorDesc; 128],
}

/// One reading.
#[derive(Clone, Copy, Debug)]
pub struct VsbSensorValue {
    pub id: u32,
    pub reserved: u32,
    pub value: i64,
}

/// Readings of one VM.
#[derive(Clone, Copy, Debug)]
pub struct VsbValues {
    pub vmid: u32,
    pub value_count: u32,
    pub values: [VsbSensorValue; 128],
}

/// Whether all bytes are zero.
pub open spec fn all_zero(bytes: Seq<u8>) -> bool {
    forall|i: int| 0 <= i < bytes.len() ==> bytes[i] == 0
}

impl VsbSensorDesc {
    /// Whether every field is zero.
    pub open spec fn blank(self) -> bool {
        self.id == 0 && self.kind == 0 && self.channel == 0 && self.reserved == 0 && all_zero(
            self.label@,
        )
    }
}

impl VsbSensorValue {
    /// Whether every field is zero.
    pub open spec fn blank(self) -> bool {
        self.id == 0 && self.reserved == 0 && self.value == 0
    }
}

impl Default for VsbSensorDesc {
    fn default() -> (desc: Self)
        ensures
            desc.blank(),
    {
        VsbSensorDesc { id: 0, kind: 0, channel: 0, reserved: 0, label: [0u8; 129] }
    }
}

impl Default for VsbSchema {
    fn default() -> (schema: Self)
        ensures
            schema.vmid == 0,
            schema.sensor_count == 0,
            schema.reserved == 0,
            all_zero(schema.hwmon_name@),
            forall|i: int| 0 <= i < 128 ==> (#[trigger] schema.sensors@[i]).blank(),
    {
        let desc = VsbSensorDesc { id: 0, kind: 0, channel: 0, reserved: 0, label: [0u8; 129] };
        VsbSchema {
            vmid: 0,
            sensor_count: 0,
            hwmon_name: [0u8; 32],
            reserved: 0,
            sensors: [desc; 128],
        }
    }
}

impl Default for VsbSensorValue {
    fn default() -> (value: Self)
        ensures
            value.blank(),
    {
        VsbSensorValue { id: 0, reserved: 0, value: 0 }
    }
}

impl Default for VsbValues {
    fn default() -> (values: Self)
        ensures
            values.vmid == 0,
            values.value_count == 0,
            forall|i: int| 0 <= i < 128 ==> (#[trigger] values.values@[i]).blank(),
    {
        let value = VsbSensorValue { id: 0, reserved: 0, value: 0 };
        VsbValues { vmid: 0, value_count: 0, values: [value; 128] }
    }
}

// ── Kinds and channels ───────────────────────────────────────────────────────

/// The number by which the kernel module knows a kind.
pub open spec fn kind_number(kind: SensorKind) -> u32 {
    match kind {
        SensorKind::Temperature => 1,
        SensorKind::Fan => 2,
        SensorKind::Voltage => 3,
        SensorKind::Current => 4,
        SensorKind::Power => 5,
    }
}

/// The number by which the kernel module knows a kind.
pub fn kernel_kind(kind: SensorKind) -> (number: u32)
    ensures
        number == kind_number(kind),
{
    match kind {
        SensorKind::Temperature => 1,
        SensorKind::Fan => 2,
        SensorKind::Voltage => 3,
        SensorKind::Current => 4,
        SensorKind::Power => 5,
    }
}

/// The first channel of a kind: hwmon counts voltages from zero and everything
/// else from one.
pub open spec fn first_channel(kind: SensorKind) -> int {
    if kind == SensorKind::Voltage {
        0
    } else {
        1
    }
}

/// How many channels of each kind were given out.
#[derive(Debug)]
pub struct ChannelCounters {
    temp: u32,
    fan: u32,
    voltage: u32,
    current: u32,
    power: u32,
}

impl Default for ChannelCounters {
    fn default() -> (counters: Self)
        ensures
            forall|kind: SensorKind| counters.given(kind) == 0,
    {
        ChannelCounters { temp: 0, fan: 0, voltage: 0, current: 0, power: 0 }
    }
}

impl ChannelCounters {
    /// How many channels of `kind` were given out.
    pub closed spec fn given(self, kind: SensorKind) -> int {
        match kind {
            SensorKind::Temperature => self.temp as int,
            SensorKind::Fan => self.fan as int,
            SensorKind::Voltage => self.voltage as int,
            SensorKind::Current => self.current as int,
            SensorKind::Power => self.power as int,
        }
    }

    /// Gives out the next channel of `kind`.
    pub fn next(&mut self, kind: SensorKind) -> (channel: u32)
        requires
            old(self).given(kind) < u32::MAX,
        ensures
            channel == old(self).given(kind) + first_channel(kind),
            final(self).given(kind) == old(self).given(kind) + 1,
            forall|other: SensorKind|
                other != kind ==> final(self).given(other) == old(self).given(other),
    {
        match kind {
            SensorKind::Temperature => {
                self.temp = self.temp + 1;
                self.temp
            },
            SensorKind::Fan => {
                self.fan = self.fan + 1;
                self.fan
            },
            SensorKind::Voltage => {
                let channel = self.voltage;
                self.voltage = self.voltage + 1;
                channel
            },
            SensorKind::Current => {
                self.current = self.current + 1;
                self.current
            },
            SensorKind::Power => {
                self.power = self.power + 1;
                self.power
            },
        }
    }
}

/// How many of `kinds` are `kind`.
pub open spec fn occurrences(kinds: Seq<SensorKind>, kind: SensorKind) -> int
    decreases kinds.len(),
{
    if kinds.len() == 0 {
        0
    } else {
        occurrences(kinds.drop_last(), kind) + (if kinds.last() == kind {
            1int
        } else {
            0
        })
    }
}

/// The channel of the sensor at place `i`: the sensors of each kind are
/// numbered in the order in which they stand.
pub open spec fn channel_at(kinds: Seq<SensorKind>, i: int) -> int {
    occurrences(kinds.take(i), kinds[i]) + first_channel(kinds[i])
}

/// There are never more sensors of a kind than sensors.
pub proof fn lemma_occurrences_bound(kinds: Seq<SensorKind>, kind: SensorKind)
    ensures
        0 <= occurrences(kinds, kind) <= kinds.len(),
    decreases kinds.len(),
{
    if kinds.len() > 0 {
        lemma_occurrences_bound(kinds.drop_last(), kind);
    }
}

proof fn lemma_occurrences_grow(kinds: Seq<SensorKind>, kind: SensorKind, i: int, j: int)
    requires
        0 <= i <= j <= kinds.len(),
    ensures
        occurrences(kinds.take(i), kind) <= occurrences(kinds.take(j), kind),
        i < j && kinds[i] == kind ==> occurrences(kinds.take(i), kind) < occurrences(
            kinds.take(j),
            kind,
        ),
    decreases j - i,
{
    if i < j {
        assert(kinds.take(i + 1).drop_last() =~= kinds.take(i));
        assert(kinds.take(i + 1).last() == kinds[i]);
        lemma_occurrences_grow(kinds, kind, i + 1, j);
    }
}

/// Two sensors of the same kind never share a channel.
pub proof fn law_channels_distinct(kinds: Seq<SensorKind>, i: int, j: int)
    requires
        0 <= i < j < kinds.len(),
        kinds[i] == kinds[j],
    ensures
        channel_at(kinds, i) < channel_at(kinds, j),
{
    lemma_occurrences_grow(kinds, kinds[i], i, j);
}

// ── Fixed-size texts ─────────────────────────────────────────────────────────

/// As many of `bytes` as leave room for a zero byte in `size` bytes, filled up
/// with zeros.
pub open spec fn padded(bytes: Seq<u8>, size: int) -> Seq<u8> {
    Seq::new(
        size as nat,
        |i: int|
            if i < bytes.len() && i < size - 1 {
                bytes[i]
            } else {
                0
            },
    )
}

/// A label as the kernel takes it: cut to 128 bytes and ended by zeros.
pub fn fixed_label(label: &str) -> (out: [u8; 129])
    ensures
        out@ == padded(encode_utf8(label@), VSB_LABEL_LEN as int),
{
    let mut out: [u8; 129] = [0u8; 129];
    let bytes = label.as_bytes();
    let len: usize = if bytes.len() < 128 {
        bytes.len()
    } else {
        128
    };
    for i in 0..len
        invariant
            len <= 128,
            len <= bytes@.len(),
            forall|j: int| 0 <= j < i ==> out@[j] == bytes@[j],
            forall|j: int| i <= j < 129 ==> out@[j] == 0,
    {
        out[i] = bytes[i];
    }
    assert(out@ =~= padded(encode_utf8(label@), VSB_LABEL_LEN as int));
    out
}

/// A device name as the kernel takes it: cut to 31 bytes and ended by zeros,
/// or all zeros where there is no name.
pub fn fixed_hwmon_name(name: Option<&str>) -> (out: [u8; 32])
    ensures
        out@ == (match name {
            Some(text) => padded(encode_utf8(text@), VSB_HWMON_NAME_LEN as int),
            None => padded(Seq::empty(), VSB_HWMON_NAME_LEN as int),
        }),
{
    let mut out: [u8; 32] = [0u8; 32];
    let name = match name {
        Some(text) => text,
        None => {
            assert(out@ =~= padded(Seq::empty(), VSB_HWMON_NAME_LEN as int));
            return out;
        },
    };
    let bytes = name.as_bytes();
    let len: usize = if bytes.len() < 31 {
        bytes.len()
    } else {
        31
    };
    for i in 0..len
        invariant
            len <= 31,
            len <= bytes@.len(),
            forall|j: int| 0 <= j < i ==> out@[j] == bytes@[j],
            forall|j: int| i <= j < 32 ==> out@[j] == 0,
    {
        out[i] = bytes[i];
    }
    assert(out@ =~= padded(encode_utf8(name@), VSB_HWMON_NAME_LEN as int));
    out
}

/// What fills a fixed-size field always ends with a zero byte.
pub proof fn law_padded_ends_with_zero(bytes: Seq<u8>, size: int)
    requires
        size > 0,
    ensures
        padded(bytes, size).len() == size,
        padded(bytes, size).last() == 0,
        bytes.len() < size ==> padded(bytes, size).take(bytes.len() as int) == bytes,
{
    if bytes.len() < size {
        assert(padded(bytes, size).take(bytes.len() as int) =~= bytes);
    }
}

// ── ioctl requests ───────────────────────────────────────────────────────────

/// An ioctl request: direction, size, magic byte and number, from the highest
/// bits down.
pub open spec fn ioctl_number(direction: u64, size: u64, magic: u64, nr: u64) -> u64 {
    (direction << 30) | (magic << 8) | nr | (size << 16)
}

/// The magic byte of the kernel module.
pub const VSB_IOCTL_MAGIC: u64 = 0x56;

/// A request that names no payload size.
pub fn request_none(nr: u64) -> (request: u64)
    ensures
        request == ioctl_number(0, 0, VSB_IOCTL_MAGIC, nr),
{
    (0u64 << 30) | (VSB_IOCTL_MAGIC << 8) | nr | (0u64 << 16)
}

/// A request that hands a payload of `size` bytes to the kernel.
pub fn request_write(nr: u64, size: usize) -> (request: u64)
    ensures
        request == ioctl_number(1, size as u64, VSB_IOCTL_MAGIC, nr),
{
    (1u64 << 30) | (VSB_IOCTL_MAGIC << 8) | nr | ((size as u64) << 16)
}

/// Where each part fits its field, a request is the sum of the fields.
pub proof fn law_ioctl_fields(direction: u64, size: u64, magic: u64, nr: u64)
    requires
        direction < 4,
        size < 16384,
        magic < 256,
        nr < 256,
    ensures
        ioctl_number(direction, size, magic, nr) == direction * 1073741824 + size * 65536 + magic
            * 256 + nr,
{
    assert((direction << 30) | (magic << 8) | nr | (size << 16) == direction * 1073741824 + size
        * 65536 + magic * 256 + nr) by (bit_vector)
        requires
            direction < 4,
            size < 16384,
            magic < 256,
            nr < 256,
    ;
}

} // verus!
