//! What the host daemon knows of one VM, how sensors are numbered, and which
//! events a change of sensors gives rise to.

use crate::host::kernel::{
    channel_at, fixed_hwmon_name, fixed_label, kernel_kind, kind_number, lemma_occurrences_bound,
    occurrences, padded, ChannelCounters, VsbSchema, VsbSensorDesc, VSB_HWMON_NAME_LEN,
    VSB_LABEL_LEN, VSB_MAX_SENSORS,
};
use crate::id_map::{
    distinct_keys, has_key, lemma_mapping_entry, mapping, place_of, IdMap,
};
use crate::number::{decimal, format_u64, lemma_decimal_injective};
use crate::protocol::{
    descriptor_views, same_descriptor, DescriptorView, SensorDescriptor, SensorKind,
};
use crate::text::{concat3, same, texts};
use vstd::prelude::*;
use vstd::utf8::encode_utf8;

verus! {

/// A sensor that stays registered while its VM is away.
#[derive(Debug, PartialEq, Eq)]
pub struct PersistentRuntimeSensor {
    pub descriptor: SensorDescriptor,
    pub default_value: i64,
}

impl View for PersistentRuntimeSensor {
    type V = (DescriptorView, i64);

    open spec fn view(&self) -> (DescriptorView, i64) {
        (self.descriptor@, self.default_value)
    }
}

impl Clone for PersistentRuntimeSensor {
    fn clone(&self) -> (copy: Self)
        ensures
            copy@ == self@,
    {
        PersistentRuntimeSensor {
            descriptor: self.descriptor.clone(),
            default_value: self.default_value,
        }
    }
}

/// The views of a sequence of persistent sensors.
pub open spec fn persistent_views(sensors: Seq<PersistentRuntimeSensor>) -> Seq<
    (DescriptorView, i64),
> {
    sensors.map_values(|sensor: PersistentRuntimeSensor| sensor@)
}

/// Copies of all persistent sensors, in order.
pub fn copy_persistent(sensors: &[PersistentRuntimeSensor]) -> (copies: Vec<
    PersistentRuntimeSensor,
>)
    ensures
        persistent_views(copies@) == persistent_views(sensors@),
{
    let mut copies: Vec<PersistentRuntimeSensor> = Vec::new();
    for i in 0..sensors.len()
        invariant
            persistent_views(copies@) == persistent_views(sensors@).take(i as int),
    {
        let ghost before = persistent_views(copies@);
        copies.push(sensors[i].clone());
        assert(persistent_views(copies@) =~= before.push(sensors@[i as int]@));
        assert(persistent_views(copies@) =~= persistent_views(sensors@).take(i as int + 1));
    }
    assert(persistent_views(sensors@).take(sensors@.len() as int) =~= persistent_views(sensors@));
    copies
}

/// Whether two lists of persistent sensors say the same.
pub fn same_persistent(
    a: &[PersistentRuntimeSensor],
    b: &[PersistentRuntimeSensor],
) -> (equal: bool)
    ensures
        equal == (persistent_views(a@) == persistent_views(b@)),
{
    if a.len() != b.len() {
        assert(persistent_views(a@).len() != persistent_views(b@).len());
        return false;
    }
    for i in 0..a.len()
        invariant
            a@.len() == b@.len(),
            forall|j: int| 0 <= j < i ==> (#[trigger] a@[j])@ == b@[j]@,
    {
        if !same_descriptor(&a[i].descriptor, &b[i].descriptor) || a[i].default_value
            != b[i].default_value {
            assert(persistent_views(a@)[i as int] != persistent_views(b@)[i as int]);
            return false;
        }
    }
    assert(persistent_views(a@) =~= persistent_views(b@));
    true
}

/// Kind and label of each sensor, by its identifier.
pub type Signatures = IdMap<(SensorKind, String)>;

/// What the daemon knows of one VM. Times are nanoseconds of a monotonic clock.
#[derive(Debug)]
pub struct VmRuntime {
    /// The generation of the schema in force.
    pub generation: u64,
    /// The number that the kernel module knows a sensor by.
    pub sensor_ids: IdMap<u32>,
    pub signatures: Signatures,
    /// The sysfs attribute of each sensor, such as `temp1_input`.
    pub sensor_attrs: IdMap<String>,
    pub persistent_sensors: Vec<PersistentRuntimeSensor>,
    /// When the last message came; when the VM became known, where none did.
    pub last_seen: u64,
    /// Whether any message came. None did where the runtime was restored from
    /// the cache and the agent has been silent since.
    pub heard: bool,
    /// Whether the VM was already reported to be away.
    pub offline_reported: bool,
    /// Whether a live agent has sent its schema. It has not where the runtime
    /// was restored from the cache; then the daemon asks for a resync.
    pub schema_synced: bool,
    pub hwmon_name: String,
    pub hwmon_path: String,
    pub sensor_count: usize,
}

/// What the daemon knows of one VM, as mathematical values.
#[verifier::ext_equal]
pub struct VmView {
    pub generation: u64,
    pub sensor_ids: Map<Seq<char>, u32>,
    pub signatures: Map<Seq<char>, (SensorKind, Seq<char>)>,
    pub sensor_attrs: Map<Seq<char>, Seq<char>>,
    pub persistent_sensors: Seq<(DescriptorView, i64)>,
    pub last_seen: u64,
    pub heard: bool,
    pub offline_reported: bool,
    pub schema_synced: bool,
    pub hwmon_name: Seq<char>,
    pub hwmon_path: Seq<char>,
    pub sensor_count: usize,
}

impl View for VmRuntime {
    type V = VmView;

    open spec fn view(&self) -> VmView {
        VmView {
            generation: self.generation,
            sensor_ids: self.sensor_ids@,
            signatures: self.signatures@,
            sensor_attrs: self.sensor_attrs@,
            persistent_sensors: persistent_views(self.persistent_sensors@),
            last_seen: self.last_seen,
            heard: self.heard,
            offline_reported: self.offline_reported,
            schema_synced: self.schema_synced,
            hwmon_name: self.hwmon_name@,
            hwmon_path: self.hwmon_path@,
            sensor_count: self.sensor_count,
        }
    }
}

// ── Comparing maps ───────────────────────────────────────────────────────────

/// Whether two maps of numbers hold the same.
pub fn same_ids(a: &IdMap<u32>, b: &IdMap<u32>) -> (equal: bool)
    ensures
        equal == (a@ == b@),
{
    let ours = a.entries();
    let theirs = b.entries();
    for i in 0..ours.len()
        invariant
            distinct_keys(ours@),
            mapping(ours@) == a@,
            forall|j: int|
                0 <= j < i ==> b@.contains_key((#[trigger] ours@[j]).0@) && b@[ours@[j].0@]
                    == ours@[j].1,
    {
        proof {
            lemma_mapping_entry(ours@, i as int);
        }
        match b.get(&ours[i].0) {
            Some(value) => {
                if *value != ours[i].1 {
                    return false;
                }
            },
            None => {
                return false;
            },
        }
    }
    for i in 0..theirs.len()
        invariant
            distinct_keys(theirs@),
            mapping(theirs@) == b@,
            forall|j: int| 0 <= j < i ==> a@.contains_key((#[trigger] theirs@[j]).0@),
    {
        proof {
            lemma_mapping_entry(theirs@, i as int);
        }
        if !a.contains_key(&theirs[i].0) {
            return false;
        }
    }
    proof {
        assert forall|key: Seq<char>| a@.contains_key(key) == b@.contains_key(key) && (
        a@.contains_key(key) ==> a@[key] == b@[key]) by {
            if a@.contains_key(key) {
                let j = place_of(ours@, key);
                assert(has_key(ours@, key));
                lemma_mapping_entry(ours@, j);
            }
            if b@.contains_key(key) {
                let j = place_of(theirs@, key);
                assert(has_key(theirs@, key));
            }
        }
        assert(a@ =~= b@);
    }
    true
}

fn same_signature(a: &(SensorKind, String), b: &(SensorKind, String)) -> (equal: bool)
    ensures
        equal == (a@ == b@),
{
    a.0 == b.0 && same(&a.1, &b.1)
}

/// Whether two maps of signatures hold the same.
pub fn same_signatures(a: &Signatures, b: &Signatures) -> (equal: bool)
    ensures
        equal == (a@ == b@),
{
    let change = compare(a, b);
    proof {
        lemma_no_change(a@, b@);
    }
    !change.added && !change.changed && !change.removed
}

// ── Events ───────────────────────────────────────────────────────────────────

/// Whether a sensor is new.
pub open spec fn some_added<S>(prior: Map<Seq<char>, S>, current: Map<Seq<char>, S>) -> bool {
    exists|id: Seq<char>| #[trigger] current.contains_key(id) && !prior.contains_key(id)
}

/// Whether a sensor stayed but has another kind or label.
pub open spec fn some_changed<S>(prior: Map<Seq<char>, S>, current: Map<Seq<char>, S>) -> bool {
    exists|id: Seq<char>| #[trigger]
        current.contains_key(id) && prior.contains_key(id) && prior[id] != current[id]
}

/// Whether a sensor is gone.
pub open spec fn some_removed<S>(prior: Map<Seq<char>, S>, current: Map<Seq<char>, S>) -> bool {
    exists|id: Seq<char>| #[trigger] prior.contains_key(id) && !current.contains_key(id)
}

/// The events of going from one set of sensors to another, in alphabetical
/// order, each at most once.
pub open spec fn expected_events(
    prior: Option<Map<Seq<char>, (SensorKind, Seq<char>)>>,
    current: Map<Seq<char>, (SensorKind, Seq<char>)>,
) -> Seq<Seq<char>> {
    match prior {
        None => seq!["device_created"@],
        Some(prior) => (if some_added(prior, current) {
            seq!["sensor_added"@]
        } else {
            Seq::empty()
        }) + (if some_changed(prior, current) {
            seq!["sensor_changed"@]
        } else {
            Seq::empty()
        }) + (if some_removed(prior, current) {
            seq!["sensor_removed"@]
        } else {
            Seq::empty()
        }),
    }
}

struct Change {
    added: bool,
    changed: bool,
    removed: bool,
}

fn compare(prior: &Signatures, current: &Signatures) -> (change: Change)
    ensures
        change.added == some_added(prior@, current@),
        change.changed == some_changed(prior@, current@),
        change.removed == some_removed(prior@, current@),
{
    let mut change = Change { added: false, changed: false, removed: false };
    let ours = current.entries();
    for i in 0..ours.len()
        invariant
            distinct_keys(ours@),
            mapping(ours@) == current@,
            change.removed == false,
            change.added ==> some_added(prior@, current@),
            change.changed ==> some_changed(prior@, current@),
            !change.added ==> forall|j: int|
                0 <= j < i ==> prior@.contains_key((#[trigger] ours@[j]).0@),
            !change.changed ==> forall|j: int|
                0 <= j < i && prior@.contains_key((#[trigger] ours@[j]).0@)
                    ==> prior@[ours@[j].0@] == ours@[j].1@,
    {
        proof {
            lemma_mapping_entry(ours@, i as int);
        }
        match prior.get(&ours[i].0) {
            Some(old) => {
                if !same_signature(old, &ours[i].1) {
                    change.changed = true;
                }
            },
            None => {
                change.added = true;
            },
        }
    }
    proof {
        assert forall|id: Seq<char>| #[trigger] current@.contains_key(id) implies {
            &&& !change.added ==> prior@.contains_key(id)
            &&& !change.changed && prior@.contains_key(id) ==> prior@[id] == current@[id]
        } by {
            let j = place_of(ours@, id);
            assert(has_key(ours@, id));
            lemma_mapping_entry(ours@, j);
        }
    }
    let theirs = prior.entries();
    for i in 0..theirs.len()
        invariant
            distinct_keys(theirs@),
            mapping(theirs@) == prior@,
            change.added == some_added(prior@, current@),
            change.changed == some_changed(prior@, current@),
            change.removed ==> some_removed(prior@, current@),
            !change.removed ==> forall|j: int|
                0 <= j < i ==> current@.contains_key((#[trigger] theirs@[j]).0@),
    {
        proof {
            lemma_mapping_entry(theirs@, i as int);
        }
        if !current.contains_key(&theirs[i].0) {
            change.removed = true;
        }
    }
    proof {
        assert forall|id: Seq<char>| #[trigger]
            prior@.contains_key(id) && !change.removed implies current@.contains_key(id) by {
            let j = place_of(theirs@, id);
            assert(has_key(theirs@, id));
        }
    }
    change
}

/// The events of a VM's change from what was known of it, if anything, to the
/// sensors `current`.
pub fn topology_events(prior: Option<&VmRuntime>, current: &Signatures) -> (events: Vec<String>)
    ensures
        texts(events@) == expected_events(
            match prior {
                Some(vm) => Some(vm.signatures@),
                None => None,
            },
            current@,
        ),
{
    let mut events: Vec<String> = Vec::new();
    let prior = match prior {
        Some(vm) => vm,
        None => {
            events.push("device_created".to_string());
            assert(texts(events@) =~= seq!["device_created"@]);
            return events;
        },
    };
    let change = compare(&prior.signatures, current);
    if change.added {
        events.push("sensor_added".to_string());
    }
    if change.changed {
        events.push("sensor_changed".to_string());
    }
    if change.removed {
        events.push("sensor_removed".to_string());
    }
    assert(texts(events@) =~= expected_events(Some(prior.signatures@), current@));
    events
}

proof fn lemma_no_change<S>(prior: Map<Seq<char>, S>, current: Map<Seq<char>, S>)
    ensures
        (!some_added(prior, current) && !some_changed(prior, current) && !some_removed(
            prior,
            current,
        )) <==> prior == current,
{
    if !some_added(prior, current) && !some_changed(prior, current) && !some_removed(
        prior,
        current,
    ) {
        assert forall|id: Seq<char>| prior.contains_key(id) == current.contains_key(id) && (
        prior.contains_key(id) ==> prior[id] == current[id]) by {
            if current.contains_key(id) {
            }
            if prior.contains_key(id) {
            }
        }
        assert(prior =~= current);
    }
}

/// A known VM gives rise to no event exactly where its sensors stay as they
/// were.
pub proof fn law_no_event_iff_same_sensors(
    prior: Map<Seq<char>, (SensorKind, Seq<char>)>,
    current: Map<Seq<char>, (SensorKind, Seq<char>)>,
)
    ensures
        expected_events(Some(prior), current).len() == 0 <==> prior == current,
{
    lemma_no_change(prior, current);
}

// ── Numbering ────────────────────────────────────────────────────────────────

/// How the sysfs attributes of a kind begin.
pub open spec fn kind_prefix(kind: SensorKind) -> Seq<char> {
    match kind {
        SensorKind::Temperature => "temp"@,
        SensorKind::Fan => "fan"@,
        SensorKind::Voltage => "in"@,
        SensorKind::Current => "curr"@,
        SensorKind::Power => "power"@,
    }
}

/// How the sysfs attributes of a kind begin.
pub fn kind_prefix_str(kind: SensorKind) -> (prefix: &'static str)
    ensures
        prefix@ == kind_prefix(kind),
{
    match kind {
        SensorKind::Temperature => "temp",
        SensorKind::Fan => "fan",
        SensorKind::Voltage => "in",
        SensorKind::Current => "curr",
        SensorKind::Power => "power",
    }
}

/// The sysfs attribute of a sensor.
pub open spec fn attribute(kind: SensorKind, channel: int) -> Seq<char> {
    kind_prefix(kind) + decimal(channel as nat) + "_input"@
}

/// Attributes of different sensors differ.
pub proof fn law_attributes_distinct(
    kind: SensorKind,
    channel: int,
    other_kind: SensorKind,
    other_channel: int,
)
    requires
        0 <= channel,
        0 <= other_channel,
        attribute(kind, channel) == attribute(other_kind, other_channel),
    ensures
        kind == other_kind,
        channel == other_channel,
{
    reveal_strlit("temp");
    reveal_strlit("fan");
    reveal_strlit("in");
    reveal_strlit("curr");
    reveal_strlit("power");
    reveal_strlit("_input");
    let a = attribute(kind, channel);
    let b = attribute(other_kind, other_channel);
    assert(a[0] == kind_prefix(kind)[0]);
    assert(b[0] == kind_prefix(other_kind)[0]);
    assert(kind == other_kind);
    let n = kind_prefix(kind).len() as int;
    let x = decimal(channel as nat);
    let y = decimal(other_channel as nat);
    assert(a.len() == n + x.len() + 6);
    assert(b.len() == n + y.len() + 6);
    assert(x =~= a.subrange(n, n + x.len()));
    assert(y =~= b.subrange(n, n + y.len()));
    lemma_decimal_injective(channel as nat, other_channel as nat);
}

/// The kinds of a list of sensors.
pub open spec fn kinds_of(sensors: Seq<DescriptorView>) -> Seq<SensorKind> {
    sensors.map_values(|sensor: DescriptorView| sensor.kind)
}

/// The number of each sensor: its place in the list, counted from one.
pub open spec fn id_numbers(sensors: Seq<DescriptorView>) -> Map<Seq<char>, u32>
    decreases sensors.len(),
{
    if sensors.len() == 0 {
        Map::empty()
    } else {
        id_numbers(sensors.drop_last()).insert(sensors.last().id, sensors.len() as u32)
    }
}

/// Kind and label of each sensor.
pub open spec fn signature_map(sensors: Seq<DescriptorView>) -> Map<
    Seq<char>,
    (SensorKind, Seq<char>),
>
    decreases sensors.len(),
{
    if sensors.len() == 0 {
        Map::empty()
    } else {
        signature_map(sensors.drop_last()).insert(
            sensors.last().id,
            (sensors.last().kind, sensors.last().label),
        )
    }
}

/// The sysfs attribute of each sensor.
pub open spec fn attribute_map(sensors: Seq<DescriptorView>) -> Map<Seq<char>, Seq<char>>
    decreases sensors.len(),
{
    if sensors.len() == 0 {
        Map::empty()
    } else {
        attribute_map(sensors.drop_last()).insert(
            sensors.last().id,
            attribute(
                sensors.last().kind,
                channel_at(kinds_of(sensors), sensors.len() - 1),
            ),
        )
    }
}

/// Whether `desc` is what the kernel gets for the sensor at place `i`.
pub open spec fn describes(desc: VsbSensorDesc, sensors: Seq<DescriptorView>, i: int) -> bool {
    &&& desc.id == i + 1
    &&& desc.kind == kind_number(sensors[i].kind)
    &&& desc.channel == channel_at(kinds_of(sensors), i)
    &&& desc.reserved == 0
    &&& desc.label@ == padded(encode_utf8(sensors[i].label), VSB_LABEL_LEN as int)
}

/// Whether `schema` is what the kernel gets for the sensors of a VM.
pub open spec fn is_schema_of(
    schema: VsbSchema,
    vmid: u32,
    hwmon_name: Option<Seq<char>>,
    sensors: Seq<DescriptorView>,
) -> bool {
    &&& schema.vmid == vmid
    &&& schema.sensor_count == sensors.len()
    &&& schema.reserved == 0
    &&& schema.hwmon_name@ == (match hwmon_name {
        Some(name) => padded(encode_utf8(name), VSB_HWMON_NAME_LEN as int),
        None => padded(Seq::empty(), VSB_HWMON_NAME_LEN as int),
    })
    &&& forall|i: int|
        0 <= i < sensors.len() ==> describes(#[trigger] schema.sensors@[i], sensors, i)
    &&& forall|i: int|
        sensors.len() <= i < VSB_MAX_SENSORS ==> (#[trigger] schema.sensors@[i]).blank()
}

/// A list of sensors, numbered.
pub struct Registration {
    pub schema: VsbSchema,
    pub sensor_ids: IdMap<u32>,
    pub signatures: Signatures,
    pub sensor_attrs: IdMap<String>,
}

/// Numbers the sensors of a VM.
pub fn register(
    vmid: u32,
    hwmon_name: Option<&str>,
    sensors: &[SensorDescriptor],
) -> (registration: Registration)
    requires
        sensors@.len() <= VSB_MAX_SENSORS,
    ensures
        is_schema_of(
            registration.schema,
            vmid,
            match hwmon_name {
                Some(name) => Some(name@),
                None => None,
            },
            descriptor_views(sensors@),
        ),
        registration.sensor_ids@ == id_numbers(descriptor_views(sensors@)),
        registration.signatures@ == signature_map(descriptor_views(sensors@)),
        registration.sensor_attrs@ == attribute_map(descriptor_views(sensors@)),
{
    let ghost all = descriptor_views(sensors@);
    let ghost kinds = kinds_of(all);
    let mut schema = VsbSchema::default();
    schema.vmid = vmid;
    schema.sensor_count = sensors.len() as u32;
    schema.hwmon_name = fixed_hwmon_name(hwmon_name);
    let ghost head = schema;
    let mut sensor_ids: IdMap<u32> = IdMap::new();
    let mut signatures: Signatures = IdMap::new();
    let mut sensor_attrs: IdMap<String> = IdMap::new();
    let mut channels = ChannelCounters::default();
    proof {
        assert(all.take(0) =~= Seq::<DescriptorView>::empty());
        assert(kinds.take(0) =~= Seq::<SensorKind>::empty());
    }
    for i in 0..sensors.len()
        invariant
            all == descriptor_views(sensors@),
            kinds == kinds_of(all),
            sensors@.len() <= VSB_MAX_SENSORS,
            schema.vmid == head.vmid,
            schema.sensor_count == head.sensor_count,
            schema.reserved == head.reserved,
            schema.hwmon_name == head.hwmon_name,
            forall|j: int| 0 <= j < i ==> describes(#[trigger] schema.sensors@[j], all, j),
            forall|j: int|
                i <= j < VSB_MAX_SENSORS ==> (#[trigger] schema.sensors@[j]).blank(),
            forall|kind: SensorKind|
                #[trigger] channels.given(kind) == occurrences(kinds.take(i as int), kind),
            sensor_ids@ == id_numbers(all.take(i as int)),
            signatures@ == signature_map(all.take(i as int)),
            sensor_attrs@ == attribute_map(all.take(i as int)),
    {
        let sensor = &sensors[i];
        let number: u32 = (i + 1) as u32;
        proof {
            lemma_occurrences_bound(kinds.take(i as int), sensor.kind);
            assert(kinds[i as int] == sensor.kind);
            assert(all[i as int] == sensor@);
            assert(kinds.take(i as int + 1).drop_last() =~= kinds.take(i as int));
            assert(all.take(i as int + 1).drop_last() =~= all.take(i as int));
            assert(kinds_of(all.take(i as int + 1)) =~= kinds.take(i as int + 1));
            assert(kinds.take(i as int + 1).take(i as int) =~= kinds.take(i as int));
        }
        let channel = channels.next(sensor.kind);
        let desc = VsbSensorDesc {
            id: number,
            kind: kernel_kind(sensor.kind),
            channel,
            reserved: 0,
            label: fixed_label(&sensor.label),
        };
        schema.sensors[i] = desc;
        let attr = concat3(kind_prefix_str(sensor.kind), &format_u64(channel as u64), "_input");
        sensor_ids.insert(sensor.id.clone(), number);
        signatures.insert(sensor.id.clone(), (sensor.kind, sensor.label.clone()));
        sensor_attrs.insert(sensor.id.clone(), attr);
    }
    assert(all.take(all.len() as int) =~= all);
    Registration { schema, sensor_ids, signatures, sensor_attrs }
}

/// The attributes of the sensors of a VM are all distinct.
pub proof fn law_registered_attributes_distinct(sensors: Seq<DescriptorView>, i: int, j: int)
    requires
        0 <= i < j < sensors.len(),
        sensors.len() <= VSB_MAX_SENSORS,
    ensures
        attribute(sensors[i].kind, channel_at(kinds_of(sensors), i)) != attribute(
            sensors[j].kind,
            channel_at(kinds_of(sensors), j),
        ),
{
    let kinds = kinds_of(sensors);
    let a = channel_at(kinds, i);
    let b = channel_at(kinds, j);
    lemma_occurrences_bound(kinds.take(i), kinds[i]);
    lemma_occurrences_bound(kinds.take(j), kinds[j]);
    if attribute(sensors[i].kind, a) == attribute(sensors[j].kind, b) {
        law_attributes_distinct(sensors[i].kind, a, sensors[j].kind, b);
        crate::host::kernel::law_channels_distinct(kinds, i, j);
    }
}

/// With distinct identifiers, each sensor is registered under its own: its
/// number is its place in the list, its signature and its attribute are its
/// own.
pub proof fn law_each_sensor_registered(sensors: Seq<DescriptorView>, i: int)
    requires
        0 <= i < sensors.len(),
        sensors.len() <= VSB_MAX_SENSORS,
        forall|a: int, b: int|
            0 <= a < b < sensors.len() ==> (#[trigger] sensors[a]).id != (#[trigger] sensors[b]).id,
    ensures
        id_numbers(sensors).contains_key(sensors[i].id),
        id_numbers(sensors)[sensors[i].id] == i + 1,
        signature_map(sensors).contains_key(sensors[i].id),
        signature_map(sensors)[sensors[i].id] == (sensors[i].kind, sensors[i].label),
        attribute_map(sensors).contains_key(sensors[i].id),
        attribute_map(sensors)[sensors[i].id] == attribute(
            sensors[i].kind,
            channel_at(kinds_of(sensors), i),
        ),
    decreases sensors.len(),
{
    let last = sensors.len() - 1;
    let before = sensors.drop_last();
    if i < last {
        assert forall|a: int, b: int| 0 <= a < b < before.len() implies (#[trigger] before[a]).id
            != (#[trigger] before[b]).id by {
            assert(before[a] == sensors[a]);
            assert(before[b] == sensors[b]);
        }
        law_each_sensor_registered(before, i);
        assert(before[i] == sensors[i]);
        assert(sensors[i].id != sensors[last].id);
        assert(kinds_of(before).take(i) =~= kinds_of(sensors).take(i));
        assert(kinds_of(before)[i] == kinds_of(sensors)[i]);
    }
}

} // verus!
