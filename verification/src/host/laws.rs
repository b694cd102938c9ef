//! What the host daemon does, as agents and users see it: which readings reach
//! the kernel, what becomes of a VM that is silent or leaves, which schemas are
//! news, and what is reported.

use crate::host::daemon::{
    device_path, message_outcome, resync_due, socket_vmid, HostAction, HwmonDevice, ResyncStep,
};
use crate::host::hooks::bounded_seconds;
use crate::host::kernel::{kind_number, occurrences, padded, VsbSchema, VsbValues};
use crate::host::presence::{
    after_heartbeats, default_readings, defaults_vm, departure_outcome, descriptors_of, fate_of,
    notice_ids, plan_ids, policy_named, restorable, warning_text, CacheView, DefaultsPlan,
    Departure, Fate, HeartbeatOutcome, HeartbeatPolicy,
};
use crate::host::runtime::{
    attribute_map, describes, expected_events, id_numbers, is_schema_of, kinds_of,
    law_each_sensor_registered, law_no_event_iff_same_sensors, persistent_views, signature_map,
    some_added, some_changed, some_removed, VmView,
};
use crate::host::state::{
    committed, greeted, is_accepted, known_readings, lacks_schema, persistent_of, sample_outcome,
    schema_outcome, seen, HostError, HostView, PendingSchema, SchemaStep,
};
use crate::host::status::{
    default_of, info_of, reports_sensors, reports_vm, request_filter, selected,
};
use crate::host::vm_map::lists_keys;
use crate::number::{decimal, law_printed_number_reads_back, reading_of};
use crate::protocol::{
    value_views, CtlRequest, DescriptorView, Message, SensorInfo, SensorKind, VmInfo,
};
use crate::seqs::{
    lemma_filter_last, lemma_filter_member, lemma_filter_none, lemma_filter_place,
    lemma_filter_take,
};
use crate::text::{optional_text, split_pair, texts, trimmed};
use crate::time::lookup;
use vstd::prelude::*;
use vstd::utf8::encode_utf8;

verus! {

// ── Samples ──────────────────────────────────────────────────────────────────

proof fn lemma_known_readings(values: Seq<(Seq<char>, i64)>, ids: Map<Seq<char>, u32>)
    ensures
        known_readings(values, ids) == values.filter(
            |reading: (Seq<char>, i64)| ids.contains_key(reading.0),
        ).map_values(|reading: (Seq<char>, i64)| (ids[reading.0], reading.1)),
    decreases values.len(),
{
    let known = |reading: (Seq<char>, i64)| ids.contains_key(reading.0);
    let number = |reading: (Seq<char>, i64)| (ids[reading.0], reading.1);
    if values.len() == 0 {
        lemma_filter_none(values, known);
        assert(known_readings(values, ids) =~= values.filter(known).map_values(number));
    } else {
        lemma_known_readings(values.drop_last(), ids);
        lemma_filter_last(values, known);
        assert(known_readings(values, ids) =~= values.filter(known).map_values(number));
    }
}

/// A sample of the generation in force reaches the kernel: each reading of a
/// registered sensor stands under the number of that sensor with its own value,
/// whatever the value is, in the order of the sample; there is nothing else.
pub proof fn law_sample_reaches_the_kernel(
    state: HostView,
    vmid: u32,
    generation: u64,
    values: Seq<(Seq<char>, i64)>,
    result: Result<Option<VsbValues>, HostError>,
)
    requires
        sample_outcome(state, vmid, generation, values, result),
        state.vms.contains_key(vmid),
        state.vms[vmid].generation == generation,
        values.len() <= 128,
    ensures
        result matches Ok(Some(payload)) && {
            let ids = state.vms[vmid].sensor_ids;
            let known = |reading: (Seq<char>, i64)| ids.contains_key(reading.0);
            &&& payload.vmid == vmid
            &&& payload.value_count == values.filter(known).len()
            &&& forall|k: int|
                0 <= k < values.len() && ids.contains_key((#[trigger] values[k]).0) ==> {
                    let place = values.take(k).filter(known).len() as int;
                    &&& place < payload.value_count
                    &&& payload.values@[place].id == ids[values[k].0]
                    &&& payload.values@[place].value == values[k].1
                }
        },
{
    let ids = state.vms[vmid].sensor_ids;
    let known = |reading: (Seq<char>, i64)| ids.contains_key(reading.0);
    lemma_known_readings(values, ids);
    if let Ok(Some(payload)) = result {
        let readings = known_readings(values, ids);
        assert forall|k: int|
            0 <= k < values.len() && ids.contains_key((#[trigger] values[k]).0) implies {
            let place = values.take(k).filter(known).len() as int;
            &&& place < payload.value_count
            &&& payload.values@[place].id == ids[values[k].0]
            &&& payload.values@[place].value == values[k].1
        } by {
            let place = values.take(k).filter(known).len() as int;
            lemma_filter_place(values, known, k);
            assert(readings[place] == (ids[values[k].0], values[k].1));
            assert(payload.values@[place].id == readings[place].0);
        }
    }
}

/// A sample of an unknown VM, or of another generation than that in force, is
/// dropped without a complaint; one of the generation in force with more than
/// 128 values is refused.
pub proof fn law_sample_of_another_generation(
    state: HostView,
    vmid: u32,
    generation: u64,
    values: Seq<(Seq<char>, i64)>,
    result: Result<Option<VsbValues>, HostError>,
)
    requires
        sample_outcome(state, vmid, generation, values, result),
    ensures
        !state.vms.contains_key(vmid) ==> result == Ok::<Option<VsbValues>, HostError>(None),
        state.vms.contains_key(vmid) && state.vms[vmid].generation != generation ==> result
            == Ok::<Option<VsbValues>, HostError>(None),
        state.vms.contains_key(vmid) && state.vms[vmid].generation == generation && values.len()
            > 128 ==> result == Err::<Option<VsbValues>, HostError>(HostError::TooManyValues),
{
}

// ── Silence ──────────────────────────────────────────────────────────────────

/// A check of the heartbeats finds exactly those VMs that were not reported
/// before and whose last message is at least the timeout old. Unless the policy
/// only warns, of these the ones without persistent sensors are removed and the
/// ones with persistent sensors go to their defaults; what a policy is called
/// otherwise makes no difference.
pub proof fn law_silent_vms_are_dealt_with(
    before: HostView,
    timeout_seconds: u64,
    policy: HeartbeatPolicy,
    now: u64,
    ids: Seq<u32>,
    outcome: HeartbeatOutcome,
    vmid: u32,
)
    requires
        lists_keys(ids, before.vms),
        outcome.covers(ids, before, timeout_seconds, policy, now),
        before.vms.contains_key(vmid) ==> before.vms[vmid].last_seen <= now,
    ensures
        ({
            let after = after_heartbeats(before, timeout_seconds, policy, now);
            let vm = before.vms[vmid];
            let silent = before.vms.contains_key(vmid) && !vm.offline_reported && now
                - vm.last_seen >= timeout_seconds * 1_000_000_000;
            let acts = policy != HeartbeatPolicy::WarnOnly;
            let removed = silent && acts && vm.persistent_sensors.len() == 0;
            let preserved = silent && acts && vm.persistent_sensors.len() > 0;
            &&& outcome.expired@.contains(vmid) <==> silent
            &&& notice_ids(outcome.removals@).contains(vmid) <==> removed
            &&& plan_ids(outcome.preserves@).contains(vmid) <==> preserved
            &&& after.vms.contains_key(vmid) <==> before.vms.contains_key(vmid) && !removed
            &&& after.hwmon_names.contains_key(vmid) <==> before.hwmon_names.contains_key(vmid)
                && !removed
            &&& after.hwmon_names.contains_key(vmid) ==> after.hwmon_names[vmid]
                == before.hwmon_names[vmid]
            &&& silent && !removed ==> after.vms[vmid] == (VmView { offline_reported: true, ..vm })
            &&& before.vms.contains_key(vmid) && !silent ==> after.vms[vmid] == vm
        }),
{
    let fate = |id: u32| fate_of(before, id, timeout_seconds, policy, now);
    lemma_filter_member(ids, |id: u32| fate(id) != Fate::Stays, vmid);
    lemma_filter_member(ids, |id: u32| fate(id) == Fate::Preserved, vmid);
    lemma_filter_member(ids, |id: u32| fate(id) == Fate::Removed, vmid);
    assert(before.vms.contains_key(vmid) <==> ids.contains(vmid));
}

/// Where a silent VM is removed, hooks are told that it is offline, with the
/// name, the path and the sensors that its device had; where its persistent
/// sensors are kept, they are told the same of what is kept.
pub proof fn law_silence_is_told(
    before: HostView,
    timeout_seconds: u64,
    policy: HeartbeatPolicy,
    now: u64,
    ids: Seq<u32>,
    outcome: HeartbeatOutcome,
    i: int,
)
    requires
        lists_keys(ids, before.vms),
        outcome.covers(ids, before, timeout_seconds, policy, now),
    ensures
        0 <= i < outcome.removals@.len() ==> {
            let notice = outcome.removals@[i];
            let vm = before.vms[notice.vmid];
            &&& notice.event.text() == "vm_offline"@
            &&& before.vms.contains_key(notice.vmid)
            &&& notice.hwmon_name@ == vm.hwmon_name
            &&& notice.hwmon_path@ == vm.hwmon_path
            &&& notice.sensor_count == vm.sensor_count
        },
        0 <= i < outcome.preserves@.len() ==> {
            let plan = outcome.preserves@[i];
            let vm = before.vms[plan.vmid];
            &&& plan.event.text() == "vm_offline"@
            &&& before.vms.contains_key(plan.vmid)
            &&& plan.generation == vm.generation
            &&& plan.hwmon_name@ == vm.hwmon_name
            &&& plan.persistent_sensors@.len() == vm.persistent_sensors.len()
        },
{
    if 0 <= i < outcome.preserves@.len() {
        let plan = outcome.preserves@[i];
        assert(plan.keeps(plan.vmid, before.vms[plan.vmid]));
        assert(plan.persistent_sensors@.len() == persistent_views(
            plan.persistent_sensors@,
        ).len());
    }
}

// ── Schemas ──────────────────────────────────────────────────────────────────

/// A list of sensors is refused exactly where it holds more than 128 of them or
/// a persistent one without a default value, and then changes nothing.
pub proof fn law_schema_refused_iff_unsound(
    before: HostView,
    vmid: u32,
    generation: u64,
    sensors: Seq<DescriptorView>,
    now: u64,
    step: Result<SchemaStep, HostError>,
    after: HostView,
)
    requires
        schema_outcome(before, vmid, generation, sensors, now, step, after),
    ensures
        step is Err ==> after == before,
        step is Err <==> sensors.len() > 128 || exists|i: int|
            0 <= i < sensors.len() && (#[trigger] sensors[i]).persistent && sensors[i].default_value
                is None,
        step matches Err(error) ==> (error == HostError::TooManySensors <==> sensors.len() > 128),
        step matches Err(error) ==> (error == HostError::MissingDefaultValue <==> sensors.len()
            <= 128),
{
}

proof fn lemma_persistent_of(sensors: Seq<DescriptorView>)
    ensures
        persistent_of(sensors) == sensors.filter(
            |sensor: DescriptorView| sensor.persistent,
        ).map_values(|sensor: DescriptorView| (sensor, sensor.default_value.unwrap())),
    decreases sensors.len(),
{
    let stays = |sensor: DescriptorView| sensor.persistent;
    let with_default = |sensor: DescriptorView| (sensor, sensor.default_value.unwrap());
    if sensors.len() == 0 {
        lemma_filter_none(sensors, stays);
    } else {
        lemma_persistent_of(sensors.drop_last());
        lemma_filter_last(sensors, stays);
    }
    assert(persistent_of(sensors) =~= sensors.filter(stays).map_values(with_default));
}

/// Of a schema exactly the persistent sensors are kept for the time when the
/// agent is away, each with its own default value, in the order of the schema.
pub proof fn law_persistent_sensors_are_kept(
    before: HostView,
    vmid: u32,
    generation: u64,
    sensors: Seq<DescriptorView>,
    pending: PendingSchema,
    planned: HostView,
    hwmon_path: Seq<char>,
    now: u64,
    k: int,
)
    requires
        schema_outcome(
            before,
            vmid,
            generation,
            sensors,
            now,
            Ok(SchemaStep::Register(pending)),
            planned,
        ),
    ensures
        ({
            let stays = |sensor: DescriptorView| sensor.persistent;
            let vm = committed(planned, pending, hwmon_path, now).vms[vmid];
            let place = sensors.take(k).filter(stays).len() as int;
            &&& vm.persistent_sensors.len() == sensors.filter(stays).len()
            &&& 0 <= k < sensors.len() && sensors[k].persistent ==> place
                < vm.persistent_sensors.len() && vm.persistent_sensors[place].0 == sensors[k]
                && sensors[k].default_value == Some(vm.persistent_sensors[place].1)
        }),
{
    let stays = |sensor: DescriptorView| sensor.persistent;
    lemma_persistent_of(sensors);
    if 0 <= k < sensors.len() && sensors[k].persistent {
        lemma_filter_place(sensors, stays, k);
    }
}

proof fn lemma_registered_keys(sensors: Seq<DescriptorView>, id: Seq<char>)
    ensures
        id_numbers(sensors).contains_key(id) <==> exists|i: int|
            0 <= i < sensors.len() && (#[trigger] sensors[i]).id == id,
        signature_map(sensors).contains_key(id) <==> exists|i: int|
            0 <= i < sensors.len() && (#[trigger] sensors[i]).id == id,
        attribute_map(sensors).contains_key(id) <==> exists|i: int|
            0 <= i < sensors.len() && (#[trigger] sensors[i]).id == id,
    decreases sensors.len(),
{
    if sensors.len() > 0 {
        let before = sensors.drop_last();
        lemma_registered_keys(before, id);
        if exists|i: int| 0 <= i < before.len() && (#[trigger] before[i]).id == id {
            let i = choose|i: int| 0 <= i < before.len() && (#[trigger] before[i]).id == id;
            assert(sensors[i].id == id);
        }
        if exists|i: int| 0 <= i < sensors.len() && (#[trigger] sensors[i]).id == id {
            let i = choose|i: int| 0 <= i < sensors.len() && (#[trigger] sensors[i]).id == id;
            if i < before.len() {
                assert(before[i].id == id);
            }
        }
        assert(sensors[sensors.len() - 1] == sensors.last());
    }
}

/// Whether no two sensors share an identifier.
pub open spec fn own_ids(sensors: Seq<DescriptorView>) -> bool {
    forall|a: int, b: int|
        0 <= a < b < sensors.len() ==> (#[trigger] sensors[a]).id != (#[trigger] sensors[b]).id
}

/// Once the kernel has taken a schema, a reading in a sample of its generation
/// reaches the sensor that the kernel knows by the same identifier, and nothing
/// else is told to the kernel than such readings.
pub proof fn law_reading_reaches_its_sensor(
    before: HostView,
    vmid: u32,
    generation: u64,
    sensors: Seq<DescriptorView>,
    pending: PendingSchema,
    planned: HostView,
    hwmon_path: Seq<char>,
    now: u64,
    values: Seq<(Seq<char>, i64)>,
    result: Result<Option<VsbValues>, HostError>,
    k: int,
    i: int,
)
    requires
        schema_outcome(
            before,
            vmid,
            generation,
            sensors,
            now,
            Ok(SchemaStep::Register(pending)),
            planned,
        ),
        own_ids(sensors),
        sample_outcome(
            committed(planned, pending, hwmon_path, now),
            vmid,
            generation,
            values,
            result,
        ),
        values.len() <= 128,
        0 <= k < values.len(),
        0 <= i < sensors.len(),
        values[k].0 == sensors[i].id,
    ensures
        result matches Ok(Some(payload)) && exists|j: int|
            0 <= j < payload.value_count && (#[trigger] payload.values@[j]).id
                == pending.schema.sensors@[i].id && payload.values@[j].value == values[k].1,
{
    let after = committed(planned, pending, hwmon_path, now);
    let ids = after.vms[vmid].sensor_ids;
    let known = |reading: (Seq<char>, i64)| ids.contains_key(reading.0);
    law_each_sensor_registered(sensors, i);
    law_sample_reaches_the_kernel(after, vmid, generation, values, result);
    assert(ids.contains_key(values[k].0));
    assert(describes(pending.schema.sensors@[i], sensors, i));
    if let Ok(Some(payload)) = result {
        let place = values.take(k).filter(known).len() as int;
        assert(payload.values@[place].id == pending.schema.sensors@[i].id);
    }
}

/// What the kernel has taken is no news: where the same sensors come again, it
/// is not bothered, and nobody is told.
pub proof fn law_same_schema_is_no_news(
    before: HostView,
    vmid: u32,
    generation: u64,
    sensors: Seq<DescriptorView>,
    pending: PendingSchema,
    planned: HostView,
    hwmon_path: Seq<char>,
    now: u64,
    later_generation: u64,
    later: u64,
    step: Result<SchemaStep, HostError>,
    after: HostView,
)
    requires
        schema_outcome(
            before,
            vmid,
            generation,
            sensors,
            now,
            Ok(SchemaStep::Register(pending)),
            planned,
        ),
        schema_outcome(
            committed(planned, pending, hwmon_path, now),
            vmid,
            later_generation,
            sensors,
            later,
            step,
            after,
        ),
        is_accepted(step),
    ensures
        step matches Ok(SchemaStep::Unchanged),
        after.vms[vmid].generation == later_generation,
        after.vms[vmid].last_seen == later,
        after.vms[vmid].hwmon_name == pending.hwmon_name@,
        after.vms[vmid].hwmon_path == hwmon_path,
        after.vms[vmid].sensor_ids == pending.sensor_ids@,
        !lacks_schema(after, vmid),
{
}

/// Nothing but what the kernel has taken is no news: a schema that it is not
/// bothered with lists the same sensors, with the same kinds and labels, in the
/// same order, and keeps the same ones for the time when the agent is away.
pub proof fn law_no_news_is_the_same_schema(
    before: HostView,
    vmid: u32,
    generation: u64,
    sensors: Seq<DescriptorView>,
    pending: PendingSchema,
    planned: HostView,
    hwmon_path: Seq<char>,
    now: u64,
    others: Seq<DescriptorView>,
    later_generation: u64,
    later: u64,
    step: Result<SchemaStep, HostError>,
    after: HostView,
    i: int,
)
    requires
        schema_outcome(
            before,
            vmid,
            generation,
            sensors,
            now,
            Ok(SchemaStep::Register(pending)),
            planned,
        ),
        own_ids(sensors),
        own_ids(others),
        schema_outcome(
            committed(planned, pending, hwmon_path, now),
            vmid,
            later_generation,
            others,
            later,
            step,
            after,
        ),
        step matches Ok(SchemaStep::Unchanged),
    ensures
        others.len() == sensors.len(),
        0 <= i < sensors.len() ==> {
            &&& others[i].id == sensors[i].id
            &&& others[i].kind == sensors[i].kind
            &&& others[i].label == sensors[i].label
            &&& others[i].persistent == sensors[i].persistent
            &&& sensors[i].persistent ==> others[i].default_value == sensors[i].default_value
        },
{
    lemma_same_numbers(sensors, others);
    if 0 <= i < sensors.len() {
        law_each_sensor_registered(sensors, i);
        law_each_sensor_registered(others, i);
        lemma_same_persistent(sensors, others, i);
        lemma_same_persistent(others, sensors, i);
    }
}

proof fn lemma_same_persistent(a: Seq<DescriptorView>, b: Seq<DescriptorView>, i: int)
    requires
        persistent_of(a) == persistent_of(b),
        own_ids(b),
        a.len() == b.len(),
        0 <= i < a.len(),
        a[i].id == b[i].id,
    ensures
        a[i].persistent ==> b[i] == a[i],
{
    let stays = |sensor: DescriptorView| sensor.persistent;
    lemma_persistent_of(a);
    lemma_persistent_of(b);
    if a[i].persistent {
        let place = a.take(i).filter(stays).len() as int;
        lemma_filter_place(a, stays, i);
        assert(persistent_of(a).len() == a.filter(stays).len());
        assert(persistent_of(b).len() == b.filter(stays).len());
        assert(persistent_of(a)[place].0 == a[i]);
        assert(persistent_of(b)[place].0 == b.filter(stays)[place]);
        assert(b.filter(stays).contains(a[i]));
        lemma_filter_member(b, stays, a[i]);
        let j = choose|j: int| 0 <= j < b.len() && b[j] == a[i];
        if j < i {
            assert(b[j].id != b[i].id);
        } else if i < j {
            assert(b[i].id != b[j].id);
        }
    }
}

proof fn lemma_same_numbers(a: Seq<DescriptorView>, b: Seq<DescriptorView>)
    requires
        own_ids(a),
        own_ids(b),
        a.len() <= 128,
        b.len() <= 128,
        id_numbers(a) == id_numbers(b),
    ensures
        a.len() == b.len(),
        forall|i: int| 0 <= i < a.len() ==> (#[trigger] a[i]).id == b[i].id,
{
    assert forall|i: int| 0 <= i < a.len() implies i < b.len() && (#[trigger] a[i]).id
        == b[i].id by {
        lemma_same_place(a, b, i);
    }
    if a.len() < b.len() {
        lemma_same_place(b, a, a.len() as int);
    }
    if b.len() < a.len() {
        lemma_same_place(a, b, b.len() as int);
    }
}

proof fn lemma_same_place(a: Seq<DescriptorView>, b: Seq<DescriptorView>, i: int)
    requires
        own_ids(a),
        own_ids(b),
        a.len() <= 128,
        b.len() <= 128,
        id_numbers(a) == id_numbers(b),
        0 <= i < a.len(),
    ensures
        i < b.len(),
        a[i].id == b[i].id,
{
    law_each_sensor_registered(a, i);
    lemma_registered_keys(b, a[i].id);
    let j = choose|j: int| 0 <= j < b.len() && (#[trigger] b[j]).id == a[i].id;
    law_each_sensor_registered(b, j);
}

/// What the kernel is told of a sensor: its place in the list, its kind, its
/// label, and a channel that counts the sensors of its kind before it, from zero
/// for voltages and from one for everything else.
pub proof fn law_kernel_gets_each_sensor(
    schema: VsbSchema,
    vmid: u32,
    hwmon_name: Option<Seq<char>>,
    sensors: Seq<DescriptorView>,
    i: int,
)
    requires
        is_schema_of(schema, vmid, hwmon_name, sensors),
        0 <= i < sensors.len(),
    ensures
        ({
            let desc = schema.sensors@[i];
            let kind = sensors[i].kind;
            let label = encode_utf8(sensors[i].label);
            let alike = sensors.take(i).filter(|sensor: DescriptorView| sensor.kind == kind).len();
            &&& schema.vmid == vmid
            &&& schema.sensor_count == sensors.len()
            &&& desc.id == i + 1
            &&& kind == SensorKind::Temperature ==> desc.kind == 1
            &&& kind == SensorKind::Fan ==> desc.kind == 2
            &&& kind == SensorKind::Voltage ==> desc.kind == 3
            &&& kind == SensorKind::Current ==> desc.kind == 4
            &&& kind == SensorKind::Power ==> desc.kind == 5
            &&& kind == SensorKind::Voltage ==> desc.channel == alike
            &&& kind != SensorKind::Voltage ==> desc.channel == alike + 1
            &&& forall|b: int|
                0 <= b < 129 ==> #[trigger] desc.label@[b] == (if b < label.len() && b < 128 {
                    label[b]
                } else {
                    0
                })
        }),
{
    assert(describes(schema.sensors@[i], sensors, i));
    lemma_occurrences(sensors, i, sensors[i].kind);
}

proof fn lemma_occurrences(sensors: Seq<DescriptorView>, n: int, kind: SensorKind)
    requires
        0 <= n <= sensors.len(),
    ensures
        occurrences(kinds_of(sensors).take(n), kind) == sensors.take(n).filter(
            |sensor: DescriptorView| sensor.kind == kind,
        ).len(),
    decreases n,
{
    let alike = |sensor: DescriptorView| sensor.kind == kind;
    if n == 0 {
        lemma_filter_none(sensors.take(0), alike);
    } else {
        lemma_occurrences(sensors, n - 1, kind);
        lemma_filter_take(sensors, alike, n - 1);
        assert(kinds_of(sensors).take(n).drop_last() =~= kinds_of(sensors).take(n - 1));
        assert(kinds_of(sensors).take(n).last() == sensors[n - 1].kind);
    }
}

/// The kernel is told the name that was asked for, cut to 31 bytes, or none.
pub proof fn law_kernel_gets_the_name(
    schema: VsbSchema,
    vmid: u32,
    hwmon_name: Option<Seq<char>>,
    sensors: Seq<DescriptorView>,
    b: int,
)
    requires
        is_schema_of(schema, vmid, hwmon_name, sensors),
        0 <= b < 32,
    ensures
        schema.hwmon_name@[b] == (match hwmon_name {
            Some(name) if b < encode_utf8(name).len() && b < 31 => encode_utf8(name)[b],
            _ => 0,
        }),
{
}

/// A device has the name that the agent of its VM last asked for; where it asked
/// for none, one that is made of the number of the VM.
pub proof fn law_device_has_the_name_asked_for(
    state: HostView,
    vmid: u32,
    hwmon_name: Option<Seq<char>>,
    generation: u64,
    sensors: Seq<DescriptorView>,
    now: u64,
    pending: PendingSchema,
    planned: HostView,
)
    requires
        schema_outcome(
            greeted(state, vmid, hwmon_name),
            vmid,
            generation,
            sensors,
            now,
            Ok(SchemaStep::Register(pending)),
            planned,
        ),
    ensures
        pending.hwmon_name@ == (match hwmon_name {
            Some(name) => name,
            None => "vsb_vm_"@ + decimal(vmid as nat),
        }),
        is_schema_of(pending.schema, vmid, hwmon_name, sensors),
        pending.vmid == vmid,
        pending.generation == generation,
        pending.sensor_count == sensors.len(),
{
}

/// A registered sensor is known by its identifier: to the kernel by its place,
/// to users by its kind and label and by an attribute of its own.
pub proof fn law_sensor_is_known_by_its_id(
    before: HostView,
    vmid: u32,
    generation: u64,
    sensors: Seq<DescriptorView>,
    now: u64,
    pending: PendingSchema,
    planned: HostView,
    hwmon_path: Seq<char>,
    id: Seq<char>,
)
    requires
        schema_outcome(
            before,
            vmid,
            generation,
            sensors,
            now,
            Ok(SchemaStep::Register(pending)),
            planned,
        ),
        own_ids(sensors),
    ensures
        ({
            let vm = committed(planned, pending, hwmon_path, now).vms[vmid];
            let listed = exists|i: int| 0 <= i < sensors.len() && (#[trigger] sensors[i]).id == id;
            &&& vm.sensor_ids.contains_key(id) <==> listed
            &&& vm.signatures.contains_key(id) <==> listed
            &&& vm.sensor_attrs.contains_key(id) <==> listed
            &&& forall|i: int|
                0 <= i < sensors.len() && (#[trigger] sensors[i]).id == id ==> vm.sensor_ids[id] == i
                    + 1 && vm.signatures[id] == (sensors[i].kind, sensors[i].label)
                    && vm.sensor_attrs[id] == prefix_of(sensors[i].kind) + decimal(
                    pending.schema.sensors@[i].channel as nat,
                ) + "_input"@
            &&& vm.schema_synced && vm.heard && !vm.offline_reported
            &&& vm.last_seen == now
            &&& vm.hwmon_path == hwmon_path
        }),
{
    lemma_registered_keys(sensors, id);
    assert forall|i: int|
        0 <= i < sensors.len() && (#[trigger] sensors[i]).id
            == id implies id_numbers(sensors)[id] == i + 1 && signature_map(sensors)[id] == (
        sensors[i].kind,
        sensors[i].label,
    ) && attribute_map(sensors)[id] == prefix_of(sensors[i].kind) + decimal(
        pending.schema.sensors@[i].channel as nat,
    ) + "_input"@ by {
        law_each_sensor_registered(sensors, i);
        assert(describes(pending.schema.sensors@[i], sensors, i));
    }
}

/// The letters that the attributes of a kind begin with.
pub open spec fn prefix_of(kind: SensorKind) -> Seq<char> {
    if kind == SensorKind::Temperature {
        "temp"@
    } else if kind == SensorKind::Fan {
        "fan"@
    } else if kind == SensorKind::Voltage {
        "in"@
    } else if kind == SensorKind::Current {
        "curr"@
    } else {
        "power"@
    }
}

// ── Events ───────────────────────────────────────────────────────────────────

/// Whether `id` is the identifier of one of some sensors.
pub open spec fn listed(sensors: Seq<DescriptorView>, id: Seq<char>) -> bool {
    exists|i: int| 0 <= i < sensors.len() && (#[trigger] sensors[i]).id == id
}

proof fn lemma_event_names()
    ensures
        "device_created"@ != "sensor_added"@,
        "device_created"@ != "sensor_changed"@,
        "device_created"@ != "sensor_removed"@,
        "sensor_added"@ != "sensor_changed"@,
        "sensor_added"@ != "sensor_removed"@,
        "sensor_changed"@ != "sensor_removed"@,
{
    reveal_strlit("device_created");
    reveal_strlit("sensor_added");
    reveal_strlit("sensor_changed");
    reveal_strlit("sensor_removed");
    assert("device_created"@[0] != "sensor_added"@[0]);
    assert("device_created"@[0] != "sensor_changed"@[0]);
    assert("device_created"@[0] != "sensor_removed"@[0]);
    assert("sensor_added"@[7] != "sensor_changed"@[7]);
    assert("sensor_added"@[7] != "sensor_removed"@[7]);
    assert("sensor_changed"@[7] != "sensor_removed"@[7]);
}

/// The events of a VM that was not known, and of one whose sensors changed:
/// that a sensor is new, that one is gone, that one has another kind or label.
pub proof fn law_events_say_what_changed(
    sensors: Seq<DescriptorView>,
    others: Seq<DescriptorView>,
)
    requires
        own_ids(sensors),
        own_ids(others),
        sensors.len() <= 128,
        others.len() <= 128,
    ensures
        expected_events(None, signature_map(others)) == seq!["device_created"@],
        ({
            let events = expected_events(Some(signature_map(sensors)), signature_map(others));
            &&& !events.contains("device_created"@)
            &&& events.contains("sensor_added"@) <==> exists|j: int|
                0 <= j < others.len() && !listed(sensors, (#[trigger] others[j]).id)
            &&& events.contains("sensor_removed"@) <==> exists|i: int|
                0 <= i < sensors.len() && !listed(others, (#[trigger] sensors[i]).id)
            &&& events.contains("sensor_changed"@) <==> exists|i: int, j: int|
                0 <= i < sensors.len() && 0 <= j < others.len() && (#[trigger] sensors[i]).id == (
                #[trigger] others[j]).id && (sensors[i].kind != others[j].kind || sensors[i].label
                    != others[j].label)
        }),
{
    let prior = signature_map(sensors);
    let current = signature_map(others);
    let events = expected_events(Some(prior), current);
    lemma_event_names();
    let a = some_added(prior, current);
    let c = some_changed(prior, current);
    let r = some_removed(prior, current);
    let n: int = if a {
        1
    } else {
        0
    };
    let m: int = if c {
        n + 1
    } else {
        n
    };
    assert(a ==> events[0] == "sensor_added"@);
    assert(c ==> events[n] == "sensor_changed"@);
    assert(r ==> events[m] == "sensor_removed"@);
    if a {
        let id = choose|id: Seq<char>| #[trigger] current.contains_key(id) && !prior.contains_key(id);
        lemma_registered_keys(others, id);
        lemma_registered_keys(sensors, id);
        let j = choose|j: int| 0 <= j < others.len() && (#[trigger] others[j]).id == id;
        assert(!listed(sensors, others[j].id));
    }
    if exists|j: int| 0 <= j < others.len() && !listed(sensors, (#[trigger] others[j]).id) {
        let j = choose|j: int| 0 <= j < others.len() && !listed(sensors, (#[trigger] others[j]).id);
        lemma_registered_keys(others, others[j].id);
        lemma_registered_keys(sensors, others[j].id);
        assert(current.contains_key(others[j].id));
    }
    if r {
        let id = choose|id: Seq<char>| #[trigger] prior.contains_key(id) && !current.contains_key(id);
        lemma_registered_keys(others, id);
        lemma_registered_keys(sensors, id);
        let i = choose|i: int| 0 <= i < sensors.len() && (#[trigger] sensors[i]).id == id;
        assert(!listed(others, sensors[i].id));
    }
    if exists|i: int| 0 <= i < sensors.len() && !listed(others, (#[trigger] sensors[i]).id) {
        let i = choose|i: int| 0 <= i < sensors.len() && !listed(others, (#[trigger] sensors[i]).id);
        lemma_registered_keys(others, sensors[i].id);
        lemma_registered_keys(sensors, sensors[i].id);
        assert(prior.contains_key(sensors[i].id));
    }
    if c {
        let id = choose|id: Seq<char>| #[trigger]
            current.contains_key(id) && prior.contains_key(id) && prior[id] != current[id];
        lemma_registered_keys(others, id);
        lemma_registered_keys(sensors, id);
        let i = choose|i: int| 0 <= i < sensors.len() && (#[trigger] sensors[i]).id == id;
        let j = choose|j: int| 0 <= j < others.len() && (#[trigger] others[j]).id == id;
        law_each_sensor_registered(sensors, i);
        law_each_sensor_registered(others, j);
        assert(sensors[i].id == others[j].id);
    }
    if exists|i: int, j: int|
        0 <= i < sensors.len() && 0 <= j < others.len() && (#[trigger] sensors[i]).id == (
        #[trigger] others[j]).id && (sensors[i].kind != others[j].kind || sensors[i].label
            != others[j].label) {
        let (i, j) = choose|i: int, j: int|
            0 <= i < sensors.len() && 0 <= j < others.len() && (#[trigger] sensors[i]).id == (
            #[trigger] others[j]).id && (sensors[i].kind != others[j].kind || sensors[i].label
                != others[j].label);
        law_each_sensor_registered(sensors, i);
        law_each_sensor_registered(others, j);
        assert(current.contains_key(others[j].id));
    }
}

/// Hooks are told of a schema where it changed what sensors there are, and only
/// then: of a VM that was not known always, of a known one where a sensor came,
/// went or changed. They are told all of that, and nothing else.
pub proof fn law_schema_events(
    before: HostView,
    vmid: u32,
    generation: u64,
    sensors: Seq<DescriptorView>,
    now: u64,
    pending: PendingSchema,
    planned: HostView,
)
    requires
        schema_outcome(
            before,
            vmid,
            generation,
            sensors,
            now,
            Ok(SchemaStep::Register(pending)),
            planned,
        ),
    ensures
        !before.vms.contains_key(vmid) ==> texts(pending.events@) == seq!["device_created"@],
        before.vms.contains_key(vmid) ==> texts(pending.events@) == expected_events(
            Some(before.vms[vmid].signatures),
            signature_map(sensors),
        ),
        before.vms.contains_key(vmid) ==> (pending.events@.len() == 0
            <==> before.vms[vmid].signatures == signature_map(sensors)),
{
    if before.vms.contains_key(vmid) {
        law_no_event_iff_same_sensors(before.vms[vmid].signatures, signature_map(sensors));
        assert(texts(pending.events@).len() == pending.events@.len());
    }
}

// ── Away ─────────────────────────────────────────────────────────────────────

/// While an agent is away its device shows its persistent sensors and no others,
/// each under its place in the list and at its own default value.
pub proof fn law_defaults_are_shown(
    plan: DefaultsPlan,
    vmid: u32,
    generation: u64,
    hwmon_name: Seq<char>,
    persistent: Seq<(DescriptorView, i64)>,
    i: int,
)
    requires
        plan.stands_for(vmid, generation, hwmon_name, persistent),
    ensures
        plan.vmid == vmid,
        plan.generation == generation,
        plan.hwmon_name@ == hwmon_name,
        plan.schema.vmid == vmid,
        plan.schema.sensor_count == persistent.len(),
        plan.values.vmid == vmid,
        plan.values.value_count == persistent.len(),
        persistent_views(plan.persistent_sensors@) == persistent,
        0 <= i < persistent.len() ==> {
            &&& plan.schema.sensors@[i].id == i + 1
            &&& plan.values.values@[i].id == plan.schema.sensors@[i].id
            &&& plan.values.values@[i].value == persistent[i].1
            &&& plan.schema.sensors@[i].kind == kind_number(persistent[i].0.kind)
            &&& plan.schema.sensors@[i].label@ == padded(encode_utf8(persistent[i].0.label), 129)
        },
        plan.schema.hwmon_name@ == padded(encode_utf8(hwmon_name), 32),
{
    let sensors = descriptors_of(persistent);
    if 0 <= i < persistent.len() {
        assert(describes(plan.schema.sensors@[i], sensors, i));
        assert(sensors[i] == persistent[i].0);
        assert(default_readings(persistent)[i] == ((i + 1) as u32, persistent[i].1));
        assert(plan.values.values@[i].id == default_readings(persistent)[i].0);
    }
}

/// What is known of a VM whose agent is away: its persistent sensors, by their
/// identifiers. It was last heard of when its last message came, has been
/// reported, and is asked for its schema once its agent is back.
pub proof fn law_vm_without_its_agent(
    prior: Option<VmView>,
    generation: u64,
    hwmon_name: Seq<char>,
    persistent: Seq<(DescriptorView, i64)>,
    hwmon_path: Seq<char>,
    now: u64,
    i: int,
)
    requires
        persistent.len() <= 128,
        own_ids(descriptors_of(persistent)),
        0 <= i < persistent.len(),
    ensures
        ({
            let vm = defaults_vm(prior, generation, hwmon_name, persistent, hwmon_path, now);
            let id = persistent[i].0.id;
            &&& vm.generation == generation
            &&& vm.persistent_sensors == persistent
            &&& vm.sensor_count == persistent.len()
            &&& vm.hwmon_name == hwmon_name
            &&& vm.hwmon_path == hwmon_path
            &&& vm.offline_reported
            &&& !vm.schema_synced
            &&& prior matches Some(known) ==> vm.last_seen == known.last_seen && vm.heard
                == known.heard
            &&& prior is None ==> vm.last_seen == now && !vm.heard
            &&& vm.sensor_ids.contains_key(id) && vm.sensor_ids[id] == i + 1
            &&& vm.signatures.contains_key(id) && vm.signatures[id] == (
                persistent[i].0.kind,
                persistent[i].0.label,
            )
            &&& vm.sensor_attrs.contains_key(id)
        }),
{
    let sensors = descriptors_of(persistent);
    assert(sensors[i] == persistent[i].0);
    law_each_sensor_registered(sensors, i);
}

/// A VM that leaves is forgotten, and its device removed, unless it has
/// persistent sensors; then it stays, and its device goes to their defaults.
/// Either way hooks are told that the device is removed, and no other VM is
/// touched.
pub proof fn law_departure(
    before: HostView,
    vmid: u32,
    departure: Departure,
    after: HostView,
    other: u32,
)
    requires
        departure_outcome(before, vmid, departure, after),
    ensures
        ({
            let stays = before.vms.contains_key(vmid) && before.vms[vmid].persistent_sensors.len()
                > 0;
            &&& departure is Preserve <==> stays
            &&& after.vms.contains_key(vmid) <==> stays
            &&& stays ==> after.vms[vmid] == (VmView {
                offline_reported: true,
                ..before.vms[vmid]
            })
            &&& stays ==> lookup(after.hwmon_names, vmid) == lookup(before.hwmon_names, vmid)
            &&& !stays ==> !after.hwmon_names.contains_key(vmid)
            &&& departure matches Departure::Preserve(plan) ==> plan.event.text()
                == "device_removed"@ && plan.stands_for(
                vmid,
                before.vms[vmid].generation,
                before.vms[vmid].hwmon_name,
                before.vms[vmid].persistent_sensors,
            )
            &&& departure matches Departure::Remove(notice) ==> notice.vmid == vmid
                && notice.event.text() == "device_removed"@ && notice.sensor_count == 0
            &&& departure matches Departure::Remove(notice) ==> before.vms.contains_key(vmid)
                ==> notice.hwmon_name@ == before.vms[vmid].hwmon_name && notice.hwmon_path@
                == before.vms[vmid].hwmon_path
            &&& departure matches Departure::Remove(notice) ==> !before.vms.contains_key(vmid)
                ==> notice.hwmon_name@ == "vsb_vm_"@ + decimal(vmid as nat)
                && notice.hwmon_path@.len() == 0
        }),
        other != vmid ==> lookup(after.vms, other) == lookup(before.vms, other) && lookup(
            after.hwmon_names,
            other,
        ) == lookup(before.hwmon_names, other),
        lookup(after.schema_rate, other) == lookup(before.schema_rate, other),
{
}

// ── Messages ─────────────────────────────────────────────────────────────────

/// Whatever a message is, it touches no other VM than the one that it is from.
pub proof fn law_message_touches_its_vm_only(
    before: HostView,
    vmid: u32,
    message: Message,
    now: u64,
    result: Result<HostAction, HostError>,
    after: HostView,
    other: u32,
)
    requires
        message_outcome(before, vmid, message, now, result, after),
        other != vmid,
    ensures
        lookup(after.vms, other) == lookup(before.vms, other),
        lookup(after.hwmon_names, other) == lookup(before.hwmon_names, other),
        lookup(after.schema_rate, other) == lookup(before.schema_rate, other),
        lookup(seen(before, vmid, now).vms, other) == lookup(before.vms, other),
        seen(before, vmid, now).hwmon_names == before.hwmon_names,
        seen(before, vmid, now).schema_rate == before.schema_rate,
{
}

/// What each kind of message leads to: only a schema changes which sensors there
/// are, only a sample hands values to the kernel, only a goodbye lets a VM go,
/// and only a hello changes its name; a heartbeat does nothing but be heard.
pub proof fn law_what_messages_lead_to(
    before: HostView,
    vmid: u32,
    message: Message,
    now: u64,
    result: Result<HostAction, HostError>,
    after: HostView,
)
    requires
        message_outcome(before, vmid, message, now, result, after),
    ensures
        result matches Ok(HostAction::Depart(_)) ==> message is Goodbye,
        message is Goodbye ==> result matches Ok(HostAction::Depart(_)),
        result matches Ok(HostAction::SetValues(_)) ==> message is Sample,
        result matches Ok(HostAction::Schema(_)) ==> message is Schema,
        message is Schema ==> result is Err || result matches Ok(HostAction::Schema(_)),
        message is Sample || message is Heartbeat || message is RequestResync ==> after == before,
        message is Heartbeat || message is RequestResync || message is Hello ==> result matches Ok(
            HostAction::Nothing,
        ),
        message is Hello || message is Schema || message is Sample ==> after.vms.contains_key(vmid)
            == before.vms.contains_key(vmid),
        message matches Message::Hello { hwmon_name, .. } ==> after.vms == before.vms && lookup(
            after.hwmon_names,
            vmid,
        ) == optional_text(hwmon_name),
        message is Schema ==> after.hwmon_names == before.hwmon_names,
        message matches Message::Sample { generation, values } ==> before.vms.contains_key(vmid)
            && before.vms[vmid].generation == generation && values@.len() <= 128 ==> (result
            matches Ok(HostAction::SetValues(_))),
{
    if let Message::Sample { generation, values } = message {
        assert(value_views(values@).len() == values@.len());
    }
}

/// A message makes its VM heard of: it is then last seen at that moment, not
/// reported to be away, and nothing else of it changes.
pub proof fn law_message_is_noted(state: HostView, vmid: u32, now: u64)
    ensures
        state.vms.contains_key(vmid) <==> seen(state, vmid, now).vms.contains_key(vmid),
        state.vms.contains_key(vmid) ==> seen(state, vmid, now).vms[vmid] == (VmView {
            last_seen: now,
            heard: true,
            offline_reported: false,
            ..state.vms[vmid]
        }),
{
}

/// The agent of a VM is asked for its schema where none of a live agent is known
/// and at least five seconds have passed since it was last asked, and otherwise
/// not.
pub proof fn law_resync_is_asked_for(state: HostView, vmid: u32, last_sent: u64, now: u64)
    requires
        last_sent <= now,
    ensures
        lacks_schema(state, vmid) <==> !state.vms.contains_key(vmid)
            || !state.vms[vmid].schema_synced,
        resync_due(state, vmid, last_sent, now) == ResyncStep::Wait <==> now - last_sent
            < 5_000_000_000,
        resync_due(state, vmid, last_sent, now) == ResyncStep::Request <==> now - last_sent
            >= 5_000_000_000 && (!state.vms.contains_key(vmid) || !state.vms[vmid].schema_synced),
{
}

// ── Reports ──────────────────────────────────────────────────────────────────

/// A VM is reported as it is: online where a message of its agent came and is
/// younger than the timeout, with the time since that message.
pub proof fn law_vm_is_reported_as_it_is(
    info: VmInfo,
    vmid: u32,
    vm: VmView,
    readings: Map<Seq<char>, Seq<char>>,
    timeout_seconds: u64,
    now: u64,
)
    requires
        reports_vm(info, vmid, vm, readings, timeout_seconds, now),
        vm.last_seen <= now,
    ensures
        info.vmid == vmid,
        info.hwmon_name@ == vm.hwmon_name,
        info.hwmon_path@ == vm.hwmon_path,
        info.generation == vm.generation,
        info.offline_reported == vm.offline_reported,
        info.last_seen_nanos_ago == now - vm.last_seen,
        info.online <==> vm.heard && now - vm.last_seen < timeout_seconds * 1_000_000_000,
{
}

/// Each sensor of a VM is reported exactly once, under its own kind, label and
/// attribute. It is reported with a value where its file could be read and holds
/// one, and as persistent where it stays while the agent is away.
pub proof fn law_each_sensor_is_reported(
    infos: Seq<SensorInfo>,
    vm: VmView,
    readings: Map<Seq<char>, Seq<char>>,
    id: Seq<char>,
)
    requires
        reports_sensors(infos, vm, readings),
    ensures
        vm.signatures.contains_key(id) <==> exists|i: int|
            0 <= i < infos.len() && (#[trigger] infos[i]).id@ == id,
        forall|i: int, j: int|
            0 <= i < infos.len() && 0 <= j < infos.len() && (#[trigger] infos[i]).id@ == id && (
            #[trigger] infos[j]).id@ == id ==> i == j,
        forall|i: int|
            0 <= i < infos.len() && (#[trigger] infos[i]).id@ == id ==> {
                let info = infos[i];
                &&& info.kind == vm.signatures[id].0
                &&& info.label@ == vm.signatures[id].1
                &&& vm.sensor_attrs.contains_key(id) ==> info.hwmon_attr@ == vm.sensor_attrs[id]
                &&& info.persistent <==> exists|k: int|
                    0 <= k < vm.persistent_sensors.len() && (
                    #[trigger] vm.persistent_sensors[k]).0.id == id
                &&& info.persistent <==> info.default_value is Some
                &&& info.default_value matches Some(value) ==> exists|k: int|
                    0 <= k < vm.persistent_sensors.len() && (
                    #[trigger] vm.persistent_sensors[k]).0.id == id && vm.persistent_sensors[k].1
                        == value
                &&& vm.sensor_attrs.contains_key(id) && vm.sensor_attrs[id].len() > 0
                    && vm.hwmon_path.len() > 0 && readings.contains_key(id) ==> info.value
                    == reading_of(readings[id])
                &&& !readings.contains_key(id) ==> info.value is None
            },
{
    lemma_default_of(vm.persistent_sensors, id);
    assert forall|i: int| 0 <= i < infos.len() && (#[trigger] infos[i]).id@ == id implies infos[i]@
        == info_of(vm, readings, id) by {}
    assert forall|i: int, j: int|
        0 <= i < infos.len() && 0 <= j < infos.len() && (#[trigger] infos[i]).id@ == id && (
        #[trigger] infos[j]).id@ == id implies i == j by {
        if i < j {
            assert(infos[i].id@ != infos[j].id@);
        } else if j < i {
            assert(infos[j].id@ != infos[i].id@);
        }
    }
}

proof fn lemma_default_of(persistent: Seq<(DescriptorView, i64)>, id: Seq<char>)
    ensures
        default_of(persistent, id) is Some <==> exists|k: int|
            0 <= k < persistent.len() && (#[trigger] persistent[k]).0.id == id,
        default_of(persistent, id) matches Some(value) ==> exists|k: int|
            0 <= k < persistent.len() && (#[trigger] persistent[k]).0.id == id && persistent[k].1
                == value,
    decreases persistent.len(),
{
    if persistent.len() > 0 {
        let rest = persistent.skip(1);
        lemma_default_of(rest, id);
        if persistent[0].0.id != id {
            if exists|k: int| 0 <= k < persistent.len() && (#[trigger] persistent[k]).0.id == id {
                let k = choose|k: int|
                    0 <= k < persistent.len() && (#[trigger] persistent[k]).0.id == id;
                assert(rest[k - 1].0.id == id);
            }
            if let Some(value) = default_of(rest, id) {
                let k = choose|k: int|
                    0 <= k < rest.len() && (#[trigger] rest[k]).0.id == id && rest[k].1 == value;
                assert(persistent[k + 1] == rest[k]);
            }
        }
    }
}

// ── Policies ─────────────────────────────────────────────────────────────────

/// Which policy a name stands for, and that the journal is told of silence under
/// each but the one that only removes.
pub proof fn law_policy_of_a_name(name: Seq<char>, vmid: u32)
    ensures
        policy_named(name) == HeartbeatPolicy::WarnOnly <==> name == "warn_only"@,
        policy_named(name) == HeartbeatPolicy::RemoveOnly <==> name == "remove_only"@,
        policy_named(name) == HeartbeatPolicy::WarnThenRemove <==> name == "warn_then_remove"@,
        warning_text(name, vmid) is None <==> name == "remove_only"@,
        name == "warn_only"@ || name == "warn_then_remove"@ ==> warning_text(name, vmid) == Some(
            "vm "@ + decimal(vmid as nat) + " heartbeat timeout"@,
        ),
{
    reveal_strlit("warn_only");
    reveal_strlit("remove_only");
    reveal_strlit("warn_then_remove");
    assert("warn_only"@[0] != "remove_only"@[0]);
    assert("warn_only"@.len() != "warn_then_remove"@.len());
    assert("remove_only"@.len() != "warn_then_remove"@.len());
}

/// Which remembered VMs are brought back.
pub proof fn law_restorable_entries(entry: CacheView)
    ensures
        restorable(entry) <==> entry.vmid > 0 && 1 <= entry.sensors.len() <= 128,
{
}

/// A number of seconds that hooks wait is kept where it is between one second
/// and five minutes, and otherwise the nearer of the two.
pub proof fn law_hook_delays_are_bounded(seconds: u64)
    ensures
        1 <= bounded_seconds(seconds) <= 300,
        1 <= seconds <= 300 ==> bounded_seconds(seconds) == seconds,
        seconds == 0 ==> bounded_seconds(seconds) == 1,
        seconds > 300 ==> bounded_seconds(seconds) == 300,
{
}

// ── Finding things ───────────────────────────────────────────────────────────

/// The device with a given name is the first whose `name` file says so, if any
/// does.
pub proof fn law_first_device_of_a_name(devices: Seq<HwmonDevice>, hwmon_name: Seq<char>)
    ensures
        match device_path(devices, hwmon_name) {
            Some(path) => exists|i: int|
                0 <= i < devices.len() && trimmed((#[trigger] devices[i]).name@) == hwmon_name
                    && devices[i].path@ == path && forall|j: int|
                    0 <= j < i ==> trimmed((#[trigger] devices[j]).name@) != hwmon_name,
            None => forall|j: int|
                0 <= j < devices.len() ==> trimmed((#[trigger] devices[j]).name@) != hwmon_name,
        },
    decreases devices.len(),
{
    if devices.len() > 0 {
        let rest = devices.skip(1);
        law_first_device_of_a_name(rest, hwmon_name);
        if trimmed(devices[0].name@) != hwmon_name {
            match device_path(rest, hwmon_name) {
                Some(path) => {
                    let i = choose|i: int|
                        0 <= i < rest.len() && trimmed((#[trigger] rest[i]).name@) == hwmon_name
                            && rest[i].path@ == path && forall|j: int|
                            0 <= j < i ==> trimmed((#[trigger] rest[j]).name@) != hwmon_name;
                    assert(devices[i + 1] == rest[i]);
                    assert forall|j: int| 0 <= j < i + 1 implies trimmed(
                        (#[trigger] devices[j]).name@,
                    ) != hwmon_name by {
                        if j > 0 {
                            assert(rest[j - 1] == devices[j]);
                        }
                    }
                },
                None => {
                    assert forall|j: int| 0 <= j < devices.len() implies trimmed(
                        (#[trigger] devices[j]).name@,
                    ) != hwmon_name by {
                        if j > 0 {
                            assert(rest[j - 1] == devices[j]);
                        }
                    }
                },
            }
        }
    }
}

/// Whatever stands before and behind the place of the number in a template, the
/// path with the number of a VM in that place is the socket of that VM; and no
/// path is the socket of a VM that lacks what stands before or behind it.
pub proof fn law_socket_of_a_vm(prefix: Seq<char>, suffix: Seq<char>, vmid: u32, path: Seq<char>)
    requires
        split_pair(prefix + "{vmid}"@ + suffix, "{vmid}"@) == Some((prefix, suffix)),
    ensures
        socket_vmid(prefix + decimal(vmid as nat) + suffix, prefix + "{vmid}"@ + suffix) == Some(
            vmid,
        ),
        socket_vmid(path, prefix + "{vmid}"@ + suffix) is Some ==> path.len() >= prefix.len()
            + suffix.len() && path.take(prefix.len() as int) == prefix && path.skip(
            path.len() - suffix.len(),
        ) == suffix,
{
    let digits = decimal(vmid as nat);
    let own = prefix + digits + suffix;
    law_printed_number_reads_back(vmid as nat);
    assert(own.take(prefix.len() as int) =~= prefix);
    let rest = own.skip(prefix.len() as int);
    assert(rest =~= digits + suffix);
    assert(rest.skip(rest.len() - suffix.len()) =~= suffix);
    assert(rest.take(rest.len() - suffix.len()) =~= digits);
    if socket_vmid(path, prefix + "{vmid}"@ + suffix) is Some {
        let behind = path.skip(prefix.len() as int);
        assert(behind.skip(behind.len() - suffix.len()) =~= path.skip(path.len() - suffix.len()));
    }
}

/// A request for one VM is answered with that VM alone, if it is known; a request
/// for all with every VM that is known.
pub proof fn law_request_selects(state: HostView, vmid: u32, other: u32)
    ensures
        selected(state, request_filter(CtlRequest::GetVm { vmid }), other) <==> other == vmid
            && state.vms.contains_key(vmid),
        selected(state, request_filter(CtlRequest::ListVms), other) <==> state.vms.contains_key(
            other,
        ),
{
}

} // verus!
