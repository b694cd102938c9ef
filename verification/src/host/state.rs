//! The state of the host daemon, and how messages change it.
//!
//! Where a change needs the kernel, it comes in two steps: a plan says what to
//! hand to the kernel, and once the kernel has taken it the plan is committed.
//! Times are nanoseconds of a monotonic clock.

use crate::host::kernel::{VsbSchema, VsbSensorValue, VsbValues, VSB_MAX_SENSORS};
use crate::host::runtime::{
    attribute_map, expected_events, id_numbers, is_schema_of, persistent_views, register, same_ids,
    same_persistent, same_signatures, signature_map, topology_events, PersistentRuntimeSensor,
    Registration, Signatures, VmRuntime, VmView,
};
use crate::host::vm_map::VmMap;
use crate::id_map::IdMap;
use crate::number::{decimal, format_u64};
use crate::protocol::{
    descriptor_views, value_views, DescriptorView, SensorDescriptor, SensorValue, MAX_SENSORS,
};
use crate::seqs::{lemma_filter_last, lemma_filter_none};
use crate::text::{concat, optional_text, same, texts};
use crate::time::{elapsed, elapsed_nanos, lookup};
use vstd::prelude::*;

verus! {

// ── State ────────────────────────────────────────────────────────────────────

/// The most schemas that are accepted from one VM within one window, wherever
/// it begins.
pub const MAX_SCHEMA_UPDATES_PER_MINUTE: usize = 10;

/// How long a window lasts.
pub const SCHEMA_RATE_WINDOW_NANOS: u64 = 60_000_000_000;

/// When the last schemas of a VM were accepted.
#[derive(Debug)]
pub struct SchemaRateWindow {
    pub accepted: Vec<u64>,
}

impl View for SchemaRateWindow {
    type V = Seq<u64>;

    open spec fn view(&self) -> Seq<u64> {
        self.accepted@
    }
}

/// All that the daemon knows. The windows that limit schemas stand apart from
/// the VMs, so that they outlive the removal of a VM.
#[derive(Debug)]
pub struct HostState {
    pub vms: VmMap<VmRuntime>,
    /// The device names that agents asked for.
    pub hwmon_names: VmMap<String>,
    pub schema_rate: VmMap<SchemaRateWindow>,
}

/// All that the daemon knows, as mathematical values.
#[verifier::ext_equal]
pub struct HostView {
    pub vms: Map<u32, VmView>,
    pub hwmon_names: Map<u32, Seq<char>>,
    pub schema_rate: Map<u32, Seq<u64>>,
}

impl View for HostState {
    type V = HostView;

    open spec fn view(&self) -> HostView {
        HostView {
            vms: self.vms@,
            hwmon_names: self.hwmon_names@,
            schema_rate: self.schema_rate@,
        }
    }
}

/// Whether of no VM more schemas are remembered than may be accepted within one
/// window.
pub open spec fn few_remembered(schema_rate: Map<u32, Seq<u64>>) -> bool {
    forall|vmid: u32| #[trigger]
        schema_rate.contains_key(vmid) ==> schema_rate[vmid].len() <= MAX_SCHEMA_UPDATES_PER_MINUTE
}

impl HostView {
    /// No VM has more persistent sensors than the kernel takes, and of none are
    /// more schemas remembered than may be accepted within one window.
    pub open spec fn wf(self) -> bool {
        &&& forall|vmid: u32| #[trigger]
            self.vms.contains_key(vmid) ==> self.vms[vmid].persistent_sensors.len() <= MAX_SENSORS
        &&& few_remembered(self.schema_rate)
    }
}

/// Why the daemon refuses a message.
#[derive(Clone, Copy, Debug, PartialEq, Eq, Structural)]
pub enum HostError {
    TooManySensors,
    MissingDefaultValue,
    TooManyValues,
}

impl HostError {
    /// What the error says to a reader.
    pub open spec fn text(self) -> Seq<char> {
        match self {
            HostError::TooManySensors => "schema has too many sensors"@,
            HostError::MissingDefaultValue => "persistent sensor missing default_value"@,
            HostError::TooManyValues => "sample has too many values"@,
        }
    }

    /// What the error says to a reader.
    pub fn message(&self) -> (message: String)
        ensures
            message@ == self.text(),
    {
        match self {
            HostError::TooManySensors => "schema has too many sensors".to_string(),
            HostError::MissingDefaultValue => "persistent sensor missing default_value".to_string(),
            HostError::TooManyValues => "sample has too many values".to_string(),
        }
    }
}

/// The name of a VM's device where its agent asked for none.
pub open spec fn default_hwmon_name(vmid: u32) -> Seq<char> {
    "vsb_vm_"@ + decimal(vmid as nat)
}

/// The name of a VM's device where its agent asked for none.
pub fn make_hwmon_name(vmid: u32) -> (name: String)
    ensures
        name@ == default_hwmon_name(vmid),
{
    concat("vsb_vm_", &format_u64(vmid as u64))
}

/// Whether the daemon has no schema of `vmid` that a live agent sent.
pub open spec fn lacks_schema(state: HostView, vmid: u32) -> bool {
    match lookup(state.vms, vmid) {
        Some(vm) => !vm.schema_synced,
        None => true,
    }
}

/// The state after a message of `vmid` came.
pub open spec fn seen(state: HostView, vmid: u32, now: u64) -> HostView {
    if state.vms.contains_key(vmid) {
        HostView {
            vms: state.vms.insert(
                vmid,
                VmView {
                    last_seen: now,
                    heard: true,
                    offline_reported: false,
                    ..state.vms[vmid]
                },
            ),
            ..state
        }
    } else {
        state
    }
}

/// The state after `vmid` asked for a device name, or for none.
pub open spec fn greeted(state: HostView, vmid: u32, hwmon_name: Option<Seq<char>>) -> HostView {
    HostView {
        hwmon_names: match hwmon_name {
            Some(name) => state.hwmon_names.insert(vmid, name),
            None => state.hwmon_names.remove(vmid),
        },
        ..state
    }
}

impl HostState {
    /// The state of a daemon that knows no VM.
    pub fn new() -> (state: Self)
        ensures
            state@.wf(),
            state@.vms == Map::<u32, VmView>::empty(),
            state@.hwmon_names == Map::<u32, Seq<char>>::empty(),
            state@.schema_rate == Map::<u32, Seq<u64>>::empty(),
    {
        HostState { vms: VmMap::new(), hwmon_names: VmMap::new(), schema_rate: VmMap::new() }
    }

    /// Whether the agent of `vmid` has to send its schema: the daemon does not
    /// know the VM, or knows it from the cache only.
    pub fn needs_resync(&self, vmid: u32) -> (yes: bool)
        ensures
            yes == !(self@.vms.contains_key(vmid) && self@.vms[vmid].schema_synced),
            yes == lacks_schema(self@, vmid),
    {
        match self.vms.get(vmid) {
            Some(vm) => !vm.schema_synced,
            None => true,
        }
    }

    /// Notes that a message of `vmid` came.
    pub fn mark_seen(&mut self, vmid: u32, now: u64)
        requires
            old(self)@.wf(),
        ensures
            final(self)@.wf(),
            final(self)@ == seen(old(self)@, vmid, now),
    {
        let ghost before = self@;
        match self.vms.remove(vmid) {
            Some(vm) => {
                let mut vm = vm;
                vm.last_seen = now;
                vm.heard = true;
                vm.offline_reported = false;
                self.vms.insert(vmid, vm);
                assert(self@.vms =~= before.vms.insert(
                    vmid,
                    seen(before, vmid, now).vms[vmid],
                ));
            },
            None => {
                assert(self@.vms =~= before.vms);
            },
        }
    }

    /// Takes the device name that an agent asks for, or drops the one it asked
    /// for before.
    pub fn hello(&mut self, vmid: u32, hwmon_name: Option<String>)
        requires
            old(self)@.wf(),
        ensures
            final(self)@.wf(),
            final(self)@ == greeted(old(self)@, vmid, optional_text(hwmon_name)),
    {
        let ghost before = self@;
        match hwmon_name {
            Some(name) => {
                self.hwmon_names.insert(vmid, name);
            },
            None => {
                self.hwmon_names.remove(vmid);
            },
        }
        assert(self@.vms == before.vms);
    }
}

// ── Samples ──────────────────────────────────────────────────────────────────

/// The readings of sensors that the kernel knows, each under its number.
pub open spec fn known_readings(
    values: Seq<(Seq<char>, i64)>,
    ids: Map<Seq<char>, u32>,
) -> Seq<(u32, i64)>
    decreases values.len(),
{
    if values.len() == 0 {
        Seq::empty()
    } else {
        let before = known_readings(values.drop_last(), ids);
        if ids.contains_key(values.last().0) {
            before.push((ids[values.last().0], values.last().1))
        } else {
            before
        }
    }
}

/// Whether `payload` is what the kernel gets for the readings of a VM.
pub open spec fn is_values_of(payload: VsbValues, vmid: u32, readings: Seq<(u32, i64)>) -> bool {
    &&& payload.vmid == vmid
    &&& payload.value_count == readings.len()
    &&& readings.len() <= VSB_MAX_SENSORS
    &&& forall|i: int|
        0 <= i < readings.len() ==> {
            let value = #[trigger] payload.values@[i];
            value.id == readings[i].0 && value.reserved == 0 && value.value == readings[i].1
        }
    &&& forall|i: int|
        readings.len() <= i < VSB_MAX_SENSORS ==> (#[trigger] payload.values@[i]).blank()
}

fn kernel_values(vmid: u32, values: &[SensorValue], ids: &IdMap<u32>) -> (payload: VsbValues)
    requires
        values@.len() <= VSB_MAX_SENSORS,
    ensures
        is_values_of(payload, vmid, known_readings(value_views(values@), ids@)),
{
    let ghost all = value_views(values@);
    let mut payload = VsbValues::default();
    payload.vmid = vmid;
    let mut count: usize = 0;
    assert(all.take(0) =~= Seq::<(Seq<char>, i64)>::empty());
    for i in 0..values.len()
        invariant
            values@.len() <= VSB_MAX_SENSORS,
            all == value_views(values@),
            payload.vmid == vmid,
            payload.value_count == count,
            count <= i,
            count == known_readings(all.take(i as int), ids@).len(),
            is_values_of(payload, vmid, known_readings(all.take(i as int), ids@)),
    {
        proof {
            assert(all.take(i as int + 1).drop_last() =~= all.take(i as int));
            assert(all[i as int] == values@[i as int]@);
        }
        if let Some(id) = ids.get(&values[i].id) {
            payload.values[count] = VsbSensorValue { id: *id, reserved: 0, value: values[i].value };
            count = count + 1;
            payload.value_count = count as u32;
        }
    }
    assert(all.take(all.len() as int) =~= all);
    payload
}

/// Whether `result` is what becomes of a sample. A sample of an unknown VM, or
/// of another generation than the schema in force, is dropped.
pub open spec fn sample_outcome(
    state: HostView,
    vmid: u32,
    generation: u64,
    values: Seq<(Seq<char>, i64)>,
    result: Result<Option<VsbValues>, HostError>,
) -> bool {
    match lookup(state.vms, vmid) {
        Some(vm) if vm.generation == generation => if values.len() > MAX_SENSORS {
            result == Err::<Option<VsbValues>, HostError>(HostError::TooManyValues)
        } else {
            result matches Ok(Some(payload)) && is_values_of(
                payload,
                vmid,
                known_readings(values, vm.sensor_ids),
            )
        },
        _ => result == Ok::<Option<VsbValues>, HostError>(None),
    }
}

impl HostState {
    /// What the kernel gets for a sample, if anything.
    pub fn sample(
        &self,
        vmid: u32,
        generation: u64,
        values: &[SensorValue],
    ) -> (result: Result<Option<VsbValues>, HostError>)
        ensures
            sample_outcome(self@, vmid, generation, value_views(values@), result),
    {
        match self.vms.get(vmid) {
            Some(vm) => {
                if vm.generation != generation {
                    return Ok(None);
                }
                if values.len() > MAX_SENSORS {
                    return Err(HostError::TooManyValues);
                }
                Ok(Some(kernel_values(vmid, values, &vm.sensor_ids)))
            },
            None => Ok(None),
        }
    }
}

// ── Limiting schemas ─────────────────────────────────────────────────────────

/// Those of some times that lie within the last window.
pub open spec fn recent_times(times: Seq<u64>, now: u64) -> Seq<u64>
    decreases times.len(),
{
    if times.len() == 0 {
        Seq::empty()
    } else {
        let before = recent_times(times.drop_last(), now);
        if elapsed(now, times.last()) < SCHEMA_RATE_WINDOW_NANOS {
            before.push(times.last())
        } else {
            before
        }
    }
}

/// When schemas of a VM were accepted within the last window.
pub open spec fn recent(accepted: Option<Seq<u64>>, now: u64) -> Seq<u64> {
    match accepted {
        Some(times) => recent_times(times, now),
        None => Seq::empty(),
    }
}

/// Whether one more schema of `vmid` is accepted.
pub open spec fn schema_allowed(state: HostView, vmid: u32, now: u64) -> bool {
    recent(lookup(state.schema_rate, vmid), now).len() < MAX_SCHEMA_UPDATES_PER_MINUTE
}

/// The state after one more schema of `vmid` was accepted.
pub open spec fn rated(state: HostView, vmid: u32, now: u64) -> HostView {
    HostView {
        schema_rate: state.schema_rate.insert(
            vmid,
            recent(lookup(state.schema_rate, vmid), now).push(now),
        ),
        ..state
    }
}

fn keep_recent(times: &[u64], now: u64) -> (kept: Vec<u64>)
    ensures
        kept@ == recent_times(times@, now),
{
    let mut kept: Vec<u64> = Vec::new();
    assert(times@.take(0) =~= Seq::<u64>::empty());
    for i in 0..times.len()
        invariant
            kept@ == recent_times(times@.take(i as int), now),
    {
        assert(times@.take(i as int + 1).drop_last() =~= times@.take(i as int));
        if elapsed_nanos(now, times[i]) < SCHEMA_RATE_WINDOW_NANOS {
            kept.push(times[i]);
        }
    }
    assert(times@.take(times@.len() as int) =~= times@);
    kept
}

impl HostState {
    fn count_schema(&mut self, vmid: u32, now: u64) -> (allowed: bool)
        ensures
            allowed == schema_allowed(old(self)@, vmid, now),
            few_remembered(old(self)@.schema_rate) ==> few_remembered(final(self)@.schema_rate),
            final(self)@ == (if allowed {
                rated(old(self)@, vmid, now)
            } else {
                old(self)@
            }),
    {
        let mut accepted = match self.schema_rate.get(vmid) {
            Some(window) => keep_recent(&window.accepted, now),
            None => Vec::new(),
        };
        if accepted.len() >= MAX_SCHEMA_UPDATES_PER_MINUTE {
            return false;
        }
        accepted.push(now);
        self.schema_rate.insert(vmid, SchemaRateWindow { accepted });
        true
    }
}

/// What a step of the daemon does to the schemas that are remembered of `vmid`:
/// an accepted one joins those of the last window; without one they stay.
pub open spec fn rate_step(
    before: HostView,
    vmid: u32,
    now: u64,
    accepted: bool,
    after: HostView,
) -> bool {
    if accepted {
        schema_allowed(before, vmid, now) && lookup(after.schema_rate, vmid) == Some(
            recent(lookup(before.schema_rate, vmid), now).push(now),
        )
    } else {
        lookup(after.schema_rate, vmid) == lookup(before.schema_rate, vmid)
    }
}

/// Whether the daemon goes through `states`, the step from each to the next at
/// the time `times` says and with a schema of `vmid` accepted where `accepted`
/// says so.
pub open spec fn rate_run(
    states: Seq<HostView>,
    vmid: u32,
    times: Seq<u64>,
    accepted: Seq<bool>,
) -> bool {
    &&& states.len() == times.len() + 1
    &&& accepted.len() == times.len()
    &&& forall|i: int|
        0 <= i < times.len() ==> rate_step(
            #[trigger] states[i],
            vmid,
            times[i],
            accepted[i],
            states[i + 1],
        )
    &&& forall|i: int, j: int| 0 <= i <= j < times.len() ==> times[i] <= times[j]
}

/// Those of some times that are marked.
pub open spec fn marked_times(times: Seq<u64>, marks: Seq<bool>) -> Seq<u64>
    decreases times.len(),
{
    if times.len() == 0 {
        Seq::empty()
    } else {
        let before = marked_times(times.drop_last(), marks.drop_last());
        if marks.last() {
            before.push(times.last())
        } else {
            before
        }
    }
}

/// How many of some times lie in the window that begins at `from`.
pub open spec fn count_from(times: Seq<u64>, from: int) -> int
    decreases times.len(),
{
    if times.len() == 0 {
        0
    } else {
        count_from(times.drop_last(), from) + (if from <= times.last() < from
            + SCHEMA_RATE_WINDOW_NANOS {
            1int
        } else {
            0
        })
    }
}

/// Of the schemas of one VM at most ten are accepted within a minute, wherever
/// that minute begins and whatever else the daemon does in between.
pub proof fn law_schema_rate_limit(
    states: Seq<HostView>,
    vmid: u32,
    times: Seq<u64>,
    accepted: Seq<bool>,
    from: int,
)
    requires
        rate_run(states, vmid, times, accepted),
        !states[0].schema_rate.contains_key(vmid),
    ensures
        count_from(marked_times(times, accepted), from) <= MAX_SCHEMA_UPDATES_PER_MINUTE,
{
    lemma_rate_run(states, vmid, times, accepted, from, u64::MAX);
}

/// One more schema of a VM is accepted exactly where fewer than ten were accepted
/// within the last minute, whatever else the daemon did in between.
pub proof fn law_schema_is_accepted_while_few_were(
    states: Seq<HostView>,
    vmid: u32,
    times: Seq<u64>,
    accepted: Seq<bool>,
    now: u64,
)
    requires
        rate_run(states, vmid, times, accepted),
        !states[0].schema_rate.contains_key(vmid),
        times.len() > 0 ==> times.last() <= now,
    ensures
        schema_allowed(states.last(), vmid, now) <==> Seq::new(
            times.len(),
            |i: int| (times[i], accepted[i]),
        ).filter(|step: (u64, bool)| step.1 && now - step.0 < 60_000_000_000).len() < 10,
{
    lemma_rate_run(states, vmid, times, accepted, 0, now);
    lemma_marked_recent(times, accepted, now);
}

proof fn lemma_marked_recent(times: Seq<u64>, accepted: Seq<bool>, now: u64)
    requires
        times.len() == accepted.len(),
        times.len() > 0 ==> times.last() <= now,
        forall|i: int, j: int| 0 <= i <= j < times.len() ==> times[i] <= times[j],
    ensures
        recent_times(marked_times(times, accepted), now).len() == Seq::new(
            times.len(),
            |i: int| (times[i], accepted[i]),
        ).filter(|step: (u64, bool)| step.1 && now - step.0 < 60_000_000_000).len(),
    decreases times.len(),
{
    let steps = Seq::new(times.len(), |i: int| (times[i], accepted[i]));
    let counts = |step: (u64, bool)| step.1 && now - step.0 < 60_000_000_000;
    if times.len() == 0 {
        lemma_filter_none(steps, counts);
    } else {
        let first = times.drop_last();
        let marks = accepted.drop_last();
        let n = times.len() - 1;
        if n > 0 {
            assert(times[n - 1] <= times[n]);
        }
        assert forall|i: int, j: int| 0 <= i <= j < first.len() implies first[i] <= first[j] by {
            assert(times[i] <= times[j]);
        }
        lemma_marked_recent(first, marks, now);
        lemma_filter_last(steps, counts);
        assert(steps.drop_last() =~= Seq::new(first.len(), |i: int| (first[i], marks[i])));
        let before = marked_times(first, marks);
        assert(before.push(times.last()).drop_last() =~= before);
    }
}

proof fn lemma_rate_run(
    states: Seq<HostView>,
    vmid: u32,
    times: Seq<u64>,
    accepted: Seq<bool>,
    from: int,
    later: u64,
)
    requires
        rate_run(states, vmid, times, accepted),
        !states[0].schema_rate.contains_key(vmid),
        times.len() > 0 ==> times.last() <= later,
    ensures
        count_from(marked_times(times, accepted), from) <= MAX_SCHEMA_UPDATES_PER_MINUTE,
        recent(lookup(states.last().schema_rate, vmid), later) == recent_times(
            marked_times(times, accepted),
            later,
        ),
        forall|i: int|
            0 <= i < marked_times(times, accepted).len() ==> #[trigger] marked_times(
                times,
                accepted,
            )[i] <= later,
    decreases times.len(),
{
    if times.len() > 0 {
        let n = times.len() - 1;
        let now = times.last();
        let earlier = marked_times(times.drop_last(), accepted.drop_last());
        let first = states.drop_last();
        assert forall|i: int| 0 <= i < n implies rate_step(
            #[trigger] first[i],
            vmid,
            times.drop_last()[i],
            accepted.drop_last()[i],
            first[i + 1],
        ) by {
            assert(rate_step(states[i], vmid, times[i], accepted[i], states[i + 1]));
        }
        if n > 0 {
            assert(times[n - 1] <= times[n]);
        }
        lemma_rate_run(first, vmid, times.drop_last(), accepted.drop_last(), from, now);
        assert(rate_step(states[n], vmid, times[n], accepted[n], states[n + 1]));
        assert(first.last() == states[n]);
        lemma_rate_run(first, vmid, times.drop_last(), accepted.drop_last(), from, later);
        if accepted.last() {
            let window = recent(lookup(states[n].schema_rate, vmid), now);
            assert(window == recent_times(earlier, now));
            assert(window.push(now).drop_last() =~= window);
            assert(earlier.push(now).drop_last() =~= earlier);
            lemma_recent_twice(earlier, now, later);
            if from <= now < from + SCHEMA_RATE_WINDOW_NANOS {
                lemma_count_recent(earlier, from, now);
            }
        }
    } else {
        assert(states.last() == states[0]);
    }
}

/// What is recent later was recent before.
proof fn lemma_recent_twice(times: Seq<u64>, now: u64, later: u64)
    requires
        now <= later,
    ensures
        recent_times(recent_times(times, now), later) == recent_times(times, later),
    decreases times.len(),
{
    if times.len() > 0 {
        let before = recent_times(times.drop_last(), now);
        lemma_recent_twice(times.drop_last(), now, later);
        assert(before.push(times.last()).drop_last() =~= before);
    }
}

/// A window that `now` lies in holds nothing that is not recent.
proof fn lemma_count_recent(times: Seq<u64>, from: int, now: u64)
    requires
        from <= now,
        forall|i: int| 0 <= i < times.len() ==> #[trigger] times[i] <= now,
        now < from + SCHEMA_RATE_WINDOW_NANOS,
    ensures
        count_from(times, from) <= recent_times(times, now).len(),
    decreases times.len(),
{
    if times.len() > 0 {
        let before = times.drop_last();
        assert forall|i: int| 0 <= i < before.len() implies #[trigger] before[i] <= now by {
            assert(before[i] == times[i]);
        }
        lemma_count_recent(before, from, now);
        assert(times[times.len() - 1] <= now);
    }
}

// ── Schemas ──────────────────────────────────────────────────────────────────

/// The sensors that stay registered while the VM is away.
pub open spec fn persistent_of(sensors: Seq<DescriptorView>) -> Seq<(DescriptorView, i64)>
    decreases sensors.len(),
{
    if sensors.len() == 0 {
        Seq::empty()
    } else {
        let before = persistent_of(sensors.drop_last());
        if sensors.last().persistent {
            before.push((sensors.last(), sensors.last().default_value.unwrap()))
        } else {
            before
        }
    }
}

/// Whether every persistent sensor has a default value.
pub open spec fn defaults_given(sensors: Seq<DescriptorView>) -> bool {
    forall|i: int|
        0 <= i < sensors.len() && (#[trigger] sensors[i]).persistent ==> sensors[i].default_value
            is Some
}

/// Why a list of sensors is refused, if it is.
pub open spec fn schema_fault(sensors: Seq<DescriptorView>) -> Option<HostError> {
    if sensors.len() > MAX_SENSORS {
        Some(HostError::TooManySensors)
    } else if !defaults_given(sensors) {
        Some(HostError::MissingDefaultValue)
    } else {
        None
    }
}

/// The name of a VM's device.
pub open spec fn hwmon_name_of(state: HostView, vmid: u32) -> Seq<char> {
    match lookup(state.hwmon_names, vmid) {
        Some(name) => name,
        None => default_hwmon_name(vmid),
    }
}

/// Whether a schema is news to the kernel.
pub open spec fn schema_changes(
    state: HostView,
    vmid: u32,
    sensors: Seq<DescriptorView>,
) -> bool {
    !state.vms.contains_key(vmid) || {
        let prior = state.vms[vmid];
        ||| prior.signatures != signature_map(sensors)
        ||| prior.sensor_ids != id_numbers(sensors)
        ||| prior.hwmon_name != hwmon_name_of(state, vmid)
        ||| prior.persistent_sensors != persistent_of(sensors)
    }
}

/// A VM after a schema that is no news to the kernel.
pub open spec fn refreshed(
    prior: VmView,
    generation: u64,
    sensors: Seq<DescriptorView>,
    now: u64,
) -> VmView {
    VmView {
        generation,
        sensor_ids: id_numbers(sensors),
        signatures: signature_map(sensors),
        sensor_attrs: attribute_map(sensors),
        persistent_sensors: persistent_of(sensors),
        last_seen: now,
        heard: true,
        offline_reported: false,
        schema_synced: true,
        hwmon_name: prior.hwmon_name,
        hwmon_path: prior.hwmon_path,
        sensor_count: sensors.len() as usize,
    }
}

/// A schema on its way to the kernel.
pub struct PendingSchema {
    pub vmid: u32,
    pub generation: u64,
    /// What the kernel gets.
    pub schema: VsbSchema,
    pub sensor_ids: IdMap<u32>,
    pub signatures: Signatures,
    pub sensor_attrs: IdMap<String>,
    pub persistent_sensors: Vec<PersistentRuntimeSensor>,
    pub hwmon_name: String,
    pub sensor_count: usize,
    pub events: Vec<String>,
}

impl PendingSchema {
    /// Whether this is what becomes of the schema of a VM.
    pub open spec fn stands_for(
        self,
        state: HostView,
        vmid: u32,
        generation: u64,
        sensors: Seq<DescriptorView>,
    ) -> bool {
        &&& self.vmid == vmid
        &&& self.generation == generation
        &&& is_schema_of(self.schema, vmid, lookup(state.hwmon_names, vmid), sensors)
        &&& self.sensor_ids@ == id_numbers(sensors)
        &&& self.signatures@ == signature_map(sensors)
        &&& self.sensor_attrs@ == attribute_map(sensors)
        &&& persistent_views(self.persistent_sensors@) == persistent_of(sensors)
        &&& self.hwmon_name@ == hwmon_name_of(state, vmid)
        &&& self.sensor_count == sensors.len()
        &&& texts(self.events@) == expected_events(
            match lookup(state.vms, vmid) {
                Some(prior) => Some(prior.signatures),
                None => None,
            },
            signature_map(sensors),
        )
    }
}

/// The state after the kernel has taken a schema.
pub open spec fn committed(
    before: HostView,
    pending: PendingSchema,
    hwmon_path: Seq<char>,
    now: u64,
) -> HostView {
    HostView {
        vms: before.vms.insert(
            pending.vmid,
            VmView {
                generation: pending.generation,
                sensor_ids: pending.sensor_ids@,
                signatures: pending.signatures@,
                sensor_attrs: pending.sensor_attrs@,
                persistent_sensors: persistent_views(pending.persistent_sensors@),
                last_seen: now,
                heard: true,
                offline_reported: false,
                schema_synced: true,
                hwmon_name: pending.hwmon_name@,
                hwmon_path,
                sensor_count: pending.sensor_count,
            },
        ),
        ..before
    }
}

/// What to do about a schema.
pub enum SchemaStep {
    /// Nothing: too many schemas came.
    RateLimited,
    /// Only save the cache: the kernel knows these sensors already.
    Unchanged,
    /// Hand the schema to the kernel, then commit it.
    Register(PendingSchema),
}

/// What the hooks are told after a schema was committed.
pub struct SchemaNotice {
    pub vmid: u32,
    pub hwmon_name: String,
    pub sensor_count: usize,
    pub events: Vec<String>,
}

/// Whether `step` and the state `after` are what becomes of a schema. One that
/// breaks a rule or comes too soon changes nothing.
pub open spec fn schema_outcome(
    before: HostView,
    vmid: u32,
    generation: u64,
    sensors: Seq<DescriptorView>,
    now: u64,
    step: Result<SchemaStep, HostError>,
    after: HostView,
) -> bool {
    match schema_fault(sensors) {
        Some(fault) => step matches Err(error) && error == fault && after == before,
        None => if !schema_allowed(before, vmid, now) {
            step matches Ok(SchemaStep::RateLimited) && after == before
        } else if !schema_changes(before, vmid, sensors) {
            step matches Ok(SchemaStep::Unchanged) && after == (HostView {
                vms: before.vms.insert(
                    vmid,
                    refreshed(before.vms[vmid], generation, sensors, now),
                ),
                ..rated(before, vmid, now)
            })
        } else {
            step matches Ok(SchemaStep::Register(pending)) && after == rated(before, vmid, now)
                && pending.stands_for(before, vmid, generation, sensors)
                && pending.persistent_sensors@.len() <= MAX_SENSORS
        },
    }
}

/// Whether a schema was accepted.
pub open spec fn is_accepted(step: Result<SchemaStep, HostError>) -> bool {
    step matches Ok(step) && !(step is RateLimited)
}

/// A schema is accepted where the limit allows it, and only then; it counts
/// towards the limit of its own VM and of no other.
pub proof fn law_schema_is_counted(
    before: HostView,
    vmid: u32,
    generation: u64,
    sensors: Seq<DescriptorView>,
    now: u64,
    step: Result<SchemaStep, HostError>,
    after: HostView,
    other: u32,
)
    requires
        schema_outcome(before, vmid, generation, sensors, now, step, after),
    ensures
        schema_fault(sensors) is None ==> is_accepted(step) == schema_allowed(before, vmid, now),
        rate_step(before, other, now, other == vmid && is_accepted(step), after),
        !is_accepted(step) ==> after == before,
{
}

proof fn lemma_persistent_of_bound(sensors: Seq<DescriptorView>)
    ensures
        persistent_of(sensors).len() <= sensors.len(),
    decreases sensors.len(),
{
    if sensors.len() > 0 {
        lemma_persistent_of_bound(sensors.drop_last());
    }
}

fn collect_persistent(sensors: &[SensorDescriptor]) -> (result: Result<
    Vec<PersistentRuntimeSensor>,
    HostError,
>)
    ensures
        match result {
            Ok(persistent) => defaults_given(descriptor_views(sensors@)) && persistent_views(
                persistent@,
            ) == persistent_of(descriptor_views(sensors@)),
            Err(error) => error == HostError::MissingDefaultValue && !defaults_given(
                descriptor_views(sensors@),
            ),
        },
{
    let ghost all = descriptor_views(sensors@);
    let mut persistent: Vec<PersistentRuntimeSensor> = Vec::new();
    assert(persistent_views(persistent@) =~= persistent_of(all.take(0)));
    for i in 0..sensors.len()
        invariant
            all == descriptor_views(sensors@),
            persistent_views(persistent@) == persistent_of(all.take(i as int)),
            forall|j: int|
                0 <= j < i && (#[trigger] all[j]).persistent ==> all[j].default_value is Some,
    {
        let sensor = &sensors[i];
        let ghost before = persistent_views(persistent@);
        proof {
            assert(all[i as int] == sensor@);
            assert(all.take(i as int + 1).drop_last() =~= all.take(i as int));
        }
        if sensor.persistent {
            match sensor.default_value {
                Some(default_value) => {
                    persistent.push(
                        PersistentRuntimeSensor { descriptor: sensor.clone(), default_value },
                    );
                    assert(persistent_views(persistent@) =~= before.push(
                        (sensor@, default_value),
                    ));
                },
                None => {
                    return Err(HostError::MissingDefaultValue);
                },
            }
        }
    }
    assert(all.take(all.len() as int) =~= all);
    Ok(persistent)
}

impl HostState {
    /// Decides what to do about a schema of `vmid`.
    pub fn plan_schema(
        &mut self,
        vmid: u32,
        generation: u64,
        sensors: &[SensorDescriptor],
        now: u64,
    ) -> (step: Result<SchemaStep, HostError>)
        requires
            old(self)@.wf(),
        ensures
            final(self)@.wf(),
            schema_outcome(
                old(self)@,
                vmid,
                generation,
                descriptor_views(sensors@),
                now,
                step,
                final(self)@,
            ),
    {
        let ghost before = self@;
        let ghost views = descriptor_views(sensors@);
        if sensors.len() > MAX_SENSORS {
            return Err(HostError::TooManySensors);
        }
        let persistent_sensors = match collect_persistent(sensors) {
            Ok(persistent) => persistent,
            Err(error) => {
                return Err(error);
            },
        };
        proof {
            lemma_persistent_of_bound(views);
        }
        let configured = match self.hwmon_names.get(vmid) {
            Some(name) => Some(name.as_str()),
            None => None,
        };
        let hwmon_name = match configured {
            Some(name) => name.to_string(),
            None => make_hwmon_name(vmid),
        };
        let registration = register(vmid, configured, sensors);
        let Registration { schema, sensor_ids, signatures, sensor_attrs } = registration;
        if !self.count_schema(vmid, now) {
            return Ok(SchemaStep::RateLimited);
        }
        let prior = self.vms.get(vmid);
        let events = topology_events(prior, &signatures);
        let changed = match prior {
            Some(prior) => !same_signatures(&prior.signatures, &signatures) || !same_ids(
                &prior.sensor_ids,
                &sensor_ids,
            ) || !same(&prior.hwmon_name, &hwmon_name) || !same_persistent(
                &prior.persistent_sensors,
                &persistent_sensors,
            ),
            None => true,
        };
        if changed {
            return Ok(
                SchemaStep::Register(
                    PendingSchema {
                        vmid,
                        generation,
                        schema,
                        sensor_ids,
                        signatures,
                        sensor_attrs,
                        persistent_sensors,
                        hwmon_name,
                        sensor_count: sensors.len(),
                        events,
                    },
                ),
            );
        }
        if let Some(vm) = self.vms.remove(vmid) {
            let mut vm = vm;
            vm.generation = generation;
            vm.sensor_ids = sensor_ids;
            vm.signatures = signatures;
            vm.sensor_attrs = sensor_attrs;
            vm.persistent_sensors = persistent_sensors;
            vm.last_seen = now;
            vm.heard = true;
            vm.offline_reported = false;
            vm.schema_synced = true;
            vm.sensor_count = sensors.len();
            self.vms.insert(vmid, vm);
            assert(self@.vms =~= before.vms.insert(
                vmid,
                refreshed(before.vms[vmid], generation, views, now),
            ));
        }
        Ok(SchemaStep::Unchanged)
    }

    /// Takes over a schema that the kernel has taken, and says what the hooks
    /// are told, if anything.
    pub fn commit_schema(
        &mut self,
        pending: PendingSchema,
        hwmon_path: String,
        now: u64,
    ) -> (notice: Option<SchemaNotice>)
        requires
            old(self)@.wf(),
            pending.persistent_sensors@.len() <= MAX_SENSORS,
        ensures
            final(self)@.wf(),
            final(self)@ == (HostView {
                vms: old(self)@.vms.insert(
                    pending.vmid,
                    VmView {
                        generation: pending.generation,
                        sensor_ids: pending.sensor_ids@,
                        signatures: pending.signatures@,
                        sensor_attrs: pending.sensor_attrs@,
                        persistent_sensors: persistent_views(pending.persistent_sensors@),
                        last_seen: now,
                        heard: true,
                        offline_reported: false,
                        schema_synced: true,
                        hwmon_name: pending.hwmon_name@,
                        hwmon_path: hwmon_path@,
                        sensor_count: pending.sensor_count,
                    },
                ),
                ..old(self)@
            }),
            final(self)@ == committed(old(self)@, pending, hwmon_path@, now),
            match notice {
                None => pending.events@.len() == 0,
                Some(notice) => {
                    &&& pending.events@.len() > 0
                    &&& notice.vmid == pending.vmid
                    &&& notice.hwmon_name@ == pending.hwmon_name@
                    &&& notice.sensor_count == pending.sensor_count
                    &&& texts(notice.events@) == texts(pending.events@)
                },
            },
    {
        let PendingSchema {
            vmid,
            generation,
            schema: _,
            sensor_ids,
            signatures,
            sensor_attrs,
            persistent_sensors,
            hwmon_name,
            sensor_count,
            events,
        } = pending;
        let name = hwmon_name.clone();
        let ghost before = self@;
        let ghost kept = persistent_views(persistent_sensors@);
        self.vms.insert(
            vmid,
            VmRuntime {
                generation,
                sensor_ids,
                signatures,
                sensor_attrs,
                persistent_sensors,
                last_seen: now,
                heard: true,
                offline_reported: false,
                schema_synced: true,
                hwmon_name,
                hwmon_path,
                sensor_count,
            },
        );
        assert forall|id: u32| #[trigger]
            self@.vms.contains_key(id) implies self@.vms[id].persistent_sensors.len()
            <= MAX_SENSORS by {
            if id == vmid {
                assert(self@.vms[id].persistent_sensors == kept);
            } else {
                assert(before.vms.contains_key(id));
            }
        }
        if events.len() == 0 {
            return None;
        }
        Some(SchemaNotice { vmid, hwmon_name: name, sensor_count, events })
    }
}

} // verus!
