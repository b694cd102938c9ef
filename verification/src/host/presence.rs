//! VMs that come and go: what stays of a VM whose agent is away, when an agent
//! counts as away, and what is remembered across restarts of the daemon.

use crate::host::kernel::{VsbSchema, VsbSensorValue, VsbValues};
use crate::host::runtime::{
    attribute_map, copy_persistent, id_numbers, is_schema_of, persistent_views, register,
    signature_map, PersistentRuntimeSensor, Registration, Signatures, VmRuntime, VmView,
};
use crate::host::state::{
    default_hwmon_name, greeted, is_values_of, make_hwmon_name, rate_step, seen, HostState,
    HostView,
};
use crate::host::vm_map::{ascending, lists_keys};
use crate::id_map::IdMap;
use crate::number::{decimal, format_u64};
use crate::protocol::{descriptor_views, DescriptorView, SensorDescriptor, MAX_SENSORS};
use crate::text::{concat3, optional_text, same};
use crate::time::{elapsed, has_passed, lookup, passed};
use vstd::prelude::*;

verus! {

// ── Events ───────────────────────────────────────────────────────────────────

/// What happened to the device of a VM.
#[derive(Clone, Copy, Debug, PartialEq, Eq, Structural)]
pub enum DeviceEvent {
    /// It was brought back after a restart of the daemon.
    Created,
    /// Its agent left.
    Removed,
    /// Its agent has been silent for too long.
    Offline,
}

impl DeviceEvent {
    /// The name that hooks know the event by.
    pub open spec fn text(self) -> Seq<char> {
        match self {
            DeviceEvent::Created => "device_created"@,
            DeviceEvent::Removed => "device_removed"@,
            DeviceEvent::Offline => "vm_offline"@,
        }
    }

    /// The name that hooks know the event by.
    pub fn name(&self) -> (name: &'static str)
        ensures
            name@ == self.text(),
    {
        match self {
            DeviceEvent::Created => "device_created",
            DeviceEvent::Removed => "device_removed",
            DeviceEvent::Offline => "vm_offline",
        }
    }
}

// ── Default values ───────────────────────────────────────────────────────────

/// The descriptors of some persistent sensors.
pub open spec fn descriptors_of(persistent: Seq<(DescriptorView, i64)>) -> Seq<DescriptorView> {
    persistent.map_values(|sensor: (DescriptorView, i64)| sensor.0)
}

/// The default values of some persistent sensors, each under its number.
pub open spec fn default_readings(persistent: Seq<(DescriptorView, i64)>) -> Seq<(u32, i64)> {
    Seq::new(persistent.len(), |i: int| ((i + 1) as u32, persistent[i].1))
}

/// What stays of a VM while its agent is away: its persistent sensors, at their
/// default values.
pub struct DefaultsPlan {
    pub vmid: u32,
    /// Why the plan was made.
    pub event: DeviceEvent,
    pub generation: u64,
    pub hwmon_name: String,
    pub persistent_sensors: Vec<PersistentRuntimeSensor>,
    /// The sensors that the kernel gets.
    pub schema: VsbSchema,
    /// The values that the kernel gets.
    pub values: VsbValues,
    pub sensor_ids: IdMap<u32>,
    pub signatures: Signatures,
    pub sensor_attrs: IdMap<String>,
}

impl DefaultsPlan {
    /// Whether the plan keeps the given persistent sensors of a VM.
    pub open spec fn stands_for(
        self,
        vmid: u32,
        generation: u64,
        hwmon_name: Seq<char>,
        persistent: Seq<(DescriptorView, i64)>,
    ) -> bool {
        let sensors = descriptors_of(persistent);
        &&& persistent.len() <= MAX_SENSORS
        &&& self.vmid == vmid
        &&& self.generation == generation
        &&& self.hwmon_name@ == hwmon_name
        &&& persistent_views(self.persistent_sensors@) == persistent
        &&& is_schema_of(self.schema, vmid, Some(hwmon_name), sensors)
        &&& is_values_of(self.values, vmid, default_readings(persistent))
        &&& self.sensor_ids@ == id_numbers(sensors)
        &&& self.signatures@ == signature_map(sensors)
        &&& self.sensor_attrs@ == attribute_map(sensors)
    }

    /// Whether the plan keeps the persistent sensors of `vm`.
    pub open spec fn keeps(self, vmid: u32, vm: VmView) -> bool {
        self.stands_for(vmid, vm.generation, vm.hwmon_name, vm.persistent_sensors)
    }
}

/// Plans to keep the given persistent sensors.
pub fn plan_defaults(
    event: DeviceEvent,
    vmid: u32,
    generation: u64,
    hwmon_name: String,
    persistent_sensors: Vec<PersistentRuntimeSensor>,
) -> (plan: DefaultsPlan)
    requires
        persistent_sensors@.len() <= MAX_SENSORS,
    ensures
        plan.event == event,
        plan.stands_for(vmid, generation, hwmon_name@, persistent_views(persistent_sensors@)),
{
    let ghost persistent = persistent_views(persistent_sensors@);
    let mut sensors: Vec<SensorDescriptor> = Vec::new();
    let mut values = VsbValues::default();
    values.vmid = vmid;
    values.value_count = persistent_sensors.len() as u32;
    for i in 0..persistent_sensors.len()
        invariant
            persistent_sensors@.len() <= MAX_SENSORS,
            persistent == persistent_views(persistent_sensors@),
            descriptor_views(sensors@) == descriptors_of(persistent).take(i as int),
            values.vmid == vmid,
            values.value_count == persistent.len(),
            forall|j: int|
                0 <= j < i ==> {
                    let value = #[trigger] values.values@[j];
                    value.id == j + 1 && value.reserved == 0 && value.value == persistent[j].1
                },
            forall|j: int| i <= j < 128 ==> (#[trigger] values.values@[j]).blank(),
    {
        let sensor = &persistent_sensors[i];
        let ghost before = descriptor_views(sensors@);
        assert(persistent[i as int] == sensor@);
        sensors.push(sensor.descriptor.clone());
        assert(descriptor_views(sensors@) =~= before.push(sensor.descriptor@));
        assert(descriptor_views(sensors@) =~= descriptors_of(persistent).take(i as int + 1));
        values.values[i] = VsbSensorValue {
            id: (i + 1) as u32,
            reserved: 0,
            value: sensor.default_value,
        };
    }
    assert(descriptors_of(persistent).take(persistent.len() as int) =~= descriptors_of(persistent));
    let registration = register(vmid, Some(hwmon_name.as_str()), &sensors);
    let Registration { schema, sensor_ids, signatures, sensor_attrs } = registration;
    DefaultsPlan {
        vmid,
        event,
        generation,
        hwmon_name,
        persistent_sensors,
        schema,
        values,
        sensor_ids,
        signatures,
        sensor_attrs,
    }
}

/// What is known of a VM whose persistent sensors stand at their defaults, where
/// `prior` is what was known of it before. That its agent is away does not change
/// when the last message came.
pub open spec fn defaults_vm(
    prior: Option<VmView>,
    generation: u64,
    hwmon_name: Seq<char>,
    persistent: Seq<(DescriptorView, i64)>,
    hwmon_path: Seq<char>,
    now: u64,
) -> VmView {
    let sensors = descriptors_of(persistent);
    VmView {
        generation,
        sensor_ids: id_numbers(sensors),
        signatures: signature_map(sensors),
        sensor_attrs: attribute_map(sensors),
        persistent_sensors: persistent,
        last_seen: match prior {
            Some(vm) => vm.last_seen,
            None => now,
        },
        heard: prior matches Some(vm) && vm.heard,
        offline_reported: true,
        schema_synced: false,
        hwmon_name,
        hwmon_path,
        sensor_count: persistent.len() as usize,
    }
}

/// What the hooks are told of a VM.
pub struct DeviceNotice {
    pub vmid: u32,
    pub event: DeviceEvent,
    pub hwmon_name: String,
    pub hwmon_path: String,
    pub sensor_count: usize,
}

impl HostState {
    /// Takes over a plan that the kernel has taken, and says what the hooks
    /// are told.
    pub fn commit_defaults(
        &mut self,
        plan: DefaultsPlan,
        hwmon_path: String,
        now: u64,
    ) -> (notice: DeviceNotice)
        requires
            old(self)@.wf(),
            plan.stands_for(
                plan.vmid,
                plan.generation,
                plan.hwmon_name@,
                persistent_views(plan.persistent_sensors@),
            ),
        ensures
            final(self)@.wf(),
            final(self)@ == (HostView {
                vms: old(self)@.vms.insert(
                    plan.vmid,
                    defaults_vm(
                        lookup(old(self)@.vms, plan.vmid),
                        plan.generation,
                        plan.hwmon_name@,
                        persistent_views(plan.persistent_sensors@),
                        hwmon_path@,
                        now,
                    ),
                ),
                ..old(self)@
            }),
            notice.vmid == plan.vmid,
            notice.event == plan.event,
            notice.hwmon_name@ == plan.hwmon_name@,
            notice.hwmon_path@ == hwmon_path@,
            notice.sensor_count == plan.persistent_sensors@.len(),
    {
        let ghost before = self@;
        let ghost kept = persistent_views(plan.persistent_sensors@);
        let DefaultsPlan {
            vmid,
            event,
            generation,
            hwmon_name,
            persistent_sensors,
            schema: _,
            values: _,
            sensor_ids,
            signatures,
            sensor_attrs,
        } = plan;
        let sensor_count = persistent_sensors.len();
        let notice = DeviceNotice {
            vmid,
            event,
            hwmon_name: hwmon_name.clone(),
            hwmon_path: hwmon_path.clone(),
            sensor_count,
        };
        let (last_seen, heard) = match self.vms.get(vmid) {
            Some(vm) => (vm.last_seen, vm.heard),
            None => (now, false),
        };
        self.vms.insert(
            vmid,
            VmRuntime {
                generation,
                sensor_ids,
                signatures,
                sensor_attrs,
                persistent_sensors,
                last_seen,
                heard,
                offline_reported: true,
                schema_synced: false,
                hwmon_name,
                hwmon_path,
                sensor_count,
            },
        );
        assert forall|id: u32| #[trigger]
            self@.vms.contains_key(id) implies self@.vms[id].persistent_sensors.len()
            <= MAX_SENSORS by {
            if id == vmid {
                assert(self@.vms[id].persistent_sensors == kept);
            } else {
                assert(before.vms.contains_key(id));
            }
        }
        notice
    }
}

// ── Leaving ──────────────────────────────────────────────────────────────────

/// What becomes of a VM that leaves.
pub enum Departure {
    /// Its persistent sensors stay: hand the plan to the kernel, then commit it.
    Preserve(DefaultsPlan),
    /// Nothing stays: remove the device from the kernel.
    Remove(DeviceNotice),
}

/// Whether a VM stays registered without its agent.
pub open spec fn has_persistent(state: HostView, vmid: u32) -> bool {
    state.vms.contains_key(vmid) && state.vms[vmid].persistent_sensors.len() > 0
}

/// Whether `departure` and the state `after` are what becomes of a VM that
/// leaves.
pub open spec fn departure_outcome(
    before: HostView,
    vmid: u32,
    departure: Departure,
    after: HostView,
) -> bool {
    if has_persistent(before, vmid) {
        &&& after == (HostView {
            vms: before.vms.insert(
                vmid,
                VmView { offline_reported: true, ..before.vms[vmid] },
            ),
            ..before
        })
        &&& departure matches Departure::Preserve(plan)
        &&& plan.event == DeviceEvent::Removed
        &&& plan.keeps(vmid, before.vms[vmid])
    } else {
        &&& after == (HostView {
            vms: before.vms.remove(vmid),
            hwmon_names: before.hwmon_names.remove(vmid),
            ..before
        })
        &&& departure matches Departure::Remove(notice)
        &&& notice.event == DeviceEvent::Removed
        &&& notice.vmid == vmid
        &&& notice.sensor_count == 0
        &&& notice.hwmon_name@ == (match lookup(before.vms, vmid) {
            Some(vm) => vm.hwmon_name,
            None => default_hwmon_name(vmid),
        })
        &&& notice.hwmon_path@ == (match lookup(before.vms, vmid) {
            Some(vm) => vm.hwmon_path,
            None => Seq::<char>::empty(),
        })
    }
}

impl HostState {
    /// Lets a VM leave.
    pub fn remove_vm(&mut self, vmid: u32) -> (departure: Departure)
        requires
            old(self)@.wf(),
        ensures
            final(self)@.wf(),
            departure_outcome(old(self)@, vmid, departure, final(self)@),
    {
        let ghost before = self@;
        match self.vms.remove(vmid) {
            Some(vm) => {
                let mut vm = vm;
                if vm.persistent_sensors.len() > 0 {
                    vm.offline_reported = true;
                    let plan = plan_defaults(
                        DeviceEvent::Removed,
                        vmid,
                        vm.generation,
                        vm.hwmon_name.clone(),
                        copy_persistent(&vm.persistent_sensors),
                    );
                    self.vms.insert(vmid, vm);
                    assert(self@.vms =~= before.vms.insert(
                        vmid,
                        VmView { offline_reported: true, ..before.vms[vmid] },
                    ));
                    return Departure::Preserve(plan);
                }
                self.hwmon_names.remove(vmid);
                assert(self@.vms == before.vms.remove(vmid));
                assert forall|id: u32| #[trigger]
                    self@.vms.contains_key(id) implies self@.vms[id].persistent_sensors.len()
                    <= MAX_SENSORS by {
                    assert(before.vms.contains_key(id));
                }
                Departure::Remove(
                    DeviceNotice {
                        vmid,
                        event: DeviceEvent::Removed,
                        hwmon_name: vm.hwmon_name,
                        hwmon_path: vm.hwmon_path,
                        sensor_count: 0,
                    },
                )
            },
            None => {
                self.hwmon_names.remove(vmid);
                assert(self@.vms == before.vms.remove(vmid));
                assert forall|id: u32| #[trigger]
                    self@.vms.contains_key(id) implies self@.vms[id].persistent_sensors.len()
                    <= MAX_SENSORS by {
                    assert(before.vms.contains_key(id));
                }
                Departure::Remove(
                    DeviceNotice {
                        vmid,
                        event: DeviceEvent::Removed,
                        hwmon_name: make_hwmon_name(vmid),
                        hwmon_path: String::new(),
                        sensor_count: 0,
                    },
                )
            },
        }
    }
}

// ── Heartbeats ───────────────────────────────────────────────────────────────

/// What happens to a VM whose agent is silent.
#[derive(Clone, Copy, Debug, PartialEq, Eq, Structural)]
pub enum HeartbeatPolicy {
    /// A warning, nothing else.
    WarnOnly,
    /// The VM is removed, or its persistent sensors go to their defaults.
    RemoveOnly,
    /// A warning, and as `RemoveOnly`.
    WarnThenRemove,
    /// A policy of another name, treated as `WarnThenRemove`.
    Unknown,
}

/// The policy of a given name.
pub open spec fn policy_named(name: Seq<char>) -> HeartbeatPolicy {
    if name == "warn_only"@ {
        HeartbeatPolicy::WarnOnly
    } else if name == "remove_only"@ {
        HeartbeatPolicy::RemoveOnly
    } else if name == "warn_then_remove"@ {
        HeartbeatPolicy::WarnThenRemove
    } else {
        HeartbeatPolicy::Unknown
    }
}

/// The policy of a given name.
pub fn heartbeat_policy(name: &str) -> (policy: HeartbeatPolicy)
    ensures
        policy == policy_named(name@),
{
    if same(name, "warn_only") {
        HeartbeatPolicy::WarnOnly
    } else if same(name, "remove_only") {
        HeartbeatPolicy::RemoveOnly
    } else if same(name, "warn_then_remove") {
        HeartbeatPolicy::WarnThenRemove
    } else {
        HeartbeatPolicy::Unknown
    }
}

/// What is written to the journal about a VM that is found to be silent, if
/// anything, where `name` is the name of the policy.
pub open spec fn warning_text(name: Seq<char>, vmid: u32) -> Option<Seq<char>> {
    match policy_named(name) {
        HeartbeatPolicy::WarnOnly | HeartbeatPolicy::WarnThenRemove => Some(
            "vm "@ + decimal(vmid as nat) + " heartbeat timeout"@,
        ),
        HeartbeatPolicy::RemoveOnly => None,
        HeartbeatPolicy::Unknown => Some(
            "unknown heartbeat policy "@ + name + "; using warn_then_remove"@,
        ),
    }
}

/// Whether a policy warns.
pub fn warns(policy: HeartbeatPolicy) -> (yes: bool)
    ensures
        yes == (match policy {
            HeartbeatPolicy::WarnOnly => true,
            HeartbeatPolicy::RemoveOnly => false,
            HeartbeatPolicy::WarnThenRemove => true,
            HeartbeatPolicy::Unknown => true,
        }),
        forall|name: Seq<char>, vmid: u32|
            policy_named(name) == policy ==> (#[trigger] warning_text(name, vmid) is Some) == yes,
{
    policy != HeartbeatPolicy::RemoveOnly
}

/// What is written to the journal about a VM that is found to be silent, if
/// anything, where `name` is the name of the policy.
pub fn heartbeat_warning(name: &str, vmid: u32) -> (warning: Option<String>)
    ensures
        optional_text(warning) == warning_text(name@, vmid),
{
    let policy = heartbeat_policy(name);
    if !warns(policy) {
        return None;
    }
    if policy == HeartbeatPolicy::Unknown {
        Some(concat3("unknown heartbeat policy ", name, "; using warn_then_remove"))
    } else {
        Some(concat3("vm ", &format_u64(vmid as u64), " heartbeat timeout"))
    }
}

/// What a check of the heartbeats does to a VM.
#[derive(Clone, Copy, Debug, PartialEq, Eq, Structural)]
pub enum Fate {
    /// Its agent spoke in time, or its absence was reported before.
    Stays,
    /// Its absence is reported.
    Reported,
    /// Its absence is reported, and its persistent sensors go to their defaults.
    Preserved,
    /// It is removed.
    Removed,
}

/// What a check of the heartbeats does to a VM.
pub open spec fn fate(vm: VmView, timeout_seconds: u64, policy: HeartbeatPolicy, now: u64) -> Fate {
    if vm.offline_reported || !has_passed(now, vm.last_seen, timeout_seconds) {
        Fate::Stays
    } else if policy == HeartbeatPolicy::WarnOnly {
        Fate::Reported
    } else if vm.persistent_sensors.len() > 0 {
        Fate::Preserved
    } else {
        Fate::Removed
    }
}

fn decide(vm: &VmRuntime, timeout_seconds: u64, policy: HeartbeatPolicy, now: u64) -> (result: Fate)
    ensures
        result == fate(vm@, timeout_seconds, policy, now),
{
    if vm.offline_reported || !passed(now, vm.last_seen, timeout_seconds) {
        Fate::Stays
    } else if policy == HeartbeatPolicy::WarnOnly {
        Fate::Reported
    } else if vm.persistent_sensors.len() > 0 {
        Fate::Preserved
    } else {
        Fate::Removed
    }
}

/// The fate of `vmid`; an unknown VM stays unknown.
pub open spec fn fate_of(
    state: HostView,
    vmid: u32,
    timeout_seconds: u64,
    policy: HeartbeatPolicy,
    now: u64,
) -> Fate {
    if state.vms.contains_key(vmid) {
        fate(state.vms[vmid], timeout_seconds, policy, now)
    } else {
        Fate::Stays
    }
}

/// A VM after a fate that does not remove it.
pub open spec fn after_fate(vm: VmView, fate: Fate) -> VmView {
    if fate == Fate::Stays {
        vm
    } else {
        VmView { offline_reported: true, ..vm }
    }
}

/// The state after a check of the heartbeats.
pub open spec fn after_heartbeats(
    state: HostView,
    timeout_seconds: u64,
    policy: HeartbeatPolicy,
    now: u64,
) -> HostView {
    HostView {
        vms: Map::new(
            |vmid: u32|
                state.vms.contains_key(vmid) && fate_of(state, vmid, timeout_seconds, policy, now)
                    != Fate::Removed,
            |vmid: u32|
                after_fate(
                    state.vms[vmid],
                    fate_of(state, vmid, timeout_seconds, policy, now),
                ),
        ),
        hwmon_names: Map::new(
            |vmid: u32|
                state.hwmon_names.contains_key(vmid) && fate_of(
                    state,
                    vmid,
                    timeout_seconds,
                    policy,
                    now,
                ) != Fate::Removed,
            |vmid: u32| state.hwmon_names[vmid],
        ),
        schema_rate: state.schema_rate,
    }
}

/// What is to be done after a check of the heartbeats.
pub struct HeartbeatOutcome {
    /// The VMs that were found to be away.
    pub expired: Vec<u32>,
    /// Plans to hand to the kernel and commit.
    pub preserves: Vec<DefaultsPlan>,
    /// Devices to remove from the kernel.
    pub removals: Vec<DeviceNotice>,
}

/// The VMs of some plans.
pub open spec fn plan_ids(plans: Seq<DefaultsPlan>) -> Seq<u32> {
    plans.map_values(|plan: DefaultsPlan| plan.vmid)
}

/// The VMs of some notices.
pub open spec fn notice_ids(notices: Seq<DeviceNotice>) -> Seq<u32> {
    notices.map_values(|notice: DeviceNotice| notice.vmid)
}

impl HeartbeatOutcome {
    /// Whether this is all that is to be done about the VMs `ids`, which are
    /// in ascending order.
    pub open spec fn covers(
        self,
        ids: Seq<u32>,
        state: HostView,
        timeout_seconds: u64,
        policy: HeartbeatPolicy,
        now: u64,
    ) -> bool {
        let fate = |vmid: u32| fate_of(state, vmid, timeout_seconds, policy, now);
        &&& self.expired@ == ids.filter(|vmid: u32| fate(vmid) != Fate::Stays)
        &&& plan_ids(self.preserves@) == ids.filter(|vmid: u32| fate(vmid) == Fate::Preserved)
        &&& notice_ids(self.removals@) == ids.filter(|vmid: u32| fate(vmid) == Fate::Removed)
        &&& forall|i: int|
            0 <= i < self.preserves@.len() ==> {
                let plan = #[trigger] self.preserves@[i];
                &&& plan.event == DeviceEvent::Offline
                &&& state.vms.contains_key(plan.vmid)
                &&& plan.keeps(plan.vmid, state.vms[plan.vmid])
            }
        &&& forall|i: int|
            0 <= i < self.removals@.len() ==> {
                let notice = #[trigger] self.removals@[i];
                let vm = state.vms[notice.vmid];
                &&& notice.event == DeviceEvent::Offline
                &&& state.vms.contains_key(notice.vmid)
                &&& notice.hwmon_name@ == vm.hwmon_name
                &&& notice.hwmon_path@ == vm.hwmon_path
                &&& notice.sensor_count == vm.sensor_count
            }
    }
}

impl HostState {
    /// Looks for VMs whose agents have been silent for too long.
    pub fn check_heartbeats(
        &mut self,
        timeout_seconds: u64,
        policy: HeartbeatPolicy,
        now: u64,
    ) -> (outcome: HeartbeatOutcome)
        requires
            old(self)@.wf(),
        ensures
            final(self)@.wf(),
            final(self)@ == after_heartbeats(old(self)@, timeout_seconds, policy, now),
            exists|ids: Seq<u32>|
                lists_keys(ids, old(self)@.vms) && #[trigger] outcome.covers(
                    ids,
                    old(self)@,
                    timeout_seconds,
                    policy,
                    now,
                ),
    {
        let ghost before = self@;
        let ids = self.vms.ids();
        let mut outcome = HeartbeatOutcome {
            expired: Vec::new(),
            preserves: Vec::new(),
            removals: Vec::new(),
        };
        let ghost after = after_heartbeats(before, timeout_seconds, policy, now);
        let ghost fate = |vmid: u32| fate_of(before, vmid, timeout_seconds, policy, now);
        let ghost keep = |vmid: u32| fate(vmid) != Fate::Stays;
        let ghost preserve = |vmid: u32| fate(vmid) == Fate::Preserved;
        let ghost remove = |vmid: u32| fate(vmid) == Fate::Removed;
        proof {
            assert(ids@.take(0) =~= Seq::<u32>::empty());
            lemma_filter_empty(keep);
            lemma_filter_empty(preserve);
            lemma_filter_empty(remove);
            assert(plan_ids(outcome.preserves@) =~= Seq::<u32>::empty());
            assert(notice_ids(outcome.removals@) =~= Seq::<u32>::empty());
        }
        for i in 0..ids.len()
            invariant
                before.wf(),
                lists_keys(ids@, before.vms),
                after == after_heartbeats(before, timeout_seconds, policy, now),
                fate == (|vmid: u32| fate_of(before, vmid, timeout_seconds, policy, now)),
                keep == (|vmid: u32| fate(vmid) != Fate::Stays),
                preserve == (|vmid: u32| fate(vmid) == Fate::Preserved),
                remove == (|vmid: u32| fate(vmid) == Fate::Removed),
                self@.schema_rate == before.schema_rate,
                forall|j: int|
                    0 <= j < i ==> {
                        let id = #[trigger] ids@[j];
                        &&& lookup(self@.vms, id) == lookup(after.vms, id)
                        &&& lookup(self@.hwmon_names, id) == lookup(after.hwmon_names, id)
                    },
                forall|j: int|
                    i <= j < ids@.len() ==> {
                        let id = #[trigger] ids@[j];
                        &&& lookup(self@.vms, id) == lookup(before.vms, id)
                        &&& lookup(self@.hwmon_names, id) == lookup(before.hwmon_names, id)
                    },
                forall|id: u32|
                    !ids@.contains(id) ==> {
                        &&& lookup(#[trigger] self@.vms, id) == lookup(before.vms, id)
                        &&& lookup(self@.hwmon_names, id) == lookup(before.hwmon_names, id)
                    },
                outcome.covers(ids@.take(i as int), before, timeout_seconds, policy, now),
        {
            let id = ids[i];
            proof {
                assert(ids@.contains(id));
                assert(before.vms.contains_key(id));
                assert(lookup(self@.vms, id) == lookup(before.vms, id));
                assert(ids@.take(i as int + 1) =~= ids@.take(i as int).push(id));
                lemma_filter_push(ids@.take(i as int), id, keep);
                lemma_filter_push(ids@.take(i as int), id, preserve);
                lemma_filter_push(ids@.take(i as int), id, remove);
            }
            let ghost done = outcome;
            if let Some(vm) = self.vms.remove(id) {
                let mut vm = vm;
                match decide(&vm, timeout_seconds, policy, now) {
                    Fate::Stays => {
                        self.vms.insert(id, vm);
                    },
                    Fate::Reported => {
                        outcome.expired.push(id);
                        vm.offline_reported = true;
                        self.vms.insert(id, vm);
                    },
                    Fate::Preserved => {
                        outcome.expired.push(id);
                        vm.offline_reported = true;
                        let plan = plan_defaults(
                            DeviceEvent::Offline,
                            id,
                            vm.generation,
                            vm.hwmon_name.clone(),
                            copy_persistent(&vm.persistent_sensors),
                        );
                        outcome.preserves.push(plan);
                        assert(plan_ids(outcome.preserves@) =~= plan_ids(done.preserves@).push(id));
                        self.vms.insert(id, vm);
                    },
                    Fate::Removed => {
                        outcome.expired.push(id);
                        let notice = DeviceNotice {
                            vmid: id,
                            event: DeviceEvent::Offline,
                            hwmon_name: vm.hwmon_name,
                            hwmon_path: vm.hwmon_path,
                            sensor_count: vm.sensor_count,
                        };
                        outcome.removals.push(notice);
                        assert(notice_ids(outcome.removals@) =~= notice_ids(done.removals@).push(
                            id,
                        ));
                        self.hwmon_names.remove(id);
                    },
                }
            }
            assert forall|j: int| 0 <= j < i + 1 implies {
                let other = #[trigger] ids@[j];
                &&& lookup(self@.vms, other) == lookup(after.vms, other)
                &&& lookup(self@.hwmon_names, other) == lookup(after.hwmon_names, other)
            } by {
                if j < i {
                    assert(ids@[j] < ids@[i as int]);
                }
            }
            assert forall|j: int| i + 1 <= j < ids@.len() implies {
                let other = #[trigger] ids@[j];
                &&& lookup(self@.vms, other) == lookup(before.vms, other)
                &&& lookup(self@.hwmon_names, other) == lookup(before.hwmon_names, other)
            } by {
                assert(ids@[i as int] < ids@[j]);
            }
        }
        proof {
            assert(ids@.take(ids@.len() as int) =~= ids@);
            assert forall|id: u32|
                lookup(#[trigger] self@.vms, id) == lookup(after.vms, id) && lookup(
                    self@.hwmon_names,
                    id,
                ) == lookup(after.hwmon_names, id) by {
                if ids@.contains(id) {
                    let j = choose|j: int| 0 <= j < ids@.len() && ids@[j] == id;
                    assert(lookup(self@.vms, ids@[j]) == lookup(after.vms, ids@[j]));
                }
            }
            lemma_lookup_equal(self@.vms, after.vms);
            lemma_lookup_equal(self@.hwmon_names, after.hwmon_names);
            assert(self@ =~= after);
            assert forall|id: u32| #[trigger]
                self@.vms.contains_key(id) implies self@.vms[id].persistent_sensors.len()
                <= MAX_SENSORS by {
                assert(before.vms.contains_key(id));
            }
        }
        outcome
    }
}

proof fn lemma_lookup_equal<V>(a: Map<u32, V>, b: Map<u32, V>)
    requires
        forall|id: u32| lookup(a, id) == lookup(b, id),
    ensures
        a == b,
{
    assert forall|id: u32| #[trigger] a.dom().contains(id) == b.dom().contains(id) by {
        assert(lookup(a, id) == lookup(b, id));
    }
    assert(a.dom() =~= b.dom());
    assert forall|id: u32| #[trigger] a.dom().contains(id) implies a[id] == b[id] by {
        assert(lookup(a, id) == lookup(b, id));
    }
    assert(a =~= b);
}

proof fn lemma_filter_empty(f: spec_fn(u32) -> bool)
    ensures
        Seq::<u32>::empty().filter(f) == Seq::<u32>::empty(),
{
    reveal(Seq::filter);
}

proof fn lemma_filter_push(s: Seq<u32>, x: u32, f: spec_fn(u32) -> bool)
    ensures
        s.push(x).filter(f) == (if f(x) {
            s.filter(f).push(x)
        } else {
            s.filter(f)
        }),
{
    reveal(Seq::filter);
    assert(s.push(x).drop_last() =~= s);
}

/// A VM with persistent sensors is never removed for being silent: it keeps
/// its persistent sensors.
pub proof fn law_persistent_survive_silence(
    state: HostView,
    vmid: u32,
    timeout_seconds: u64,
    policy: HeartbeatPolicy,
    now: u64,
)
    requires
        has_persistent(state, vmid),
    ensures
        ({
            let after = after_heartbeats(state, timeout_seconds, policy, now);
            &&& after.vms.contains_key(vmid)
            &&& after.vms[vmid].persistent_sensors == state.vms[vmid].persistent_sensors
        }),
{
}

/// A message resets the clock: within the timeout its VM stays as it is.
pub proof fn law_message_resets_liveness(
    state: HostView,
    vmid: u32,
    at: u64,
    timeout_seconds: u64,
    policy: HeartbeatPolicy,
    now: u64,
)
    requires
        elapsed(now, at) < timeout_seconds * 1_000_000_000,
    ensures
        fate_of(seen(state, vmid, at), vmid, timeout_seconds, policy, now) == Fate::Stays,
{
}

/// An absence is reported once: a second check, however much later, does
/// nothing to a VM that the first check found to be away.
pub proof fn law_absence_reported_once(
    state: HostView,
    timeout_seconds: u64,
    policy: HeartbeatPolicy,
    now: u64,
    vmid: u32,
    later_timeout: u64,
    later_policy: HeartbeatPolicy,
    later: u64,
)
    requires
        fate_of(state, vmid, timeout_seconds, policy, now) != Fate::Stays,
    ensures
        fate_of(
            after_heartbeats(state, timeout_seconds, policy, now),
            vmid,
            later_timeout,
            later_policy,
            later,
        ) == Fate::Stays,
{
}

/// Nothing but accepted schemas touches the limit on schemas: neither messages
/// of another kind nor silence nor leaving opens it again.
pub proof fn law_limit_survives_absence(
    state: HostView,
    timeout_seconds: u64,
    policy: HeartbeatPolicy,
    now: u64,
    left: u32,
    departure: Departure,
    after: HostView,
    hwmon_name: Option<Seq<char>>,
    vmid: u32,
)
    requires
        departure_outcome(state, left, departure, after),
    ensures
        rate_step(state, vmid, now, false, after),
        rate_step(
            state,
            vmid,
            now,
            false,
            after_heartbeats(state, timeout_seconds, policy, now),
        ),
        rate_step(state, vmid, now, false, seen(state, left, now)),
        rate_step(state, vmid, now, false, greeted(state, left, hwmon_name)),
{
}

// ── Across restarts ──────────────────────────────────────────────────────────

/// What is remembered of one VM across restarts of the daemon.
#[derive(Debug)]
pub struct PersistentCacheVm {
    pub vmid: u32,
    pub generation: u64,
    pub hwmon_name: String,
    pub sensors: Vec<PersistentRuntimeSensor>,
}

/// What is remembered of one VM, as mathematical values.
#[verifier::ext_equal]
pub struct CacheView {
    pub vmid: u32,
    pub generation: u64,
    pub hwmon_name: Seq<char>,
    pub sensors: Seq<(DescriptorView, i64)>,
}

impl View for PersistentCacheVm {
    type V = CacheView;

    open spec fn view(&self) -> CacheView {
        CacheView {
            vmid: self.vmid,
            generation: self.generation,
            hwmon_name: self.hwmon_name@,
            sensors: persistent_views(self.sensors@),
        }
    }
}

/// What is remembered of a VM.
pub open spec fn cache_entry(vmid: u32, vm: VmView) -> CacheView {
    CacheView {
        vmid,
        generation: vm.generation,
        hwmon_name: vm.hwmon_name,
        sensors: vm.persistent_sensors,
    }
}

/// Whether a remembered VM can be brought back: it has a number, and some but
/// not too many sensors.
pub open spec fn restorable(entry: CacheView) -> bool {
    entry.vmid != 0 && 0 < entry.sensors.len() <= MAX_SENSORS
}

/// The VMs of some remembered entries.
pub open spec fn cache_ids(entries: Seq<PersistentCacheVm>) -> Seq<u32> {
    entries.map_values(|entry: PersistentCacheVm| entry.vmid)
}

impl HostState {
    /// What to remember: the VMs with persistent sensors, in ascending order.
    pub fn cached_vms(&self) -> (entries: Vec<PersistentCacheVm>)
        ensures
            ascending(cache_ids(entries@)),
            forall|i: int|
                0 <= i < entries@.len() ==> {
                    let entry = #[trigger] entries@[i];
                    &&& has_persistent(self@, entry.vmid)
                    &&& entry@ == cache_entry(entry.vmid, self@.vms[entry.vmid])
                },
            forall|vmid: u32| #[trigger]
                has_persistent(self@, vmid) ==> cache_ids(entries@).contains(vmid),
    {
        let ids = self.vms.ids();
        let mut entries: Vec<PersistentCacheVm> = Vec::new();
        for i in 0..ids.len()
            invariant
                lists_keys(ids@, self@.vms),
                ascending(cache_ids(entries@)),
                forall|j: int|
                    0 <= j < entries@.len() ==> {
                        let entry = #[trigger] entries@[j];
                        &&& has_persistent(self@, entry.vmid)
                        &&& entry@ == cache_entry(entry.vmid, self@.vms[entry.vmid])
                        &&& ids@.take(i as int).contains(entry.vmid)
                    },
                forall|j: int|
                    0 <= j < i && has_persistent(self@, #[trigger] ids@[j]) ==> cache_ids(
                        entries@,
                    ).contains(ids@[j]),
        {
            let id = ids[i];
            let ghost done = entries@;
            proof {
                assert(ids@.contains(id));
                assert(ids@.take(i as int + 1) =~= ids@.take(i as int).push(id));
                assert forall|x: u32| ids@.take(i as int).contains(x) implies x < id && ids@.take(
                    i as int + 1,
                ).contains(x) by {
                    let k = choose|k: int| 0 <= k < i && ids@.take(i as int)[k] == x;
                    assert(ids@[k] < ids@[i as int]);
                    assert(ids@.take(i as int + 1)[k] == x);
                }
                assert(ids@.take(i as int + 1)[i as int] == id);
            }
            if let Some(vm) = self.vms.get(id) {
                if vm.persistent_sensors.len() > 0 {
                    entries.push(
                        PersistentCacheVm {
                            vmid: id,
                            generation: vm.generation,
                            hwmon_name: vm.hwmon_name.clone(),
                            sensors: copy_persistent(&vm.persistent_sensors),
                        },
                    );
                    proof {
                        assert(cache_ids(entries@) =~= cache_ids(done).push(id));
                        assert(cache_ids(entries@)[done.len() as int] == id);
                        assert forall|a: int, b: int|
                            0 <= a < b < cache_ids(entries@).len() implies cache_ids(entries@)[a]
                            < cache_ids(entries@)[b] by {
                            assert(done[a].vmid == cache_ids(entries@)[a]);
                            if b < done.len() {
                                assert(cache_ids(done)[a] < cache_ids(done)[b]);
                            }
                        }
                        assert forall|j: int|
                            0 <= j < i && has_persistent(
                                self@,
                                #[trigger] ids@[j],
                            ) implies cache_ids(entries@).contains(ids@[j]) by {
                            let k = choose|k: int|
                                0 <= k < cache_ids(done).len() && cache_ids(done)[k] == ids@[j];
                            assert(cache_ids(entries@)[k] == ids@[j]);
                        }
                    }
                }
            }
        }
        proof {
            assert forall|vmid: u32| #[trigger] has_persistent(self@, vmid) implies cache_ids(
                entries@,
            ).contains(vmid) by {
                assert(ids@.contains(vmid));
                let j = choose|j: int| 0 <= j < ids@.len() && ids@[j] == vmid;
                assert(has_persistent(self@, ids@[j]));
            }
        }
        entries
    }

    /// Brings back a remembered VM: its device name at once, its sensors once
    /// the kernel has taken the plan. An entry that cannot be brought back
    /// changes nothing.
    pub fn restore(&mut self, entry: PersistentCacheVm) -> (plan: Option<DefaultsPlan>)
        requires
            old(self)@.wf(),
        ensures
            final(self)@.wf(),
            match plan {
                None => !restorable(entry@) && final(self)@ == old(self)@,
                Some(plan) => {
                    &&& restorable(entry@)
                    &&& plan.event == DeviceEvent::Created
                    &&& final(self)@ == (HostView {
                        hwmon_names: old(self)@.hwmon_names.insert(entry.vmid, entry.hwmon_name@),
                        ..old(self)@
                    })
                    &&& plan.stands_for(
                        entry.vmid,
                        entry.generation,
                        entry.hwmon_name@,
                        persistent_views(entry.sensors@),
                    )
                },
            },
    {
        let ghost before = self@;
        if entry.vmid == 0 || entry.sensors.len() == 0 || entry.sensors.len() > MAX_SENSORS {
            return None;
        }
        self.hwmon_names.insert(entry.vmid, entry.hwmon_name.clone());
        assert(self@.vms == before.vms);
        Some(
            plan_defaults(
                DeviceEvent::Created,
                entry.vmid,
                entry.generation,
                entry.hwmon_name,
                entry.sensors,
            ),
        )
    }
}

/// What is remembered of a VM brings it back: the entry is restorable, the VM
/// comes back with the same generation, device name and persistent sensors, it
/// counts as not heard of and is asked for a resync, and is remembered in the
/// same way again.
pub proof fn law_restore_gives_back(state: HostView, vmid: u32, hwmon_path: Seq<char>, now: u64)
    requires
        state.wf(),
        has_persistent(state, vmid),
        vmid != 0,
    ensures
        ({
            let entry = cache_entry(vmid, state.vms[vmid]);
            let vm = defaults_vm(
                None,
                entry.generation,
                entry.hwmon_name,
                entry.sensors,
                hwmon_path,
                now,
            );
            &&& restorable(entry)
            &&& vm.generation == state.vms[vmid].generation
            &&& vm.hwmon_name == state.vms[vmid].hwmon_name
            &&& vm.persistent_sensors == state.vms[vmid].persistent_sensors
            &&& !vm.heard
            &&& !vm.schema_synced
            &&& cache_entry(vmid, vm) == entry
        }),
{
}

} // verus!
