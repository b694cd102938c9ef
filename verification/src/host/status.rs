//! What the host daemon tells the management tool.

use crate::host::presence::{
    after_heartbeats, defaults_vm, fate_of, CacheView, Fate, HeartbeatPolicy,
};
use crate::host::runtime::{persistent_views, PersistentRuntimeSensor, VmRuntime, VmView};
use crate::host::state::{HostState, HostView};
use crate::host::vm_map::{ascending, VmMap};
use crate::id_map::{distinct_keys, has_key, lemma_mapping_entry, mapping, place_of, IdMap};
use crate::number::{parse_reading, reading_of};
use crate::path::{join_path, path_join};
use crate::protocol::{
    CtlRequest, CtlResponse, DescriptorView, SensorInfo, SensorInfoView, SensorKind, VmInfo,
};
use crate::text::{
    lemma_text_less_total, lemma_text_less_transitive, less, same, text_less,
};
use crate::time::{elapsed, elapsed_nanos, has_passed, lookup, passed};
use vstd::prelude::*;

verus! {

// ── Sensors ──────────────────────────────────────────────────────────────────

/// The sysfs attribute of a sensor; empty where it has none.
pub open spec fn attr_of(vm: VmView, id: Seq<char>) -> Seq<char> {
    match lookup(vm.sensor_attrs, id) {
        Some(attr) => attr,
        None => Seq::empty(),
    }
}

/// Whether the value of a sensor can be looked up.
pub open spec fn has_file(vm: VmView, id: Seq<char>) -> bool {
    attr_of(vm, id).len() > 0 && vm.hwmon_path.len() > 0
}

/// The default value of the first persistent sensor with the given identifier.
pub open spec fn default_of(persistent: Seq<(DescriptorView, i64)>, id: Seq<char>) -> Option<i64>
    decreases persistent.len(),
{
    if persistent.len() == 0 {
        None
    } else if persistent[0].0.id == id {
        Some(persistent[0].1)
    } else {
        default_of(persistent.skip(1), id)
    }
}

/// What is reported of a sensor of a VM, where `readings` are the texts that
/// its sysfs attributes hold.
pub open spec fn info_of(
    vm: VmView,
    readings: Map<Seq<char>, Seq<char>>,
    id: Seq<char>,
) -> SensorInfoView {
    SensorInfoView {
        id,
        kind: vm.signatures[id].0,
        label: vm.signatures[id].1,
        persistent: default_of(vm.persistent_sensors, id) is Some,
        default_value: default_of(vm.persistent_sensors, id),
        hwmon_attr: attr_of(vm, id),
        value: if has_file(vm, id) && readings.contains_key(id) {
            reading_of(readings[id])
        } else {
            None
        },
    }
}

fn find_default(persistent: &[PersistentRuntimeSensor], id: &str) -> (value: Option<i64>)
    ensures
        value == default_of(persistent_views(persistent@), id@),
{
    let ghost all = persistent_views(persistent@);
    assert(all.skip(0) =~= all);
    for i in 0..persistent.len()
        invariant
            all == persistent_views(persistent@),
            default_of(all, id@) == default_of(all.skip(i as int), id@),
    {
        assert(all.skip(i as int)[0] == persistent@[i as int]@);
        if same(&persistent[i].descriptor.id, id) {
            return Some(persistent[i].default_value);
        }
        assert(all.skip(i as int).skip(1) =~= all.skip(i as int + 1));
    }
    None
}

fn attr_text(vm: &VmRuntime, id: &str) -> (attr: String)
    ensures
        attr@ == attr_of(vm@, id@),
{
    match vm.sensor_attrs.get(id) {
        Some(attr) => attr.clone(),
        None => String::new(),
    }
}

/// The files that hold the values of a VM's sensors, each under the identifier
/// of its sensor.
pub fn attribute_files(vm: &VmRuntime) -> (files: IdMap<String>)
    ensures
        forall|id: Seq<char>| #[trigger]
            files@.contains_key(id) <==> vm.signatures@.contains_key(id) && has_file(vm@, id),
        forall|id: Seq<char>|
            files@.contains_key(id) ==> #[trigger] files@[id] == path_join(
                vm.hwmon_path@,
                attr_of(vm@, id),
            ),
{
    let entries = vm.signatures.entries();
    let mut files: IdMap<String> = IdMap::new();
    for i in 0..entries.len()
        invariant
            distinct_keys(entries@),
            mapping(entries@) == vm.signatures@,
            forall|id: Seq<char>| #[trigger]
                files@.contains_key(id) <==> has_key(entries@.take(i as int), id) && has_file(
                    vm@,
                    id,
                ),
            forall|id: Seq<char>|
                files@.contains_key(id) ==> #[trigger] files@[id] == path_join(
                    vm.hwmon_path@,
                    attr_of(vm@, id),
                ),
    {
        let ghost before = entries@.take(i as int);
        let ghost after = entries@.take(i as int + 1);
        let id = &entries[i].0;
        proof {
            assert forall|other: Seq<char>|
                has_key(after, other) == (has_key(before, other) || other == id@) by {
                if has_key(before, other) {
                    let j = place_of(before, other);
                    assert(after[j].0@ == other);
                }
                assert(after[i as int].0@ == id@);
                if has_key(after, other) && other != id@ {
                    let j = place_of(after, other);
                    assert(before[j].0@ == other);
                }
            }
        }
        let attr = attr_text(vm, id);
        if attr.as_str().unicode_len() > 0 && vm.hwmon_path.as_str().unicode_len() > 0 {
            files.insert(id.clone(), join_path(&vm.hwmon_path, &attr));
        }
    }
    assert(entries@.take(entries@.len() as int) =~= entries@);
    files
}

fn sensor_info(
    vm: &VmRuntime,
    readings: &IdMap<String>,
    entry: &(String, (SensorKind, String)),
) -> (info: SensorInfo)
    requires
        vm.signatures@.contains_key(entry.0@),
        vm.signatures@[entry.0@] == entry.1@,
    ensures
        info@ == info_of(vm@, readings@, entry.0@),
{
    let id = &entry.0;
    let hwmon_attr = attr_text(vm, id);
    let value = if hwmon_attr.as_str().unicode_len() > 0 && vm.hwmon_path.as_str().unicode_len()
        > 0 {
        match readings.get(id) {
            Some(contents) => parse_reading(contents),
            None => None,
        }
    } else {
        None
    };
    let default_value = find_default(&vm.persistent_sensors, id);
    SensorInfo {
        id: id.clone(),
        kind: entry.1.0,
        label: entry.1.1.clone(),
        persistent: default_value.is_some(),
        default_value,
        hwmon_attr,
        value,
    }
}

/// Whether reports stand in the order of their attributes.
pub open spec fn in_attr_order(infos: Seq<SensorInfo>) -> bool {
    forall|i: int, j: int|
        0 <= i < j < infos.len() ==> !text_less(
            (#[trigger] infos[j]).hwmon_attr@,
            (#[trigger] infos[i]).hwmon_attr@,
        )
}

fn insert_in_order(infos: &mut Vec<SensorInfo>, info: SensorInfo)
    requires
        in_attr_order(old(infos)@),
    ensures
        in_attr_order(final(infos)@),
        exists|at: int|
            0 <= at <= old(infos)@.len() && final(infos)@ == #[trigger] old(infos)@.insert(
                at,
                info,
            ),
{
    let ghost before = infos@;
    let ghost attr = info.hwmon_attr@;
    let mut at: usize = infos.len();
    while at > 0 && less(&info.hwmon_attr, &infos[at - 1].hwmon_attr)
        invariant
            infos@ == before,
            attr == info.hwmon_attr@,
            at <= before.len(),
            forall|k: int|
                at <= k < before.len() ==> text_less(attr, (#[trigger] before[k]).hwmon_attr@),
        decreases at,
    {
        at = at - 1;
    }
    let ghost entry = info;
    infos.insert(at, info);
    proof {
        let after = before.insert(at as int, entry);
        assert forall|i: int, j: int| 0 <= i < j < after.len() implies !text_less(
            (#[trigger] after[j]).hwmon_attr@,
            (#[trigger] after[i]).hwmon_attr@,
        ) by {
            if j < at {
                assert(after[i] == before[i]);
                assert(after[j] == before[j]);
            } else if j == at {
                assert(after[i] == before[i]);
                if text_less(attr, before[i].hwmon_attr@) {
                    let last = at - 1;
                    if i < last {
                        assert(!text_less(before[last].hwmon_attr@, before[i].hwmon_attr@));
                        lemma_text_less_total(before[last].hwmon_attr@, before[i].hwmon_attr@);
                        if before[i].hwmon_attr@ != before[last].hwmon_attr@ {
                            lemma_text_less_transitive(
                                attr,
                                before[i].hwmon_attr@,
                                before[last].hwmon_attr@,
                            );
                        }
                    }
                    assert(text_less(attr, before[last].hwmon_attr@));
                }
            } else if i == at {
                assert(after[j] == before[j - 1]);
                lemma_text_less_total(attr, before[j - 1].hwmon_attr@);
            } else {
                assert(after[j] == before[j - 1]);
                assert(after[i] == (if i < at {
                    before[i]
                } else {
                    before[i - 1]
                }));
            }
        }
    }
}

/// Whether `infos` report each sensor of a VM once, in the order of their
/// attributes.
pub open spec fn reports_sensors(
    infos: Seq<SensorInfo>,
    vm: VmView,
    readings: Map<Seq<char>, Seq<char>>,
) -> bool {
    &&& in_attr_order(infos)
    &&& forall|i: int|
        0 <= i < infos.len() ==> {
            let info = #[trigger] infos[i];
            vm.signatures.contains_key(info.id@) && info@ == info_of(vm, readings, info.id@)
        }
    &&& forall|i: int, j: int|
        0 <= i < j < infos.len() ==> (#[trigger] infos[i]).id@ != (#[trigger] infos[j]).id@
    &&& forall|id: Seq<char>| #[trigger]
        vm.signatures.contains_key(id) ==> exists|i: int|
            0 <= i < infos.len() && (#[trigger] infos[i]).id@ == id
}

/// Whether one of `infos` is of the sensor `id`.
pub open spec fn reported(infos: Seq<SensorInfo>, id: Seq<char>) -> bool {
    exists|i: int| 0 <= i < infos.len() && (#[trigger] infos[i]).id@ == id
}

/// Reports the sensors of a VM.
pub fn build_sensor_infos(vm: &VmRuntime, readings: &IdMap<String>) -> (infos: Vec<SensorInfo>)
    ensures
        reports_sensors(infos@, vm@, readings@),
{
    let entries = vm.signatures.entries();
    let mut infos: Vec<SensorInfo> = Vec::new();
    for n in 0..entries.len()
        invariant
            distinct_keys(entries@),
            mapping(entries@) == vm.signatures@,
            in_attr_order(infos@),
            forall|i: int|
                0 <= i < infos@.len() ==> {
                    let info = #[trigger] infos@[i];
                    &&& vm.signatures@.contains_key(info.id@)
                    &&& info@ == info_of(vm@, readings@, info.id@)
                    &&& has_key(entries@.take(n as int), info.id@)
                },
            forall|i: int, j: int|
                0 <= i < j < infos@.len() ==> (#[trigger] infos@[i]).id@ != (
                #[trigger] infos@[j]).id@,
            forall|k: int| 0 <= k < n ==> reported(infos@, (#[trigger] entries@[k]).0@),
    {
        let ghost done = infos@;
        let ghost taken = entries@.take(n as int);
        let ghost id = entries@[n as int].0@;
        proof {
            lemma_mapping_entry(entries@, n as int);
        }
        let info = sensor_info(vm, readings, &entries[n]);
        let ghost fresh = info;
        insert_in_order(&mut infos, info);
        proof {
            let at = choose|at: int|
                0 <= at <= done.len() && infos@ == #[trigger] done.insert(at, fresh);
            assert(fresh@.id == id);
            assert(fresh.id@ == id);
            assert(!has_key(taken, id)) by {
                if has_key(taken, id) {
                    let k = place_of(taken, id);
                    assert(taken[k] == entries@[k]);
                }
            }
            let more = entries@.take(n as int + 1);
            assert(more[n as int].0@ == id);
            assert forall|i: int| 0 <= i < infos@.len() implies {
                let info = #[trigger] infos@[i];
                &&& vm.signatures@.contains_key(info.id@)
                &&& info@ == info_of(vm@, readings@, info.id@)
                &&& has_key(more, info.id@)
            } by {
                if i == at {
                    assert(infos@[i] == fresh);
                } else {
                    let old_i = if i < at {
                        i
                    } else {
                        i - 1
                    };
                    assert(infos@[i] == done[old_i]);
                    let k = place_of(taken, done[old_i].id@);
                    assert(more[k].0@ == done[old_i].id@);
                }
            }
            assert forall|i: int, j: int| 0 <= i < j < infos@.len() implies (
            #[trigger] infos@[i]).id@ != (#[trigger] infos@[j]).id@ by {
                let old_i = if i < at {
                    i
                } else {
                    i - 1
                };
                let old_j = if j < at {
                    j
                } else {
                    j - 1
                };
                if i == at {
                    assert(infos@[j] == done[old_j]);
                    assert(has_key(taken, done[old_j].id@));
                } else if j == at {
                    assert(infos@[i] == done[old_i]);
                    assert(has_key(taken, done[old_i].id@));
                } else {
                    assert(infos@[i] == done[old_i]);
                    assert(infos@[j] == done[old_j]);
                }
            }
            assert forall|k: int| 0 <= k < n + 1 implies reported(
                infos@,
                (#[trigger] entries@[k]).0@,
            ) by {
                if k < n {
                    assert(reported(done, entries@[k].0@));
                    let i = choose|i: int|
                        0 <= i < done.len() && (#[trigger] done[i]).id@ == entries@[k].0@;
                    let new_i = if i < at {
                        i
                    } else {
                        i + 1
                    };
                    assert(infos@[new_i] == done[i]);
                } else {
                    assert(infos@[at] == fresh);
                }
            }
        }
    }
    proof {
        assert forall|id: Seq<char>| #[trigger] vm@.signatures.contains_key(id) implies exists|
            i: int,
        |
            0 <= i < infos@.len() && (#[trigger] infos@[i]).id@ == id by {
            let k = place_of(entries@, id);
            assert(has_key(entries@, id));
            assert(reported(infos@, entries@[k].0@));
        }
    }
    infos
}

// ── VMs ──────────────────────────────────────────────────────────────────────

/// Whether `info` reports the VM `vmid`.
pub open spec fn reports_vm(
    info: VmInfo,
    vmid: u32,
    vm: VmView,
    readings: Map<Seq<char>, Seq<char>>,
    timeout_seconds: u64,
    now: u64,
) -> bool {
    &&& info.vmid == vmid
    &&& info.hwmon_name@ == vm.hwmon_name
    &&& info.hwmon_path@ == vm.hwmon_path
    &&& info.generation == vm.generation
    &&& info.online == (vm.heard && !has_passed(now, vm.last_seen, timeout_seconds))
    &&& info.offline_reported == vm.offline_reported
    &&& info.last_seen_nanos_ago == elapsed(now, vm.last_seen)
    &&& reports_sensors(info.sensors@, vm, readings)
}

/// Reports a VM.
pub fn vm_info(
    vmid: u32,
    vm: &VmRuntime,
    readings: &IdMap<String>,
    timeout_seconds: u64,
    now: u64,
) -> (info: VmInfo)
    ensures
        reports_vm(info, vmid, vm@, readings@, timeout_seconds, now),
{
    VmInfo {
        vmid,
        hwmon_name: vm.hwmon_name.clone(),
        hwmon_path: vm.hwmon_path.clone(),
        generation: vm.generation,
        online: vm.heard && !passed(now, vm.last_seen, timeout_seconds),
        offline_reported: vm.offline_reported,
        last_seen_nanos_ago: elapsed_nanos(now, vm.last_seen),
        sensors: build_sensor_infos(vm, readings),
    }
}

/// A VM whose agent was found to be silent is reported as such for as long as it
/// stays silent: it is not online, and was last seen when its last message came.
pub proof fn law_silent_vm_is_offline(
    state: HostView,
    vmid: u32,
    timeout_seconds: u64,
    policy: HeartbeatPolicy,
    now: u64,
    hwmon_path: Seq<char>,
    committed: u64,
    info: VmInfo,
    readings: Map<Seq<char>, Seq<char>>,
    later: u64,
)
    requires
        fate_of(state, vmid, timeout_seconds, policy, now) == Fate::Preserved,
        now <= later,
        ({
            let vm = after_heartbeats(state, timeout_seconds, policy, now).vms[vmid];
            reports_vm(
                info,
                vmid,
                defaults_vm(
                    Some(vm),
                    vm.generation,
                    vm.hwmon_name,
                    vm.persistent_sensors,
                    hwmon_path,
                    committed,
                ),
                readings,
                timeout_seconds,
                later,
            )
        }),
    ensures
        !info.online,
        info.offline_reported,
        info.last_seen_nanos_ago == elapsed(later, state.vms[vmid].last_seen),
        info.last_seen_nanos_ago >= timeout_seconds * 1_000_000_000,
{
}

/// A VM that was brought back from the cache is not online before a message of
/// its agent comes.
pub proof fn law_restored_vm_is_offline(
    entry: CacheView,
    hwmon_path: Seq<char>,
    committed: u64,
    info: VmInfo,
    readings: Map<Seq<char>, Seq<char>>,
    timeout_seconds: u64,
    now: u64,
)
    requires
        reports_vm(
            info,
            entry.vmid,
            defaults_vm(
                None,
                entry.generation,
                entry.hwmon_name,
                entry.sensors,
                hwmon_path,
                committed,
            ),
            readings,
            timeout_seconds,
            now,
        ),
    ensures
        !info.online,
{
}

/// The VM that a request is limited to, if any.
pub open spec fn request_filter(request: CtlRequest) -> Option<u32> {
    match request {
        CtlRequest::ListVms => None,
        CtlRequest::GetVm { vmid } => Some(vmid),
    }
}

/// The known VMs that a request asks for.
pub open spec fn selected(state: HostView, filter: Option<u32>, vmid: u32) -> bool {
    state.vms.contains_key(vmid) && (filter is None || filter == Some(vmid))
}

impl HostState {
    /// The known VMs that a request asks for, in ascending order.
    pub fn selected_vms(&self, filter: Option<u32>) -> (ids: Vec<u32>)
        ensures
            ascending(ids@),
            forall|vmid: u32| #[trigger] selected(self@, filter, vmid) <==> ids@.contains(vmid),
    {
        match filter {
            None => {
                let ids = self.vms.ids();
                assert forall|vmid: u32| #[trigger]
                    selected(self@, filter, vmid) <==> ids@.contains(vmid) by {
                    assert(self@.vms.contains_key(vmid) <==> ids@.contains(vmid));
                }
                ids
            },
            Some(vmid) => {
                let mut ids: Vec<u32> = Vec::new();
                if self.vms.get(vmid).is_some() {
                    ids.push(vmid);
                    assert(ids@[0] == vmid);
                }
                ids
            },
        }
    }

    /// Reports the VMs that a request asks for, in ascending order.
    /// `readings` holds the texts of the sysfs attributes of each of them.
    pub fn collect_vm_infos(
        &self,
        filter: Option<u32>,
        readings: &VmMap<IdMap<String>>,
        timeout_seconds: u64,
        now: u64,
    ) -> (infos: Vec<VmInfo>)
        ensures
            forall|i: int, j: int|
                0 <= i < j < infos@.len() ==> (#[trigger] infos@[i]).vmid < (
                #[trigger] infos@[j]).vmid,
            forall|i: int|
                0 <= i < infos@.len() ==> {
                    let info = #[trigger] infos@[i];
                    &&& selected(self@, filter, info.vmid)
                    &&& reports_vm(
                        info,
                        info.vmid,
                        self@.vms[info.vmid],
                        readings_of(readings@, info.vmid),
                        timeout_seconds,
                        now,
                    )
                },
            forall|vmid: u32| #[trigger]
                selected(self@, filter, vmid) ==> exists|i: int|
                    0 <= i < infos@.len() && (#[trigger] infos@[i]).vmid == vmid,
    {
        let ids = self.selected_vms(filter);
        let unread: IdMap<String> = IdMap::new();
        let mut infos: Vec<VmInfo> = Vec::new();
        for n in 0..ids.len()
            invariant
                unread@ == Map::<Seq<char>, Seq<char>>::empty(),
                ascending(ids@),
                forall|vmid: u32| #[trigger]
                    selected(self@, filter, vmid) <==> ids@.contains(vmid),
                infos@.len() == n,
                forall|i: int|
                    0 <= i < n ==> {
                        let info = #[trigger] infos@[i];
                        &&& info.vmid == ids@[i]
                        &&& selected(self@, filter, info.vmid)
                        &&& reports_vm(
                            info,
                            info.vmid,
                            self@.vms[info.vmid],
                            readings_of(readings@, info.vmid),
                            timeout_seconds,
                            now,
                        )
                    },
        {
            let id = ids[n];
            proof {
                assert(ids@.contains(id));
                assert(selected(self@, filter, id));
            }
            let read = match readings.get(id) {
                Some(read) => read,
                None => &unread,
            };
            if let Some(vm) = self.vms.get(id) {
                infos.push(vm_info(id, vm, read, timeout_seconds, now));
            }
        }
        proof {
            assert forall|vmid: u32| #[trigger] selected(self@, filter, vmid) implies exists|
                i: int,
            |
                0 <= i < infos@.len() && (#[trigger] infos@[i]).vmid == vmid by {
                assert(ids@.contains(vmid));
                let i = choose|i: int| 0 <= i < ids@.len() && ids@[i] == vmid;
                assert(infos@[i].vmid == vmid);
            }
        }
        infos
    }
}

/// The texts of the sysfs attributes of a VM; none where none were read.
pub open spec fn readings_of(
    readings: Map<u32, Map<Seq<char>, Seq<char>>>,
    vmid: u32,
) -> Map<Seq<char>, Seq<char>> {
    match lookup(readings, vmid) {
        Some(texts) => texts,
        None => Map::empty(),
    }
}

/// The VM that a request is limited to, if any.
pub fn ctl_filter(request: CtlRequest) -> (filter: Option<u32>)
    ensures
        filter == request_filter(request),
{
    match request {
        CtlRequest::ListVms => None,
        CtlRequest::GetVm { vmid } => Some(vmid),
    }
}

/// Answers a request with the reports of the VMs that it asks for.
pub fn ctl_response(request: CtlRequest, infos: Vec<VmInfo>) -> (response: CtlResponse)
    ensures
        match request {
            CtlRequest::ListVms => response == (CtlResponse::VmList { vms: infos }),
            CtlRequest::GetVm { vmid } => if infos@.len() == 0 {
                response == (CtlResponse::NotFound { vmid })
            } else {
                response == CtlResponse::VmInfo(infos@.last())
            },
        },
        answers(request, infos, response),
{
    match request {
        CtlRequest::ListVms => CtlResponse::VmList { vms: infos },
        CtlRequest::GetVm { vmid } => {
            let mut infos = infos;
            match infos.pop() {
                Some(info) => CtlResponse::VmInfo(info),
                None => CtlResponse::NotFound { vmid },
            }
        },
    }
}

/// Whether a response is the answer to a request, where `infos` are the reports
/// of the VMs that it asks for.
pub open spec fn answers(request: CtlRequest, infos: Vec<VmInfo>, response: CtlResponse) -> bool {
    match response {
        CtlResponse::VmList { vms } => request == CtlRequest::ListVms && vms == infos,
        CtlResponse::VmInfo(info) => request is GetVm && infos@.len() > 0 && info == infos@.last(),
        CtlResponse::NotFound { vmid } => request == (CtlRequest::GetVm { vmid }) && infos@.len()
            == 0,
        _ => false,
    }
}

/// A request for all VMs is answered with all reports, be there any or none. A
/// request for one is answered with its report, and with its number where there is
/// none.
pub proof fn law_answers(vmid: u32, infos: Vec<VmInfo>, response: CtlResponse)
    ensures
        answers(CtlRequest::ListVms, infos, response) <==> response == (CtlResponse::VmList {
            vms: infos,
        }),
        infos@.len() == 0 ==> (answers(CtlRequest::GetVm { vmid }, infos, response) <==> response
            == (CtlResponse::NotFound { vmid })),
        infos@.len() == 1 ==> (answers(CtlRequest::GetVm { vmid }, infos, response) <==> response
            == CtlResponse::VmInfo(infos@[0])),
{
}

} // verus!
