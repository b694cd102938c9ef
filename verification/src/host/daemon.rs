//! The decisions of the host daemon between its calls to the outside: which
//! sockets belong to VMs, what a message leads to, and where things are found.

use crate::ctl::qm::socket_path;
use crate::host::config::VirtioConfig;
use crate::host::kernel::VsbValues;
use crate::host::presence::{departure_outcome, Departure};
use crate::host::state::{
    defaults_given, greeted, lacks_schema, sample_outcome, schema_fault, schema_outcome, HostError,
    HostState, HostView, SchemaStep,
};
use crate::number::{at_most, decimal, law_printed_number_reads_back, parse_u32, parsed_nat};
use crate::path::{file_name, file_name_of, join_path, parent, parent_of, path_join};
use crate::protocol::{descriptor_views, law_sensors_fault, message_fault, value_views, Message};
use crate::text::{
    is_split_once, lemma_split_once_unique, optional_text, same, split_once, split_pair, stands_at,
    strip_prefix, strip_suffix, trim, trimmed, without_prefix, without_suffix,
};
use crate::time::{has_passed, passed};
use vstd::prelude::*;

verus! {

/// The file that the persistent sensors are remembered in.
pub open spec fn cache_file() -> Seq<char> {
    "persistent-vms.json"@
}

/// Seconds between two requests for a resync.
pub const RESYNC_RETRY_SECONDS: u64 = 5;

// ── Sockets ──────────────────────────────────────────────────────────────────

/// The number between `prefix` and `suffix`.
pub open spec fn number_between(s: Seq<char>, prefix: Seq<char>, suffix: Seq<char>) -> Option<u32> {
    match without_prefix(s, prefix) {
        Some(rest) => match without_suffix(rest, suffix) {
            Some(id) => match at_most(parsed_nat(id), u32::MAX as nat) {
                Some(number) => Some(number as u32),
                None => None,
            },
            None => None,
        },
        None => None,
    }
}

/// The VM whose socket has the given path: the template says where its number
/// stands; a template without a place for it means `vm-<number>.sock`.
pub open spec fn socket_vmid(path: Seq<char>, template: Seq<char>) -> Option<u32> {
    match split_pair(template, "{vmid}"@) {
        Some((prefix, suffix)) => number_between(path, prefix, suffix),
        None => match file_name_of(path) {
            Some(name) => number_between(name, "vm-"@, ".sock"@),
            None => None,
        },
    }
}

fn read_number_between(s: &str, prefix: &str, suffix: &str) -> (number: Option<u32>)
    ensures
        number == number_between(s@, prefix@, suffix@),
{
    match strip_prefix(s, prefix) {
        Some(rest) => match strip_suffix(&rest, suffix) {
            Some(id) => parse_u32(&id),
            None => None,
        },
        None => None,
    }
}

/// The VM whose socket has the given path.
pub fn parse_vmid_from_socket(path: &str, socket_template: &str) -> (vmid: Option<u32>)
    ensures
        vmid == socket_vmid(path@, socket_template@),
{
    match split_once(socket_template, "{vmid}") {
        Some((prefix, suffix)) => read_number_between(path, &prefix, &suffix),
        None => match file_name(path) {
            Some(name) => read_number_between(&name, "vm-", ".sock"),
            None => None,
        },
    }
}

/// The socket that a VM gets with its channel is found again: with the default
/// configuration the daemon knows it as the socket of that VM.
pub proof fn law_attached_socket_is_found(config: VirtioConfig, vmid: u32)
    requires
        config.is_default(),
    ensures
        socket_vmid(socket_path(decimal(vmid as nat)), config.socket_template@) == Some(vmid),
{
    let template = config.socket_template@;
    let mark = "{vmid}"@;
    let prefix = "/run/vfio-sensor-bridge/vm-"@;
    let suffix = ".sock"@;
    reveal_strlit("/run/vfio-sensor-bridge/vm-{vmid}.sock");
    reveal_strlit("{vmid}");
    reveal_strlit("/run/vfio-sensor-bridge/vm-");
    reveal_strlit(".sock");
    assert(prefix + mark + suffix =~= template);
    assert(template.subrange(27, 33) =~= mark);
    assert forall|j: int| 0 <= j < 27 implies !stands_at(template, mark, j) by {
        if stands_at(template, mark, j) {
            assert(template.subrange(j, j + 6)[0] == template[j]);
            assert(template[j] != '{');
        }
    }
    assert(is_split_once(template, mark, Some((prefix, suffix))));
    lemma_split_once_unique(
        template,
        mark,
        Some((prefix, suffix)),
        split_pair(template, mark),
    );
    let digits = decimal(vmid as nat);
    let path = socket_path(digits);
    law_printed_number_reads_back(vmid as nat);
    assert(path.take(prefix.len() as int) =~= prefix);
    let rest = path.skip(prefix.len() as int);
    assert(rest =~= digits + suffix);
    assert(rest.skip(rest.len() - suffix.len()) =~= suffix);
    assert(rest.take(rest.len() - suffix.len()) =~= digits);
}

/// How long to wait for the next message: twice the heartbeat timeout, and at
/// least a minute.
pub fn socket_read_timeout(timeout_seconds: u64) -> (seconds: u64)
    requires
        timeout_seconds * 2 <= u64::MAX,
    ensures
        seconds == (if timeout_seconds * 2 > 60 {
            timeout_seconds * 2
        } else {
            60
        }),
{
    if timeout_seconds * 2 > 60 {
        timeout_seconds * 2
    } else {
        60
    }
}

/// What to do about a resync after a message came.
#[derive(Clone, Copy, Debug, PartialEq, Eq, Structural)]
pub enum ResyncStep {
    /// It is not yet time to look.
    Wait,
    /// It is time, and no resync is needed.
    Settled,
    /// It is time, and a resync is needed.
    Request,
}

/// What to do about a resync, where the agent of `vmid` was last asked for its
/// schema at `last_sent`.
pub open spec fn resync_due(state: HostView, vmid: u32, last_sent: u64, now: u64) -> ResyncStep {
    if !has_passed(now, last_sent, RESYNC_RETRY_SECONDS) {
        ResyncStep::Wait
    } else if lacks_schema(state, vmid) {
        ResyncStep::Request
    } else {
        ResyncStep::Settled
    }
}

impl HostState {
    /// Whether to ask the agent of `vmid` for its schema again, where it was
    /// last asked at `last_sent`.
    pub fn resync_step(&self, vmid: u32, last_sent: u64, now: u64) -> (step: ResyncStep)
        ensures
            step == (if !has_passed(now, last_sent, RESYNC_RETRY_SECONDS) {
                ResyncStep::Wait
            } else if self@.vms.contains_key(vmid) && self@.vms[vmid].schema_synced {
                ResyncStep::Settled
            } else {
                ResyncStep::Request
            }),
            step == resync_due(self@, vmid, last_sent, now),
    {
        if !passed(now, last_sent, RESYNC_RETRY_SECONDS) {
            return ResyncStep::Wait;
        }
        if self.needs_resync(vmid) {
            ResyncStep::Request
        } else {
            ResyncStep::Settled
        }
    }
}

// ── Messages ─────────────────────────────────────────────────────────────────

/// What a message leads to.
pub enum HostAction {
    /// Nothing to do outside.
    Nothing,
    /// Hand values to the kernel.
    SetValues(VsbValues),
    /// Carry out a step of a schema.
    Schema(SchemaStep),
    /// Carry out the departure of a VM.
    Depart(Departure),
}

/// Whether `result` and the state `after` are what becomes of a message.
pub open spec fn message_outcome(
    before: HostView,
    vmid: u32,
    message: Message,
    now: u64,
    result: Result<HostAction, HostError>,
    after: HostView,
) -> bool {
    match message {
        Message::Hello { hwmon_name, .. } => {
            &&& result matches Ok(HostAction::Nothing)
            &&& after == greeted(before, vmid, optional_text(hwmon_name))
        },
        Message::Schema { generation, sensors } => {
            exists|step: Result<SchemaStep, HostError>|
                #![trigger schema_outcome(
                    before,
                    vmid,
                    generation,
                    descriptor_views(sensors@),
                    now,
                    step,
                    after,
                )]
                schema_outcome(
                    before,
                    vmid,
                    generation,
                    descriptor_views(sensors@),
                    now,
                    step,
                    after,
                ) && result == (match step {
                    Ok(step) => Ok(HostAction::Schema(step)),
                    Err(error) => Err(error),
                })
        },
        Message::Sample { generation, values } => {
            &&& after == before
            &&& exists|payload: Result<Option<VsbValues>, HostError>|
                #![trigger sample_outcome(
                    before,
                    vmid,
                    generation,
                    value_views(values@),
                    payload,
                )]
                sample_outcome(before, vmid, generation, value_views(values@), payload) && result
                    == (match payload {
                    Ok(Some(payload)) => Ok(HostAction::SetValues(payload)),
                    Ok(None) => Ok(HostAction::Nothing),
                    Err(error) => Err(error),
                })
        },
        Message::Heartbeat | Message::RequestResync => {
            &&& result matches Ok(HostAction::Nothing)
            &&& after == before
        },
        Message::Goodbye => {
            &&& result matches Ok(HostAction::Depart(departure))
            &&& departure_outcome(before, vmid, departure, after)
        },
    }
}

impl HostState {
    /// Takes a message of `vmid` in.
    pub fn handle_message(&mut self, vmid: u32, message: Message, now: u64) -> (result: Result<
        HostAction,
        HostError,
    >)
        requires
            old(self)@.wf(),
        ensures
            final(self)@.wf(),
            message_outcome(old(self)@, vmid, message, now, result, final(self)@),
    {
        match message {
            Message::Hello { agent_version: _, hostname: _, hwmon_name } => {
                self.hello(vmid, hwmon_name);
                Ok(HostAction::Nothing)
            },
            Message::Schema { generation, sensors } => {
                match self.plan_schema(vmid, generation, &sensors, now) {
                    Ok(step) => Ok(HostAction::Schema(step)),
                    Err(error) => Err(error),
                }
            },
            Message::Sample { generation, values } => {
                match self.sample(vmid, generation, &values) {
                    Ok(Some(payload)) => Ok(HostAction::SetValues(payload)),
                    Ok(None) => Ok(HostAction::Nothing),
                    Err(error) => Err(error),
                }
            },
            Message::Heartbeat => Ok(HostAction::Nothing),
            Message::RequestResync => Ok(HostAction::Nothing),
            Message::Goodbye => Ok(HostAction::Depart(self.remove_vm(vmid))),
        }
    }
}

/// What keeps the rules of messages is never refused: neither for its number of
/// sensors or values nor for a missing default value.
pub proof fn law_valid_messages_are_accepted(
    before: HostView,
    vmid: u32,
    message: Message,
    now: u64,
    result: Result<HostAction, HostError>,
    after: HostView,
)
    requires
        message_fault(message) is None,
        message_outcome(before, vmid, message, now, result, after),
    ensures
        result is Ok,
{
    if let Message::Schema { sensors, .. } = message {
        let views = descriptor_views(sensors@);
        law_sensors_fault(views);
        assert(defaults_given(views));
        assert(schema_fault(views) is None);
    }
}

// ── Files ────────────────────────────────────────────────────────────────────

/// Where the persistent sensors are remembered: beside the configuration.
pub open spec fn cache_path_of(config_path: Seq<char>) -> Seq<char> {
    match parent_of(config_path) {
        Some(parent) if parent.len() > 0 => path_join(parent, cache_file()),
        _ => path_join("."@, cache_file()),
    }
}

/// Where the persistent sensors are remembered.
pub fn persistent_cache_path(config_path: &str) -> (path: String)
    ensures
        path@ == cache_path_of(config_path@),
{
    match parent(config_path) {
        Some(parent) => {
            if parent.as_str().unicode_len() > 0 {
                return join_path(&parent, "persistent-vms.json");
            }
        },
        None => {},
    }
    join_path(".", "persistent-vms.json")
}

/// One device of sysfs: its path, and what its `name` file holds.
pub struct HwmonDevice {
    pub path: String,
    pub name: String,
}

/// The path of the first device with the given name.
pub open spec fn device_path(devices: Seq<HwmonDevice>, hwmon_name: Seq<char>) -> Option<Seq<char>>
    decreases devices.len(),
{
    if devices.len() == 0 {
        None
    } else if trimmed(devices[0].name@) == hwmon_name {
        Some(devices[0].path@)
    } else {
        device_path(devices.skip(1), hwmon_name)
    }
}

/// The path of the first device with the given name.
pub fn find_hwmon_path(devices: &[HwmonDevice], hwmon_name: &str) -> (path: Option<String>)
    ensures
        optional_text(path) == device_path(devices@, hwmon_name@),
{
    assert(devices@.skip(0) =~= devices@);
    for i in 0..devices.len()
        invariant
            device_path(devices@, hwmon_name@) == device_path(
                devices@.skip(i as int),
                hwmon_name@,
            ),
    {
        assert(devices@.skip(i as int)[0] == devices@[i as int]);
        if same(&trim(&devices[i].name), hwmon_name) {
            return Some(devices[i].path.clone());
        }
        assert(devices@.skip(i as int).skip(1) =~= devices@.skip(i as int + 1));
    }
    None
}

} // verus!
