//! Showing the state of the bridge.

use crate::agent::discover::{pad_right, padded_right};
use crate::ctl::cli::{CtlError, CtlFault};
use crate::number::{at_most, decimal, format_u64, parse_u32, parsed_nat};
use crate::protocol::{CtlRequest, SensorInfo, VmInfo};
use crate::text::{concat3, same, texts};
use vstd::prelude::*;

verus! {

/// The management socket, unless the command line says otherwise.
pub const DEFAULT_CTL_SOCKET: &'static str = "/run/vfio-sensor-bridge/hostd.sock";

/// The width of the column of attributes.
pub const ATTR_WIDTH: usize = 18;

/// The width of the column of values.
pub const VALUE_WIDTH: usize = 28;

/// The width of the column of flags.
pub const FLAGS_WIDTH: usize = 12;

/// What to ask, and where.
#[derive(Debug)]
pub struct StatusPlan {
    pub request: CtlRequest,
    pub socket_path: String,
}

/// What arguments ask to show, where `filter` and `socket` are what the
/// arguments before them came to.
pub open spec fn status_options(
    args: Seq<Seq<char>>,
    filter: Option<u32>,
    socket: Seq<char>,
) -> Result<(Option<u32>, Seq<char>), CtlFault>
    decreases args.len(),
{
    if args.len() == 0 {
        Ok((filter, socket))
    } else if args[0] == "--vmid"@ {
        if args.len() < 2 {
            Err(CtlFault::MissingStatusVmid)
        } else {
            match at_most(parsed_nat(args[1]), u32::MAX as nat) {
                None => Err(CtlFault::InvalidStatusVmid),
                Some(vmid) => status_options(args.skip(2), Some(vmid as u32), socket),
            }
        }
    } else if args[0] == "--socket"@ {
        if args.len() < 2 {
            Err(CtlFault::MissingStatusSocket)
        } else {
            status_options(args.skip(2), filter, args[1])
        }
    } else {
        Err(CtlFault::UnknownStatusArgument(args[0]))
    }
}

/// The request for one VM, or for all.
pub open spec fn request_for(filter: Option<u32>) -> CtlRequest {
    match filter {
        Some(vmid) => CtlRequest::GetVm { vmid },
        None => CtlRequest::ListVms,
    }
}

/// What arguments ask to show.
pub fn run(args: &[String]) -> (result: Result<StatusPlan, CtlError>)
    ensures
        match (result, status_options(texts(args@), None, DEFAULT_CTL_SOCKET@)) {
            (Ok(plan), Ok((filter, socket))) => plan.request == request_for(filter)
                && plan.socket_path@ == socket,
            (Err(error), Err(fault)) => error@ == fault,
            _ => false,
        },
{
    let ghost all = texts(args@);
    let mut filter: Option<u32> = None;
    let mut socket_path = DEFAULT_CTL_SOCKET.to_string();
    let mut i: usize = 0;
    assert(all.skip(0) =~= all);
    while i < args.len()
        invariant
            i <= args@.len(),
            all == texts(args@),
            status_options(all, None, DEFAULT_CTL_SOCKET@) == status_options(
                all.skip(i as int),
                filter,
                socket_path@,
            ),
        decreases args@.len() - i,
    {
        let ghost tail = all.skip(i as int);
        assert(tail[0] == args@[i as int]@);
        if i + 1 < args.len() {
            assert(tail[1] == args@[i as int + 1]@);
            assert(tail.skip(2) =~= all.skip(i as int + 2));
        }
        if same(&args[i], "--vmid") {
            if i + 1 >= args.len() {
                return Err(CtlError::MissingStatusVmid);
            }
            match parse_u32(&args[i + 1]) {
                Some(vmid) => {
                    filter = Some(vmid);
                },
                None => {
                    return Err(CtlError::InvalidStatusVmid);
                },
            }
            i = i + 2;
        } else if same(&args[i], "--socket") {
            if i + 1 >= args.len() {
                return Err(CtlError::MissingStatusSocket);
            }
            socket_path = args[i + 1].clone();
            i = i + 2;
        } else {
            return Err(CtlError::UnknownStatusArgument(args[i].clone()));
        }
    }
    let request = match filter {
        Some(vmid) => CtlRequest::GetVm { vmid },
        None => CtlRequest::ListVms,
    };
    Ok(StatusPlan { request, socket_path })
}

/// Whether an agent is there.
#[derive(Clone, Copy, Debug, PartialEq, Eq, Structural)]
pub enum AgentPresence {
    Online,
    Offline,
    Unknown,
}

/// Whether the agent of a VM is there.
pub fn agent_presence(info: &VmInfo) -> (presence: AgentPresence)
    ensures
        presence == (if info.online {
            AgentPresence::Online
        } else if info.offline_reported {
            AgentPresence::Offline
        } else {
            AgentPresence::Unknown
        }),
        presence == presence_of(info.online, info.offline_reported),
{
    if info.online {
        AgentPresence::Online
    } else if info.offline_reported {
        AgentPresence::Offline
    } else {
        AgentPresence::Unknown
    }
}

/// The first line of a VM.
pub fn vm_heading(info: &VmInfo) -> (line: String)
    ensures
        line@ == "VMID "@ + decimal(info.vmid as nat) + "  hwmon: "@ + info.hwmon_name@
            + "  gen: "@ + decimal(info.generation as nat),
{
    let mut line = concat3("VMID ", &format_u64(info.vmid as u64), "  hwmon: ");
    line.append(&info.hwmon_name);
    line.append("  gen: ");
    line.append(&format_u64(info.generation));
    line
}

// ── The table of sensors ─────────────────────────────────────────────────────

/// How a label is shown.
pub open spec fn shown_label(label: Seq<char>) -> Seq<char> {
    if label.len() == 0 {
        Seq::empty()
    } else {
        "["@ + label + "]"@
    }
}

fn show_label(label: &str) -> (shown: String)
    ensures
        shown@ == shown_label(label@),
{
    if label.unicode_len() == 0 {
        let nothing = String::new();
        assert(nothing@ =~= Seq::<char>::empty());
        nothing
    } else {
        concat3("[", label, "]")
    }
}

/// The width of the column of labels: that of the longest label, and of the
/// heading at least.
pub open spec fn labels_width(sensors: Seq<SensorInfo>) -> int
    decreases sensors.len(),
{
    if sensors.len() == 0 {
        5
    } else {
        let before = labels_width(sensors.drop_last());
        let last = shown_label(sensors.last().label@).len() as int;
        if last > before {
            last
        } else {
            before
        }
    }
}

/// The width of the column of labels.
pub fn label_width(sensors: &[SensorInfo]) -> (width: usize)
    ensures
        width == labels_width(sensors@),
{
    let mut width: usize = 5;
    assert(sensors@.take(0) =~= Seq::<SensorInfo>::empty());
    for i in 0..sensors.len()
        invariant
            width == labels_width(sensors@.take(i as int)),
    {
        assert(sensors@.take(i as int + 1).drop_last() =~= sensors@.take(i as int));
        let shown = show_label(&sensors[i].label);
        let n = shown.as_str().unicode_len();
        if n > width {
            width = n;
        }
    }
    assert(sensors@.take(sensors@.len() as int) =~= sensors@);
    width
}

/// A rule of the given length.
pub open spec fn ruled(n: int) -> Seq<char> {
    Seq::new(n as nat, |i: int| '─')
}

fn rule(n: usize) -> (line: String)
    ensures
        line@ == ruled(n as int),
{
    let mut line = String::new();
    assert(line@ =~= ruled(0));
    for i in 0..n
        invariant
            line@ == ruled(i as int),
    {
        line.push('─');
        assert(line@ =~= ruled(i as int + 1));
    }
    line
}

/// A row of the table.
pub open spec fn row(
    attr: Seq<char>,
    label: Seq<char>,
    value: Seq<char>,
    flags: Seq<char>,
    width: int,
) -> Seq<char> {
    "    "@ + padded_right(attr, ATTR_WIDTH as int) + "  "@ + padded_right(label, width) + "  "@
        + padded_right(value, VALUE_WIDTH as int) + "  "@ + flags
}

fn make_row(attr: &str, label: &str, value: &str, flags: &str, width: usize) -> (line: String)
    ensures
        line@ == row(attr@, label@, value@, flags@, width as int),
{
    let mut line = concat3("    ", &pad_right(attr, ATTR_WIDTH), "  ");
    line.append(&pad_right(label, width));
    line.append("  ");
    line.append(&pad_right(value, VALUE_WIDTH));
    line.append("  ");
    line.append(flags);
    line
}

/// The row of a sensor, where `shown` is how its value is shown, if it has one.
pub open spec fn sensor_row(sensor: SensorInfo, shown: Option<Seq<char>>, width: int) -> Seq<char> {
    row(
        sensor.hwmon_attr@,
        shown_label(sensor.label@),
        match shown {
            Some(value) => value,
            None => "(unreadable)"@,
        },
        if sensor.persistent {
            "[persistent]"@
        } else {
            ""@
        },
        width,
    )
}

/// How a value is shown, where one is given.
pub open spec fn shown_at(shown: Seq<Option<String>>, i: int) -> Option<Seq<char>> {
    if 0 <= i < shown.len() {
        crate::text::optional_text(shown[i])
    } else {
        None
    }
}

/// The lines of the sensors of a VM.
pub open spec fn sensor_table(sensors: Seq<SensorInfo>, shown: Seq<Option<String>>) -> Seq<
    Seq<char>,
> {
    if sensors.len() == 0 {
        seq!["  sensors: (none)"@]
    } else {
        let width = labels_width(sensors);
        seq![
            "  sensors ("@ + decimal(sensors.len()) + "):"@,
            row("ATTRIBUTE"@, "LABEL"@, "VALUE"@, "FLAGS"@, width),
            "    "@ + ruled(ATTR_WIDTH as int) + "  "@ + ruled(width) + "  "@ + ruled(
                VALUE_WIDTH as int,
            ) + "  "@ + ruled(FLAGS_WIDTH as int),
        ] + Seq::new(
            sensors.len(),
            |i: int| sensor_row(sensors[i], shown_at(shown, i), width),
        )
    }
}

fn make_sensor_row(sensor: &SensorInfo, shown: &Option<String>, width: usize) -> (line: String)
    ensures
        line@ == sensor_row(*sensor, crate::text::optional_text(*shown), width as int),
{
    let value = match shown {
        Some(value) => value.clone(),
        None => "(unreadable)".to_string(),
    };
    let flags = if sensor.persistent {
        "[persistent]"
    } else {
        ""
    };
    make_row(&sensor.hwmon_attr, &show_label(&sensor.label), &value, flags, width)
}

/// The lines of the sensors of a VM, where `shown` is how the values of those
/// that have one are shown.
pub fn sensor_lines(sensors: &[SensorInfo], shown: &[Option<String>]) -> (lines: Vec<String>)
    ensures
        texts(lines@) == sensor_table(sensors@, shown@),
{
    let mut lines: Vec<String> = Vec::new();
    if sensors.len() == 0 {
        lines.push("  sensors: (none)".to_string());
        assert(texts(lines@) =~= sensor_table(sensors@, shown@));
        return lines;
    }
    let width = label_width(sensors);
    lines.push(concat3("  sensors (", &format_u64(sensors.len() as u64), "):"));
    lines.push(make_row("ATTRIBUTE", "LABEL", "VALUE", "FLAGS", width));
    let mut under = concat3("    ", &rule(ATTR_WIDTH), "  ");
    under.append(&rule(width));
    under.append("  ");
    under.append(&rule(VALUE_WIDTH));
    under.append("  ");
    under.append(&rule(FLAGS_WIDTH));
    lines.push(under);
    let ghost table = sensor_table(sensors@, shown@);
    assert(texts(lines@) =~= table.take(3));
    for i in 0..sensors.len()
        invariant
            sensors@.len() > 0,
            width == labels_width(sensors@),
            table == sensor_table(sensors@, shown@),
            texts(lines@) == table.take(3 + i as int),
    {
        let ghost before = texts(lines@);
        let nothing: Option<String> = None;
        let value = if i < shown.len() {
            &shown[i]
        } else {
            &nothing
        };
        lines.push(make_sensor_row(&sensors[i], value, width));
        assert(table[3 + i as int] == sensor_row(
            sensors@[i as int],
            shown_at(shown@, i as int),
            width as int,
        ));
        assert(texts(lines@) =~= before.push(table[3 + i as int]));
        assert(texts(lines@) =~= table.take(3 + i as int + 1));
    }
    assert(table.take(3 + sensors@.len() as int) =~= table);
    lines
}

/// What is said of a VM that the daemon does not know.
pub fn not_found_line(vmid: u32) -> (line: String)
    ensures
        line@ == "VMID "@ + decimal(vmid as nat)
            + ": not tracked by hostd (schema never received or VM removed)."@,
{
    concat3(
        "VMID ",
        &format_u64(vmid as u64),
        ": not tracked by hostd (schema never received or VM removed).",
    )
}

/// Whether an agent is there, by what is reported of its VM.
pub open spec fn presence_of(online: bool, offline_reported: bool) -> AgentPresence {
    match (online, offline_reported) {
        (true, _) => AgentPresence::Online,
        (false, true) => AgentPresence::Offline,
        (false, false) => AgentPresence::Unknown,
    }
}

/// An agent shows as there exactly where its VM is online, and as away only where
/// that was noticed.
pub proof fn law_presence(online: bool, offline_reported: bool)
    ensures
        presence_of(online, offline_reported) == AgentPresence::Online <==> online,
        presence_of(online, offline_reported) == AgentPresence::Offline <==> !online
            && offline_reported,
        presence_of(online, offline_reported) == AgentPresence::Unknown <==> !online
            && !offline_reported,
{
}

} // verus!
