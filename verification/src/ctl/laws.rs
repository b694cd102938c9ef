//! What the management tool is asked for, and what it shows.

use crate::agent::cli::asks_help;
use crate::agent::discover::padded_right;
use crate::ctl::cli::{
    ctl_command, help_topic, vm_command, vm_options, wants_help, CtlCommandView, CtlFault,
    HelpTopic, VmVerb,
};
use crate::ctl::qm::{
    comma_free, is_bridge_device, is_vmid, law_joined_parts, parts_of, printed_args,
};
use crate::ctl::smoke::{
    default_smoke, smoke_options, smoke_readings, smoke_sensors, SmokeView,
};
use crate::ctl::status::{
    labels_width, request_for, sensor_row, sensor_table, shown_label, status_options,
};
use crate::number::{
    at_most, decimal, law_printed_number_reads_back, lemma_decimal_shape, parsed_nat,
};
use crate::protocol::{CtlRequest, SensorInfo, SensorKind};
use crate::text::{has_prefix, joined, optional_text};
use vstd::prelude::*;

verus! {

// ── Commands on VMs ──────────────────────────────────────────────────────────

proof fn lemma_number_is_no_option(n: nat)
    ensures
        parsed_nat(decimal(n)) == Some(n),
        !has_prefix(decimal(n), "-"@),
        !asks_help(decimal(n)),
        decimal(n) != "--dry-run"@,
{
    law_printed_number_reads_back(n);
    lemma_decimal_shape(n);
    lemma_command_words();
    reveal_strlit("-");
    let c = decimal(n)[0];
    assert('0' <= c <= '9');
    assert("-"@[0] == '-');
    if has_prefix(decimal(n), "-"@) {
        assert(decimal(n).take(1)[0] == "-"@[0]);
    }
}

/// A VM is named by its number, with or without `--dry-run` before or behind it.
/// Without a number, with two, or with anything else, nothing is done.
pub proof fn law_commands_on_vms(verb: VmVerb, n: u32, m: u32, other: Seq<char>)
    ensures
        is_vmid(decimal(n as nat)),
        vm_command(verb, seq![decimal(n as nat)]) == Ok::<CtlCommandView, CtlFault>(
            CtlCommandView::Vm(verb, decimal(n as nat), false),
        ),
        vm_command(verb, seq![decimal(n as nat), "--dry-run"@]) == Ok::<CtlCommandView, CtlFault>(
            CtlCommandView::Vm(verb, decimal(n as nat), true),
        ),
        vm_command(verb, seq!["--dry-run"@, decimal(n as nat)]) == Ok::<CtlCommandView, CtlFault>(
            CtlCommandView::Vm(verb, decimal(n as nat), true),
        ),
        vm_command(verb, Seq::empty()) == Err::<CtlCommandView, CtlFault>(
            CtlFault::MissingVmid(verb),
        ),
        vm_command(verb, seq!["--dry-run"@]) == Err::<CtlCommandView, CtlFault>(
            CtlFault::MissingVmid(verb),
        ),
        vm_command(verb, seq![decimal(n as nat), decimal(m as nat)]) == Err::<
            CtlCommandView,
            CtlFault,
        >(CtlFault::UnexpectedArgument(verb, decimal(m as nat))),
        has_prefix(other, "-"@) && !asks_help(other) && other != "--dry-run"@ ==> vm_command(
            verb,
            seq![other],
        ) == Err::<CtlCommandView, CtlFault>(CtlFault::UnknownOption(verb, other)),
        !has_prefix(other, "-"@) && !asks_help(other) && other != "--dry-run"@ && !is_vmid(other)
            ==> vm_command(verb, seq![other]) == Err::<CtlCommandView, CtlFault>(
            CtlFault::InvalidVmid,
        ),
        asks_help(other) ==> vm_command(verb, seq![other]) == Ok::<CtlCommandView, CtlFault>(
            CtlCommandView::Help(
                match verb {
                    VmVerb::Attach => HelpTopic::Attach,
                    VmVerb::Detach => HelpTopic::Detach,
                },
            ),
        ),
{
    let v = decimal(n as nat);
    let w = decimal(m as nat);
    lemma_number_is_no_option(n as nat);
    lemma_number_is_no_option(m as nat);
    lemma_command_words();
    reveal_with_fuel(vm_options, 3);
    let none = Seq::<Seq<char>>::empty();
    let dry = "--dry-run"@;
    let one = seq![v];
    let behind = seq![v, dry];
    let before = seq![dry, v];
    let two = seq![v, w];
    let alone = seq![dry];
    let others = seq![other];
    assert(!asks_help(dry));
    assert(one.skip(1) =~= none);
    assert(behind.skip(1) =~= alone);
    assert(alone.skip(1) =~= none);
    assert(before.skip(1) =~= one);
    assert(two.skip(1) =~= seq![w]);
    assert(seq![w].skip(1) =~= none);
    assert(others.skip(1) =~= none);
    assert(!wants_help(one));
    assert(!wants_help(behind));
    assert(!wants_help(before));
    assert(!wants_help(two));
    assert(!wants_help(alone));
    assert(asks_help(others[0]) ==> wants_help(others));
    assert(!asks_help(other) ==> !wants_help(others));
    assert(vm_options(verb, one, None, false) == Ok::<(Seq<char>, bool), CtlFault>((v, false)));
    assert(vm_options(verb, one, None, true) == Ok::<(Seq<char>, bool), CtlFault>((v, true)));
    assert(vm_options(verb, alone, Some(v), false) == Ok::<(Seq<char>, bool), CtlFault>((v, true)));
}

// ── Commands ─────────────────────────────────────────────────────────────────

/// Which word asks for what. Without words the usage is shown.
pub proof fn law_commands(args: Seq<Seq<char>>, other: Seq<char>)
    ensures
        ctl_command(Seq::empty()) == Ok::<CtlCommandView, CtlFault>(
            CtlCommandView::Help(HelpTopic::General),
        ),
        ctl_command(seq!["-h"@] + args) == Ok::<CtlCommandView, CtlFault>(
            CtlCommandView::Help(HelpTopic::General),
        ),
        ctl_command(seq!["--help"@] + args) == Ok::<CtlCommandView, CtlFault>(
            CtlCommandView::Help(HelpTopic::General),
        ),
        ctl_command(seq!["attach"@] + args) == vm_command(VmVerb::Attach, args),
        ctl_command(seq!["detach"@] + args) == vm_command(VmVerb::Detach, args),
        help_topic(args) matches Ok(topic) ==> ctl_command(seq!["help"@] + args) == Ok::<
            CtlCommandView,
            CtlFault,
        >(CtlCommandView::Help(topic)),
        help_topic(Seq::empty()) == Ok::<HelpTopic, CtlFault>(HelpTopic::General),
        help_topic(seq!["attach"@] + args) == Ok::<HelpTopic, CtlFault>(HelpTopic::Attach),
        help_topic(seq!["detach"@] + args) == Ok::<HelpTopic, CtlFault>(HelpTopic::Detach),
        help_topic(seq!["smoke"@] + args) == Ok::<HelpTopic, CtlFault>(HelpTopic::Smoke),
        help_topic(seq!["status"@] + args) == Ok::<HelpTopic, CtlFault>(HelpTopic::Status),
        !wants_help(args) && smoke_options(args, default_smoke()) is Ok ==> ctl_command(
            seq!["smoke"@] + args,
        ) == Ok::<CtlCommandView, CtlFault>(
            CtlCommandView::Smoke(smoke_options(args, default_smoke())->Ok_0),
        ),
        wants_help(args) ==> ctl_command(seq!["smoke"@] + args) == Ok::<CtlCommandView, CtlFault>(
            CtlCommandView::Help(HelpTopic::Smoke),
        ),
        wants_help(args) ==> ctl_command(seq!["status"@] + args) == Ok::<CtlCommandView, CtlFault>(
            CtlCommandView::Help(HelpTopic::Status),
        ),
        !wants_help(args) ==> (status_options(args, None, "/run/vfio-sensor-bridge/hostd.sock"@)
            matches Ok((filter, socket)) ==> ctl_command(seq!["status"@] + args) == Ok::<
            CtlCommandView,
            CtlFault,
        >(
            CtlCommandView::Status(
                match filter {
                    Some(vmid) => CtlRequest::GetVm { vmid },
                    None => CtlRequest::ListVms,
                },
                socket,
            ),
        )),
        other != "help"@ && other != "attach"@ && other != "detach"@ && other != "smoke"@ && other
            != "status"@ && !asks_help(other) ==> ctl_command(seq![other] + args) == Err::<
            CtlCommandView,
            CtlFault,
        >(CtlFault::UnknownCommand(other)),
{
    lemma_command_words();
    assert((seq!["attach"@] + args).skip(1) =~= args);
    assert(!asks_help("attach"@));
    assert((seq!["detach"@] + args).skip(1) =~= args);
    assert(!asks_help("detach"@));
    assert((seq!["smoke"@] + args).skip(1) =~= args);
    assert(!asks_help("smoke"@));
    assert((seq!["status"@] + args).skip(1) =~= args);
    assert(!asks_help("status"@));
    assert((seq!["help"@] + args).skip(1) =~= args);
    assert(!asks_help("help"@));
}

/// A status is asked of all VMs on the default socket. Each option sets its own
/// value and leaves the other as the arguments before it came to.
pub proof fn law_options_of_status(
    args: Seq<Seq<char>>,
    filter: Option<u32>,
    socket: Seq<char>,
    n: u32,
    text: Seq<char>,
)
    requires
        status_options(args, None, "/run/vfio-sensor-bridge/hostd.sock"@) == Ok::<
            (Option<u32>, Seq<char>),
            CtlFault,
        >((filter, socket)),
    ensures
        ({
            let default = "/run/vfio-sensor-bridge/hostd.sock"@;
            &&& status_options(Seq::empty(), None, default) == Ok::<
                (Option<u32>, Seq<char>),
                CtlFault,
            >((None, default))
            &&& status_options(args + seq!["--vmid"@, decimal(n as nat)], None, default) == Ok::<
                (Option<u32>, Seq<char>),
                CtlFault,
            >((Some(n), socket))
            &&& status_options(args + seq!["--socket"@, text], None, default) == Ok::<
                (Option<u32>, Seq<char>),
                CtlFault,
            >((filter, text))
            &&& status_options(args + seq!["--vmid"@], None, default) == Err::<
                (Option<u32>, Seq<char>),
                CtlFault,
            >(CtlFault::MissingStatusVmid)
            &&& status_options(args + seq!["--socket"@], None, default) == Err::<
                (Option<u32>, Seq<char>),
                CtlFault,
            >(CtlFault::MissingStatusSocket)
            &&& !is_vmid(text) ==> status_options(args + seq!["--vmid"@, text], None, default)
                == Err::<(Option<u32>, Seq<char>), CtlFault>(CtlFault::InvalidStatusVmid)
            &&& text != "--vmid"@ && text != "--socket"@ ==> status_options(
                args + seq![text],
                None,
                default,
            ) == Err::<(Option<u32>, Seq<char>), CtlFault>(CtlFault::UnknownStatusArgument(text))
        }),
{
    lemma_command_words();
    law_printed_number_reads_back(n as nat);
    reveal_with_fuel(status_options, 2);
    let default = "/run/vfio-sensor-bridge/hostd.sock"@;
    let none = Seq::<Seq<char>>::empty();
    let number = seq!["--vmid"@, decimal(n as nat)];
    let place = seq!["--socket"@, text];
    let wrong = seq!["--vmid"@, text];
    assert(number.skip(2) =~= none);
    assert(place.skip(2) =~= none);
    lemma_status_concat(args, number, None, default);
    lemma_status_concat(args, place, None, default);
    lemma_status_concat(args, wrong, None, default);
    lemma_status_concat(args, seq!["--vmid"@], None, default);
    lemma_status_concat(args, seq!["--socket"@], None, default);
    lemma_status_concat(args, seq![text], None, default);
}

proof fn lemma_status_concat(
    a: Seq<Seq<char>>,
    b: Seq<Seq<char>>,
    filter: Option<u32>,
    socket: Seq<char>,
)
    ensures
        status_options(a, filter, socket) matches Ok((f, s)) ==> status_options(
            a + b,
            filter,
            socket,
        ) == status_options(b, f, s),
    decreases a.len(),
{
    if a.len() == 0 {
        assert(a + b =~= b);
    } else if a.len() >= 2 {
        assert((a + b).skip(2) =~= a.skip(2) + b);
        lemma_status_concat(a.skip(2), b, filter, a[1]);
        if let Some(vmid) = at_most(parsed_nat(a[1]), u32::MAX as nat) {
            lemma_status_concat(a.skip(2), b, Some(vmid as u32), socket);
        }
    }
}

/// The test uses a VM that is none and the device of the kernel, and takes the
/// device away. Each option sets its own value and leaves the others as the
/// arguments before it came to.
pub proof fn law_options_of_smoke(
    args: Seq<Seq<char>>,
    plan: SmokeView,
    n: u32,
    text: Seq<char>,
)
    requires
        smoke_options(args, default_smoke()) == Ok::<SmokeView, CtlFault>(plan),
    ensures
        default_smoke().vmid == 9000 && default_smoke().device == "/dev/vfio-sensor-bridge"@
            && !default_smoke().keep,
        smoke_options(Seq::empty(), default_smoke()) == Ok::<SmokeView, CtlFault>(default_smoke()),
        smoke_options(args + seq!["--vmid"@, decimal(n as nat)], default_smoke()) == Ok::<
            SmokeView,
            CtlFault,
        >(SmokeView { vmid: n, ..plan }),
        smoke_options(args + seq!["--device"@, text], default_smoke()) == Ok::<
            SmokeView,
            CtlFault,
        >(SmokeView { device: text, ..plan }),
        smoke_options(args + seq!["--keep"@], default_smoke()) == Ok::<SmokeView, CtlFault>(
            SmokeView { keep: true, ..plan },
        ),
        smoke_options(args + seq!["--vmid"@], default_smoke()) == Err::<SmokeView, CtlFault>(
            CtlFault::MissingSmokeVmid,
        ),
        smoke_options(args + seq!["--device"@], default_smoke()) == Err::<SmokeView, CtlFault>(
            CtlFault::MissingSmokeDevice,
        ),
        !is_vmid(text) ==> smoke_options(args + seq!["--vmid"@, text], default_smoke()) == Err::<
            SmokeView,
            CtlFault,
        >(CtlFault::InvalidSmokeVmid),
        text != "--vmid"@ && text != "--device"@ && text != "--keep"@ ==> smoke_options(
            args + seq![text],
            default_smoke(),
        ) == Err::<SmokeView, CtlFault>(CtlFault::UnknownSmokeArgument(text)),
{
    lemma_command_words();
    law_printed_number_reads_back(n as nat);
    reveal_with_fuel(smoke_options, 2);
    let none = Seq::<Seq<char>>::empty();
    let number = seq!["--vmid"@, decimal(n as nat)];
    let device = seq!["--device"@, text];
    let keep = seq!["--keep"@];
    assert(number.skip(2) =~= none);
    assert(device.skip(2) =~= none);
    assert(keep.skip(1) =~= none);
    lemma_smoke_concat(args, number, default_smoke());
    lemma_smoke_concat(args, device, default_smoke());
    lemma_smoke_concat(args, keep, default_smoke());
    lemma_smoke_concat(args, seq!["--vmid"@], default_smoke());
    lemma_smoke_concat(args, seq!["--device"@], default_smoke());
    lemma_smoke_concat(args, seq!["--vmid"@, text], default_smoke());
    lemma_smoke_concat(args, seq![text], default_smoke());
}

proof fn lemma_smoke_concat(a: Seq<Seq<char>>, b: Seq<Seq<char>>, plan: SmokeView)
    ensures
        smoke_options(a, plan) matches Ok(p) ==> smoke_options(a + b, plan) == smoke_options(b, p),
    decreases a.len(),
{
    if a.len() == 0 {
        assert(a + b =~= b);
    } else {
        if a[0] == "--keep"@ {
            lemma_command_words();
            assert((a + b).skip(1) =~= a.skip(1) + b);
            lemma_smoke_concat(a.skip(1), b, SmokeView { keep: true, ..plan });
        } else if a.len() >= 2 {
            assert((a + b).skip(2) =~= a.skip(2) + b);
            lemma_smoke_concat(a.skip(2), b, SmokeView { device: a[1], ..plan });
            if let Some(vmid) = at_most(parsed_nat(a[1]), u32::MAX as nat) {
                lemma_smoke_concat(a.skip(2), b, SmokeView { vmid: vmid as u32, ..plan });
            }
        }
    }
}

/// The test has one sensor of each kind, under distinct names, and a reading of
/// each under the number of its place.
pub proof fn law_smoke_covers_every_kind(kind: SensorKind, i: int, j: int)
    ensures
        exists|k: int|
            0 <= k < smoke_sensors().len() && (#[trigger] smoke_sensors()[k]).kind == kind,
        0 <= i < j < smoke_sensors().len() ==> smoke_sensors()[i].kind != smoke_sensors()[j].kind
            && smoke_sensors()[i].id != smoke_sensors()[j].id,
        smoke_readings().len() == smoke_sensors().len(),
        0 <= i < smoke_readings().len() ==> smoke_readings()[i].0 == i + 1,
{
    let sensors = smoke_sensors();
    assert(sensors[0].kind == SensorKind::Temperature);
    assert(sensors[1].kind == SensorKind::Fan);
    assert(sensors[2].kind == SensorKind::Voltage);
    assert(sensors[3].kind == SensorKind::Current);
    assert(sensors[4].kind == SensorKind::Power);
    reveal_strlit("smoke_temp");
    reveal_strlit("smoke_fan");
    reveal_strlit("smoke_voltage");
    reveal_strlit("smoke_current");
    reveal_strlit("smoke_power");
    assert("smoke_temp"@[6] == 't' && "smoke_fan"@[6] == 'f' && "smoke_voltage"@[6] == 'v');
    assert("smoke_current"@[6] == 'c' && "smoke_power"@[6] == 'p');
}

// ── QEMU arguments ───────────────────────────────────────────────────────────

/// The arguments of a VM are those of the first line that shows any; there are
/// none where no line does.
pub proof fn law_first_args_line(all: Seq<Seq<char>>, i: int, args: Seq<char>)
    ensures
        0 <= i < all.len() && all[i] == "args: "@ + args && (forall|j: int|
            0 <= j < i ==> !has_prefix(#[trigger] all[j], "args: "@)) ==> printed_args(all)
            == args,
        (forall|j: int| 0 <= j < all.len() ==> !has_prefix(#[trigger] all[j], "args: "@))
            ==> printed_args(all).len() == 0,
    decreases all.len(),
{
    if all.len() > 0 {
        let rest = all.skip(1);
        law_first_args_line(rest, i - 1, args);
        if 0 <= i < all.len() && all[i] == "args: "@ + args && (forall|j: int|
            0 <= j < i ==> !has_prefix(#[trigger] all[j], "args: "@)) {
            if i == 0 {
                assert(all[0].take("args: "@.len() as int) =~= "args: "@);
                assert(all[0].skip("args: "@.len() as int) =~= args);
            } else {
                assert(!has_prefix(all[0], "args: "@));
                assert(rest[i - 1] == all[i]);
                assert forall|j: int| 0 <= j < i - 1 implies !has_prefix(
                    #[trigger] rest[j],
                    "args: "@,
                ) by {
                    assert(rest[j] == all[j + 1]);
                }
            }
        }
        if forall|j: int| 0 <= j < all.len() ==> !has_prefix(#[trigger] all[j], "args: "@) {
            assert(!has_prefix(all[0], "args: "@));
            assert forall|j: int| 0 <= j < rest.len() implies !has_prefix(
                #[trigger] rest[j],
                "args: "@,
            ) by {
                assert(rest[j] == all[j + 1]);
            }
        }
    }
}

/// The port and the controller of a channel are known by their name and their
/// identifier, wherever these stand among the options.
pub proof fn law_bridge_devices(parts: Seq<Seq<char>>, i: int)
    requires
        parts.len() > 0,
        forall|k: int| 0 <= k < parts.len() ==> comma_free(#[trigger] parts[k]),
        0 < i < parts.len(),
    ensures
        parts[0] == "virtserialport"@ && parts[i] == "name=org.vfio_sensor_bridge.0"@
            ==> is_bridge_device(joined(parts, ","@)),
        parts[0] == "virtio-serial-pci"@ && parts[i] == "id=vsbserial0"@ ==> is_bridge_device(
            joined(parts, ","@),
        ),
        parts[0] != "virtserialport"@ && parts[0] != "virtio-serial-pci"@ ==> !is_bridge_device(
            joined(parts, ","@),
        ),
{
    law_joined_parts(parts);
    assert(parts_of(joined(parts, ","@)) == parts);
}

// ── The table of sensors ─────────────────────────────────────────────────────

/// A request without a VM is one for all of them.
pub proof fn law_request(vmid: u32)
    ensures
        request_for(Some(vmid)) == (CtlRequest::GetVm { vmid }),
        request_for(None) == CtlRequest::ListVms,
{
}

/// The column of labels is as wide as its widest entry, be it the heading or a
/// label in brackets.
pub proof fn law_column_fits(sensors: Seq<SensorInfo>)
    ensures
        labels_width(sensors) >= 5,
        forall|i: int|
            0 <= i < sensors.len() ==> labels_width(sensors) >= shown_label(
                (#[trigger] sensors[i]).label@,
            ).len(),
        labels_width(sensors) == 5 || exists|i: int|
            0 <= i < sensors.len() && labels_width(sensors) == shown_label(
                (#[trigger] sensors[i]).label@,
            ).len(),
    decreases sensors.len(),
{
    if sensors.len() > 0 {
        let before = sensors.drop_last();
        let last = sensors.len() - 1;
        law_column_fits(before);
        assert forall|i: int| 0 <= i < sensors.len() implies labels_width(sensors) >= shown_label(
            (#[trigger] sensors[i]).label@,
        ).len() by {
            if i < last {
                assert(before[i] == sensors[i]);
            }
        }
        if labels_width(sensors) != 5 {
            if labels_width(sensors) == labels_width(before) {
                let i = choose|i: int|
                    0 <= i < before.len() && labels_width(before) == shown_label(
                        (#[trigger] before[i]).label@,
                    ).len();
                assert(sensors[i] == before[i]);
            } else {
                assert(labels_width(sensors) == shown_label(sensors[last].label@).len());
            }
        }
    }
}

/// Spaces.
pub open spec fn spaces(n: int) -> Seq<char> {
    Seq::new(
        if n < 0 {
            0
        } else {
            n as nat
        },
        |i: int| ' ',
    )
}

/// Below the three lines of the heading each sensor has a line of its own, in
/// order: its attribute, its label in brackets, its value as it was read, or a
/// note that it was not, and a note where the sensor is persistent. The columns
/// are 18, as wide as the widest label, and 28.
pub proof fn law_line_of_a_sensor(
    sensors: Seq<SensorInfo>,
    shown: Seq<Option<String>>,
    i: int,
)
    requires
        0 <= i < sensors.len(),
        sensors.len() == shown.len(),
    ensures
        sensor_table(sensors, shown).len() == sensors.len() + 3,
        ({
            let sensor = sensors[i];
            let label = if sensor.label@.len() == 0 {
                Seq::empty()
            } else {
                "["@ + sensor.label@ + "]"@
            };
            let value = match shown[i] {
                Some(value) => value@,
                None => "(unreadable)"@,
            };
            let flags = if sensor.persistent {
                "[persistent]"@
            } else {
                ""@
            };
            sensor_table(sensors, shown)[i + 3] == "    "@ + (sensor.hwmon_attr@ + spaces(
                18 - sensor.hwmon_attr@.len(),
            )) + "  "@ + (label + spaces(labels_width(sensors) - label.len())) + "  "@ + (value
                + spaces(28 - value.len())) + "  "@ + flags
        }),
        sensor_table(Seq::empty(), Seq::empty()) == seq!["  sensors: (none)"@],
{
    let sensor = sensors[i];
    let width = labels_width(sensors);
    let label = shown_label(sensor.label@);
    let value = match shown[i] {
        Some(value) => value@,
        None => "(unreadable)"@,
    };
    lemma_padded(sensor.hwmon_attr@, 18);
    lemma_padded(label, width);
    lemma_padded(value, 28);
    assert(sensor_table(sensors, shown)[i + 3] == sensor_row(
        sensor,
        optional_text(shown[i]),
        width,
    ));
}

proof fn lemma_padded(s: Seq<char>, width: int)
    ensures
        padded_right(s, width) == s + spaces(width - s.len()),
{
    assert(padded_right(s, width) =~= s + spaces(width - s.len()));
}

/// The words of the command line are told apart by their lengths and letters.
proof fn lemma_command_words()
    ensures
        "attach"@.len() == 6 && "attach"@[0] == 'a' && "attach"@[1] == 't' && "attach"@[2] == 't',
        "detach"@.len() == 6 && "detach"@[0] == 'd' && "detach"@[1] == 'e' && "detach"@[2] == 't',
        "smoke"@.len() == 5 && "smoke"@[0] == 's' && "smoke"@[1] == 'm' && "smoke"@[2] == 'o',
        "status"@.len() == 6 && "status"@[0] == 's' && "status"@[1] == 't' && "status"@[2] == 'a',
        "help"@.len() == 4 && "help"@[0] == 'h' && "help"@[1] == 'e' && "help"@[2] == 'l',
        "-h"@.len() == 2 && "-h"@[0] == '-' && "-h"@[1] == 'h',
        "--help"@.len() == 6 && "--help"@[0] == '-' && "--help"@[1] == '-' && "--help"@[2] == 'h',
        "--dry-run"@.len() == 9 && "--dry-run"@[0] == '-' && "--dry-run"@[1] == '-'
            && "--dry-run"@[2] == 'd',
        "--vmid"@.len() == 6 && "--vmid"@[0] == '-' && "--vmid"@[1] == '-' && "--vmid"@[2] == 'v',
        "--socket"@.len() == 8 && "--socket"@[0] == '-' && "--socket"@[1] == '-'
            && "--socket"@[2] == 's',
        "--device"@.len() == 8 && "--device"@[0] == '-' && "--device"@[1] == '-'
            && "--device"@[2] == 'd',
        "--keep"@.len() == 6 && "--keep"@[0] == '-' && "--keep"@[1] == '-' && "--keep"@[2] == 'k',
{
    reveal_strlit("attach");
    reveal_strlit("detach");
    reveal_strlit("smoke");
    reveal_strlit("status");
    reveal_strlit("help");
    reveal_strlit("-h");
    reveal_strlit("--help");
    reveal_strlit("--dry-run");
    reveal_strlit("--vmid");
    reveal_strlit("--socket");
    reveal_strlit("--device");
    reveal_strlit("--keep");
}

} // verus!
