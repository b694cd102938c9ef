use vfio_sensor_bridge::ctl::cli::{
    parse_ctl_command, parse_help_topic, parse_vm_command, CtlCommand, HelpTopic, VmVerb,
};
use vfio_sensor_bridge::ctl::qm::{
    attach, channel_args, collapse_spaces, detach, has_bridge_channel, is_bridge_device_arg,
    is_bridge_pair, parse_qm_args, remove_bridge_channel, set_args_line, valid_vmid, ArgsPlan,
};
use vfio_sensor_bridge::ctl::smoke::{
    smoke_files, smoke_hwmon_name, smoke_schema, smoke_values, DEFAULT_SMOKE_VMID,
};
use vfio_sensor_bridge::ctl::status::{
    agent_presence, label_width, not_found_line, sensor_lines, vm_heading, AgentPresence,
};
use vfio_sensor_bridge::ctl::{smoke, status};
use vfio_sensor_bridge::protocol::{CtlRequest, SensorInfo, SensorKind, VmInfo};

const CHANNEL: &str = "-chardev socket,id=vsb0,path=/run/vfio-sensor-bridge/vm-100.sock,server=on,wait=off \
                       -device virtio-serial-pci,id=vsbserial0 \
                       -device virtserialport,chardev=vsb0,name=org.vfio_sensor_bridge.0";

fn args(list: &[&str]) -> Vec<String> {
    list.iter().map(|arg| arg.to_string()).collect()
}

fn command(list: &[&str]) -> CtlCommand {
    parse_ctl_command(&args(list)).unwrap()
}

fn fault(list: &[&str]) -> String {
    match parse_ctl_command(&args(list)) {
        Err(error) => error.message(),
        Ok(_) => panic!("an error was expected"),
    }
}

#[test]
fn help_is_shown_on_request() {
    assert!(matches!(command(&[]), CtlCommand::Help(HelpTopic::General)));
    assert!(matches!(command(&["--help"]), CtlCommand::Help(HelpTopic::General)));
    assert!(matches!(command(&["help"]), CtlCommand::Help(HelpTopic::General)));
    assert!(matches!(command(&["help", "help"]), CtlCommand::Help(HelpTopic::General)));
    assert!(matches!(command(&["help", "smoke"]), CtlCommand::Help(HelpTopic::Smoke)));
    assert!(matches!(command(&["attach", "x", "-h"]), CtlCommand::Help(HelpTopic::Attach)));
    assert!(matches!(command(&["detach", "-h"]), CtlCommand::Help(HelpTopic::Detach)));
    assert!(matches!(command(&["smoke", "x", "-h"]), CtlCommand::Help(HelpTopic::Smoke)));
    assert!(matches!(command(&["status", "--help"]), CtlCommand::Help(HelpTopic::Status)));
    assert!(matches!(parse_help_topic(&args(&["detach"])), Ok(HelpTopic::Detach)));
    assert_eq!(fault(&["help", "me"]), "unknown help topic: me");
    assert_eq!(fault(&["destroy"]), "unknown command: destroy");
}

#[test]
fn vm_commands_take_one_vm() {
    match command(&["attach", "100", "--dry-run"]) {
        CtlCommand::Vm { verb, vmid, dry_run } => {
            assert_eq!((verb, vmid.as_str(), dry_run), (VmVerb::Attach, "100", true));
        }
        _ => panic!("a VM command was expected"),
    }
    let (vmid, dry_run) = parse_vm_command(VmVerb::Detach, &args(&["x"])).unwrap();
    assert_eq!((vmid.as_str(), dry_run), ("x", false));
    assert_eq!(fault(&["attach"]), "missing VMID for attach");
    assert_eq!(fault(&["detach", "--dry-run"]), "missing VMID for detach");
    assert_eq!(fault(&["attach", "1", "2"]), "unexpected attach argument: 2");
    assert_eq!(fault(&["detach", "--force", "1"]), "unknown detach option: --force");
    assert_eq!(fault(&["attach", "one"]), "VMID must be an unsigned integer");
    assert_eq!(fault(&["attach", "4294967296"]), "VMID must be an unsigned integer");
    assert!(valid_vmid("4294967295") && !valid_vmid(""));
}

#[test]
fn smoke_arguments_are_read() {
    let plan = smoke::run(&[]).unwrap();
    assert_eq!((plan.vmid, plan.device.as_str(), plan.keep), (9000, "/dev/vfio-sensor-bridge", false));
    match command(&["smoke", "--vmid", "7", "--device", "/dev/x", "--keep"]) {
        CtlCommand::Smoke(plan) => {
            assert_eq!((plan.vmid, plan.device.as_str(), plan.keep), (7, "/dev/x", true));
        }
        _ => panic!("a smoke test was expected"),
    }
    assert_eq!(fault(&["smoke", "--vmid"]), "missing --vmid value");
    assert_eq!(fault(&["smoke", "--vmid", "x"]), "invalid --vmid value");
    assert_eq!(fault(&["smoke", "--device"]), "missing --device value");
    assert_eq!(fault(&["smoke", "now"]), "unknown smoke argument: now");
}

#[test]
fn status_arguments_are_read() {
    let plan = status::run(&[]).unwrap();
    assert_eq!(plan.request, CtlRequest::ListVms);
    assert_eq!(plan.socket_path, "/run/vfio-sensor-bridge/hostd.sock");
    match command(&["status", "--vmid", "7", "--socket", "/tmp/s"]) {
        CtlCommand::Status(plan) => {
            assert_eq!(plan.request, CtlRequest::GetVm { vmid: 7 });
            assert_eq!(plan.socket_path, "/tmp/s");
        }
        _ => panic!("a status request was expected"),
    }
    assert_eq!(fault(&["status", "--vmid"]), "--vmid requires a value");
    assert_eq!(fault(&["status", "--vmid", "-1"]), "--vmid value must be an unsigned integer");
    assert_eq!(fault(&["status", "--socket"]), "--socket requires a value");
    assert_eq!(fault(&["status", "all"]), "unknown status argument: all");
}

#[test]
fn the_smoke_device_has_a_sensor_of_each_kind() {
    let schema = smoke_schema(DEFAULT_SMOKE_VMID);
    assert_eq!((schema.vmid, schema.sensor_count), (9000, 5));
    assert_eq!(schema.hwmon_name, [0; 32]);
    let channels: Vec<(u32, u32, u32)> =
        schema.sensors[..5].iter().map(|s| (s.id, s.kind, s.channel)).collect();
    assert_eq!(channels, [(1, 1, 1), (2, 2, 1), (3, 3, 0), (4, 4, 1), (5, 5, 1)]);
    assert_eq!(&schema.sensors[2].label[..14], b"smoke_voltage\0");
    let values = smoke_values(9000);
    let list: Vec<(u32, i64)> = values.values[..5].iter().map(|v| (v.id, v.value)).collect();
    assert_eq!(list, [(1, 42_000), (2, 1_500), (3, 12_000), (4, 2_500), (5, 75_000_000)]);
    assert_eq!(values.value_count, 5);
    assert_eq!(
        smoke_files(),
        ["temp1_input", "fan1_input", "in0_input", "curr1_input", "power1_input"]
    );
    assert_eq!(smoke_hwmon_name(9000), "vsb_vm_9000");
}

#[test]
fn channels_are_attached_once() {
    assert_eq!(channel_args("100"), CHANNEL);
    assert!(matches!(attach("100", ""), ArgsPlan::Replace(next) if next == CHANNEL));
    match attach("100", " -cpu host ") {
        ArgsPlan::Replace(next) => {
            assert_eq!(next, format!("-cpu host {CHANNEL}"));
            assert!(has_bridge_channel(&next));
            assert!(matches!(attach("100", &next), ArgsPlan::Keep));
        }
        ArgsPlan::Keep => panic!("the channel is missing"),
    }
    assert_eq!(set_args_line("100", "-cpu host"), "qm set 100 --args -cpu host");
}

#[test]
fn detaching_undoes_attaching() {
    let next = match attach("100", "-cpu  host -device e1000") {
        ArgsPlan::Replace(next) => next,
        ArgsPlan::Keep => panic!("the channel is missing"),
    };
    assert!(matches!(detach("100", &next), ArgsPlan::Replace(left) if left == "-cpu host -device e1000"));
    assert!(matches!(detach("100", "-cpu   host"), ArgsPlan::Keep));
    // The socket of another VM stays, the devices of the channel go.
    assert_eq!(
        remove_bridge_channel(CHANNEL, "101"),
        "-chardev socket,id=vsb0,path=/run/vfio-sensor-bridge/vm-100.sock,server=on,wait=off"
    );
    assert_eq!(collapse_spaces(" a \t b "), "a b");
}

#[test]
fn devices_with_similar_names_stay() {
    for kept in [
        "-device virtio-serial-pci,id=vsbserial01",
        "-device virtio-serial-pci,id=xvsbserial0",
        "-device virtserialport,chardev=c,name=org.vfio_sensor_bridge.01",
        "-chardev socket,id=vsb01,path=/run/vfio-sensor-bridge/vm-100.sock",
        "-chardev socket,id=vsb0,path=/run/vfio-sensor-bridge/vm-100.sock.old",
        "-chardev socket,id=vsb0,path=/run/vfio-sensor-bridge/vm-1001.sock",
    ] {
        assert_eq!(remove_bridge_channel(kept, "100"), kept);
        assert!(matches!(detach("100", kept), ArgsPlan::Keep));
        let both = format!("{CHANNEL} {kept}");
        assert!(matches!(detach("100", &both), ArgsPlan::Replace(left) if left == kept));
    }
    assert_eq!(remove_bridge_channel("-device virtio-serial-pci,bus=pci.0,id=vsbserial0", "100"), "");
}

#[test]
fn channel_arguments_are_recognized() {
    assert!(is_bridge_device_arg("virtio-serial-pci,id=vsbserial0"));
    assert!(!is_bridge_device_arg("virtio-serial-pci,id=other"));
    assert!(!is_bridge_device_arg("virtserialport,name=org.qemu.guest_agent.0"));
    assert!(is_bridge_pair("-device", "virtserialport,name=org.vfio_sensor_bridge.0", "1"));
    assert!(!is_bridge_pair("-netdev", "virtio-serial-pci,id=vsbserial0", "1"));
    assert!(!is_bridge_pair("-chardev", "pipe,id=vsb0,path=/run/vfio-sensor-bridge/vm-1.sock", "1"));
}

#[test]
fn arguments_are_found_in_the_configuration() {
    assert_eq!(parse_qm_args("agent: 1\nargs: -cpu host\nargs: later\n"), "-cpu host");
    assert_eq!(parse_qm_args("agent: 1\n"), "");
    assert_eq!(parse_qm_args("args:-cpu host\n"), "");
}

fn info(attr: &str, label: &str, persistent: bool) -> SensorInfo {
    SensorInfo {
        id: attr.to_string(),
        kind: SensorKind::Temperature,
        label: label.to_string(),
        persistent,
        default_value: None,
        hwmon_attr: attr.to_string(),
        value: None,
    }
}

#[test]
fn sensors_are_shown_as_a_table() {
    let sensors = [info("temp1_input", "GPU °C", true), info("fan1_input", "", false)];
    assert_eq!(label_width(&sensors), 8);
    let lines = sensor_lines(&sensors, &[Some("42.0 °C".to_string()), None]);
    assert_eq!(
        lines,
        [
            "  sensors (2):".to_string(),
            format!("    ATTRIBUTE           LABEL     VALUE{}  FLAGS", " ".repeat(23)),
            format!(
                "    {}  {}  {}  {}",
                "─".repeat(18),
                "─".repeat(8),
                "─".repeat(28),
                "─".repeat(12)
            ),
            format!("    temp1_input         [GPU °C]  42.0 °C{}  [persistent]", " ".repeat(21)),
            format!("    fan1_input                    (unreadable){}  ", " ".repeat(16)),
        ]
    );
    assert_eq!(sensor_lines(&[], &[]), ["  sensors: (none)"]);
    assert_eq!(label_width(&[]), 5);
}

#[test]
fn vms_are_headed_by_their_state() {
    let mut vm = VmInfo {
        vmid: 100,
        hwmon_name: "vsb_vm_100".to_string(),
        hwmon_path: "/sys/class/hwmon/hwmon3".to_string(),
        generation: 4,
        online: true,
        offline_reported: true,
        last_seen_nanos_ago: 0,
        sensors: Vec::new(),
    };
    assert_eq!(vm_heading(&vm), "VMID 100  hwmon: vsb_vm_100  gen: 4");
    assert_eq!(agent_presence(&vm), AgentPresence::Online);
    vm.online = false;
    assert_eq!(agent_presence(&vm), AgentPresence::Offline);
    vm.offline_reported = false;
    assert_eq!(agent_presence(&vm), AgentPresence::Unknown);
    assert_eq!(
        not_found_line(7),
        "VMID 7: not tracked by hostd (schema never received or VM removed)."
    );
}
