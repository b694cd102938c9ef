use vfio_sensor_bridge::host::config::{config_size_ok, HostConfig, DEFAULT_CONFIG, MAX_CONFIG_BYTES};
use vfio_sensor_bridge::host::daemon::{
    find_hwmon_path, parse_vmid_from_socket, persistent_cache_path, socket_read_timeout,
    HostAction, HwmonDevice, ResyncStep,
};
use vfio_sensor_bridge::host::kernel::{
    fixed_hwmon_name, fixed_label, kernel_kind, request_none, request_write, ChannelCounters,
};
use vfio_sensor_bridge::host::presence::{
    heartbeat_policy, heartbeat_warning, plan_defaults, warns, Departure, DeviceEvent,
    HeartbeatPolicy, PersistentCacheVm,
};
use vfio_sensor_bridge::host::runtime::{
    kind_prefix_str, register, same_ids, same_signatures, topology_events,
    PersistentRuntimeSensor,
};
use vfio_sensor_bridge::host::state::{
    make_hwmon_name, HostError, HostState, SchemaStep, MAX_SCHEMA_UPDATES_PER_MINUTE,
};
use vfio_sensor_bridge::host::status::{
    attribute_files, build_sensor_infos, ctl_filter, ctl_response,
};
use vfio_sensor_bridge::host::vm_map::VmMap;
use vfio_sensor_bridge::id_map::IdMap;
use vfio_sensor_bridge::protocol::{
    CtlRequest, CtlResponse, Message, SensorDescriptor, SensorKind, SensorValue, MAX_SENSORS,
};

const SECOND: u64 = 1_000_000_000;

fn sensor(id: &str, kind: SensorKind) -> SensorDescriptor {
    SensorDescriptor {
        id: id.to_string(),
        kind,
        label: format!("label {id}"),
        persistent: false,
        default_value: None,
    }
}

fn persistent(id: &str, default_value: i64) -> SensorDescriptor {
    SensorDescriptor {
        persistent: true,
        default_value: Some(default_value),
        ..sensor(id, SensorKind::Temperature)
    }
}

fn value(id: &str, value: i64) -> SensorValue {
    SensorValue { id: id.to_string(), value }
}

/// A host that has taken in one schema of one VM.
fn host_with(sensors: &[SensorDescriptor], now: u64) -> HostState {
    let mut host = HostState::new();
    accept(&mut host, 100, 1, sensors, now);
    host
}

fn accept(host: &mut HostState, vmid: u32, generation: u64, sensors: &[SensorDescriptor], now: u64) {
    match host.plan_schema(vmid, generation, sensors, now).unwrap() {
        SchemaStep::Register(pending) => {
            host.commit_schema(pending, "/sys/class/hwmon/hwmon7".to_string(), now);
        }
        _ => panic!("a registration was expected"),
    }
}

#[test]
fn channels_count_per_kind() {
    let mut channels = ChannelCounters::default();
    assert_eq!(channels.next(SensorKind::Temperature), 1);
    assert_eq!(channels.next(SensorKind::Voltage), 0);
    assert_eq!(channels.next(SensorKind::Temperature), 2);
    assert_eq!(channels.next(SensorKind::Voltage), 1);
    assert_eq!(channels.next(SensorKind::Fan), 1);
    assert_eq!(channels.next(SensorKind::Current), 1);
    assert_eq!(channels.next(SensorKind::Power), 1);
    let kinds = [
        (SensorKind::Temperature, 1, "temp"),
        (SensorKind::Fan, 2, "fan"),
        (SensorKind::Voltage, 3, "in"),
        (SensorKind::Current, 4, "curr"),
        (SensorKind::Power, 5, "power"),
    ];
    for (kind, number, prefix) in kinds {
        assert_eq!(kernel_kind(kind), number);
        assert_eq!(kind_prefix_str(kind), prefix);
    }
}

#[test]
fn texts_for_the_kernel_end_with_a_zero() {
    let label = fixed_label("GPU °C");
    assert_eq!(&label[..8], "GPU °C\0".as_bytes());
    let label = fixed_label(&"x".repeat(200));
    assert_eq!(&label[..128], "x".repeat(128).as_bytes());
    assert_eq!(label[128], 0);
    assert_eq!(fixed_hwmon_name(None), [0; 32]);
    let name = fixed_hwmon_name(Some("vsb_vm_100"));
    assert_eq!(&name[..11], b"vsb_vm_100\0");
    let name = fixed_hwmon_name(Some(&"n".repeat(40)));
    assert_eq!((name[30], name[31]), (b'n', 0));
}

#[test]
fn ioctl_requests_follow_linux() {
    assert_eq!(request_none(0x01), 0x5601);
    assert_eq!(request_write(0x02, 2056), 0x4808_5602);
    assert_eq!(request_write(0x03, 4), 0x4004_5603);
}

#[test]
fn registration_numbers_the_sensors() {
    let sensors = [
        sensor("t", SensorKind::Temperature),
        sensor("v", SensorKind::Voltage),
        sensor("u", SensorKind::Temperature),
    ];
    let registration = register(100, Some("vsb_guest"), &sensors);
    assert_eq!(registration.schema.vmid, 100);
    assert_eq!(registration.schema.sensor_count, 3);
    assert_eq!(&registration.schema.hwmon_name[..10], b"vsb_guest\0");
    assert_eq!(registration.schema.sensors[1].id, 2);
    assert_eq!(registration.schema.sensors[1].kind, 3);
    assert_eq!(registration.schema.sensors[1].channel, 0);
    assert_eq!(registration.schema.sensors[2].channel, 2);
    assert_eq!(registration.sensor_ids.get("u"), Some(&3));
    assert_eq!(registration.sensor_ids.get("x"), None);
    assert_eq!(registration.sensor_attrs.get("t").unwrap(), "temp1_input");
    assert_eq!(registration.sensor_attrs.get("v").unwrap(), "in0_input");
    assert_eq!(registration.sensor_attrs.get("u").unwrap(), "temp2_input");
    assert_eq!(registration.sensor_ids.entries().len(), 3);

    let same = register(100, None, &sensors);
    assert!(same_ids(&registration.sensor_ids, &same.sensor_ids));
    assert!(same_signatures(&registration.signatures, &same.signatures));
    let fewer = register(100, None, &sensors[..2]);
    assert!(!same_ids(&registration.sensor_ids, &fewer.sensor_ids));
    assert!(!same_signatures(&registration.signatures, &fewer.signatures));
}

#[test]
fn events_tell_what_changed() {
    let host = host_with(&[sensor("a", SensorKind::Fan), sensor("b", SensorKind::Fan)], 0);
    let vm = host.vms.get(100).unwrap();
    let events = |sensors: &[SensorDescriptor]| {
        topology_events(Some(vm), &register(100, None, sensors).signatures)
    };
    assert_eq!(topology_events(None, &vm.signatures), ["device_created"]);
    assert!(events(&[sensor("b", SensorKind::Fan), sensor("a", SensorKind::Fan)]).is_empty());
    assert_eq!(events(&[sensor("a", SensorKind::Fan)]), ["sensor_removed"]);
    assert_eq!(
        events(&[sensor("a", SensorKind::Power), sensor("c", SensorKind::Fan)]),
        ["sensor_added", "sensor_changed", "sensor_removed"]
    );
}

#[test]
fn schemas_are_registered_and_remembered() {
    let mut host = HostState::new();
    assert!(host.needs_resync(100));
    host.hello(100, Some("vsb_guest".to_string()));
    let sensors = [sensor("a", SensorKind::Temperature), persistent("p", 40_000)];
    let pending = match host.plan_schema(100, 4, &sensors, SECOND) {
        Ok(SchemaStep::Register(pending)) => pending,
        _ => panic!("a registration was expected"),
    };
    assert_eq!(pending.hwmon_name, "vsb_guest");
    assert_eq!(pending.events, ["device_created"]);
    assert_eq!(pending.schema.sensor_count, 2);
    assert_eq!(pending.persistent_sensors.len(), 1);
    assert_eq!(pending.persistent_sensors[0].default_value, 40_000);
    assert!(host.vms.get(100).is_none());

    let notice = host.commit_schema(pending, "/sys/class/hwmon/hwmon3".to_string(), SECOND).unwrap();
    assert_eq!((notice.vmid, notice.sensor_count), (100, 2));
    assert_eq!(notice.hwmon_name, "vsb_guest");
    let vm = host.vms.get(100).unwrap();
    assert_eq!((vm.generation, vm.last_seen, vm.schema_synced), (4, SECOND, true));
    assert_eq!(vm.hwmon_path, "/sys/class/hwmon/hwmon3");
    assert!(!host.needs_resync(100));

    assert!(matches!(host.plan_schema(100, 5, &sensors, 2 * SECOND), Ok(SchemaStep::Unchanged)));
    assert_eq!(host.vms.get(100).unwrap().generation, 5);

    host.hello(100, None);
    match host.plan_schema(100, 6, &sensors, 3 * SECOND) {
        Ok(SchemaStep::Register(pending)) => {
            assert_eq!(pending.hwmon_name, "vsb_vm_100");
            assert!(pending.events.is_empty());
            assert!(host.commit_schema(pending, String::new(), 3 * SECOND).is_none());
        }
        _ => panic!("a registration was expected"),
    }
}

#[test]
fn unsound_schemas_are_refused() {
    let mut host = HostState::new();
    let crowd: Vec<SensorDescriptor> =
        (0..MAX_SENSORS + 1).map(|i| sensor(&format!("s{i}"), SensorKind::Fan)).collect();
    assert!(matches!(host.plan_schema(1, 1, &crowd, 0), Err(HostError::TooManySensors)));
    let mut orphan = persistent("p", 1);
    orphan.default_value = None;
    assert!(matches!(host.plan_schema(1, 1, &[orphan], 0), Err(HostError::MissingDefaultValue)));
    assert_eq!(HostError::TooManySensors.message(), "schema has too many sensors");
    assert_eq!(HostError::MissingDefaultValue.message(), "persistent sensor missing default_value");
    assert_eq!(HostError::TooManyValues.message(), "sample has too many values");
}

#[test]
fn schemas_are_limited_per_minute() {
    let mut host = HostState::new();
    for i in 0..MAX_SCHEMA_UPDATES_PER_MINUTE {
        let sensors = [sensor(&format!("s{i}"), SensorKind::Fan)];
        accept(&mut host, 100, 1, &sensors, SECOND);
    }
    let next = [sensor("next", SensorKind::Fan)];
    assert!(matches!(host.plan_schema(100, 1, &next, 2 * SECOND), Ok(SchemaStep::RateLimited)));

    // A departure does not lift the limit, and other VMs have their own.
    assert!(matches!(host.remove_vm(100), Departure::Remove(_)));
    assert!(matches!(host.plan_schema(100, 1, &next, 3 * SECOND), Ok(SchemaStep::RateLimited)));
    accept(&mut host, 101, 1, &next, 3 * SECOND);
    accept(&mut host, 100, 1, &next, 61 * SECOND);
}

#[test]
fn no_minute_sees_more_schemas_than_the_limit() {
    let mut host = HostState::new();
    let mut generation = 0;
    let mut next = move || {
        generation += 1;
        [sensor(&format!("s{generation}"), SensorKind::Fan)]
    };
    accept(&mut host, 100, 1, &next(), 0);
    for _ in 0..9 {
        accept(&mut host, 100, 1, &next(), 59 * SECOND);
    }
    assert!(matches!(host.plan_schema(100, 1, &next(), 60 * SECOND - 1), Ok(SchemaStep::RateLimited)));
    // The first schema is a minute old now; the nine others are not.
    accept(&mut host, 100, 1, &next(), 60 * SECOND);
    let times = host.schema_rate.get(100).unwrap().accepted.clone();
    assert_eq!(times.len(), MAX_SCHEMA_UPDATES_PER_MINUTE);
    let before = host.vms.get(100).unwrap().generation;
    for second in 60..119 {
        let step = host.plan_schema(100, 2, &next(), second * SECOND);
        assert!(matches!(step, Ok(SchemaStep::RateLimited)));
    }
    // What is refused leaves no trace.
    assert_eq!(host.schema_rate.get(100).unwrap().accepted, times);
    assert_eq!(host.vms.get(100).unwrap().generation, before);
    for _ in 0..9 {
        accept(&mut host, 100, 1, &next(), 119 * SECOND);
    }
    assert!(matches!(host.plan_schema(100, 1, &next(), 119 * SECOND), Ok(SchemaStep::RateLimited)));
    accept(&mut host, 100, 1, &next(), 120 * SECOND);
}

#[test]
fn samples_carry_known_sensors_only() {
    let host = host_with(&[sensor("a", SensorKind::Fan), sensor("b", SensorKind::Fan)], 0);
    let values = host.sample(100, 1, &[value("b", 7), value("x", 8), value("a", 9)]).unwrap().unwrap();
    assert_eq!((values.vmid, values.value_count), (100, 2));
    assert_eq!((values.values[0].id, values.values[0].value), (2, 7));
    assert_eq!((values.values[1].id, values.values[1].value), (1, 9));

    assert!(host.sample(100, 2, &[value("a", 1)]).unwrap().is_none());
    assert!(host.sample(101, 1, &[value("a", 1)]).unwrap().is_none());
    let many: Vec<SensorValue> = (0..MAX_SENSORS + 1).map(|i| value(&format!("s{i}"), 0)).collect();
    assert!(matches!(host.sample(100, 1, &many), Err(HostError::TooManyValues)));
}

#[test]
fn messages_lead_to_actions() {
    let mut host = HostState::new();
    let hello = Message::Hello {
        agent_version: "1".to_string(),
        hostname: "guest".to_string(),
        hwmon_name: Some("vsb_guest".to_string()),
    };
    assert!(matches!(host.handle_message(100, hello, 0), Ok(HostAction::Nothing)));
    assert_eq!(host.hwmon_names.get(100).unwrap(), "vsb_guest");
    assert!(matches!(host.handle_message(100, Message::Heartbeat, 0), Ok(HostAction::Nothing)));
    assert!(matches!(host.handle_message(100, Message::RequestResync, 0), Ok(HostAction::Nothing)));

    let schema = Message::Schema { generation: 1, sensors: vec![sensor("a", SensorKind::Fan)] };
    match host.handle_message(100, schema, 0) {
        Ok(HostAction::Schema(SchemaStep::Register(pending))) => {
            host.commit_schema(pending, String::new(), 0);
        }
        _ => panic!("a registration was expected"),
    }
    let sample = Message::Sample { generation: 1, values: vec![value("a", 1200)] };
    match host.handle_message(100, sample, 0) {
        Ok(HostAction::SetValues(values)) => assert_eq!(values.values[0].value, 1200),
        _ => panic!("values were expected"),
    }
    match host.handle_message(100, Message::Goodbye, 0) {
        Ok(HostAction::Depart(Departure::Remove(notice))) => {
            assert_eq!((notice.vmid, notice.sensor_count), (100, 0));
            assert_eq!(notice.hwmon_name, "vsb_guest");
            assert_eq!(notice.event.name(), "device_removed");
        }
        _ => panic!("a departure was expected"),
    }
    assert!(host.vms.get(100).is_none());
    assert!(host.hwmon_names.get(100).is_none());
    match host.remove_vm(7) {
        Departure::Remove(notice) => assert_eq!(notice.hwmon_name, "vsb_vm_7"),
        Departure::Preserve(_) => panic!("nothing is there to preserve"),
    }
}

#[test]
fn persistent_sensors_survive_a_departure() {
    let mut host = host_with(&[sensor("a", SensorKind::Fan), persistent("p", 40_000)], 0);
    let plan = match host.remove_vm(100) {
        Departure::Preserve(plan) => plan,
        Departure::Remove(_) => panic!("the sensor is persistent"),
    };
    assert_eq!(plan.schema.sensor_count, 1);
    assert_eq!(plan.values.value_count, 1);
    assert_eq!((plan.values.values[0].id, plan.values.values[0].value), (1, 40_000));
    assert_eq!(&plan.schema.hwmon_name[..11], b"vsb_vm_100\0");
    let notice = host.commit_defaults(plan, "/sys/class/hwmon/hwmon9".to_string(), 5 * SECOND);
    assert_eq!(notice.sensor_count, 1);
    assert_eq!(notice.event.name(), "device_removed");
    assert_eq!(notice.hwmon_path, "/sys/class/hwmon/hwmon9");
    let vm = host.vms.get(100).unwrap();
    assert!(vm.offline_reported && !vm.schema_synced);
    assert_eq!(vm.sensor_attrs.get("p").unwrap(), "temp1_input");
    assert!(host.needs_resync(100));
}

#[test]
fn silence_is_reported_once() {
    let mut host = host_with(&[sensor("a", SensorKind::Fan)], 0);
    let outcome = host.check_heartbeats(30, HeartbeatPolicy::WarnOnly, 30 * SECOND - 1);
    assert!(outcome.expired.is_empty());
    let outcome = host.check_heartbeats(30, HeartbeatPolicy::WarnOnly, 30 * SECOND);
    assert_eq!(outcome.expired, [100]);
    assert!(outcome.removals.is_empty() && outcome.preserves.is_empty());
    assert!(host.check_heartbeats(30, HeartbeatPolicy::WarnOnly, 90 * SECOND).expired.is_empty());

    host.mark_seen(100, 91 * SECOND);
    assert!(!host.vms.get(100).unwrap().offline_reported);
    let outcome = host.check_heartbeats(30, HeartbeatPolicy::WarnThenRemove, 121 * SECOND);
    assert_eq!(outcome.expired, [100]);
    assert_eq!(outcome.removals.len(), 1);
    assert_eq!(outcome.removals[0].sensor_count, 1);
    assert_eq!(outcome.removals[0].event.name(), "vm_offline");
    assert_eq!(outcome.removals[0].hwmon_path, "/sys/class/hwmon/hwmon7");
    assert!(host.vms.get(100).is_none());

    let mut host = host_with(&[persistent("p", 1)], 0);
    let outcome = host.check_heartbeats(30, HeartbeatPolicy::Unknown, 31 * SECOND);
    assert_eq!(outcome.preserves.len(), 1);
    assert!(host.vms.get(100).unwrap().offline_reported);
    assert!(host.check_heartbeats(30, HeartbeatPolicy::RemoveOnly, 99 * SECOND).preserves.is_empty());
}

#[test]
fn a_silent_vm_is_offline_until_it_speaks() {
    let none: VmMap<IdMap<String>> = VmMap::new();
    let mut host = host_with(&[persistent("p", 40_000)], SECOND);
    let mut outcome = host.check_heartbeats(30, HeartbeatPolicy::RemoveOnly, 31 * SECOND);
    let plan = outcome.preserves.remove(0);
    let notice = host.commit_defaults(plan, String::new(), 31 * SECOND);
    assert_eq!((notice.vmid, notice.event.name()), (100, "vm_offline"));
    assert_eq!(host.vms.get(100).unwrap().last_seen, SECOND);
    let info = host.collect_vm_infos(None, &none, 30, 32 * SECOND).remove(0);
    assert!(!info.online && info.offline_reported);
    assert_eq!(info.last_seen_nanos_ago, 31 * SECOND);

    host.mark_seen(100, 40 * SECOND);
    let info = host.collect_vm_infos(None, &none, 30, 41 * SECOND).remove(0);
    assert!(info.online && !info.offline_reported);
    assert_eq!(info.last_seen_nanos_ago, SECOND);
}

#[test]
fn a_restored_vm_is_offline_until_it_speaks() {
    let none: VmMap<IdMap<String>> = VmMap::new();
    let entry = host_with(&[persistent("p", 40_000)], 0).cached_vms().remove(0);
    let mut host = HostState::new();
    let plan = host.restore(entry).unwrap();
    let notice = host.commit_defaults(plan, String::new(), 5 * SECOND);
    assert_eq!(notice.event.name(), "device_created");
    assert!(!host.collect_vm_infos(None, &none, 30, 6 * SECOND)[0].online);
    host.mark_seen(100, 7 * SECOND);
    assert!(host.collect_vm_infos(None, &none, 30, 8 * SECOND)[0].online);
}

#[test]
fn the_journal_is_told_of_silence() {
    assert!(warns(HeartbeatPolicy::WarnOnly));
    assert!(!warns(HeartbeatPolicy::RemoveOnly));
    assert!(warns(HeartbeatPolicy::WarnThenRemove));
    assert!(warns(HeartbeatPolicy::Unknown));
    let timeout = Some("vm 100 heartbeat timeout".to_string());
    assert_eq!(heartbeat_warning("warn_only", 100), timeout);
    assert_eq!(heartbeat_warning("warn_then_remove", 100), timeout);
    assert_eq!(heartbeat_warning("remove_only", 100), None);
    assert_eq!(
        heartbeat_warning("ignore", 100).as_deref(),
        Some("unknown heartbeat policy ignore; using warn_then_remove")
    );
}

#[test]
fn policies_have_names() {
    assert_eq!(heartbeat_policy("warn_only"), HeartbeatPolicy::WarnOnly);
    assert_eq!(heartbeat_policy("remove_only"), HeartbeatPolicy::RemoveOnly);
    assert_eq!(heartbeat_policy("warn_then_remove"), HeartbeatPolicy::WarnThenRemove);
    assert_eq!(heartbeat_policy("ignore"), HeartbeatPolicy::Unknown);
}

#[test]
fn the_cache_gives_back_what_it_holds() {
    let mut host = host_with(&[persistent("p", 40_000)], 0);
    accept(&mut host, 7, 3, &[persistent("q", -1)], 0);
    accept(&mut host, 8, 1, &[sensor("a", SensorKind::Fan)], 0);
    let mut entries = host.cached_vms();
    let ids: Vec<u32> = entries.iter().map(|entry| entry.vmid).collect();
    assert_eq!(ids, [7, 100]);

    let mut restarted = HostState::new();
    let plan = restarted.restore(entries.remove(0)).unwrap();
    assert_eq!((plan.vmid, plan.generation), (7, 3));
    assert_eq!(restarted.hwmon_names.get(7).unwrap(), "vsb_vm_7");
    restarted.commit_defaults(plan, String::new(), 0);
    let again = restarted.cached_vms();
    assert_eq!(again.len(), 1);
    assert_eq!(again[0].sensors[0].descriptor.id, "q");
    assert_eq!(again[0].sensors[0].default_value, -1);

    let broken = |vmid, sensors| PersistentCacheVm {
        vmid,
        generation: 1,
        hwmon_name: "x".to_string(),
        sensors,
    };
    let one = || PersistentRuntimeSensor { descriptor: persistent("p", 1), default_value: 1 };
    assert!(restarted.restore(broken(0, vec![one()])).is_none());
    assert!(restarted.restore(broken(5, Vec::new())).is_none());
    let crowd = (0..MAX_SENSORS + 1).map(|_| one()).collect();
    assert!(restarted.restore(broken(5, crowd)).is_none());
}

#[test]
fn defaults_are_planned_in_order() {
    let sensors = vec![
        PersistentRuntimeSensor { descriptor: persistent("p", 1), default_value: 1 },
        PersistentRuntimeSensor { descriptor: persistent("q", 2), default_value: 2 },
    ];
    let plan = plan_defaults(DeviceEvent::Offline, 9, 2, "vsb_nine".to_string(), sensors);
    assert_eq!(plan.event, DeviceEvent::Offline);
    assert_eq!(plan.schema.sensors[1].channel, 2);
    assert_eq!((plan.values.values[1].id, plan.values.values[1].value), (2, 2));
    assert_eq!(plan.sensor_attrs.get("q").unwrap(), "temp2_input");
}

#[test]
fn sockets_name_their_vm() {
    let template = "/run/vfio-sensor-bridge/vm-{vmid}.sock";
    let socket = "/run/vfio-sensor-bridge/vm-100.sock";
    assert_eq!(parse_vmid_from_socket(socket, template), Some(100));
    assert_eq!(parse_vmid_from_socket("/run/other/vm-100.sock", template), None);
    assert_eq!(parse_vmid_from_socket("/run/other/vm-100.sock", "no placeholder"), Some(100));
    assert_eq!(parse_vmid_from_socket("/run/other/hostd.sock", "no placeholder"), None);
    assert_eq!(parse_vmid_from_socket("/run/vfio-sensor-bridge/vm-x.sock", template), None);
    assert_eq!(parse_vmid_from_socket("a12b", "a{vmid}b"), Some(12));
}

#[test]
fn a_resync_is_asked_for_again() {
    let mut host = HostState::new();
    assert_eq!(host.resync_step(100, 0, 5 * SECOND - 1), ResyncStep::Wait);
    assert_eq!(host.resync_step(100, 0, 5 * SECOND), ResyncStep::Request);
    accept(&mut host, 100, 1, &[sensor("a", SensorKind::Fan)], 0);
    assert_eq!(host.resync_step(100, 0, 5 * SECOND), ResyncStep::Settled);
    assert_eq!(socket_read_timeout(10), 60);
    assert_eq!(socket_read_timeout(45), 90);
}

#[test]
fn paths_are_found() {
    assert_eq!(
        persistent_cache_path("/etc/vfio-sensor-bridge/hostd.toml"),
        "/etc/vfio-sensor-bridge/persistent-vms.json"
    );
    assert_eq!(persistent_cache_path("hostd.toml"), "./persistent-vms.json");
    let device = |path: &str, name: &str| HwmonDevice { path: path.to_string(), name: name.to_string() };
    let devices = [device("/h/0", "k10temp\n"), device("/h/1", "vsb_vm_100\n"), device("/h/2", "vsb_vm_100")];
    assert_eq!(find_hwmon_path(&devices, "vsb_vm_100").as_deref(), Some("/h/1"));
    assert_eq!(find_hwmon_path(&devices, "vsb_vm_1"), None);
    assert_eq!(make_hwmon_name(100), "vsb_vm_100");
}

#[test]
fn status_lists_the_sensors_by_attribute() {
    let host = host_with(
        &[sensor("z", SensorKind::Temperature), sensor("f", SensorKind::Fan), persistent("p", 4)],
        10 * SECOND,
    );
    let vm = host.vms.get(100).unwrap();
    let files = attribute_files(vm);
    assert_eq!(files.get("z").unwrap(), "/sys/class/hwmon/hwmon7/temp1_input");

    let mut readings: IdMap<String> = IdMap::new();
    readings.insert("z".to_string(), " 45000\n".to_string());
    readings.insert("f".to_string(), "many".to_string());
    let infos = build_sensor_infos(vm, &readings);
    let attrs: Vec<&str> = infos.iter().map(|info| info.hwmon_attr.as_str()).collect();
    assert_eq!(attrs, ["fan1_input", "temp1_input", "temp2_input"]);
    assert_eq!(infos[0].value, None);
    assert_eq!(infos[1].value, Some(45_000));
    assert_eq!((infos[2].persistent, infos[2].default_value), (true, Some(4)));
    assert_eq!(infos[1].label, "label z");

    let mut all: VmMap<IdMap<String>> = VmMap::new();
    all.insert(100, readings);
    assert_eq!(host.selected_vms(None), [100]);
    assert!(host.selected_vms(Some(7)).is_empty());
    let vms = host.collect_vm_infos(None, &all, 30, 39 * SECOND);
    assert_eq!(vms.len(), 1);
    assert!(vms[0].online);
    assert_eq!(vms[0].last_seen_nanos_ago, 29 * SECOND);
    assert!(!host.collect_vm_infos(Some(100), &all, 30, 40 * SECOND)[0].online);
    assert!(host.collect_vm_infos(Some(7), &all, 30, 40 * SECOND).is_empty());
}

#[test]
fn requests_are_answered() {
    assert_eq!(ctl_filter(CtlRequest::ListVms), None);
    assert_eq!(ctl_filter(CtlRequest::GetVm { vmid: 3 }), Some(3));
    assert_eq!(
        ctl_response(CtlRequest::GetVm { vmid: 3 }, Vec::new()),
        CtlResponse::NotFound { vmid: 3 }
    );
    assert_eq!(ctl_response(CtlRequest::ListVms, Vec::new()), CtlResponse::VmList { vms: Vec::new() });
    let host = host_with(&[sensor("a", SensorKind::Fan)], 0);
    let infos = host.collect_vm_infos(Some(100), &VmMap::new(), 30, 0);
    match ctl_response(CtlRequest::GetVm { vmid: 100 }, infos) {
        CtlResponse::VmInfo(info) => assert_eq!((info.vmid, info.sensors.len()), (100, 1)),
        _ => panic!("the VM was expected"),
    }
}

#[test]
fn defaults_of_the_daemon() {
    let config = HostConfig::default();
    assert_eq!(DEFAULT_CONFIG, "/etc/vfio-sensor-bridge/hostd.toml");
    assert_eq!(config.daemon.run_dir, "/run/vfio-sensor-bridge");
    assert_eq!(config.daemon.device, "/dev/vfio-sensor-bridge");
    assert_eq!(config.daemon.log_level, "info");
    assert_eq!(config.virtio.channel_name, "org.vfio_sensor_bridge.0");
    assert_eq!(config.virtio.socket_template, "/run/vfio-sensor-bridge/vm-{vmid}.sock");
    assert_eq!(config.heartbeat.timeout_seconds, 30);
    assert_eq!(config.heartbeat.policy, "warn_then_remove");
    assert!(config_size_ok(MAX_CONFIG_BYTES));
    assert!(!config_size_ok(MAX_CONFIG_BYTES + 1));
}

#[test]
fn maps_keep_one_value_per_key() {
    let mut map: VmMap<String> = VmMap::new();
    map.insert(9, "a".to_string());
    map.insert(3, "b".to_string());
    map.insert(9, "c".to_string());
    assert_eq!(map.ids(), [3, 9]);
    assert_eq!(map.get(9).unwrap(), "c");
    assert_eq!(map.remove(9).as_deref(), Some("c"));
    assert_eq!(map.remove(9), None);
    assert_eq!(map.ids(), [3]);

    let mut ids: IdMap<u32> = IdMap::new();
    ids.insert("x".to_string(), 1);
    ids.insert("y".to_string(), 2);
    ids.insert("x".to_string(), 3);
    assert_eq!(ids.get("x"), Some(&3));
    assert!(ids.contains_key("y") && !ids.contains_key("z"));
    assert_eq!(ids.entries()[0], ("x".to_string(), 3));
}
