use vfio_sensor_bridge::agent::config::{
    AgentConfig, LsiHbaSection, PersistentSensorConfig, PersistentSensorSource,
};
use vfio_sensor_bridge::agent::discover::{
    discover_persistent_candidates, discovery_line, find_discovery, pad_right, persistent_line,
};
use vfio_sensor_bridge::agent::disks::{scan_smartctl_sensors, DiskReading, SmartctlSensor};
use vfio_sensor_bridge::agent::label::{normalize_label, render_hwmon_name};
use vfio_sensor_bridge::agent::schedule::{
    closing_steps, hello_message, opening_steps, reader_error_step, reader_step, same_descriptors,
    AgentClock, AgentIdentity, AgentStep, ReaderStep,
};
use vfio_sensor_bridge::agent::sensor_id::stable_sensor_id;
use vfio_sensor_bridge::agent::sensors::{
    descriptors, hostname, label_file_name, parse_input_name, read_source_value, read_values,
    resolve_persistent_source, scan_all_sensors, scan_hba_sensors, scan_hwmon_candidates,
    scan_persistent_sensors, HbaReading, HwmonCandidate, HwmonDirectory, HwmonFile, LiveSource,
    SensorSource,
};
use vfio_sensor_bridge::agent::smartctl::SmartctlIdentity;
use vfio_sensor_bridge::protocol::{ErrorKind, Message, SensorDescriptor, SensorKind};

const SECOND: u64 = 1_000_000_000;

fn file(file_name: &str, label: Option<&str>) -> HwmonFile {
    HwmonFile { file_name: file_name.to_string(), label: label.map(|text| text.to_string()) }
}

fn machine() -> Vec<HwmonDirectory> {
    vec![
        HwmonDirectory {
            path: "/sys/class/hwmon/hwmon1".to_string(),
            name: Some("amdgpu\n".to_string()),
            device_path: "/sys/devices/pci/0000:03:00.0".to_string(),
            files: vec![
                file("temp1_input", Some("edge\n")),
                file("fan1_input", None),
                file("temp1_label", None),
                file("tempx_input", None),
            ],
        },
        HwmonDirectory {
            path: "/sys/class/hwmon/hwmon0".to_string(),
            name: None,
            device_path: "/sys/devices/platform".to_string(),
            files: vec![file("in0_input", Some("  ")), file("temp1_input", None)],
        },
    ]
}

fn candidates() -> Vec<HwmonCandidate> {
    scan_hwmon_candidates(&machine())
}

#[test]
fn input_names_tell_kind_and_channel() {
    assert_eq!(parse_input_name("temp12_input"), Some((SensorKind::Temperature, "temp", 12)));
    assert_eq!(parse_input_name("fan1_input"), Some((SensorKind::Fan, "fan", 1)));
    assert_eq!(parse_input_name("in0_input"), Some((SensorKind::Voltage, "in", 0)));
    assert_eq!(parse_input_name("curr1_input"), Some((SensorKind::Current, "curr", 1)));
    assert_eq!(parse_input_name("power1_input"), Some((SensorKind::Power, "power", 1)));
    assert_eq!(parse_input_name("temp_input"), None);
    assert_eq!(parse_input_name("temp1_max"), None);
    assert_eq!(parse_input_name("humidity1_input"), None);
    assert_eq!(label_file_name("temp01_input").as_deref(), Some("temp1_label"));
    assert_eq!(label_file_name("name"), None);
}

#[test]
fn candidates_come_in_the_order_of_their_ids() {
    let found = candidates();
    let ids: Vec<&str> = found.iter().map(|c| c.descriptor.id.as_str()).collect();
    assert_eq!(
        ids,
        [
            "/sys/class/hwmon/hwmon0:in0",
            "/sys/class/hwmon/hwmon0:temp1",
            "/sys/class/hwmon/hwmon1:fan1",
            "/sys/class/hwmon/hwmon1:temp1",
        ]
    );
    assert_eq!(found[0].descriptor.label, "hwmon in0");
    assert_eq!(found[0].source_label, None);
    assert_eq!(found[2].descriptor.label, "amdgpu fan1");
    assert_eq!(found[3].descriptor.label, "edge");
    assert_eq!(found[3].source_label.as_deref(), Some("edge"));
    assert_eq!(found[3].chip_name, "amdgpu");
    assert_eq!(found[3].input_path, "/sys/class/hwmon/hwmon1/temp1_input");
    assert_eq!(found[3].descriptor.kind, SensorKind::Temperature);
}

fn gpu(chip_name: Option<&str>, device_path: Option<&str>) -> PersistentSensorConfig {
    PersistentSensorConfig {
        id: "gpu".to_string(),
        kind: SensorKind::Temperature,
        label: "GPU".to_string(),
        default_value: 65_000,
        source: PersistentSensorSource::Hwmon {
            chip_name: chip_name.map(|text| text.to_string()),
            input: "temp1_input".to_string(),
            source_label: None,
            device_path_contains: device_path.map(|text| text.to_string()),
        },
    }
}

fn disk(device: &str) -> PersistentSensorConfig {
    PersistentSensorConfig {
        id: "disk".to_string(),
        kind: SensorKind::Temperature,
        label: "Disk".to_string(),
        default_value: 30_000,
        source: PersistentSensorSource::Smartctl { device: device.to_string() },
    }
}

#[test]
fn a_source_must_be_the_only_one_that_fits() {
    let config = AgentConfig::default();
    let (source, id) =
        resolve_persistent_source(&config, &candidates(), &gpu(Some("amdgpu"), None)).unwrap();
    assert!(matches!(source, LiveSource::HwmonInput(p) if p == "/sys/class/hwmon/hwmon1/temp1_input"));
    assert_eq!(id, "/sys/class/hwmon/hwmon1:temp1");

    assert!(resolve_persistent_source(&config, &candidates(), &gpu(None, None)).is_none());
    let by_path = gpu(None, Some("0000:03:00.0"));
    assert!(resolve_persistent_source(&config, &candidates(), &by_path).is_some());
    let missing = gpu(Some("nouveau"), None);
    assert!(resolve_persistent_source(&config, &candidates(), &missing).is_none());

    let (source, id) = resolve_persistent_source(&config, &[], &disk("/dev/sda")).unwrap();
    assert!(matches!(source, LiveSource::SmartctlTemperature(s) if s.device == "/dev/sda"));
    assert_eq!(id, "smartctl:/dev/sda");

    let mut hba = disk("");
    hba.source = PersistentSensorSource::LsiHba { device: "/dev/mpt2ctl".to_string(), ioc: 2 };
    let (source, id) = resolve_persistent_source(&config, &[], &hba).unwrap();
    assert!(matches!(source, LiveSource::Mpt2IocTemperature { ioc: 2, .. }));
    assert_eq!(id, "hba:mpt2ctl:ioc2");
}

fn adapters() -> Vec<HbaReading> {
    vec![HbaReading {
        device: "/dev/mpt2ctl".to_string(),
        ioc: 0,
        value: 51_000,
        identity: None,
    }]
}

fn disks(config: &AgentConfig) -> Vec<SmartctlSensor> {
    let reading = DiskReading {
        device: "/dev/sda".to_string(),
        value: 31_000,
        identity: SmartctlIdentity::default(),
        read_at: 0,
    };
    scan_smartctl_sensors(&config.smartctl, &[reading])
}

#[test]
fn what_a_persistent_sensor_shows_is_not_shown_twice() {
    let mut config = AgentConfig::default();
    config.lsi_hba.enabled = true;
    config.smartctl.enabled = true;
    config.persistent_sensor.push(gpu(Some("amdgpu"), None));
    config.persistent_sensor.push(disk("/dev/sda"));

    let (persistent, hidden) = scan_persistent_sensors(&config, &candidates());
    assert_eq!(persistent.len(), 2);
    assert_eq!(hidden, ["/sys/class/hwmon/hwmon1:temp1", "smartctl:/dev/sda"]);
    assert_eq!(persistent[0].descriptor.default_value, Some(65_000));
    assert!(persistent[0].descriptor.persistent);

    let sensors = scan_all_sensors(&config, &candidates(), &adapters(), &disks(&config));
    let ids: Vec<&str> = sensors.iter().map(|s| s.descriptor.id.as_str()).collect();
    assert_eq!(
        ids,
        [
            "/sys/class/hwmon/hwmon0:in0",
            "/sys/class/hwmon/hwmon0:temp1",
            "/sys/class/hwmon/hwmon1:fan1",
            "disk",
            "gpu",
            "hba:mpt2ctl:ioc0",
        ]
    );
    assert_eq!(descriptors(&sensors)[4].label, "GPU");
    assert!(matches!(sensors[4].live(), Some(LiveSource::HwmonInput(_))));
}

#[test]
fn adapters_become_sensors_when_enabled() {
    let mut config = LsiHbaSection::default();
    assert!(scan_hba_sensors(&config, &adapters()).is_empty());
    config.enabled = true;
    let sensors = scan_hba_sensors(&config, &adapters());
    assert_eq!(sensors.len(), 1);
    assert_eq!(sensors[0].descriptor.id, "hba:mpt2ctl:ioc0");
    assert_eq!(sensors[0].descriptor.label, "HBA IOC 0 Controller");
}

#[test]
fn persistent_sensors_always_have_a_value() {
    let mut config = AgentConfig::default();
    config.persistent_sensor.push(gpu(Some("amdgpu"), None));
    let sensors = scan_all_sensors(&config, &candidates(), &[], &[]);
    assert_eq!(sensors[3].descriptor.id, "gpu");

    let values = read_values(&sensors, &[Some(12_000), None, None, None]);
    assert_eq!(values.len(), 2);
    assert_eq!(values[0].id, "/sys/class/hwmon/hwmon0:in0");
    assert_eq!(values[0].value, 12_000);
    assert_eq!((values[1].id.as_str(), values[1].value), ("gpu", 65_000));

    let values = read_values(&sensors, &[None, None, None, Some(70_000)]);
    assert_eq!((values[0].id.as_str(), values[0].value), ("gpu", 70_000));

    let absent = SensorSource::Persistent { source: None, default_value: 4 };
    assert_eq!(read_source_value(&absent, Some(9)), Some(4));
}

#[test]
fn discoveries_are_numbered_from_one() {
    let mut config = AgentConfig::default();
    config.lsi_hba.enabled = true;
    config.smartctl.enabled = true;
    let disks = disks(&config);
    let found = discover_persistent_candidates(
        &config.lsi_hba,
        &candidates(),
        &[None, Some(40_000), None, Some(60_000)],
        &disks,
        &[Some(31_000)],
        &adapters(),
    );
    let ids: Vec<&str> = found.iter().map(|d| d.id.as_str()).collect();
    assert_eq!(
        ids,
        [
            "hwmon_hwmon_temp1_input_hwmon_temp1_sys_devices_platform",
            "hwmon_amdgpu_temp1_input_edge_sys_devices_pci_0000_03_00_0",
            "smartctl_dev_sda",
            "lsi_hba_dev_mpt2ctl_0",
        ]
    );
    let numbers: Vec<usize> = found.iter().map(|d| d.index).collect();
    assert_eq!(numbers, [1, 2, 3, 4]);
    assert_eq!(found[1].summary, "amdgpu temp1_input edge");
    assert_eq!(found[2].summary, "smartctl /dev/sda sda temperature");
    assert_eq!(found[3].summary, "lsi_hba /dev/mpt2ctl ioc0 HBA IOC 0 Controller");
    assert_eq!(discovery_line(&found[2]), "3   temperature 31000    smartctl /dev/sda sda temperature");

    let sensor = find_discovery(found, 2).unwrap().into_persistent_config(55_000);
    assert_eq!(sensor.id, "hwmon_amdgpu_temp1_input_edge_sys_devices_pci_0000_03_00_0");
    assert_eq!(sensor.default_value, 55_000);
    assert_eq!(
        persistent_line(&sensor),
        "hwmon_amdgpu_temp1_input_edge_sys_devices_pci_0000_03_00_0  temperature  edge  default=55000"
    );
    let (source, id) =
        resolve_persistent_source(&AgentConfig::default(), &candidates(), &sensor).unwrap();
    assert!(matches!(source, LiveSource::HwmonInput(_)));
    assert_eq!(id, "/sys/class/hwmon/hwmon1:temp1");
    assert!(find_discovery(Vec::new(), 1).is_none());
}

fn id_of(parts: &[&str]) -> String {
    let parts: Vec<String> = parts.iter().map(|part| part.to_string()).collect();
    stable_sensor_id(&parts)
}

#[test]
fn ids_are_made_of_letters_digits_and_underscores() {
    assert_eq!(id_of(&["Hwmon", "--", "k10temp"]), "hwmon_k10temp");
    assert_eq!(id_of(&["é", "x"]), "_x");
    assert_eq!(id_of(&["!", "?"]), "persistent_sensor");
    assert_eq!(id_of(&[]), "persistent_sensor");
    assert_eq!(id_of(&[&"a".repeat(200)]), "a".repeat(120));
    assert_eq!(id_of(&[&"a".repeat(200), "bcd"]), format!("{}_b", "a".repeat(120)));
}

#[test]
fn ids_do_not_depend_on_case() {
    assert_eq!(id_of(&["HWMON", "GPU Edge"]), "hwmon_gpu_edge");
    assert_eq!(id_of(&["HWMON", "GPU Edge"]), id_of(&["hwmon", "gpu eDGE"]));
    assert_eq!(id_of(&["a__b", "_c_"]), "a_b_c");
    assert_eq!(id_of(&["ÄÖ", "-"]), "persistent_sensor");
}

#[test]
fn labels_fit_a_message() {
    assert_eq!(normalize_label("  a\u{7}b  ", "none"), "ab");
    assert_eq!(normalize_label(" \n ", "none"), "none");
    assert_eq!(normalize_label(&"é".repeat(100), "none"), "é".repeat(64));
    assert_eq!(normalize_label(&"x".repeat(200), "none"), "x".repeat(128));
}

#[test]
fn hwmon_names_are_made_safe() {
    let template = Some("vsb_{hostname}-{agent_version}".to_string());
    assert_eq!(render_hwmon_name(&template, "guest.lan", "1.2").as_deref(), Some("vsb_guest_lan_1_2"));
    assert_eq!(render_hwmon_name(&Some("ä".repeat(40)), "h", "1").as_deref(), Some("_".repeat(31).as_str()));
    assert_eq!(render_hwmon_name(&None, "h", "1"), None);
    assert_eq!(render_hwmon_name(&Some(String::new()), "h", "1"), None);
}

#[test]
fn host_names_are_trimmed() {
    assert_eq!(hostname(Some("guest\n")), "guest");
    assert_eq!(hostname(None), "unknown");
}

#[test]
fn columns_are_padded() {
    assert_eq!(pad_right("ab", 4), "ab  ");
    assert_eq!(pad_right("°C", 3), "°C ");
    assert_eq!(pad_right("abcde", 4), "abcde");
}

#[test]
fn the_clock_sends_what_is_due() {
    let section = AgentConfig::default().agent;
    let mut clock = AgentClock::start(0);
    assert_eq!(clock.generation, 1);
    assert_eq!(clock.tick(&section, false, SECOND - 1), []);
    assert_eq!(clock.tick(&section, false, SECOND), [AgentStep::SendSample]);
    assert_eq!(clock.tick(&section, false, SECOND + 1), []);
    assert_eq!(
        clock.tick(&section, true, SECOND + 2),
        [AgentStep::SendHello, AgentStep::SendSchema, AgentStep::SendSample]
    );
    assert_eq!(
        clock.tick(&section, false, 10 * SECOND),
        [AgentStep::SendSample, AgentStep::SendHeartbeat, AgentStep::Rescan]
    );
}

fn descriptor(id: &str) -> SensorDescriptor {
    SensorDescriptor {
        id: id.to_string(),
        kind: SensorKind::Fan,
        label: "Fan".to_string(),
        persistent: false,
        default_value: None,
    }
}

#[test]
fn other_sensors_are_another_generation() {
    let mut clock = AgentClock::start(0);
    let known = [descriptor("a")];
    assert_eq!(clock.rescanned(&known, &[descriptor("a")]), []);
    assert_eq!(clock.generation, 1);
    assert_eq!(
        clock.rescanned(&known, &[descriptor("b")]),
        [AgentStep::SendSchema, AgentStep::SendSample]
    );
    assert_eq!(clock.generation, 2);
    assert!(!same_descriptors(&known, &[]));
}

#[test]
fn the_last_generation_stays_while_the_sensors_do() {
    let mut clock = AgentClock { generation: u64::MAX, ..AgentClock::start(0) };
    assert_eq!(clock.rescanned(&[descriptor("a")], &[descriptor("a")]), []);
    assert_eq!(clock.generation, u64::MAX);
}

#[test]
fn the_agent_says_hello_first_and_goodbye_last() {
    assert_eq!(
        opening_steps(),
        [AgentStep::SendHello, AgentStep::SendSchema, AgentStep::SendSample]
    );
    assert_eq!(closing_steps(), [AgentStep::SendGoodbye]);

    let identity = AgentIdentity {
        agent_version: "0.1.0".to_string(),
        hostname: "guest".to_string(),
        hwmon_name: None,
    };
    match hello_message(&identity) {
        Message::Hello { agent_version, hostname, hwmon_name } => {
            assert_eq!((agent_version.as_str(), hostname.as_str()), ("0.1.0", "guest"));
            assert_eq!(hwmon_name, None);
        }
        _ => panic!("a hello was expected"),
    }
    let mut config = AgentConfig::default();
    config.persistent_sensor.push(gpu(Some("amdgpu"), None));
    let sensors = scan_all_sensors(&config, &candidates(), &[], &[]);
    let clock = AgentClock::start(0);
    match clock.schema_message(&sensors) {
        Message::Schema { generation, sensors: list } => {
            assert_eq!(generation, 1);
            assert!(same_descriptors(&list, &descriptors(&sensors)));
        }
        _ => panic!("a schema was expected"),
    }
    match clock.sample_message(&sensors, &[None, None, None, Some(70_000)]) {
        Message::Sample { generation, values } => {
            assert_eq!((generation, values.len()), (1, 1));
            assert_eq!((values[0].id.as_str(), values[0].value), ("gpu", 70_000));
        }
        _ => panic!("a sample was expected"),
    }
}

#[test]
fn the_reader_heeds_only_resync_requests() {
    assert_eq!(reader_step(&Message::RequestResync), ReaderStep::Resync);
    assert_eq!(reader_step(&Message::Heartbeat), ReaderStep::Ignore);
    assert_eq!(reader_error_step(Some(ErrorKind::InvalidData)), ReaderStep::Stop);
    assert_eq!(reader_error_step(Some(ErrorKind::UnexpectedEof)), ReaderStep::Retry);
    assert_eq!(reader_error_step(None), ReaderStep::Retry);
}
