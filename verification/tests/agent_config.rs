use toml::Value;
use vfio_sensor_bridge::agent::config::{
    validate_config, AgentConfig, AgentSection, ConfigError, PersistentSensorConfig,
    PersistentSensorSource, DEFAULT_CONFIG,
};
use vfio_sensor_bridge::agent::config_edit::{
    add_persistent_sensor, default_config_text, init_allowed, remove_persistent_sensor,
    sensor_kind_name, set_agent, set_hba, set_smartctl, show_config, temporary_path, AgentSet,
    EditError, HbaSet, Section, SmartctlSet,
};
use vfio_sensor_bridge::protocol::SensorKind;

fn text(value: &Value, key: &str) -> Option<String> {
    value.get(key).map(|text| text.as_str().unwrap().to_string())
}

fn parse(raw: &str) -> AgentConfig {
    let document: Value = toml::from_str(raw).unwrap();
    let mut config = AgentConfig::default();
    if let Some(agent) = document.get("agent") {
        if let Some(root) = text(agent, "scan_root") {
            config.agent.scan_root = root;
        }
        if let Some(seconds) = agent.get("sample_seconds") {
            config.agent.sample_seconds = seconds.as_integer().unwrap() as u64;
        }
    }
    if let Some(list) = document.get("persistent_sensor") {
        for entry in list.as_array().unwrap() {
            let source = &entry["source"];
            let source = match source["type"].as_str().unwrap() {
                "hwmon" => PersistentSensorSource::Hwmon {
                    chip_name: text(source, "chip_name"),
                    input: text(source, "input").unwrap(),
                    source_label: text(source, "source_label"),
                    device_path_contains: text(source, "device_path_contains"),
                },
                "smartctl" => {
                    PersistentSensorSource::Smartctl { device: text(source, "device").unwrap() }
                }
                _ => PersistentSensorSource::LsiHba {
                    device: text(source, "device").unwrap(),
                    ioc: source["ioc"].as_integer().unwrap() as u32,
                },
            };
            assert_eq!(entry["kind"].as_str(), Some("temperature"));
            config.persistent_sensor.push(PersistentSensorConfig {
                id: text(entry, "id").unwrap(),
                kind: SensorKind::Temperature,
                label: text(entry, "label").unwrap(),
                default_value: entry["default_value"].as_integer().unwrap(),
                source,
            });
        }
    }
    config
}

#[test]
fn parses_persistent_hwmon_sensor() {
    let config = parse(
        r#"
[agent]

[[persistent_sensor]]
id = "gpu_edge_temp"
kind = "temperature"
label = "GPU Edge"
default_value = 65000

[persistent_sensor.source]
type = "hwmon"
chip_name = "amdgpu"
input = "temp1_input"
source_label = "edge"
device_path_contains = "0000:03:00.0"
"#,
    );

    validate_config(&config).unwrap();
    assert_eq!(config.persistent_sensor.len(), 1);
}

#[test]
fn the_default_text_is_a_sound_configuration() {
    let config = parse(default_config_text());
    validate_config(&config).unwrap();
    let document: Value = toml::from_str(default_config_text()).unwrap();
    let default = AgentConfig::default();
    assert_eq!(document["agent"]["virtio_port"].as_str(), Some(default.agent.virtio_port.as_str()));
    assert_eq!(document["agent"]["scan_root"].as_str(), Some(default.agent.scan_root.as_str()));
    assert_eq!(document["agent"]["rescan_seconds"].as_integer(), Some(10));
    assert_eq!(document["lsi_hba"]["enabled"].as_bool(), Some(default.lsi_hba.enabled));
    assert_eq!(document["lsi_hba"]["max_ioc"].as_integer(), Some(16));
    assert_eq!(
        document["smartctl"]["label_template"].as_str(),
        Some(default.smartctl.label_template.as_str())
    );
    assert_eq!(document["smartctl"]["device_globs"].as_array().unwrap().len(), 2);
}

fn persistent(id: &str, source: PersistentSensorSource) -> PersistentSensorConfig {
    PersistentSensorConfig {
        id: id.to_string(),
        kind: SensorKind::Temperature,
        label: "Label".to_string(),
        default_value: 50_000,
        source,
    }
}

fn smartctl(device: &str) -> PersistentSensorSource {
    PersistentSensorSource::Smartctl { device: device.to_string() }
}

fn hwmon(input: &str) -> PersistentSensorSource {
    PersistentSensorSource::Hwmon {
        chip_name: None,
        input: input.to_string(),
        source_label: None,
        device_path_contains: None,
    }
}

fn fault(config: &AgentConfig) -> String {
    validate_config(config).unwrap_err().message()
}

#[test]
fn intervals_must_not_be_zero() {
    validate_config(&AgentConfig::default()).unwrap();
    let mut config = AgentConfig::default();
    config.agent.rescan_seconds = 0;
    assert_eq!(fault(&config), "agent.rescan_seconds must be greater than zero");
    let mut config = AgentConfig::default();
    config.agent.sample_seconds = 0;
    assert_eq!(fault(&config), "agent.sample_seconds must be greater than zero");
    let mut config = AgentConfig::default();
    config.agent.heartbeat_seconds = 0;
    assert_eq!(fault(&config), "agent.heartbeat_seconds must be greater than zero");
    let mut config = AgentConfig::default();
    config.smartctl.timeout_seconds = 0;
    assert_eq!(fault(&config), "smartctl.timeout_seconds must be greater than zero");
    let mut config = AgentConfig::default();
    config.smartctl.poll_seconds = 0;
    assert_eq!(fault(&config), "smartctl.poll_seconds must be greater than zero");
}

#[test]
fn persistent_sensors_are_checked() {
    let faults = [
        (persistent("", smartctl("/dev/sda")), "invalid persistent_sensor.id"),
        (persistent("a\tb", smartctl("/dev/sda")), "invalid persistent_sensor.id"),
        (persistent("a", smartctl("")), "invalid persistent_sensor.source.device"),
        (persistent("a", hwmon("")), "invalid persistent_sensor.source.input"),
        (persistent("a", hwmon("temp1")), "persistent hwmon source input must end with _input"),
        (
            persistent("a", PersistentSensorSource::LsiHba { device: "x".repeat(513), ioc: 0 }),
            "invalid persistent_sensor.source.device",
        ),
    ];
    for (sensor, message) in faults {
        let mut config = AgentConfig::default();
        config.persistent_sensor.push(sensor);
        assert_eq!(fault(&config), message);
    }

    let mut config = AgentConfig::default();
    let mut sensor = persistent("a", smartctl("/dev/sda"));
    sensor.label = "x".repeat(129);
    config.persistent_sensor.push(sensor);
    assert_eq!(fault(&config), "invalid persistent_sensor.label");

    let mut config = AgentConfig::default();
    config.persistent_sensor.push(persistent("a", smartctl("/dev/sda")));
    config.persistent_sensor.push(persistent("b", hwmon("temp1_input")));
    validate_config(&config).unwrap();
    config.persistent_sensor.push(persistent("a", hwmon("temp2_input")));
    assert!(matches!(validate_config(&config), Err(ConfigError::DuplicateId(id)) if id == "a"));
    assert_eq!(fault(&config), "duplicate persistent_sensor.id a");
}

#[test]
fn files_are_replaced_as_a_whole() {
    assert!(init_allowed(false, false));
    assert!(init_allowed(true, true));
    assert!(!init_allowed(true, false));
    assert_eq!(show_config(None), default_config_text());
    assert_eq!(show_config(Some("[agent]".to_string())), "[agent]");
    assert_eq!(DEFAULT_CONFIG, "/etc/vfio-sensor-bridge/agent.toml");
    assert_eq!(
        temporary_path("/etc/vfio-sensor-bridge/agent.toml"),
        "/etc/vfio-sensor-bridge/.agent.toml.tmp"
    );
}

fn agent_set(seconds: u64) -> AgentSet {
    AgentSet {
        scan_root: Some("/sys/other".to_string()),
        sample_seconds: Some(seconds),
        heartbeat_seconds: None,
        rescan_seconds: None,
    }
}

#[test]
fn settings_are_edited_in_place() {
    let edited = set_agent(default_config_text(), &agent_set(3)).unwrap();
    let document: Value = toml::from_str(&edited).unwrap();
    assert_eq!(document["agent"]["scan_root"].as_str(), Some("/sys/other"));
    assert_eq!(document["agent"]["sample_seconds"].as_integer(), Some(3));
    assert_eq!(document["agent"]["heartbeat_seconds"].as_integer(), Some(5));
    assert!(edited.contains("# {hostname}, {agent_version}"));

    let nothing = AgentSet {
        scan_root: None,
        sample_seconds: None,
        heartbeat_seconds: None,
        rescan_seconds: None,
    };
    assert_eq!(set_agent(default_config_text(), &nothing).unwrap(), default_config_text());

    let all = AgentSet {
        scan_root: None,
        sample_seconds: None,
        heartbeat_seconds: Some(7),
        rescan_seconds: Some(8),
    };
    let edited = set_agent("", &all).unwrap();
    let document: Value = toml::from_str(&edited).unwrap();
    assert_eq!(document["agent"]["heartbeat_seconds"].as_integer(), Some(7));
    assert_eq!(document["agent"]["rescan_seconds"].as_integer(), Some(8));
}

#[test]
fn adapters_and_disks_are_edited() {
    let set = HbaSet {
        enabled: Some(true),
        devices: Some(vec!["/dev/mpt3ctl".to_string()]),
        max_ioc: Some(4),
    };
    let edited = set_hba(default_config_text(), &set).unwrap();
    let document: Value = toml::from_str(&edited).unwrap();
    assert_eq!(document["lsi_hba"]["enabled"].as_bool(), Some(true));
    assert_eq!(document["lsi_hba"]["max_ioc"].as_integer(), Some(4));
    let devices = document["lsi_hba"]["devices"].as_array().unwrap();
    assert_eq!(devices.len(), 1);
    assert_eq!(devices[0].as_str(), Some("/dev/mpt3ctl"));

    let set = SmartctlSet {
        enabled: Some(true),
        device_globs: Some(vec!["/dev/nvme*".to_string(), "/dev/sd*".to_string()]),
        timeout_seconds: Some(20),
        poll_seconds: Some(60),
    };
    let edited = set_smartctl(&edited, &set).unwrap();
    let document: Value = toml::from_str(&edited).unwrap();
    assert_eq!(document["smartctl"]["enabled"].as_bool(), Some(true));
    assert_eq!(document["smartctl"]["timeout_seconds"].as_integer(), Some(20));
    assert_eq!(document["smartctl"]["poll_seconds"].as_integer(), Some(60));
    let globs = document["smartctl"]["device_globs"].as_array().unwrap();
    assert_eq!(globs[0].as_str(), Some("/dev/nvme*"));
    assert_eq!(globs[1].as_str(), Some("/dev/sd*"));
    assert_eq!(document["lsi_hba"]["enabled"].as_bool(), Some(true));
}

#[test]
fn broken_documents_are_refused() {
    assert!(matches!(set_agent("[agent", &agent_set(1)), Err(EditError::Parse(_))));
    let error = set_agent("agent = 1", &agent_set(1)).unwrap_err();
    assert!(matches!(error, EditError::NotATable(Section::Agent)));
    assert_eq!(error.message(), "agent must be a TOML table");

    let set = HbaSet { enabled: None, devices: None, max_ioc: None };
    let error = set_hba("lsi_hba = \"x\"", &set).unwrap_err();
    assert_eq!(error.message(), "lsi_hba must be a TOML table");

    let set = SmartctlSet {
        enabled: None,
        device_globs: None,
        timeout_seconds: None,
        poll_seconds: None,
    };
    let error = set_smartctl("[[smartctl]]", &set).unwrap_err();
    assert_eq!(error.message(), "smartctl must be a TOML table");

    let error = remove_persistent_sensor("[persistent_sensor]", "a").unwrap_err();
    assert!(matches!(error, EditError::NotTables));
    assert_eq!(error.message(), "persistent_sensor must be an array of tables");
    assert!(matches!(
        add_persistent_sensor("x = ", &persistent("a", hwmon("temp1_input"))),
        Err(EditError::Parse(_))
    ));
}

#[test]
fn persistent_sensors_are_added_and_removed() {
    let gpu = persistent(
        "gpu",
        PersistentSensorSource::Hwmon {
            chip_name: Some("amdgpu".to_string()),
            input: "temp1_input".to_string(),
            source_label: Some("edge".to_string()),
            device_path_contains: None,
        },
    );
    let raw = add_persistent_sensor(default_config_text(), &gpu).unwrap();
    let raw = add_persistent_sensor(&raw, &persistent("disk", smartctl("/dev/sda"))).unwrap();
    let hba = PersistentSensorSource::LsiHba { device: "/dev/mpt2ctl".to_string(), ioc: 1 };
    let raw = add_persistent_sensor(&raw, &persistent("hba", hba)).unwrap();

    let config = parse(&raw);
    validate_config(&config).unwrap();
    let ids: Vec<&str> = config.persistent_sensor.iter().map(|s| s.id.as_str()).collect();
    assert_eq!(ids, ["gpu", "disk", "hba"]);
    match &config.persistent_sensor[0].source {
        PersistentSensorSource::Hwmon { chip_name, input, source_label, device_path_contains } => {
            assert_eq!(chip_name.as_deref(), Some("amdgpu"));
            assert_eq!(input, "temp1_input");
            assert_eq!(source_label.as_deref(), Some("edge"));
            assert_eq!(*device_path_contains, None);
        }
        _ => panic!("a hwmon source was expected"),
    }
    assert!(matches!(
        &config.persistent_sensor[2].source,
        PersistentSensorSource::LsiHba { device, ioc: 1 } if device == "/dev/mpt2ctl"
    ));

    // Adding a sensor again puts it in place of the first, at the end.
    let mut again = persistent("gpu", hwmon("temp2_input"));
    again.default_value = -5;
    let raw = add_persistent_sensor(&raw, &again).unwrap();
    let config = parse(&raw);
    let ids: Vec<&str> = config.persistent_sensor.iter().map(|s| s.id.as_str()).collect();
    assert_eq!(ids, ["disk", "hba", "gpu"]);
    assert_eq!(config.persistent_sensor[2].default_value, -5);

    let (raw, removed) = remove_persistent_sensor(&raw, "hba").unwrap();
    assert!(removed);
    assert_eq!(parse(&raw).persistent_sensor.len(), 2);
    let (same, removed) = remove_persistent_sensor(&raw, "hba").unwrap();
    assert!(!removed);
    assert_eq!(same, raw);
}

#[test]
fn removing_undoes_adding() {
    let raw = add_persistent_sensor("", &persistent("disk", smartctl("/dev/sda"))).unwrap();
    let more = add_persistent_sensor(&raw, &persistent("gpu", hwmon("temp1_input"))).unwrap();
    let (back, removed) = remove_persistent_sensor(&more, "gpu").unwrap();
    assert!(removed);
    let config = parse(&back);
    assert_eq!(config.persistent_sensor.len(), 1);
    assert_eq!(config.persistent_sensor[0].id, "disk");
}

#[test]
fn kinds_have_names() {
    let names = [
        (SensorKind::Temperature, "temperature"),
        (SensorKind::Fan, "fan"),
        (SensorKind::Voltage, "voltage"),
        (SensorKind::Current, "current"),
        (SensorKind::Power, "power"),
    ];
    for (kind, name) in names {
        assert_eq!(sensor_kind_name(kind), name);
    }
}

#[test]
fn the_default_section_is_what_the_text_says() {
    let section = AgentSection::default();
    assert_eq!(section.virtio_port, "/dev/virtio-ports/org.vfio_sensor_bridge.0");
    assert_eq!(section.scan_root, "/sys/class/hwmon");
    assert_eq!(section.hwmon_name_template, None);
    assert_eq!((section.rescan_seconds, section.sample_seconds), (10, 1));
    assert_eq!(section.heartbeat_seconds, 5);
}
