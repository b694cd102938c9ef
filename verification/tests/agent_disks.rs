use vfio_sensor_bridge::agent::config::SmartctlSection;
use vfio_sensor_bridge::agent::disks::{
    fitting_entries, is_candidate_device, looks_like_partition_name, plan_pattern, same_path,
    scan_smartctl_sensors, select_devices, smartctl_dynamic_id, smartctl_probe_line,
    source_for_device, sys_block_path, DeviceFacts, DiscoveryCache, DiskReading, FileFact,
    FoundDevice, PatternPlan, SmartctlWait,
};
use vfio_sensor_bridge::agent::glob::wildcard_match;
use vfio_sensor_bridge::agent::smartctl::{
    first_i64, output_to_string, parse_smartctl_identity,
    parse_smartctl_temperature_millicelsius, render_smartctl_label, SmartctlIdentity,
};

const SECOND: u64 = 1_000_000_000;

#[test]
fn parses_ata_temperature_attribute_raw_value() {
    let output = r#"
194 Temperature_Celsius                                              0x0002   107   107   000    Old_age   Always       -       56 (Min/Max 15/69)
231 Temperature_Celsius                                              0x0032   100   100   000    Old_age   Always       -       0
"#;

    assert_eq!(parse_smartctl_temperature_millicelsius(output), Some(56_000));
}

#[test]
fn parses_smartctl_identity_of_a_disk() {
    let output = "Model Family:     HGST Ultrastar\r\nVendor: HGST\nProduct: H7280\nRevision: A3\n\
                  Logical Unit id: 0x5000\nTotal NVM Capacity: 1 TB\nSector Size: 512 bytes\n\
                  Form Factor:  \nno colon here\nSMART support is: Disabled\n";
    let identity = parse_smartctl_identity(output);

    assert_eq!(identity.model_family.as_deref(), Some("HGST Ultrastar"));
    assert_eq!(identity.model.as_deref(), Some("HGST H7280"));
    assert_eq!(identity.firmware.as_deref(), Some("A3"));
    assert_eq!(identity.wwn.as_deref(), Some("0x5000"));
    assert_eq!(identity.capacity.as_deref(), Some("1 TB"));
    assert_eq!(identity.sector_sizes.as_deref(), Some("512 bytes"));
    assert_eq!(identity.form_factor, None);
    assert_eq!(identity.smart_available, None);
    assert_eq!(identity.smart_enabled.as_deref(), Some("Disabled"));

    let vendor = parse_smartctl_identity("Vendor: HGST");
    assert_eq!(vendor.model.as_deref(), Some("HGST"));
    let product = parse_smartctl_identity("Product: H7280");
    assert_eq!(product.model.as_deref(), Some("H7280"));
    assert_eq!(parse_smartctl_identity("").model, None);
}

#[test]
fn parses_smartctl_identity() {
    let output = r#"
Device Model:     HUS726060ALE611
Serial Number:    NCG8ARHS
LU WWN Device Id: 5 000cca 24dc3cb3b
Firmware Version: APGL0001
User Capacity:    6,001,175,126,016 bytes [6.00 TB]
Sector Sizes:     512 bytes logical, 4096 bytes physical
Rotation Rate:    7200 rpm
Form Factor:      3.5 inches
Device is:        Not in smartctl database [for details use: -P showall]
ATA Version is:   ACS-2, ATA8-ACS T13/1699-D revision 4
SATA Version is:  SATA 3.1, 6.0 Gb/s (current: 6.0 Gb/s)
SMART support is: Available - device has SMART capability.
SMART support is: Enabled
"#;
    let identity = parse_smartctl_identity(output);

    assert_eq!(identity.model.as_deref(), Some("HUS726060ALE611"));
    assert_eq!(identity.serial.as_deref(), Some("NCG8ARHS"));
    assert_eq!(identity.wwn.as_deref(), Some("5 000cca 24dc3cb3b"));
    assert_eq!(identity.firmware.as_deref(), Some("APGL0001"));
    assert_eq!(identity.rotation_rate.as_deref(), Some("7200 rpm"));
    assert_eq!(
        identity.sata_version.as_deref(),
        Some("SATA 3.1, 6.0 Gb/s (current: 6.0 Gb/s)")
    );
    assert_eq!(identity.smart_enabled.as_deref(), Some("Enabled"));
}

#[test]
fn renders_identity_placeholders() {
    let identity = SmartctlIdentity {
        model: Some("HUS726060ALE611".to_string()),
        serial: Some("NCG8ARHS".to_string()),
        firmware: Some("APGL0001".to_string()),
        ..SmartctlIdentity::default()
    };

    assert_eq!(
        render_smartctl_label("{device} {model} {serial} fw {firmware}", "/dev/sata4", &identity),
        "sata4 HUS726060ALE611 NCG8ARHS fw APGL0001"
    );
    assert_eq!(render_smartctl_label("{path} {vendor}", "/dev/sata4", &identity), "/dev/sata4");
    assert_eq!(render_smartctl_label("{vendor}", "/dev/sata4", &identity), "disk temperature");
    assert_eq!(render_smartctl_label("{device}", "/", &identity), "disk");
}

#[test]
fn parses_scsi_current_drive_temperature() {
    assert_eq!(
        parse_smartctl_temperature_millicelsius("Current Drive Temperature:     36 C"),
        Some(36_000)
    );
}

#[test]
fn parses_nvme_temperature() {
    assert_eq!(
        parse_smartctl_temperature_millicelsius("Temperature:                        34 Celsius"),
        Some(34_000)
    );
}

#[test]
fn implausible_temperatures_are_passed_over() {
    let output = "Temperature: 201 Celsius\n\
                  190 Airflow_Temperature_Cel 0x0022 070 055 045 Old_age Always - 30\n";
    assert_eq!(parse_smartctl_temperature_millicelsius(output), Some(30_000));
    assert_eq!(parse_smartctl_temperature_millicelsius("Temperature: -60 Celsius"), Some(-60_000));
    assert_eq!(parse_smartctl_temperature_millicelsius("Temperature: -61 Celsius"), None);
    assert_eq!(parse_smartctl_temperature_millicelsius("Temperature: 40"), None);
    assert_eq!(parse_smartctl_temperature_millicelsius(""), None);
}

#[test]
fn the_best_attribute_wins() {
    let other = "9 Some_Temperature 0x0022 070 055 045 Old_age Always - 41";
    let airflow = "190 Airflow_Temperature_Cel 0x0022 070 055 045 Old_age Always - 42";
    let celsius = "194 Temperature_Celsius 0x0022 070 055 045 Old_age Always - 43";
    let both = format!("{other}\n{airflow}");
    assert_eq!(parse_smartctl_temperature_millicelsius(&both), Some(42_000));
    let all = format!("{other}\n{celsius}\n{airflow}");
    assert_eq!(parse_smartctl_temperature_millicelsius(&all), Some(43_000));
    assert_eq!(parse_smartctl_temperature_millicelsius(other), Some(41_000));
}

#[test]
fn first_numbers_are_found() {
    assert_eq!(first_i64(" a-12b 7"), Some(-12));
    assert_eq!(first_i64("- 5"), Some(5));
    assert_eq!(first_i64("1-2 3"), Some(3));
    assert_eq!(first_i64("none"), None);
}

#[test]
fn output_and_errors_are_one_text() {
    assert_eq!(output_to_string(b"out".to_vec(), b"").as_deref(), Some("out"));
    assert_eq!(output_to_string(b"out".to_vec(), b"err").as_deref(), Some("out\nerr"));
    assert_eq!(output_to_string("34 °C".as_bytes().to_vec(), b"").as_deref(), Some("34 °C"));
    assert_eq!(output_to_string(vec![0xff], b""), None);
    assert_eq!(output_to_string(b"ok".to_vec(), &[0xc3]), None);
}

#[test]
fn matches_device_globs() {
    assert!(wildcard_match("sata*", "sata4"));
    assert!(wildcard_match("sd?", "sda"));
    assert!(!wildcard_match("sd?", "sdaa"));
}

#[test]
fn globs_retry_behind_a_star() {
    assert!(wildcard_match("*ab", "aab"));
    assert!(wildcard_match("a*b*c", "axxbyyc"));
    assert!(wildcard_match("**", ""));
    assert!(!wildcard_match("", "a"));
    assert!(!wildcard_match("a*b", "axc"));
    assert!(wildcard_match("*", "*"));
    assert!(!wildcard_match("a", "*"));
    // A star of the text may take the star of the pattern for itself.
    assert!(!wildcard_match("*a", "*ba"));
    assert!(!wildcard_match("*", "*a"));
    assert!(wildcard_match("**", "*a"));
}

#[test]
fn detects_common_partition_names() {
    assert!(looks_like_partition_name("sda1"));
    assert!(looks_like_partition_name("sata4p1"));
    assert!(looks_like_partition_name("nvme0n1p1"));
    assert!(!looks_like_partition_name("sata4"));
    assert!(!looks_like_partition_name("sda"));
    assert!(!looks_like_partition_name("sdaa1"));
    assert!(looks_like_partition_name("xvdb12"));
    assert!(!looks_like_partition_name("1234"));
}

#[test]
fn only_disks_are_candidates() {
    let facts = |is_partition, is_block, file| DeviceFacts { is_partition, is_block, file };
    assert!(!is_candidate_device("/dev/sda", facts(true, true, FileFact::Device)));
    assert!(is_candidate_device("/dev/sda1", facts(false, true, FileFact::Missing)));
    assert!(!is_candidate_device("/dev/sda1", facts(false, false, FileFact::Device)));
    assert!(is_candidate_device("/dev/sata4", facts(false, false, FileFact::Device)));
    assert!(!is_candidate_device("/dev/sata4", facts(false, false, FileFact::Missing)));
    assert!(!is_candidate_device("/dev/sata4", facts(false, false, FileFact::Other)));
    assert!(is_candidate_device("/dev/sata4", facts(false, false, FileFact::Unreadable)));
    assert!(!is_candidate_device("/", facts(false, true, FileFact::Device)));
    assert_eq!(sys_block_path("sda"), "/sys/class/block/sda");
}

#[test]
fn patterns_name_a_file_or_a_directory() {
    assert!(matches!(plan_pattern("/dev/sda"), PatternPlan::Single(path) if path == "/dev/sda"));
    match plan_pattern("/dev/sd*") {
        PatternPlan::Directory { parent, name_pattern } => {
            assert_eq!(parent, "/dev");
            assert_eq!(name_pattern, "sd*");
        }
        _ => panic!("a directory was expected"),
    }
    assert!(matches!(plan_pattern("/dev/s?/.."), PatternPlan::Nothing));
    let entries =
        vec!["sdb".to_string(), "sda".to_string(), "tty1".to_string(), "sda1".to_string()];
    assert_eq!(fitting_entries("/dev", "sd?", &entries), vec!["/dev/sdb", "/dev/sda"]);
    assert!(same_path("/dev//sda", "/dev/sda"));
    assert!(!same_path("/dev/sda", "/dev/sdb"));
}

#[test]
fn devices_are_sorted_and_listed_once() {
    let disk = DeviceFacts { is_partition: false, is_block: true, file: FileFact::Device };
    let part = DeviceFacts { is_partition: true, is_block: true, file: FileFact::Device };
    let found = |path: &str, facts| FoundDevice { path: path.to_string(), facts };
    let list = vec![
        found("/dev/sdb", disk),
        found("/dev/sda", disk),
        found("/dev/sda1", part),
        found("/dev/sdb", disk),
    ];
    assert_eq!(select_devices(&list), vec!["/dev/sda", "/dev/sdb"]);
}

#[test]
fn readings_are_kept_for_the_poll_interval() {
    let mut config = SmartctlSection::default();
    config.poll_seconds = 30;
    config.timeout_seconds = 10;
    let mut source = source_for_device(&config, "/dev/sda".to_string());
    assert_eq!(source.cached(0), None);
    source.remember(41_000, 5 * SECOND);
    assert_eq!(source.cached(35 * SECOND - 1), Some(41_000));
    assert_eq!(source.cached(35 * SECOND), None);
    assert_eq!(source.copy().cached(6 * SECOND), Some(41_000));
    assert_eq!(source.cache_key(), "/usr/sbin/smartctl\0/dev/sda");

    assert_eq!(source.wait_step(true, 0, 100 * SECOND), SmartctlWait::Done);
    assert_eq!(source.wait_step(false, 0, 10 * SECOND), SmartctlWait::TimedOut);
    assert_eq!(source.wait_step(false, 0, 10 * SECOND - 1), SmartctlWait::Sleep);

    config.timeout_seconds = 0;
    config.poll_seconds = 0;
    let source = source_for_device(&config, "/dev/sda".to_string());
    assert_eq!((source.timeout_seconds, source.poll_seconds), (1, 1));
}

#[test]
fn discoveries_are_kept_for_the_poll_interval() {
    let mut cache = DiscoveryCache::new();
    assert_eq!(cache.temperature("k", 30, 0), None);
    cache.remember_temperature("k".to_string(), None, 0);
    assert_eq!(cache.temperature("k", 30, 29 * SECOND), Some(None));
    assert_eq!(cache.temperature("k", 30, 30 * SECOND), None);
    cache.remember_temperature("k".to_string(), Some(40_000), 40 * SECOND);
    assert_eq!(cache.temperature("k", 30, 41 * SECOND), Some(Some(40_000)));

    assert!(cache.identity("k", 30, 0).is_none());
    cache.remember_identity("k".to_string(), None, 0);
    assert_eq!(cache.identity("k", 30, 0).unwrap().model, None);
    let mut identity = SmartctlIdentity::default();
    identity.model = Some("M".to_string());
    cache.remember_identity("k".to_string(), Some(identity), SECOND);
    assert_eq!(cache.identity("k", 30, 2 * SECOND).unwrap().model.as_deref(), Some("M"));
    assert!(cache.identity("k", 30, 31 * SECOND).is_none());
}

#[test]
fn disks_become_sensors() {
    let mut config = SmartctlSection::default();
    let reading = |device: &str, value| DiskReading {
        device: device.to_string(),
        value,
        identity: SmartctlIdentity::default(),
        read_at: 7 * SECOND,
    };
    let readings = vec![reading("/dev/sdb", 40_000), reading("/dev/sda", 41_000)];
    assert!(scan_smartctl_sensors(&config, &readings).is_empty());

    config.enabled = true;
    let sensors = scan_smartctl_sensors(&config, &readings);
    assert_eq!(sensors.len(), 2);
    assert_eq!(sensors[0].descriptor.id, "smartctl:/dev/sda");
    assert_eq!(sensors[0].descriptor.label, "sda temperature");
    assert_eq!(sensors[0].source.cached(8 * SECOND), Some(41_000));
    assert_eq!(sensors[1].descriptor.id, smartctl_dynamic_id("/dev/sdb"));
    assert_eq!(smartctl_probe_line("/dev/sda", "sda", 41_000), "/dev/sda sda: 41000");
}
