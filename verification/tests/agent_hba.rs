use vfio_sensor_bridge::agent::config::LsiHbaSection;
use vfio_sensor_bridge::agent::hba::{
    ensure_mpt2_config_success, firmware_version, get_chip_name_rev, hba_ioc_label,
    hba_probe_line, hba_temperature_to_millicelsius, identify, ioc, mpt2command_ioctl,
    normalize_lsi_device_id, page_header_request, page_read_request, render_hba_label,
    status_message, ConfigPageHeader, ConfigReply, HbaIocIdentity, MPI2_FUNCTION_CONFIG,
};
use vfio_sensor_bridge::agent::sensors::{controller_slots, hba_dynamic_id};

const MPI_MANUFACTPAGE_DEVID_53C1030ZC: u16 = 0x0031;
const MPI2_MFGPAGE_DEVID_SAS2308_1: u16 = 0x0086;
const MPI2_MFGPAGE_DEVID_SAS2308_2: u16 = 0x0087;

#[test]
fn converts_hba_celsius_to_hwmon_units() {
    assert_eq!(hba_temperature_to_millicelsius(55, 0x02), Some(55_000));
}

#[test]
fn converts_hba_fahrenheit_to_hwmon_units() {
    assert_eq!(hba_temperature_to_millicelsius(131, 0x01), Some(55_000));
}

#[test]
fn rejects_missing_hba_temperature() {
    assert_eq!(hba_temperature_to_millicelsius(55, 0x00), None);
}

#[test]
fn fahrenheit_below_freezing_rounds_toward_zero() {
    assert_eq!(hba_temperature_to_millicelsius(31, 0x01), Some(0));
    assert_eq!(hba_temperature_to_millicelsius(0, 0x01), Some(-17_000));
    assert_eq!(hba_temperature_to_millicelsius(0xffff, 0x02), Some(65_535_000));
}

#[test]
fn mpt2command_ioctl_matches_linux_iowr_layout() {
    assert_eq!(mpt2command_ioctl(), 0xc048_4c14);
}

#[test]
fn ioctl_numbers_pack_their_fields() {
    assert_eq!(ioc(0, 0x56, 1, 0), 0x5601);
    assert_eq!(ioc(1, 0x56, 3, 4), 0x4004_5603);
}

#[test]
fn names_sas2308_d1_like_hba_client() {
    assert_eq!(get_chip_name_rev(MPI2_MFGPAGE_DEVID_SAS2308_2, 0x05), "SAS2308 D1");
    assert_eq!(get_chip_name_rev(MPI2_MFGPAGE_DEVID_SAS2308_1, 0x05), "SAS2308 D1");
}

#[test]
fn fills_unknown_revision_like_hba_client() {
    assert_eq!(get_chip_name_rev(MPI2_MFGPAGE_DEVID_SAS2308_2, 0x06), "SAS2308 06");
}

#[test]
fn fills_unknown_device_like_hba_client() {
    assert_eq!(get_chip_name_rev(0x1234, 0x56), "1234 56");
}

#[test]
fn names_every_family() {
    let names = [
        (0x0070, 0x00, "SAS2004 A0"),
        (0x0070, 0x03, "SAS2004 B2"),
        (0x0072, 0x01, "SAS2008 B0"),
        (0x0074, 0xff, "SAS2 FPGA A0"),
        (0x0076, 0x02, "SAS2108 B1"),
        (0x0077, 0x05, "SAS2108 B4"),
        (0x0064, 0x02, "SAS2116 B1"),
        (0x0065, 0x0a, "SAS2116 0a"),
        (0x0080, 0x02, "SAS2208 C0"),
        (0x0085, 0x04, "SAS2208 D0"),
        (0x006e, 0x03, "SAS2308 C1"),
        (0x0096, 0x00, "SA3004 A0"),
        (0x0096, 0x01, "SAS3004 B0"),
        (0x0097, 0x00, "SA3008 A0"),
        (0x0097, 0x02, "SAS3008 C0"),
        (0x0090, 0x00, "SAS3108 A0"),
        (0x0095, 0x7f, "SAS3108 7f"),
        (0x007e, 0x02, "SSS6200 C0"),
        (0x0000, 0x00, "0000 00"),
    ];
    for (device, revision, name) in names {
        assert_eq!(get_chip_name_rev(device, revision), name);
    }
}

#[test]
fn normalizes_zc_device_ids_like_hba_client() {
    assert_eq!(normalize_lsi_device_id(MPI_MANUFACTPAGE_DEVID_53C1030ZC), 0x0030);
    assert_eq!(normalize_lsi_device_id(0x0033), 0x0032);
    assert_eq!(normalize_lsi_device_id(0x0041), 0x0040);
    assert_eq!(normalize_lsi_device_id(0x0087), 0x0087);
}

#[test]
fn renders_hba_label_template_placeholders() {
    let identity = HbaIocIdentity {
        portname: "ioc0".to_string(),
        chip: "LSI Logic SAS2308 D1".to_string(),
        version: "14000700".to_string(),
    };

    assert_eq!(
        render_hba_label("{portname} {chip} fw {version}", &identity),
        "ioc0 LSI Logic SAS2308 D1 fw 14000700"
    );
    assert_eq!(render_hba_label("  \u{1}  ", &identity), "HBA Controller");
}

#[test]
fn formats_firmware_version_like_lsiutil() {
    assert_eq!(firmware_version(0x1400_0700_u32), "14000700");
    assert_eq!(firmware_version(0xa), "0000000a");
}

#[test]
fn controllers_are_identified() {
    let identity = identify(2, 0x1000, 0x0087, 0x05, Some(0x1400_0700)).unwrap();
    assert_eq!(identity.portname, "ioc2");
    assert_eq!(identity.chip, "LSI Logic SAS2308 D1");
    assert_eq!(identity.version, "14000700");

    let silent = identify(0, 0x1000, 0x0031, 0x00, None).unwrap();
    assert_eq!(silent.chip, "LSI Logic 0030 00");
    assert_eq!(silent.version, "unknown");

    assert!(identify(0, 0x8086, 0x0087, 0x05, None).is_none());
}

#[test]
fn unidentified_controllers_have_a_label() {
    let mut config = LsiHbaSection::default();
    assert_eq!(hba_ioc_label(&config, &None, 3), "HBA IOC 3 Controller");
    config.label_template = "{portname}/{version}".to_string();
    assert_eq!(hba_ioc_label(&config, &None, 3), "ioc3/unknown");
}

#[test]
fn pages_are_read_with_what_their_header_says() {
    let request = page_header_request(0x01, 7, 9);
    assert_eq!(request.action, 0x00);
    assert_eq!(request.function, MPI2_FUNCTION_CONFIG);
    assert_eq!(
        request.header,
        ConfigPageHeader { page_version: 0, page_length: 0, page_number: 7, page_type: 0x01 }
    );
    assert_eq!(request.page_address, 9);

    let header = ConfigPageHeader { page_version: 2, page_length: 6, page_number: 7, page_type: 1 };
    let reply = ConfigReply { ext_page_length: 11, ext_page_type: 12, ioc_status: 0, header };
    let request = page_read_request(&reply, 9);
    assert_eq!(request.action, 0x01);
    assert_eq!(request.function, MPI2_FUNCTION_CONFIG);
    assert_eq!(request.header, header);
    assert_eq!(request.ext_page_length, 11);
    assert_eq!(request.ext_page_type, 12);
    assert_eq!(request.page_address, 9);
}

#[test]
fn status_ignores_the_log_flag() {
    assert_eq!(ensure_mpt2_config_success(0x0000), Ok(()));
    assert_eq!(ensure_mpt2_config_success(0x8000), Ok(()));
    assert_eq!(ensure_mpt2_config_success(0x8022), Err(0x0022));
    assert_eq!(status_message(0x0022), "MPT config IOCStatus 0x0022");
}

#[test]
fn every_slot_of_every_device_is_tried() {
    let mut config = LsiHbaSection::default();
    config.max_ioc = 2;
    assert_eq!(
        controller_slots(&config),
        vec![
            ("/dev/mpt2ctl".to_string(), 0),
            ("/dev/mpt2ctl".to_string(), 1),
            ("/dev/mpt3ctl".to_string(), 0),
            ("/dev/mpt3ctl".to_string(), 1),
        ]
    );
    assert_eq!(hba_dynamic_id("/dev/mpt2ctl", 1), "hba:mpt2ctl:ioc1");
    assert_eq!(hba_dynamic_id("/", 1), "hba:mptctl:ioc1");
    assert_eq!(
        hba_probe_line("/dev/mpt2ctl", 1, "SAS", 51_000),
        "/dev/mpt2ctl ioc1 SAS: 51000"
    );
}
