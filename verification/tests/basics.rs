use vfio_sensor_bridge::encoding::char_width;
use vfio_sensor_bridge::host::config::VirtioConfig;
use vfio_sensor_bridge::host::daemon::parse_vmid_from_socket;
use vfio_sensor_bridge::number::{
    format_hex, format_i64, format_u64, parse_i64, parse_reading, parse_u32, parse_u64,
    parse_usize,
};
use vfio_sensor_bridge::path::{file_name, join_path, parent};
use vfio_sensor_bridge::text::{
    alphanumeric, concat3, contains, control, digit, ends_with, join, less, lower, replace,
    same, split_lines, split_once, split_words, starts_with, strip_prefix, strip_suffix, trim,
    white,
};
use vfio_sensor_bridge::time::{elapsed_nanos, passed};

const TEXTS: [&str; 12] = [
    "",
    " ",
    "a",
    "  two  words\t",
    "line\r\nline\n\nend\r",
    "\u{a0}nbsp\u{3000}",
    "ünïcödé °C",
    "a=b=c",
    "temp1_input",
    "\u{85}next\u{2028}line",
    "\n",
    "--x--",
];

#[test]
fn texts_are_treated_as_std_treats_them() {
    for text in TEXTS {
        assert_eq!(trim(text), text.trim());
        assert_eq!(split_words(text), text.split_whitespace().collect::<Vec<_>>());
        assert_eq!(split_lines(text), text.lines().collect::<Vec<_>>());
        for other in ["a", "-", "=", "_input", "line", "°C", " "] {
            assert_eq!(contains(text, other), text.contains(other));
            assert_eq!(starts_with(text, other), text.starts_with(other));
            assert_eq!(ends_with(text, other), text.ends_with(other));
            assert_eq!(replace(text, other, "<>"), text.replace(other, "<>"));
            assert_eq!(strip_prefix(text, other).as_deref(), text.strip_prefix(other));
            assert_eq!(strip_suffix(text, other).as_deref(), text.strip_suffix(other));
            let pair = split_once(text, other);
            let pair = pair.as_ref().map(|(a, b)| (a.as_str(), b.as_str()));
            assert_eq!(pair, text.split_once(other));
        }
        for other in TEXTS {
            assert_eq!(same(text, other), text == other);
            assert_eq!(less(text, other), text < other);
            assert_eq!(concat3(text, "+", other), format!("{text}+{other}"));
        }
    }
    let parts: Vec<String> = vec!["a".to_string(), String::new(), "b".to_string()];
    assert_eq!(join(&parts, ", "), "a, , b");
    assert_eq!(join(&[], ", "), "");
}

#[test]
fn overlapping_patterns_are_replaced_from_the_left() {
    assert_eq!(replace("aaaa", "aa", "b"), "bb");
    assert_eq!(replace("aaa", "aa", "aa"), "aaa");
    assert_eq!(replace("{{x}}", "{x}", "y"), "{y}");
}

#[test]
fn characters_are_classed_as_std_classes_them() {
    for code in 0..0x11_0000_u32 {
        if let Some(c) = char::from_u32(code) {
            assert_eq!(white(c), c.is_whitespace());
            assert_eq!(control(c), c.is_control());
            assert_eq!(digit(c), c.is_ascii_digit());
            assert_eq!(alphanumeric(c), c.is_ascii_alphanumeric());
            assert_eq!(lower(c), c.to_ascii_lowercase());
            assert_eq!(char_width(c), c.len_utf8());
        }
    }
}

#[test]
fn numbers_are_printed_and_read_as_std_does() {
    let texts = [
        "0", "7", "+7", "-7", "007", "-0", "+", "-", "", " 7", "7 ", "1_000", "0x10", "٣",
        "255", "4294967295", "4294967296", "9223372036854775807", "9223372036854775808",
        "-9223372036854775808", "-9223372036854775809", "18446744073709551615",
        "18446744073709551616", "99999999999999999999999999", "+-1", "--1",
    ];
    for text in texts {
        assert_eq!(parse_u64(text), text.parse::<u64>().ok());
        assert_eq!(parse_u32(text), text.parse::<u32>().ok());
        assert_eq!(parse_usize(text), text.parse::<usize>().ok());
        assert_eq!(parse_i64(text), text.parse::<i64>().ok());
    }
    for n in [0, 9, 10, 99, 100, u64::MAX] {
        assert_eq!(format_u64(n), n.to_string());
        assert_eq!(parse_u64(&format_u64(n)), Some(n));
    }
    for n in [0, -1, 1, i64::MIN, i64::MAX] {
        assert_eq!(format_i64(n), n.to_string());
        assert_eq!(parse_i64(&format_i64(n)), Some(n));
    }
    assert_eq!(format_hex(0x0a7f, 4), ['0', 'a', '7', 'f']);
    assert_eq!(parse_reading(" 42000\n"), Some(42_000));
    assert_eq!(parse_reading("-5"), Some(-5));
    assert_eq!(parse_reading("4 2"), None);
}

#[test]
fn paths_are_treated_as_std_treats_them() {
    let paths = [
        "", "/", "a", "a/", "/a", "/a/", "/a/b", "a//b", "/a/b/.", "/a/b/..", ".", "..", "./a",
        "/a/./b", "/dev/sd*", "//a",
    ];
    for path in paths {
        let std_path = std::path::Path::new(path);
        let std_name = std_path.file_name().and_then(|name| name.to_str());
        assert_eq!(file_name(path).as_deref(), std_name, "{path}");
        let std_parent = std_path.parent().and_then(|parent| parent.to_str());
        assert_eq!(parent(path).as_deref(), std_parent, "{path}");
        for tail in ["x", "x/y", "/x"] {
            assert_eq!(join_path(path, tail), std_path.join(tail).to_str().unwrap());
        }
    }
}

#[test]
fn time_never_runs_backwards() {
    assert_eq!(elapsed_nanos(7, 3), 4);
    assert_eq!(elapsed_nanos(3, 7), 0);
    assert!(passed(5_000_000_000, 0, 5));
    assert!(!passed(4_999_999_999, 0, 5));
    assert!(!passed(u64::MAX, 0, u64::MAX));
    assert!(passed(0, 9, 0));
}

#[test]
fn the_socket_of_a_channel_is_found() {
    let template = VirtioConfig::default().socket_template;
    for vmid in [0, 7, 100, u32::MAX] {
        let path = format!("/run/vfio-sensor-bridge/vm-{vmid}.sock");
        assert_eq!(parse_vmid_from_socket(&path, &template), Some(vmid));
    }
}
