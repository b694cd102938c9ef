//! Host bus adapters: what to ask of a controller, and what its answers mean.

use crate::agent::config::LsiHbaSection;
use crate::agent::label::{normalize_label, normalized_label};
use crate::number::{decimal, format_hex, format_i64, format_u64, hex_digits, signed_decimal};
use crate::protocol::{valid_text, MAX_SENSOR_LABEL_BYTES};
use crate::text::laws::law_replaced;
use crate::text::{
    concat, concat3, contains_text, has_suffix, replace, replaced, same, stands_at, string_of,
    strip_suffix,
};
use vstd::prelude::*;

verus! {

// ── Temperatures ─────────────────────────────────────────────────────────────

/// Degrees Fahrenheit as degrees Celsius, cut towards zero.
pub open spec fn celsius(fahrenheit: int) -> int {
    if fahrenheit >= 32 {
        (fahrenheit - 32) * 5 / 9
    } else {
        -((32 - fahrenheit) * 5 / 9)
    }
}

/// A temperature in thousandths of a degree Celsius: unit 1 is Fahrenheit,
/// unit 2 is Celsius, and any other unit means that there is none.
pub open spec fn millicelsius(value: u16, units: u8) -> Option<int> {
    if units == 1 {
        Some(celsius(value as int) * 1000)
    } else if units == 2 {
        Some(value * 1000)
    } else {
        None
    }
}

/// The temperature that a controller reports, in thousandths of a degree.
pub fn hba_temperature_to_millicelsius(value: u16, units: u8) -> (temperature: Option<i64>)
    ensures
        match temperature {
            Some(t) => millicelsius(value, units) == Some(t as int),
            None => millicelsius(value, units) is None,
        },
{
    match units {
        0x01 => {
            let degrees: i64 = if value >= 32 {
                (value as i64 - 32) * 5 / 9
            } else {
                -((32 - value as i64) * 5 / 9)
            };
            Some(degrees * 1000)
        },
        0x02 => Some(value as i64 * 1000),
        _ => None,
    }
}

// ── Chips ────────────────────────────────────────────────────────────────────

/// The vendor whose controllers are named.
pub const MPI2_MFGPAGE_VENDORID_LSI: u16 = 0x1000;

/// The number of a chip without the bit that marks some variants.
pub open spec fn plain_device_id(device_id: u16) -> u16 {
    if device_id == 0x0031 {
        0x0030
    } else if device_id == 0x0033 {
        0x0032
    } else if device_id == 0x0041 {
        0x0040
    } else {
        device_id
    }
}

/// The number of a chip without the bit that marks some variants.
pub fn normalize_lsi_device_id(device_id_raw: u16) -> (device_id: u16)
    ensures
        device_id == plain_device_id(device_id_raw),
{
    match device_id_raw {
        0x0031 => 0x0030,
        0x0033 => 0x0032,
        0x0041 => 0x0040,
        _ => device_id_raw,
    }
}

/// How a chip is called. Where the text ends with `xx`, the revision takes its
/// place; of an unknown chip both numbers are shown.
pub open spec fn chip_template(device_id: u16, revision: u8) -> Seq<char> {
    if device_id == 0x0070 {
        match revision {
            0x00 => "SAS2004 A0"@,
            0x01 => "SAS2004 B0"@,
            0x02 => "SAS2004 B1"@,
            0x03 => "SAS2004 B2"@,
            _ => "SAS2004 xx"@,
        }
    } else if device_id == 0x0072 {
        match revision {
            0x00 => "SAS2008 A0"@,
            0x01 => "SAS2008 B0"@,
            0x02 => "SAS2008 B1"@,
            0x03 => "SAS2008 B2"@,
            _ => "SAS2008 xx"@,
        }
    } else if device_id == 0x0074 || device_id == 0x0076 || device_id == 0x0077 {
        match revision {
            0x00 => "SAS2108 A0"@,
            0xff => "SAS2 FPGA A0"@,
            0x01 => "SAS2108 B1"@,
            0x02 => "SAS2108 B1"@,
            0x03 => "SAS2108 B2"@,
            0x04 => "SAS2108 B3"@,
            0x05 => "SAS2108 B4"@,
            _ => "SAS2108 xx"@,
        }
    } else if device_id == 0x0064 || device_id == 0x0065 {
        match revision {
            0x00 => "SAS2116 A0"@,
            0x01 => "SAS2116 B0"@,
            0x02 => "SAS2116 B1"@,
            _ => "SAS2116 xx"@,
        }
    } else if 0x0080 <= device_id <= 0x0085 {
        match revision {
            0x00 => "SAS2208 A0"@,
            0x01 => "SAS2208 B0"@,
            0x02 => "SAS2208 C0"@,
            0x03 => "SAS2208 C1"@,
            0x04 => "SAS2208 D0"@,
            0x05 => "SAS2208 D1"@,
            _ => "SAS2208 xx"@,
        }
    } else if device_id == 0x0086 || device_id == 0x0087 || device_id == 0x006e {
        match revision {
            0x00 => "SAS2308 A0"@,
            0x01 => "SAS2308 B0"@,
            0x02 => "SAS2308 C0"@,
            0x03 => "SAS2308 C1"@,
            0x04 => "SAS2308 D0"@,
            0x05 => "SAS2308 D1"@,
            _ => "SAS2308 xx"@,
        }
    } else if device_id == 0x0096 {
        match revision {
            0x00 => "SA3004 A0"@,
            0x01 => "SAS3004 B0"@,
            0x02 => "SAS3004 C0"@,
            _ => "SAS3004 xx"@,
        }
    } else if device_id == 0x0097 {
        match revision {
            0x00 => "SA3008 A0"@,
            0x01 => "SAS3008 B0"@,
            0x02 => "SAS3008 C0"@,
            _ => "SAS3008 xx"@,
        }
    } else if device_id == 0x0090 || device_id == 0x0091 || device_id == 0x0094 || device_id
        == 0x0095 {
        match revision {
            0x00 => "SAS3108 A0"@,
            0x01 => "SAS3108 B0"@,
            0x02 => "SAS3108 C0"@,
            _ => "SAS3108 xx"@,
        }
    } else if device_id == 0x007e {
        match revision {
            0x00 => "SSS6200 A0"@,
            0x01 => "SSS6200 B0"@,
            0x02 => "SSS6200 C0"@,
            _ => "SSS6200 xx"@,
        }
    } else {
        "xxxx xx"@
    }
}

/// The name of a chip made from its template.
pub open spec fn filled_template(template: Seq<char>, device_id: u16, revision: u8) -> Seq<char> {
    if template == "xxxx xx"@ {
        hex_digits(device_id as nat, 4) + " "@ + hex_digits(revision as nat, 2)
    } else if has_suffix(template, "xx"@) {
        template.take(template.len() - 2) + hex_digits(revision as nat, 2)
    } else {
        template
    }
}

/// The name of a chip of a given revision.
pub open spec fn chip_name(device_id: u16, revision: u8) -> Seq<char> {
    filled_template(chip_template(device_id, revision), device_id, revision)
}

fn find_chip_template(device_id: u16, revision: u8) -> (template: &'static str)
    ensures
        template@ == chip_template(device_id, revision),
{
    match device_id {
        0x0070 => match revision {
            0x00 => "SAS2004 A0",
            0x01 => "SAS2004 B0",
            0x02 => "SAS2004 B1",
            0x03 => "SAS2004 B2",
            _ => "SAS2004 xx",
        },
        0x0072 => match revision {
            0x00 => "SAS2008 A0",
            0x01 => "SAS2008 B0",
            0x02 => "SAS2008 B1",
            0x03 => "SAS2008 B2",
            _ => "SAS2008 xx",
        },
        0x0074 | 0x0076 | 0x0077 => match revision {
            0x00 => "SAS2108 A0",
            0xff => "SAS2 FPGA A0",
            0x01 | 0x02 => "SAS2108 B1",
            0x03 => "SAS2108 B2",
            0x04 => "SAS2108 B3",
            0x05 => "SAS2108 B4",
            _ => "SAS2108 xx",
        },
        0x0064 | 0x0065 => match revision {
            0x00 => "SAS2116 A0",
            0x01 => "SAS2116 B0",
            0x02 => "SAS2116 B1",
            _ => "SAS2116 xx",
        },
        0x0080 | 0x0081 | 0x0082 | 0x0083 | 0x0084 | 0x0085 => match revision {
            0x00 => "SAS2208 A0",
            0x01 => "SAS2208 B0",
            0x02 => "SAS2208 C0",
            0x03 => "SAS2208 C1",
            0x04 => "SAS2208 D0",
            0x05 => "SAS2208 D1",
            _ => "SAS2208 xx",
        },
        0x0086 | 0x0087 | 0x006e => match revision {
            0x00 => "SAS2308 A0",
            0x01 => "SAS2308 B0",
            0x02 => "SAS2308 C0",
            0x03 => "SAS2308 C1",
            0x04 => "SAS2308 D0",
            0x05 => "SAS2308 D1",
            _ => "SAS2308 xx",
        },
        0x0096 => match revision {
            0x00 => "SA3004 A0",
            0x01 => "SAS3004 B0",
            0x02 => "SAS3004 C0",
            _ => "SAS3004 xx",
        },
        0x0097 => match revision {
            0x00 => "SA3008 A0",
            0x01 => "SAS3008 B0",
            0x02 => "SAS3008 C0",
            _ => "SAS3008 xx",
        },
        0x0090 | 0x0091 | 0x0094 | 0x0095 => match revision {
            0x00 => "SAS3108 A0",
            0x01 => "SAS3108 B0",
            0x02 => "SAS3108 C0",
            _ => "SAS3108 xx",
        },
        0x007e => match revision {
            0x00 => "SSS6200 A0",
            0x01 => "SSS6200 B0",
            0x02 => "SSS6200 C0",
            _ => "SSS6200 xx",
        },
        _ => "xxxx xx",
    }
}

fn fill_unknown_revision(template: &str, device_id: u16, revision: u8) -> (name: String)
    ensures
        name@ == filled_template(template@, device_id, revision),
{
    let shown = string_of(&format_hex(revision as u64, 2));
    if same(template, "xxxx xx") {
        return concat3(&string_of(&format_hex(device_id as u64, 4)), " ", &shown);
    }
    proof {
        reveal_strlit("xx");
    }
    match strip_suffix(template, "xx") {
        Some(prefix) => concat(&prefix, &shown),
        None => template.to_string(),
    }
}

/// The name of a chip of a given revision.
pub fn get_chip_name_rev(device_id: u16, revision: u8) -> (name: String)
    ensures
        name@ == chip_name(device_id, revision),
{
    fill_unknown_revision(find_chip_template(device_id, revision), device_id, revision)
}

/// A firmware version as eight hexadecimal digits.
pub fn firmware_version(version: u32) -> (text: String)
    ensures
        text@ == hex_digits(version as nat, 8),
{
    string_of(&format_hex(version as u64, 8))
}

// ── Labels ───────────────────────────────────────────────────────────────────

/// How a controller is presented.
#[derive(Debug)]
pub struct HbaIocIdentity {
    pub portname: String,
    pub chip: String,
    pub version: String,
}

/// How a controller is presented, with texts as sequences of characters.
#[verifier::ext_equal]
pub struct IdentityView {
    pub portname: Seq<char>,
    pub chip: Seq<char>,
    pub version: Seq<char>,
}

impl View for HbaIocIdentity {
    type V = IdentityView;

    open spec fn view(&self) -> IdentityView {
        IdentityView { portname: self.portname@, chip: self.chip@, version: self.version@ }
    }
}

/// The name of a port.
pub open spec fn portname_of(ioc: u32) -> Seq<char> {
    "ioc"@ + decimal(ioc as nat)
}

fn hba_portname(ioc: u32) -> (name: String)
    ensures
        name@ == portname_of(ioc),
{
    concat("ioc", &format_u64(ioc as u64))
}

/// The version that is shown where the firmware does not tell its own.
pub open spec fn shown_version(firmware: Option<u32>) -> Seq<char> {
    match firmware {
        Some(version) => hex_digits(version as nat, 8),
        None => "unknown"@,
    }
}

/// How a controller is presented that answered with the given numbers; not at
/// all where another vendor made it.
pub open spec fn identity_of(
    ioc: u32,
    vendor_id: u16,
    device_id: u16,
    revision: u8,
    firmware: Option<u32>,
) -> Option<IdentityView> {
    if vendor_id != MPI2_MFGPAGE_VENDORID_LSI {
        None
    } else {
        Some(
            IdentityView {
                portname: portname_of(ioc),
                chip: "LSI Logic "@ + chip_name(plain_device_id(device_id), revision),
                version: shown_version(firmware),
            },
        )
    }
}

/// How a controller is presented that answered with the given numbers.
pub fn identify(
    ioc: u32,
    vendor_id: u16,
    device_id: u16,
    revision: u8,
    firmware: Option<u32>,
) -> (identity: Option<HbaIocIdentity>)
    ensures
        match identity {
            Some(identity) => identity_of(ioc, vendor_id, device_id, revision, firmware) == Some(
                identity@,
            ),
            None => identity_of(ioc, vendor_id, device_id, revision, firmware) is None,
        },
{
    if vendor_id != MPI2_MFGPAGE_VENDORID_LSI {
        return None;
    }
    let name = get_chip_name_rev(normalize_lsi_device_id(device_id), revision);
    let version = match firmware {
        Some(version) => firmware_version(version),
        None => "unknown".to_string(),
    };
    Some(
        HbaIocIdentity { portname: hba_portname(ioc), chip: concat("LSI Logic ", &name), version },
    )
}

/// How a controller is presented that did not answer.
pub open spec fn unknown_identity(ioc: u32) -> IdentityView {
    IdentityView {
        portname: portname_of(ioc),
        chip: "HBA IOC "@ + decimal(ioc as nat) + " Controller"@,
        version: "unknown"@,
    }
}

/// The label of a controller.
pub open spec fn hba_label(template: Seq<char>, identity: IdentityView) -> Seq<char> {
    normalized_label(
        replaced(
            replaced(
                replaced(template, "{portname}"@, identity.portname),
                "{chip}"@,
                identity.chip,
            ),
            "{version}"@,
            identity.version,
        ),
        "HBA Controller"@,
    )
}

/// The label of a controller, made from a template.
pub fn render_hba_label(template: &str, identity: &HbaIocIdentity) -> (label: String)
    ensures
        label@ == hba_label(template@, identity@),
{
    proof {
        reveal_strlit("{portname}");
        reveal_strlit("{chip}");
        reveal_strlit("{version}");
    }
    let rendered = replace(template, "{portname}", &identity.portname);
    let rendered = replace(&rendered, "{chip}", &identity.chip);
    let rendered = replace(&rendered, "{version}", &identity.version);
    normalize_label(&rendered, "HBA Controller")
}

/// The label of a controller, where `identity` is how it presented itself, if
/// it did.
pub fn hba_ioc_label(
    config: &LsiHbaSection,
    identity: &Option<HbaIocIdentity>,
    ioc: u32,
) -> (label: String)
    ensures
        label@ == hba_label(
            config.label_template@,
            match *identity {
                Some(identity) => identity@,
                None => unknown_identity(ioc),
            },
        ),
{
    match identity {
        Some(identity) => render_hba_label(&config.label_template, identity),
        None => {
            let unknown = HbaIocIdentity {
                portname: hba_portname(ioc),
                chip: concat3("HBA IOC ", &format_u64(ioc as u64), " Controller"),
                version: "unknown".to_string(),
            };
            render_hba_label(&config.label_template, &unknown)
        },
    }
}

/// The label of a controller may stand in a schema.
pub proof fn law_hba_label_is_valid(template: Seq<char>, identity: IdentityView)
    ensures
        valid_text(hba_label(template, identity), MAX_SENSOR_LABEL_BYTES as int),
{
    reveal_strlit("HBA Controller");
    let fallback = "HBA Controller"@;
    crate::encoding::lemma_encode_ascii(fallback);
    crate::agent::label::law_normalized_label_is_valid(
        replaced(
            replaced(
                replaced(template, "{portname}"@, identity.portname),
                "{chip}"@,
                identity.chip,
            ),
            "{version}"@,
            identity.version,
        ),
        fallback,
    );
}

// ── Requests ─────────────────────────────────────────────────────────────────

/// The header of a configuration page.
#[derive(Clone, Copy, Debug, PartialEq, Eq, Structural)]
pub struct ConfigPageHeader {
    pub page_version: u8,
    pub page_length: u8,
    pub page_number: u8,
    pub page_type: u8,
}

/// What a controller is asked for a configuration page.
#[derive(Clone, Copy, Debug, PartialEq, Eq, Structural)]
pub struct ConfigRequest {
    pub action: u8,
    pub function: u8,
    pub ext_page_length: u16,
    pub ext_page_type: u8,
    pub header: ConfigPageHeader,
    pub page_address: u32,
}

/// What a controller answers.
#[derive(Clone, Copy, Debug, PartialEq, Eq, Structural)]
pub struct ConfigReply {
    pub ext_page_length: u16,
    pub ext_page_type: u8,
    pub ioc_status: u16,
    pub header: ConfigPageHeader,
}

/// The function of requests for configuration pages.
pub const MPI2_FUNCTION_CONFIG: u8 = 0x04;

/// The function of requests for facts.
pub const MPI2_FUNCTION_IOC_FACTS: u8 = 0x03;

/// Asks for the header of a page.
pub fn page_header_request(page_type: u8, page_number: u8, page_address: u32) -> (request:
    ConfigRequest)
    ensures
        request == (ConfigRequest {
            action: 0,
            function: MPI2_FUNCTION_CONFIG,
            ext_page_length: 0,
            ext_page_type: 0,
            header: ConfigPageHeader { page_version: 0, page_length: 0, page_number, page_type },
            page_address,
        }),
{
    ConfigRequest {
        action: 0,
        function: MPI2_FUNCTION_CONFIG,
        ext_page_length: 0,
        ext_page_type: 0,
        header: ConfigPageHeader { page_version: 0, page_length: 0, page_number, page_type },
        page_address,
    }
}

/// Asks for the page whose header came back.
pub fn page_read_request(reply: &ConfigReply, page_address: u32) -> (request: ConfigRequest)
    ensures
        request == (ConfigRequest {
            action: 1,
            function: MPI2_FUNCTION_CONFIG,
            ext_page_length: reply.ext_page_length,
            ext_page_type: reply.ext_page_type,
            header: reply.header,
            page_address,
        }),
{
    ConfigRequest {
        action: 1,
        function: MPI2_FUNCTION_CONFIG,
        ext_page_length: reply.ext_page_length,
        ext_page_type: reply.ext_page_type,
        header: reply.header,
        page_address,
    }
}

/// The status in an answer: its highest bit says something else.
pub open spec fn status_of(ioc_status: u16) -> int {
    ioc_status as int % 0x8000
}

/// Checks the status of an answer; a failure carries the status.
pub fn ensure_mpt2_config_success(ioc_status: u16) -> (result: Result<(), u16>)
    ensures
        match result {
            Ok(_) => status_of(ioc_status) == 0,
            Err(status) => status == status_of(ioc_status) && status != 0,
        },
{
    let status: u16 = ioc_status & 0x7fff;
    assert(ioc_status & 0x7fff == ioc_status % 0x8000) by (bit_vector);
    if status == 0 {
        Ok(())
    } else {
        Err(status)
    }
}

/// What a failed status says to a reader.
pub fn status_message(status: u16) -> (message: String)
    ensures
        message@ == "MPT config IOCStatus 0x"@ + hex_digits(status as nat, 4),
{
    concat("MPT config IOCStatus 0x", &string_of(&format_hex(status as u64, 4)))
}

/// The size of the command that the driver takes, up to its first message
/// byte and padding, in bytes.
pub const MPT2_COMMAND_BYTES: u64 = 72;

/// An ioctl request of the driver.
pub fn ioc(dir: u64, kind: u64, nr: u64, size: u64) -> (request: u64)
    ensures
        request == crate::host::kernel::ioctl_number(dir, size, kind, nr),
{
    (dir << 30) | (kind << 8) | nr | (size << 16)
}

/// The ioctl request that hands a command to the driver.
pub fn mpt2command_ioctl() -> (request: u64)
    ensures
        request == 0xc048_4c14,
{
    proof {
        crate::host::kernel::law_ioctl_fields(3, MPT2_COMMAND_BYTES, 0x4c, 20);
    }
    ioc(3, 0x4c, 20, MPT2_COMMAND_BYTES)
}

/// One line of a probe.
pub fn hba_probe_line(device: &str, ioc: u32, label: &str, value: i64) -> (line: String)
    ensures
        line@ == device@ + " ioc"@ + decimal(ioc as nat) + " "@ + label@ + ": "@ + signed_decimal(
            value as int,
        ),
{
    let mut line = concat3(device, " ioc", &format_u64(ioc as u64));
    line.append(" ");
    line.append(label);
    line.append(": ");
    line.append(&format_i64(value));
    line
}

// ── What the numbers mean ────────────────────────────────────────────────────

/// Degrees Celsius are multiplied by a thousand. Degrees Fahrenheit come to
/// whole degrees Celsius, less than one degree nearer to zero than they are. No
/// other unit tells a temperature.
pub proof fn law_temperature_units(value: u16, units: u8)
    ensures
        units == 2 ==> millicelsius(value, units) == Some(value * 1000),
        units == 1 ==> millicelsius(value, units) is Some && {
            let milli = millicelsius(value, units)->0;
            &&& milli % 1000 == 0
            &&& value >= 32 ==> 0 <= milli && milli * 9 <= (value - 32) * 5000 < milli * 9 + 9000
            &&& value <= 32 ==> milli <= 0 && milli * 9 - 9000 < (value - 32) * 5000 <= milli * 9
        },
        units != 1 && units != 2 ==> millicelsius(value, units) is None,
{
    let c = celsius(value as int);
    assert((c * 1000) % 1000 == 0);
}

/// Only controllers of the vendor 0x1000 are named. Their chips are called by
/// what their numbers mean, and numbers that mean nothing are shown; some numbers
/// are variants of others.
pub proof fn law_controllers_are_named(
    ioc: u32,
    vendor_id: u16,
    device_id: u16,
    revision: u8,
    firmware: Option<u32>,
)
    ensures
        identity_of(ioc, vendor_id, device_id, revision, firmware) is Some <==> vendor_id == 0x1000,
        identity_of(ioc, vendor_id, device_id, revision, firmware) matches Some(identity) ==> {
            &&& identity.portname == "ioc"@ + decimal(ioc as nat)
            &&& firmware is None ==> identity.version == "unknown"@
            &&& firmware matches Some(version) ==> identity.version == hex_digits(
                version as nat,
                8,
            )
            &&& device_id != 0x31 && device_id != 0x33 && device_id != 0x41 ==> identity.chip
                == "LSI Logic "@ + chip_name(device_id, revision)
            &&& device_id == 0x31 ==> identity.chip == "LSI Logic "@ + chip_name(0x30, revision)
            &&& device_id == 0x33 ==> identity.chip == "LSI Logic "@ + chip_name(0x32, revision)
            &&& device_id == 0x41 ==> identity.chip == "LSI Logic "@ + chip_name(0x40, revision)
        },
        device_id < 0x64 || device_id > 0x97 ==> chip_name(device_id, revision) == hex_digits(
            device_id as nat,
            4,
        ) + " "@ + hex_digits(revision as nat, 2),
{
}

/// A chip of a known family with a revision that nobody knows is called by the
/// family and the number of the revision.
pub proof fn law_unknown_revision_is_shown(device_id: u16, revision: u8)
    requires
        6 <= revision < 0xff,
    ensures
        device_id == 0x70 ==> chip_name(device_id, revision) == "SAS2004 "@ + hex_digits(
            revision as nat,
            2,
        ),
        device_id == 0x72 ==> chip_name(device_id, revision) == "SAS2008 "@ + hex_digits(
            revision as nat,
            2,
        ),
        device_id == 0x74 || device_id == 0x76 || device_id == 0x77 ==> chip_name(
            device_id,
            revision,
        ) == "SAS2108 "@ + hex_digits(revision as nat, 2),
        device_id == 0x64 || device_id == 0x65 ==> chip_name(device_id, revision) == "SAS2116 "@
            + hex_digits(revision as nat, 2),
        0x80 <= device_id <= 0x85 ==> chip_name(device_id, revision) == "SAS2208 "@ + hex_digits(
            revision as nat,
            2,
        ),
        device_id == 0x86 || device_id == 0x87 || device_id == 0x6e ==> chip_name(
            device_id,
            revision,
        ) == "SAS2308 "@ + hex_digits(revision as nat, 2),
        device_id == 0x96 ==> chip_name(device_id, revision) == "SAS3004 "@ + hex_digits(
            revision as nat,
            2,
        ),
        device_id == 0x97 ==> chip_name(device_id, revision) == "SAS3008 "@ + hex_digits(
            revision as nat,
            2,
        ),
        device_id == 0x90 || device_id == 0x91 || device_id == 0x94 || device_id == 0x95
            ==> chip_name(device_id, revision) == "SAS3108 "@ + hex_digits(revision as nat, 2),
        device_id == 0x7e ==> chip_name(device_id, revision) == "SSS6200 "@ + hex_digits(
            revision as nat,
            2,
        ),
{
    lemma_shown_revision("SAS2004 "@, "SAS2004 xx"@, device_id, revision);
    lemma_shown_revision("SAS2008 "@, "SAS2008 xx"@, device_id, revision);
    lemma_shown_revision("SAS2108 "@, "SAS2108 xx"@, device_id, revision);
    lemma_shown_revision("SAS2116 "@, "SAS2116 xx"@, device_id, revision);
    lemma_shown_revision("SAS2208 "@, "SAS2208 xx"@, device_id, revision);
    lemma_shown_revision("SAS2308 "@, "SAS2308 xx"@, device_id, revision);
    lemma_shown_revision("SAS3004 "@, "SAS3004 xx"@, device_id, revision);
    lemma_shown_revision("SAS3008 "@, "SAS3008 xx"@, device_id, revision);
    lemma_shown_revision("SAS3108 "@, "SAS3108 xx"@, device_id, revision);
    lemma_shown_revision("SSS6200 "@, "SSS6200 xx"@, device_id, revision);
    lemma_family_names();
}

proof fn lemma_shown_revision(
    family: Seq<char>,
    template: Seq<char>,
    device_id: u16,
    revision: u8,
)
    ensures
        template == family + "xx"@ && family.len() > 5 ==> filled_template(
            template,
            device_id,
            revision,
        ) == family + hex_digits(revision as nat, 2),
{
    if template == family + "xx"@ && family.len() > 5 {
        reveal_strlit("xxxx xx");
        reveal_strlit("xx");
        assert(template.len() > 7);
        assert(template.skip(template.len() - 2) =~= "xx"@);
        assert(template.take(template.len() - 2) =~= family);
    }
}

proof fn lemma_family_names()
    ensures
        "SAS2004 xx"@ == "SAS2004 "@ + "xx"@ && "SAS2004 "@.len() > 5,
        "SAS2008 xx"@ == "SAS2008 "@ + "xx"@ && "SAS2008 "@.len() > 5,
        "SAS2108 xx"@ == "SAS2108 "@ + "xx"@ && "SAS2108 "@.len() > 5,
        "SAS2116 xx"@ == "SAS2116 "@ + "xx"@ && "SAS2116 "@.len() > 5,
        "SAS2208 xx"@ == "SAS2208 "@ + "xx"@ && "SAS2208 "@.len() > 5,
        "SAS2308 xx"@ == "SAS2308 "@ + "xx"@ && "SAS2308 "@.len() > 5,
        "SAS3004 xx"@ == "SAS3004 "@ + "xx"@ && "SAS3004 "@.len() > 5,
        "SAS3008 xx"@ == "SAS3008 "@ + "xx"@ && "SAS3008 "@.len() > 5,
        "SAS3108 xx"@ == "SAS3108 "@ + "xx"@ && "SAS3108 "@.len() > 5,
        "SSS6200 xx"@ == "SSS6200 "@ + "xx"@ && "SSS6200 "@.len() > 5,
{
    reveal_strlit("xx");
    reveal_strlit("SAS2004 ");
    reveal_strlit("SAS2004 xx");
    assert("SAS2004 xx"@ =~= "SAS2004 "@ + "xx"@);
    reveal_strlit("SAS2008 ");
    reveal_strlit("SAS2008 xx");
    assert("SAS2008 xx"@ =~= "SAS2008 "@ + "xx"@);
    reveal_strlit("SAS2108 ");
    reveal_strlit("SAS2108 xx");
    assert("SAS2108 xx"@ =~= "SAS2108 "@ + "xx"@);
    reveal_strlit("SAS2116 ");
    reveal_strlit("SAS2116 xx");
    assert("SAS2116 xx"@ =~= "SAS2116 "@ + "xx"@);
    reveal_strlit("SAS2208 ");
    reveal_strlit("SAS2208 xx");
    assert("SAS2208 xx"@ =~= "SAS2208 "@ + "xx"@);
    reveal_strlit("SAS2308 ");
    reveal_strlit("SAS2308 xx");
    assert("SAS2308 xx"@ =~= "SAS2308 "@ + "xx"@);
    reveal_strlit("SAS3004 ");
    reveal_strlit("SAS3004 xx");
    assert("SAS3004 xx"@ =~= "SAS3004 "@ + "xx"@);
    reveal_strlit("SAS3008 ");
    reveal_strlit("SAS3008 xx");
    assert("SAS3008 xx"@ =~= "SAS3008 "@ + "xx"@);
    reveal_strlit("SAS3108 ");
    reveal_strlit("SAS3108 xx");
    assert("SAS3108 xx"@ =~= "SAS3108 "@ + "xx"@);
    reveal_strlit("SSS6200 ");
    reveal_strlit("SSS6200 xx");
    assert("SSS6200 xx"@ =~= "SSS6200 "@ + "xx"@);
}

/// Only the lower fifteen bits of a status tell whether a request went well.
pub proof fn law_status_bits(ioc_status: u16)
    ensures
        status_of(ioc_status) == 0 <==> ioc_status == 0 || ioc_status == 0x8000,
        ioc_status < 0x8000 ==> status_of(ioc_status) == ioc_status,
        ioc_status >= 0x8000 ==> status_of(ioc_status) == ioc_status - 0x8000,
{
}

/// A template shows the port, the chip and the version where it asks for them,
/// and its other texts as they are.
pub proof fn law_hba_template(text: Seq<char>, identity: IdentityView)
    requires
        !contains_text(text, "{portname}"@),
        !contains_text(text, "{chip}"@),
        !contains_text(text, "{version}"@),
    ensures
        hba_label(text, identity) == normalized_label(text, "HBA Controller"@),
        !contains_text(identity.chip, "{version}"@) ==> hba_label("{chip}"@, identity)
            == normalized_label(identity.chip, "HBA Controller"@),
        hba_label("{version}"@, identity) == normalized_label(
            identity.version,
            "HBA Controller"@,
        ),
        !contains_text(identity.portname, "{chip}"@) && !contains_text(
            identity.portname,
            "{version}"@,
        ) ==> hba_label("{portname}"@, identity) == normalized_label(
            identity.portname,
            "HBA Controller"@,
        ),
{
    let none = Seq::<char>::empty();
    lemma_placeholders();
    law_replaced(text, "{portname}"@, identity.portname, none);
    law_replaced(text, "{chip}"@, identity.chip, none);
    law_replaced(text, "{version}"@, identity.version, none);
    law_replaced(identity.chip, "{version}"@, identity.version, none);
    law_replaced(identity.portname, "{version}"@, identity.version, none);
    law_replaced(identity.portname, "{chip}"@, identity.chip, none);
    lemma_only_pattern("{portname}"@, identity.portname);
    lemma_only_pattern("{chip}"@, identity.chip);
    lemma_only_pattern("{version}"@, identity.version);
    law_replaced("{chip}"@, "{portname}"@, identity.portname, none);
    law_replaced("{version}"@, "{portname}"@, identity.portname, none);
    law_replaced("{version}"@, "{chip}"@, identity.chip, none);
}

/// No placeholder stands in another.
proof fn lemma_placeholders()
    ensures
        "{portname}"@.len() > 0,
        "{chip}"@.len() > 0,
        "{version}"@.len() > 0,
        !contains_text("{chip}"@, "{portname}"@),
        !contains_text("{version}"@, "{portname}"@),
        !contains_text("{version}"@, "{chip}"@),
{
    reveal_strlit("{portname}");
    reveal_strlit("{chip}");
    reveal_strlit("{version}");
    assert forall|at: int| !stands_at("{version}"@, "{chip}"@, at) by {
        if stands_at("{version}"@, "{chip}"@, at) {
            let part = "{version}"@.subrange(at, at + 6);
            assert(part[0] == '{');
            assert(part[1] == 'c');
            assert("{version}"@[at] == '{');
            assert("{version}"@[at + 1] == 'c');
        }
    }
}

proof fn lemma_only_pattern(pattern: Seq<char>, by: Seq<char>)
    ensures
        pattern.len() > 0 ==> replaced(pattern, pattern, by) == by,
{
    if pattern.len() > 0 {
        let rest = pattern.skip(pattern.len() as int);
        assert(pattern.take(pattern.len() as int) =~= pattern);
        assert(rest =~= Seq::<char>::empty());
        assert(replaced(rest, pattern, by) =~= Seq::<char>::empty());
        assert(replaced(pattern, pattern, by) =~= by);
    }
}

} // verus!
