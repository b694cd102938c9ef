//! Disks: what `smartctl` prints, which devices are disks, and how their
//! sensors are called.

use crate::agent::label::{normalize_label, normalized_label};
use crate::number::{at_most, fits_i64, parse_i64, parse_u64, parsed_int, parsed_nat};
use crate::path::{file_name, file_name_of};
use crate::protocol::{valid_text, MAX_SENSOR_LABEL_BYTES};
use crate::text::{
    chars_of, concat3, contains, contains_text, copy_optional, ends_with, has_prefix, has_suffix,
    lines, lowercase, optional_text, pieces, replace, replaced, same, split, split_lines,
    split_once, split_pair, split_words, starts_with, string_of, subrange, texts, to_lowercase,
    trim, trimmed, trimmed_start, views, white, words, Separator,
};
use vstd::prelude::*;
use vstd::utf8::encode_utf8;

verus! {

// ── What `smartctl` prints ───────────────────────────────────────────────────

/// The text that `bytes` are the UTF-8 encoding of, if there is one.
///
/// Calls `String::from_utf8`. A text that it returns has `bytes` as its
/// encoding, and it refuses only what no text has as its encoding.
#[verifier::external_body]
fn text_of_bytes(bytes: Vec<u8>) -> (text: Option<String>)
    ensures
        match text {
            Some(text) => encode_utf8(text@) == bytes@,
            None => forall|chars: Seq<char>| #[trigger] encode_utf8(chars) != bytes@,
        },
{
    String::from_utf8(bytes).ok()
}

/// What a command printed: its output, and behind a line break its errors, if
/// there are any.
pub open spec fn merged_output(stdout: Seq<u8>, stderr: Seq<u8>) -> Seq<u8> {
    if stderr.len() == 0 {
        stdout
    } else {
        stdout.push(0x0au8) + stderr
    }
}

/// What a command printed, as one text, if it is UTF-8.
pub fn output_to_string(stdout: Vec<u8>, stderr: &[u8]) -> (text: Option<String>)
    ensures
        match text {
            Some(text) => encode_utf8(text@) == merged_output(stdout@, stderr@),
            None => forall|chars: Seq<char>|
                #[trigger] encode_utf8(chars) != merged_output(stdout@, stderr@),
        },
{
    let mut raw = stdout;
    if stderr.len() > 0 {
        raw.push(0x0a);
        raw.extend_from_slice(stderr);
    }
    assert(raw@ =~= merged_output(stdout@, stderr@));
    text_of_bytes(raw)
}

// ── Temperatures ─────────────────────────────────────────────────────────────

/// The first of some tokens that is a number.
pub open spec fn first_number(tokens: Seq<Seq<char>>) -> Option<int>
    decreases tokens.len(),
{
    if tokens.len() == 0 {
        None
    } else {
        match fits_i64(parsed_int(tokens[0])) {
            Some(n) => Some(n),
            None => first_number(tokens.skip(1)),
        }
    }
}

/// The first number in a text.
pub open spec fn number_in(s: Seq<char>) -> Option<int> {
    first_number(pieces(s, Separator::NonNumber))
}

/// The first number in a text.
pub fn first_i64(input: &str) -> (n: Option<i64>)
    ensures
        match n {
            Some(v) => number_in(input@) == Some(v as int),
            None => number_in(input@) is None,
        },
{
    let chars = chars_of(input);
    let tokens = split(&chars, Separator::NonNumber);
    let ghost all = views(tokens@);
    assert(all.skip(0) =~= all);
    for i in 0..tokens.len()
        invariant
            all == views(tokens@),
            all == pieces(input@, Separator::NonNumber),
            first_number(all) == first_number(all.skip(i as int)),
    {
        assert(all.skip(i as int)[0] == tokens@[i as int]@);
        if let Some(v) = parse_i64(&string_of(&tokens[i])) {
            return Some(v);
        }
        assert(all.skip(i as int).skip(1) =~= all.skip(i as int + 1));
    }
    None
}

/// A temperature in degrees that a disk may have.
pub open spec fn plausible(value: Option<int>) -> Option<int> {
    match value {
        Some(v) if -60 <= v <= 200 => Some(v),
        _ => None,
    }
}

fn plausible_celsius(value: i64) -> (kept: Option<i64>)
    ensures
        match kept {
            Some(v) => v == value && -60 <= value <= 200,
            None => !(-60 <= value <= 200),
        },
{
    if -60 <= value && value <= 200 {
        Some(value)
    } else {
        None
    }
}

/// Whether a line, in small letters and without leading white space, speaks of
/// a temperature in degrees Celsius.
pub open spec fn tells_temperature(lower: Seq<char>) -> bool {
    &&& has_prefix(lower, "temperature:"@) || has_prefix(lower, "current drive temperature:"@)
        || has_prefix(lower, "temperature sensor "@)
    &&& contains_text(lower, "celsius"@) || has_suffix(lower, " c"@) || contains_text(lower, " c "@)
}

/// The temperature, in degrees, that a line of the form `name: value` tells.
pub open spec fn line_temperature(line: Seq<char>) -> Option<int> {
    if !tells_temperature(trimmed_start(lowercase(line))) {
        None
    } else {
        match split_pair(line, ":"@) {
            Some((_, value)) => plausible(number_in(value)),
            None => None,
        }
    }
}

fn trim_start(s: &[char]) -> (t: String)
    ensures
        t@ == trimmed_start(s@),
{
    let mut from: usize = 0;
    assert(s@.skip(0) =~= s@);
    while from < s.len() && white(s[from])
        invariant
            from <= s@.len(),
            trimmed_start(s@) == trimmed_start(s@.skip(from as int)),
        decreases s@.len() - from,
    {
        assert(s@.skip(from as int).skip(1) =~= s@.skip(from as int + 1));
        from = from + 1;
    }
    let rest = subrange(s, from, s.len());
    assert(rest@ =~= s@.skip(from as int));
    string_of(&rest)
}

fn parse_temperature_line(line: &str) -> (degrees: Option<i64>)
    ensures
        match degrees {
            Some(v) => line_temperature(line@) == Some(v as int) && -60 <= v <= 200,
            None => line_temperature(line@) is None,
        },
{
    let chars = chars_of(line);
    let lower = trim_start(&to_lowercase(&chars));
    if !(starts_with(&lower, "temperature:") || starts_with(&lower, "current drive temperature:")
        || starts_with(&lower, "temperature sensor ")) {
        return None;
    }
    if !(contains(&lower, "celsius") || ends_with(&lower, " c") || contains(&lower, " c ")) {
        return None;
    }
    match split_once(line, ":") {
        Some((_, value)) => match first_i64(&value) {
            Some(v) => plausible_celsius(v),
            None => None,
        },
        None => None,
    }
}

/// The first number in some columns: the first number of the first column that
/// holds one.
pub open spec fn columns_number(columns: Seq<Seq<char>>) -> Option<int>
    decreases columns.len(),
{
    if columns.len() == 0 {
        None
    } else {
        match number_in(columns[0]) {
            Some(n) => Some(n),
            None => columns_number(columns.skip(1)),
        }
    }
}

/// Whether an attribute is a temperature.
pub open spec fn is_temperature_attribute(id: nat, name: Seq<char>) -> bool {
    ||| id == 190
    ||| id == 194
    ||| id == 231
    ||| contains_text(lowercase(name), "temperature"@)
    ||| contains_text(lowercase(name), "airflow"@)
}

/// How good an attribute is as the temperature of a disk; less is better.
pub open spec fn attribute_rank(id: nat) -> int {
    if id == 194 {
        0
    } else if id == 190 {
        1
    } else if id == 231 {
        3
    } else {
        2
    }
}

/// The rank and temperature, in degrees, that a row of the attribute table
/// holds.
pub open spec fn row_temperature(line: Seq<char>) -> Option<(int, int)> {
    let columns = words(line);
    if columns.len() < 10 {
        None
    } else {
        match at_most(parsed_nat(columns[0]), u16::MAX as nat) {
            Some(id) if is_temperature_attribute(id, columns[1]) => {
                match plausible(columns_number(columns.skip(9))) {
                    Some(v) => Some((attribute_rank(id), v)),
                    None => None,
                }
            },
            _ => None,
        }
    }
}

/// The view of a rank and a temperature.
pub open spec fn ranked(found: Option<(u8, i64)>) -> Option<(int, int)> {
    match found {
        Some((rank, value)) => Some((rank as int, value as int)),
        None => None,
    }
}

fn parse_ata_temperature_attribute(line: &str) -> (found: Option<(u8, i64)>)
    ensures
        ranked(found) == row_temperature(line@),
        found matches Some((_, v)) ==> -60 <= v <= 200,
{
    let columns = split_words(line);
    let ghost all = texts(columns@);
    if columns.len() < 10 {
        return None;
    }
    assert(all[0] == columns@[0]@);
    assert(all[1] == columns@[1]@);
    let id: u64 = match parse_u64(&columns[0]) {
        Some(id) => id,
        None => {
            return None;
        },
    };
    if id > 65535 {
        return None;
    }
    let name_chars = chars_of(&columns[1]);
    let name = string_of(&to_lowercase(&name_chars));
    let is_temperature = id == 190 || id == 194 || id == 231 || contains(&name, "temperature")
        || contains(&name, "airflow");
    if !is_temperature {
        return None;
    }
    let rank: u8 = if id == 194 {
        0
    } else if id == 190 {
        1
    } else if id == 231 {
        3
    } else {
        2
    };
    let ghost rest = all.skip(9);
    assert(rest.skip(0) =~= rest);
    for i in 9..columns.len()
        invariant
            columns@.len() >= 10,
            all == texts(columns@),
            all == words(line@),
            rest == all.skip(9),
            at_most(parsed_nat(all[0]), u16::MAX as nat) == Some(id as nat),
            is_temperature_attribute(id as nat, all[1]),
            rank == attribute_rank(id as nat),
            columns_number(rest) == columns_number(rest.skip(i - 9)),
    {
        assert(rest.skip(i - 9)[0] == columns@[i as int]@);
        if let Some(v) = first_i64(&columns[i]) {
            return match plausible_celsius(v) {
                Some(v) => Some((rank, v)),
                None => None,
            };
        }
        assert(rest.skip(i - 9).skip(1) =~= rest.skip(i - 9 + 1));
    }
    assert(rest.skip(columns@.len() - 9) =~= Seq::<Seq<char>>::empty());
    None
}

/// The better of two rows; the earlier one where they are equally good.
pub open spec fn better(best: Option<(int, int)>, row: Option<(int, int)>) -> Option<(int, int)> {
    match (best, row) {
        (Some((rank, _)), Some((other, _))) => if rank <= other {
            best
        } else {
            row
        },
        (Some(_), None) => best,
        (None, _) => row,
    }
}

/// The temperature, in degrees, that some lines tell: that of the first line
/// that says so outright, else that of the best row, where `best` is the best
/// row before them.
pub open spec fn lines_temperature(all: Seq<Seq<char>>, best: Option<(int, int)>) -> Option<int>
    decreases all.len(),
{
    if all.len() == 0 {
        match best {
            Some((_, value)) => Some(value),
            None => None,
        }
    } else {
        match line_temperature(all[0]) {
            Some(value) => Some(value),
            None => lines_temperature(all.skip(1), better(best, row_temperature(all[0]))),
        }
    }
}

/// The temperature, in thousandths of a degree, that `smartctl -A` printed.
pub open spec fn printed_temperature(output: Seq<char>) -> Option<int> {
    match lines_temperature(lines(output), None) {
        Some(value) => Some(value * 1000),
        None => None,
    }
}

/// The temperature, in thousandths of a degree, that `smartctl -A` printed.
pub fn parse_smartctl_temperature_millicelsius(output: &str) -> (temperature: Option<i64>)
    ensures
        match temperature {
            Some(v) => printed_temperature(output@) == Some(v as int),
            None => printed_temperature(output@) is None,
        },
{
    let parts = split_lines(output);
    let ghost all = texts(parts@);
    let mut best: Option<(u8, i64)> = None;
    assert(all.skip(0) =~= all);
    for i in 0..parts.len()
        invariant
            all == texts(parts@),
            all == lines(output@),
            lines_temperature(all, None) == lines_temperature(all.skip(i as int), ranked(best)),
            best matches Some((_, v)) ==> -60 <= v <= 200,
    {
        let ghost rest = all.skip(i as int);
        assert(rest[0] == parts@[i as int]@);
        assert(rest.skip(1) =~= all.skip(i as int + 1));
        if let Some(value) = parse_temperature_line(&parts[i]) {
            return Some(value * 1000);
        }
        if let Some((rank, value)) = parse_ata_temperature_attribute(&parts[i]) {
            match best {
                Some((best_rank, _)) => {
                    if best_rank > rank {
                        best = Some((rank, value));
                    }
                },
                None => {
                    best = Some((rank, value));
                },
            }
        }
    }
    match best {
        Some((_, value)) => Some(value * 1000),
        None => None,
    }
}

/// A temperature that was read is one that a disk may have.
pub proof fn law_printed_temperature_plausible(output: Seq<char>)
    ensures
        printed_temperature(output) matches Some(v) ==> -60_000 <= v <= 200_000,
{
    lemma_lines_temperature_plausible(lines(output), None);
}

proof fn lemma_lines_temperature_plausible(all: Seq<Seq<char>>, best: Option<(int, int)>)
    requires
        best matches Some((_, v)) ==> -60 <= v <= 200,
    ensures
        lines_temperature(all, best) matches Some(v) ==> -60 <= v <= 200,
    decreases all.len(),
{
    if all.len() > 0 && line_temperature(all[0]) is None {
        lemma_lines_temperature_plausible(all.skip(1), better(best, row_temperature(all[0])));
    }
}

// ── Identity ─────────────────────────────────────────────────────────────────

/// What is known of a disk.
#[derive(Debug)]
pub struct SmartctlIdentity {
    pub model_family: Option<String>,
    pub model: Option<String>,
    pub serial: Option<String>,
    pub wwn: Option<String>,
    pub firmware: Option<String>,
    pub capacity: Option<String>,
    pub sector_sizes: Option<String>,
    pub rotation_rate: Option<String>,
    pub form_factor: Option<String>,
    pub ata_version: Option<String>,
    pub sata_version: Option<String>,
    pub vendor: Option<String>,
    pub product: Option<String>,
    pub revision: Option<String>,
    pub database: Option<String>,
    pub smart_available: Option<String>,
    pub smart_enabled: Option<String>,
}

/// What is known of a disk, with texts as sequences of characters.
#[verifier::ext_equal]
pub struct DiskView {
    pub model_family: Option<Seq<char>>,
    pub model: Option<Seq<char>>,
    pub serial: Option<Seq<char>>,
    pub wwn: Option<Seq<char>>,
    pub firmware: Option<Seq<char>>,
    pub capacity: Option<Seq<char>>,
    pub sector_sizes: Option<Seq<char>>,
    pub rotation_rate: Option<Seq<char>>,
    pub form_factor: Option<Seq<char>>,
    pub ata_version: Option<Seq<char>>,
    pub sata_version: Option<Seq<char>>,
    pub vendor: Option<Seq<char>>,
    pub product: Option<Seq<char>>,
    pub revision: Option<Seq<char>>,
    pub database: Option<Seq<char>>,
    pub smart_available: Option<Seq<char>>,
    pub smart_enabled: Option<Seq<char>>,
}

impl View for SmartctlIdentity {
    type V = DiskView;

    open spec fn view(&self) -> DiskView {
        DiskView {
            model_family: optional_text(self.model_family),
            model: optional_text(self.model),
            serial: optional_text(self.serial),
            wwn: optional_text(self.wwn),
            firmware: optional_text(self.firmware),
            capacity: optional_text(self.capacity),
            sector_sizes: optional_text(self.sector_sizes),
            rotation_rate: optional_text(self.rotation_rate),
            form_factor: optional_text(self.form_factor),
            ata_version: optional_text(self.ata_version),
            sata_version: optional_text(self.sata_version),
            vendor: optional_text(self.vendor),
            product: optional_text(self.product),
            revision: optional_text(self.revision),
            database: optional_text(self.database),
            smart_available: optional_text(self.smart_available),
            smart_enabled: optional_text(self.smart_enabled),
        }
    }
}

impl Clone for SmartctlIdentity {
    fn clone(&self) -> (copy: Self)
        ensures
            copy@ == self@,
    {
        SmartctlIdentity {
            model_family: copy_optional(&self.model_family),
            model: copy_optional(&self.model),
            serial: copy_optional(&self.serial),
            wwn: copy_optional(&self.wwn),
            firmware: copy_optional(&self.firmware),
            capacity: copy_optional(&self.capacity),
            sector_sizes: copy_optional(&self.sector_sizes),
            rotation_rate: copy_optional(&self.rotation_rate),
            form_factor: copy_optional(&self.form_factor),
            ata_version: copy_optional(&self.ata_version),
            sata_version: copy_optional(&self.sata_version),
            vendor: copy_optional(&self.vendor),
            product: copy_optional(&self.product),
            revision: copy_optional(&self.revision),
            database: copy_optional(&self.database),
            smart_available: copy_optional(&self.smart_available),
            smart_enabled: copy_optional(&self.smart_enabled),
        }
    }
}

/// Nothing known.
pub open spec fn unknown_disk() -> DiskView {
    DiskView {
        model_family: None,
        model: None,
        serial: None,
        wwn: None,
        firmware: None,
        capacity: None,
        sector_sizes: None,
        rotation_rate: None,
        form_factor: None,
        ata_version: None,
        sata_version: None,
        vendor: None,
        product: None,
        revision: None,
        database: None,
        smart_available: None,
        smart_enabled: None,
    }
}

impl Default for SmartctlIdentity {
    fn default() -> (identity: Self)
        ensures
            identity@ == unknown_disk(),
    {
        SmartctlIdentity {
            model_family: None,
            model: None,
            serial: None,
            wwn: None,
            firmware: None,
            capacity: None,
            sector_sizes: None,
            rotation_rate: None,
            form_factor: None,
            ata_version: None,
            sata_version: None,
            vendor: None,
            product: None,
            revision: None,
            database: None,
            smart_available: None,
            smart_enabled: None,
        }
    }
}

/// What is known of a disk once the line `key: value` was read.
pub open spec fn learned(disk: DiskView, key: Seq<char>, value: Seq<char>) -> DiskView {
    if key == "Model Family"@ {
        DiskView { model_family: Some(value), ..disk }
    } else if key == "Device Model"@ || key == "Model Number"@ {
        DiskView { model: Some(value), ..disk }
    } else if key == "Serial Number"@ {
        DiskView { serial: Some(value), ..disk }
    } else if key == "LU WWN Device Id"@ || key == "Logical Unit id"@ {
        DiskView { wwn: Some(value), ..disk }
    } else if key == "Firmware Version"@ {
        DiskView { firmware: Some(value), ..disk }
    } else if key == "User Capacity"@ || key == "Total NVM Capacity"@ || key
        == "Namespace 1 Size/Capacity"@ {
        DiskView { capacity: Some(value), ..disk }
    } else if key == "Sector Size"@ || key == "Sector Sizes"@ {
        DiskView { sector_sizes: Some(value), ..disk }
    } else if key == "Rotation Rate"@ {
        DiskView { rotation_rate: Some(value), ..disk }
    } else if key == "Form Factor"@ {
        DiskView { form_factor: Some(value), ..disk }
    } else if key == "ATA Version is"@ || key == "ATA Version"@ {
        DiskView { ata_version: Some(value), ..disk }
    } else if key == "SATA Version is"@ || key == "SATA Version"@ {
        DiskView { sata_version: Some(value), ..disk }
    } else if key == "Vendor"@ {
        DiskView { vendor: Some(value), ..disk }
    } else if key == "Product"@ {
        DiskView { product: Some(value), ..disk }
    } else if key == "Revision"@ {
        DiskView { revision: Some(value), ..disk }
    } else if key == "Device is"@ {
        DiskView { database: Some(value), ..disk }
    } else if key == "SMART support is"@ {
        if has_prefix(value, "Available"@) {
            DiskView { smart_available: Some(value), ..disk }
        } else if has_prefix(value, "Enabled"@) || has_prefix(value, "Disabled"@) {
            DiskView { smart_enabled: Some(value), ..disk }
        } else {
            disk
        }
    } else {
        disk
    }
}

/// What is known of a disk once a line was read. Lines without a colon or
/// without a value say nothing.
pub open spec fn line_learned(disk: DiskView, line: Seq<char>) -> DiskView {
    match split_pair(line, ":"@) {
        Some((key, value)) => if trimmed(value).len() == 0 {
            disk
        } else {
            learned(disk, trimmed(key), trimmed(value))
        },
        None => disk,
    }
}

/// What is known of a disk once some lines were read.
pub open spec fn lines_learned(all: Seq<Seq<char>>) -> DiskView
    decreases all.len(),
{
    if all.len() == 0 {
        unknown_disk()
    } else {
        line_learned(lines_learned(all.drop_last()), all.last())
    }
}

/// A disk without a model is called by its vendor and product, and a disk
/// without a firmware version by its revision.
pub open spec fn completed(disk: DiskView) -> DiskView {
    DiskView {
        model: match disk.model {
            Some(model) => Some(model),
            None => match (disk.vendor, disk.product) {
                (Some(vendor), Some(product)) => Some(vendor + " "@ + product),
                (Some(vendor), None) => Some(vendor),
                (None, Some(product)) => Some(product),
                (None, None) => None,
            },
        },
        firmware: match disk.firmware {
            Some(firmware) => Some(firmware),
            None => disk.revision,
        },
        ..disk
    }
}

fn learn(identity: &mut SmartctlIdentity, key: &str, value: String)
    ensures
        final(identity)@ == learned(old(identity)@, key@, value@),
{
    if same(key, "Model Family") {
        identity.model_family = Some(value);
    } else if same(key, "Device Model") || same(key, "Model Number") {
        identity.model = Some(value);
    } else if same(key, "Serial Number") {
        identity.serial = Some(value);
    } else if same(key, "LU WWN Device Id") || same(key, "Logical Unit id") {
        identity.wwn = Some(value);
    } else if same(key, "Firmware Version") {
        identity.firmware = Some(value);
    } else if same(key, "User Capacity") || same(key, "Total NVM Capacity") || same(
        key,
        "Namespace 1 Size/Capacity",
    ) {
        identity.capacity = Some(value);
    } else if same(key, "Sector Size") || same(key, "Sector Sizes") {
        identity.sector_sizes = Some(value);
    } else if same(key, "Rotation Rate") {
        identity.rotation_rate = Some(value);
    } else if same(key, "Form Factor") {
        identity.form_factor = Some(value);
    } else if same(key, "ATA Version is") || same(key, "ATA Version") {
        identity.ata_version = Some(value);
    } else if same(key, "SATA Version is") || same(key, "SATA Version") {
        identity.sata_version = Some(value);
    } else if same(key, "Vendor") {
        identity.vendor = Some(value);
    } else if same(key, "Product") {
        identity.product = Some(value);
    } else if same(key, "Revision") {
        identity.revision = Some(value);
    } else if same(key, "Device is") {
        identity.database = Some(value);
    } else if same(key, "SMART support is") {
        if starts_with(&value, "Available") {
            identity.smart_available = Some(value);
        } else if starts_with(&value, "Enabled") || starts_with(&value, "Disabled") {
            identity.smart_enabled = Some(value);
        }
    }
}

/// What `smartctl -i` printed of a disk.
pub fn parse_smartctl_identity(output: &str) -> (identity: SmartctlIdentity)
    ensures
        identity@ == completed(lines_learned(lines(output@))),
{
    let parts = split_lines(output);
    let ghost all = texts(parts@);
    let mut identity = SmartctlIdentity::default();
    assert(all.take(0) =~= Seq::<Seq<char>>::empty());
    for i in 0..parts.len()
        invariant
            all == texts(parts@),
            identity@ == lines_learned(all.take(i as int)),
    {
        proof {
            assert(all.take(i as int + 1).drop_last() =~= all.take(i as int));
            assert(all.take(i as int + 1).last() == parts@[i as int]@);
        }
        if let Some((key, value)) = split_once(&parts[i], ":") {
            let value = trim(&value);
            if value.as_str().unicode_len() > 0 {
                learn(&mut identity, &trim(&key), value);
            }
        }
    }
    assert(all.take(all.len() as int) =~= all);
    let ghost read = identity@;
    if identity.model.is_none() {
        identity.model = match (&identity.vendor, &identity.product) {
            (Some(vendor), Some(product)) => Some(concat3(vendor, " ", product)),
            (Some(vendor), None) => Some(vendor.clone()),
            (None, Some(product)) => Some(product.clone()),
            (None, None) => None,
        };
    }
    if identity.firmware.is_none() {
        identity.firmware = copy_optional(&identity.revision);
    }
    identity
}

// ── Labels ───────────────────────────────────────────────────────────────────

/// A text that may be missing.
pub open spec fn or_empty(value: Option<Seq<char>>) -> Seq<char> {
    match value {
        Some(text) => text,
        None => Seq::empty(),
    }
}

/// The name by which a device is called in labels.
pub open spec fn short_name(device: Seq<char>) -> Seq<char> {
    match file_name_of(device) {
        Some(name) => name,
        None => "disk"@,
    }
}

/// A template with the placeholders replaced, one after the other.
pub open spec fn filled_disk_template(
    template: Seq<char>,
    device: Seq<char>,
    disk: DiskView,
) -> Seq<char> {
    let s = replaced(template, "{device}"@, short_name(device));
    let s = replaced(s, "{path}"@, device);
    let s = replaced(s, "{model_family}"@, or_empty(disk.model_family));
    let s = replaced(s, "{model}"@, or_empty(disk.model));
    let s = replaced(s, "{serial}"@, or_empty(disk.serial));
    let s = replaced(s, "{wwn}"@, or_empty(disk.wwn));
    let s = replaced(s, "{firmware}"@, or_empty(disk.firmware));
    let s = replaced(s, "{capacity}"@, or_empty(disk.capacity));
    let s = replaced(s, "{sector_sizes}"@, or_empty(disk.sector_sizes));
    let s = replaced(s, "{rotation_rate}"@, or_empty(disk.rotation_rate));
    let s = replaced(s, "{form_factor}"@, or_empty(disk.form_factor));
    let s = replaced(s, "{ata_version}"@, or_empty(disk.ata_version));
    let s = replaced(s, "{sata_version}"@, or_empty(disk.sata_version));
    let s = replaced(s, "{vendor}"@, or_empty(disk.vendor));
    let s = replaced(s, "{product}"@, or_empty(disk.product));
    let s = replaced(s, "{revision}"@, or_empty(disk.revision));
    let s = replaced(s, "{database}"@, or_empty(disk.database));
    let s = replaced(s, "{smart_available}"@, or_empty(disk.smart_available));
    replaced(s, "{smart_enabled}"@, or_empty(disk.smart_enabled))
}

/// The label of a disk.
pub open spec fn disk_label(template: Seq<char>, device: Seq<char>, disk: DiskView) -> Seq<char> {
    normalized_label(filled_disk_template(template, device, disk), "disk temperature"@)
}

fn fill(s: &str, placeholder: &str, value: &Option<String>) -> (out: String)
    requires
        placeholder@.len() > 0,
    ensures
        out@ == replaced(s@, placeholder@, or_empty(optional_text(*value))),
{
    match value {
        Some(text) => replace(s, placeholder, text),
        None => {
            let nothing = String::new();
            assert(nothing@ =~= Seq::<char>::empty());
            replace(s, placeholder, &nothing)
        },
    }
}

/// The label of a disk, made from a template.
pub fn render_smartctl_label(
    template: &str,
    device: &str,
    identity: &SmartctlIdentity,
) -> (label: String)
    ensures
        label@ == disk_label(template@, device@, identity@),
{
    proof {
        reveal_strlit("{device}");
        reveal_strlit("{path}");
        reveal_strlit("{model_family}");
        reveal_strlit("{model}");
        reveal_strlit("{serial}");
        reveal_strlit("{wwn}");
        reveal_strlit("{firmware}");
        reveal_strlit("{capacity}");
        reveal_strlit("{sector_sizes}");
        reveal_strlit("{rotation_rate}");
        reveal_strlit("{form_factor}");
        reveal_strlit("{ata_version}");
        reveal_strlit("{sata_version}");
        reveal_strlit("{vendor}");
        reveal_strlit("{product}");
        reveal_strlit("{revision}");
        reveal_strlit("{database}");
        reveal_strlit("{smart_available}");
        reveal_strlit("{smart_enabled}");
    }
    let name = match file_name(device) {
        Some(name) => name,
        None => "disk".to_string(),
    };
    let s = replace(template, "{device}", &name);
    let s = replace(&s, "{path}", device);
    let s = fill(&s, "{model_family}", &identity.model_family);
    let s = fill(&s, "{model}", &identity.model);
    let s = fill(&s, "{serial}", &identity.serial);
    let s = fill(&s, "{wwn}", &identity.wwn);
    let s = fill(&s, "{firmware}", &identity.firmware);
    let s = fill(&s, "{capacity}", &identity.capacity);
    let s = fill(&s, "{sector_sizes}", &identity.sector_sizes);
    let s = fill(&s, "{rotation_rate}", &identity.rotation_rate);
    let s = fill(&s, "{form_factor}", &identity.form_factor);
    let s = fill(&s, "{ata_version}", &identity.ata_version);
    let s = fill(&s, "{sata_version}", &identity.sata_version);
    let s = fill(&s, "{vendor}", &identity.vendor);
    let s = fill(&s, "{product}", &identity.product);
    let s = fill(&s, "{revision}", &identity.revision);
    let s = fill(&s, "{database}", &identity.database);
    let s = fill(&s, "{smart_available}", &identity.smart_available);
    let s = fill(&s, "{smart_enabled}", &identity.smart_enabled);
    normalize_label(&s, "disk temperature")
}

/// The label of a disk may stand in a schema.
pub proof fn law_disk_label_is_valid(template: Seq<char>, device: Seq<char>, disk: DiskView)
    ensures
        valid_text(disk_label(template, device, disk), MAX_SENSOR_LABEL_BYTES as int),
{
    reveal_strlit("disk temperature");
    let fallback = "disk temperature"@;
    crate::encoding::lemma_encode_ascii(fallback);
    crate::agent::label::law_normalized_label_is_valid(
        filled_disk_template(template, device, disk),
        fallback,
    );
}

} // verus!
