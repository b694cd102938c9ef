//! What is told of a disk, and how it shows in labels.

use crate::agent::label::normalized_label;
use crate::agent::smartctl::{
    completed, disk_label, learned, line_learned, lines_learned, or_empty, short_name, DiskView,
};
use crate::text::laws::law_replaced;
use crate::text::{contains_text, replaced, split_pair, stands_at, trimmed};
use vstd::prelude::*;

verus! {

// ── What lines tell ──────────────────────────────────────────────────────────

/// What a line can tell of a disk.
#[derive(Clone, Copy, PartialEq, Eq, Structural)]
pub enum Fact {
    ModelFamily,
    Model,
    Serial,
    Wwn,
    Firmware,
    Capacity,
    SectorSizes,
    RotationRate,
    FormFactor,
    AtaVersion,
    SataVersion,
    Vendor,
    Product,
    Revision,
    Database,
}

impl Fact {
    /// Under which words a line tells it.
    pub open spec fn told_by(self, key: Seq<char>) -> bool {
        match self {
            Fact::ModelFamily => key == "Model Family"@,
            Fact::Model => key == "Device Model"@ || key == "Model Number"@,
            Fact::Serial => key == "Serial Number"@,
            Fact::Wwn => key == "LU WWN Device Id"@ || key == "Logical Unit id"@,
            Fact::Firmware => key == "Firmware Version"@,
            Fact::Capacity => key == "User Capacity"@ || key == "Total NVM Capacity"@ || key == "Namespace 1 Size/Capacity"@,
            Fact::SectorSizes => key == "Sector Size"@ || key == "Sector Sizes"@,
            Fact::RotationRate => key == "Rotation Rate"@,
            Fact::FormFactor => key == "Form Factor"@,
            Fact::AtaVersion => key == "ATA Version is"@ || key == "ATA Version"@,
            Fact::SataVersion => key == "SATA Version is"@ || key == "SATA Version"@,
            Fact::Vendor => key == "Vendor"@,
            Fact::Product => key == "Product"@,
            Fact::Revision => key == "Revision"@,
            Fact::Database => key == "Device is"@,
        }
    }

    /// What is known of it.
    pub open spec fn of(self, disk: DiskView) -> Option<Seq<char>> {
        match self {
            Fact::ModelFamily => disk.model_family,
            Fact::Model => disk.model,
            Fact::Serial => disk.serial,
            Fact::Wwn => disk.wwn,
            Fact::Firmware => disk.firmware,
            Fact::Capacity => disk.capacity,
            Fact::SectorSizes => disk.sector_sizes,
            Fact::RotationRate => disk.rotation_rate,
            Fact::FormFactor => disk.form_factor,
            Fact::AtaVersion => disk.ata_version,
            Fact::SataVersion => disk.sata_version,
            Fact::Vendor => disk.vendor,
            Fact::Product => disk.product,
            Fact::Revision => disk.revision,
            Fact::Database => disk.database,
        }
    }
}

/// Whether a line tells a fact: the words of the fact, a colon, and something
/// behind it.
pub open spec fn tells(line: Seq<char>, fact: Fact, value: Seq<char>) -> bool {
    split_pair(line, ":"@) matches Some((key, behind)) && fact.told_by(trimmed(key)) && trimmed(
        behind,
    ) == value && value.len() > 0
}

/// The words of different facts are different.
proof fn lemma_words_differ(key: Seq<char>, a: Fact, b: Fact)
    requires
        a.told_by(key),
    ensures
        b.told_by(key) ==> a == b,
        key != "SMART support is"@,
{
    reveal_strlit("Model Family");
    reveal_strlit("Device Model");
    reveal_strlit("Model Number");
    reveal_strlit("Serial Number");
    reveal_strlit("LU WWN Device Id");
    reveal_strlit("Logical Unit id");
    reveal_strlit("Firmware Version");
    reveal_strlit("User Capacity");
    reveal_strlit("Total NVM Capacity");
    reveal_strlit("Namespace 1 Size/Capacity");
    reveal_strlit("Sector Size");
    reveal_strlit("Sector Sizes");
    reveal_strlit("Rotation Rate");
    reveal_strlit("Form Factor");
    reveal_strlit("ATA Version is");
    reveal_strlit("ATA Version");
    reveal_strlit("SATA Version is");
    reveal_strlit("SATA Version");
    reveal_strlit("Vendor");
    reveal_strlit("Product");
    reveal_strlit("Revision");
    reveal_strlit("Device is");
    reveal_strlit("SMART support is");
    assert("Model Family"@.len() == 12 && "Model Family"@[0] == 'M' && "Model Family"@[1] == 'o');
    assert("Model Family"@[6] == 'F');
    assert("Device Model"@.len() == 12 && "Device Model"@[0] == 'D' && "Device Model"@[1] == 'e');
    assert("Device Model"@[6] == ' ');
    assert("Model Number"@.len() == 12 && "Model Number"@[0] == 'M' && "Model Number"@[1] == 'o');
    assert("Model Number"@[6] == 'N');
    assert("Serial Number"@.len() == 13 && "Serial Number"@[0] == 'S'
        && "Serial Number"@[1] == 'e');
    assert("Serial Number"@[6] == ' ');
    assert("LU WWN Device Id"@.len() == 16 && "LU WWN Device Id"@[0] == 'L'
        && "LU WWN Device Id"@[1] == 'U');
    assert("LU WWN Device Id"@[6] == ' ');
    assert("Logical Unit id"@.len() == 15 && "Logical Unit id"@[0] == 'L'
        && "Logical Unit id"@[1] == 'o');
    assert("Logical Unit id"@[6] == 'l');
    assert("Firmware Version"@.len() == 16 && "Firmware Version"@[0] == 'F'
        && "Firmware Version"@[1] == 'i');
    assert("Firmware Version"@[6] == 'r');
    assert("User Capacity"@.len() == 13 && "User Capacity"@[0] == 'U'
        && "User Capacity"@[1] == 's');
    assert("User Capacity"@[6] == 'a');
    assert("Total NVM Capacity"@.len() == 18 && "Total NVM Capacity"@[0] == 'T'
        && "Total NVM Capacity"@[1] == 'o');
    assert("Total NVM Capacity"@[6] == 'N');
    assert("Namespace 1 Size/Capacity"@.len() == 25 && "Namespace 1 Size/Capacity"@[0] == 'N'
        && "Namespace 1 Size/Capacity"@[1] == 'a');
    assert("Namespace 1 Size/Capacity"@[6] == 'a');
    assert("Sector Size"@.len() == 11 && "Sector Size"@[0] == 'S' && "Sector Size"@[1] == 'e');
    assert("Sector Size"@[6] == ' ');
    assert("Sector Sizes"@.len() == 12 && "Sector Sizes"@[0] == 'S' && "Sector Sizes"@[1] == 'e');
    assert("Sector Sizes"@[6] == ' ');
    assert("Rotation Rate"@.len() == 13 && "Rotation Rate"@[0] == 'R'
        && "Rotation Rate"@[1] == 'o');
    assert("Rotation Rate"@[6] == 'o');
    assert("Form Factor"@.len() == 11 && "Form Factor"@[0] == 'F' && "Form Factor"@[1] == 'o');
    assert("Form Factor"@[6] == 'a');
    assert("ATA Version is"@.len() == 14 && "ATA Version is"@[0] == 'A'
        && "ATA Version is"@[1] == 'T');
    assert("ATA Version is"@[6] == 'r');
    assert("ATA Version"@.len() == 11 && "ATA Version"@[0] == 'A' && "ATA Version"@[1] == 'T');
    assert("ATA Version"@[6] == 'r');
    assert("SATA Version is"@.len() == 15 && "SATA Version is"@[0] == 'S'
        && "SATA Version is"@[1] == 'A');
    assert("SATA Version is"@[6] == 'e');
    assert("SATA Version"@.len() == 12 && "SATA Version"@[0] == 'S' && "SATA Version"@[1] == 'A');
    assert("SATA Version"@[6] == 'e');
    assert("Vendor"@.len() == 6 && "Vendor"@[0] == 'V' && "Vendor"@[1] == 'e');
    assert("Product"@.len() == 7 && "Product"@[0] == 'P' && "Product"@[1] == 'r');
    assert("Product"@[6] == 't');
    assert("Revision"@.len() == 8 && "Revision"@[0] == 'R' && "Revision"@[1] == 'e');
    assert("Revision"@[6] == 'o');
    assert("Device is"@.len() == 9 && "Device is"@[0] == 'D' && "Device is"@[1] == 'e');
    assert("Device is"@[6] == ' ');
    assert("SMART support is"@.len() == 16 && "SMART support is"@[0] == 'S'
        && "SMART support is"@[1] == 'M');
    assert("SMART support is"@[6] == 's');
}

/// Of a line only the fact that it tells is learned.
proof fn lemma_line_learned(disk: DiskView, line: Seq<char>, fact: Fact)
    ensures
        forall|value: Seq<char>| #[trigger]
            tells(line, fact, value) ==> fact.of(line_learned(disk, line)) == Some(value),
        (forall|value: Seq<char>| !#[trigger] tells(line, fact, value)) ==> fact.of(
            line_learned(disk, line),
        ) == fact.of(disk),
{
    if let Some((key, behind)) = split_pair(line, ":"@) {
        let key = trimmed(key);
        let value = trimmed(behind);
        if value.len() > 0 {
            if fact.told_by(key) {
                assert(tells(line, fact, value));
                lemma_told(disk, key, value, fact);
            } else {
                lemma_untold(disk, key, value, fact);
            }
        }
    }
}

proof fn lemma_told(disk: DiskView, key: Seq<char>, value: Seq<char>, fact: Fact)
    requires
        fact.told_by(key),
    ensures
        fact.of(learned(disk, key, value)) == Some(value),
{
    lemma_words_differ(key, fact, Fact::ModelFamily);
    lemma_words_differ(key, fact, Fact::Model);
    lemma_words_differ(key, fact, Fact::Serial);
    lemma_words_differ(key, fact, Fact::Wwn);
    lemma_words_differ(key, fact, Fact::Firmware);
    lemma_words_differ(key, fact, Fact::Capacity);
    lemma_words_differ(key, fact, Fact::SectorSizes);
    lemma_words_differ(key, fact, Fact::RotationRate);
    lemma_words_differ(key, fact, Fact::FormFactor);
    lemma_words_differ(key, fact, Fact::AtaVersion);
    lemma_words_differ(key, fact, Fact::SataVersion);
    lemma_words_differ(key, fact, Fact::Vendor);
    lemma_words_differ(key, fact, Fact::Product);
    lemma_words_differ(key, fact, Fact::Revision);
    lemma_words_differ(key, fact, Fact::Database);
}

proof fn lemma_untold(disk: DiskView, key: Seq<char>, value: Seq<char>, fact: Fact)
    requires
        !fact.told_by(key),
    ensures
        fact.of(learned(disk, key, value)) == fact.of(disk),
{
}

/// A fact is what the last line that tells it says; where no line tells it, it
/// is not known.
pub proof fn law_last_line_tells(all: Seq<Seq<char>>, fact: Fact, i: int, value: Seq<char>)
    ensures
        0 <= i < all.len() && tells(all[i], fact, value) && (forall|j: int, other: Seq<char>|
            i < j < all.len() ==> !#[trigger] tells(all[j], fact, other)) ==> fact.of(
            lines_learned(all),
        ) == Some(value),
        (forall|j: int, other: Seq<char>|
            0 <= j < all.len() ==> !#[trigger] tells(all[j], fact, other)) ==> fact.of(
            lines_learned(all),
        ) is None,
    decreases all.len(),
{
    if all.len() > 0 {
        let before = all.drop_last();
        let last = all.len() - 1;
        law_last_line_tells(before, fact, i, value);
        lemma_line_learned(lines_learned(before), all[last], fact);
        if 0 <= i < last && tells(all[i], fact, value) && (forall|j: int, other: Seq<char>|
            i < j < all.len() ==> !#[trigger] tells(all[j], fact, other)) {
            assert(before[i] == all[i]);
            assert forall|j: int, other: Seq<char>| i < j < before.len() implies !#[trigger] tells(
                before[j],
                fact,
                other,
            ) by {
                assert(before[j] == all[j]);
                assert(!tells(all[j], fact, other));
            }
            assert forall|other: Seq<char>| !#[trigger] tells(all[last], fact, other) by {}
        }
        if forall|j: int, other: Seq<char>|
            0 <= j < all.len() ==> !#[trigger] tells(all[j], fact, other) {
            assert forall|j: int, other: Seq<char>| 0 <= j < before.len() implies !#[trigger] tells(
                before[j],
                fact,
                other,
            ) by {
                assert(before[j] == all[j]);
                assert(!tells(all[j], fact, other));
            }
            assert forall|other: Seq<char>| !#[trigger] tells(all[last], fact, other) by {}
        }
    }
}

/// What is told of the model and of the firmware stands. Where the model is
/// missing, the vendor and the product stand for it, and where the firmware is
/// missing, the revision; nothing else is made up.
pub proof fn law_missing_facts(disk: DiskView, fact: Fact)
    ensures
        fact != Fact::Model && fact != Fact::Firmware ==> fact.of(completed(disk)) == fact.of(disk),
        disk.model is Some ==> completed(disk).model == disk.model,
        disk.firmware is Some ==> completed(disk).firmware == disk.firmware,
        disk.firmware is None ==> completed(disk).firmware == disk.revision,
        disk.model is None && disk.vendor is None ==> completed(disk).model == disk.product,
        disk.model is None && disk.product is None ==> completed(disk).model == disk.vendor,
        disk.model is None && disk.vendor is Some && disk.product is Some ==> completed(disk).model
            == Some(disk.vendor->0 + " "@ + disk.product->0),
{
}

// ── What labels show ─────────────────────────────────────────────────────────

/// Whether a text holds no opening brace.
pub open spec fn unbraced(s: Seq<char>) -> bool {
    forall|i: int| 0 <= i < s.len() ==> (#[trigger] s[i]) != '{'
}

/// A name in braces.
pub open spec fn placeholder(name: Seq<char>) -> Seq<char> {
    seq!['{'] + name + seq!['}']
}

/// What a template may show of a disk, by name.
pub open spec fn shown(name: Seq<char>, device: Seq<char>, disk: DiskView) -> Option<Seq<char>> {
    if name == "device"@ {
        Some(short_name(device))
    } else if name == "path"@ {
        Some(device)
    } else if name == "model_family"@ {
        disk.model_family
    } else if name == "model"@ {
        disk.model
    } else if name == "serial"@ {
        disk.serial
    } else if name == "wwn"@ {
        disk.wwn
    } else if name == "firmware"@ {
        disk.firmware
    } else if name == "capacity"@ {
        disk.capacity
    } else if name == "sector_sizes"@ {
        disk.sector_sizes
    } else if name == "rotation_rate"@ {
        disk.rotation_rate
    } else if name == "form_factor"@ {
        disk.form_factor
    } else if name == "ata_version"@ {
        disk.ata_version
    } else if name == "sata_version"@ {
        disk.sata_version
    } else if name == "vendor"@ {
        disk.vendor
    } else if name == "product"@ {
        disk.product
    } else if name == "revision"@ {
        disk.revision
    } else if name == "database"@ {
        disk.database
    } else if name == "smart_available"@ {
        disk.smart_available
    } else if name == "smart_enabled"@ {
        disk.smart_enabled
    } else {
        None
    }
}

proof fn lemma_other_placeholder(
    before: Seq<char>,
    name: Seq<char>,
    behind: Seq<char>,
    other: Seq<char>,
)
    requires
        unbraced(before),
        unbraced(name),
        unbraced(behind),
        forall|i: int| 0 <= i < name.len() ==> (#[trigger] name[i]) != '}',
        forall|i: int| 0 <= i < other.len() ==> (#[trigger] other[i]) != '}',
        name != other,
    ensures
        !contains_text(before + placeholder(name) + behind, placeholder(other)),
{
    let whole = before + placeholder(name) + behind;
    let pattern = placeholder(other);
    if contains_text(whole, pattern) {
        let at = choose|at: int| stands_at(whole, pattern, at);
        let part = whole.subrange(at, at + pattern.len());
        let b = before.len() as int;
        assert(part[0] == '{');
        assert(whole[at] == '{');
        if at < b {
            assert(whole[at] == before[at]);
        } else if at > b {
            if at <= b + name.len() {
                assert(whole[at] == name[at - b - 1]);
            } else if at > b + name.len() + 1 {
                assert(whole[at] == behind[at - b - name.len() - 2]);
            }
        } else {
            assert(part.last() == '}');
            if other.len() < name.len() {
                assert(part[other.len() as int + 1] == '}');
                assert(whole[b + 1 + other.len()] == name[other.len() as int]);
            } else if other.len() > name.len() {
                assert(whole[b + 1 + name.len()] == '}');
                assert(part[name.len() as int + 1] == other[name.len() as int]);
            } else {
                assert forall|i: int| 0 <= i < name.len() implies name[i] == other[i] by {
                    assert(part[i + 1] == other[i]);
                    assert(whole[b + 1 + i] == name[i]);
                }
                assert(name =~= other);
            }
        }
    }
}

proof fn lemma_no_placeholder(s: Seq<char>, other: Seq<char>)
    requires
        unbraced(s),
    ensures
        !contains_text(s, placeholder(other)),
{
    let pattern = placeholder(other);
    if contains_text(s, pattern) {
        let at = choose|at: int| stands_at(s, pattern, at);
        assert(s.subrange(at, at + pattern.len())[0] == '{');
        assert(s[at] == '{');
    }
}

/// One placeholder after the other: only the one that stands in the text shows.
proof fn lemma_filled_in(
    text: Seq<char>,
    before: Seq<char>,
    name: Seq<char>,
    value: Seq<char>,
    behind: Seq<char>,
    other: Seq<char>,
    by: Seq<char>,
)
    requires
        unbraced(before),
        unbraced(name),
        unbraced(value),
        unbraced(behind),
        forall|i: int| 0 <= i < name.len() ==> (#[trigger] name[i]) != '}',
        forall|i: int| 0 <= i < other.len() ==> (#[trigger] other[i]) != '}',
        other == name ==> by == value,
        text == before + placeholder(name) + behind || text == before + value + behind,
    ensures
        replaced(text, placeholder(other), by) == (if other == name {
            before + value + behind
        } else {
            text
        }),
{
    let pattern = placeholder(other);
    let done = before + value + behind;
    assert forall|i: int| 0 <= i < done.len() implies (#[trigger] done[i]) != '{' by {
        if i < before.len() {
            assert(done[i] == before[i]);
        } else if i < before.len() + value.len() {
            assert(done[i] == value[i - before.len()]);
        } else {
            assert(done[i] == behind[i - before.len() - value.len()]);
        }
    }
    lemma_no_placeholder(done, other);
    law_replaced(done, pattern, by, Seq::empty());
    if text != done {
        if other == name {
            lemma_no_placeholder(behind, other);
            law_replaced(behind, pattern, by, Seq::empty());
            let whole = before + pattern + behind;
            assert forall|j: int| 0 <= j < before.len() implies !stands_at(whole, pattern, j) by {
                if stands_at(whole, pattern, j) {
                    assert(whole.subrange(j, j + pattern.len())[0] == '{');
                    assert(whole[j] == before[j]);
                }
            }
            law_replaced(before, pattern, by, behind);
        } else {
            lemma_other_placeholder(before, name, behind, other);
            law_replaced(text, pattern, by, Seq::empty());
        }
    }
}

/// A label shows what its template asks for by name, in the place where it asks,
/// and the other texts of the template as they are.
pub proof fn law_label_shows(
    before: Seq<char>,
    name: Seq<char>,
    behind: Seq<char>,
    device: Seq<char>,
    disk: DiskView,
    value: Seq<char>,
)
    requires
        unbraced(before),
        unbraced(behind),
        unbraced(value),
        shown(name, device, disk) == Some(value),
    ensures
        disk_label(before + placeholder(name) + behind, device, disk) == normalized_label(
            before + value + behind,
            "disk temperature"@,
        ),
{
    lemma_names_differ();
    let t0 = before + placeholder(name) + behind;
    let done = before + value + behind;
    lemma_filled_in(t0, before, name, value, behind, "device"@, short_name(device));
    let t1 = replaced(t0, "{device}"@, short_name(device));
    lemma_filled_in(t1, before, name, value, behind, "path"@, device);
    let t2 = replaced(t1, "{path}"@, device);
    lemma_filled_in(t2, before, name, value, behind, "model_family"@, or_empty(disk.model_family));
    let t3 = replaced(t2, "{model_family}"@, or_empty(disk.model_family));
    lemma_filled_in(t3, before, name, value, behind, "model"@, or_empty(disk.model));
    let t4 = replaced(t3, "{model}"@, or_empty(disk.model));
    lemma_filled_in(t4, before, name, value, behind, "serial"@, or_empty(disk.serial));
    let t5 = replaced(t4, "{serial}"@, or_empty(disk.serial));
    lemma_filled_in(t5, before, name, value, behind, "wwn"@, or_empty(disk.wwn));
    let t6 = replaced(t5, "{wwn}"@, or_empty(disk.wwn));
    lemma_filled_in(t6, before, name, value, behind, "firmware"@, or_empty(disk.firmware));
    let t7 = replaced(t6, "{firmware}"@, or_empty(disk.firmware));
    lemma_filled_in(t7, before, name, value, behind, "capacity"@, or_empty(disk.capacity));
    let t8 = replaced(t7, "{capacity}"@, or_empty(disk.capacity));
    lemma_filled_in(t8, before, name, value, behind, "sector_sizes"@, or_empty(disk.sector_sizes));
    let t9 = replaced(t8, "{sector_sizes}"@, or_empty(disk.sector_sizes));
    lemma_filled_in(t9, before, name, value, behind, "rotation_rate"@, or_empty(disk.rotation_rate));
    let t10 = replaced(t9, "{rotation_rate}"@, or_empty(disk.rotation_rate));
    lemma_filled_in(t10, before, name, value, behind, "form_factor"@, or_empty(disk.form_factor));
    let t11 = replaced(t10, "{form_factor}"@, or_empty(disk.form_factor));
    lemma_filled_in(t11, before, name, value, behind, "ata_version"@, or_empty(disk.ata_version));
    let t12 = replaced(t11, "{ata_version}"@, or_empty(disk.ata_version));
    lemma_filled_in(t12, before, name, value, behind, "sata_version"@, or_empty(disk.sata_version));
    let t13 = replaced(t12, "{sata_version}"@, or_empty(disk.sata_version));
    lemma_filled_in(t13, before, name, value, behind, "vendor"@, or_empty(disk.vendor));
    let t14 = replaced(t13, "{vendor}"@, or_empty(disk.vendor));
    lemma_filled_in(t14, before, name, value, behind, "product"@, or_empty(disk.product));
    let t15 = replaced(t14, "{product}"@, or_empty(disk.product));
    lemma_filled_in(t15, before, name, value, behind, "revision"@, or_empty(disk.revision));
    let t16 = replaced(t15, "{revision}"@, or_empty(disk.revision));
    lemma_filled_in(t16, before, name, value, behind, "database"@, or_empty(disk.database));
    let t17 = replaced(t16, "{database}"@, or_empty(disk.database));
    lemma_filled_in(t17, before, name, value, behind, "smart_available"@, or_empty(disk.smart_available));
    let t18 = replaced(t17, "{smart_available}"@, or_empty(disk.smart_available));
    lemma_filled_in(t18, before, name, value, behind, "smart_enabled"@, or_empty(disk.smart_enabled));
    let t19 = replaced(t18, "{smart_enabled}"@, or_empty(disk.smart_enabled));
    assert(t19 == done);
}

/// A template that asks for nothing is the label.
pub proof fn law_plain_label(template: Seq<char>, device: Seq<char>, disk: DiskView)
    requires
        unbraced(template),
    ensures
        disk_label(template, device, disk) == normalized_label(template, "disk temperature"@),
{
    lemma_names_differ();
    lemma_no_placeholder(template, "device"@);
    law_replaced(template, "{device}"@, short_name(device), Seq::empty());
    lemma_no_placeholder(template, "path"@);
    law_replaced(template, "{path}"@, device, Seq::empty());
    lemma_no_placeholder(template, "model_family"@);
    law_replaced(template, "{model_family}"@, or_empty(disk.model_family), Seq::empty());
    lemma_no_placeholder(template, "model"@);
    law_replaced(template, "{model}"@, or_empty(disk.model), Seq::empty());
    lemma_no_placeholder(template, "serial"@);
    law_replaced(template, "{serial}"@, or_empty(disk.serial), Seq::empty());
    lemma_no_placeholder(template, "wwn"@);
    law_replaced(template, "{wwn}"@, or_empty(disk.wwn), Seq::empty());
    lemma_no_placeholder(template, "firmware"@);
    law_replaced(template, "{firmware}"@, or_empty(disk.firmware), Seq::empty());
    lemma_no_placeholder(template, "capacity"@);
    law_replaced(template, "{capacity}"@, or_empty(disk.capacity), Seq::empty());
    lemma_no_placeholder(template, "sector_sizes"@);
    law_replaced(template, "{sector_sizes}"@, or_empty(disk.sector_sizes), Seq::empty());
    lemma_no_placeholder(template, "rotation_rate"@);
    law_replaced(template, "{rotation_rate}"@, or_empty(disk.rotation_rate), Seq::empty());
    lemma_no_placeholder(template, "form_factor"@);
    law_replaced(template, "{form_factor}"@, or_empty(disk.form_factor), Seq::empty());
    lemma_no_placeholder(template, "ata_version"@);
    law_replaced(template, "{ata_version}"@, or_empty(disk.ata_version), Seq::empty());
    lemma_no_placeholder(template, "sata_version"@);
    law_replaced(template, "{sata_version}"@, or_empty(disk.sata_version), Seq::empty());
    lemma_no_placeholder(template, "vendor"@);
    law_replaced(template, "{vendor}"@, or_empty(disk.vendor), Seq::empty());
    lemma_no_placeholder(template, "product"@);
    law_replaced(template, "{product}"@, or_empty(disk.product), Seq::empty());
    lemma_no_placeholder(template, "revision"@);
    law_replaced(template, "{revision}"@, or_empty(disk.revision), Seq::empty());
    lemma_no_placeholder(template, "database"@);
    law_replaced(template, "{database}"@, or_empty(disk.database), Seq::empty());
    lemma_no_placeholder(template, "smart_available"@);
    law_replaced(template, "{smart_available}"@, or_empty(disk.smart_available), Seq::empty());
    lemma_no_placeholder(template, "smart_enabled"@);
    law_replaced(template, "{smart_enabled}"@, or_empty(disk.smart_enabled), Seq::empty());
}

proof fn lemma_names_differ()
    ensures
        "{device}"@ == placeholder("device"@),
        forall|i: int|
            0 <= i < "device"@.len() ==> (#[trigger] "device"@[i]) != '}' && "device"@[i] != '{',
        "device"@.len() == 6 && "device"@[0] == 'd' && "device"@[1] == 'e',
        "{path}"@ == placeholder("path"@),
        forall|i: int|
            0 <= i < "path"@.len() ==> (#[trigger] "path"@[i]) != '}' && "path"@[i] != '{',
        "path"@.len() == 4 && "path"@[0] == 'p' && "path"@[1] == 'a',
        "{model_family}"@ == placeholder("model_family"@),
        forall|i: int|
            0 <= i < "model_family"@.len() ==> (#[trigger] "model_family"@[i]) != '}'
                && "model_family"@[i] != '{',
        "model_family"@.len() == 12 && "model_family"@[0] == 'm' && "model_family"@[1] == 'o',
        "{model}"@ == placeholder("model"@),
        forall|i: int|
            0 <= i < "model"@.len() ==> (#[trigger] "model"@[i]) != '}' && "model"@[i] != '{',
        "model"@.len() == 5 && "model"@[0] == 'm' && "model"@[1] == 'o',
        "{serial}"@ == placeholder("serial"@),
        forall|i: int|
            0 <= i < "serial"@.len() ==> (#[trigger] "serial"@[i]) != '}' && "serial"@[i] != '{',
        "serial"@.len() == 6 && "serial"@[0] == 's' && "serial"@[1] == 'e',
        "{wwn}"@ == placeholder("wwn"@),
        forall|i: int|
            0 <= i < "wwn"@.len() ==> (#[trigger] "wwn"@[i]) != '}' && "wwn"@[i] != '{',
        "wwn"@.len() == 3 && "wwn"@[0] == 'w' && "wwn"@[1] == 'w',
        "{firmware}"@ == placeholder("firmware"@),
        forall|i: int|
            0 <= i < "firmware"@.len() ==> (#[trigger] "firmware"@[i]) != '}'
                && "firmware"@[i] != '{',
        "firmware"@.len() == 8 && "firmware"@[0] == 'f' && "firmware"@[1] == 'i',
        "{capacity}"@ == placeholder("capacity"@),
        forall|i: int|
            0 <= i < "capacity"@.len() ==> (#[trigger] "capacity"@[i]) != '}'
                && "capacity"@[i] != '{',
        "capacity"@.len() == 8 && "capacity"@[0] == 'c' && "capacity"@[1] == 'a',
        "{sector_sizes}"@ == placeholder("sector_sizes"@),
        forall|i: int|
            0 <= i < "sector_sizes"@.len() ==> (#[trigger] "sector_sizes"@[i]) != '}'
                && "sector_sizes"@[i] != '{',
        "sector_sizes"@.len() == 12 && "sector_sizes"@[0] == 's' && "sector_sizes"@[1] == 'e',
        "{rotation_rate}"@ == placeholder("rotation_rate"@),
        forall|i: int|
            0 <= i < "rotation_rate"@.len() ==> (#[trigger] "rotation_rate"@[i]) != '}'
                && "rotation_rate"@[i] != '{',
        "rotation_rate"@.len() == 13 && "rotation_rate"@[0] == 'r' && "rotation_rate"@[1] == 'o',
        "{form_factor}"@ == placeholder("form_factor"@),
        forall|i: int|
            0 <= i < "form_factor"@.len() ==> (#[trigger] "form_factor"@[i]) != '}'
                && "form_factor"@[i] != '{',
        "form_factor"@.len() == 11 && "form_factor"@[0] == 'f' && "form_factor"@[1] == 'o',
        "{ata_version}"@ == placeholder("ata_version"@),
        forall|i: int|
            0 <= i < "ata_version"@.len() ==> (#[trigger] "ata_version"@[i]) != '}'
                && "ata_version"@[i] != '{',
        "ata_version"@.len() == 11 && "ata_version"@[0] == 'a' && "ata_version"@[1] == 't',
        "{sata_version}"@ == placeholder("sata_version"@),
        forall|i: int|
            0 <= i < "sata_version"@.len() ==> (#[trigger] "sata_version"@[i]) != '}'
                && "sata_version"@[i] != '{',
        "sata_version"@.len() == 12 && "sata_version"@[0] == 's' && "sata_version"@[1] == 'a',
        "{vendor}"@ == placeholder("vendor"@),
        forall|i: int|
            0 <= i < "vendor"@.len() ==> (#[trigger] "vendor"@[i]) != '}' && "vendor"@[i] != '{',
        "vendor"@.len() == 6 && "vendor"@[0] == 'v' && "vendor"@[1] == 'e',
        "{product}"@ == placeholder("product"@),
        forall|i: int|
            0 <= i < "product"@.len() ==> (#[trigger] "product"@[i]) != '}' && "product"@[i] != '{',
        "product"@.len() == 7 && "product"@[0] == 'p' && "product"@[1] == 'r',
        "{revision}"@ == placeholder("revision"@),
        forall|i: int|
            0 <= i < "revision"@.len() ==> (#[trigger] "revision"@[i]) != '}'
                && "revision"@[i] != '{',
        "revision"@.len() == 8 && "revision"@[0] == 'r' && "revision"@[1] == 'e',
        "{database}"@ == placeholder("database"@),
        forall|i: int|
            0 <= i < "database"@.len() ==> (#[trigger] "database"@[i]) != '}'
                && "database"@[i] != '{',
        "database"@.len() == 8 && "database"@[0] == 'd' && "database"@[1] == 'a',
        "{smart_available}"@ == placeholder("smart_available"@),
        forall|i: int|
            0 <= i < "smart_available"@.len() ==> (#[trigger] "smart_available"@[i]) != '}'
                && "smart_available"@[i] != '{',
        "smart_available"@.len() == 15 && "smart_available"@[0] == 's'
            && "smart_available"@[1] == 'm',
        "{smart_enabled}"@ == placeholder("smart_enabled"@),
        forall|i: int|
            0 <= i < "smart_enabled"@.len() ==> (#[trigger] "smart_enabled"@[i]) != '}'
                && "smart_enabled"@[i] != '{',
        "smart_enabled"@.len() == 13 && "smart_enabled"@[0] == 's' && "smart_enabled"@[1] == 'm',
{
    reveal_strlit("device");
    reveal_strlit("{device}");
    assert("{device}"@ =~= placeholder("device"@));
    reveal_strlit("path");
    reveal_strlit("{path}");
    assert("{path}"@ =~= placeholder("path"@));
    reveal_strlit("model_family");
    reveal_strlit("{model_family}");
    assert("{model_family}"@ =~= placeholder("model_family"@));
    reveal_strlit("model");
    reveal_strlit("{model}");
    assert("{model}"@ =~= placeholder("model"@));
    reveal_strlit("serial");
    reveal_strlit("{serial}");
    assert("{serial}"@ =~= placeholder("serial"@));
    reveal_strlit("wwn");
    reveal_strlit("{wwn}");
    assert("{wwn}"@ =~= placeholder("wwn"@));
    reveal_strlit("firmware");
    reveal_strlit("{firmware}");
    assert("{firmware}"@ =~= placeholder("firmware"@));
    reveal_strlit("capacity");
    reveal_strlit("{capacity}");
    assert("{capacity}"@ =~= placeholder("capacity"@));
    reveal_strlit("sector_sizes");
    reveal_strlit("{sector_sizes}");
    assert("{sector_sizes}"@ =~= placeholder("sector_sizes"@));
    reveal_strlit("rotation_rate");
    reveal_strlit("{rotation_rate}");
    assert("{rotation_rate}"@ =~= placeholder("rotation_rate"@));
    reveal_strlit("form_factor");
    reveal_strlit("{form_factor}");
    assert("{form_factor}"@ =~= placeholder("form_factor"@));
    reveal_strlit("ata_version");
    reveal_strlit("{ata_version}");
    assert("{ata_version}"@ =~= placeholder("ata_version"@));
    reveal_strlit("sata_version");
    reveal_strlit("{sata_version}");
    assert("{sata_version}"@ =~= placeholder("sata_version"@));
    reveal_strlit("vendor");
    reveal_strlit("{vendor}");
    assert("{vendor}"@ =~= placeholder("vendor"@));
    reveal_strlit("product");
    reveal_strlit("{product}");
    assert("{product}"@ =~= placeholder("product"@));
    reveal_strlit("revision");
    reveal_strlit("{revision}");
    assert("{revision}"@ =~= placeholder("revision"@));
    reveal_strlit("database");
    reveal_strlit("{database}");
    assert("{database}"@ =~= placeholder("database"@));
    reveal_strlit("smart_available");
    reveal_strlit("{smart_available}");
    assert("{smart_available}"@ =~= placeholder("smart_available"@));
    reveal_strlit("smart_enabled");
    reveal_strlit("{smart_enabled}");
    assert("{smart_enabled}"@ =~= placeholder("smart_enabled"@));
}

} // verus!
