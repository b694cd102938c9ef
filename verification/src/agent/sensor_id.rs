//! Identifiers for sensors that stay the same across restarts.

use crate::encoding::{lemma_encode_ascii, lemma_scalar};
use crate::protocol::{valid_text, MAX_SENSOR_ID_BYTES};
use crate::text::{is_alphanumeric, is_digit, joined, lower_char, lowercase, string_of, texts};
use vstd::prelude::*;
use vstd::string::StringSliceAdditionalSpecFns;
use vstd::utf8::{encode_scalar, encode_utf8};

verus! {

/// How long an identifier grows before the rest of a part is left out.
pub const SENSOR_ID_TARGET: usize = 120;

/// Whether an identifier ends with an underscore.
pub open spec fn ends_open(out: Seq<char>) -> bool {
    out.len() > 0 && out.last() == '_'
}

/// The letter or digit that a byte stands for, in small letters, if any.
pub open spec fn id_char(b: u8) -> Option<char> {
    if 0x30 <= b <= 0x39 || 0x61 <= b <= 0x7a {
        Some(b as char)
    } else if 0x41 <= b <= 0x5a {
        Some((b + 32) as char)
    } else {
        None
    }
}

/// One more byte: letters and digits stay, and each run of anything else
/// becomes one underscore.
pub open spec fn id_step(out: Seq<char>, b: u8) -> Seq<char> {
    match id_char(b) {
        Some(c) => out.push(c),
        None => if ends_open(out) {
            out
        } else {
            out.push('_')
        },
    }
}

/// The bytes of a part, until the identifier is long enough.
pub open spec fn id_absorb(out: Seq<char>, bytes: Seq<u8>) -> Seq<char>
    decreases bytes.len(),
{
    if bytes.len() == 0 {
        out
    } else {
        let next = id_step(out, bytes[0]);
        if next.len() >= SENSOR_ID_TARGET {
            next
        } else {
            id_absorb(next, bytes.skip(1))
        }
    }
}

/// An identifier closed by an underscore.
pub open spec fn id_close(out: Seq<char>) -> Seq<char> {
    if ends_open(out) {
        out
    } else {
        out.push('_')
    }
}

/// The parts, each closed by an underscore.
pub open spec fn id_parts(parts: Seq<Seq<char>>) -> Seq<char>
    decreases parts.len(),
{
    if parts.len() == 0 {
        Seq::empty()
    } else {
        id_close(id_absorb(id_parts(parts.drop_last()), encode_utf8(parts.last())))
    }
}

/// A text without the underscores at its end.
pub open spec fn id_trim(out: Seq<char>) -> Seq<char>
    decreases out.len(),
{
    if ends_open(out) {
        id_trim(out.drop_last())
    } else {
        out
    }
}

/// The identifier made of some parts.
pub open spec fn stable_id(parts: Seq<Seq<char>>) -> Seq<char> {
    let out = id_trim(id_parts(parts));
    if out.len() == 0 {
        "persistent_sensor"@
    } else {
        out
    }
}

fn open_end(out: &[char]) -> (yes: bool)
    ensures
        yes == ends_open(out@),
{
    out.len() > 0 && out[out.len() - 1] == '_'
}

fn push_byte(out: &mut Vec<char>, b: u8)
    ensures
        final(out)@ == id_step(old(out)@, b),
{
    if (0x30 <= b && b <= 0x39) || (0x61 <= b && b <= 0x7a) {
        out.push(b as char);
    } else if 0x41 <= b && b <= 0x5a {
        out.push((b + 32) as char);
    } else if !open_end(out) {
        out.push('_');
    }
}

fn absorb(out: &mut Vec<char>, part: &str)
    ensures
        final(out)@ == id_absorb(old(out)@, encode_utf8(part@)),
{
    let bytes = part.as_bytes();
    let ghost whole = id_absorb(out@, bytes@);
    let mut i: usize = 0;
    assert(bytes@.skip(0) =~= bytes@);
    while i < bytes.len()
        invariant_except_break
            i <= bytes@.len(),
            id_absorb(out@, bytes@.skip(i as int)) == whole,
        ensures
            out@ == whole,
        decreases bytes@.len() - i,
    {
        assert(bytes@.skip(i as int)[0] == bytes@[i as int]);
        assert(bytes@.skip(i as int).skip(1) =~= bytes@.skip(i as int + 1));
        push_byte(out, bytes[i]);
        if out.len() >= SENSOR_ID_TARGET {
            break;
        }
        i = i + 1;
    }
}

/// The identifier made of some parts: letters and digits in small letters,
/// with single underscores between them.
pub fn stable_sensor_id(parts: &[String]) -> (id: String)
    ensures
        id@ == stable_id(texts(parts@)),
{
    let mut out: Vec<char> = Vec::new();
    let ghost all = texts(parts@);
    assert(all.take(0) =~= Seq::<Seq<char>>::empty());
    for i in 0..parts.len()
        invariant
            all == texts(parts@),
            out@ == id_parts(all.take(i as int)),
    {
        proof {
            assert(all.take(i as int + 1).drop_last() =~= all.take(i as int));
            assert(all.take(i as int + 1).last() == parts@[i as int]@);
        }
        absorb(&mut out, &parts[i]);
        if !open_end(&out) {
            out.push('_');
        }
    }
    assert(all.take(all.len() as int) =~= all);
    while open_end(&out)
        invariant
            id_trim(out@) == id_trim(id_parts(all)),
        decreases out@.len(),
    {
        let ghost before = out@;
        out.pop();
        assert(out@ =~= before.drop_last());
    }
    if out.len() == 0 {
        "persistent_sensor".to_string()
    } else {
        string_of(&out)
    }
}

/// The characters of an identifier.
pub open spec fn in_id(c: char) -> bool {
    'a' <= c <= 'z' || is_digit(c) || c == '_'
}

/// Whether a text holds characters of an identifier only.
pub open spec fn id_shaped(s: Seq<char>) -> bool {
    forall|i: int| 0 <= i < s.len() ==> in_id(#[trigger] s[i])
}

/// Whether no two underscores stand side by side.
pub open spec fn single_underscores(s: Seq<char>) -> bool {
    forall|i: int, j: int|
        0 <= i && j == i + 1 && j < s.len() && #[trigger] s[i] == '_' ==> #[trigger] s[j] != '_'
}

/// Whether a text holds anything but underscores.
pub open spec fn says_something(s: Seq<char>) -> bool {
    exists|i: int| 0 <= i < s.len() && #[trigger] s[i] != '_'
}

/// Whether a part holds a letter or a digit.
pub open spec fn has_letter(part: Seq<char>) -> bool {
    exists|i: int| 0 <= i < part.len() && is_alphanumeric(#[trigger] part[i])
}

spec fn has_id_byte(bytes: Seq<u8>) -> bool {
    exists|i: int| 0 <= i < bytes.len() && id_char(#[trigger] bytes[i]) is Some
}

proof fn lemma_letter(c: char, b: u8)
    requires
        b == c as u32,
    ensures
        id_char(b) is Some == is_alphanumeric(c),
{
}

proof fn lemma_letters(part: Seq<char>)
    ensures
        has_id_byte(encode_utf8(part)) == has_letter(part),
    decreases part.len(),
{
    if part.len() > 0 {
        let c = part[0];
        let rest = part.drop_first();
        let head = encode_scalar(c as u32);
        let bytes = encode_utf8(part);
        let tail = encode_utf8(rest);
        lemma_letters(rest);
        lemma_scalar(c);
        assert(bytes =~= head + tail);
        if has_letter(part) {
            let i = choose|i: int| 0 <= i < part.len() && is_alphanumeric(#[trigger] part[i]);
            if i == 0 {
                assert(bytes[0] == head[0]);
                assert(id_char(bytes[0]) is Some);
            } else {
                assert(rest[i - 1] == part[i]);
                let k = choose|k: int| 0 <= k < tail.len() && id_char(#[trigger] tail[k]) is Some;
                assert(bytes[head.len() + k] == tail[k]);
            }
        }
        if has_id_byte(bytes) {
            let k = choose|k: int| 0 <= k < bytes.len() && id_char(#[trigger] bytes[k]) is Some;
            if k < head.len() {
                assert(bytes[k] == head[k]);
                if c as u32 > 0x7f {
                    assert(head[k] >= 0x80);
                }
                lemma_letter(c, bytes[k]);
                assert(is_alphanumeric(part[0]));
            } else {
                assert(bytes[k] == tail[k - head.len()]);
                let i = choose|i: int| 0 <= i < rest.len() && is_alphanumeric(#[trigger] rest[i]);
                assert(rest[i] == part[i + 1]);
            }
        }
    }
}

proof fn lemma_absorb_says(out: Seq<char>, bytes: Seq<u8>)
    requires
        single_underscores(out),
    ensures
        says_something(id_absorb(out, bytes)) == (says_something(out) || has_id_byte(bytes)),
    decreases bytes.len(),
{
    if bytes.len() > 0 {
        let b = bytes[0];
        let rest = bytes.skip(1);
        let next = id_step(out, b);
        lemma_step(out, b);
        assert(has_id_byte(bytes) == (id_char(b) is Some || has_id_byte(rest))) by {
            if has_id_byte(bytes) {
                let k = choose|k: int|
                    0 <= k < bytes.len() && id_char(#[trigger] bytes[k]) is Some;
                if k > 0 {
                    assert(rest[k - 1] == bytes[k]);
                }
            }
            if has_id_byte(rest) {
                let k = choose|k: int| 0 <= k < rest.len() && id_char(#[trigger] rest[k]) is Some;
                assert(rest[k] == bytes[k + 1]);
            }
        }
        if !says_something(next) && next.len() > 1 {
            assert(next[0] == '_');
            assert(next[1] == '_');
        }
        if next.len() < SENSOR_ID_TARGET {
            lemma_absorb_says(next, rest);
        }
    }
}

proof fn lemma_step(out: Seq<char>, b: u8)
    ensures
        single_underscores(out) ==> single_underscores(id_step(out, b)),
        says_something(id_step(out, b)) == (says_something(out) || id_char(b) is Some),
{
    let next = id_step(out, b);
    if let Some(c) = id_char(b) {
        assert(c != '_');
        assert(next[out.len() as int] == c);
    }
    if says_something(out) {
        let i = choose|i: int| 0 <= i < out.len() && #[trigger] out[i] != '_';
        assert(next[i] == out[i]);
    }
    if says_something(next) {
        let i = choose|i: int| 0 <= i < next.len() && #[trigger] next[i] != '_';
        if i < out.len() {
            assert(out[i] == next[i]);
        }
    }
}

proof fn lemma_close(out: Seq<char>)
    ensures
        single_underscores(out) ==> single_underscores(id_close(out)),
        says_something(id_close(out)) == says_something(out),
{
    let closed = id_close(out);
    if says_something(out) {
        let i = choose|i: int| 0 <= i < out.len() && #[trigger] out[i] != '_';
        assert(closed[i] == out[i]);
    }
    if says_something(closed) {
        let i = choose|i: int| 0 <= i < closed.len() && #[trigger] closed[i] != '_';
        assert(out[i] == closed[i]);
    }
}

proof fn lemma_trim_says(out: Seq<char>)
    ensures
        says_something(out) == (id_trim(out).len() > 0),
    decreases out.len(),
{
    if ends_open(out) {
        let shorter = out.drop_last();
        lemma_trim_says(shorter);
        if says_something(out) {
            let i = choose|i: int| 0 <= i < out.len() && #[trigger] out[i] != '_';
            assert(shorter[i] == out[i]);
        }
        if says_something(shorter) {
            let i = choose|i: int| 0 <= i < shorter.len() && #[trigger] shorter[i] != '_';
            assert(shorter[i] == out[i]);
        }
    } else if out.len() > 0 {
        assert(out[out.len() - 1] != '_');
    }
}

proof fn lemma_parts_say(parts: Seq<Seq<char>>)
    ensures
        says_something(id_parts(parts)) <==> exists|i: int|
            0 <= i < parts.len() && has_letter(#[trigger] parts[i]),
    decreases parts.len(),
{
    if parts.len() > 0 {
        let front = parts.drop_last();
        lemma_parts(front);
        lemma_parts_say(front);
        lemma_letters(parts.last());
        lemma_absorb_says(id_parts(front), encode_utf8(parts.last()));
        lemma_close(id_absorb(id_parts(front), encode_utf8(parts.last())));
        if exists|i: int| 0 <= i < front.len() && has_letter(#[trigger] front[i]) {
            let i = choose|i: int| 0 <= i < front.len() && has_letter(#[trigger] front[i]);
            assert(parts[i] == front[i]);
        }
        if exists|i: int| 0 <= i < parts.len() && has_letter(#[trigger] parts[i]) {
            let i = choose|i: int| 0 <= i < parts.len() && has_letter(#[trigger] parts[i]);
            if i < front.len() {
                assert(front[i] == parts[i]);
            }
        }
        if has_letter(parts.last()) {
            assert(has_letter(parts[parts.len() - 1]));
        }
    }
}

proof fn lemma_absorb_same(out: Seq<char>, a: Seq<u8>, b: Seq<u8>)
    requires
        a.len() == b.len(),
        forall|i: int| 0 <= i < a.len() ==> id_char(#[trigger] a[i]) == id_char(b[i]),
    ensures
        id_absorb(out, a) == id_absorb(out, b),
    decreases a.len(),
{
    if a.len() > 0 {
        assert(id_char(a[0]) == id_char(b[0]));
        let x = a.skip(1);
        let y = b.skip(1);
        assert forall|i: int| 0 <= i < x.len() implies id_char(#[trigger] x[i]) == id_char(
            y[i],
        ) by {
            assert(x[i] == a[i + 1]);
            assert(y[i] == b[i + 1]);
        }
        lemma_absorb_same(id_step(out, a[0]), x, y);
    }
}

proof fn lemma_lower_bytes(part: Seq<char>)
    ensures
        encode_utf8(lowercase(part)).len() == encode_utf8(part).len(),
        forall|i: int|
            0 <= i < encode_utf8(part).len() ==> id_char(#[trigger] encode_utf8(part)[i])
                == id_char(encode_utf8(lowercase(part))[i]),
    decreases part.len(),
{
    let small = lowercase(part);
    if part.len() > 0 {
        let c = part[0];
        let rest = part.drop_first();
        lemma_lower_bytes(rest);
        assert(small[0] == lower_char(c));
        assert(small.drop_first() =~= lowercase(rest));
        lemma_scalar(c);
        lemma_scalar(lower_char(c));
        let a = encode_scalar(c as u32);
        let b = encode_scalar(lower_char(c) as u32);
        assert(encode_utf8(part) =~= a + encode_utf8(rest));
        assert(encode_utf8(small) =~= b + encode_utf8(lowercase(rest)));
        assert forall|i: int| 0 <= i < encode_utf8(part).len() implies id_char(
            #[trigger] encode_utf8(part)[i],
        ) == id_char(encode_utf8(small)[i]) by {
            if i < a.len() {
                assert(encode_utf8(part)[i] == a[i]);
                assert(encode_utf8(small)[i] == b[i]);
                if c as u32 <= 0x7f {
                    assert(id_char(a[0]) == id_char(b[0]));
                }
            } else {
                assert(encode_utf8(part)[i] == encode_utf8(rest)[i - a.len()]);
                assert(encode_utf8(small)[i] == encode_utf8(lowercase(rest))[i - a.len()]);
            }
        }
    }
}

proof fn lemma_same_parts(a: Seq<Seq<char>>, b: Seq<Seq<char>>)
    requires
        a.len() == b.len(),
        forall|i: int| 0 <= i < a.len() ==> lowercase(#[trigger] a[i]) == lowercase(b[i]),
    ensures
        id_parts(a) == id_parts(b),
    decreases a.len(),
{
    if a.len() > 0 {
        let x = a.drop_last();
        let y = b.drop_last();
        assert forall|i: int| 0 <= i < x.len() implies lowercase(#[trigger] x[i]) == lowercase(
            y[i],
        ) by {
            assert(x[i] == a[i]);
            assert(y[i] == b[i]);
        }
        lemma_same_parts(x, y);
        let out = id_parts(x);
        assert(lowercase(a[a.len() - 1]) == lowercase(b[a.len() - 1]));
        lemma_lower_bytes(a.last());
        lemma_lower_bytes(b.last());
        lemma_absorb_same(out, encode_utf8(a.last()), encode_utf8(lowercase(a.last())));
        lemma_absorb_same(out, encode_utf8(b.last()), encode_utf8(lowercase(b.last())));
    }
}

proof fn lemma_absorb(out: Seq<char>, bytes: Seq<u8>)
    requires
        id_shaped(out),
        single_underscores(out),
    ensures
        id_shaped(id_absorb(out, bytes)),
        single_underscores(id_absorb(out, bytes)),
        id_absorb(out, bytes).len() <= (if out.len() + 1 > SENSOR_ID_TARGET {
            out.len() + 1
        } else {
            SENSOR_ID_TARGET as nat
        }),
    decreases bytes.len(),
{
    if bytes.len() > 0 {
        let b = bytes[0];
        let next = id_step(out, b);
        if let Some(c) = id_char(b) {
            assert(in_id(c)) by {
                if 0x41 <= b <= 0x5a {
                    assert(c as u32 == b + 32);
                } else {
                    assert(c as u32 == b);
                }
            }
        }
        assert(id_shaped(next));
        lemma_step(out, b);
        if next.len() < SENSOR_ID_TARGET {
            lemma_absorb(next, bytes.skip(1));
        }
    }
}

proof fn lemma_parts(parts: Seq<Seq<char>>)
    ensures
        id_shaped(id_parts(parts)),
        single_underscores(id_parts(parts)),
        id_parts(parts).len() <= SENSOR_ID_TARGET + 2 * parts.len(),
    decreases parts.len(),
{
    if parts.len() > 0 {
        lemma_parts(parts.drop_last());
        lemma_absorb(id_parts(parts.drop_last()), encode_utf8(parts.last()));
        lemma_close(id_absorb(id_parts(parts.drop_last()), encode_utf8(parts.last())));
    }
}

proof fn lemma_trim(out: Seq<char>)
    requires
        id_shaped(out),
        single_underscores(out),
    ensures
        single_underscores(id_trim(out)),
        id_shaped(id_trim(out)),
        id_trim(out).len() <= out.len(),
        !ends_open(id_trim(out)),
    decreases out.len(),
{
    if ends_open(out) {
        lemma_trim(out.drop_last());
    }
}

/// An identifier is made of small letters, digits and single underscores, does
/// not end with an underscore, and is hardly longer than its target.
pub proof fn law_stable_id_shape(parts: Seq<Seq<char>>)
    ensures
        id_shaped(stable_id(parts)),
        stable_id(parts).len() > 0,
        single_underscores(stable_id(parts)),
        !ends_open(stable_id(parts)),
        stable_id(parts).len() <= SENSOR_ID_TARGET + 2 * parts.len(),
{
    reveal_strlit("persistent_sensor");
    lemma_parts(parts);
    lemma_trim(id_parts(parts));
}

/// Where no part holds a letter or a digit, the identifier is a fixed one;
/// otherwise it is made of the parts.
pub proof fn law_stable_id_fallback(parts: Seq<Seq<char>>)
    ensures
        (forall|i: int| 0 <= i < parts.len() ==> !has_letter(#[trigger] parts[i])) ==> stable_id(
            parts,
        ) == "persistent_sensor"@,
        (exists|i: int| 0 <= i < parts.len() && has_letter(#[trigger] parts[i])) ==> stable_id(
            parts,
        ) == id_trim(id_parts(parts)),
{
    lemma_parts_say(parts);
    lemma_trim_says(id_parts(parts));
}

/// Parts that differ in the case of ASCII letters alone give one identifier.
pub proof fn law_stable_id_ignores_case(a: Seq<Seq<char>>, b: Seq<Seq<char>>)
    requires
        a.len() == b.len(),
        forall|i: int| 0 <= i < a.len() ==> lowercase(#[trigger] a[i]) == lowercase(b[i]),
    ensures
        stable_id(a) == stable_id(b),
{
    lemma_same_parts(a, b);
}

/// An identifier made of not too many parts may stand in a schema.
pub proof fn law_stable_id_is_valid(parts: Seq<Seq<char>>)
    requires
        SENSOR_ID_TARGET + 2 * parts.len() <= MAX_SENSOR_ID_BYTES,
    ensures
        valid_text(stable_id(parts), MAX_SENSOR_ID_BYTES as int),
{
    law_stable_id_shape(parts);
    let id = stable_id(parts);
    assert forall|i: int| 0 <= i < id.len() implies (#[trigger] id[i]) as u32 <= 0x7f by {
        assert(in_id(id[i]));
    }
    lemma_encode_ascii(id);
    let bytes = encode_utf8(id);
    assert forall|i: int| 0 <= i < bytes.len() implies #[trigger] bytes[i] >= 0x20 && bytes[i]
        != 0x7f by {
        assert(bytes[i] == id[i] as u32);
        assert(in_id(id[i]));
    }
}

/// Parts of small letters and digits that are short enough together make an
/// identifier with underscores between them; so parts that differ do not get the
/// same one.
pub proof fn law_stable_id_of_plain_parts(parts: Seq<Seq<char>>)
    requires
        parts.len() > 0,
        forall|i: int| 0 <= i < parts.len() ==> (#[trigger] parts[i]).len() > 0 && plain(parts[i]),
        joined(parts, "_"@).len() < 119,
    ensures
        stable_id(parts) == joined(parts, "_"@),
{
    lemma_plain_parts(parts);
    let whole = joined(parts, "_"@);
    let last = parts[parts.len() - 1];
    lemma_joined_end(parts);
    assert(plain(last));
    assert(whole.last() == last[last.len() - 1]);
    assert(whole.push('_').drop_last() =~= whole);
    assert(!ends_open(whole));
    assert(ends_open(whole.push('_')));
    assert(id_trim(whole) == whole);
}

/// Whether a text holds small letters and digits only.
pub open spec fn plain(s: Seq<char>) -> bool {
    forall|i: int|
        0 <= i < s.len() ==> 'a' <= (#[trigger] s[i]) <= 'z' || '0' <= s[i] <= '9'
}

proof fn lemma_joined_end(parts: Seq<Seq<char>>)
    requires
        parts.len() > 0,
        parts.last().len() > 0,
    ensures
        joined(parts, "_"@).len() > 0,
        joined(parts, "_"@).last() == parts.last().last(),
{
}

proof fn lemma_plain_parts(parts: Seq<Seq<char>>)
    requires
        parts.len() > 0,
        forall|i: int| 0 <= i < parts.len() ==> (#[trigger] parts[i]).len() > 0 && plain(parts[i]),
        joined(parts, "_"@).len() < 119,
    ensures
        id_parts(parts) == joined(parts, "_"@).push('_'),
    decreases parts.len(),
{
    reveal_strlit("_");
    let before = parts.drop_last();
    let last = parts[parts.len() - 1];
    let whole = joined(parts, "_"@);
    assert(plain(last));
    lemma_joined_end(parts);
    if before.len() == 0 {
        lemma_plain_absorbed(Seq::empty(), last);
        assert(Seq::<char>::empty() + last =~= last);
        assert(id_parts(before) =~= Seq::<char>::empty());
        assert(whole == last);
    } else {
        assert forall|i: int| 0 <= i < before.len() implies (#[trigger] before[i]).len() > 0
            && plain(before[i]) by {
            assert(before[i] == parts[i]);
        }
        lemma_plain_parts(before);
        let out = joined(before, "_"@).push('_');
        assert(whole =~= out + last);
        lemma_plain_absorbed(out, last);
    }
    assert(plain(last));
    assert(whole.last() == last[last.len() - 1]);
    assert(!ends_open(whole));
}

proof fn lemma_plain_absorbed(out: Seq<char>, part: Seq<char>)
    requires
        plain(part),
        out.len() + part.len() < 119,
    ensures
        id_absorb(out, encode_utf8(part)) == out + part,
    decreases part.len(),
{
    assert forall|i: int| 0 <= i < part.len() implies (#[trigger] part[i]) as u32 <= 0x7f by {
        assert('a' <= part[i] <= 'z' || '0' <= part[i] <= '9');
    }
    lemma_encode_ascii(part);
    let bytes = encode_utf8(part);
    if part.len() == 0 {
        assert(out + part =~= out);
    } else {
        let rest = part.drop_first();
        assert forall|i: int| 0 <= i < rest.len() implies 'a' <= (#[trigger] rest[i]) <= 'z' || '0'
            <= rest[i] <= '9' by {
            assert(rest[i] == part[i + 1]);
        }
        assert forall|i: int| 0 <= i < rest.len() implies (#[trigger] rest[i]) as u32 <= 0x7f by {
            assert(rest[i] == part[i + 1]);
        }
        lemma_encode_ascii(rest);
        assert(bytes.skip(1) =~= encode_utf8(rest)) by {
            assert forall|i: int| 0 <= i < rest.len() implies #[trigger] bytes.skip(1)[i]
                == encode_utf8(rest)[i] by {
                assert(bytes[i + 1] == part[i + 1] as u32);
                assert(encode_utf8(rest)[i] == rest[i] as u32);
            }
        }
        let c = part[0];
        assert(bytes[0] == c as u32);
        assert(id_char(bytes[0]) == Some(c)) by {
            lemma_byte_char(bytes[0], c);
        }
        lemma_plain_absorbed(out.push(c), rest);
        assert(out.push(c) + rest =~= out + part);
    }
}

proof fn lemma_byte_char(b: u8, c: char)
    requires
        b == c as u32,
        b <= 0x7f,
    ensures
        b as char == c,
{
}

} // verus!
