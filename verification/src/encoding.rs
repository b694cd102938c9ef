//! Facts on how texts are encoded as bytes.

use vstd::prelude::*;
use vstd::utf8::{encode_scalar, encode_utf8};

verus! {

/// How many bytes a character takes.
pub open spec fn width(c: char) -> int {
    let code = c as u32;
    if code <= 0x7f {
        1
    } else if code <= 0x7ff {
        2
    } else if code <= 0xffff {
        3
    } else {
        4
    }
}

/// How many bytes a character takes.
pub fn char_width(c: char) -> (bytes: usize)
    ensures
        bytes == width(c),
{
    let code: u32 = c as u32;
    if code <= 0x7f {
        1
    } else if code <= 0x7ff {
        2
    } else if code <= 0xffff {
        3
    } else {
        4
    }
}

/// Whether a byte is no ASCII control character.
pub open spec fn clean_byte(b: u8) -> bool {
    b >= 0x20 && b != 0x7f
}

/// Whether a character is no ASCII control character.
pub open spec fn clean_char(c: char) -> bool {
    c as u32 >= 0x20 && c as u32 != 0x7f
}

/// An ASCII character takes one byte, its code; the bytes of any other are above
/// the ASCII ones.
pub proof fn lemma_scalar(c: char)
    ensures
        encode_scalar(c as u32).len() == width(c),
        c as u32 <= 0x7f ==> encode_scalar(c as u32)[0] == c as u32,
        c as u32 > 0x7f ==> forall|i: int|
            0 <= i < encode_scalar(c as u32).len() ==> #[trigger] encode_scalar(c as u32)[i]
                >= 0x80,
{
    let s = c as u32;
    if s <= 0x7f {
        assert((s & 0x7f) as u8 == s) by (bit_vector)
            requires
                s <= 0x7f,
        ;
    } else {
        assert(0xC0u8 | ((s >> 6) & 0x1F) as u8 >= 0x80) by (bit_vector);
        assert(0xE0u8 | ((s >> 12) & 0x0F) as u8 >= 0x80) by (bit_vector);
        assert(0xF0u8 | ((s >> 18) & 0x7) as u8 >= 0x80) by (bit_vector);
        assert(0x80u8 | (s & 0x3F) as u8 >= 0x80) by (bit_vector);
        assert(0x80u8 | ((s >> 6) & 0x3F) as u8 >= 0x80) by (bit_vector);
        assert(0x80u8 | ((s >> 12) & 0x3F) as u8 >= 0x80) by (bit_vector);
    }
}

/// The bytes of two texts, one after the other.
pub proof fn lemma_encode_concat(a: Seq<char>, b: Seq<char>)
    ensures
        encode_utf8(a + b) == encode_utf8(a) + encode_utf8(b),
    decreases a.len(),
{
    if a.len() == 0 {
        assert(a + b =~= b);
        assert(encode_utf8(a) + encode_utf8(b) =~= encode_utf8(b));
    } else {
        lemma_encode_concat(a.drop_first(), b);
        assert((a + b).drop_first() =~= a.drop_first() + b);
        assert(encode_utf8(a + b) =~= encode_utf8(a) + encode_utf8(b));
    }
}

/// One more character adds its width.
pub proof fn lemma_encode_push(s: Seq<char>, c: char)
    ensures
        encode_utf8(s.push(c)).len() == encode_utf8(s).len() + width(c),
{
    lemma_encode_concat(s, seq![c]);
    assert(s.push(c) =~= s + seq![c]);
    assert(seq![c].drop_first() =~= Seq::<char>::empty());
    reveal_with_fuel(encode_utf8, 2);
    assert(encode_utf8(seq![c]) =~= encode_scalar(c as u32));
    lemma_scalar(c);
}

/// Only the empty text has no bytes.
pub proof fn lemma_encode_empty(s: Seq<char>)
    ensures
        encode_utf8(s).len() == 0 <==> s.len() == 0,
        encode_utf8(s).len() >= s.len(),
    decreases s.len(),
{
    if s.len() > 0 {
        lemma_scalar(s[0]);
        lemma_encode_empty(s.drop_first());
    }
}

/// A text without ASCII control characters has no such bytes.
pub proof fn lemma_encode_clean(s: Seq<char>)
    ensures
        (forall|i: int| 0 <= i < s.len() ==> clean_char(#[trigger] s[i])) ==> (forall|i: int|
            0 <= i < encode_utf8(s).len() ==> clean_byte(#[trigger] encode_utf8(s)[i])),
    decreases s.len(),
{
    if s.len() > 0 && (forall|i: int| 0 <= i < s.len() ==> clean_char(#[trigger] s[i])) {
        let rest = s.drop_first();
        assert forall|i: int| 0 <= i < rest.len() implies clean_char(#[trigger] rest[i]) by {
            assert(rest[i] == s[i + 1]);
        }
        lemma_encode_clean(rest);
        lemma_scalar(s[0]);
        let head = encode_scalar(s[0] as u32);
        assert forall|i: int| 0 <= i < encode_utf8(s).len() implies clean_byte(
            #[trigger] encode_utf8(s)[i],
        ) by {
            assert(clean_char(s[0]));
            if i < head.len() {
                assert(encode_utf8(s)[i] == head[i]);
            } else {
                assert(encode_utf8(s)[i] == encode_utf8(rest)[i - head.len()]);
            }
        }
    }
}

/// An ASCII text has one byte for each character: its code.
pub proof fn lemma_encode_ascii(s: Seq<char>)
    requires
        forall|i: int| 0 <= i < s.len() ==> (#[trigger] s[i]) as u32 <= 0x7f,
    ensures
        encode_utf8(s).len() == s.len(),
        forall|i: int| 0 <= i < s.len() ==> #[trigger] encode_utf8(s)[i] == s[i] as u32,
    decreases s.len(),
{
    if s.len() > 0 {
        let rest = s.drop_first();
        assert forall|i: int| 0 <= i < rest.len() implies (#[trigger] rest[i]) as u32 <= 0x7f by {
            assert(rest[i] == s[i + 1]);
        }
        lemma_encode_ascii(rest);
        lemma_scalar(s[0]);
        assert(s[0] as u32 <= 0x7f);
        assert forall|i: int| 0 <= i < s.len() implies #[trigger] encode_utf8(s)[i]
            == s[i] as u32 by {
            if i > 0 {
                assert(encode_utf8(s)[i] == encode_utf8(rest)[i - 1]);
                assert(rest[i - 1] == s[i]);
            }
        }
    }
}

} // verus!
