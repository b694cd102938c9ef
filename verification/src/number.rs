//! Numbers as text: writing them in decimal and hexadecimal, and reading them.

use crate::text::{chars_of, is_digit, string_of, trim, trimmed};
use crate::text::laws::{blank, lemma_blank_behind};
use vstd::prelude::*;

verus! {

// ── Writing ──────────────────────────────────────────────────────────────────

/// The character of a decimal digit.
pub open spec fn digit_char(d: int) -> char {
    ('0' as u32 + d) as char
}

/// A natural number in decimal, without leading zeros.
pub open spec fn decimal(n: nat) -> Seq<char>
    decreases n,
{
    if n < 10 {
        seq![digit_char(n as int)]
    } else {
        decimal(n / 10).push(digit_char((n % 10) as int))
    }
}

/// An integer in decimal, with a minus sign where it is negative.
pub open spec fn signed_decimal(n: int) -> Seq<char> {
    if n < 0 {
        seq!['-'] + decimal((-n) as nat)
    } else {
        decimal(n as nat)
    }
}

fn decimal_chars(n: u64) -> (chars: Vec<char>)
    ensures
        chars@ == decimal(n as nat),
    decreases n,
{
    if n < 10 {
        let mut chars: Vec<char> = Vec::new();
        chars.push((0x30 + n as u8) as char);
        assert(chars@ =~= decimal(n as nat));
        chars
    } else {
        let mut chars = decimal_chars(n / 10);
        chars.push((0x30 + (n % 10) as u8) as char);
        chars
    }
}

/// Writes `n` in decimal.
pub fn format_u64(n: u64) -> (s: String)
    ensures
        s@ == decimal(n as nat),
{
    let chars = decimal_chars(n);
    string_of(&chars)
}

/// Writes `n` in decimal.
pub fn format_i64(n: i64) -> (s: String)
    ensures
        s@ == signed_decimal(n as int),
{
    if n < 0 {
        let magnitude: u64 = if n == i64::MIN {
            0x8000_0000_0000_0000
        } else {
            (-n) as u64
        };
        let digits = format_u64(magnitude);
        let mut s = String::new();
        s.push('-');
        s.append(&digits);
        assert(s@ =~= signed_decimal(n as int));
        s
    } else {
        format_u64(n as u64)
    }
}

/// The character of a hexadecimal digit, in small letters.
pub open spec fn hex_char(d: int) -> char {
    if d < 10 {
        ('0' as u32 + d) as char
    } else {
        ('a' as u32 + d - 10) as char
    }
}

/// The lowest `width` hexadecimal digits of `n`.
pub open spec fn hex_digits(n: nat, width: nat) -> Seq<char>
    decreases width,
{
    if width == 0 {
        Seq::empty()
    } else {
        hex_digits(n / 16, (width - 1) as nat).push(hex_char((n % 16) as int))
    }
}

/// Writes the lowest `width` hexadecimal digits of `n`.
pub fn format_hex(n: u64, width: usize) -> (chars: Vec<char>)
    ensures
        chars@ == hex_digits(n as nat, width as nat),
    decreases width,
{
    if width == 0 {
        Vec::new()
    } else {
        let mut chars = format_hex(n / 16, width - 1);
        let d: u8 = (n % 16) as u8;
        if d < 10 {
            chars.push((0x30 + d) as char);
        } else {
            chars.push((0x61 + (d - 10)) as char);
        }
        chars
    }
}

proof fn lemma_digit_char(d: int)
    requires
        0 <= d < 10,
    ensures
        digit_char(d) as u32 == '0' as u32 + d,
        is_digit(digit_char(d)),
{
}

/// Two different numbers never have the same decimal text.
pub proof fn lemma_decimal_injective(a: nat, b: nat)
    requires
        decimal(a) == decimal(b),
    ensures
        a == b,
    decreases a,
{
    lemma_decimal_shape(a);
    lemma_decimal_shape(b);
    if a < 10 && b < 10 {
        lemma_digit_char(a as int);
        lemma_digit_char(b as int);
        assert(decimal(a)[0] == digit_char(a as int));
        assert(decimal(b)[0] == digit_char(b as int));
    } else if a < 10 {
        lemma_decimal_shape(b / 10);
        assert(decimal(b).len() == decimal(b / 10).len() + 1);
        assert(decimal(a).len() == 1);
    } else if b < 10 {
        lemma_decimal_shape(a / 10);
        assert(decimal(a).len() == decimal(a / 10).len() + 1);
        assert(decimal(b).len() == 1);
    } else {
        assert(decimal(a).drop_last() =~= decimal(a / 10));
        assert(decimal(b).drop_last() =~= decimal(b / 10));
        assert(decimal(a).last() == decimal(b).last());
        lemma_digit_char((a % 10) as int);
        lemma_digit_char((b % 10) as int);
        lemma_decimal_injective(a / 10, b / 10);
        assert(decimal(a).last() == digit_char((a % 10) as int));
        assert(decimal(b).last() == digit_char((b % 10) as int));
        assert(a == 10 * (a / 10) + a % 10);
        assert(b == 10 * (b / 10) + b % 10);
    }
}

/// A decimal text is not empty and holds digits only.
pub proof fn lemma_decimal_shape(n: nat)
    ensures
        decimal(n).len() >= 1,
        forall|i: int| 0 <= i < decimal(n).len() ==> is_digit(#[trigger] decimal(n)[i]),
    decreases n,
{
    if n >= 10 {
        lemma_decimal_shape(n / 10);
    }
}

// ── Reading ──────────────────────────────────────────────────────────────────

/// The number that a run of decimal digits stands for; `None` where a
/// character is no digit.
pub open spec fn digits_value(s: Seq<char>) -> Option<nat>
    decreases s.len(),
{
    if s.len() == 0 {
        Some(0)
    } else {
        match digits_value(s.drop_last()) {
            Some(high) if is_digit(s.last()) => Some(
                (high * 10 + (s.last() as u32 - '0' as u32)) as nat,
            ),
            _ => None,
        }
    }
}

/// Reads a natural number: digits, with at most one plus sign before them.
pub open spec fn parsed_nat(s: Seq<char>) -> Option<nat> {
    let body = if s.len() > 0 && s[0] == '+' {
        s.skip(1)
    } else {
        s
    };
    if body.len() == 0 {
        None
    } else {
        digits_value(body)
    }
}

/// Reads an integer: digits, with at most one sign before them.
pub open spec fn parsed_int(s: Seq<char>) -> Option<int> {
    if s.len() > 0 && s[0] == '-' {
        if s.len() == 1 {
            None
        } else {
            match digits_value(s.skip(1)) {
                Some(n) => Some(-(n as int)),
                None => None,
            }
        }
    } else {
        match parsed_nat(s) {
            Some(n) => Some(n as int),
            None => None,
        }
    }
}

/// `n`, where it is at most `max`.
pub open spec fn at_most(n: Option<nat>, max: nat) -> Option<nat> {
    match n {
        Some(n) if n <= max => Some(n),
        _ => None,
    }
}

/// Digits in front never make a number smaller.
proof fn lemma_digits_value_grows(s: Seq<char>, i: int)
    requires
        0 <= i <= s.len(),
    ensures
        digits_value(s.take(i)) is None ==> digits_value(s) is None,
        digits_value(s) matches Some(whole) ==> digits_value(s.take(i)) matches Some(part)
            && part <= whole,
    decreases s.len() - i,
{
    if i < s.len() {
        lemma_digits_value_grows(s, i + 1);
        assert(s.take(i + 1).drop_last() =~= s.take(i));
    } else {
        assert(s.take(i) =~= s);
    }
}

/// Reads a run of digits whose value is at most `max`.
fn read_digits(s: &[char], from: usize, max: u128) -> (n: Option<u128>)
    requires
        from <= s@.len(),
        max <= 0xffff_ffff_ffff_ffff,
    ensures
        n matches Some(v) ==> at_most(digits_value(s@.skip(from as int)), max as nat) == Some(
            v as nat,
        ),
        n is None ==> at_most(digits_value(s@.skip(from as int)), max as nat) is None,
{
    let ghost body = s@.skip(from as int);
    let mut n: u128 = 0;
    let mut i: usize = from;
    assert(body.take(0) =~= Seq::<char>::empty());
    while i < s.len()
        invariant
            from <= i <= s@.len(),
            body == s@.skip(from as int),
            n <= max <= 0xffff_ffff_ffff_ffff,
            digits_value(body.take(i - from)) == Some(n as nat),
        decreases s@.len() - i,
    {
        let c = s[i];
        proof {
            lemma_digits_value_grows(body, i - from + 1);
            assert(body.take(i - from + 1).drop_last() =~= body.take(i - from));
            assert(body.take(i - from + 1).last() == c);
        }
        if !('0' <= c && c <= '9') {
            return None;
        }
        n = n * 10 + (c as u32 - '0' as u32) as u128;
        if n > max {
            return None;
        }
        i = i + 1;
    }
    assert(body.take(s@.len() - from) =~= body);
    Some(n)
}

fn read_nat(s: &[char], max: u128) -> (n: Option<u128>)
    requires
        max <= 0xffff_ffff_ffff_ffff,
    ensures
        n matches Some(v) ==> at_most(parsed_nat(s@), max as nat) == Some(v as nat),
        n is None ==> at_most(parsed_nat(s@), max as nat) is None,
{
    let from: usize = if s.len() > 0 && s[0] == '+' {
        1
    } else {
        0
    };
    assert(s@.skip(0) =~= s@);
    if from == s.len() {
        return None;
    }
    read_digits(s, from, max)
}

/// Reads a `u64` in decimal.
pub fn parse_u64(s: &str) -> (n: Option<u64>)
    ensures
        n matches Some(v) ==> at_most(parsed_nat(s@), u64::MAX as nat) == Some(v as nat),
        n is None ==> at_most(parsed_nat(s@), u64::MAX as nat) is None,
{
    let a = chars_of(s);
    match read_nat(&a, 0xffff_ffff_ffff_ffff) {
        Some(v) => Some(v as u64),
        None => None,
    }
}

/// Reads a `u32` in decimal.
pub fn parse_u32(s: &str) -> (n: Option<u32>)
    ensures
        n matches Some(v) ==> at_most(parsed_nat(s@), u32::MAX as nat) == Some(v as nat),
        n is None ==> at_most(parsed_nat(s@), u32::MAX as nat) is None,
{
    let a = chars_of(s);
    match read_nat(&a, 0xffff_ffff) {
        Some(v) => Some(v as u32),
        None => None,
    }
}

/// Reads a `usize` in decimal.
pub fn parse_usize(s: &str) -> (n: Option<usize>)
    ensures
        n matches Some(v) ==> at_most(parsed_nat(s@), usize::MAX as nat) == Some(v as nat),
        n is None ==> at_most(parsed_nat(s@), usize::MAX as nat) is None,
{
    let a = chars_of(s);
    match read_nat(&a, usize::MAX as u128) {
        Some(v) => Some(v as usize),
        None => None,
    }
}

/// `n`, where it fits into 64 bits with a sign.
pub open spec fn fits_i64(n: Option<int>) -> Option<int> {
    match n {
        Some(n) if i64::MIN <= n <= i64::MAX => Some(n),
        _ => None,
    }
}

/// Reads an `i64` in decimal.
pub fn parse_i64(s: &str) -> (n: Option<i64>)
    ensures
        n matches Some(v) ==> fits_i64(parsed_int(s@)) == Some(v as int),
        n is None ==> fits_i64(parsed_int(s@)) is None,
{
    let a = chars_of(s);
    if a.len() > 0 && a[0] == '-' {
        if a.len() == 1 {
            return None;
        }
        match read_digits(&a, 1, 0x8000_0000_0000_0000) {
            Some(v) => {
                if v == 0x8000_0000_0000_0000 {
                    Some(i64::MIN)
                } else {
                    Some(-(v as i64))
                }
            },
            None => None,
        }
    } else {
        match read_nat(&a, 0x7fff_ffff_ffff_ffff) {
            Some(v) => Some(v as i64),
            None => None,
        }
    }
}

/// The number that the text of a sysfs attribute spells.
pub open spec fn reading_of(contents: Seq<char>) -> Option<i64> {
    match fits_i64(parsed_int(trimmed(contents))) {
        Some(value) => Some(value as i64),
        None => None,
    }
}

/// The number that the text of a sysfs attribute spells.
pub fn parse_reading(contents: &str) -> (value: Option<i64>)
    ensures
        value == reading_of(contents@),
{
    parse_i64(&trim(contents))
}

/// Reading what was written gives the number back.
pub proof fn law_printed_number_reads_back(n: nat)
    ensures
        parsed_nat(decimal(n)) == Some(n),
        digits_value(decimal(n)) == Some(n),
    decreases n,
{
    lemma_decimal_shape(n);
    assert(is_digit(decimal(n)[0]));
    lemma_digit_char((n % 10) as int);
    if n >= 10 {
        law_printed_number_reads_back(n / 10);
        assert(decimal(n).drop_last() =~= decimal(n / 10));
        assert(decimal(n).last() == digit_char((n % 10) as int));
        assert(n == 10 * (n / 10) + n % 10);
    } else {
        assert(decimal(n).drop_last() =~= Seq::<char>::empty());
        assert(decimal(n).last() == digit_char(n as int));
        lemma_digit_char(n as int);
        assert(digits_value(Seq::<char>::empty()) == Some(0nat));
    }
}

/// What sysfs shows of a number, with white space around it, reads as that
/// number.
pub proof fn law_printed_reading_reads_back(n: i64, space: Seq<char>)
    requires
        blank(space),
    ensures
        reading_of(signed_decimal(n as int) + space) == Some(n),
        parsed_int(signed_decimal(n as int)) == Some(n as int),
{
    let text = signed_decimal(n as int);
    if n < 0 {
        let m = (-(n as int)) as nat;
        law_printed_number_reads_back(m);
        lemma_decimal_shape(m);
        assert(text.skip(1) =~= decimal(m));
        assert(is_digit(decimal(m)[decimal(m).len() - 1]));
        assert(text.last() == decimal(m).last());
    } else {
        law_printed_number_reads_back(n as nat);
        lemma_decimal_shape(n as nat);
        assert(is_digit(text[0]));
        assert(is_digit(text[text.len() - 1]));
    }
    lemma_blank_behind(text, space);
    assert((text + space)[0] == text[0]);
}

/// A number is digits, of which there is at least one, with at most a plus sign
/// in front; zeros in front change nothing. Only an integer may have a minus sign.
pub proof fn law_what_numbers_are(s: Seq<char>, i: int, n: nat)
    ensures
        parsed_nat(s) is Some && 0 <= i < s.len() ==> is_digit(s[i]) || (i == 0 && s[0] == '+'
            && s.len() > 1),
        parsed_nat(Seq::<char>::empty()) is None,
        parsed_nat(seq!['+']) is None,
        parsed_nat(seq!['+'] + decimal(n)) == Some(n),
        parsed_nat(seq!['0'] + decimal(n)) == Some(n),
        parsed_nat(seq!['-'] + decimal(n)) is None,
        n > 0 ==> parsed_int(seq!['-'] + decimal(n)) == Some(-(n as int)),
{
    law_printed_number_reads_back(n);
    lemma_decimal_shape(n);
    let body = if s.len() > 0 && s[0] == '+' {
        s.skip(1)
    } else {
        s
    };
    if parsed_nat(s) is Some {
        lemma_only_digits(body);
        if 0 <= i < s.len() && !(i == 0 && s[0] == '+') {
            if s[0] == '+' {
                assert(body[i - 1] == s[i]);
            } else {
                assert(body[i] == s[i]);
            }
        }
    }
    assert(seq!['+'].skip(1) =~= Seq::<char>::empty());
    assert((seq!['+'] + decimal(n)).skip(1) =~= decimal(n));
    assert((seq!['-'] + decimal(n)).skip(1) =~= decimal(n));
    assert((seq!['0'] + decimal(n))[0] == '0');
    lemma_leading_zero(decimal(n));
    let minus = seq!['-'] + decimal(n);
    assert(minus[0] == '-');
    if parsed_nat(minus) is Some {
        lemma_only_digits(minus);
        assert(is_digit(minus[0]));
    }
}

proof fn lemma_only_digits(s: Seq<char>)
    requires
        digits_value(s) is Some,
    ensures
        forall|i: int| 0 <= i < s.len() ==> is_digit(#[trigger] s[i]),
    decreases s.len(),
{
    if s.len() > 0 {
        lemma_only_digits(s.drop_last());
        assert forall|i: int| 0 <= i < s.len() implies is_digit(#[trigger] s[i]) by {
            if i < s.len() - 1 {
                assert(s.drop_last()[i] == s[i]);
            }
        }
    }
}

proof fn lemma_leading_zero(s: Seq<char>)
    ensures
        digits_value(seq!['0'] + s) == digits_value(s),
    decreases s.len(),
{
    let whole = seq!['0'] + s;
    if s.len() == 0 {
        assert(whole.drop_last() =~= Seq::<char>::empty());
        assert(whole.last() == '0');
        assert(digits_value(whole.drop_last()) == Some(0nat));
        assert(s =~= Seq::<char>::empty());
    } else {
        lemma_leading_zero(s.drop_last());
        assert(whole.drop_last() =~= seq!['0'] + s.drop_last());
        assert(whole.last() == s.last());
    }
}

} // verus!
