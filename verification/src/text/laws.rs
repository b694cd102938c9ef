//! What texts come to when they are trimmed, split, searched and put together.

use crate::ctl::qm::{lemma_pieces_joined, lemma_pieces_unsplit, unsplit};
use crate::text::{
    contains_text, first_place, has_prefix, has_suffix, is_split_once, is_white, joined,
    lemma_split_once_unique, lemma_text_less_total, lines, lower_char, lowercase, pieces, replaced,
    split_pair, stands_at, text_less, trimmed, trimmed_end, trimmed_start, without_prefix,
    without_return, without_suffix, Separator,
};
use vstd::prelude::*;

verus! {

// ── Trimming ─────────────────────────────────────────────────────────────────

/// Whether a text is nothing but white space.
pub open spec fn blank(s: Seq<char>) -> bool {
    forall|i: int| 0 <= i < s.len() ==> is_white(#[trigger] s[i])
}

/// White space behind a text goes.
pub proof fn lemma_blank_behind(text: Seq<char>, space: Seq<char>)
    requires
        text.len() > 0 ==> !is_white(text.last()),
        blank(space),
    ensures
        trimmed_end(text + space) == text,
    decreases space.len(),
{
    let whole = text + space;
    if space.len() == 0 {
        assert(whole =~= text);
    } else {
        let less = space.drop_last();
        assert forall|i: int| 0 <= i < less.len() implies is_white(#[trigger] less[i]) by {
            assert(less[i] == space[i]);
        }
        lemma_blank_behind(text, less);
        assert(is_white(space[space.len() - 1]));
        assert(whole.last() == space.last());
        assert(whole.drop_last() =~= text + less);
    }
}

proof fn lemma_blank_before(space: Seq<char>, text: Seq<char>)
    requires
        text.len() > 0 ==> !is_white(text[0]),
        blank(space),
    ensures
        trimmed_start(space + text) == text,
    decreases space.len(),
{
    let whole = space + text;
    if space.len() == 0 {
        assert(whole =~= text);
    } else {
        let less = space.skip(1);
        assert forall|i: int| 0 <= i < less.len() implies is_white(#[trigger] less[i]) by {
            assert(less[i] == space[i + 1]);
        }
        lemma_blank_before(less, text);
        assert(is_white(space[0]));
        assert(whole[0] == space[0]);
        assert(whole.skip(1) =~= less + text);
    }
}

/// Trimming takes off the white space around a text, and nothing else.
pub proof fn law_trimmed(before: Seq<char>, text: Seq<char>, behind: Seq<char>)
    requires
        blank(before),
        blank(behind),
        text.len() > 0 ==> !is_white(text[0]) && !is_white(text.last()),
    ensures
        trimmed(before + text + behind) == text,
{
    let rest = text + behind;
    assert(before + text + behind =~= before + rest);
    if text.len() == 0 {
        let space = before + behind;
        assert forall|i: int| 0 <= i < space.len() implies is_white(#[trigger] space[i]) by {
            if i < before.len() {
                assert(space[i] == before[i]);
            } else {
                assert(space[i] == behind[i - before.len()]);
            }
        }
        lemma_blank_before(space, Seq::empty());
        assert(before + text + behind =~= space + Seq::<char>::empty());
        assert(text =~= Seq::<char>::empty());
    } else {
        assert(rest[0] == text[0]);
        lemma_blank_before(before, rest);
        lemma_blank_behind(text, behind);
    }
}

// ── Splitting and joining ────────────────────────────────────────────────────

/// A text without line breaks is one line, or none where it is empty. A line
/// break ends a line, which loses a carriage return before it, and what is
/// behind the break has lines of its own.
pub proof fn law_lines(line: Seq<char>, rest: Seq<char>)
    requires
        forall|i: int| 0 <= i < line.len() ==> (#[trigger] line[i]) != '\n',
    ensures
        line.len() == 0 ==> lines(line) == Seq::<Seq<char>>::empty(),
        line.len() > 0 ==> lines(line) == seq![line],
        lines(line.push('\r').push('\n') + rest) == seq![line] + lines(rest),
        line.len() == 0 || line.last() != '\r' ==> lines(line.push('\n') + rest) == seq![line]
            + lines(rest),
{
    let sep = Separator::Char('\n');
    assert(unsplit(line, sep));
    lemma_pieces_unsplit(line, sep);
    assert(seq![line].drop_last() =~= Seq::<Seq<char>>::empty());
    if line.len() == 0 {
        assert(lines(line) =~= Seq::<Seq<char>>::empty());
    } else {
        assert(lines(line) =~= seq![line]);
    }
    let returned = line.push('\r');
    assert forall|i: int| 0 <= i < returned.len() implies !sep.splits(#[trigger] returned[i]) by {
        if i < line.len() {
            assert(returned[i] == line[i]);
        }
    }
    lemma_line_before(returned, rest);
    assert(returned.drop_last() =~= line);
    lemma_line_before(line, rest);
}

proof fn lemma_line_before(line: Seq<char>, rest: Seq<char>)
    requires
        unsplit(line, Separator::Char('\n')),
    ensures
        lines(line.push('\n') + rest) == seq![without_return(line)] + lines(rest),
{
    let sep = Separator::Char('\n');
    let whole = line.push('\n') + rest;
    lemma_pieces_joined(line, '\n', rest, sep);
    lemma_pieces_unsplit(line, sep);
    lemma_pieces_some(rest, sep);
    let behind = pieces(rest, sep);
    let parts = pieces(whole, sep);
    assert(parts == seq![line] + behind);
    assert(parts.last() == behind.last());
    assert(parts.drop_last() =~= seq![line] + behind.drop_last());
    let cut = |line: Seq<char>| without_return(line);
    assert(parts.drop_last().map_values(cut) =~= seq![without_return(line)]
        + behind.drop_last().map_values(cut));
    assert(lines(whole) =~= seq![without_return(line)] + lines(rest));
}

proof fn lemma_pieces_some(s: Seq<char>, sep: Separator)
    ensures
        pieces(s, sep).len() >= 1,
    decreases s.len(),
{
    if s.len() > 0 {
        lemma_pieces_some(s.drop_last(), sep);
    }
}

/// A separator stands between any two texts that are joined, and nowhere else.
pub proof fn law_joined(a: Seq<Seq<char>>, b: Seq<Seq<char>>, text: Seq<char>, separator: Seq<char>)
    ensures
        joined(Seq::<Seq<char>>::empty(), separator) == Seq::<char>::empty(),
        joined(seq![text], separator) == text,
        a.len() > 0 && b.len() > 0 ==> joined(a + b, separator) == joined(a, separator) + separator
            + joined(b, separator),
    decreases b.len(),
{
    if a.len() > 0 && b.len() > 0 {
        let less = b.drop_last();
        assert((a + b).drop_last() =~= a + less);
        assert((a + b).last() == b.last());
        if less.len() == 0 {
            assert(a + less =~= a);
        } else {
            law_joined(a, less, text, separator);
        }
        assert(joined(a + b, separator) =~= joined(a, separator) + separator + joined(
            b,
            separator,
        ));
    }
}

// ── Searching ────────────────────────────────────────────────────────────────

/// A text begins with what it begins with and ends with what it ends with, and
/// the rest is what is left of it without that.
pub proof fn law_prefix_and_suffix(a: Seq<char>, b: Seq<char>, c: Seq<char>, s: Seq<char>)
    ensures
        has_prefix(a + b, a) && without_prefix(a + b, a) == Some(b),
        has_suffix(a + b, b) && without_suffix(a + b, b) == Some(a),
        contains_text(a + b + c, b),
        without_prefix(s, a) matches Some(rest) ==> s == a + rest,
        without_suffix(s, b) matches Some(rest) ==> s == rest + b,
{
    assert((a + b).take(a.len() as int) =~= a);
    assert((a + b).skip(a.len() as int) =~= b);
    assert((a + b).take((a + b).len() - b.len()) =~= a);
    assert((a + b).skip((a + b).len() - b.len()) =~= b);
    let whole = a + b + c;
    assert(whole.subrange(a.len() as int, (a.len() + b.len()) as int) =~= b);
    assert(stands_at(whole, b, a.len() as int));
    if let Some(rest) = without_prefix(s, a) {
        assert(s =~= a + rest);
    }
    if let Some(rest) = without_suffix(s, b) {
        assert(s =~= rest + b);
    }
}

/// A text is split at the first separator in it: what is before and what is
/// behind come out. Where there is no separator, nothing does.
pub proof fn law_split_at_first(before: Seq<char>, separator: Seq<char>, behind: Seq<char>)
    ensures
        (forall|j: int|
            0 <= j < before.len() ==> !stands_at(before + separator + behind, separator, j))
            ==> split_pair(before + separator + behind, separator) == Some((before, behind)),
        !contains_text(before, separator) ==> split_pair(before, separator) is None,
{
    let whole = before + separator + behind;
    if forall|j: int| 0 <= j < before.len() ==> !stands_at(whole, separator, j) {
        assert(whole.subrange(before.len() as int, (before.len() + separator.len()) as int)
            =~= separator);
        let parts = Some((before, behind));
        assert(is_split_once(whole, separator, parts));
        lemma_split_once_unique(whole, separator, parts, split_pair(whole, separator));
    }
    if !contains_text(before, separator) {
        let parts: Option<(Seq<char>, Seq<char>)> = None;
        assert(first_place(before, separator, 0, None));
        assert(is_split_once(before, separator, parts));
        lemma_split_once_unique(before, separator, parts, split_pair(before, separator));
    }
}

/// Where a pattern does not stand in a text, replacing it changes nothing. Where
/// it does, its first place holds the replacement, and replacing goes on behind
/// it.
pub proof fn law_replaced(before: Seq<char>, pattern: Seq<char>, by: Seq<char>, behind: Seq<char>)
    requires
        pattern.len() > 0,
    ensures
        !contains_text(before, pattern) ==> replaced(before, pattern, by) == before,
        (forall|j: int|
            0 <= j < before.len() ==> !stands_at(before + pattern + behind, pattern, j))
            ==> replaced(before + pattern + behind, pattern, by) == before + by + replaced(
            behind,
            pattern,
            by,
        ),
    decreases before.len(),
{
    if !contains_text(before, pattern) {
        lemma_nothing_replaced(before, pattern, by);
    }
    let whole = before + pattern + behind;
    if forall|j: int| 0 <= j < before.len() ==> !stands_at(whole, pattern, j) {
        if before.len() == 0 {
            assert(whole.take(pattern.len() as int) =~= pattern);
            assert(whole.skip(pattern.len() as int) =~= behind);
            assert(before + by =~= by);
        } else {
            let less = before.skip(1);
            assert(whole.skip(1) =~= less + pattern + behind);
            assert forall|j: int| 0 <= j < less.len() implies !stands_at(
                less + pattern + behind,
                pattern,
                j,
            ) by {
                assert(!stands_at(whole, pattern, j + 1));
                assert(whole.subrange(j + 1, j + 1 + pattern.len()) =~= whole.skip(1).subrange(
                    j,
                    j + pattern.len(),
                ));
            }
            law_replaced(less, pattern, by, behind);
            assert(!stands_at(whole, pattern, 0));
            assert(whole.subrange(0, pattern.len() as int) =~= whole.take(pattern.len() as int));
            assert(whole[0] == before[0]);
            assert(seq![whole[0]] + (less + by + replaced(behind, pattern, by)) =~= before + by
                + replaced(behind, pattern, by));
        }
    }
}

proof fn lemma_nothing_replaced(s: Seq<char>, pattern: Seq<char>, by: Seq<char>)
    requires
        pattern.len() > 0,
        !contains_text(s, pattern),
    ensures
        replaced(s, pattern, by) == s,
    decreases s.len(),
{
    if s.len() > 0 {
        let rest = s.skip(1);
        if contains_text(rest, pattern) {
            let at = choose|at: int| stands_at(rest, pattern, at);
            assert(s.subrange(at + 1, at + 1 + pattern.len()) =~= rest.subrange(
                at,
                at + pattern.len(),
            ));
            assert(stands_at(s, pattern, at + 1));
        }
        lemma_nothing_replaced(rest, pattern, by);
        if has_prefix(s, pattern) {
            assert(s.subrange(0, pattern.len() as int) =~= s.take(pattern.len() as int));
            assert(stands_at(s, pattern, 0));
        }
        assert(seq![s[0]] + rest =~= s);
    }
}

// ── Letters and order ────────────────────────────────────────────────────────

/// The capital letters become the small ones, in the same place of the alphabet;
/// every other character stays.
pub proof fn law_small_letters(s: Seq<char>, c: char)
    ensures
        lowercase(s).len() == s.len(),
        forall|i: int| 0 <= i < s.len() ==> (#[trigger] lowercase(s)[i]) == lower_char(s[i]),
        65 <= c as u32 <= 90 ==> lower_char(c) as u32 == c as u32 + 32,
        !(65 <= c as u32 <= 90) ==> lower_char(c) == c,
{
}

/// Of two texts that begin alike, the order is that of their rests; of two that
/// begin differently, that of their first characters; and a text comes before
/// its continuations.
pub proof fn law_order_of_texts(
    start: Seq<char>,
    a: Seq<char>,
    b: Seq<char>,
)
    ensures
        text_less(start + a, start + b) == text_less(a, b),
        a.len() > 0 && b.len() > 0 && a[0] != b[0] ==> text_less(a, b) == (a[0] < b[0]),
        b.len() > 0 ==> text_less(start, start + b),
    decreases start.len(),
{
    if start.len() == 0 {
        assert(start + a =~= a);
        assert(start + b =~= b);
    } else {
        law_order_of_texts(start.skip(1), a, b);
        assert((start + a).skip(1) =~= start.skip(1) + a);
        assert((start + b).skip(1) =~= start.skip(1) + b);
        assert((start + a)[0] == start[0]);
        assert((start + b)[0] == start[0]);
    }
    lemma_text_less_total(a, b);
}

} // verus!
