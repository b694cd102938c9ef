//! Strings seen as sequences of characters.
//!
//! Contracts elsewhere in the crate speak of text as `Seq<char>`. This module
//! holds the vocabulary they use (trimming, splitting, searching, joining,
//! ordering) together with the code that computes it.

use vstd::prelude::*;

pub mod laws;

verus! {

/// `String::push` appends one character.
pub assume_specification[ String::push ](s: &mut String, c: char)
    ensures
        final(s)@ == old(s)@.push(c),
;

// ── Conversions ──────────────────────────────────────────────────────────────

/// The characters of `s`, in order.
pub fn chars_of(s: &str) -> (chars: Vec<char>)
    ensures
        chars@ == s@,
{
    let mut chars: Vec<char> = Vec::new();
    for c in it: s.chars()
        invariant
            it.seq() == s@,
            chars@ == s@.take(it.index() as int),
    {
        chars.push(c);
    }
    chars
}

/// The string made of `chars`, in order.
pub fn string_of(chars: &[char]) -> (s: String)
    ensures
        s@ == chars@,
{
    let mut s = String::new();
    for i in 0..chars.len()
        invariant
            s@ == chars@.take(i as int),
    {
        s.push(chars[i]);
    }
    s
}

/// The texts of a sequence of strings.
pub open spec fn texts(strings: Seq<String>) -> Seq<Seq<char>> {
    strings.map_values(|s: String| s@)
}

/// The texts of a sequence of character vectors.
pub open spec fn views(parts: Seq<Vec<char>>) -> Seq<Seq<char>> {
    parts.map_values(|part: Vec<char>| part@)
}

/// The text of an optional string.
pub open spec fn optional_text(s: Option<String>) -> Option<Seq<char>> {
    match s {
        Some(s) => Some(s@),
        None => None,
    }
}

/// A copy of an optional string.
pub fn copy_optional(s: &Option<String>) -> (copy: Option<String>)
    ensures
        optional_text(copy) == optional_text(*s),
{
    match s {
        Some(text) => Some(text.clone()),
        None => None,
    }
}

/// `prefix` followed by `suffix`.
pub fn concat(prefix: &str, suffix: &str) -> (whole: String)
    ensures
        whole@ == prefix@ + suffix@,
{
    let mut whole = prefix.to_string();
    whole.append(suffix);
    whole
}

/// Three texts, one after the other.
pub fn concat3(a: &str, b: &str, c: &str) -> (whole: String)
    ensures
        whole@ == a@ + b@ + c@,
{
    let mut whole = a.to_string();
    whole.append(b);
    whole.append(c);
    whole
}

/// Appends the characters of `tail` to `head`.
pub fn extend(head: &mut Vec<char>, tail: &[char])
    ensures
        final(head)@ == old(head)@ + tail@,
{
    let ghost start = head@;
    for i in 0..tail.len()
        invariant
            head@ == start + tail@.take(i as int),
    {
        head.push(tail[i]);
        assert(start + tail@.take(i as int + 1) =~= (start + tail@.take(i as int)).push(
            tail@[i as int],
        ));
    }
    assert(tail@.take(tail@.len() as int) =~= tail@);
}

/// The characters `from..to` of a slice.
pub fn subrange(s: &[char], from: usize, to: usize) -> (part: Vec<char>)
    requires
        from <= to <= s@.len(),
    ensures
        part@ == s@.subrange(from as int, to as int),
{
    let mut part: Vec<char> = Vec::new();
    for i in from..to
        invariant
            from <= to <= s@.len(),
            part@ == s@.subrange(from as int, i as int),
    {
        part.push(s[i]);
        assert(s@.subrange(from as int, i as int + 1) =~= s@.subrange(from as int, i as int).push(
            s@[i as int],
        ));
    }
    part
}

// ── Comparison ───────────────────────────────────────────────────────────────

/// Whether two slices hold the same characters.
pub fn chars_equal(a: &[char], b: &[char]) -> (equal: bool)
    ensures
        equal == (a@ == b@),
{
    if a.len() != b.len() {
        return false;
    }
    for i in 0..a.len()
        invariant
            a@.len() == b@.len(),
            forall|j: int| 0 <= j < i ==> a@[j] == b@[j],
    {
        if a[i] != b[i] {
            assert(a@[i as int] != b@[i as int]);
            return false;
        }
    }
    assert(a@ =~= b@);
    true
}

/// Whether two strings hold the same text.
pub fn same(a: &str, b: &str) -> (equal: bool)
    ensures
        equal == (a@ == b@),
{
    let x = chars_of(a);
    let y = chars_of(b);
    chars_equal(&x, &y)
}

/// Whether `list` holds the text `item`.
pub fn list_contains(list: &[String], item: &str) -> (found: bool)
    ensures
        found == texts(list@).contains(item@),
{
    for i in 0..list.len()
        invariant
            forall|j: int| 0 <= j < i ==> texts(list@)[j] != item@,
    {
        if same(&list[i], item) {
            assert(texts(list@)[i as int] == item@);
            return true;
        }
        assert(texts(list@)[i as int] == list@[i as int]@);
    }
    assert forall|j: int| 0 <= j < texts(list@).len() implies texts(list@)[j] != item@ by {}
    false
}

/// Whether `prefix` is how `s` begins.
pub open spec fn has_prefix(s: Seq<char>, prefix: Seq<char>) -> bool {
    prefix.len() <= s.len() && s.take(prefix.len() as int) == prefix
}

/// Whether `suffix` is how `s` ends.
pub open spec fn has_suffix(s: Seq<char>, suffix: Seq<char>) -> bool {
    suffix.len() <= s.len() && s.skip(s.len() - suffix.len()) == suffix
}

/// Whether `pattern` stands in `s` at position `at`.
pub open spec fn stands_at(s: Seq<char>, pattern: Seq<char>, at: int) -> bool {
    0 <= at && at + pattern.len() <= s.len() && s.subrange(at, at + pattern.len()) == pattern
}

/// Whether `pattern` stands anywhere in `s`.
pub open spec fn contains_text(s: Seq<char>, pattern: Seq<char>) -> bool {
    exists|at: int| stands_at(s, pattern, at)
}

/// Whether `pattern` stands in `s` at position `at`.
pub fn matches_at(s: &[char], pattern: &[char], at: usize) -> (matching: bool)
    requires
        at <= s@.len(),
    ensures
        matching == stands_at(s@, pattern@, at as int),
{
    if pattern.len() > s.len() - at {
        return false;
    }
    for i in 0..pattern.len()
        invariant
            at + pattern@.len() <= s.len(),
            forall|j: int| 0 <= j < i ==> s@[at + j] == pattern@[j],
    {
        if s[at + i] != pattern[i] {
            assert(s@.subrange(at as int, at + pattern@.len())[i as int] != pattern@[i as int]);
            return false;
        }
    }
    assert(s@.subrange(at as int, at + pattern@.len()) =~= pattern@);
    true
}

/// Whether `s` begins with `prefix`.
pub fn begins_with(s: &[char], prefix: &[char]) -> (yes: bool)
    ensures
        yes == has_prefix(s@, prefix@),
{
    let yes = matches_at(s, prefix, 0);
    assert(prefix@.len() <= s@.len() ==> s@.take(prefix@.len() as int) =~= s@.subrange(
        0,
        prefix@.len() as int,
    ));
    yes
}

/// Whether `s` ends with `suffix`.
pub fn finishes_with(s: &[char], suffix: &[char]) -> (yes: bool)
    ensures
        yes == has_suffix(s@, suffix@),
{
    if suffix.len() > s.len() {
        return false;
    }
    let yes = matches_at(s, suffix, s.len() - suffix.len());
    assert(s@.skip(s@.len() - suffix@.len()) =~= s@.subrange(
        s@.len() - suffix@.len(),
        s@.len() as int,
    ));
    yes
}

/// Whether the string `s` begins with `prefix`.
pub fn starts_with(s: &str, prefix: &str) -> (yes: bool)
    ensures
        yes == has_prefix(s@, prefix@),
{
    let a = chars_of(s);
    let b = chars_of(prefix);
    begins_with(&a, &b)
}

/// Whether the string `s` ends with `suffix`.
pub fn ends_with(s: &str, suffix: &str) -> (yes: bool)
    ensures
        yes == has_suffix(s@, suffix@),
{
    let a = chars_of(s);
    let b = chars_of(suffix);
    finishes_with(&a, &b)
}

/// The first place of `pattern` in `s` at or behind `from`.
pub open spec fn first_place(s: Seq<char>, pattern: Seq<char>, from: int, place: Option<int>) -> bool {
    match place {
        Some(at) => from <= at && stands_at(s, pattern, at) && forall|j: int|
            from <= j < at ==> !stands_at(s, pattern, j),
        None => forall|j: int| from <= j ==> !stands_at(s, pattern, j),
    }
}

/// Finds the first place of `pattern` in `s` at or behind `from`.
pub fn find(s: &[char], pattern: &[char], from: usize) -> (place: Option<usize>)
    requires
        from <= s@.len(),
    ensures
        place matches Some(at) ==> first_place(s@, pattern@, from as int, Some(at as int)),
        place is None ==> first_place(s@, pattern@, from as int, None),
{
    let mut at: usize = from;
    while at < s.len()
        invariant
            from <= at <= s@.len(),
            forall|j: int| from <= j < at ==> !stands_at(s@, pattern@, j),
        decreases s@.len() - at,
    {
        if matches_at(s, pattern, at) {
            return Some(at);
        }
        at = at + 1;
    }
    if matches_at(s, pattern, at) {
        return Some(at);
    }
    None
}

/// Whether the string `s` contains `pattern`.
pub fn contains(s: &str, pattern: &str) -> (found: bool)
    ensures
        found == contains_text(s@, pattern@),
{
    let a = chars_of(s);
    let b = chars_of(pattern);
    match find(&a, &b, 0) {
        Some(at) => {
            assert(stands_at(s@, pattern@, at as int));
            true
        },
        None => {
            assert forall|j: int| !stands_at(s@, pattern@, j) by {
                if 0 <= j {
                }
            }
            false
        },
    }
}

/// What is left of `s` without the leading `prefix`; `None` where it has none.
pub open spec fn without_prefix(s: Seq<char>, prefix: Seq<char>) -> Option<Seq<char>> {
    if has_prefix(s, prefix) {
        Some(s.skip(prefix.len() as int))
    } else {
        None
    }
}

/// What is left of `s` without the trailing `suffix`; `None` where it has none.
pub open spec fn without_suffix(s: Seq<char>, suffix: Seq<char>) -> Option<Seq<char>> {
    if has_suffix(s, suffix) {
        Some(s.take(s.len() - suffix.len()))
    } else {
        None
    }
}

/// Takes the leading `prefix` off `s`.
pub fn strip_prefix(s: &str, prefix: &str) -> (rest: Option<String>)
    ensures
        optional_text(rest) == without_prefix(s@, prefix@),
{
    let a = chars_of(s);
    let b = chars_of(prefix);
    if !begins_with(&a, &b) {
        return None;
    }
    let part = subrange(&a, b.len(), a.len());
    assert(part@ =~= s@.skip(prefix@.len() as int));
    Some(string_of(&part))
}

/// Takes the trailing `suffix` off `s`.
pub fn strip_suffix(s: &str, suffix: &str) -> (rest: Option<String>)
    ensures
        optional_text(rest) == without_suffix(s@, suffix@),
{
    let a = chars_of(s);
    let b = chars_of(suffix);
    if !finishes_with(&a, &b) {
        return None;
    }
    let part = subrange(&a, 0, a.len() - b.len());
    assert(part@ =~= s@.take(s@.len() - suffix@.len()));
    Some(string_of(&part))
}

/// The texts before and behind the first `separator` in `s`.
pub open spec fn is_split_once(
    s: Seq<char>,
    separator: Seq<char>,
    parts: Option<(Seq<char>, Seq<char>)>,
) -> bool {
    match parts {
        Some((before, behind)) => before + separator + behind == s && first_place(
            s,
            separator,
            0,
            Some(before.len() as int),
        ),
        None => first_place(s, separator, 0, None),
    }
}

/// The texts of an optional pair of strings.
pub open spec fn pair_texts(pair: Option<(String, String)>) -> Option<(Seq<char>, Seq<char>)> {
    match pair {
        Some((a, b)) => Some((a@, b@)),
        None => None,
    }
}

/// The texts before and behind the first `separator` in `s`, where there is one.
pub open spec fn split_pair(s: Seq<char>, separator: Seq<char>) -> Option<(Seq<char>, Seq<char>)> {
    choose|parts: Option<(Seq<char>, Seq<char>)>| is_split_once(s, separator, parts)
}

/// Splits `s` at the first `separator`.
pub fn split_once(s: &str, separator: &str) -> (parts: Option<(String, String)>)
    ensures
        is_split_once(s@, separator@, pair_texts(parts)),
        pair_texts(parts) == split_pair(s@, separator@),
{
    let a = chars_of(s);
    let b = chars_of(separator);
    let parts = match find(&a, &b, 0) {
        Some(at) => {
            assert(at + b@.len() <= a.len());
            let before = subrange(&a, 0, at);
            let behind = subrange(&a, at + b.len(), a.len());
            assert(before@ + separator@ + behind@ =~= s@) by {
                assert(s@.subrange(at as int, at + separator@.len()) == separator@);
            }
            Some((string_of(&before), string_of(&behind)))
        },
        None => None,
    };
    assert(is_split_once(s@, separator@, pair_texts(parts)));
    proof {
        lemma_split_once_unique(
            s@,
            separator@,
            pair_texts(parts),
            split_pair(s@, separator@),
        );
    }
    parts
}

/// Splitting once is unambiguous.
pub proof fn lemma_split_once_unique(
    s: Seq<char>,
    separator: Seq<char>,
    a: Option<(Seq<char>, Seq<char>)>,
    b: Option<(Seq<char>, Seq<char>)>,
)
    requires
        is_split_once(s, separator, a),
        is_split_once(s, separator, b),
    ensures
        a == b,
{
    if let (Some((x, y)), Some((v, w))) = (a, b) {
        assert(stands_at(s, separator, x.len() as int));
        assert(stands_at(s, separator, v.len() as int));
        assert(x.len() == v.len());
        assert(x =~= s.take(x.len() as int));
        assert(v =~= s.take(x.len() as int));
        assert(y =~= s.skip((x + separator).len() as int));
        assert(w =~= s.skip((v + separator).len() as int));
    } else if let Some((x, y)) = a {
        assert(stands_at(s, separator, x.len() as int));
    } else if let Some((v, w)) = b {
        assert(stands_at(s, separator, v.len() as int));
    }
}

// ── Character classes ────────────────────────────────────────────────────────

/// The characters that Unicode calls white space.
pub open spec fn is_white(c: char) -> bool {
    let code = c as u32;
    ||| 0x09 <= code <= 0x0d
    ||| code == 0x20
    ||| code == 0x85
    ||| code == 0xa0
    ||| code == 0x1680
    ||| 0x2000 <= code <= 0x200a
    ||| code == 0x2028
    ||| code == 0x2029
    ||| code == 0x202f
    ||| code == 0x205f
    ||| code == 0x3000
}

/// Whether `c` is white space.
pub fn white(c: char) -> (yes: bool)
    ensures
        yes == is_white(c),
{
    let code: u32 = c as u32;
    (0x09 <= code && code <= 0x0d) || code == 0x20 || code == 0x85 || code == 0xa0 || code == 0x1680
        || (0x2000 <= code && code <= 0x200a) || code == 0x2028 || code == 0x2029 || code == 0x202f
        || code == 0x205f || code == 0x3000
}

/// The characters that Unicode calls control characters.
pub open spec fn is_control(c: char) -> bool {
    (c as u32) < 0x20 || 0x7f <= (c as u32) <= 0x9f
}

/// Whether `c` is a control character.
pub fn control(c: char) -> (yes: bool)
    ensures
        yes == is_control(c),
{
    let code: u32 = c as u32;
    code < 0x20 || (0x7f <= code && code <= 0x9f)
}

/// The ASCII digits.
pub open spec fn is_digit(c: char) -> bool {
    '0' <= c <= '9'
}

/// Whether `c` is an ASCII digit.
pub fn digit(c: char) -> (yes: bool)
    ensures
        yes == is_digit(c),
{
    '0' <= c && c <= '9'
}

/// The ASCII letters.
pub open spec fn is_letter(c: char) -> bool {
    'a' <= c <= 'z' || 'A' <= c <= 'Z'
}

/// The ASCII letters and digits.
pub open spec fn is_alphanumeric(c: char) -> bool {
    is_letter(c) || is_digit(c)
}

/// Whether `c` is an ASCII letter or digit.
pub fn alphanumeric(c: char) -> (yes: bool)
    ensures
        yes == is_alphanumeric(c),
{
    ('a' <= c && c <= 'z') || ('A' <= c && c <= 'Z') || ('0' <= c && c <= '9')
}

/// `c` with an ASCII capital letter turned into its small one.
pub open spec fn lower_char(c: char) -> char {
    if 'A' <= c <= 'Z' {
        (c as u32 + 32) as char
    } else {
        c
    }
}

/// Turns an ASCII capital letter into its small one.
pub fn lower(c: char) -> (l: char)
    ensures
        l == lower_char(c),
{
    if 'A' <= c && c <= 'Z' {
        ((c as u8) + 32) as char
    } else {
        c
    }
}

/// `s` with every ASCII capital letter turned into its small one.
pub open spec fn lowercase(s: Seq<char>) -> Seq<char> {
    s.map_values(|c: char| lower_char(c))
}

/// Turns every ASCII capital letter of `s` into its small one.
pub fn to_lowercase(s: &[char]) -> (l: Vec<char>)
    ensures
        l@ == lowercase(s@),
{
    let mut l: Vec<char> = Vec::new();
    for i in 0..s.len()
        invariant
            l@ == lowercase(s@).take(i as int),
    {
        l.push(lower(s[i]));
        assert(l@ =~= lowercase(s@).take(i as int + 1));
    }
    assert(lowercase(s@).take(s@.len() as int) =~= lowercase(s@));
    l
}

// ── Trimming ─────────────────────────────────────────────────────────────────

/// `s` without its leading white space.
pub open spec fn trimmed_start(s: Seq<char>) -> Seq<char>
    decreases s.len(),
{
    if s.len() > 0 && is_white(s[0]) {
        trimmed_start(s.skip(1))
    } else {
        s
    }
}

/// `s` without its trailing white space.
pub open spec fn trimmed_end(s: Seq<char>) -> Seq<char>
    decreases s.len(),
{
    if s.len() > 0 && is_white(s.last()) {
        trimmed_end(s.drop_last())
    } else {
        s
    }
}

/// `s` without the white space around it.
pub open spec fn trimmed(s: Seq<char>) -> Seq<char> {
    trimmed_end(trimmed_start(s))
}

/// Takes the white space around `s` off.
pub fn trim_chars(s: &[char]) -> (t: Vec<char>)
    ensures
        t@ == trimmed(s@),
{
    let mut from: usize = 0;
    assert(s@.skip(0) =~= s@);
    while from < s.len() && white(s[from])
        invariant
            from <= s@.len(),
            trimmed_start(s@) == trimmed_start(s@.skip(from as int)),
        decreases s@.len() - from,
    {
        assert(s@.skip(from as int).skip(1) =~= s@.skip(from as int + 1));
        from = from + 1;
    }
    assert(trimmed_start(s@) == s@.skip(from as int)) by {
        if from < s@.len() {
            assert(s@.skip(from as int)[0] == s@[from as int]);
        }
    }
    let mut to: usize = s.len();
    assert(s@.subrange(from as int, to as int) =~= s@.skip(from as int));
    while to > from && white(s[to - 1])
        invariant
            from <= to <= s@.len(),
            trimmed(s@) == trimmed_end(s@.subrange(from as int, to as int)),
        decreases to,
    {
        assert(s@.subrange(from as int, to as int).drop_last() =~= s@.subrange(
            from as int,
            to as int - 1,
        ));
        to = to - 1;
    }
    assert(trimmed(s@) == s@.subrange(from as int, to as int)) by {
        if from < to {
            assert(s@.subrange(from as int, to as int).last() == s@[to as int - 1]);
        }
    }
    subrange(s, from, to)
}

/// Takes the white space around the string `s` off.
pub fn trim(s: &str) -> (t: String)
    ensures
        t@ == trimmed(s@),
{
    let a = chars_of(s);
    let b = trim_chars(&a);
    string_of(&b)
}

// ── Splitting and joining ────────────────────────────────────────────────────

/// What separates the pieces of a text.
#[derive(Clone, Copy)]
pub enum Separator {
    /// Any white space.
    White,
    /// One given character.
    Char(char),
    /// Anything but digits and the minus sign.
    NonNumber,
}

impl Separator {
    /// Whether `c` separates two pieces.
    pub open spec fn splits(self, c: char) -> bool {
        match self {
            Separator::White => is_white(c),
            Separator::Char(d) => c == d,
            Separator::NonNumber => !(c == '-' || is_digit(c)),
        }
    }

    /// Whether `c` separates two pieces.
    pub fn is_at(&self, c: char) -> (yes: bool)
        ensures
            yes == self.splits(c),
    {
        match self {
            Separator::White => white(c),
            Separator::Char(d) => c == *d,
            Separator::NonNumber => !(c == '-' || digit(c)),
        }
    }
}

/// The pieces of `s` between its separators. There is always one more piece
/// than there are separators, and pieces may be empty.
pub open spec fn pieces(s: Seq<char>, separator: Separator) -> Seq<Seq<char>>
    decreases s.len(),
{
    if s.len() == 0 {
        seq![Seq::<char>::empty()]
    } else {
        let before = pieces(s.drop_last(), separator);
        if separator.splits(s.last()) {
            before.push(Seq::<char>::empty())
        } else {
            before.drop_last().push(before.last().push(s.last()))
        }
    }
}

/// Splits `s` at its separators.
pub fn split(s: &[char], separator: Separator) -> (parts: Vec<Vec<char>>)
    ensures
        views(parts@) == pieces(s@, separator),
        parts@.len() >= 1,
{
    let mut done: Vec<Vec<char>> = Vec::new();
    let mut current: Vec<char> = Vec::new();
    assert(views(done@).push(current@) =~= pieces(s@.take(0), separator));
    for i in 0..s.len()
        invariant
            views(done@).push(current@) == pieces(s@.take(i as int), separator),
    {
        let ghost before = views(done@).push(current@);
        assert(s@.take(i as int + 1).drop_last() =~= s@.take(i as int));
        assert(before.drop_last() =~= views(done@));
        if separator.is_at(s[i]) {
            done.push(current);
            current = Vec::new();
            assert(views(done@) =~= before);
        } else {
            current.push(s[i]);
        }
    }
    assert(s@.take(s@.len() as int) =~= s@);
    let ghost all = views(done@).push(current@);
    done.push(current);
    assert(views(done@) =~= all);
    done
}

/// The non-empty texts of `parts`, in order.
pub open spec fn non_empty(parts: Seq<Seq<char>>) -> Seq<Seq<char>>
    decreases parts.len(),
{
    if parts.len() == 0 {
        Seq::empty()
    } else {
        let before = non_empty(parts.drop_last());
        if parts.last().len() == 0 {
            before
        } else {
            before.push(parts.last())
        }
    }
}

/// The words of `s`: its longest runs without white space.
pub open spec fn words(s: Seq<char>) -> Seq<Seq<char>> {
    non_empty(pieces(s, Separator::White))
}

/// Splits a string into its words.
pub fn split_words(s: &str) -> (parts: Vec<String>)
    ensures
        texts(parts@) == words(s@),
{
    let a = chars_of(s);
    let all = split(&a, Separator::White);
    let mut parts: Vec<String> = Vec::new();
    assert(texts(parts@) =~= non_empty(views(all@).take(0)));
    for i in 0..all.len()
        invariant
            texts(parts@) == non_empty(views(all@).take(i as int)),
    {
        let ghost before = texts(parts@);
        assert(views(all@).take(i as int + 1).drop_last() =~= views(all@).take(i as int));
        if all[i].len() > 0 {
            parts.push(string_of(&all[i]));
            assert(texts(parts@) =~= before.push(all@[i as int]@));
        }
    }
    assert(views(all@).take(all@.len() as int) =~= views(all@));
    parts
}

/// `line` without a carriage return at its end.
pub open spec fn without_return(line: Seq<char>) -> Seq<char> {
    if line.len() > 0 && line.last() == '\r' {
        line.drop_last()
    } else {
        line
    }
}

/// The lines of `s`. A line break at the very end opens no further line, and a
/// carriage return before a line break belongs to the break.
pub open spec fn lines(s: Seq<char>) -> Seq<Seq<char>> {
    let parts = pieces(s, Separator::Char('\n'));
    let ended = parts.drop_last().map_values(|line: Seq<char>| without_return(line));
    if parts.last().len() == 0 {
        ended
    } else {
        ended.push(parts.last())
    }
}

/// Splits a string into its lines.
pub fn split_lines(s: &str) -> (parts: Vec<String>)
    ensures
        texts(parts@) == lines(s@),
{
    let a = chars_of(s);
    let all = split(&a, Separator::Char('\n'));
    let mut parts: Vec<String> = Vec::new();
    let last: usize = all.len() - 1;
    let ghost ended = views(all@).drop_last().map_values(|line: Seq<char>| without_return(line));
    for i in 0..last
        invariant
            last == all@.len() - 1,
            ended == views(all@).drop_last().map_values(|line: Seq<char>| without_return(line)),
            texts(parts@) == ended.take(i as int),
    {
        let ghost before = texts(parts@);
        let n = all[i].len();
        if n > 0 && all[i][n - 1] == '\r' {
            let line = subrange(&all[i], 0, n - 1);
            assert(line@ =~= without_return(all@[i as int]@));
            parts.push(string_of(&line));
        } else {
            parts.push(string_of(&all[i]));
        }
        assert(texts(parts@) =~= before.push(ended[i as int]));
        assert(texts(parts@) =~= ended.take(i as int + 1));
    }
    assert(ended.take(last as int) =~= ended);
    if all[last].len() > 0 {
        parts.push(string_of(&all[last]));
        assert(texts(parts@) =~= ended.push(all@[last as int]@));
    }
    parts
}

/// `parts` one after the other with `separator` between them.
pub open spec fn joined(parts: Seq<Seq<char>>, separator: Seq<char>) -> Seq<char>
    decreases parts.len(),
{
    if parts.len() == 0 {
        Seq::empty()
    } else if parts.len() == 1 {
        parts[0]
    } else {
        joined(parts.drop_last(), separator) + separator + parts.last()
    }
}

/// Joins `parts` with `separator` between them.
pub fn join(parts: &[String], separator: &str) -> (whole: String)
    ensures
        whole@ == joined(texts(parts@), separator@),
{
    let mut whole = String::new();
    assert(texts(parts@).take(0) =~= Seq::<Seq<char>>::empty());
    for i in 0..parts.len()
        invariant
            whole@ == joined(texts(parts@).take(i as int), separator@),
    {
        let ghost next = texts(parts@).take(i as int + 1);
        assert(next.drop_last() =~= texts(parts@).take(i as int));
        assert(next.last() == parts@[i as int]@);
        if i > 0 {
            whole.append(separator);
        }
        whole.append(&parts[i]);
        assert(whole@ =~= joined(next, separator@));
    }
    assert(texts(parts@).take(parts@.len() as int) =~= texts(parts@));
    whole
}

// ── Replacing ────────────────────────────────────────────────────────────────

/// `s` with every `pattern` replaced by `by`, taken from the left, without
/// overlaps; what was put in is not searched again.
pub open spec fn replaced(s: Seq<char>, pattern: Seq<char>, by: Seq<char>) -> Seq<char>
    decreases s.len(),
{
    if pattern.len() == 0 || s.len() == 0 {
        s
    } else if has_prefix(s, pattern) {
        by + replaced(s.skip(pattern.len() as int), pattern, by)
    } else {
        seq![s[0]] + replaced(s.skip(1), pattern, by)
    }
}

/// Replaces every `pattern` in `s` by `by`.
pub fn replace(s: &str, pattern: &str, by: &str) -> (out: String)
    requires
        pattern@.len() > 0,
    ensures
        out@ == replaced(s@, pattern@, by@),
{
    let a = chars_of(s);
    let p = chars_of(pattern);
    let b = chars_of(by);
    let mut out: Vec<char> = Vec::new();
    let mut i: usize = 0;
    assert(out@ + replaced(a@.skip(0), p@, b@) =~= replaced(a@, p@, b@)) by {
        assert(a@.skip(0) =~= a@);
    }
    while i < a.len()
        invariant
            p@.len() > 0,
            i <= a@.len(),
            out@ + replaced(a@.skip(i as int), p@, b@) == replaced(a@, p@, b@),
        decreases a@.len() - i,
    {
        let ghost before = out@;
        let ghost rest = a@.skip(i as int);
        if matches_at(&a, &p, i) {
            assert(rest.take(p@.len() as int) =~= a@.subrange(i as int, i + p@.len()));
            assert(rest.skip(p@.len() as int) =~= a@.skip(i + p@.len()));
            extend(&mut out, &b);
            i = i + p.len();
            assert(out@ + replaced(a@.skip(i as int), p@, b@) =~= before + replaced(rest, p@, b@));
        } else {
            assert(!has_prefix(rest, p@)) by {
                if has_prefix(rest, p@) {
                    assert(rest.take(p@.len() as int) =~= a@.subrange(i as int, i + p@.len()));
                }
            }
            assert(rest.skip(1) =~= a@.skip(i + 1));
            out.push(a[i]);
            i = i + 1;
            assert(out@ + replaced(a@.skip(i as int), p@, b@) =~= before + replaced(rest, p@, b@));
        }
    }
    assert(replaced(a@.skip(i as int), p@, b@) =~= Seq::<char>::empty());
    assert(out@ =~= replaced(a@, p@, b@));
    string_of(&out)
}

// ── Order ────────────────────────────────────────────────────────────────────

/// Whether `a` comes before `b` in the order of their characters.
pub open spec fn text_less(a: Seq<char>, b: Seq<char>) -> bool
    decreases a.len(),
{
    if b.len() == 0 {
        false
    } else if a.len() == 0 {
        true
    } else if a[0] == b[0] {
        text_less(a.skip(1), b.skip(1))
    } else {
        a[0] < b[0]
    }
}

/// Whether the string `a` comes before `b`.
pub fn less(a: &str, b: &str) -> (yes: bool)
    ensures
        yes == text_less(a@, b@),
{
    let x = chars_of(a);
    let y = chars_of(b);
    let mut i: usize = 0;
    assert(x@.skip(0) =~= x@);
    assert(y@.skip(0) =~= y@);
    while i < x.len() && i < y.len() && x[i] == y[i]
        invariant
            i <= x@.len(),
            i <= y@.len(),
            text_less(x@, y@) == text_less(x@.skip(i as int), y@.skip(i as int)),
        decreases x@.len() - i,
    {
        assert(x@.skip(i as int).skip(1) =~= x@.skip(i as int + 1));
        assert(y@.skip(i as int).skip(1) =~= y@.skip(i as int + 1));
        i = i + 1;
    }
    if i >= y.len() {
        false
    } else if i >= x.len() {
        true
    } else {
        x[i] < y[i]
    }
}

/// The order of texts is total.
pub proof fn lemma_text_less_total(a: Seq<char>, b: Seq<char>)
    ensures
        text_less(a, b) || text_less(b, a) || a == b,
        !(text_less(a, b) && text_less(b, a)),
        !text_less(a, a),
    decreases a.len(),
{
    if a.len() == 0 || b.len() == 0 {
        if a.len() == 0 && b.len() == 0 {
            assert(a =~= b);
        }
        if a.len() > 0 {
            lemma_text_less_total(a.skip(1), a.skip(1));
        }
    } else {
        lemma_text_less_total(a.skip(1), b.skip(1));
        if a[0] == b[0] && a.skip(1) == b.skip(1) {
            assert(a =~= seq![a[0]] + a.skip(1));
            assert(b =~= seq![b[0]] + b.skip(1));
        }
        lemma_text_less_total(a.skip(1), a.skip(1));
    }
}

/// The order of texts is transitive.
pub proof fn lemma_text_less_transitive(a: Seq<char>, b: Seq<char>, c: Seq<char>)
    requires
        text_less(a, b),
        text_less(b, c),
    ensures
        text_less(a, c),
    decreases a.len(),
{
    if a.len() > 0 && a[0] == b[0] && b[0] == c[0] {
        lemma_text_less_transitive(a.skip(1), b.skip(1), c.skip(1));
    }
}

} // verus!
