//! Patterns for device names: `?` stands for one byte and `*` for any number.

use vstd::prelude::*;
use vstd::string::StringSliceAdditionalSpecFns;
use vstd::utf8::encode_utf8;

verus! {

/// The byte of `*`.
pub const STAR: u8 = 0x2a;

/// The byte of `?`.
pub const QUESTION: u8 = 0x3f;

/// Whether `pattern` fits `text`. A `*` of the pattern that meets a `*` in the
/// text stands for that one byte.
pub open spec fn fits(pattern: Seq<u8>, text: Seq<u8>) -> bool
    decreases pattern.len(), 0nat,
{
    if pattern.len() == 0 {
        text.len() == 0
    } else if text.len() > 0 && (pattern[0] == QUESTION || pattern[0] == text[0]) {
        fits(pattern.skip(1), text.skip(1))
    } else if pattern[0] == STAR {
        fits_some_tail(pattern.skip(1), text)
    } else {
        false
    }
}

/// Whether `pattern` fits `text` without some bytes at its beginning.
pub open spec fn fits_some_tail(pattern: Seq<u8>, text: Seq<u8>) -> bool
    decreases pattern.len(), text.len() + 1,
{
    fits(pattern, text) || (text.len() > 0 && fits_some_tail(pattern, text.skip(1)))
}

/// What the pattern language means: `*` stands for any bytes, `?` for any one,
/// and every other byte for itself.
pub open spec fn glob(pattern: Seq<u8>, text: Seq<u8>) -> bool
    decreases pattern.len() + text.len(),
{
    if pattern.len() == 0 {
        text.len() == 0
    } else if pattern[0] == STAR {
        glob(pattern.skip(1), text) || (text.len() > 0 && glob(pattern, text.skip(1)))
    } else {
        text.len() > 0 && (pattern[0] == QUESTION || pattern[0] == text[0]) && glob(
            pattern.skip(1),
            text.skip(1),
        )
    }
}

/// Whether `*` stands nowhere in `text`.
pub open spec fn without_star(text: Seq<u8>) -> bool {
    forall|i: int| 0 <= i < text.len() ==> #[trigger] text[i] != STAR
}

/// What fits is what a pattern means; on a text without `*`, all that it means
/// fits.
pub proof fn law_fits_is_glob(pattern: Seq<u8>, text: Seq<u8>)
    ensures
        fits(pattern, text) ==> glob(pattern, text),
        without_star(text) ==> fits(pattern, text) == glob(pattern, text),
    decreases pattern.len() + text.len(), 1nat,
{
    if pattern.len() > 0 {
        let rest = pattern.skip(1);
        if text.len() > 0 {
            let tail = text.skip(1);
            law_fits_is_glob(rest, tail);
            law_fits_is_glob(pattern, tail);
            law_fits_is_glob(rest, text);
            if pattern[0] == STAR {
                lemma_star_takes_tail(pattern, text);
                assert(glob(pattern, text) == (glob(rest, text) || glob(pattern, tail)));
                assert(glob(rest, tail) ==> glob(pattern, tail));
                assert(fits_some_tail(rest, text) == (fits(rest, text) || fits_some_tail(
                    rest,
                    tail,
                )));
            }
            if without_star(text) {
                assert(text[0] != STAR);
                assert forall|i: int| 0 <= i < tail.len() implies #[trigger] tail[i] != STAR by {
                    assert(tail[i] == text[i + 1]);
                }
                if pattern[0] == STAR {
                    if tail.len() > 0 {
                        assert(tail[0] != STAR);
                    }
                    assert(fits(pattern, tail) == fits_some_tail(rest, tail));
                }
            }
        } else {
            law_fits_is_glob(rest, text);
            assert(fits_some_tail(rest, text) == fits(rest, text));
        }
    }
}

/// Whether no byte of a pattern is special.
pub open spec fn plain(pattern: Seq<u8>) -> bool {
    forall|i: int|
        0 <= i < pattern.len() ==> #[trigger] pattern[i] != STAR && pattern[i] != QUESTION
}

/// A pattern without special bytes fits itself alone.
pub proof fn law_plain_pattern(pattern: Seq<u8>, text: Seq<u8>)
    requires
        plain(pattern),
    ensures
        fits(pattern, text) == (pattern == text),
    decreases pattern.len(),
{
    if pattern.len() == 0 {
        assert(text.len() == 0 ==> pattern =~= text);
    } else {
        let rest = pattern.skip(1);
        assert(pattern[0] != STAR && pattern[0] != QUESTION);
        assert forall|i: int| 0 <= i < rest.len() implies #[trigger] rest[i] != STAR && rest[i]
            != QUESTION by {
            assert(rest[i] == pattern[i + 1]);
        }
        if text.len() > 0 {
            law_plain_pattern(rest, text.skip(1));
            assert(pattern =~= seq![pattern[0]] + rest);
            assert(text =~= seq![text[0]] + text.skip(1));
        }
    }
}

proof fn lemma_star_takes_tail(pattern: Seq<u8>, text: Seq<u8>)
    requires
        pattern.len() > 0,
        pattern[0] == STAR,
    ensures
        fits_some_tail(pattern.skip(1), text) ==> glob(pattern, text),
    decreases pattern.len() + text.len(), 0nat,
{
    let rest = pattern.skip(1);
    law_fits_is_glob(rest, text);
    if text.len() > 0 {
        lemma_star_takes_tail(pattern, text.skip(1));
    }
}

proof fn lemma_some_tail(pattern: Seq<u8>, text: Seq<u8>)
    ensures
        fits_some_tail(pattern, text) <==> exists|k: int|
            0 <= k <= text.len() && #[trigger] fits(pattern, text.skip(k)),
    decreases text.len(),
{
    assert(text.skip(0) =~= text);
    assert(fits(pattern, text.skip(0)) == fits(pattern, text));
    if text.len() > 0 {
        let tail = text.skip(1);
        lemma_some_tail(pattern, tail);
        if fits_some_tail(pattern, tail) {
            let k = choose|k: int| 0 <= k <= tail.len() && #[trigger] fits(pattern, tail.skip(k));
            assert(tail.skip(k) =~= text.skip(k + 1));
            assert(fits(pattern, text.skip(k + 1)));
        }
        if exists|k: int| 0 <= k <= text.len() && #[trigger] fits(pattern, text.skip(k)) {
            let k = choose|k: int| 0 <= k <= text.len() && #[trigger] fits(pattern, text.skip(k));
            if k > 0 {
                assert(tail.skip(k - 1) =~= text.skip(k));
                assert(fits(pattern, tail.skip(k - 1)));
            }
        }
    }
}

/// Whether the pattern from `s + 1` fits the text from some place behind
/// `retry`.
spec fn later_fit(pattern: Seq<u8>, text: Seq<u8>, s: int, retry: int) -> bool {
    exists|k: int|
        retry < k <= text.len() && #[trigger] fits(pattern.skip(s + 1), text.skip(k))
}

/// A part of the pattern that was read byte for byte up to `t` leads no fit
/// that starts later to an earlier place.
proof fn lemma_never_behind(
    pattern: Seq<u8>,
    text: Seq<u8>,
    a: int,
    cur: int,
    p: int,
    t: int,
    k: int,
)
    requires
        0 <= a <= p <= pattern.len(),
        0 <= cur <= t <= text.len(),
        p - a == t - cur,
        forall|i: int|
            a <= i < p ==> #[trigger] pattern[i] == QUESTION || pattern[i] == text[cur + i - a],
        cur <= k <= text.len(),
        fits(pattern.skip(a), text.skip(k)),
    ensures
        exists|j: int| t <= j <= text.len() && #[trigger] fits(pattern.skip(p), text.skip(j)),
    decreases p - a,
{
    if a == p {
        assert(fits(pattern.skip(p), text.skip(k)));
    } else {
        let rest = pattern.skip(a);
        let tail = text.skip(k);
        assert(rest[0] == pattern[a]);
        assert(rest.skip(1) =~= pattern.skip(a + 1));
        if tail.len() > 0 && (rest[0] == QUESTION || rest[0] == tail[0]) {
            assert(tail.skip(1) =~= text.skip(k + 1));
            lemma_never_behind(pattern, text, a + 1, cur + 1, p, t, k + 1);
        } else {
            assert(rest[0] == STAR);
            lemma_some_tail(rest.skip(1), tail);
            let m = choose|m: int|
                0 <= m <= tail.len() && #[trigger] fits(rest.skip(1), tail.skip(m));
            assert(tail.skip(m) =~= text.skip(k + m));
            assert(k != cur) by {
                if k == cur {
                    assert(tail[0] == text[cur]);
                    assert(pattern[a] == QUESTION || pattern[a] == text[cur + a - a]);
                }
            }
            lemma_never_behind(pattern, text, a + 1, cur + 1, p, t, k + m);
        }
    }
}

/// Only stars fit nothing.
proof fn lemma_fits_nothing(pattern: Seq<u8>)
    ensures
        fits(pattern, Seq::<u8>::empty()) <==> forall|i: int|
            0 <= i < pattern.len() ==> #[trigger] pattern[i] == STAR,
    decreases pattern.len(),
{
    if pattern.len() > 0 {
        let none = Seq::<u8>::empty();
        let rest = pattern.skip(1);
        lemma_fits_nothing(rest);
        assert(none.skip(0) =~= none);
        if pattern[0] == STAR {
            assert(fits(pattern, none) == fits_some_tail(rest, none));
        }
        if fits(pattern, none) {
            assert forall|i: int| 0 <= i < pattern.len() implies #[trigger] pattern[i]
                == STAR by {
                if i > 0 {
                    assert(rest[i - 1] == pattern[i]);
                }
            }
        }
        if forall|i: int| 0 <= i < pattern.len() ==> #[trigger] pattern[i] == STAR {
            assert forall|i: int| 0 <= i < rest.len() implies #[trigger] rest[i] == STAR by {
                assert(rest[i] == pattern[i + 1]);
            }
            assert(pattern[0] == STAR);
        }
    }
}

fn fits_bytes(pattern: &[u8], text: &[u8]) -> (matching: bool)
    ensures
        matching == fits(pattern@, text@),
{
    let mut p: usize = 0;
    let mut t: usize = 0;
    let mut star: Option<usize> = None;
    let mut retry: usize = 0;
    let ghost whole = fits(pattern@, text@);
    proof {
        assert(pattern@.skip(0) =~= pattern@);
        assert(text@.skip(0) =~= text@);
    }
    while t < text.len()
        invariant
            p <= pattern@.len(),
            t <= text@.len(),
            whole == fits(pattern@, text@),
            match star {
                None => whole == fits(pattern@.skip(p as int), text@.skip(t as int)),
                Some(s) => {
                    &&& s < p
                    &&& retry <= t
                    &&& p - (s + 1) == t - retry
                    &&& pattern@[s as int] == STAR
                    &&& forall|i: int|
                        s < i < p ==> #[trigger] pattern@[i] == QUESTION || pattern@[i]
                            == text@[retry + i - (s + 1)]
                    &&& whole == (fits(pattern@.skip(p as int), text@.skip(t as int)) || later_fit(
                        pattern@,
                        text@,
                        s as int,
                        retry as int,
                    ))
                },
            },
        decreases
                text@.len() - (if star is Some {
                    retry
                } else {
                    0
                }),
                pattern@.len() - (match star {
                    Some(s) => s + 1,
                    None => 0int,
                }),
                pattern@.len() - p,
    {
        let ghost rest = pattern@.skip(p as int);
        let ghost tail = text@.skip(t as int);
        proof {
            if p < pattern@.len() {
                assert(rest[0] == pattern@[p as int]);
                assert(rest.skip(1) =~= pattern@.skip(p as int + 1));
            }
            assert(tail[0] == text@[t as int]);
            assert(tail.skip(1) =~= text@.skip(t as int + 1));
        }
        if p < pattern.len() && (pattern[p] == QUESTION || pattern[p] == text[t]) {
            assert(fits(rest, tail) == fits(rest.skip(1), tail.skip(1)));
            p = p + 1;
            t = t + 1;
        } else if p < pattern.len() && pattern[p] == STAR {
            proof {
                // The star takes over: it can do all that the one before it could.
                let now = fits(pattern@.skip(p + 1), text@.skip(t as int)) || later_fit(
                    pattern@,
                    text@,
                    p as int,
                    t as int,
                );
                lemma_some_tail(rest.skip(1), tail);
                assert(fits(rest, tail) == now) by {
                    if fits(rest, tail) {
                        let k = choose|k: int|
                            0 <= k <= tail.len() && #[trigger] fits(rest.skip(1), tail.skip(k));
                        assert(tail.skip(k) =~= text@.skip(t + k));
                        if k == 0 {
                            assert(text@.skip(t + k) =~= tail);
                        } else {
                            assert(fits(pattern@.skip(p + 1), text@.skip(t + k)));
                        }
                    }
                    if fits(pattern@.skip(p + 1), tail) {
                        assert(tail.skip(0) =~= tail);
                        assert(fits(rest.skip(1), tail.skip(0)));
                    }
                    if later_fit(pattern@, text@, p as int, t as int) {
                        let k = choose|k: int|
                            t < k <= text@.len() && #[trigger] fits(
                                pattern@.skip(p + 1),
                                text@.skip(k),
                            );
                        assert(tail.skip(k - t) =~= text@.skip(k));
                        assert(fits(rest.skip(1), tail.skip(k - t)));
                    }
                }
                if let Some(s) = star {
                    if later_fit(pattern@, text@, s as int, retry as int) {
                        let k = choose|k: int|
                            retry < k <= text@.len() && #[trigger] fits(
                                pattern@.skip(s + 1),
                                text@.skip(k),
                            );
                        lemma_never_behind(
                            pattern@,
                            text@,
                            s + 1,
                            retry as int,
                            p as int,
                            t as int,
                            k,
                        );
                        let j = choose|j: int|
                            t <= j <= text@.len() && #[trigger] fits(rest, text@.skip(j));
                        let from = text@.skip(j);
                        if from.len() > 0 && from[0] == STAR {
                            assert(from.skip(1) =~= text@.skip(j + 1));
                            assert(fits(pattern@.skip(p + 1), text@.skip(j + 1)));
                        } else {
                            lemma_some_tail(rest.skip(1), from);
                            let m = choose|m: int|
                                0 <= m <= from.len() && #[trigger] fits(
                                    rest.skip(1),
                                    from.skip(m),
                                );
                            assert(from.skip(m) =~= text@.skip(j + m));
                            assert(fits(pattern@.skip(p + 1), text@.skip(j + m)));
                        }
                        assert(now);
                    }
                }
            }
            star = Some(p);
            retry = t;
            p = p + 1;
        } else {
            assert(!fits(rest, tail));
            match star {
                Some(s) => {
                    proof {
                        let n = retry + 1;
                        if later_fit(pattern@, text@, s as int, retry as int) {
                            let k = choose|k: int|
                                retry < k <= text@.len() && #[trigger] fits(
                                    pattern@.skip(s + 1),
                                    text@.skip(k),
                                );
                            if k != n {
                                assert(later_fit(pattern@, text@, s as int, n as int));
                            }
                        }
                        if later_fit(pattern@, text@, s as int, n as int) {
                            let k = choose|k: int|
                                n < k <= text@.len() && #[trigger] fits(
                                    pattern@.skip(s + 1),
                                    text@.skip(k),
                                );
                            assert(later_fit(pattern@, text@, s as int, retry as int));
                        }
                    }
                    p = s + 1;
                    retry = retry + 1;
                    t = retry;
                },
                None => {
                    return false;
                },
            }
        }
    }
    proof {
        assert(text@.skip(t as int) =~= Seq::<u8>::empty());
        if let Some(s) = star {
            if later_fit(pattern@, text@, s as int, retry as int) {
                let k = choose|k: int|
                    retry < k <= text@.len() && #[trigger] fits(
                        pattern@.skip(s + 1),
                        text@.skip(k),
                    );
                lemma_never_behind(pattern@, text@, s + 1, retry as int, p as int, t as int, k);
                let j = choose|j: int|
                    t <= j <= text@.len() && #[trigger] fits(
                        pattern@.skip(p as int),
                        text@.skip(j),
                    );
                assert(j == t);
            }
        }
        lemma_fits_nothing(pattern@.skip(p as int));
    }
    let ghost from = p as int;
    while p < pattern.len() && pattern[p] == STAR
        invariant
            from <= p <= pattern@.len(),
            forall|i: int| from <= i < p ==> #[trigger] pattern@[i] == STAR,
        decreases pattern@.len() - p,
    {
        p = p + 1;
    }
    proof {
        let rest = pattern@.skip(from);
        if p == pattern@.len() {
            assert forall|i: int| 0 <= i < rest.len() implies #[trigger] rest[i] == STAR by {
                assert(rest[i] == pattern@[from + i]);
            }
        } else {
            assert(rest[p - from] == pattern@[p as int]);
        }
    }
    p == pattern.len()
}

/// Whether `pattern` fits `text`.
pub fn wildcard_match(pattern: &str, text: &str) -> (matching: bool)
    ensures
        matching == fits(encode_utf8(pattern@), encode_utf8(text@)),
{
    fits_bytes(pattern.as_bytes(), text.as_bytes())
}

} // verus!
