//! Facts on sequences of which some items are picked out.

use vstd::prelude::*;

verus! {

/// One more item is picked or not, and changes nothing of what was picked before.
pub proof fn lemma_filter_last<A>(s: Seq<A>, f: spec_fn(A) -> bool)
    requires
        s.len() > 0,
    ensures
        s.filter(f) == (if f(s.last()) {
            s.drop_last().filter(f).push(s.last())
        } else {
            s.drop_last().filter(f)
        }),
{
    reveal(Seq::filter);
}

/// Nothing is picked out of nothing.
pub proof fn lemma_filter_none<A>(s: Seq<A>, f: spec_fn(A) -> bool)
    requires
        s.len() == 0,
    ensures
        s.filter(f) == Seq::<A>::empty(),
{
    reveal(Seq::filter);
}

/// What is picked out of the first items, where one more is taken.
pub proof fn lemma_filter_take<A>(s: Seq<A>, f: spec_fn(A) -> bool, i: int)
    requires
        0 <= i < s.len(),
    ensures
        s.take(i + 1).filter(f) == (if f(s[i]) {
            s.take(i).filter(f).push(s[i])
        } else {
            s.take(i).filter(f)
        }),
{
    assert(s.take(i + 1).drop_last() =~= s.take(i));
    lemma_filter_last(s.take(i + 1), f);
}

/// What is picked is what was there and is to be picked.
pub proof fn lemma_filter_member<A>(s: Seq<A>, f: spec_fn(A) -> bool, x: A)
    ensures
        s.filter(f).contains(x) <==> s.contains(x) && f(x),
        s.filter(f).len() <= s.len(),
    decreases s.len(),
{
    if s.len() == 0 {
        lemma_filter_none(s, f);
    } else {
        let before = s.drop_last();
        lemma_filter_last(s, f);
        lemma_filter_member(before, f, x);
        if s.contains(x) {
            let i = choose|i: int| 0 <= i < s.len() && s[i] == x;
            if i < before.len() {
                assert(before[i] == x);
            }
        }
        if before.contains(x) {
            let i = choose|i: int| 0 <= i < before.len() && before[i] == x;
            assert(s[i] == x);
        }
        if s.filter(f).contains(x) {
            let i = choose|i: int| 0 <= i < s.filter(f).len() && s.filter(f)[i] == x;
            if i < before.filter(f).len() {
                assert(before.filter(f)[i] == x);
            } else {
                assert(s[s.len() - 1] == x);
            }
        }
        if before.filter(f).contains(x) {
            let i = choose|i: int| 0 <= i < before.filter(f).len() && before.filter(f)[i] == x;
            assert(s.filter(f)[i] == x);
        }
        if f(s.last()) {
            assert(s.filter(f)[before.filter(f).len() as int] == s.last());
        }
    }
}

/// An item that is picked stands behind those that were picked before it.
pub proof fn lemma_filter_place<A>(s: Seq<A>, f: spec_fn(A) -> bool, i: int)
    requires
        0 <= i < s.len(),
        f(s[i]),
    ensures
        s.take(i).filter(f).len() < s.filter(f).len(),
        s.filter(f)[s.take(i).filter(f).len() as int] == s[i],
    decreases s.len() - i,
{
    lemma_filter_grows(s, f, i + 1, s.len() as int);
    lemma_filter_take(s, f, i);
    assert(s.take(s.len() as int) =~= s);
    assert(s.take(i + 1).filter(f)[s.take(i).filter(f).len() as int] == s[i]);
}

/// What is picked out of the first items is the first of what is picked.
pub proof fn lemma_filter_grows<A>(s: Seq<A>, f: spec_fn(A) -> bool, i: int, j: int)
    requires
        0 <= i <= j <= s.len(),
    ensures
        s.take(i).filter(f).len() <= s.take(j).filter(f).len(),
        forall|k: int|
            0 <= k < s.take(i).filter(f).len() ==> #[trigger] s.take(i).filter(f)[k] == s.take(
                j,
            ).filter(f)[k],
    decreases j - i,
{
    if i < j {
        lemma_filter_grows(s, f, i, j - 1);
        lemma_filter_take(s, f, j - 1);
    }
}

/// Picking out of what items are turned into picks as many as picking those that
/// are turned into something to be picked.
pub proof fn lemma_filter_mapped<A, B>(
    s: Seq<A>,
    g: spec_fn(A) -> B,
    f: spec_fn(B) -> bool,
)
    ensures
        s.map_values(g).filter(f).len() == s.filter(|x: A| f(g(x))).len(),
    decreases s.len(),
{
    let picked = |x: A| f(g(x));
    if s.len() == 0 {
        lemma_filter_none(s, picked);
        lemma_filter_none(s.map_values(g), f);
    } else {
        lemma_filter_mapped(s.drop_last(), g, f);
        lemma_filter_last(s, picked);
        lemma_filter_last(s.map_values(g), f);
        assert(s.map_values(g).drop_last() =~= s.drop_last().map_values(g));
    }
}

/// What is kept of a sequence, seen from its front.
pub proof fn lemma_filter_first<A>(s: Seq<A>, keeps: spec_fn(A) -> bool)
    requires
        s.len() > 0,
    ensures
        s.filter(keeps) == (if keeps(s[0]) {
            seq![s[0]] + s.skip(1).filter(keeps)
        } else {
            s.skip(1).filter(keeps)
        }),
    decreases s.len(),
{
    reveal(Seq::filter);
    let rest = s.skip(1);
    if s.len() == 1 {
        assert(s.drop_last() =~= Seq::<A>::empty());
        assert(rest =~= Seq::<A>::empty());
        assert(s.drop_last().filter(keeps) =~= Seq::<A>::empty());
        assert(rest.filter(keeps) =~= Seq::<A>::empty());
    } else {
        lemma_filter_first(s.drop_last(), keeps);
        assert(s.drop_last().skip(1) =~= rest.drop_last());
        assert(rest.last() == s.last());
        assert(s.drop_last()[0] == s[0]);
    }
    assert(s.filter(keeps) =~= (if keeps(s[0]) {
        seq![s[0]] + rest.filter(keeps)
    } else {
        rest.filter(keeps)
    }));
}

} // verus!
