//! Sorting by textual keys.

use crate::text::{lemma_text_less_total, lemma_text_less_transitive, less, text_less};
use vstd::prelude::*;

verus! {

/// Something that is ordered by a text.
pub trait Keyed: Sized {
    /// The text that it is ordered by.
    spec fn key_text(&self) -> Seq<char>;

    /// The text that it is ordered by.
    fn key(&self) -> (key: &str)
        ensures
            key@ == self.key_text(),
    ;
}

/// The items with a given key, in the order in which they stand.
pub open spec fn with_key<T: Keyed>(items: Seq<T>, key: Seq<char>) -> Seq<T>
    decreases items.len(),
{
    if items.len() == 0 {
        Seq::empty()
    } else if items.last().key_text() == key {
        with_key(items.drop_last(), key).push(items.last())
    } else {
        with_key(items.drop_last(), key)
    }
}

/// Whether items stand in the order of their keys.
pub open spec fn in_key_order<T: Keyed>(items: Seq<T>) -> bool {
    forall|i: int, j: int|
        0 <= i < j < items.len() ==> !text_less(
            (#[trigger] items[j]).key_text(),
            (#[trigger] items[i]).key_text(),
        )
}

/// Whether `sorted` is `items` in the order of their keys, where items with the
/// same key stay in the order in which they stood.
pub open spec fn is_stable_sort<T: Keyed>(items: Seq<T>, sorted: Seq<T>) -> bool {
    &&& in_key_order(sorted)
    &&& sorted.len() == items.len()
    &&& forall|key: Seq<char>| #[trigger] with_key(sorted, key) == with_key(items, key)
}

proof fn lemma_with_key_concat<T: Keyed>(a: Seq<T>, b: Seq<T>, key: Seq<char>)
    ensures
        with_key(a + b, key) == with_key(a, key) + with_key(b, key),
    decreases b.len(),
{
    if b.len() == 0 {
        assert(a + b =~= a);
        assert(with_key(a, key) + with_key(b, key) =~= with_key(a, key));
    } else {
        lemma_with_key_concat(a, b.drop_last(), key);
        assert((a + b).drop_last() =~= a + b.drop_last());
        assert(with_key(a + b, key) =~= with_key(a, key) + with_key(b, key));
    }
}

proof fn lemma_with_key_none<T: Keyed>(items: Seq<T>, key: Seq<char>)
    requires
        forall|i: int| 0 <= i < items.len() ==> (#[trigger] items[i]).key_text() != key,
    ensures
        with_key(items, key).len() == 0,
    decreases items.len(),
{
    if items.len() > 0 {
        lemma_with_key_none(items.drop_last(), key);
    }
}

/// Every item is among those with its key.
pub proof fn lemma_with_key_contains<T: Keyed>(items: Seq<T>, i: int)
    requires
        0 <= i < items.len(),
    ensures
        with_key(items, items[i].key_text()).contains(items[i]),
    decreases items.len(),
{
    let key = items[i].key_text();
    let last = items.len() - 1;
    if i < last {
        lemma_with_key_contains(items.drop_last(), i);
        let before = with_key(items.drop_last(), key);
        let k = choose|k: int| 0 <= k < before.len() && before[k] == items[i];
        assert(with_key(items, key)[k] == items[i]);
    } else {
        let all = with_key(items, key);
        assert(all[all.len() - 1] == items[i]);
    }
}

/// What is among the items with a key stands among the items.
pub proof fn lemma_with_key_member<T: Keyed>(items: Seq<T>, key: Seq<char>, k: int) -> (i: int)
    requires
        0 <= k < with_key(items, key).len(),
    ensures
        0 <= i < items.len(),
        items[i] == with_key(items, key)[k],
        items[i].key_text() == key,
    decreases items.len(),
{
    let last = items.len() - 1;
    if items.last().key_text() == key && k == with_key(items, key).len() - 1 {
        last
    } else {
        lemma_with_key_member(items.drop_last(), key, k)
    }
}

/// Sorting keeps exactly the items there were.
pub proof fn lemma_stable_sort_contains<T: Keyed>(items: Seq<T>, sorted: Seq<T>, item: T)
    requires
        is_stable_sort(items, sorted),
    ensures
        sorted.contains(item) <==> items.contains(item),
{
    let key = item.key_text();
    assert(with_key(sorted, key) == with_key(items, key));
    if sorted.contains(item) {
        let i = choose|i: int| 0 <= i < sorted.len() && sorted[i] == item;
        lemma_with_key_contains(sorted, i);
        let k = choose|k: int|
            0 <= k < with_key(items, key).len() && with_key(items, key)[k] == item;
        let j = lemma_with_key_member(items, key, k);
        assert(items[j] == item);
    }
    if items.contains(item) {
        let i = choose|i: int| 0 <= i < items.len() && items[i] == item;
        lemma_with_key_contains(items, i);
        let k = choose|k: int|
            0 <= k < with_key(sorted, key).len() && with_key(sorted, key)[k] == item;
        let j = lemma_with_key_member(sorted, key, k);
        assert(sorted[j] == item);
    }
}

fn insert_sorted<T: Keyed>(items: &mut Vec<T>, item: T)
    requires
        in_key_order(old(items)@),
    ensures
        is_stable_sort(old(items)@.push(item), final(items)@),
{
    let ghost before = items@;
    let ghost key = item.key_text();
    let mut at: usize = items.len();
    while at > 0 && less(item.key(), items[at - 1].key())
        invariant
            items@ == before,
            key == item.key_text(),
            at <= before.len(),
            forall|k: int|
                at <= k < before.len() ==> text_less(key, (#[trigger] before[k]).key_text()),
        decreases at,
    {
        at = at - 1;
    }
    let ghost entry = item;
    items.insert(at, item);
    proof {
        let after = before.insert(at as int, entry);
        assert forall|i: int, j: int| 0 <= i < j < after.len() implies !text_less(
            (#[trigger] after[j]).key_text(),
            (#[trigger] after[i]).key_text(),
        ) by {
            if j < at {
                assert(after[i] == before[i]);
                assert(after[j] == before[j]);
            } else if j == at {
                assert(after[i] == before[i]);
                if text_less(key, before[i].key_text()) {
                    let last = at - 1;
                    if i < last {
                        assert(!text_less(before[last].key_text(), before[i].key_text()));
                        lemma_text_less_total(before[last].key_text(), before[i].key_text());
                        if before[i].key_text() != before[last].key_text() {
                            lemma_text_less_transitive(
                                key,
                                before[i].key_text(),
                                before[last].key_text(),
                            );
                        }
                    }
                    assert(text_less(key, before[last].key_text()));
                }
            } else if i == at {
                assert(after[j] == before[j - 1]);
                lemma_text_less_total(key, before[j - 1].key_text());
            } else {
                assert(after[j] == before[j - 1]);
                assert(after[i] == (if i < at {
                    before[i]
                } else {
                    before[i - 1]
                }));
            }
        }
        let a = before.take(at as int);
        let b = before.skip(at as int);
        assert(after =~= a.push(entry) + b);
        assert(before =~= a + b);
        assert forall|k: Seq<char>| #[trigger] with_key(after, k) == with_key(
            before.push(entry),
            k,
        ) by {
            lemma_with_key_concat(a.push(entry), b, k);
            lemma_with_key_concat(a, b, k);
            assert(a.push(entry).drop_last() =~= a);
            assert(before.push(entry).drop_last() =~= before);
            if k == key {
                assert forall|i: int| 0 <= i < b.len() implies (#[trigger] b[i]).key_text()
                    != key by {
                    assert(b[i] == before[at + i]);
                    lemma_text_less_total(key, key);
                }
                lemma_with_key_none(b, k);
                assert(with_key(a, k) + with_key(b, k) =~= with_key(a, k));
                assert(with_key(a, k).push(entry) + with_key(b, k) =~= with_key(a, k).push(entry));
            }
        }
    }
}

/// Sorts items by their keys; items with the same key stay in order.
pub fn sort_by_key<T: Keyed>(items: Vec<T>) -> (sorted: Vec<T>)
    ensures
        is_stable_sort(items@, sorted@),
{
    let mut rest = items;
    let ghost all = items@;
    let mut queue: Vec<T> = Vec::new();
    while rest.len() > 0
        invariant
            rest@.len() <= all.len(),
            rest@ == all.take(rest@.len() as int),
            queue@ == all.skip(rest@.len() as int).reverse(),
        decreases rest@.len(),
    {
        let ghost n = rest@.len() as int;
        match rest.pop() {
            Some(item) => {
                let ghost before = queue@;
                queue.push(item);
                assert(rest@ =~= all.take(n - 1));
                assert(queue@ =~= all.skip(n - 1).reverse());
            },
            None => {},
        }
    }
    assert(queue@ =~= all.reverse());
    let mut sorted: Vec<T> = Vec::new();
    assert(all.take(0) =~= Seq::<T>::empty());
    while queue.len() > 0
        invariant
            queue@.len() <= all.len(),
            queue@ == all.skip(all.len() - queue@.len()).reverse(),
            is_stable_sort(all.take(all.len() - queue@.len()), sorted@),
        decreases queue@.len(),
    {
        let ghost n = all.len() - queue@.len();
        match queue.pop() {
            Some(item) => {
                assert(item == all[n]);
                assert(queue@ =~= all.skip(n + 1).reverse());
                let ghost before = sorted@;
                insert_sorted(&mut sorted, item);
                proof {
                    let taken = all.take(n);
                    let next = all.take(n + 1);
                    assert(next =~= taken.push(item));
                    assert forall|key: Seq<char>| #[trigger] with_key(sorted@, key) == with_key(
                        next,
                        key,
                    ) by {
                        assert(with_key(sorted@, key) == with_key(before.push(item), key));
                        assert(before.push(item).drop_last() =~= before);
                        assert(next.drop_last() =~= taken);
                        assert(with_key(before, key) == with_key(taken, key));
                    }
                }
            },
            None => {},
        }
    }
    assert(all.take(all.len() as int) =~= all);
    sorted
}

} // verus!
