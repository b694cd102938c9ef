//! A map from textual identifiers to values that keeps the order in which the
//! identifiers first came.

use crate::text::same;
use vstd::prelude::*;

verus! {

/// Whether one of `entries` has the key `key`.
pub open spec fn has_key<V>(entries: Seq<(String, V)>, key: Seq<char>) -> bool {
    exists|i: int| 0 <= i < entries.len() && #[trigger] entries[i].0@ == key
}

/// The place of `key` among `entries`.
pub open spec fn place_of<V>(entries: Seq<(String, V)>, key: Seq<char>) -> int {
    choose|i: int| 0 <= i < entries.len() && #[trigger] entries[i].0@ == key
}

/// Whether no two of `entries` have the same key.
pub open spec fn distinct_keys<V>(entries: Seq<(String, V)>) -> bool {
    forall|i: int, j: int|
        0 <= i < j < entries.len() ==> (#[trigger] entries[i]).0@ != (#[trigger] entries[j]).0@
}

/// The mapping that `entries` stand for.
pub open spec fn mapping<V: View>(entries: Seq<(String, V)>) -> Map<Seq<char>, V::V> {
    Map::new(
        |key: Seq<char>| has_key(entries, key),
        |key: Seq<char>| entries[place_of(entries, key)].1@,
    )
}

/// A map keyed by text.
#[derive(Debug)]
pub struct IdMap<V> {
    entries: Vec<(String, V)>,
}

impl<V: View> View for IdMap<V> {
    type V = Map<Seq<char>, V::V>;

    closed spec fn view(&self) -> Map<Seq<char>, V::V> {
        mapping(self.entries@)
    }
}

/// With distinct keys each entry is what the mapping holds under its key.
pub proof fn lemma_mapping_entry<V: View>(entries: Seq<(String, V)>, i: int)
    requires
        distinct_keys(entries),
        0 <= i < entries.len(),
    ensures
        mapping(entries).contains_key(entries[i].0@),
        mapping(entries)[entries[i].0@] == entries[i].1@,
{
    let key = entries[i].0@;
    assert(has_key(entries, key));
    let place = place_of(entries, key);
    assert(0 <= place < entries.len() && entries[place].0@ == key);
    assert(place == i) by {
        if place < i {
            assert(entries[place].0@ != entries[i].0@);
        } else if i < place {
            assert(entries[i].0@ != entries[place].0@);
        }
    }
}

impl<V> IdMap<V> {
    #[verifier::type_invariant]
    spec fn keys_differ(self) -> bool {
        distinct_keys(self.entries@)
    }
}

impl<V: View> IdMap<V> {
    /// A map without entries.
    pub fn new() -> (map: Self)
        ensures
            map@ == Map::<Seq<char>, V::V>::empty(),
    {
        let map = IdMap { entries: Vec::new() };
        assert(map@ =~= Map::<Seq<char>, V::V>::empty());
        map
    }

    /// The entries, in the order in which their keys first came.
    pub closed spec fn listed(self) -> Seq<(String, V)> {
        self.entries@
    }

    /// The entries, in the order in which their keys first came.
    pub fn entries(&self) -> (entries: &[(String, V)])
        ensures
            entries@ == self.listed(),
            distinct_keys(entries@),
            mapping(entries@) == self@,
    {
        proof {
            use_type_invariant(&*self);
        }
        self.entries.as_slice()
    }

    fn find(&self, key: &str) -> (place: Option<usize>)
        ensures
            place matches Some(i) ==> i < self.entries@.len() && self.entries@[i as int].0@ == key@
                && self@.contains_key(key@) && self@[key@] == self.entries@[i as int].1@,
            place is None ==> !self@.contains_key(key@),
    {
        proof {
            use_type_invariant(&*self);
        }
        for i in 0..self.entries.len()
            invariant
                distinct_keys(self.entries@),
                forall|j: int| 0 <= j < i ==> (#[trigger] self.entries@[j]).0@ != key@,
        {
            if same(&self.entries[i].0, key) {
                proof {
                    lemma_mapping_entry(self.entries@, i as int);
                }
                return Some(i);
            }
        }
        None
    }

    /// What the map holds under `key`.
    pub fn get(&self, key: &str) -> (value: Option<&V>)
        ensures
            value matches Some(v) ==> self@.contains_key(key@) && self@[key@] == v@,
            value is None ==> !self@.contains_key(key@),
    {
        match self.find(key) {
            Some(i) => Some(&self.entries[i].1),
            None => None,
        }
    }

    /// Whether the map holds anything under `key`.
    pub fn contains_key(&self, key: &str) -> (yes: bool)
        ensures
            yes == self@.contains_key(key@),
    {
        self.find(key).is_some()
    }

    /// Puts `value` under `key`, in place of what was there.
    pub fn insert(&mut self, key: String, value: V)
        ensures
            final(self)@ == old(self)@.insert(key@, value@),
    {
        proof {
            use_type_invariant(&*self);
        }
        let place = self.find(&key);
        let ghost before = self.entries@;
        let ghost entry = (key, value);
        let mut entries: Vec<(String, V)> = Vec::new();
        std::mem::swap(&mut entries, &mut self.entries);
        match place {
            Some(i) => {
                entries.set(i, (key, value));
                proof {
                    let after = before.update(i as int, entry);
                    assert forall|a: int, b: int| 0 <= a < b < after.len() implies (
                    #[trigger] after[a]).0@ != (#[trigger] after[b]).0@ by {
                        assert(after[a].0@ == before[a].0@);
                        assert(after[b].0@ == before[b].0@);
                    }
                    lemma_update(before, after, i as int, entry);
                }
            },
            None => {
                entries.push((key, value));
                proof {
                    let after = before.push(entry);
                    assert forall|a: int, b: int| 0 <= a < b < after.len() implies (
                    #[trigger] after[a]).0@ != (#[trigger] after[b]).0@ by {
                        assert(after[a] == before[a]);
                        if b < before.len() {
                            assert(after[b] == before[b]);
                        } else {
                            assert(!has_key(before, entry.0@));
                        }
                    }
                    lemma_push(before, entry);
                }
            },
        }
        self.entries = entries;
    }
}

proof fn lemma_update<V: View>(
    before: Seq<(String, V)>,
    after: Seq<(String, V)>,
    i: int,
    entry: (String, V),
)
    requires
        0 <= i < before.len(),
        after == before.update(i, entry),
        before[i].0@ == entry.0@,
        distinct_keys(before),
        distinct_keys(after),
    ensures
        mapping(after) == mapping(before).insert(entry.0@, entry.1@),
{
    let want = mapping(before).insert(entry.0@, entry.1@);
    assert forall|key: Seq<char>|
        #![trigger mapping(after).contains_key(key)]
        mapping(after).contains_key(key) == want.contains_key(key) && (mapping(after).contains_key(
            key,
        ) ==> mapping(after)[key] == want[key]) by {
        lemma_mapping_entry(after, i);
        if has_key(after, key) {
            let j = place_of(after, key);
            assert(before[j].0@ == after[j].0@);
            lemma_mapping_entry(after, j);
            lemma_mapping_entry(before, j);
        }
        if has_key(before, key) {
            let j = place_of(before, key);
            assert(after[j].0@ == before[j].0@);
        }
    }
    assert(mapping(after) =~= want);
}

proof fn lemma_push<V: View>(before: Seq<(String, V)>, entry: (String, V))
    requires
        !has_key(before, entry.0@),
        distinct_keys(before),
        distinct_keys(before.push(entry)),
    ensures
        mapping(before.push(entry)) == mapping(before).insert(entry.0@, entry.1@),
{
    let after = before.push(entry);
    let want = mapping(before).insert(entry.0@, entry.1@);
    assert forall|key: Seq<char>|
        #![trigger mapping(after).contains_key(key)]
        mapping(after).contains_key(key) == want.contains_key(key) && (mapping(after).contains_key(
            key,
        ) ==> mapping(after)[key] == want[key]) by {
        assert(after[before.len() as int] == entry);
        lemma_mapping_entry(after, before.len() as int);
        if has_key(after, key) {
            let j = place_of(after, key);
            lemma_mapping_entry(after, j);
            if j < before.len() {
                assert(before[j] == after[j]);
                lemma_mapping_entry(before, j);
            }
        }
        if has_key(before, key) {
            let j = place_of(before, key);
            assert(after[j] == before[j]);
        }
    }
    assert(mapping(after) =~= want);
}

} // verus!
