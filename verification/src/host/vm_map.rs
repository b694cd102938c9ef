//! A map from the numbers of VMs to what is known of each.

use std::collections::BTreeMap;
use vstd::laws_cmp::obeys_cmp;
use vstd::prelude::*;
use vstd::std_specs::btree::increasing_seq;
use vstd::std_specs::cmp::OrdSpec;
use vstd::std_specs::iter::IteratorSpec;

verus! {

broadcast use vstd::laws_cmp::group_laws_cmp;

/// Whether numbers ascend, each less than the next.
pub open spec fn ascending(ids: Seq<u32>) -> bool {
    forall|i: int, j: int| 0 <= i < j < ids.len() ==> ids[i] < ids[j]
}

/// Whether `ids` are exactly the keys of `map`, in ascending order.
pub open spec fn lists_keys<V>(ids: Seq<u32>, map: Map<u32, V>) -> bool {
    &&& ascending(ids)
    &&& forall|id: u32| #[trigger] map.contains_key(id) <==> ids.contains(id)
}

proof fn lemma_increasing(ids: Seq<&u32>)
    requires
        increasing_seq(ids),
    ensures
        ascending(ids.unref()),
{
    assert(obeys_cmp::<u32>());
    assert(obeys_cmp::<&u32>());
    assert forall|i: int, j: int| 0 <= i < j < ids.len() implies *ids[i] < *ids[j] by {
        assert(OrdSpec::cmp_spec(&ids[i], &ids[j]) is Less);
    }
}

/// A map keyed by the number of a VM.
#[derive(Debug)]
pub struct VmMap<V> {
    map: BTreeMap<u32, V>,
}

impl<V: View> View for VmMap<V> {
    type V = Map<u32, V::V>;

    closed spec fn view(&self) -> Map<u32, V::V> {
        self.map@.map_values(|value: V| value@)
    }
}

impl<V: View> VmMap<V> {
    /// A map without entries.
    pub fn new() -> (map: Self)
        ensures
            map@ == Map::<u32, V::V>::empty(),
    {
        let map: VmMap<V> = VmMap { map: BTreeMap::new() };
        assert(map@ =~= Map::<u32, V::V>::empty());
        map
    }

    /// What the map holds of `vmid`.
    pub fn get(&self, vmid: u32) -> (value: Option<&V>)
        ensures
            value matches Some(v) ==> self@.contains_key(vmid) && self@[vmid] == v@,
            value is None ==> !self@.contains_key(vmid),
    {
        self.map.get(&vmid)
    }

    /// Puts `value` under `vmid`, in place of what was there.
    pub fn insert(&mut self, vmid: u32, value: V)
        ensures
            final(self)@ == old(self)@.insert(vmid, value@),
    {
        let ghost before = self.map@;
        let ghost entry = value;
        self.map.insert(vmid, value);
        assert(before.insert(vmid, entry).map_values(|value: V| value@) =~= before.map_values(
            |value: V| value@,
        ).insert(vmid, entry@));
    }

    /// Takes out what the map holds of `vmid`.
    pub fn remove(&mut self, vmid: u32) -> (value: Option<V>)
        ensures
            final(self)@ == old(self)@.remove(vmid),
            value matches Some(v) ==> old(self)@.contains_key(vmid) && old(self)@[vmid] == v@,
            value is None ==> !old(self)@.contains_key(vmid),
    {
        let ghost before = self.map@;
        let value = self.map.remove(&vmid);
        assert(before.remove(vmid).map_values(|value: V| value@) =~= before.map_values(
            |value: V| value@,
        ).remove(vmid));
        value
    }

    /// The numbers of all VMs in the map, in ascending order.
    pub fn ids(&self) -> (ids: Vec<u32>)
        ensures
            lists_keys(ids@, self@),
    {
        let mut ids: Vec<u32> = Vec::new();
        let keys = self.map.keys();
        let ghost all = keys.remaining();
        for id in it: keys
            invariant
                it.seq() == all,
                ids@ == all.unref().take(it.index() as int),
        {
            ids.push(*id);
        }
        proof {
            assert(ids@ =~= all.unref());
            lemma_increasing(all);
            assert forall|id: u32| #[trigger] self@.contains_key(id) <==> ids@.contains(id) by {
                assert(self.map@.contains_key(id) <==> all.unref().to_set().contains(id));
            }
        }
        ids
    }
}

} // verus!
