//! Walking the keys of a hash map.

use std::collections::HashMap;
use std::hash::Hash;
use vstd::prelude::*;
use vstd::std_specs::hash::obeys_key_model;

verus! {

broadcast use vstd::std_specs::hash::group_hash_axioms;

/// The keys of a hash map, in no particular order.
pub fn keys_of<K: Copy + Eq + Hash, V>(m: &HashMap<K, V>) -> (ks: Vec<K>)
    requires
        obeys_key_model::<K>(),
    ensures
        ks@.no_duplicates(),
        ks@.len() == m@.dom().len(),
        forall|k: K| m@.contains_key(k) <==> #[trigger] ks@.contains(k),
        forall|i: int| 0 <= i < ks@.len() ==> m@.contains_key(#[trigger] ks@[i]),
{
    let mut ks: Vec<K> = Vec::new();
    for k in it: m.keys()
        invariant
            ks@ == it.seq().unref().take(it.index() as int),
            it.seq().unref().to_set() == m@.dom(),
            it.index() == it.seq().len() ==> ks@ == it.seq().unref(),
    {
        ks.push(*k);
        proof {
            assert(it.seq().unref().take(it.index() as int + 1) =~= it.seq().unref().take(
                it.index() as int,
            ).push(*k));
            assert(it.seq().unref().take(it.seq().len() as int) =~= it.seq().unref());
        }
    }
    proof {
        assert forall|k: K| m@.contains_key(k) <==> #[trigger] ks@.contains(k) by {
            assert(ks@.to_set().contains(k) <==> ks@.contains(k));
        }
        assert forall|i: int| 0 <= i < ks@.len() implies m@.contains_key(#[trigger] ks@[i]) by {
            assert(ks@.contains(ks@[i]));
        }
    }
    ks
}

} // verus!
