//! Helpers over the collections of the standard library.

use std::collections::HashMap;
use std::hash::Hash;
use vstd::prelude::*;
use vstd::std_specs::hash::obeys_key_model;

verus! {

broadcast use vstd::std_specs::hash::group_hash_axioms;

/// The keys of a map, each once, in no particular order.
pub fn keys_of<K: Copy + Eq + Hash, V>(m: &HashMap<K, V>) -> (r: Vec<K>)
    requires
        obeys_key_model::<K>(),
    ensures
        r@.to_set() == m@.dom(),
        r@.no_duplicates(),
{
    let mut out: Vec<K> = Vec::new();
    for k in iter: m.keys()
        invariant
            iter.seq().unref().to_set() == m@.dom(),
            iter.seq().no_duplicates(),
            out@ == iter.seq().unref().take(iter.index() as int),
            iter.index() == iter.seq().len() ==> out@ == iter.seq().unref(),
    {
        out.push(*k);
        assert(out@ =~= iter.seq().unref().take(iter.index() + 1));
    }
    proof {
        let keys = out@;
        assert(forall|i: int, j: int| 0 <= i < keys.len() && 0 <= j < keys.len() && i != j ==> keys[i] != keys[j]);
    }
    out
}

} // verus!
