//! Walking the keys of a hash map.

use std::collections::HashMap;
use std::hash::Hash;
use vstd::std_specs::hash::obeys_key_model;
use vstd::prelude::*;

verus! {

/// The keys of `map`, each once, in an order that nothing fixes.
pub fn keys_of<K: Copy + Eq + Hash, V>(map: &HashMap<K, V>) -> (keys: Vec<K>)
    requires
        obeys_key_model::<K>(),
    ensures
        keys@.no_duplicates(),
        keys@.to_set() == map@.dom(),
        forall|k: K| keys@.contains(k) <==> #[trigger] map@.contains_key(k),
{
    broadcast use vstd::std_specs::hash::group_hash_axioms;

    let mut keys: Vec<K> = Vec::new();
    for key in walk: map.keys()
        invariant
            walk.seq().unref().to_set() == map@.dom(),
            walk.seq().no_duplicates(),
            keys@ == walk.seq().unref().take(walk.index() as int),
            walk.index() == walk.seq().len() ==> keys@ == walk.seq().unref(),
    {
        keys.push(*key);
        assert(keys@ == walk.seq().unref().take(walk.index() + 1));
    }
    assert(keys@.to_set() == map@.dom());
    assert forall|k: K| keys@.contains(k) <==> #[trigger] map@.contains_key(k) by {
        assert(keys@.to_set().contains(k) <==> map@.dom().contains(k));
    }
    keys
}

} // verus!
