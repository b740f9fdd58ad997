//! Association lists: a sequence of keys and a sequence of values of the
//! same length, read as a map that sends each key to the value in its
//! place.

use vstd::prelude::*;

verus! {

/// The map that sends each of `keys` to the value at its place in `vals`.
pub open spec fn lookup<K, V>(keys: Seq<K>, vals: Seq<V>) -> Map<K, V> {
    Map::new(|k: K| keys.contains(k), |k: K| vals[keys.index_of(k)])
}

/// A key that stands once in the list is sent to the value in its place.
pub proof fn lemma_lookup_at<K, V>(keys: Seq<K>, vals: Seq<V>, i: int)
    requires
        keys.no_duplicates(),
        0 <= i < keys.len(),
    ensures
        keys.contains(keys[i]),
        keys.index_of(keys[i]) == i,
        lookup(keys, vals).contains_key(keys[i]),
        lookup(keys, vals)[keys[i]] == vals[i],
{
}

/// A list without repeated keys maps as many keys as it is long.
pub proof fn lemma_lookup_len<K, V>(keys: Seq<K>, vals: Seq<V>)
    requires
        keys.no_duplicates(),
    ensures
        lookup(keys, vals).dom().finite(),
        lookup(keys, vals).len() == keys.len(),
{
    keys.unique_seq_to_set();
    assert(lookup(keys, vals).dom() =~= keys.to_set());
}

/// Appending a new key with its value inserts the pair into the map.
pub proof fn lemma_lookup_push<K, V>(keys: Seq<K>, vals: Seq<V>, k: K, v: V)
    requires
        keys.no_duplicates(),
        keys.len() == vals.len(),
        !keys.contains(k),
    ensures
        keys.push(k).no_duplicates(),
        lookup(keys.push(k), vals.push(v)) == lookup(keys, vals).insert(k, v),
{
    let keys2 = keys.push(k);
    let vals2 = vals.push(v);
    assert(keys2.no_duplicates());
    assert forall|x: K| keys2.contains(x) <==> keys.contains(x) || x == k by {
        if keys.contains(x) {
            let i = keys.index_of(x);
            assert(keys2[i] == x);
        }
        if x == k {
            assert(keys2[keys.len() as int] == x);
        }
    }
    assert forall|x: K| keys2.contains(x) implies #[trigger] lookup(keys2, vals2)[x] == lookup(
        keys,
        vals,
    ).insert(k, v)[x] by {
        let i = keys2.index_of(x);
        if x != k {
            let j = keys.index_of(x);
            assert(keys2[j] == x);
            assert(i == j);
        }
    }
    assert(lookup(keys2, vals2) =~= lookup(keys, vals).insert(k, v));
}

/// Replacing the value at the place of a key replaces what the map sends
/// that key to.
pub proof fn lemma_lookup_update<K, V>(keys: Seq<K>, vals: Seq<V>, i: int, v: V)
    requires
        keys.no_duplicates(),
        keys.len() == vals.len(),
        0 <= i < keys.len(),
    ensures
        lookup(keys, vals.update(i, v)) == lookup(keys, vals).insert(keys[i], v),
{
    let vals2 = vals.update(i, v);
    assert forall|x: K| keys.contains(x) implies #[trigger] lookup(keys, vals2)[x] == lookup(
        keys,
        vals,
    ).insert(keys[i], v)[x] by {
        let j = keys.index_of(x);
        if x == keys[i] {
            assert(j == i);
        }
    }
    assert(lookup(keys, vals2) =~= lookup(keys, vals).insert(keys[i], v));
}

} // verus!
