//! Association lists read as maps: a sequence of distinct keys beside a
//! sequence of values of the same length.

use vstd::prelude::*;

verus! {

/// The map that sends each key to the value at the key's position.
pub open spec fn assoc_map<K, V>(keys: Seq<K>, values: Seq<V>) -> Map<K, V>
    recommends
        keys.len() == values.len(),
        keys.no_duplicates(),
{
    Map::new(|k: K| keys.contains(k), |k: K| values[keys.index_of(k)])
}

/// A key at position `i` is mapped to the value at position `i`.
pub proof fn lemma_assoc_at<K, V>(keys: Seq<K>, values: Seq<V>, i: int)
    requires
        keys.len() == values.len(),
        keys.no_duplicates(),
        0 <= i < keys.len(),
    ensures
        assoc_map(keys, values).contains_key(keys[i]),
        assoc_map(keys, values)[keys[i]] == values[i],
{
    assert(keys.contains(keys[i]));
    let j = keys.index_of(keys[i]);
    assert(0 <= j < keys.len() && keys[j] == keys[i]);
}

/// A key that stands at no position is not in the map.
pub proof fn lemma_assoc_absent<K, V>(keys: Seq<K>, values: Seq<V>, key: K)
    requires
        forall|i: int| 0 <= i < keys.len() ==> keys[i] != key,
    ensures
        !assoc_map(keys, values).contains_key(key),
{
}

/// The map of no keys is empty.
pub proof fn lemma_assoc_empty<K, V>()
    ensures
        assoc_map(Seq::<K>::empty(), Seq::<V>::empty()) == Map::<K, V>::empty(),
{
    assert(assoc_map(Seq::<K>::empty(), Seq::<V>::empty()) =~= Map::<K, V>::empty());
}

/// Appending a fresh key with its value inserts the pair into the map.
pub proof fn lemma_assoc_push<K, V>(keys: Seq<K>, values: Seq<V>, key: K, value: V)
    requires
        keys.len() == values.len(),
        keys.no_duplicates(),
        !keys.contains(key),
    ensures
        keys.push(key).no_duplicates(),
        assoc_map(keys.push(key), values.push(value)) == assoc_map(keys, values).insert(key, value),
{
    let keys2 = keys.push(key);
    let values2 = values.push(value);
    assert(keys2.no_duplicates()) by {
        assert forall|i: int, j: int| 0 <= i < keys2.len() && 0 <= j < keys2.len() && i != j implies keys2[i] != keys2[j] by {
            if i < keys.len() && j < keys.len() {
                assert(keys[i] != keys[j]);
            } else if i < keys.len() {
                assert(keys.contains(keys[i]));
            } else {
                assert(keys.contains(keys[j]));
            }
        }
    }
    let before = assoc_map(keys, values);
    let after = assoc_map(keys2, values2);
    assert forall|k: K| after.contains_key(k) <==> before.insert(key, value).contains_key(k) by {
        if keys2.contains(k) {
            let i = keys2.index_of(k);
            assert(0 <= i < keys2.len() && keys2[i] == k);
            if i < keys.len() {
                assert(keys[i] == k);
                assert(keys.contains(k));
            }
        }
        if keys.contains(k) {
            let i = keys.index_of(k);
            assert(keys2[i] == k);
        }
        if k == key {
            assert(keys2[keys.len() as int] == k);
        }
    }
    assert forall|k: K| after.contains_key(k) implies after[k] == before.insert(key, value)[k] by {
        let i = keys2.index_of(k);
        assert(0 <= i < keys2.len() && keys2[i] == k);
        lemma_assoc_at(keys2, values2, i);
        if i < keys.len() {
            lemma_assoc_at(keys, values, i);
            assert(keys.contains(keys[i]));
        }
    }
    assert(after =~= before.insert(key, value));
}

/// Replacing the value at the position of a key replaces it in the map.
pub proof fn lemma_assoc_update<K, V>(keys: Seq<K>, values: Seq<V>, i: int, value: V)
    requires
        keys.len() == values.len(),
        keys.no_duplicates(),
        0 <= i < keys.len(),
    ensures
        assoc_map(keys, values.update(i, value)) == assoc_map(keys, values).insert(keys[i], value),
{
    let before = assoc_map(keys, values);
    let after = assoc_map(keys, values.update(i, value));
    assert(keys.contains(keys[i]));
    assert forall|k: K| after.contains_key(k) implies after[k] == before.insert(keys[i], value)[k] by {
        let j = keys.index_of(k);
        assert(0 <= j < keys.len() && keys[j] == k);
    }
    assert(after =~= before.insert(keys[i], value));
}

} // verus!
