//! A keyed table is stored as a sequence of rows and abstracted, for
//! contracts, as the finite map from each row's key to its value. This
//! module defines that abstraction for sequences of key-value pairs and
//! proves how it moves under the row operations the store performs:
//! appending a row, updating a row in place, and removing a row.

use vstd::prelude::*;

verus! {

/// The map described by a sequence of key-value pairs; a later pair wins
/// over an earlier one with the same key.
pub open spec fn kv_map<K, V>(s: Seq<(K, V)>) -> Map<K, V>
    decreases s.len(),
{
    if s.len() == 0 {
        Map::empty()
    } else {
        kv_map(s.drop_last()).insert(s.last().0, s.last().1)
    }
}

/// No two pairs share a key.
pub open spec fn unique_keys<K, V>(s: Seq<(K, V)>) -> bool {
    forall|i: int, j: int| 0 <= i < j < s.len() ==> s[i].0 != s[j].0
}

/// A key is in the map exactly when some pair carries it.
pub proof fn lemma_kv_map_contains<K, V>(s: Seq<(K, V)>, k: K)
    ensures
        kv_map(s).contains_key(k) <==> exists|i: int| 0 <= i < s.len() && s[i].0 == k,
    decreases s.len(),
{
    if s.len() > 0 {
        lemma_kv_map_contains(s.drop_last(), k);
        if s.last().0 == k {
            assert(s[s.len() - 1].0 == k);
        } else {
            if exists|i: int| 0 <= i < s.len() && s[i].0 == k {
                let i = choose|i: int| 0 <= i < s.len() && s[i].0 == k;
                assert(s.drop_last()[i] == s[i]);
            }
        }
    }
}

/// With unique keys, the map sends each pair's key to that pair's value.
pub proof fn lemma_kv_map_index<K, V>(s: Seq<(K, V)>, i: int)
    requires
        unique_keys(s),
        0 <= i < s.len(),
    ensures
        kv_map(s).contains_key(s[i].0),
        kv_map(s)[s[i].0] == s[i].1,
    decreases s.len(),
{
    if i < s.len() - 1 {
        lemma_kv_map_index(s.drop_last(), i);
        assert(s.drop_last()[i] == s[i]);
    }
}

/// Appending a pair inserts it into the map.
pub proof fn lemma_kv_map_push<K, V>(s: Seq<(K, V)>, k: K, v: V)
    ensures
        kv_map(s.push((k, v))) == kv_map(s).insert(k, v),
{
    assert(s.push((k, v)).drop_last() =~= s);
}

/// Overwriting the value of the pair that carries a key re-inserts that key.
pub proof fn lemma_kv_map_update_value<K, V>(s: Seq<(K, V)>, i: int, v: V)
    requires
        unique_keys(s),
        0 <= i < s.len(),
    ensures
        unique_keys(s.update(i, (s[i].0, v))),
        kv_map(s.update(i, (s[i].0, v))) == kv_map(s).insert(s[i].0, v),
    decreases s.len(),
{
    let t = s.update(i, (s[i].0, v));
    assert(forall|j: int| 0 <= j < s.len() ==> t[j].0 == s[j].0);
    if i == s.len() - 1 {
        assert(t.drop_last() =~= s.drop_last());
        assert(t.last() == (s[i].0, v));
    } else {
        lemma_kv_map_update_value(s.drop_last(), i, v);
        assert(t.drop_last() =~= s.drop_last().update(i, (s[i].0, v)));
        assert(t.last() == s.last());
        assert(kv_map(t) == kv_map(s.drop_last()).insert(s[i].0, v).insert(s.last().0, s.last().1));
        assert(s[i].0 != s.last().0);
        assert(kv_map(s.drop_last()).insert(s[i].0, v).insert(s.last().0, s.last().1) =~= kv_map(
            s.drop_last(),
        ).insert(s.last().0, s.last().1).insert(s[i].0, v));
    }
}

/// Rewriting the key of one pair to a key no pair carries removes the old
/// key from the map and inserts the new one, with the value kept.
pub proof fn lemma_kv_map_update_key<K, V>(s: Seq<(K, V)>, i: int, k: K)
    requires
        unique_keys(s),
        0 <= i < s.len(),
        forall|j: int| 0 <= j < s.len() ==> s[j].0 != k,
    ensures
        unique_keys(s.update(i, (k, s[i].1))),
        kv_map(s.update(i, (k, s[i].1))) == kv_map(s).remove(s[i].0).insert(k, s[i].1),
    decreases s.len(),
{
    let t = s.update(i, (k, s[i].1));
    lemma_kv_map_contains(s.drop_last(), s[i].0);
    lemma_kv_map_contains(s.drop_last(), k);
    if i == s.len() - 1 {
        assert(t.drop_last() =~= s.drop_last());
        assert(!kv_map(s.drop_last()).contains_key(s[i].0));
        assert(!kv_map(s.drop_last()).contains_key(k));
        assert(kv_map(t) =~= kv_map(s).remove(s[i].0).insert(k, s[i].1));
    } else {
        lemma_kv_map_update_key(s.drop_last(), i, k);
        assert(t.drop_last() =~= s.drop_last().update(i, (k, s[i].1)));
        assert(t.last() == s.last());
        assert(kv_map(t) =~= kv_map(s).remove(s[i].0).insert(k, s[i].1));
    }
}

/// Removing the pair that carries a key removes that key from the map.
pub proof fn lemma_kv_map_remove<K, V>(s: Seq<(K, V)>, i: int)
    requires
        unique_keys(s),
        0 <= i < s.len(),
    ensures
        unique_keys(s.remove(i)),
        kv_map(s.remove(i)) == kv_map(s).remove(s[i].0),
    decreases s.len(),
{
    lemma_kv_map_contains(s.drop_last(), s[i].0);
    if i == s.len() - 1 {
        assert(s.remove(i) =~= s.drop_last());
        assert(!kv_map(s.drop_last()).contains_key(s[i].0));
        assert(kv_map(s.remove(i)) =~= kv_map(s).remove(s[i].0));
    } else {
        lemma_kv_map_remove(s.drop_last(), i);
        assert(s.remove(i).drop_last() =~= s.drop_last().remove(i));
        assert(s.remove(i).last() == s.last());
        assert(kv_map(s.remove(i)) =~= kv_map(s).remove(s[i].0));
    }
}

} // verus!
