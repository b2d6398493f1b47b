//! Rows that are found by a key, read as a map.
//!
//! A table keeps its rows in the order in which they were created. What a
//! contract needs of it is the map from each key to the value stored under
//! it. This module defines that reading for any sequence of key-value pairs
//! and proves how it changes when a row is replaced or a new one is added.

use vstd::prelude::*;

verus! {

/// No two positions of `s` hold the same key.
pub open spec fn keys_distinct<K, V>(s: Seq<(K, V)>) -> bool {
    forall|i: int, j: int|
        0 <= i < s.len() && 0 <= j < s.len() && i != j ==> (#[trigger] s[i]).0 != (#[trigger] s[j]).0
}

/// Some position of `s` holds the key `k`.
pub open spec fn has_key<K, V>(s: Seq<(K, V)>, k: K) -> bool {
    exists|i: int| 0 <= i < s.len() && (#[trigger] s[i]).0 == k
}

/// A position of `s` that holds the key `k`, where there is one.
pub open spec fn position_of<K, V>(s: Seq<(K, V)>, k: K) -> int {
    choose|i: int| 0 <= i < s.len() && (#[trigger] s[i]).0 == k
}

/// The map that `s` stands for: its keys, each with the value beside it.
pub open spec fn as_map<K, V>(s: Seq<(K, V)>) -> Map<K, V> {
    Map::new(|k: K| has_key(s, k), |k: K| s[position_of(s, k)].1)
}

/// The pair at a position of `s` is an entry of the map.
pub proof fn lemma_entry_at<K, V>(s: Seq<(K, V)>, i: int)
    requires
        keys_distinct(s),
        0 <= i < s.len(),
    ensures
        as_map(s).dom().contains(s[i].0),
        as_map(s)[s[i].0] == s[i].1,
{
    let k = s[i].0;
    assert(has_key(s, k));
    let p = position_of(s, k);
    assert(0 <= p < s.len() && s[p].0 == k);
    assert(p == i);
}

/// A key that no position holds is no key of the map.
pub proof fn lemma_key_absent<K, V>(s: Seq<(K, V)>, k: K)
    requires
        forall|i: int| 0 <= i < s.len() ==> (#[trigger] s[i]).0 != k,
    ensures
        !as_map(s).dom().contains(k),
{
}

/// Replacing the value at a position, under the same key, changes the map at
/// that key and nowhere else.
pub proof fn lemma_replace_value<K, V>(s: Seq<(K, V)>, i: int, v: V)
    requires
        keys_distinct(s),
        0 <= i < s.len(),
    ensures
        keys_distinct(s.update(i, (s[i].0, v))),
        as_map(s.update(i, (s[i].0, v))) == as_map(s).insert(s[i].0, v),
{
    let k = s[i].0;
    let t = s.update(i, (k, v));
    assert(keys_distinct(t)) by {
        assert forall|a: int, b: int| 0 <= a < t.len() && 0 <= b < t.len() && a != b implies (#[trigger] t[a]).0 != (#[trigger] t[b]).0 by {
            assert(t[a].0 == s[a].0);
            assert(t[b].0 == s[b].0);
        }
    }
    assert forall|q: K| has_key(t, q) == has_key(s, q) by {
        if has_key(s, q) {
            let p = position_of(s, q);
            assert(t[p].0 == q);
        }
        if has_key(t, q) {
            let p = position_of(t, q);
            assert(s[p].0 == q);
        }
    }
    assert forall|q: K| has_key(t, q) implies #[trigger] as_map(t)[q] == as_map(s).insert(k, v)[q] by {
        let p = position_of(t, q);
        assert(0 <= p < t.len() && t[p].0 == q);
        lemma_entry_at(t, p);
        if q == k {
            assert(s[p].0 == k);
            assert(p == i);
        } else {
            assert(p != i);
            assert(s[p].0 == q);
            lemma_entry_at(s, p);
        }
    }
    assert(as_map(t) =~= as_map(s).insert(k, v));
}

/// Adding a pair under a key that was not there adds that entry to the map.
pub proof fn lemma_append_entry<K, V>(s: Seq<(K, V)>, k: K, v: V)
    requires
        keys_distinct(s),
        !has_key(s, k),
    ensures
        keys_distinct(s.push((k, v))),
        as_map(s.push((k, v))) == as_map(s).insert(k, v),
{
    let t = s.push((k, v));
    assert(keys_distinct(t)) by {
        assert forall|a: int, b: int| 0 <= a < t.len() && 0 <= b < t.len() && a != b implies (#[trigger] t[a]).0 != (#[trigger] t[b]).0 by {
            if a < s.len() {
                assert(t[a] == s[a]);
            }
            if b < s.len() {
                assert(t[b] == s[b]);
            }
        }
    }
    assert forall|q: K| has_key(t, q) == (has_key(s, q) || q == k) by {
        if has_key(s, q) {
            let p = position_of(s, q);
            assert(t[p].0 == q);
        }
        if q == k {
            assert(t[s.len() as int].0 == k);
        }
        if has_key(t, q) && q != k {
            let p = position_of(t, q);
            assert(p < s.len());
            assert(s[p].0 == q);
        }
    }
    assert forall|q: K| has_key(t, q) implies #[trigger] as_map(t)[q] == as_map(s).insert(k, v)[q] by {
        let p = position_of(t, q);
        assert(0 <= p < t.len() && t[p].0 == q);
        lemma_entry_at(t, p);
        if q == k {
            if p < s.len() {
                assert(s[p].0 == k);
            }
        } else {
            assert(p < s.len());
            assert(s[p].0 == q);
            lemma_entry_at(s, p);
        }
    }
    assert(as_map(t) =~= as_map(s).insert(k, v));
}

/// The map of an empty sequence is empty.
pub proof fn lemma_empty_map<K, V>()
    ensures
        keys_distinct(Seq::<(K, V)>::empty()),
        as_map(Seq::<(K, V)>::empty()) == Map::<K, V>::empty(),
{
    assert(as_map(Seq::<(K, V)>::empty()) =~= Map::<K, V>::empty());
}

} // verus!
