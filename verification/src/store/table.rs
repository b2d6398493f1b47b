//! A table of rows, each found by its key.

use vstd::prelude::*;
use crate::store::assoc::{as_map, has_key, keys_distinct, lemma_append_entry, lemma_empty_map, lemma_entry_at, lemma_key_absent, lemma_replace_value};

verus! {

/// What a keyed write did.
#[derive(Clone, Copy, Debug, PartialEq, Eq, Structural)]
pub enum Upsert {
    /// There was no row under the key: one was created.
    Created,
    /// The row under the key was overwritten.
    Updated,
}

/// A key of a table. Two keys are the same key when their views are equal.
pub trait Key: View + Sized {
    /// Whether `self` and `other` are the same key.
    fn same(&self, other: &Self) -> (b: bool)
        ensures
            b == (self@ == other@),
    ;
}

impl Key for String {
    fn same(&self, other: &String) -> (b: bool) {
        *self == *other
    }
}

impl Key for (String, i32) {
    fn same(&self, other: &(String, i32)) -> (b: bool) {
        self.1 == other.1 && self.0 == other.0
    }
}

impl Key for (String, u8) {
    fn same(&self, other: &(String, u8)) -> (b: bool) {
        self.1 == other.1 && self.0 == other.0
    }
}

impl Key for (String, String, String) {
    fn same(&self, other: &(String, String, String)) -> (b: bool) {
        self.0 == other.0 && self.1 == other.1 && self.2 == other.2
    }
}

/// Rows in the order of their creation, at most one under each key. The view
/// of a table is the map from each key's view to the view of the value
/// stored under it.
pub struct Table<K: Key, V: View> {
    rows: Vec<(K, V)>,
}

impl<K: Key, V: View> View for Table<K, V> {
    type V = Map<K::V, V::V>;

    closed spec fn view(&self) -> Map<K::V, V::V> {
        as_map(self.entries())
    }
}

impl<K: Key, V: View> Table<K, V> {
    /// The rows as pairs of views.
    pub closed spec fn entries(&self) -> Seq<(K::V, V::V)> {
        self.rows@.map_values(|r: (K, V)| (r.0@, r.1@))
    }

    /// No two rows stand under the same key.
    pub closed spec fn wf(&self) -> bool {
        keys_distinct(self.entries())
    }

    /// A table without rows.
    pub fn new() -> (t: Table<K, V>)
        ensures
            t.wf(),
            t@ == Map::<K::V, V::V>::empty(),
    {
        let t = Table { rows: Vec::new() };
        proof {
            lemma_empty_map::<K::V, V::V>();
            assert(t.entries() =~= Seq::<(K::V, V::V)>::empty());
        }
        t
    }

    /// The number of rows.
    pub fn len(&self) -> (n: usize)
        requires
            self.wf(),
        ensures
            n == self.entries().len(),
    {
        self.rows.len()
    }

    fn find(&self, key: &K) -> (found: Option<usize>)
        ensures
            self.entries().len() == self.rows.len(),
            match found {
                Some(i) => i < self.rows.len() && self.entries()[i as int].0 == key@,
                None => forall|i: int|
                    0 <= i < self.entries().len() ==> (#[trigger] self.entries()[i]).0 != key@,
            },
    {
        let mut i: usize = 0;
        while i < self.rows.len()
            invariant
                i <= self.rows.len(),
                self.entries().len() == self.rows.len(),
                forall|j: int| 0 <= j < i ==> (#[trigger] self.entries()[j]).0 != key@,
            decreases self.rows.len() - i,
        {
            if self.rows[i].0.same(key) {
                return Some(i);
            }
            i += 1;
        }
        None
    }

    /// The row at a position: its key and its value.
    pub fn row(&self, i: usize) -> (r: (&K, &V))
        requires
            i < self.entries().len(),
        ensures
            (r.0@, r.1@) == self.entries()[i as int],
    {
        (&self.rows[i].0, &self.rows[i].1)
    }

    /// The rows and the map hold the same: every row is an entry of the
    /// map, every key of the map stands in some row, and no two rows stand
    /// under one key.
    pub proof fn lemma_rows_and_map(&self)
        requires
            self.wf(),
        ensures
            keys_distinct(self.entries()),
            forall|i: int|
                0 <= i < self.entries().len() ==> self@.dom().contains(
                    (#[trigger] self.entries()[i]).0,
                ) && self@[self.entries()[i].0] == self.entries()[i].1,
            forall|k: K::V| #[trigger] self@.dom().contains(k) ==> has_key(self.entries(), k),
    {
        assert forall|i: int| 0 <= i < self.entries().len() implies self@.dom().contains(
            (#[trigger] self.entries()[i]).0,
        ) && self@[self.entries()[i].0] == self.entries()[i].1 by {
            lemma_entry_at(self.entries(), i);
        }
    }

    /// Whether a row stands under the key.
    pub fn contains(&self, key: &K) -> (b: bool)
        requires
            self.wf(),
        ensures
            b == self@.dom().contains(key@),
    {
        self.get(key).is_some()
    }

    /// The value stored under a key, if there is one.
    pub fn get(&self, key: &K) -> (value: Option<&V>)
        requires
            self.wf(),
        ensures
            value is Some == self@.dom().contains(key@),
            value matches Some(v) ==> v@ == self@[key@],
    {
        match self.find(key) {
            Some(i) => {
                proof {
                    lemma_entry_at(self.entries(), i as int);
                }
                Some(&self.rows[i].1)
            },
            None => {
                proof {
                    lemma_key_absent(self.entries(), key@);
                }
                None
            },
        }
    }

    /// Stores a value under a key: the row that is there is overwritten, and
    /// where there is none, one is created. No other row changes.
    pub fn upsert(&mut self, key: K, value: V) -> (how: Upsert)
        requires
            old(self).wf(),
        ensures
            final(self).wf(),
            final(self)@ == old(self)@.insert(key@, value@),
            how == if old(self)@.dom().contains(key@) {
                Upsert::Updated
            } else {
                Upsert::Created
            },
    {
        let ghost before = self.entries();
        match self.find(&key) {
            Some(i) => {
                proof {
                    lemma_entry_at(before, i as int);
                    lemma_replace_value(before, i as int, value@);
                }
                self.rows[i].1 = value;
                assert(self.entries() =~= before.update(i as int, (before[i as int].0, value@)));
                Upsert::Updated
            },
            None => {
                proof {
                    lemma_key_absent(before, key@);
                    lemma_append_entry(before, key@, value@);
                }
                self.rows.push((key, value));
                assert(self.entries() =~= before.push((key@, value@)));
                Upsert::Created
            },
        }
    }
}

} // verus!
