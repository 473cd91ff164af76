//! A map from identifiers to records, kept as two parallel vectors.

use vstd::prelude::*;
use crate::bounded::position;
use crate::types::Id;

verus! {

/// Records by identifier. `keys[i]` is the identifier of `values[i]`.
pub struct Table<V> {
    pub keys: Vec<Id>,
    pub values: Vec<V>,
}

impl<V> View for Table<V> {
    type V = Map<Id, V>;

    open spec fn view(&self) -> Map<Id, V> {
        Map::new(
            |key: Id| self.keys@.contains(key),
            |key: Id| self.values@[self.keys@.index_of(key)],
        )
    }
}

impl<V> Table<V> {
    /// Every key has its value, and no key stands twice.
    pub open spec fn wf(&self) -> bool {
        &&& self.keys@.len() == self.values@.len()
        &&& self.keys@.no_duplicates()
    }

    /// In a well-formed table, the record of the key at place `i` is the
    /// value at place `i`.
    pub proof fn lemma_at(&self, i: int)
        requires
            self.wf(),
            0 <= i < self.keys@.len(),
        ensures
            self@.contains_key(self.keys@[i]),
            self@[self.keys@[i]] == self.values@[i],
            self.keys@.index_of(self.keys@[i]) == i,
    {
        let key = self.keys@[i];
        assert(self.keys@.contains(key));
        let j = self.keys@.index_of(key);
        assert(0 <= j < self.keys@.len() && self.keys@[j] == key);
    }

    /// Replacing the value at place `i` replaces the record of its key.
    pub proof fn lemma_value_replaced(&self, before: &Self, i: int)
        requires
            before.wf(),
            0 <= i < before.keys@.len(),
            self.keys@ == before.keys@,
            self.values@ == before.values@.update(i, self.values@[i]),
        ensures
            self.wf(),
            self@ == before@.insert(before.keys@[i], self.values@[i]),
    {
        before.lemma_at(i);
        assert forall|key: Id| #[trigger] self@.contains_key(key) implies self@[key]
            == before@.insert(before.keys@[i], self.values@[i])[key] by {
            let j = self.keys@.index_of(key);
            assert(0 <= j < self.keys@.len() && self.keys@[j] == key);
        }
        assert(self@ =~= before@.insert(before.keys@[i], self.values@[i]));
    }

    /// A table without records.
    pub fn new() -> (table: Self)
        ensures
            table.wf(),
            table@ == Map::<Id, V>::empty(),
            table.keys@.len() == 0,
    {
        let table = Table { keys: Vec::new(), values: Vec::new() };
        assert(table@ =~= Map::<Id, V>::empty());
        table
    }

    /// The place of a key.
    pub fn find(&self, key: &Id) -> (found: Option<usize>)
        requires
            self.wf(),
        ensures
            match found {
                Some(i) => i < self.keys@.len() && self.keys@[i as int] == *key
                    && self@.contains_key(*key) && self@[*key] == self.values@[i as int],
                None => !self@.contains_key(*key),
            },
    {
        let found = position(&self.keys, key);
        proof {
            if let Some(i) = found {
                self.lemma_at(i as int);
            }
        }
        found
    }

    /// Whether the table has a record for the key.
    pub fn contains_key(&self, key: &Id) -> (present: bool)
        requires
            self.wf(),
        ensures
            present == self@.contains_key(*key),
    {
        self.find(key).is_some()
    }

    /// Adds a record under a key that has none.
    pub fn insert_new(&mut self, key: Id, value: V)
        requires
            old(self).wf(),
            !old(self)@.contains_key(key),
        ensures
            final(self).wf(),
            final(self)@ == old(self)@.insert(key, value),
            final(self).keys@ == old(self).keys@.push(key),
            final(self).values@ == old(self).values@.push(value),
    {
        let ghost before = *self;
        self.keys.push(key);
        self.values.push(value);
        proof {
            let n = before.keys@.len() as int;
            assert forall|i: int, j: int|
                0 <= i < self.keys@.len() && 0 <= j < self.keys@.len() && i != j implies self.keys@[i]
                != self.keys@[j] by {
                if i == n {
                    assert(before.keys@.contains(self.keys@[j]));
                } else if j == n {
                    assert(before.keys@.contains(self.keys@[i]));
                }
            }
            assert forall|k: Id| #[trigger] self@.contains_key(k) implies before@.insert(
                key,
                value,
            ).contains_key(k) && self@[k] == before@.insert(key, value)[k] by {
                let j = self.keys@.index_of(k);
                assert(0 <= j < self.keys@.len() && self.keys@[j] == k);
                self.lemma_at(j);
                if j < n {
                    before.lemma_at(j);
                }
            }
            assert forall|k: Id| #[trigger]
                before@.insert(key, value).contains_key(k) implies self@.contains_key(k) by {
                if k == key {
                    assert(self.keys@[n] == k);
                } else {
                    let j = before.keys@.index_of(k);
                    assert(0 <= j < n && before.keys@[j] == k);
                    assert(self.keys@[j] == k);
                }
            }
            assert(self@ =~= before@.insert(key, value));
        }
    }

    /// Takes out the record at a place.
    pub fn remove_at(&mut self, i: usize) -> (value: V)
        requires
            old(self).wf(),
            i < old(self).keys@.len(),
        ensures
            final(self).wf(),
            final(self)@ == old(self)@.remove(old(self).keys@[i as int]),
            value == old(self).values@[i as int],
            final(self).keys@ == old(self).keys@.remove(i as int),
            final(self).values@ == old(self).values@.remove(i as int),
    {
        let ghost before = *self;
        let ghost gone = self.keys@[i as int];
        self.keys.remove(i);
        let value = self.values.remove(i);
        proof {
            let n = before.keys@.len() as int;
            assert forall|a: int, b: int|
                0 <= a < self.keys@.len() && 0 <= b < self.keys@.len() && a != b implies self.keys@[a]
                != self.keys@[b] by {
                let a0 = if a < i { a } else { a + 1 };
                let b0 = if b < i { b } else { b + 1 };
                assert(self.keys@[a] == before.keys@[a0]);
                assert(self.keys@[b] == before.keys@[b0]);
            }
            assert forall|k: Id| #[trigger] self@.contains_key(k) implies before@.remove(
                gone,
            ).contains_key(k) && self@[k] == before@.remove(gone)[k] by {
                let j = self.keys@.index_of(k);
                assert(0 <= j < self.keys@.len() && self.keys@[j] == k);
                self.lemma_at(j);
                let j0 = if j < i { j } else { j + 1 };
                assert(before.keys@[j0] == k);
                before.lemma_at(j0);
            }
            assert forall|k: Id| #[trigger] before@.remove(gone).contains_key(k) implies self@.contains_key(
                k,
            ) by {
                let j0 = before.keys@.index_of(k);
                assert(0 <= j0 < n && before.keys@[j0] == k);
                assert(j0 != i);
                let j = if j0 < i { j0 } else { j0 - 1 };
                assert(self.keys@[j] == k);
            }
            assert(self@ =~= before@.remove(gone));
        }
        value
    }
}

} // verus!
