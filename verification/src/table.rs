use vstd::prelude::*;
use crate::lists::position;
use crate::types::AccountId;

verus! {

/// A map from identities to records of type `T`.
///
/// Keys and records are kept in two lists of equal length, a key at the
/// place of its record, and no key occurs twice.
pub struct Table<T> {
    keys: Vec<AccountId>,
    records: Vec<T>,
}

impl<T> View for Table<T> {
    type V = Map<AccountId, T>;

    closed spec fn view(&self) -> Map<AccountId, T> {
        Map::new(
            |k: AccountId| self.keys@.contains(k),
            |k: AccountId| self.records@[self.keys@.index_of(k)],
        )
    }
}

impl<T> Table<T> {
    pub closed spec fn wf(&self) -> bool {
        &&& self.keys.len() == self.records.len()
        &&& self.keys@.no_duplicates()
    }

    proof fn lemma_place(&self, i: int)
        requires
            self.wf(),
            0 <= i < self.keys.len(),
        ensures
            self@.contains_key(self.keys[i]),
            self@[self.keys[i]] == self.records[i],
            self.keys@.index_of(self.keys[i]) == i,
    {
        assert(self.keys@.contains(self.keys[i]));
    }

    pub fn new() -> (t: Table<T>)
        ensures
            t.wf(),
            t@ == Map::<AccountId, T>::empty(),
    {
        let t = Table { keys: Vec::new(), records: Vec::new() };
        assert(t@ =~= Map::<AccountId, T>::empty());
        t
    }

    /// The record kept under `key`, if there is one.
    pub fn get(&self, key: &AccountId) -> (r: Option<&T>)
        requires
            self.wf(),
        ensures
            match r {
                Some(record) => self@.contains_key(*key) && *record == self@[*key],
                None => !self@.contains_key(*key),
            },
    {
        match position(&self.keys, key) {
            Some(i) => {
                proof {
                    self.lemma_place(i as int);
                }
                Some(&self.records[i])
            },
            None => None,
        }
    }

    pub fn contains(&self, key: &AccountId) -> (r: bool)
        requires
            self.wf(),
        ensures
            r == self@.contains_key(*key),
    {
        position(&self.keys, key).is_some()
    }

    /// Keeps `record` under `key`, in place of any record kept there before.
    pub fn set(&mut self, key: AccountId, record: T)
        requires
            old(self).wf(),
        ensures
            final(self).wf(),
            final(self)@ == old(self)@.insert(key, record),
    {
        let ghost before = *self;
        match position(&self.keys, &key) {
            Some(i) => {
                self.records[i] = record;
                proof {
                    assert forall|k: AccountId| self.keys@.contains(k) implies #[trigger] self@[k]
                        == before@.insert(key, record)[k] by {
                        let j = self.keys@.index_of(k);
                        before.lemma_place(j);
                        before.lemma_place(i as int);
                    }
                    assert(self@ =~= before@.insert(key, record));
                }
            },
            None => {
                self.keys.push(key);
                self.records.push(record);
                proof {
                    let n = before.keys.len() as int;
                    assert(self.keys[n] == key);
                    assert forall|k: AccountId| self.keys@.contains(k) == (before.keys@.contains(k)
                        || k == key) by {
                        if before.keys@.contains(k) {
                            let j = before.keys@.index_of(k);
                            assert(self.keys[j] == k);
                        }
                    }
                    assert forall|k: AccountId| self.keys@.contains(k) implies #[trigger] self@[k]
                        == before@.insert(key, record)[k] by {
                        let j = self.keys@.index_of(k);
                        self.lemma_place(j);
                        if j < n {
                            before.lemma_place(j);
                        }
                    }
                    assert(self@ =~= before@.insert(key, record));
                }
            },
        }
    }

    /// Takes the record kept under `key` out of the table, if there is one.
    pub fn take(&mut self, key: &AccountId) -> (r: Option<T>)
        requires
            old(self).wf(),
        ensures
            final(self).wf(),
            final(self)@ == old(self)@.remove(*key),
            match r {
                Some(record) => old(self)@.contains_key(*key) && record == old(self)@[*key],
                None => !old(self)@.contains_key(*key),
            },
    {
        let ghost before = *self;
        match position(&self.keys, key) {
            Some(i) => {
                self.keys.remove(i);
                let record = self.records.remove(i);
                proof {
                    before.lemma_place(i as int);
                    assert forall|a: int, b: int|
                        0 <= a < self.keys.len() && 0 <= b < self.keys.len() && a != b implies self.keys[a]
                        != self.keys[b] by {
                        let a0 = if a < i { a } else { a + 1 };
                        let b0 = if b < i { b } else { b + 1 };
                        assert(self.keys[a] == before.keys[a0]);
                        assert(self.keys[b] == before.keys[b0]);
                    }
                    assert forall|k: AccountId| self.keys@.contains(k) == (before.keys@.contains(k)
                        && k != *key) by {
                        if self.keys@.contains(k) {
                            let a = self.keys@.index_of(k);
                            let a0 = if a < i { a } else { a + 1 };
                            assert(before.keys[a0] == k);
                        }
                        if before.keys@.contains(k) && k != *key {
                            let a0 = before.keys@.index_of(k);
                            let a = if a0 < i { a0 } else { a0 - 1 };
                            assert(self.keys[a] == k);
                        }
                    }
                    assert forall|k: AccountId| self.keys@.contains(k) implies #[trigger] self@[k]
                        == before@[k] by {
                        let a = self.keys@.index_of(k);
                        let a0 = if a < i { a } else { a + 1 };
                        self.lemma_place(a);
                        before.lemma_place(a0);
                    }
                    assert(self@ =~= before@.remove(*key));
                }
                Some(record)
            },
            None => {
                assert(self@ =~= before@.remove(*key));
                None
            },
        }
    }
}

} // verus!
