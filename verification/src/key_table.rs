//! Tables and sets keyed by 32-byte identifiers.
use vstd::prelude::*;

use crate::primitives::same_id;

verus! {

/// A map from 32-byte identifiers to values.
pub struct KeyTable<V> {
    entries: Vec<([u8; 32], V)>,
}

impl<V> KeyTable<V> {
    /// No identifier occurs twice.
    pub closed spec fn wf(&self) -> bool {
        forall|i: int, j: int|
            #![trigger self.entries@[i], self.entries@[j]]
            0 <= i < j < self.entries@.len() ==> self.entries@[i].0 != self.entries@[j].0
    }

    spec fn holds(&self, i: int, key: [u8; 32]) -> bool {
        0 <= i < self.entries@.len() && self.entries@[i].0 == key
    }
}

impl<V> View for KeyTable<V> {
    type V = Map<[u8; 32], V>;

    closed spec fn view(&self) -> Map<[u8; 32], V> {
        Map::new(
            |key: [u8; 32]| exists|i: int| self.holds(i, key),
            |key: [u8; 32]| self.entries@[choose|i: int| self.holds(i, key)].1,
        )
    }
}

impl<V> KeyTable<V> {
    proof fn lemma_entry(&self, i: int)
        requires
            self.wf(),
            0 <= i < self.entries@.len(),
        ensures
            self@.contains_key(self.entries@[i].0),
            self@[self.entries@[i].0] == self.entries@[i].1,
    {
        let key = self.entries@[i].0;
        assert(self.holds(i, key));
        let c = choose|c: int| self.holds(c, key);
        assert(c == i) by {
            if c < i {
                assert(self.entries@[c].0 != self.entries@[i].0);
            } else if i < c {
                assert(self.entries@[i].0 != self.entries@[c].0);
            }
        }
    }

    /// An empty table.
    pub fn new() -> (r: Self)
        ensures
            r.wf(),
            r@ == Map::<[u8; 32], V>::empty(),
    {
        let r: KeyTable<V> = KeyTable { entries: Vec::new() };
        assert(r@ =~= Map::<[u8; 32], V>::empty());
        r
    }

    fn position(&self, key: &[u8; 32]) -> (r: Option<usize>)
        requires
            self.wf(),
        ensures
            match r {
                Some(i) => self.holds(i as int, *key) && self@.contains_key(*key) && self@[*key]
                    == self.entries@[i as int].1,
                None => !self@.contains_key(*key),
            },
    {
        let mut i: usize = 0;
        while i < self.entries.len()
            invariant
                self.wf(),
                i <= self.entries.len(),
                forall|j: int| 0 <= j < i ==> self.entries@[j].0 != *key,
            decreases self.entries.len() - i,
        {
            if same_id(&self.entries[i].0, key) {
                proof {
                    self.lemma_entry(i as int);
                }
                return Some(i);
            }
            i = i + 1;
        }
        None
    }

    /// The value under a key.
    pub fn get(&self, key: &[u8; 32]) -> (r: Option<&V>)
        requires
            self.wf(),
        ensures
            match r {
                Some(v) => self@.contains_key(*key) && *v == self@[*key],
                None => !self@.contains_key(*key),
            },
    {
        match self.position(key) {
            Some(i) => Some(&self.entries[i].1),
            None => None,
        }
    }

    /// Takes a key out, with its value.
    pub fn remove(&mut self, key: &[u8; 32]) -> (r: Option<V>)
        requires
            old(self).wf(),
        ensures
            final(self).wf(),
            final(self)@ == old(self)@.remove(*key),
            match r {
                Some(v) => old(self)@.contains_key(*key) && v == old(self)@[*key],
                None => !old(self)@.contains_key(*key),
            },
    {
        match self.position(key) {
            Some(i) => {
                let ghost before = *self;
                let (_, v) = self.entries.swap_remove(i);
                proof {
                    self.lemma_swap_removed(before, i as int);
                }
                Some(v)
            },
            None => {
                assert(self@.remove(*key) =~= self@);
                None
            },
        }
    }

    proof fn lemma_swap_removed(&self, before: Self, i: int)
        requires
            before.wf(),
            0 <= i < before.entries@.len(),
            self.entries@ == before.entries@.update(i, before.entries@.last()).drop_last(),
        ensures
            self.wf(),
            self@ == before@.remove(before.entries@[i].0),
    {
        let key = before.entries@[i].0;
        let last = before.entries@.len() - 1;
        assert(self.wf());
        assert forall|k: [u8; 32]| self@.contains_key(k) == before@.remove(key).contains_key(
            k,
        ) by {
            if self@.contains_key(k) {
                let c = choose|c: int| self.holds(c, k);
                let d = if c == i { last } else { c };
                assert(before.holds(d, k));
                assert(before.entries@[i].0 != before.entries@[d].0);
            }
            if before@.remove(key).contains_key(k) {
                let c = choose|c: int| before.holds(c, k);
                let d = if c == last { i } else { c };
                assert(self.holds(d, k));
            }
        }
        assert forall|k: [u8; 32]| self@.contains_key(k) implies self@[k] == before@.remove(
            key,
        )[k] by {
            let c = choose|c: int| self.holds(c, k);
            let d = if c == i { last } else { c };
            self.lemma_entry(c);
            before.lemma_entry(d);
        }
        assert(self@ =~= before@.remove(key));
    }

    /// Puts a value under a key, in place of any that was there.
    pub fn insert(&mut self, key: [u8; 32], value: V)
        requires
            old(self).wf(),
        ensures
            final(self).wf(),
            final(self)@ == old(self)@.insert(key, value),
    {
        let _ = self.remove(&key);
        let ghost before = *self;
        self.entries.push((key, value));
        proof {
            assert forall|i: int| 0 <= i < before.entries@.len() implies before.entries@[i].0
                != key by {
                before.lemma_entry(i);
            }
            assert(self.wf());
            let n = before.entries@.len() as int;
            assert forall|k: [u8; 32]| self@.contains_key(k) == before@.insert(
                key,
                value,
            ).contains_key(k) by {
                if self@.contains_key(k) {
                    let c = choose|c: int| self.holds(c, k);
                    if c < n {
                        assert(before.holds(c, k));
                    }
                }
                if k == key {
                    assert(self.holds(n, k));
                } else if before@.contains_key(k) {
                    let c = choose|c: int| before.holds(c, k);
                    assert(self.holds(c, k));
                }
            }
            assert forall|k: [u8; 32]| self@.contains_key(k) implies self@[k] == before@.insert(
                key,
                value,
            )[k] by {
                let c = choose|c: int| self.holds(c, k);
                self.lemma_entry(c);
                if c < n {
                    before.lemma_entry(c);
                }
            }
            assert(self@ =~= before@.insert(key, value));
            assert(before@.insert(key, value) =~= old(self)@.insert(key, value));
        }
    }
}

/// A set of 32-byte identifiers.
pub struct KeySet {
    items: Vec<[u8; 32]>,
}

impl View for KeySet {
    type V = Set<[u8; 32]>;

    closed spec fn view(&self) -> Set<[u8; 32]> {
        self.items@.to_set()
    }
}

impl KeySet {
    /// An empty set.
    pub fn new() -> (r: Self)
        ensures
            r@ == Set::<[u8; 32]>::empty(),
    {
        let r = KeySet { items: Vec::new() };
        assert(r@ =~= Set::<[u8; 32]>::empty());
        r
    }

    /// Whether an identifier is in the set.
    pub fn contains(&self, key: &[u8; 32]) -> (r: bool)
        ensures
            r == self@.contains(*key),
    {
        let mut i: usize = 0;
        while i < self.items.len()
            invariant
                i <= self.items.len(),
                forall|j: int| 0 <= j < i ==> self.items@[j] != *key,
            decreases self.items.len() - i,
        {
            if same_id(&self.items[i], key) {
                assert(self.items@.contains(*key));
                return true;
            }
            i = i + 1;
        }
        false
    }

    /// Puts an identifier into the set; `true` if it was not there before.
    pub fn insert(&mut self, key: [u8; 32]) -> (r: bool)
        ensures
            final(self)@ == old(self)@.insert(key),
            r == !old(self)@.contains(key),
    {
        if self.contains(&key) {
            assert(self@.insert(key) =~= self@);
            false
        } else {
            let ghost before = self.items@;
            self.items.push(key);
            proof {
                assert forall|k: [u8; 32]| self.items@.contains(k) == (before.contains(k) || k
                    == key) by {
                    if before.contains(k) {
                        let c = choose|c: int| 0 <= c < before.len() && before[c] == k;
                        assert(self.items@[c] == k);
                    }
                    if k == key {
                        assert(self.items@[before.len() as int] == k);
                    }
                }
                assert(self@ =~= old(self)@.insert(key));
            }
            true
        }
    }
}

} // verus!
