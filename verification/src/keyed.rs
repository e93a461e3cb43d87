//! A small map from fixed-width byte keys to values that keeps the order in which keys
//! first came in.

use vstd::prelude::*;
use crate::primitives::FixedBytes;

verus! {

/// In a sequence without repeats, an element is found at its own index.
pub proof fn lemma_index_of_unique<A>(keys: Seq<A>, i: int)
    requires
        keys.no_duplicates(),
        0 <= i < keys.len(),
    ensures
        keys.contains(keys[i]),
        keys.index_of(keys[i]) == i,
{
    let j = keys.index_of(keys[i]);
    assert(0 <= j < keys.len() && keys[j] == keys[i]);
}

/// Keys of `N` bytes, each with one value. A key that is stored again keeps its place.
pub struct KeyedStore<const N: usize, V> {
    keys: Vec<FixedBytes<N>>,
    values: Vec<V>,
}

impl<const N: usize, V> KeyedStore<N, V> {
    /// The stored keys, in the order in which they first came in.
    pub closed spec fn keys(&self) -> Seq<FixedBytes<N>> {
        self.keys@
    }

    /// The stored values, each at the index of its key.
    pub closed spec fn values(&self) -> Seq<V> {
        self.values@
    }

    /// No key is stored twice, and every key has its value.
    pub closed spec fn wf(&self) -> bool {
        &&& self.keys@.len() == self.values@.len()
        &&& self.keys@.no_duplicates()
    }

    /// The store as a map from key to value.
    pub open spec fn map(&self) -> Map<FixedBytes<N>, V> {
        Map::new(
            |k: FixedBytes<N>| self.keys().contains(k),
            |k: FixedBytes<N>| self.values()[self.keys().index_of(k)],
        )
    }

    /// What well-formedness means for the key order and the map.
    pub proof fn lemma_wf(&self)
        requires
            self.wf(),
        ensures
            self.keys().len() == self.values().len(),
            self.keys().no_duplicates(),
            forall|i: int|
                0 <= i < self.keys().len() ==> self.map().contains_key(#[trigger] self.keys()[i])
                    && self.map()[self.keys()[i]] == self.values()[i],
            forall|k: FixedBytes<N>|
                self.map().contains_key(k) <==> self.keys().contains(k),
    {
        assert forall|i: int| 0 <= i < self.keys().len() implies self.map().contains_key(
            #[trigger] self.keys()[i],
        ) && self.map()[self.keys()[i]] == self.values()[i] by {
            lemma_index_of_unique(self.keys(), i);
        }
    }

    /// The map has as many keys as the key order is long.
    pub proof fn lemma_len(&self)
        requires
            self.wf(),
        ensures
            self.map().dom().finite(),
            self.map().len() == self.keys().len(),
    {
        self.keys().unique_seq_to_set();
        vstd::seq_lib::seq_to_set_is_finite(self.keys());
        assert(self.map().dom() =~= self.keys().to_set());
    }

    /// A store without keys.
    pub fn new() -> (out: Self)
        ensures
            out.wf(),
            out.keys() == Seq::<FixedBytes<N>>::empty(),
            out.map() == Map::<FixedBytes<N>, V>::empty(),
    {
        let out = KeyedStore { keys: Vec::new(), values: Vec::new() };
        assert(out.map() =~= Map::<FixedBytes<N>, V>::empty());
        out
    }

    /// The number of keys.
    pub fn len(&self) -> (n: usize)
        ensures
            n == self.keys().len(),
    {
        self.keys.len()
    }

    /// The index at which `key` is stored, if it is.
    pub fn position(&self, key: &FixedBytes<N>) -> (at: Option<usize>)
        requires
            self.wf(),
        ensures
            match at {
                Some(i) => i < self.keys().len() && self.keys()[i as int] == *key
                    && self.keys().index_of(*key) == i && self.keys().contains(*key),
                None => !self.keys().contains(*key),
            },
    {
        let mut i: usize = 0;
        while i < self.keys.len()
            invariant
                self.wf(),
                i <= self.keys@.len(),
                forall|j: int| 0 <= j < i ==> self.keys@[j] != *key,
            decreases self.keys@.len() - i,
        {
            if self.keys[i] == *key {
                proof {
                    lemma_index_of_unique(self.keys@, i as int);
                }
                return Some(i);
            }
            i = i + 1;
        }
        None
    }

    /// Whether `key` is stored.
    pub fn contains_key(&self, key: &FixedBytes<N>) -> (found: bool)
        requires
            self.wf(),
        ensures
            found == self.map().contains_key(*key),
    {
        self.position(key).is_some()
    }

    /// The value stored under `key`, if there is one.
    pub fn get(&self, key: &FixedBytes<N>) -> (out: Option<&V>)
        requires
            self.wf(),
        ensures
            match out {
                Some(value) => self.map().contains_key(*key) && *value == self.map()[*key],
                None => !self.map().contains_key(*key),
            },
    {
        match self.position(key) {
            Some(i) => Some(&self.values[i]),
            None => None,
        }
    }

    /// The key at an index of the key order.
    pub fn key_at(&self, i: usize) -> (key: FixedBytes<N>)
        requires
            self.wf(),
            i < self.keys().len(),
        ensures
            key == self.keys()[i as int],
            self.map().contains_key(key),
    {
        proof {
            self.lemma_wf();
        }
        self.keys[i]
    }

    /// The value of the key at an index of the key order.
    pub fn value_at(&self, i: usize) -> (value: &V)
        requires
            self.wf(),
            i < self.keys().len(),
        ensures
            *value == self.values()[i as int],
            *value == self.map()[self.keys()[i as int]],
    {
        proof {
            self.lemma_wf();
        }
        &self.values[i]
    }

    /// Gives up the store for its values, in the order of their keys.
    pub fn into_values(self) -> (out: Vec<V>)
        requires
            self.wf(),
        ensures
            out@ == self.values(),
    {
        self.values
    }

    /// Stores `value` under `key`. A key that was stored keeps its place and gets the new
    /// value; a new key goes to the end of the key order.
    pub fn insert(&mut self, key: FixedBytes<N>, value: V)
        requires
            old(self).wf(),
        ensures
            final(self).wf(),
            final(self).map() == old(self).map().insert(key, value),
            final(self).keys() == if old(self).keys().contains(key) {
                old(self).keys()
            } else {
                old(self).keys().push(key)
            },
    {
        let ghost before = *self;
        match self.position(&key) {
            Some(i) => {
                self.values.set(i, value);
                proof {
                    assert forall|k: FixedBytes<N>| self.map().contains_key(k) implies self.map()[k]
                        == before.map().insert(key, value)[k] by {
                        let j = self.keys@.index_of(k);
                        assert(0 <= j < self.keys@.len() && self.keys@[j] == k);
                    }
                    assert(self.map() =~= before.map().insert(key, value));
                }
            },
            None => {
                self.keys.push(key);
                self.values.push(value);
                proof {
                    let keys = self.keys@;
                    assert(keys[keys.len() - 1] == key);
                    assert forall|k: FixedBytes<N>| keys.contains(k) <==> (before.keys@.contains(k)
                        || k == key) by {
                        if keys.contains(k) {
                            let j = keys.index_of(k);
                            assert(0 <= j < keys.len() && keys[j] == k);
                            if j < before.keys@.len() {
                                assert(before.keys@[j] == k);
                            }
                        }
                        if before.keys@.contains(k) {
                            let j = before.keys@.index_of(k);
                            assert(0 <= j < before.keys@.len() && before.keys@[j] == k);
                            assert(keys[j] == k);
                        }
                    }
                    assert forall|k: FixedBytes<N>| self.map().contains_key(k) implies self.map()[k]
                        == before.map().insert(key, value)[k] by {
                        let j = keys.index_of(k);
                        assert(0 <= j < keys.len() && keys[j] == k);
                        if k != key {
                            let j0 = before.keys@.index_of(k);
                            assert(0 <= j0 < before.keys@.len() && before.keys@[j0] == k);
                            assert(keys[j0] == k);
                            assert(j == j0);
                        } else {
                            assert(j == keys.len() - 1);
                        }
                    }
                    assert(self.map() =~= before.map().insert(key, value));
                }
            },
        }
    }

    /// Takes `key` and its value out of the store. The other keys keep their order.
    pub fn remove(&mut self, key: &FixedBytes<N>) -> (out: Option<V>)
        requires
            old(self).wf(),
        ensures
            final(self).wf(),
            final(self).map() == old(self).map().remove(*key),
            match out {
                Some(value) => {
                    &&& old(self).map().contains_key(*key)
                    &&& value == old(self).map()[*key]
                    &&& final(self).keys() == old(self).keys().remove(
                        old(self).keys().index_of(*key),
                    )
                },
                None => !old(self).map().contains_key(*key) && final(self).keys() == old(
                    self,
                ).keys(),
            },
    {
        let ghost before = *self;
        match self.position(key) {
            Some(i) => {
                let _ = self.keys.remove(i);
                let value = self.values.remove(i);
                proof {
                    let keys = self.keys@;
                    let old_keys = before.keys@;
                    assert forall|a: int| 0 <= a < keys.len() implies keys[a] == old_keys[if a
                        < i {
                        a
                    } else {
                        a + 1
                    }] by {}
                    assert(keys.no_duplicates());
                    assert forall|k: FixedBytes<N>| keys.contains(k) <==> (old_keys.contains(k)
                        && k != *key) by {
                        if keys.contains(k) {
                            let a = keys.index_of(k);
                            assert(0 <= a < keys.len() && keys[a] == k);
                            let b = if a < i { a } else { a + 1 };
                            assert(old_keys[b] == k);
                        }
                        if old_keys.contains(k) && k != *key {
                            let b = old_keys.index_of(k);
                            assert(0 <= b < old_keys.len() && old_keys[b] == k);
                            let a = if b < i { b } else { b - 1 };
                            assert(keys[a] == k);
                        }
                    }
                    assert forall|k: FixedBytes<N>| self.map().contains_key(k) implies self.map()[k]
                        == before.map().remove(*key)[k] by {
                        let a = keys.index_of(k);
                        assert(0 <= a < keys.len() && keys[a] == k);
                        let b = if a < i { a } else { a + 1 };
                        assert(old_keys[b] == k);
                        let b0 = old_keys.index_of(k);
                        assert(0 <= b0 < old_keys.len() && old_keys[b0] == k);
                        assert(b0 == b);
                        assert(self.values@[a] == before.values@[b]);
                    }
                    assert(self.map() =~= before.map().remove(*key));
                }
                Some(value)
            },
            None => {
                proof {
                    assert(self.map() =~= before.map().remove(*key));
                }
                None
            },
        }
    }
}

} // verus!
