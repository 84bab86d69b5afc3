//! An order-preserving map with positional access.

use vstd::prelude::*;
use std::hash::Hash;
use vstd::std_specs::cmp::PartialEqSpec;

verus! {

/// A map that keeps its entries in the order in which their keys were first
/// inserted. An entry is reached by its key or by its index, the position at
/// which its key was inserted.
#[derive(Debug)]
pub struct VMap<K, V> {
    keys: Vec<K>,
    store: Vec<V>,
}

impl<K, V> VMap<K, V> {
    /// The keys, in insertion order.
    pub closed spec fn keys(&self) -> Seq<K> {
        self.keys@
    }

    /// The values, each at the index of its key.
    pub closed spec fn values(&self) -> Seq<V> {
        self.store@
    }

    /// Every key has a value.
    pub open spec fn wf(&self) -> bool {
        self.keys().len() == self.values().len()
    }

    /// The empty map.
    pub fn new() -> (m: Self)
        ensures
            m.wf(),
            m.keys() == Seq::<K>::empty(),
            m.values() == Seq::<V>::empty(),
    {
        VMap { keys: Vec::new(), store: Vec::new() }
    }

    /// The number of entries.
    pub fn len(&self) -> (n: usize)
        ensures
            n == self.keys().len(),
    {
        self.keys.len()
    }

    /// The key at index `idx`.
    pub fn key_at(&self, idx: usize) -> (k: &K)
        requires
            idx < self.keys().len(),
        ensures
            *k == self.keys()[idx as int],
    {
        &self.keys[idx]
    }

    /// The value at index `idx`.
    pub fn value_at(&self, idx: usize) -> (v: &V)
        requires
            self.wf(),
            idx < self.keys().len(),
        ensures
            *v == self.values()[idx as int],
    {
        &self.store[idx]
    }
}

impl<K: Eq + Hash, V> VMap<K, V> {
    /// No two keys are equal.
    pub open spec fn distinct(&self) -> bool {
        forall|i: int, j: int|
            0 <= i < j < self.keys().len() ==> !(#[trigger] self.keys()[i]).eq_spec(
                #[trigger] &self.keys()[j],
            )
    }

    /// Whether `r` is the index of `key`: the position of the first key equal
    /// to it, or `None` where no key is.
    pub open spec fn is_index_of(&self, key: K, r: Option<usize>) -> bool {
        match r {
            Some(i) => {
                &&& i < self.keys().len()
                &&& self.keys()[i as int].eq_spec(&key)
                &&& forall|j: int| 0 <= j < i ==> !(#[trigger] self.keys()[j]).eq_spec(&key)
            },
            None => forall|j: int|
                0 <= j < self.keys().len() ==> !(#[trigger] self.keys()[j]).eq_spec(&key),
        }
    }

    /// The index of `key`.
    pub fn get_index(&self, key: &K) -> (r: Option<usize>)
        ensures
            K::obeys_eq_spec() ==> self.is_index_of(*key, r),
            r matches Some(i) ==> i < self.keys().len(),
    {
        let mut i: usize = 0;
        while i < self.keys.len()
            invariant
                i <= self.keys.len(),
                K::obeys_eq_spec() ==> forall|j: int|
                    0 <= j < i ==> !(#[trigger] self.keys()[j]).eq_spec(key),
            decreases self.keys.len() - i,
        {
            if self.keys[i].eq(key) {
                return Some(i);
            }
            i = i + 1;
        }
        None
    }

    /// The value of `key`, or `None` where the map has no such key.
    pub fn get(&self, key: &K) -> (r: Option<&V>)
        requires
            self.wf(),
        ensures
            K::obeys_eq_spec() ==> match r {
                Some(v) => exists|i: usize|
                    #![auto]
                    self.is_index_of(*key, Some(i)) && *v == self.values()[i as int],
                None => self.is_index_of(*key, None),
            },
    {
        match self.get_index(key) {
            Some(i) => Some(&self.store[i]),
            None => None,
        }
    }

    /// Sets the value of `key` and returns the key's index. A key that the
    /// map has keeps its index; a new key gets the next index.
    pub fn insert(&mut self, key: K, value: V) -> (idx: usize)
        requires
            old(self).wf(),
            K::obeys_eq_spec(),
        ensures
            final(self).wf(),
            old(self).distinct() ==> final(self).distinct(),
            old(self).is_index_of(key, Some(idx)) ==> {
                &&& final(self).keys() == old(self).keys()
                &&& final(self).values() == old(self).values().update(idx as int, value)
            },
            old(self).is_index_of(key, None) ==> {
                &&& idx == old(self).keys().len()
                &&& final(self).keys() == old(self).keys().push(key)
                &&& final(self).values() == old(self).values().push(value)
            },
            old(self).is_index_of(key, Some(idx)) || old(self).is_index_of(key, None),
    {
        match self.get_index(&key) {
            Some(i) => {
                self.store.set(i, value);
                i
            },
            None => {
                let i = self.keys.len();
                self.keys.push(key);
                self.store.push(value);
                i
            },
        }
    }
}

} // verus!
