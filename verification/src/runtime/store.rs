//! The object store: the objects of one version of a context, by identifier.

use vstd::prelude::*;
use std::collections::BTreeMap;
use crate::runtime::object::{Object, ObjectView};

verus! {

/// The objects of a store, by identifier.
pub type Objects = Map<u64, ObjectView>;

/// An ordered map from object identifiers to the objects. It owns them.
#[derive(Debug)]
pub struct ObjectStore {
    map: BTreeMap<u64, Object>,
}

impl View for ObjectStore {
    type V = Objects;

    closed spec fn view(&self) -> Objects {
        self.map@.map_values(|o: Object| o@)
    }
}

impl ObjectStore {
    /// The empty store.
    pub fn new() -> (s: ObjectStore)
        ensures
            s@ == Map::<u64, ObjectView>::empty(),
    {
        let s = ObjectStore { map: BTreeMap::new() };
        assert(s@ =~= Map::<u64, ObjectView>::empty());
        s
    }

    /// The object `id`, borrowed from the store.
    pub fn get(&self, id: u64) -> (r: Option<&Object>)
        ensures
            r matches Some(o) ==> self@.contains_key(id) && o@ == self@[id],
            r is None ==> !self@.contains_key(id),
    {
        self.map.get(&id)
    }

    /// Whether the store holds an object `id`.
    pub fn contains(&self, id: u64) -> (b: bool)
        ensures
            b == self@.contains_key(id),
    {
        self.map.contains_key(&id)
    }

    /// Puts `object` into the store under `id`, in place of the object that
    /// the store held under it, if any.
    pub fn put(&mut self, id: u64, object: Object)
        ensures
            final(self)@ == old(self)@.insert(id, object@),
    {
        self.map.insert(id, object);
        assert(self@ =~= old(self)@.insert(id, object@));
    }

    /// Takes the object `id` out of the store.
    pub fn take(&mut self, id: u64) -> (r: Option<Object>)
        ensures
            final(self)@ == old(self)@.remove(id),
            r matches Some(o) ==> old(self)@.contains_key(id) && o@ == old(self)@[id],
            r is None ==> !old(self)@.contains_key(id),
    {
        let r = self.map.remove(&id);
        assert(self@ =~= old(self)@.remove(id));
        r
    }

    /// A copy of the store: the same objects under the same identifiers.
    pub fn duplicate(&self) -> (s: ObjectStore)
        ensures
            s@ == self@,
    {
        ObjectStore { map: self.map.clone() }
    }
}

} // verus!
