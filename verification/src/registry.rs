//! Registries: who is reachable through which outbound queue.
//!
//! A message node keeps two of them, the session map (user id to queue) and
//! the cluster map (node id to queue); a scheduler keeps one (node id to
//! queue). A queue is named by a handle, a number that the owner of the
//! queues hands out.

use vstd::prelude::*;
use dashmap::DashMap;
use crate::shared::{
    handles, lookup, map_contains, map_get, map_ids, map_insert, map_new, map_remove, no_handles,
};

verus! {

/// A map from id to queue handle.
pub struct Registry {
    map: DashMap<u64, u64>,
}

impl View for Registry {
    type V = Map<u64, u64>;

    closed spec fn view(&self) -> Map<u64, u64> {
        handles(self.map)
    }
}

impl Registry {
    /// A registry without entries.
    pub fn new() -> (r: Registry)
        ensures
            r@ == no_handles(),
    {
        Registry { map: map_new() }
    }

    /// The handle registered under `id`, if there is one.
    pub fn get(&self, id: u64) -> (found: Option<u64>)
        ensures
            found == lookup(self@, id),
    {
        map_get(&self.map, id)
    }

    /// Whether a handle is registered under `id`.
    pub fn contains(&self, id: u64) -> (found: bool)
        ensures
            found == self@.contains_key(id),
    {
        map_contains(&self.map, id)
    }

    /// Registers `handle` under `id`, in place of what was registered there,
    /// and returns what was registered there.
    pub fn insert(&mut self, id: u64, handle: u64) -> (prior: Option<u64>)
        ensures
            final(self)@ == old(self)@.insert(id, handle),
            prior == lookup(old(self)@, id),
    {
        map_insert(&mut self.map, id, handle)
    }

    /// Takes away what is registered under `id` and returns its handle.
    pub fn remove(&mut self, id: u64) -> (prior: Option<u64>)
        ensures
            final(self)@ == old(self)@.remove(id),
            prior == lookup(old(self)@, id),
    {
        map_remove(&mut self.map, id)
    }

    /// Takes away what is registered under `id`, but only where it is
    /// `handle`: an entry that another queue has taken over stays.
    pub fn remove_if_held(&mut self, id: u64, handle: u64) -> (removed: bool)
        ensures
            removed == (lookup(old(self)@, id) == Some(handle)),
            removed ==> final(self)@ == old(self)@.remove(id),
            !removed ==> final(self)@ == old(self)@,
    {
        match map_get(&self.map, id) {
            Some(h) => {
                if h == handle {
                    map_remove(&mut self.map, id);
                    true
                } else {
                    false
                }
            },
            None => false,
        }
    }

    /// The ids that have an entry, each once, in no particular order.
    pub fn ids(&self) -> (ids: Vec<u64>)
        ensures
            ids@.no_duplicates(),
            ids@.to_set() == self@.dom(),
    {
        map_ids(&self.map)
    }
}

} // verus!
