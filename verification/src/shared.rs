//! The concurrent map that the session map, the cluster map and the
//! scheduler's node map are made of: a `dashmap::DashMap` from a 64-bit id
//! to the handle of an outbound queue, reached only through the functions
//! of this file.

use vstd::prelude::*;
use dashmap::DashMap;

verus! {

/// `dashmap::DashMap`: opaque; what it holds is told by `handles`. The map
/// itself is changed through shared references; the functions of this file
/// ask for exclusive ones, so that one owner changes it at a time.
#[verifier::external_type_specification]
#[verifier::external_body]
#[verifier::reject_recursive_types(K)]
#[verifier::reject_recursive_types(V)]
#[verifier::reject_recursive_types(S)]
pub struct ExDashMap<K, V, S>(DashMap<K, V, S>);

/// What a map holds: the handle stored under each id that has one.
pub uninterp spec fn handles(map: DashMap<u64, u64>) -> Map<u64, u64>;

/// The contents of a map that holds nothing.
pub open spec fn no_handles() -> Map<u64, u64> {
    Map::empty()
}

/// The handle stored under `id`, if there is one.
pub open spec fn lookup(m: Map<u64, u64>, id: u64) -> Option<u64> {
    if m.contains_key(id) {
        Some(m[id])
    } else {
        None
    }
}

/// `DashMap::new`: a map without entries.
#[verifier::external_body]
pub(crate) fn map_new() -> (map: DashMap<u64, u64>)
    ensures
        handles(map) == no_handles(),
{
    DashMap::new()
}

/// `DashMap::get`: the handle stored under `id`, if there is one. The map
/// is not changed.
#[verifier::external_body]
pub(crate) fn map_get(map: &DashMap<u64, u64>, id: u64) -> (found: Option<u64>)
    ensures
        found == lookup(handles(*map), id),
{
    map.get(&id).map(|entry| *entry.value())
}

/// `DashMap::contains_key`: whether a handle is stored under `id`.
#[verifier::external_body]
pub(crate) fn map_contains(map: &DashMap<u64, u64>, id: u64) -> (found: bool)
    ensures
        found == handles(*map).contains_key(id),
{
    map.contains_key(&id)
}

/// `DashMap::insert`: stores `handle` under `id`, in place of what was
/// stored there, and returns what was stored there. No other entry changes.
#[verifier::external_body]
pub(crate) fn map_insert(map: &mut DashMap<u64, u64>, id: u64, handle: u64) -> (prior: Option<
    u64,
>)
    ensures
        handles(*final(map)) == handles(*old(map)).insert(id, handle),
        prior == lookup(handles(*old(map)), id),
{
    map.insert(id, handle)
}

/// `DashMap::remove`: takes away what is stored under `id` and returns its
/// handle. No other entry changes.
#[verifier::external_body]
pub(crate) fn map_remove(map: &mut DashMap<u64, u64>, id: u64) -> (prior: Option<u64>)
    ensures
        handles(*final(map)) == handles(*old(map)).remove(id),
        prior == lookup(handles(*old(map)), id),
{
    map.remove(&id).map(|pair| pair.1)
}

/// `DashMap::iter`: the ids that have an entry, each once, in the order in
/// which the map happens to walk its shards. The map is not changed.
#[verifier::external_body]
pub(crate) fn map_ids(map: &DashMap<u64, u64>) -> (ids: Vec<u64>)
    ensures
        ids@.no_duplicates(),
        ids@.to_set() == handles(*map).dom(),
{
    map.iter().map(|entry| *entry.key()).collect()
}

} // verus!
