//! The table of counters of the sequence-number store: an
//! `ahash::AHashMap` from conversation key to counter, reached only through
//! the functions of this file.

use vstd::prelude::*;
use ahash::AHashMap;
use ahash::RandomState;

verus! {

/// `ahash::RandomState`, the hasher of the table: carried along, never
/// looked into.
#[verifier::external_type_specification]
#[verifier::external_body]
pub struct ExRandomState(RandomState);

/// `ahash::AHashMap`: opaque; what it holds is told by `entries`.
#[verifier::external_type_specification]
#[verifier::external_body]
#[verifier::reject_recursive_types(K)]
#[verifier::reject_recursive_types(V)]
#[verifier::reject_recursive_types(S)]
pub struct ExAHashMap<K, V, S>(AHashMap<K, V, S>);

/// What a table holds: the counter of each key that has one.
pub uninterp spec fn entries(table: AHashMap<u128, u64>) -> Map<u128, u64>;

/// The contents of a table that holds nothing.
pub open spec fn empty_entries() -> Map<u128, u64> {
    Map::empty()
}

/// `AHashMap::new`: a table without entries.
#[verifier::external_body]
pub(crate) fn table_new() -> (table: AHashMap<u128, u64>)
    ensures
        entries(table) == empty_entries(),
{
    AHashMap::new()
}

/// `AHashMap::get`: the counter stored under `key`, if there is one. The
/// table is not changed.
#[verifier::external_body]
pub(crate) fn table_get(table: &AHashMap<u128, u64>, key: u128) -> (found: Option<u64>)
    ensures
        found == (if entries(*table).contains_key(key) {
            Some(entries(*table)[key])
        } else {
            None
        }),
{
    table.get(&key).copied()
}

/// `AHashMap::insert`: stores `value` under `key`, in place of what was
/// stored there, and returns what was stored there. No other entry changes.
#[verifier::external_body]
pub(crate) fn table_insert(table: &mut AHashMap<u128, u64>, key: u128, value: u64) -> (prior:
    Option<u64>)
    ensures
        entries(*final(table)) == entries(*old(table)).insert(key, value),
        prior == (if entries(*old(table)).contains_key(key) {
            Some(entries(*old(table))[key])
        } else {
            None
        }),
{
    table.insert(key, value)
}

} // verus!
