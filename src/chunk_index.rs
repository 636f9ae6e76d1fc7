//! The index of materialized chunks: chunk coordinate to expected asteroid count.
//!
//! It is std's `HashMap` under fnv's hasher, as `fnv::FnvHashMap` names it.
use vstd::prelude::*;
use std::collections::HashMap;
use std::hash::BuildHasherDefault;
use fnv::{FnvBuildHasher, FnvHasher};

verus! {

/// fnv's `FnvHasher`, carried opaquely inside the index's hasher.
#[verifier::external_type_specification]
#[verifier::external_body]
pub struct ExFnvHasher(FnvHasher);

/// std's `BuildHasherDefault`, which builds a fresh default hasher per key; fnv names
/// `BuildHasherDefault<FnvHasher>` as `FnvBuildHasher`.
#[verifier::external_type_specification]
#[verifier::external_body]
#[verifier::reject_recursive_types(H)]
pub struct ExBuildHasherDefault<H>(BuildHasherDefault<H>);

/// Chunk coordinate to the count computed when the chunk was materialized.
pub type ChunkMap = HashMap<(i64, i64), usize, FnvBuildHasher>;

/// An empty index.
pub fn empty_index() -> (m: ChunkMap)
    ensures
        m@ == Map::<(i64, i64), usize>::empty(),
{
    ChunkMap::default()
}

/// Relies on `HashMap::get` under fnv's `FnvHasher`, which hashes the key's bytes
/// deterministically: the value stored for the key, if any.
#[verifier::external_body]
pub(crate) fn index_get(m: &ChunkMap, k: (i64, i64)) -> (r: Option<usize>)
    ensures
        r == (if m@.contains_key(k) { Some(m@[k]) } else { None::<usize> }),
{
    m.get(&k).copied()
}

/// Relies on `HashMap::insert` under fnv's `FnvHasher`: the key now maps to the value.
#[verifier::external_body]
pub(crate) fn index_insert(m: &mut ChunkMap, k: (i64, i64), v: usize)
    ensures
        final(m)@ == old(m)@.insert(k, v),
{
    m.insert(k, v);
}

/// Relies on `HashMap::remove` under fnv's `FnvHasher`: the key is gone, the rest stays.
#[verifier::external_body]
pub(crate) fn index_remove(m: &mut ChunkMap, k: (i64, i64))
    ensures
        final(m)@ == old(m)@.remove(k),
{
    m.remove(&k);
}

/// Relies on `HashMap::keys` under fnv's `FnvHasher`: each key once, in some order.
#[verifier::external_body]
pub(crate) fn index_keys(m: &ChunkMap) -> (r: Vec<(i64, i64)>)
    ensures
        r@.no_duplicates(),
        r@.to_set() == m@.dom(),
{
    m.keys().copied().collect()
}

/// Relies on `HashMap::len` under fnv's `FnvHasher`: the number of keys.
#[verifier::external_body]
pub(crate) fn index_len(m: &ChunkMap) -> (r: usize)
    ensures
        r == m@.len(),
{
    m.len()
}

} // verus!
