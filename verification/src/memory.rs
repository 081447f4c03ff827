//! Stable memory: ordered maps from a 128-bit key to a row of bytes.
//!
//! The maps are `ic_stable_structures::StableBTreeMap`s. Nothing in this file
//! is proved: each function states what the map does, and the rest of the
//! library is verified against these statements.

use ic_stable_structures::memory_manager::{MemoryId, MemoryManager, VirtualMemory};
use ic_stable_structures::{DefaultMemoryImpl, StableBTreeMap};
use vstd::prelude::*;

verus! {

/// An ordered map in stable memory, from a key to a row of bytes.
#[verifier::external_body]
pub struct RowMap {
    inner: StableBTreeMap<u128, Vec<u8>, VirtualMemory<DefaultMemoryImpl>>,
}

/// The rows that a map holds.
pub uninterp spec fn rows_of(m: RowMap) -> Map<u128, Seq<u8>>;

/// Whether a row of `len` bytes can be stored: the map records the length of
/// a value in 32 bits.
pub open spec fn row_len_fits(len: nat) -> bool {
    len <= u32::MAX
}

/// `StableBTreeMap::new` on two virtual memories of one
/// `MemoryManager::init(DefaultMemoryImpl::default())`: two maps that hold
/// nothing, whatever the memories held before. The two memories must differ,
/// and 255 is no memory.
#[verifier::external_body]
pub(crate) fn fresh_row_maps(first: u8, second: u8) -> (r: (RowMap, RowMap))
    requires
        first != second,
        first != 255,
        second != 255,
    ensures
        rows_of(r.0) == (Map::<u128, Seq<u8>>::empty()),
        rows_of(r.1) == (Map::<u128, Seq<u8>>::empty()),
{
    let manager = MemoryManager::init(DefaultMemoryImpl::default());
    let a = StableBTreeMap::new(manager.get(MemoryId::new(first)));
    let b = StableBTreeMap::new(manager.get(MemoryId::new(second)));
    (RowMap { inner: a }, RowMap { inner: b })
}

/// `StableBTreeMap::init` on two virtual memories of one
/// `MemoryManager::init(DefaultMemoryImpl::default())`: the maps that the
/// memories hold, or empty ones where they hold none. Nothing is claimed of
/// their rows.
#[verifier::external_body]
pub(crate) fn stored_row_maps(first: u8, second: u8) -> (r: (RowMap, RowMap))
    requires
        first != second,
        first != 255,
        second != 255,
{
    let manager = MemoryManager::init(DefaultMemoryImpl::default());
    let a = StableBTreeMap::init(manager.get(MemoryId::new(first)));
    let b = StableBTreeMap::init(manager.get(MemoryId::new(second)));
    (RowMap { inner: a }, RowMap { inner: b })
}

/// `StableBTreeMap::get`: the row under `key`, if the map has one.
#[verifier::external_body]
pub(crate) fn row_get(m: &RowMap, key: u128) -> (r: Option<Vec<u8>>)
    ensures
        r is Some == rows_of(*m).contains_key(key),
        r is Some ==> r->0@ == rows_of(*m)[key],
{
    m.inner.get(&key)
}

/// `StableBTreeMap::insert`: afterwards the map holds `value` under `key` and
/// is otherwise unchanged. The value must fit the 32-bit length field, and a
/// new key needs room in the 64-bit entry count.
#[verifier::external_body]
pub(crate) fn row_insert(m: &mut RowMap, key: u128, value: Vec<u8>)
    requires
        row_len_fits(value@.len()),
        rows_of(*old(m)).dom().finite(),
        rows_of(*old(m)).contains_key(key) || rows_of(*old(m)).dom().len() < u64::MAX,
    ensures
        rows_of(*final(m)) == rows_of(*old(m)).insert(key, value@),
{
    m.inner.insert(key, value);
}

/// `StableBTreeMap::keys`: every key of the map, once, in ascending order.
#[verifier::external_body]
pub(crate) fn row_keys(m: &RowMap) -> (r: Vec<u128>)
    ensures
        forall|i: int, j: int| 0 <= i < j < r@.len() ==> r@[i] < r@[j],
        forall|k: u128| rows_of(*m).contains_key(k) <==> r@.contains(k),
{
    m.inner.keys().collect()
}

} // verus!
