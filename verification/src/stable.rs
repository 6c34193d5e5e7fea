//! The durable storage layer: virtual regions carved out of one backing
//! memory, a durable scalar cell for the id counter, and a durable ordered
//! map from ids to encoded records. All of it is provided by the
//! `ic_stable_structures` crate; this module holds those structures behind
//! types of this crate and states what each call does, in terms of the cell's
//! current value and the map's current contents.

use vstd::prelude::*;
use ic_stable_structures::memory_manager::{MemoryId, MemoryManager, VirtualMemory};
use ic_stable_structures::{Cell, DefaultMemoryImpl, StableBTreeMap};

verus! {

/// One virtual region of the backing memory, independently growable.
#[verifier::external_body]
pub struct RegionHandle {
    mem: VirtualMemory<DefaultMemoryImpl>,
}

/// A durable cell holding one `u64`; every write persists before returning.
#[verifier::external_body]
pub struct IdCell {
    cell: Cell<u64, VirtualMemory<DefaultMemoryImpl>>,
}

/// A durable ordered map from `u64` keys to encoded records; every mutation
/// persists before returning, and iteration order is ascending by key.
#[verifier::external_body]
pub struct RecordMap {
    map: StableBTreeMap<u64, Vec<u8>, VirtualMemory<DefaultMemoryImpl>>,
}

/// Whether a region is brand new: zero length, never written.
pub uninterp spec fn region_fresh(m: RegionHandle) -> bool;

/// The value currently stored in a durable cell.
pub uninterp spec fn cell_value(c: IdCell) -> u64;

/// The key-to-bytes contents currently stored in a durable map.
pub uninterp spec fn map_contents(m: RecordMap) -> Map<u64, Seq<u8>>;

/// The contents of a map that holds nothing.
pub open spec fn empty_contents() -> Map<u64, Seq<u8>> {
    Map::empty()
}

/// Relies on `DefaultMemoryImpl::default`, `MemoryManager::init` and
/// `MemoryManager::get`: a region table built over brand-new backing memory
/// hands out independent regions, each of length zero.
#[verifier::external_body]
pub(crate) fn fresh_regions() -> (r: (RegionHandle, RegionHandle))
    ensures
        region_fresh(r.0),
        region_fresh(r.1),
{
    let table = MemoryManager::init(DefaultMemoryImpl::default());
    (
        RegionHandle { mem: table.get(MemoryId::new(0)) },
        RegionHandle { mem: table.get(MemoryId::new(1)) },
    )
}

impl IdCell {
    /// Relies on `Cell::init`: over an empty region it writes the default
    /// value durably and returns a cell holding it.
    #[verifier::external_body]
    pub(crate) fn init(region: RegionHandle, default_value: u64) -> (r: IdCell)
        requires
            region_fresh(region),
        ensures
            cell_value(r) == default_value,
    {
        IdCell { cell: Cell::init(region.mem, default_value) }
    }

    /// Relies on `Cell::get`: returns the cell's current value.
    #[verifier::external_body]
    pub(crate) fn get(&self) -> (r: u64)
        ensures
            r == cell_value(*self),
    {
        *self.cell.get()
    }

    /// Relies on `Cell::set`: writes the new value durably before returning,
    /// and returns the previous value.
    #[verifier::external_body]
    pub(crate) fn set(&mut self, v: u64) -> (prev: u64)
        ensures
            cell_value(*final(self)) == v,
            prev == cell_value(*old(self)),
    {
        self.cell.set(v)
    }
}

impl RecordMap {
    /// Relies on `BTreeMap::init`: over an empty region it creates an empty
    /// map.
    #[verifier::external_body]
    pub(crate) fn init(region: RegionHandle) -> (r: RecordMap)
        requires
            region_fresh(region),
        ensures
            map_contents(r) == empty_contents(),
    {
        RecordMap { map: StableBTreeMap::init(region.mem) }
    }

    /// Relies on `BTreeMap::get`: returns a copy of the value stored under
    /// the key, or nothing if the key is absent; the map is not changed.
    #[verifier::external_body]
    pub(crate) fn get(&self, key: u64) -> (r: Option<Vec<u8>>)
        ensures
            match r {
                Option::Some(v) => map_contents(*self).contains_key(key) && v@ == map_contents(
                    *self,
                )[key],
                Option::None => !map_contents(*self).contains_key(key),
            },
    {
        self.map.get(&key)
    }

    /// Relies on `BTreeMap::insert`: maps the key to the value durably and
    /// returns the previous value stored under the key, if any.
    #[verifier::external_body]
    pub(crate) fn insert(&mut self, key: u64, value: Vec<u8>) -> (prev: Option<Vec<u8>>)
        ensures
            map_contents(*final(self)) == map_contents(*old(self)).insert(key, value@),
            match prev {
                Option::Some(v) => map_contents(*old(self)).contains_key(key) && v@ == map_contents(
                    *old(self),
                )[key],
                Option::None => !map_contents(*old(self)).contains_key(key),
            },
    {
        self.map.insert(key, value)
    }

    /// Relies on `BTreeMap::remove`: removes the key durably and returns the
    /// value that was stored under it, if any.
    #[verifier::external_body]
    pub(crate) fn remove(&mut self, key: u64) -> (prev: Option<Vec<u8>>)
        ensures
            map_contents(*final(self)) == map_contents(*old(self)).remove(key),
            match prev {
                Option::Some(v) => map_contents(*old(self)).contains_key(key) && v@ == map_contents(
                    *old(self),
                )[key],
                Option::None => !map_contents(*old(self)).contains_key(key),
            },
    {
        self.map.remove(&key)
    }
}

} // verus!
