use ic_stable_structures::memory_manager::{MemoryId, MemoryManager, VirtualMemory};
use ic_stable_structures::{Cell, DefaultMemoryImpl, StableBTreeMap};
use vstd::prelude::*;

verus! {

/// The stable memory of the process, split into numbered regions. Each region
/// must back one structure only: the store takes each region once.
#[verifier::external_body]
pub(crate) struct Regions {
    manager: MemoryManager<DefaultMemoryImpl>,
}

/// One region of stable memory.
#[verifier::external_body]
pub(crate) struct Region {
    memory: VirtualMemory<DefaultMemoryImpl>,
}

/// A crash-durable ordered map from ids to byte strings.
#[verifier::external_body]
pub(crate) struct DurableMap {
    map: StableBTreeMap<u64, Vec<u8>, VirtualMemory<DefaultMemoryImpl>>,
}

/// A crash-durable cell holding one number.
#[verifier::external_body]
pub(crate) struct DurableCounter {
    cell: Cell<u64, VirtualMemory<DefaultMemoryImpl>>,
}

/// What a durable map holds.
pub uninterp spec fn map_entries(m: DurableMap) -> Map<u64, Seq<u8>>;

/// A map with nothing in it.
pub open spec fn no_entries() -> Map<u64, Seq<u8>> {
    Map::empty()
}

/// What a durable cell holds.
pub uninterp spec fn counter_value(c: DurableCounter) -> u64;

impl Regions {
    /// Relies on MemoryManager::init over the default memory.
    #[verifier::external_body]
    pub(crate) fn open() -> (r: Regions) {
        Regions { manager: MemoryManager::init(DefaultMemoryImpl::default()) }
    }

    /// Relies on MemoryManager::get; MemoryId::new panics on id 255, which
    /// marks unallocated buckets.
    #[verifier::external_body]
    pub(crate) fn region(&self, id: u8) -> (r: Region)
        requires
            id < 255,
    {
        Region { memory: self.manager.get(MemoryId::new(id)) }
    }
}

impl DurableMap {
    /// Relies on StableBTreeMap::new: it writes a fresh, empty map over the region.
    #[verifier::external_body]
    pub(crate) fn create(region: Region) -> (r: DurableMap)
        ensures
            map_entries(r) == no_entries(),
    {
        DurableMap { map: StableBTreeMap::new(region.memory) }
    }

    /// Relies on StableBTreeMap::init: loads the map that the region holds, or
    /// writes an empty one when it holds none.
    #[verifier::external_body]
    pub(crate) fn open(region: Region) -> (r: DurableMap) {
        DurableMap { map: StableBTreeMap::init(region.memory) }
    }

    /// Relies on StableBTreeMap::iter: every entry of the map, once each.
    #[verifier::external_body]
    pub(crate) fn entries(&self) -> (r: Vec<(u64, Vec<u8>)>)
        ensures
            forall|i: int| #![trigger r@[i]]
                0 <= i < r@.len() ==> map_entries(*self).contains_key(r@[i].0) && r@[i].1@
                    == map_entries(*self)[r@[i].0],
            forall|k: u64| #[trigger]
                map_entries(*self).contains_key(k) ==> exists|i: int| 0 <= i < r@.len() && r@[i].0 == k,
    {
        self.map.iter().collect()
    }

    /// Relies on StableBTreeMap::get: the bytes stored under `key`, if any.
    #[verifier::external_body]
    pub(crate) fn get(&self, key: u64) -> (r: Option<Vec<u8>>)
        ensures
            r is Some <==> map_entries(*self).contains_key(key),
            r is Some ==> r->0@ == map_entries(*self)[key],
    {
        self.map.get(&key)
    }

    /// Relies on StableBTreeMap::insert: stores `value` under `key`, replacing
    /// what was there.
    #[verifier::external_body]
    pub(crate) fn insert(&mut self, key: u64, value: Vec<u8>)
        ensures
            map_entries(*final(self)) == map_entries(*old(self)).insert(key, value@),
    {
        self.map.insert(key, value);
    }

    /// Relies on StableBTreeMap::remove: takes `key` out of the map and returns
    /// what was stored under it.
    #[verifier::external_body]
    pub(crate) fn remove(&mut self, key: u64) -> (r: Option<Vec<u8>>)
        ensures
            map_entries(*final(self)) == map_entries(*old(self)).remove(key),
            r is Some <==> map_entries(*old(self)).contains_key(key),
            r is Some ==> r->0@ == map_entries(*old(self))[key],
    {
        self.map.remove(&key)
    }
}

impl DurableCounter {
    /// Relies on Cell::new: on success the cell holds `value`; it fails when
    /// the region cannot grow to hold it.
    #[verifier::external_body]
    pub(crate) fn create(region: Region, value: u64) -> (r: Option<DurableCounter>)
        ensures
            r is Some ==> counter_value(r->0) == value,
    {
        match Cell::new(region.memory, value) {
            Ok(cell) => Some(DurableCounter { cell }),
            Err(_) => None,
        }
    }

    /// Relies on Cell::init: loads the value that the region holds, or writes
    /// `value` when the region holds no cell yet; it fails on a cell of an
    /// unknown layout version or when the region cannot grow.
    #[verifier::external_body]
    pub(crate) fn open(region: Region, value: u64) -> (r: Option<DurableCounter>) {
        match Cell::init(region.memory, value) {
            Ok(cell) => Some(DurableCounter { cell }),
            Err(_) => None,
        }
    }

    /// Relies on Cell::get: the value held.
    #[verifier::external_body]
    pub(crate) fn get(&self) -> (r: u64)
        ensures
            r == counter_value(*self),
    {
        *self.cell.get()
    }

    /// Relies on Cell::set: it fails only when the encoded value exceeds
    /// `u32::MAX` bytes or the region must grow, and a cell made by `Cell::new` or
    /// `Cell::init` already holds a page, more than the eight bytes of a `u64`;
    /// so it succeeds and the cell holds `value`.
    #[verifier::external_body]
    pub(crate) fn set(&mut self, value: u64) -> (r: bool)
        ensures
            r,
            counter_value(*final(self)) == value,
    {
        self.cell.set(value).is_ok()
    }
}

} // verus!
