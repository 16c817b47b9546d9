//! Capabilities: the resources a context may use and the operations it may do on
//! them.

use vstd::prelude::*;

verus! {

/// Kinds of resource a capability grants access to.
#[derive(Copy, Clone, Debug, PartialEq, Eq)]
pub enum CapabilityType {
    PhysicalMemory,
    VirtualMemory,
    IOPort,
}

/// Permission bits of a physical memory capability.
pub const DIRECT_MAP_READ: u16 = 0b00000001;
pub const DIRECT_MAP_WRITE: u16 = 0b00000010;
pub const VAS_MAP_READABLE: u16 = 0b00000100;
pub const VAS_MAP_WRITABLE: u16 = 0b00001000;
pub const VAS_MAP_EXECUTABLE: u16 = 0b00010000;
pub const MOD_CACHE_SETTINGS: u16 = 0b00100000;
pub const MOD_SWAP_SETTINGS: u16 = 0b01000000;
pub const MOD_COPY_SETTINGS: u16 = 0b10000000;
pub const MOD_MISC_SETTINGS: u16 = 0b100000000;

/// A capability to a region of physical memory: which region of the frame
/// allocator, with which permissions, and how many contexts hold it.
#[derive(Copy, Clone, Debug, PartialEq, Eq)]
pub struct PhysicalMemoryCapability {
    id: u64,
    refcount: usize,
    pfa_index: usize,
    permissions: u8,
}

impl PhysicalMemoryCapability {
    pub closed spec fn spec_id(&self) -> u64 {
        self.id
    }

    pub closed spec fn spec_refcount(&self) -> usize {
        self.refcount
    }

    pub closed spec fn spec_pfa_index(&self) -> usize {
        self.pfa_index
    }

    pub closed spec fn spec_permissions(&self) -> u8 {
        self.permissions
    }

    /// A capability with the given identity, holders, region and permissions.
    pub fn new(id: u64, refcount: usize, pfa_index: usize, permissions: u8) -> (c: Self)
        ensures
            c.spec_id() == id,
            c.spec_refcount() == refcount,
            c.spec_pfa_index() == pfa_index,
            c.spec_permissions() == permissions,
    {
        PhysicalMemoryCapability { id, refcount, pfa_index, permissions }
    }

    /// The identifier of the capability.
    pub fn get_id(&self) -> (id: u64)
        ensures
            id == self.spec_id(),
    {
        self.id
    }

    /// The number of contexts holding the capability.
    pub fn get_refcount(&self) -> (n: usize)
        ensures
            n == self.spec_refcount(),
    {
        self.refcount
    }
}

} // verus!
