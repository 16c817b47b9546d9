//! Physical and virtual memory management: addresses, x86_64 paging structures and
//! the physical frame allocator.

pub mod address;
pub mod pmm;
pub mod page_map;
pub mod pfa;
pub mod page_table;
pub mod page_table_entry;

use vstd::prelude::*;
use self::pmm::Error as PmmError;

verus! {

/// Errors of the paging code.
#[derive(Copy, Clone, Debug, PartialEq, Eq)]
pub enum Error {
    UnsupportedOperation,
    InvalidArgument,
    InvalidAddress,
    InvalidPAddrAlignment,
    InvalidVAddrAlignment,
    OutOfMemory,
    VAddrRangeUnavailable,
    EntryNotPresent,
    EntryNotTable,
    NoSizeBit,
    OpNotSupportedAtThisLevel,
    AlredyHasPcid,
    InvalidPcid,
    SubPageSizeNotAllowed,
    PmmError(PmmError),
}

} // verus!
