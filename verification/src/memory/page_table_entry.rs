//! x86_64 page table entries.

use vstd::prelude::*;
use crate::memory::Error;
use crate::memory::address::{PhysicalAddress, PAGE_SIZE};
use crate::memory::page_table::PageSize;

verus! {

/// Page Table Entry Flags
/// Any items prefixed with `Cc` are specific to this kernel and are not part of the x86_64 ISA
#[derive(Copy, Clone, Debug, PartialEq, Eq)]
pub enum PteFlags {
    Present,
    Write,
    User,
    WriteThrough,
    CacheDisable,
    Accessed,
    /// Only for entries that point to pages
    Dirty,
    /// PageSize for entries in the PDPT and PD for 1GiB and 2MiB pages, PAT for 4KiB pages
    PageSizeOrPat,
    Global,
    /// Only for entries in the PDPT and PD for 1GiB and 2MiB pages
    HugeAndLargePat,
    /// Only for entries that point to pages: the page is copied on write
    CcCopyOnWrite,
    /// Only for entries that point to pages: the page is shared between address spaces
    CcShared,
    NoExecute,
}

impl PteFlags {
    pub open spec fn spec_bits(self) -> u64 {
        match self {
            PteFlags::Present => 0x1,
            PteFlags::Write => 0x2,
            PteFlags::User => 0x4,
            PteFlags::WriteThrough => 0x8,
            PteFlags::CacheDisable => 0x10,
            PteFlags::Accessed => 0x20,
            PteFlags::Dirty => 0x40,
            PteFlags::PageSizeOrPat => 0x80,
            PteFlags::Global => 0x100,
            PteFlags::HugeAndLargePat => 0x1000,
            PteFlags::CcCopyOnWrite => 0x10_0000_0000_0000,
            PteFlags::CcShared => 0x20_0000_0000_0000,
            PteFlags::NoExecute => 0x8000_0000_0000_0000,
        }
    }

    /// The bit of the entry that holds the flag.
    pub fn bits(self) -> (b: u64)
        ensures
            b == self.spec_bits(),
    {
        match self {
            PteFlags::Present => 0x1,
            PteFlags::Write => 0x2,
            PteFlags::User => 0x4,
            PteFlags::WriteThrough => 0x8,
            PteFlags::CacheDisable => 0x10,
            PteFlags::Accessed => 0x20,
            PteFlags::Dirty => 0x40,
            PteFlags::PageSizeOrPat => 0x80,
            PteFlags::Global => 0x100,
            PteFlags::HugeAndLargePat => 0x1000,
            PteFlags::CcCopyOnWrite => 0x10_0000_0000_0000,
            PteFlags::CcShared => 0x20_0000_0000_0000,
            PteFlags::NoExecute => 0x8000_0000_0000_0000,
        }
    }
}

/// All flags an entry may carry: bits 0 to 8, 52, 53 and 63.
pub const FLAG_MASK: u64 = 0x8030_0000_0000_01FF;

/// The flags a 2 MiB or 1 GiB page entry may carry: those and the large-page PAT bit 12.
pub const HUGE_AND_LARGE_PAGE_FLAG_MASK: u64 = 0x8030_0000_0000_11FF;

/// The mask that keeps the address bits of an entry: bits 12 up to the physical
/// address width.
pub open spec fn addr_mask(paddr_width: u8) -> u64 {
    (((1u64 << paddr_width) - 1) as u64) & !0xFFFu64
}

/// Computes the address mask for a physical address width below 64 bits.
pub fn make_addr_mask(paddr_width: u8) -> (m: u64)
    requires
        paddr_width < 64,
    ensures
        m == addr_mask(paddr_width),
{
    let w = paddr_width as u64;
    assert(1u64 << w >= 1) by (bit_vector)
        requires w < 64;
    let mut mask: u64 = (1u64 << w) - 1;
    mask = mask & !0xFFF;
    mask
}

pub open spec fn pte_present(e: u64) -> bool {
    e & 1 != 0
}

pub open spec fn pte_size_bit(e: u64) -> bool {
    e & 0x80 != 0
}

/// The flag mask a mapping of the given page size applies.
pub open spec fn page_flag_mask(size: PageSize) -> u64 {
    match size {
        PageSize::Standard => FLAG_MASK,
        _ => HUGE_AND_LARGE_PAGE_FLAG_MASK,
    }
}

/// The entry that maps `paddr` with `flags` under flag mask `fm`.
pub open spec fn mapped_entry(paddr: u64, flags: u64, fm: u64, paddr_width: u8) -> u64 {
    (paddr & addr_mask(paddr_width)) | (flags & fm)
}

/// An entry of a page table.
#[derive(Debug, Clone, Copy, PartialEq, Eq)]
pub struct PageTableEntry {
    entry: u64,
}

impl View for PageTableEntry {
    type V = u64;

    closed spec fn view(&self) -> u64 {
        self.entry
    }
}

impl PageTableEntry {
    /// An empty, not present entry.
    pub fn new() -> (e: Self)
        ensures
            e@ == 0,
    {
        Self { entry: 0 }
    }

    /// The entry holding the raw value `bits`, as read from a page table in memory.
    pub fn from_bits(bits: u64) -> (e: Self)
        ensures
            e@ == bits,
    {
        Self { entry: bits }
    }

    /// The raw value of the entry, as written to a page table in memory.
    pub fn raw(&self) -> (bits: u64)
        ensures
            bits == self@,
    {
        self.entry
    }

    /// The physical address the entry maps, when it is present.
    pub fn addr(&self, paddr_width: u8) -> (r: Result<PhysicalAddress, Error>)
        requires
            paddr_width < 64,
        ensures
            r == (if pte_present(self@) {
                Ok(PhysicalAddress { bits: self@ & addr_mask(paddr_width) })
            } else {
                Err(Error::EntryNotPresent)
            }),
    {
        if self.is_present() == false {
            Err(Error::EntryNotPresent)
        } else {
            Ok(PhysicalAddress::new(self.entry & make_addr_mask(paddr_width)))
        }
    }

    /// Points a not present entry at the page table at `paddr`, with the flags
    /// that `FLAG_MASK` lets through. A present entry or an address that is not page
    /// aligned is refused and the entry is left as it was.
    pub fn map_table(&mut self, paddr: PhysicalAddress, flags: u64, paddr_width: u8) -> (r: Result<(), Error>)
        requires
            paddr_width < 64,
        ensures
            pte_present(old(self)@) ==> r == Err::<(), Error>(Error::VAddrRangeUnavailable) && final(self)@ == old(self)@,
            !pte_present(old(self)@) && paddr.bits % PAGE_SIZE != 0 ==> r == Err::<(), Error>(Error::InvalidPAddrAlignment)
                && final(self)@ == old(self)@,
            !pte_present(old(self)@) && paddr.bits % PAGE_SIZE == 0 ==> r is Ok && final(self)@ == mapped_entry(
                paddr.bits,
                flags,
                FLAG_MASK,
                paddr_width,
            ),
    {
        if self.is_present() {
            Err(Error::VAddrRangeUnavailable)
        } else if paddr.is_page_aligned() == false {
            Err(Error::InvalidPAddrAlignment)
        } else {
            self.entry = (paddr.bits() & make_addr_mask(paddr_width)) | (flags & FLAG_MASK);
            Ok(())
        }
    }

    /// Points a not present entry at the page at `paddr`, with the flags the page
    /// size allows: `FLAG_MASK` for 4 KiB pages, also the large-page PAT bit for
    /// bigger ones. A present entry or an address that is not page aligned is refused
    /// and the entry is left as it was.
    pub fn map_page(&mut self, paddr: PhysicalAddress, flags: u64, size: PageSize, paddr_width: u8) -> (r: Result<(), Error>)
        requires
            paddr_width < 64,
        ensures
            pte_present(old(self)@) ==> r == Err::<(), Error>(Error::VAddrRangeUnavailable) && final(self)@ == old(self)@,
            !pte_present(old(self)@) && paddr.bits % PAGE_SIZE != 0 ==> r == Err::<(), Error>(Error::InvalidPAddrAlignment)
                && final(self)@ == old(self)@,
            !pte_present(old(self)@) && paddr.bits % PAGE_SIZE == 0 ==> r is Ok && final(self)@ == mapped_entry(
                paddr.bits,
                flags,
                page_flag_mask(size),
                paddr_width,
            ),
    {
        if self.is_present() {
            Err(Error::VAddrRangeUnavailable)
        } else if paddr.is_page_aligned() == false {
            Err(Error::InvalidPAddrAlignment)
        } else {
            let flag_mask = match size {
                PageSize::Standard => FLAG_MASK,
                _ => HUGE_AND_LARGE_PAGE_FLAG_MASK,
            };
            self.entry = (paddr.bits() & make_addr_mask(paddr_width)) | (flags & flag_mask);
            Ok(())
        }
    }

    /// Clears a present entry and gives back the address it mapped; a not present
    /// entry is refused and left as it was.
    pub fn unmap(&mut self, paddr_width: u8) -> (r: Result<PhysicalAddress, Error>)
        requires
            paddr_width < 64,
        ensures
            pte_present(old(self)@) ==> r == Ok::<PhysicalAddress, Error>(PhysicalAddress { bits: old(self)@ & addr_mask(paddr_width) })
                && final(self)@ == 0,
            !pte_present(old(self)@) ==> r == Err::<PhysicalAddress, Error>(Error::EntryNotPresent) && final(self)@ == old(self)@,
    {
        let paddr = match self.addr(paddr_width) {
            Ok(p) => p,
            Err(e) => return Err(e),
        };
        self.entry = 0;
        Ok(paddr)
    }

    pub fn is_present(&self) -> (r: bool)
        ensures
            r == pte_present(self@),
    {
        self.entry & PteFlags::Present.bits() != 0
    }

    pub fn is_size_bit_set(&self) -> (r: bool)
        ensures
            r == pte_size_bit(self@),
    {
        self.entry & PteFlags::PageSizeOrPat.bits() != 0
    }
}

/// What a mapping reads back as: the entry is present exactly when the flags hold the
/// present bit, its page-size bit is the flags' page-size bit, and, when present, it
/// gives back the mapped address. This needs a page-aligned address below
/// 2^`paddr_width` with `paddr_width` at most 52, and, for 2 MiB and 1 GiB pages, flags
/// without the large-page PAT bit, which shares bit 12 with the address.
pub proof fn lemma_mapped_entry_reads_back(paddr: u64, flags: u64, size: PageSize, paddr_width: u8)
    requires
        12 <= paddr_width <= 52,
        paddr % PAGE_SIZE == 0,
        paddr < (1u64 << paddr_width),
        size != PageSize::Standard ==> flags & 0x1000 == 0,
    ensures
        ({
            let e = mapped_entry(paddr, flags, page_flag_mask(size), paddr_width);
            &&& pte_present(e) == (flags & 1 != 0)
            &&& pte_size_bit(e) == (flags & 0x80 != 0)
            &&& e & addr_mask(paddr_width) == paddr
        }),
{
    let w = paddr_width as u64;
    let fm = page_flag_mask(size);
    let m = addr_mask(paddr_width);
    assert(m == (((1u64 << w) - 1) as u64) & !0xFFFu64);
    assert(paddr & m == paddr) by (bit_vector)
        requires
            12 <= w <= 52,
            paddr % 4096 == 0,
            paddr < (1u64 << w),
            m == (((1u64 << w) - 1) as u64) & !0xFFFu64;
    assert((flags & fm) & m == 0) by (bit_vector)
        requires
            12 <= w <= 52,
            fm == 0x8030_0000_0000_01FFu64 || (fm == 0x8030_0000_0000_11FFu64 && flags & 0x1000 == 0),
            m == (((1u64 << w) - 1) as u64) & !0xFFFu64;
    let e = (paddr & m) | (flags & fm);
    assert(e & m == paddr) by (bit_vector)
        requires
            paddr & m == paddr,
            (flags & fm) & m == 0,
            e == (paddr & m) | (flags & fm);
    assert((e & 1 != 0) == (flags & 1 != 0)) by (bit_vector)
        requires
            12 <= w <= 52,
            paddr % 4096 == 0,
            fm == 0x8030_0000_0000_01FFu64 || fm == 0x8030_0000_0000_11FFu64,
            e == (paddr & m) | (flags & fm);
    assert((e & 0x80 != 0) == (flags & 0x80 != 0)) by (bit_vector)
        requires
            12 <= w <= 52,
            paddr % 4096 == 0,
            fm == 0x8030_0000_0000_01FFu64 || fm == 0x8030_0000_0000_11FFu64,
            e == (paddr & m) | (flags & fm);
}

} // verus!
