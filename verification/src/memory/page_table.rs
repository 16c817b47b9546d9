//! x86_64 page tables: 512 entries, each mapping a page or pointing at the table of
//! the next level.
//!
//! Frames for new tables come from the frame allocator; the caller allocates them and
//! hands them in, and gives back to the allocator the frames an unmapping returns.

use vstd::prelude::*;

use super::address::{table_index, PhysicalAddress, VirtualAddress, PAGE_SIZE};
use super::page_table_entry::{
    addr_mask, mapped_entry, page_flag_mask, pte_present, pte_size_bit, PageTableEntry, FLAG_MASK,
};
use super::Error;

verus! {

/// Sizes of the pages an entry can map: 4 KiB, 2 MiB and 1 GiB.
#[derive(Copy, Clone, Debug, PartialEq, Eq)]
pub enum PageSize {
    Standard,
    Large,
    Huge,
}

/// The four levels of the x86_64 paging hierarchy, from the root down.
#[derive(Copy, Clone, Debug, PartialEq, Eq)]
pub enum PageTableLevel {
    PML4,
    PDPT,
    PD,
    PT,
}

/// The number of entries of a page table.
pub const N_PT_ENTRIES: usize = 512;

/// The number of 4 KiB frames in a 2 MiB page.
pub const LARGE_PAGE_NFRAMES: u64 = 512;

/// The number of 4 KiB frames in a 1 GiB page.
pub const HUGE_PAGE_NFRAMES: u64 = 262144;

/// The number of bytes of a page of the given size.
pub open spec fn page_bytes(size: PageSize) -> u64 {
    match size {
        PageSize::Standard => PAGE_SIZE,
        PageSize::Large => (PAGE_SIZE * LARGE_PAGE_NFRAMES) as u64,
        PageSize::Huge => (PAGE_SIZE * HUGE_PAGE_NFRAMES) as u64,
    }
}

/// The index that `vaddr` selects in a table of the given level.
pub open spec fn level_index(vaddr: VirtualAddress, level: PageTableLevel) -> int {
    match level {
        PageTableLevel::PML4 => table_index(vaddr.bits, 39) as int,
        PageTableLevel::PDPT => table_index(vaddr.bits, 30) as int,
        PageTableLevel::PD => table_index(vaddr.bits, 21) as int,
        PageTableLevel::PT => table_index(vaddr.bits, 12) as int,
    }
}

/// The outcome of pointing entry `index` of `t` at the table at `frame`: refused when
/// the entry is present or the frame is not page aligned, otherwise the entry holds
/// the frame's address and the flags `FLAG_MASK` lets through.
pub open spec fn table_mapping(
    t: Seq<u64>,
    index: int,
    flags: u64,
    frame: PhysicalAddress,
    paddr_width: u8,
) -> (Result<PhysicalAddress, Error>, Seq<u64>) {
    if pte_present(t[index]) {
        (Err(Error::VAddrRangeUnavailable), t)
    } else if frame.bits % PAGE_SIZE != 0 {
        (Err(Error::InvalidPAddrAlignment), t)
    } else {
        (Ok(frame), t.update(index, mapped_entry(frame.bits, flags, FLAG_MASK, paddr_width)))
    }
}

/// The outcome of mapping the page of the given size at `paddr` in entry `index` of
/// `t`: refused when the address is not aligned to the page size or the entry is
/// present, otherwise the entry maps the page with the flags the size allows.
pub open spec fn page_mapping(
    t: Seq<u64>,
    size: PageSize,
    index: int,
    paddr: PhysicalAddress,
    flags: u64,
    paddr_width: u8,
) -> (Result<(), Error>, Seq<u64>) {
    if paddr.bits % page_bytes(size) != 0 {
        (Err(Error::InvalidPAddrAlignment), t)
    } else if pte_present(t[index]) {
        (Err(Error::VAddrRangeUnavailable), t)
    } else {
        (Ok(()), t.update(index, mapped_entry(paddr.bits, flags, page_flag_mask(size), paddr_width)))
    }
}

/// The outcome of clearing entry `index` of `t`: the address it mapped, or
/// `EntryNotPresent` when it is not present.
pub open spec fn page_unmapping(t: Seq<u64>, index: int, paddr_width: u8) -> (Result<PhysicalAddress, Error>, Seq<u64>) {
    if pte_present(t[index]) {
        (Ok(PhysicalAddress { bits: t[index] & addr_mask(paddr_width) }), t.update(index, 0))
    } else {
        (Err(Error::EntryNotPresent), t)
    }
}

/// The outcome of looking up, in `t`, the table of the next level for `vaddr` at
/// `level`: a present entry gives the address it holds (refused for a PDPT or PD
/// entry that maps a huge or large page); an absent one is pointed at `new_table`
/// as `table_mapping` says.
pub open spec fn next_table(
    t: Seq<u64>,
    vaddr: VirtualAddress,
    level: PageTableLevel,
    flags: u64,
    new_table: PhysicalAddress,
    paddr_width: u8,
) -> (Result<PhysicalAddress, Error>, Seq<u64>) {
    let index = level_index(vaddr, level);
    let e = t[index];
    if pte_present(e) {
        if (level == PageTableLevel::PDPT || level == PageTableLevel::PD) && pte_size_bit(e) {
            (Err(Error::VAddrRangeUnavailable), t)
        } else {
            (Ok(PhysicalAddress { bits: e & addr_mask(paddr_width) }), t)
        }
    } else {
        table_mapping(t, index, flags, new_table, paddr_width)
    }
}

/// A page table.
pub struct PageTable {
    table: Vec<PageTableEntry>,
}

impl View for PageTable {
    type V = Seq<u64>;

    closed spec fn view(&self) -> Seq<u64> {
        self.table@.map_values(|e: PageTableEntry| e@)
    }
}

impl PageTable {
    /// A table whose entries are all empty.
    pub fn new() -> (t: Self)
        ensures
            t@ == Seq::new(N_PT_ENTRIES as nat, |i: int| 0u64),
    {
        let mut table: Vec<PageTableEntry> = Vec::new();
        for i in 0..N_PT_ENTRIES
            invariant
                table@.len() == i,
                forall|k: int| 0 <= k < i ==> #[trigger] table@[k]@ == 0,
        {
            table.push(PageTableEntry::new());
        }
        let t = PageTable { table };
        assert(t@ =~= Seq::new(N_PT_ENTRIES as nat, |i: int| 0u64));
        t
    }

    /// A table with the same entries.
    pub fn copy(&self) -> (t: PageTable)
        requires
            self@.len() == N_PT_ENTRIES,
        ensures
            t@ == self@,
    {
        let mut table: Vec<PageTableEntry> = Vec::new();
        for i in 0..N_PT_ENTRIES
            invariant
                self@.len() == N_PT_ENTRIES,
                table@.len() == i,
                forall|k: int| 0 <= k < i ==> #[trigger] table@[k]@ == self@[k],
        {
            table.push(self.entry(i));
        }
        let t = PageTable { table };
        assert(t@ =~= self@);
        t
    }

    /// The entry at `index`.
    pub fn entry(&self, index: usize) -> (e: PageTableEntry)
        requires
            index < N_PT_ENTRIES,
            self@.len() == N_PT_ENTRIES,
        ensures
            e@ == self@[index as int],
    {
        self.table[index]
    }

    /// Replaces the entry at `index`.
    pub fn set_entry(&mut self, index: usize, e: PageTableEntry)
        requires
            index < N_PT_ENTRIES,
            old(self)@.len() == N_PT_ENTRIES,
        ensures
            final(self)@ == old(self)@.update(index as int, e@),
    {
        self.table.set(index, e);
        assert(self@ =~= old(self)@.update(index as int, e@));
    }

    /// Points entry `index` at the page table in `table_frame`, a frame the caller
    /// took from the frame allocator, and gives back its address. A present entry or a
    /// frame that is not page aligned is refused and the table is left as it was.
    pub fn map_table(&mut self, index: usize, flags: u64, table_frame: PhysicalAddress, paddr_width: u8) -> (r: Result<
        PhysicalAddress,
        Error,
    >)
        requires
            index < N_PT_ENTRIES,
            old(self)@.len() == N_PT_ENTRIES,
            paddr_width < 64,
        ensures
            (r, final(self)@) == table_mapping(old(self)@, index as int, flags, table_frame, paddr_width),
            final(self)@.len() == N_PT_ENTRIES,
    {
        let mut e = self.entry(index);
        match e.map_table(table_frame, flags, paddr_width) {
            Ok(()) => {
                self.set_entry(index, e);
                Ok(table_frame)
            },
            Err(err) => Err(err),
        }
    }

    /// Clears entry `index` when it points at a page table and gives back that table's
    /// frame, which the caller returns to the frame allocator. An entry that is not
    /// present, or that maps a large or huge page, is refused.
    pub fn unmap_table(&mut self, index: usize, paddr_width: u8) -> (r: Result<PhysicalAddress, Error>)
        requires
            index < N_PT_ENTRIES,
            old(self)@.len() == N_PT_ENTRIES,
            paddr_width < 64,
        ensures
            final(self)@.len() == N_PT_ENTRIES,
            ({
                let e = old(self)@[index as int];
                if !pte_present(e) {
                    r == Err::<PhysicalAddress, Error>(Error::EntryNotPresent) && final(self)@ == old(self)@
                } else if pte_size_bit(e) {
                    r == Err::<PhysicalAddress, Error>(Error::EntryNotTable) && final(self)@ == old(self)@
                } else {
                    r == Ok::<PhysicalAddress, Error>(PhysicalAddress { bits: e & addr_mask(paddr_width) })
                        && final(self)@ == old(self)@.update(index as int, 0)
                }
            }),
    {
        let mut e = self.entry(index);
        if e.is_present() {
            if !e.is_size_bit_set() {
                let r = e.unmap(paddr_width);
                self.set_entry(index, e);
                r
            } else {
                Err(Error::EntryNotTable)
            }
        } else {
            Err(Error::EntryNotPresent)
        }
    }

    /// Maps the page of the given size at `paddr` in entry `index`. The address must
    /// be aligned to the page size and the entry must not be present; otherwise the
    /// table is left as it was and the error says why.
    pub fn map_page(&mut self, size: PageSize, index: usize, paddr: PhysicalAddress, flags: u64, paddr_width: u8) -> (r:
        Result<(), Error>)
        requires
            index < N_PT_ENTRIES,
            old(self)@.len() == N_PT_ENTRIES,
            paddr_width < 64,
        ensures
            final(self)@.len() == N_PT_ENTRIES,
            (r, final(self)@) == page_mapping(old(self)@, size, index as int, paddr, flags, paddr_width),
    {
        let aligned = match size {
            PageSize::Standard => paddr.is_page_aligned(),
            PageSize::Large => paddr.is_aligned_to(PAGE_SIZE * LARGE_PAGE_NFRAMES),
            PageSize::Huge => paddr.is_aligned_to(PAGE_SIZE * HUGE_PAGE_NFRAMES),
        };
        if !aligned {
            return Err(Error::InvalidPAddrAlignment);
        }
        proof {
            let b = paddr.bits;
            if size == PageSize::Large {
                assert(b % 2097152 == 0 ==> b % 4096 == 0) by (bit_vector);
            }
            if size == PageSize::Huge {
                assert(b % 1073741824 == 0 ==> b % 4096 == 0) by (bit_vector);
            }
        }
        let mut e = self.entry(index);
        match e.map_page(paddr, flags, size, paddr_width) {
            Ok(()) => {
                self.set_entry(index, e);
                Ok(())
            },
            Err(err) => Err(err),
        }
    }

    /// Clears entry `index` and gives back the address of the page it mapped; the
    /// caller returns the page's frames (as many as `size` spans) to the frame
    /// allocator. An entry that is not present is refused.
    pub fn unmap_page(&mut self, size: PageSize, index: usize, paddr_width: u8) -> (r: Result<PhysicalAddress, Error>)
        requires
            index < N_PT_ENTRIES,
            old(self)@.len() == N_PT_ENTRIES,
            paddr_width < 64,
        ensures
            final(self)@.len() == N_PT_ENTRIES,
            (r, final(self)@) == page_unmapping(old(self)@, index as int, paddr_width),
    {
        let mut e = self.entry(index);
        let r = e.unmap(paddr_width);
        if r.is_ok() {
            self.set_entry(index, e);
        }
        r
    }

    /// The address of the table of the next level that the entry `vaddr` selects at
    /// `level` points at. When that entry is not present, the table in `new_table` (a
    /// frame the caller took from the frame allocator) is mapped there first. A PDPT
    /// or PD entry that maps a huge or large page is refused.
    pub fn get_or_map_table(
        &mut self,
        vaddr: VirtualAddress,
        level: PageTableLevel,
        flags: u64,
        new_table: PhysicalAddress,
        paddr_width: u8,
    ) -> (r: Result<PhysicalAddress, Error>)
        requires
            old(self)@.len() == N_PT_ENTRIES,
            paddr_width < 64,
        ensures
            final(self)@.len() == N_PT_ENTRIES,
            (r, final(self)@) == next_table(old(self)@, vaddr, level, flags, new_table, paddr_width),
    {
        let index = match level {
            PageTableLevel::PML4 => vaddr.pml4_index(),
            PageTableLevel::PDPT => vaddr.pdpt_index(),
            PageTableLevel::PD => vaddr.pd_index(),
            PageTableLevel::PT => vaddr.pt_index(),
        };
        let e = self.entry(index);
        if e.is_present() {
            match level {
                PageTableLevel::PDPT | PageTableLevel::PD => {
                    if e.is_size_bit_set() {
                        return Err(Error::VAddrRangeUnavailable);
                    }
                },
                _ => {},
            }
            e.addr(paddr_width)
        } else {
            self.map_table(index, flags, new_table, paddr_width)
        }
    }
}

} // verus!
