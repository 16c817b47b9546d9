//! Physical and virtual addresses.

use vstd::prelude::*;

verus! {

/// The size of a page frame.
pub const PAGE_SIZE: u64 = 4096;

/// A physical address.
#[derive(Copy, Clone, Debug, PartialEq, Eq)]
pub struct PhysicalAddress {
    pub bits: u64,
}

impl PhysicalAddress {
    pub fn new(bits: u64) -> (p: PhysicalAddress)
        ensures
            p.bits == bits,
    {
        PhysicalAddress { bits }
    }

    pub fn bits(&self) -> (b: u64)
        ensures
            b == self.bits,
    {
        self.bits
    }

    /// Whether the address is a multiple of `align`.
    pub fn is_aligned_to(&self, align: u64) -> (r: bool)
        requires
            align > 0,
        ensures
            r == (self.bits % align == 0),
    {
        self.bits % align == 0
    }

    /// Whether the address is the base of a page frame.
    pub fn is_page_aligned(&self) -> (r: bool)
        ensures
            r == (self.bits % PAGE_SIZE == 0),
    {
        self.bits % PAGE_SIZE == 0
    }
}

/// A virtual address.
#[derive(Copy, Clone, Debug, PartialEq, Eq)]
pub struct VirtualAddress {
    pub bits: u64,
}

/// The 9-bit table index that starts at bit `shift` of a virtual address.
pub open spec fn table_index(v: u64, shift: u64) -> usize {
    ((v >> shift) & 0x1FF) as usize
}

impl VirtualAddress {
    pub fn new(bits: u64) -> (v: VirtualAddress)
        ensures
            v.bits == bits,
    {
        VirtualAddress { bits }
    }

    pub fn bits(&self) -> (b: u64)
        ensures
            b == self.bits,
    {
        self.bits
    }

    pub fn is_null(&self) -> (r: bool)
        ensures
            r == (self.bits == 0),
    {
        self.bits == 0
    }

    /// Whether the address is a multiple of `align`.
    pub fn is_aligned_to(&self, align: u64) -> (r: bool)
        requires
            align > 0,
        ensures
            r == (self.bits % align == 0),
    {
        self.bits % align == 0
    }

    /// Index into the PML4 (bits 39..48).
    pub fn pml4_index(&self) -> (i: usize)
        ensures
            i == table_index(self.bits, 39),
            i < 512,
    {
        let v = self.bits;
        assert((v >> 39u64) & 0x1FF < 512) by (bit_vector);
        ((v >> 39) & 0x1FF) as usize
    }

    /// Index into the PDPT (bits 30..39).
    pub fn pdpt_index(&self) -> (i: usize)
        ensures
            i == table_index(self.bits, 30),
            i < 512,
    {
        let v = self.bits;
        assert((v >> 30u64) & 0x1FF < 512) by (bit_vector);
        ((v >> 30) & 0x1FF) as usize
    }

    /// Index into the page directory (bits 21..30).
    pub fn pd_index(&self) -> (i: usize)
        ensures
            i == table_index(self.bits, 21),
            i < 512,
    {
        let v = self.bits;
        assert((v >> 21u64) & 0x1FF < 512) by (bit_vector);
        ((v >> 21) & 0x1FF) as usize
    }

    /// Index into the page table (bits 12..21).
    pub fn pt_index(&self) -> (i: usize)
        ensures
            i == table_index(self.bits, 12),
            i < 512,
    {
        let v = self.bits;
        assert((v >> 12u64) & 0x1FF < 512) by (bit_vector);
        ((v >> 12) & 0x1FF) as usize
    }
}

} // verus!
