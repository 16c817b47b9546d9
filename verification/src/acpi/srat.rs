//! System Resource Affinity Table parsing.

use vstd::prelude::*;
use crate::le_bytes::{read_u8, read_u32, read_array2, read_array3, read_array4, read_array8, u32_at};
use crate::acpi::tables::{SDTHeader, get_table, table_readable};
use crate::acpi::sdt::sdt_found;

verus! {

/// "SRAT"
pub open spec fn srat_signature() -> Seq<u8> {
    seq![0x53u8, 0x52, 0x41, 0x54]
}

/// Memory holds what `Srat::new` reads at `addr`, and a table found there leaves
/// room to add the 32 bytes of the fixed SRAT fields to its length.
pub open spec fn srat_readable(mem: Seq<u8>, addr: int) -> bool {
    &&& table_readable(mem, addr, srat_signature())
    &&& sdt_found(mem, addr, srat_signature()) ==> u32_at(mem, addr + 4) + 32 <= u32::MAX
}

#[derive(Copy, Clone, Debug)]
pub struct Srat {
    header: SDTHeader,
    length: u32,
    addr: usize,
}

impl Srat {
    pub closed spec fn spec_header(&self) -> SDTHeader {
        self.header
    }

    pub closed spec fn spec_length(&self) -> u32 {
        self.length
    }

    pub closed spec fn spec_addr(&self) -> usize {
        self.addr
    }

    /// Reads the SRAT at `addr` when a valid one is there; its recorded length is
    /// the header length plus the 32 bytes of fixed fields.
    pub fn new(mem: &[u8], addr: usize) -> (r: Option<Srat>)
        requires
            srat_readable(mem@, addr as int),
        ensures
            r is Some <==> sdt_found(mem@, addr as int, srat_signature()),
            r matches Some(s) ==> {
                &&& s.spec_header().parsed_from(mem@, addr as int)
                &&& s.spec_length() == u32_at(mem@, addr + 4) + 32
                &&& s.spec_addr() == addr
            },
    {
        let sig: [u8; 4] = [0x53, 0x52, 0x41, 0x54];
        assert(sig@ =~= srat_signature());
        let header = get_table(mem, addr, sig);
        if let Some(header) = header {
            Some(Srat { header, length: header.length() + 32, addr })
        } else {
            None
        }
    }

    pub fn header(&self) -> (h: SDTHeader)
        ensures
            h == self.spec_header(),
    {
        self.header
    }

    /// An iterator over the affinity structures, which start 0x30 bytes into the
    /// table; the recorded length must cover those bytes.
    pub fn iter(&self) -> (it: SratIter)
        requires
            self.spec_length() >= 0x30,
        ensures
            it.spec_addr() == self.spec_addr(),
            it.spec_length() == self.spec_length() - 0x30,
            it.spec_offset() == 0x30,
    {
        SratIter { addr: self.addr, length: self.length - 0x30, offset: 0x30 }
    }
}

/// Number of bytes a structure of type `t` occupies.
pub open spec fn srat_entry_len(t: u8) -> int {
    if t == 0 {
        16
    } else if t == 1 {
        40
    } else if t == 2 {
        24
    } else {
        1
    }
}

/// The structure at `p` was decoded by its type.
pub open spec fn srat_entry_parsed(e: SratEntry, mem: Seq<u8>, p: int) -> bool {
    let t = mem[p];
    if t == 0 {
        e matches SratEntry::ProcessorLocalApic(x) && {
            &&& x.entry_type == mem[p]
            &&& x.length == mem[p + 1]
            &&& x.p_domain == mem[p + 2]
            &&& x.apic_id == mem[p + 3]
            &&& x.flags == u32_at(mem, p + 4)
            &&& x.local_sapic_eid == mem[p + 8]
            &&& x.hi_dm@ == mem.subrange(p + 9, p + 12)
            &&& x.clock_domain == u32_at(mem, p + 12)
        }
    } else if t == 1 {
        e matches SratEntry::MemoryAffinityStructure(x) && {
            &&& x.entry_type == mem[p]
            &&& x.length == mem[p + 1]
            &&& x.p_domain == mem[p + 2]
            &&& x.reserved@ == mem.subrange(p + 3, p + 5)
            &&& x.base_addr_low == u32_at(mem, p + 8)
            &&& x.base_addr_high == u32_at(mem, p + 12)
            &&& x.length_low == u32_at(mem, p + 16)
            &&& x.length_high == u32_at(mem, p + 20)
            &&& x.reserved_2@ == mem.subrange(p + 24, p + 28)
            &&& x.flags == u32_at(mem, p + 28)
            &&& x.reserved_3@ == mem.subrange(p + 32, p + 40)
        }
    } else if t == 2 {
        e matches SratEntry::ProcessorLocalApicX2(x) && {
            &&& x.entry_type == mem[p]
            &&& x.length == mem[p + 1]
            &&& x.reserved@ == mem.subrange(p + 2, p + 4)
            &&& x.p_domain == u32_at(mem, p + 4)
            &&& x.apic_id_x2 == u32_at(mem, p + 8)
            &&& x.flags == u32_at(mem, p + 12)
            &&& x.clock_domain == u32_at(mem, p + 16)
            &&& x.reserved_2@ == mem.subrange(p + 20, p + 24)
        }
    } else {
        e == SratEntry::Unknown(t)
    }
}

pub struct SratIter {
    addr: usize,
    length: u32,
    offset: u64,
}

impl SratIter {
    #[verifier::type_invariant]
    spec fn inv(self) -> bool {
        self.offset <= u32::MAX + 40
    }

    pub closed spec fn spec_addr(&self) -> usize {
        self.addr
    }

    pub closed spec fn spec_length(&self) -> u32 {
        self.length
    }

    pub closed spec fn spec_offset(&self) -> u64 {
        self.offset
    }

    /// The next affinity structure, while the offset is below the recorded length
    /// less one; the iterator moves past it by the size of its type.
    pub fn next(&mut self, mem: &[u8]) -> (r: Option<SratEntry>)
        requires
            old(self).spec_length() >= 1,
            old(self).spec_offset() < old(self).spec_length() - 1 ==> {
                let p = old(self).spec_addr() + old(self).spec_offset();
                &&& p < mem@.len()
                &&& p + srat_entry_len(mem@[p]) <= mem@.len()
            },
        ensures
            final(self).spec_addr() == old(self).spec_addr(),
            final(self).spec_length() == old(self).spec_length(),
            if old(self).spec_offset() < old(self).spec_length() - 1 {
                let p = old(self).spec_addr() + old(self).spec_offset();
                &&& r matches Some(e) && srat_entry_parsed(e, mem@, p)
                &&& final(self).spec_offset() == old(self).spec_offset() + srat_entry_len(mem@[p])
            } else {
                &&& r is None
                &&& final(self).spec_offset() == old(self).spec_offset()
            },
    {
        proof {
            use_type_invariant(&*self);
        }
        if self.offset < (self.length - 1) as u64 {
            let _mlen = mem.len();
            let p = self.addr + self.offset as usize;
            let next_type = read_u8(mem, p);
            let mut next_len: u64 = 1;
            let entry = if next_type == 0 {
                next_len = 16;
                SratEntry::ProcessorLocalApic(
                    ProcessorLocalApic {
                        entry_type: read_u8(mem, p),
                        length: read_u8(mem, p + 1),
                        p_domain: read_u8(mem, p + 2),
                        apic_id: read_u8(mem, p + 3),
                        flags: read_u32(mem, p + 4),
                        local_sapic_eid: read_u8(mem, p + 8),
                        hi_dm: read_array3(mem, p + 9),
                        clock_domain: read_u32(mem, p + 12),
                    },
                )
            } else if next_type == 1 {
                next_len = 40;
                SratEntry::MemoryAffinityStructure(
                    MemoryAffinityStructure {
                        entry_type: read_u8(mem, p),
                        length: read_u8(mem, p + 1),
                        p_domain: read_u8(mem, p + 2),
                        reserved: read_array2(mem, p + 3),
                        base_addr_low: read_u32(mem, p + 8),
                        base_addr_high: read_u32(mem, p + 12),
                        length_low: read_u32(mem, p + 16),
                        length_high: read_u32(mem, p + 20),
                        reserved_2: read_array4(mem, p + 24),
                        flags: read_u32(mem, p + 28),
                        reserved_3: read_array8(mem, p + 32),
                    },
                )
            } else if next_type == 2 {
                next_len = 24;
                SratEntry::ProcessorLocalApicX2(
                    ProcessorLocalApicX2 {
                        entry_type: read_u8(mem, p),
                        length: read_u8(mem, p + 1),
                        reserved: read_array2(mem, p + 2),
                        p_domain: read_u32(mem, p + 4),
                        apic_id_x2: read_u32(mem, p + 8),
                        flags: read_u32(mem, p + 12),
                        clock_domain: read_u32(mem, p + 16),
                        reserved_2: read_array4(mem, p + 20),
                    },
                )
            } else {
                SratEntry::Unknown(next_type)
            };
            self.offset = self.offset + next_len;
            Some(entry)
        } else {
            None
        }
    }
}

#[derive(Debug)]
pub enum SratEntry {
    ProcessorLocalApic(ProcessorLocalApic),
    MemoryAffinityStructure(MemoryAffinityStructure),
    ProcessorLocalApicX2(ProcessorLocalApicX2),
    Unknown(u8),
}

#[derive(Copy, Clone, Debug)]
pub struct ProcessorLocalApic {
    pub entry_type: u8,
    pub length: u8,
    pub p_domain: u8,
    pub apic_id: u8,
    pub flags: u32,
    pub local_sapic_eid: u8,
    pub hi_dm: [u8; 3],
    pub clock_domain: u32,
}

#[derive(Copy, Clone, Debug)]
pub struct MemoryAffinityStructure {
    pub entry_type: u8,
    pub length: u8,
    pub p_domain: u8,
    pub reserved: [u8; 2],
    pub base_addr_low: u32,
    pub base_addr_high: u32,
    pub length_low: u32,
    pub length_high: u32,
    pub reserved_2: [u8; 4],
    pub flags: u32,
    pub reserved_3: [u8; 8],
}

#[derive(Copy, Clone, Debug)]
pub struct ProcessorLocalApicX2 {
    pub entry_type: u8,
    pub length: u8,
    pub reserved: [u8; 2],
    pub p_domain: u32,
    pub apic_id_x2: u32,
    pub flags: u32,
    pub clock_domain: u32,
    pub reserved_2: [u8; 4],
}

} // verus!
