//! MADT parsing facilities.

use vstd::prelude::*;
use crate::le_bytes::{read_u8, read_u16, read_u32, read_u64, u16_at, u32_at, u64_at};
use crate::acpi::tables::{SDTHeader, SDT_HEADER_LEN, get_table, table_readable};
use crate::acpi::sdt::sdt_found;

verus! {

/// "APIC", the MADT signature.
pub open spec fn madt_signature() -> Seq<u8> {
    seq![0x41u8, 0x50, 0x49, 0x43]
}

/// Memory holds a valid MADT at `addr`, with its local APIC address and flags.
pub open spec fn madt_valid(mem: Seq<u8>, addr: int) -> bool {
    &&& table_readable(mem, addr, madt_signature())
    &&& sdt_found(mem, addr, madt_signature())
    &&& addr + SDT_HEADER_LEN + 8 <= mem.len()
}

/// The MADT
#[derive(Debug, Clone, Copy)]
pub struct Madt {
    header: SDTHeader,
    local_apic_addr: u32,
    flags: u32,
    addr: usize,
}

impl Madt {
    #[verifier::type_invariant]
    spec fn inv(self) -> bool {
        self.addr + SDT_HEADER_LEN + 8 <= usize::MAX
    }

    pub closed spec fn spec_header(&self) -> SDTHeader {
        self.header
    }

    pub closed spec fn spec_local_apic_addr(&self) -> u32 {
        self.local_apic_addr
    }

    pub closed spec fn spec_flags(&self) -> u32 {
        self.flags
    }

    pub closed spec fn spec_addr(&self) -> usize {
        self.addr
    }

    /// The MADT was read from the table at `addr`.
    pub open spec fn parsed_from(&self, mem: Seq<u8>, addr: int) -> bool {
        &&& self.spec_header().parsed_from(mem, addr)
        &&& self.spec_local_apic_addr() == u32_at(mem, addr + SDT_HEADER_LEN)
        &&& self.spec_flags() == u32_at(mem, addr + SDT_HEADER_LEN + 4)
        &&& self.spec_addr() == addr
    }

    /// First byte of the interrupt controller structures.
    pub open spec fn entries_base(&self) -> int {
        self.spec_addr() + SDT_HEADER_LEN + 8
    }

    /// Number of bytes of interrupt controller structures.
    pub open spec fn entries_len(&self) -> int {
        self.spec_header().spec_length() - SDT_HEADER_LEN - 8
    }

    /// Reads the MADT at `addr`; the table there must be a valid MADT.
    pub fn new(mem: &[u8], addr: usize) -> (m: Madt)
        requires
            madt_valid(mem@, addr as int),
        ensures
            m.parsed_from(mem@, addr as int),
    {
        let _len = mem.len();
        let sig: [u8; 4] = [0x41, 0x50, 0x49, 0x43];
        assert(sig@ =~= madt_signature());
        let header = get_table(mem, addr, sig);
        let header = header.unwrap();
        let local_apic_addr = read_u32(mem, addr + SDT_HEADER_LEN);
        let flags = read_u32(mem, addr + SDT_HEADER_LEN + 4);
        Madt { header, local_apic_addr, flags, addr }
    }

    /// Whether the table is long enough for its fixed fields and its interrupt
    /// controller structures can all be walked: each one is in memory and records a
    /// nonzero length.
    pub fn entries_walkable(&self, mem: &[u8]) -> (ok: bool)
        ensures
            ok == (self.spec_header().spec_length() >= SDT_HEADER_LEN + 8 && madt_walk_ok(
                mem@,
                self.entries_base(),
                0,
                self.entries_len(),
            )),
    {
        proof {
            use_type_invariant(self);
        }
        let length = self.header.length();
        if (length as u64) < (SDT_HEADER_LEN + 8) as u64 {
            return false;
        }
        let len: u64 = length as u64 - (SDT_HEADER_LEN + 8) as u64;
        let base: usize = self.addr + SDT_HEADER_LEN + 8;
        let ghost b = self.entries_base();
        let mut off: u64 = 0;
        while off < len
            invariant
                base == b,
                b == self.entries_base(),
                self.spec_header().spec_length() >= SDT_HEADER_LEN + 8,
                len == self.entries_len(),
                len <= u32::MAX,
                off <= len + 255,
                madt_walk_ok(mem@, b, 0, len as int) == madt_walk_ok(mem@, b, off as int, len as int),
            decreases len + 255 - off,
        {
            if base > mem.len() || ((mem.len() - base) as u64) < off + 2 {
                assert(!madt_walk_ok(mem@, b, off as int, len as int));
                return false;
            }
            let p = base + off as usize;
            let entry_type = mem[p];
            let entry_len = mem[p + 1];
            let needed = read_len_of(entry_type);
            if mem.len() - p < needed || entry_len == 0 {
                assert(!madt_walk_ok(mem@, b, off as int, len as int));
                return false;
            }
            off = off + entry_len as u64;
        }
        true
    }

    pub fn local_apic_addr(&self) -> (r: u32)
        ensures
            r == self.spec_local_apic_addr(),
    {
        self.local_apic_addr
    }

    pub fn flags(&self) -> (r: u32)
        ensures
            r == self.spec_flags(),
    {
        self.flags
    }

    /// An iterator over the interrupt controller structures that follow the header,
    /// the local APIC address and the flags. The table must be long enough to hold them.
    pub fn iter(&self) -> (it: MadtIter)
        requires
            self.spec_header().spec_length() >= SDT_HEADER_LEN + 8,
        ensures
            it.spec_addr() == self.entries_base(),
            it.spec_offset() == 0,
            it.spec_len() == self.entries_len(),
    {
        proof {
            use_type_invariant(self);
        }
        MadtIter {
            addr: self.addr + SDT_HEADER_LEN + 8,
            offset: 0,
            len: self.header.length() as u64 - SDT_HEADER_LEN as u64 - 8,
        }
    }
}

/// MADT Entry Iterator
pub struct MadtIter {
    addr: usize,
    offset: u64,
    len: u64,
}

/// Number of bytes read for an interrupt controller structure of type `t`.
pub open spec fn entry_read_len(t: u8) -> int {
    if t == 0 {
        8
    } else if t == 1 {
        12
    } else if t == 2 {
        10
    } else if t == 3 {
        8
    } else if t == 4 {
        6
    } else if t == 5 {
        12
    } else {
        2
    }
}

/// Number of bytes read for an interrupt controller structure of type `t`.
fn read_len_of(t: u8) -> (n: usize)
    ensures
        n == entry_read_len(t),
{
    if t == 0 {
        8
    } else if t == 1 {
        12
    } else if t == 2 {
        10
    } else if t == 3 {
        8
    } else if t == 4 {
        6
    } else if t == 5 {
        12
    } else {
        2
    }
}

/// Memory holds the structure at `p`.
pub open spec fn entry_readable(mem: Seq<u8>, p: int) -> bool {
    &&& p + 2 <= mem.len()
    &&& p + entry_read_len(mem[p]) <= mem.len()
}

/// The entry header at `p`.
pub open spec fn entry_header_at(mem: Seq<u8>, p: int) -> MadtEntryHeader {
    MadtEntryHeader { entry_type: mem[p], length: mem[p + 1] }
}

/// The interrupt controller structure at `p`, decoded by its type.
pub open spec fn madt_entry_at(mem: Seq<u8>, p: int) -> MadtEntry {
    let header = entry_header_at(mem, p);
    let t = mem[p];
    if t == 0 {
        MadtEntry::ProcessorLocalApic(
            ProcessorLocalApic {
                header,
                processor_id: mem[p + 2],
                apic_id: mem[p + 3],
                flags: u32_at(mem, p + 4),
            },
        )
    } else if t == 1 {
        MadtEntry::IOApic(
            IoApic {
                header,
                io_apic_id: mem[p + 2],
                reserved: mem[p + 3],
                io_apic_addr: u32_at(mem, p + 4),
                global_system_interrupt_base: u32_at(mem, p + 8),
            },
        )
    } else if t == 2 {
        MadtEntry::InterruptSourceOverride(
            InterruptSourceOverride {
                header,
                bus: mem[p + 2],
                source: mem[p + 3],
                global_system_interrupt: u32_at(mem, p + 4),
                flags: u16_at(mem, p + 8),
            },
        )
    } else if t == 3 {
        MadtEntry::NonMaskableInterruptSource(
            NonMaskableInterruptSource {
                header,
                flags: u16_at(mem, p + 2),
                global_system_interrupt: u32_at(mem, p + 4),
            },
        )
    } else if t == 4 {
        MadtEntry::LocalApicNmi(
            LocalApicNmi {
                header,
                processor_id: mem[p + 2],
                flags: u16_at(mem, p + 3),
                local_apic_lint: mem[p + 5],
            },
        )
    } else if t == 5 {
        MadtEntry::LocalApicAddressOverride(
            LocalApicAddressOverride { header, reserved: u16_at(mem, p + 2), local_apic_address: u64_at(mem, p + 4) },
        )
    } else {
        MadtEntry::Unknown(t)
    }
}

/// The ACPI layout of the interrupt controller structures, byte by byte: the
/// structure at `p` is decoded by its type byte `mem[p]` (its length at `p + 1`), with
/// multi-byte fields little-endian at their offsets:
/// - type 0, processor local APIC: processor id at 2, APIC id at 3, flags at 4..8;
/// - type 1, I/O APIC: id at 2, reserved at 3, I/O APIC address at 4..8, global system
///   interrupt base at 8..12;
/// - type 2, interrupt source override: bus at 2, source at 3, global system interrupt
///   at 4..8, flags at 8..10;
/// - type 3, NMI source: flags at 2..4, global system interrupt at 4..8;
/// - type 4, local APIC NMI: processor id at 2, flags at 3..5, LINT number at 5;
/// - type 5, local APIC address override: reserved at 2..4, address at 4..12;
/// - any other type is reported as unknown, with its type byte.
/// `MadtIter::next` yields `madt_entry_at` of the structure it reaches.
pub proof fn lemma_madt_structure_layout(mem: Seq<u8>, p: int)
    ensures
        ({
            let b = |i: int| mem[p + i] as int;
            let le16 = |i: int| b(i) + 256 * b(i + 1);
            let le32 = |i: int| b(i) + 256 * b(i + 1) + 65536 * b(i + 2) + 16777216 * b(i + 3);
            let e = madt_entry_at(mem, p);
            &&& mem[p] == 0 ==> (e matches MadtEntry::ProcessorLocalApic(a) && {
                &&& a.header.entry_type == mem[p] && a.header.length == mem[p + 1]
                &&& a.processor_id == mem[p + 2] && a.apic_id == mem[p + 3]
                &&& a.flags as int == le32(4)
            })
            &&& mem[p] == 1 ==> (e matches MadtEntry::IOApic(a) && {
                &&& a.header.entry_type == mem[p] && a.header.length == mem[p + 1]
                &&& a.io_apic_id == mem[p + 2] && a.reserved == mem[p + 3]
                &&& a.io_apic_addr as int == le32(4)
                &&& a.global_system_interrupt_base as int == le32(8)
            })
            &&& mem[p] == 2 ==> (e matches MadtEntry::InterruptSourceOverride(a) && {
                &&& a.header.entry_type == mem[p] && a.header.length == mem[p + 1]
                &&& a.bus == mem[p + 2] && a.source == mem[p + 3]
                &&& a.global_system_interrupt as int == le32(4)
                &&& a.flags as int == le16(8)
            })
            &&& mem[p] == 3 ==> (e matches MadtEntry::NonMaskableInterruptSource(a) && {
                &&& a.header.entry_type == mem[p] && a.header.length == mem[p + 1]
                &&& a.flags as int == le16(2)
                &&& a.global_system_interrupt as int == le32(4)
            })
            &&& mem[p] == 4 ==> (e matches MadtEntry::LocalApicNmi(a) && {
                &&& a.header.entry_type == mem[p] && a.header.length == mem[p + 1]
                &&& a.processor_id == mem[p + 2]
                &&& a.flags as int == le16(3)
                &&& a.local_apic_lint == mem[p + 5]
            })
            &&& mem[p] == 5 ==> (e matches MadtEntry::LocalApicAddressOverride(a) && {
                &&& a.header.entry_type == mem[p] && a.header.length == mem[p + 1]
                &&& a.reserved as int == le16(2)
                &&& a.local_apic_address as int == le32(4) + 4294967296 * le32(8)
            })
            &&& mem[p] > 5 ==> e == MadtEntry::Unknown(mem[p])
        }),
{
}

/// The structures from `off` to `len`, all readable and of nonzero length, so that
/// iterating over them ends.
pub open spec fn madt_walk_ok(mem: Seq<u8>, base: int, off: int, len: int) -> bool
    decreases if off >= len { 0 } else { len - off },
{
    if off >= len {
        true
    } else {
        &&& entry_readable(mem, base + off)
        &&& mem[base + off + 1] > 0
        &&& madt_walk_ok(mem, base, off + mem[base + off + 1], len)
    }
}

/// The structures an iterator yields from `off` until it passes `len`.
pub open spec fn madt_entries(mem: Seq<u8>, base: int, off: int, len: int) -> Seq<MadtEntry>
    decreases if off >= len { 0 } else { len - off },
{
    if off >= len || mem[base + off + 1] == 0 {
        Seq::empty()
    } else {
        seq![madt_entry_at(mem, base + off)] + madt_entries(mem, base, off + mem[base + off + 1], len)
    }
}

impl MadtIter {
    #[verifier::type_invariant]
    spec fn inv(self) -> bool {
        &&& self.len <= u32::MAX
        &&& self.offset <= self.len + 255
    }

    pub closed spec fn spec_addr(&self) -> usize {
        self.addr
    }

    pub closed spec fn spec_offset(&self) -> u64 {
        self.offset
    }

    pub closed spec fn spec_len(&self) -> u64 {
        self.len
    }

    /// The next interrupt controller structure; the iterator moves past it by the
    /// length its header records.
    pub fn next(&mut self, mem: &[u8]) -> (r: Option<MadtEntry>)
        requires
            old(self).spec_offset() < old(self).spec_len() ==> entry_readable(
                mem@,
                old(self).spec_addr() + old(self).spec_offset(),
            ),
        ensures
            final(self).spec_addr() == old(self).spec_addr(),
            final(self).spec_len() == old(self).spec_len(),
            if old(self).spec_offset() < old(self).spec_len() {
                let p = old(self).spec_addr() + old(self).spec_offset();
                &&& r == Some(madt_entry_at(mem@, p))
                &&& final(self).spec_offset() == old(self).spec_offset() + mem@[p + 1]
            } else {
                &&& r is None
                &&& final(self).spec_offset() == old(self).spec_offset()
            },
    {
        proof {
            use_type_invariant(&*self);
        }
        if self.offset < self.len {
            let _mlen = mem.len();
            let p = self.addr + self.offset as usize;
            let entry_type = read_u8(mem, p);
            let length = read_u8(mem, p + 1);
            let header = MadtEntryHeader { entry_type, length };
            let entry = if entry_type == 0 {
                MadtEntry::ProcessorLocalApic(
                    ProcessorLocalApic {
                        header,
                        processor_id: read_u8(mem, p + 2),
                        apic_id: read_u8(mem, p + 3),
                        flags: read_u32(mem, p + 4),
                    },
                )
            } else if entry_type == 1 {
                MadtEntry::IOApic(
                    IoApic {
                        header,
                        io_apic_id: read_u8(mem, p + 2),
                        reserved: read_u8(mem, p + 3),
                        io_apic_addr: read_u32(mem, p + 4),
                        global_system_interrupt_base: read_u32(mem, p + 8),
                    },
                )
            } else if entry_type == 2 {
                MadtEntry::InterruptSourceOverride(
                    InterruptSourceOverride {
                        header,
                        bus: read_u8(mem, p + 2),
                        source: read_u8(mem, p + 3),
                        global_system_interrupt: read_u32(mem, p + 4),
                        flags: read_u16(mem, p + 8),
                    },
                )
            } else if entry_type == 3 {
                MadtEntry::NonMaskableInterruptSource(
                    NonMaskableInterruptSource {
                        header,
                        flags: read_u16(mem, p + 2),
                        global_system_interrupt: read_u32(mem, p + 4),
                    },
                )
            } else if entry_type == 4 {
                MadtEntry::LocalApicNmi(
                    LocalApicNmi {
                        header,
                        processor_id: read_u8(mem, p + 2),
                        flags: read_u16(mem, p + 3),
                        local_apic_lint: read_u8(mem, p + 5),
                    },
                )
            } else if entry_type == 5 {
                MadtEntry::LocalApicAddressOverride(
                    LocalApicAddressOverride {
                        header,
                        reserved: read_u16(mem, p + 2),
                        local_apic_address: read_u64(mem, p + 4),
                    },
                )
            } else {
                MadtEntry::Unknown(entry_type)
            };
            self.offset = self.offset + length as u64;
            Some(entry)
        } else {
            None
        }
    }
}

/// MADT Entries
#[derive(Debug, Clone, Copy)]
pub enum MadtEntry {
    ProcessorLocalApic(ProcessorLocalApic),
    IOApic(IoApic),
    InterruptSourceOverride(InterruptSourceOverride),
    NonMaskableInterruptSource(NonMaskableInterruptSource),
    LocalApicNmi(LocalApicNmi),
    LocalApicAddressOverride(LocalApicAddressOverride),
    Unknown(u8),
}

/// MADT Entry Header
#[derive(Copy, Clone, Debug)]
pub struct MadtEntryHeader {
    pub entry_type: u8,
    pub length: u8,
}

/// Processor Local APIC Structure
#[derive(Debug, Copy, Clone)]
pub struct ProcessorLocalApic {
    pub header: MadtEntryHeader,
    pub processor_id: u8,
    pub apic_id: u8,
    pub flags: u32,
}

/// IO APIC Structure
#[derive(Debug, Copy, Clone)]
pub struct IoApic {
    pub header: MadtEntryHeader,
    pub io_apic_id: u8,
    pub reserved: u8,
    pub io_apic_addr: u32,
    pub global_system_interrupt_base: u32,
}

/// Interrupt Source Override Structure
#[derive(Debug, Copy, Clone)]
pub struct InterruptSourceOverride {
    pub header: MadtEntryHeader,
    pub bus: u8,
    pub source: u8,
    pub global_system_interrupt: u32,
    pub flags: u16,
}

/// Non-maskable Interrupt Source Structure
#[derive(Debug, Copy, Clone)]
pub struct NonMaskableInterruptSource {
    pub header: MadtEntryHeader,
    pub flags: u16,
    pub global_system_interrupt: u32,
}

/// Local APIC NMI Structure
#[derive(Debug, Copy, Clone)]
pub struct LocalApicNmi {
    pub header: MadtEntryHeader,
    pub processor_id: u8,
    pub flags: u16,
    pub local_apic_lint: u8,
}

/// Local APIC Address Override Structure
#[derive(Debug, Copy, Clone)]
pub struct LocalApicAddressOverride {
    pub header: MadtEntryHeader,
    pub reserved: u16,
    pub local_apic_address: u64,
}

} // verus!
