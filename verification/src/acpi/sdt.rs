//! The Extended / Root System Description Table, the directory of all other tables.

use vstd::prelude::*;
use crate::le_bytes::{read_u32, u32_at};
use crate::acpi::rsdp::Rsdp;
use crate::acpi::tables::{
    SDTHeader, SDT_HEADER_LEN, get_table, get_table_any_sig, table_valid_at, table_readable,
    table_readable_any, table_readable_check, table_readable_any_check,
};

verus! {

/// Number of sub-table slots an SDT keeps.
pub const SDT_MAX_ENTRIES: usize = 32;

/// "XSDT"
pub open spec fn xsdt_signature() -> Seq<u8> {
    seq![0x58u8, 0x53, 0x44, 0x54]
}

/// "RSDT"
pub open spec fn rsdt_signature() -> Seq<u8> {
    seq![0x52u8, 0x53, 0x44, 0x54]
}

/// An entry in the XSDT or RSDT
#[derive(Copy, Clone)]
struct SdtEntry {
    signature: [u8; 4],
    addr: usize,
}

/// What an entry slot records: the sub-table's signature bytes and its address.
pub open spec fn entry_view(signature: Seq<u8>, addr: usize) -> Option<(Seq<u8>, usize)> {
    Some((signature, addr))
}

/// The physical address of the SDT the RSDP points to: the XSDT when the RSDP
/// records one, the RSDT otherwise.
pub open spec fn sdt_address_of(rsdp: Rsdp) -> u64 {
    if rsdp.spec_revision() == 0 || rsdp.spec_xsdt_address() == 0 {
        rsdp.spec_rsdt_address() as u64
    } else {
        rsdp.spec_xsdt_address()
    }
}

/// The `i`th sub-table pointer of an SDT whose pointer array starts at `base`;
/// pointers are `width` bits wide and stored as 32-bit little-endian halves.
pub open spec fn entry_pointer(mem: Seq<u8>, base: int, i: int, width: int) -> usize {
    if width == 64 {
        (u32_at(mem, base + i * 8) + 4294967296 * u32_at(mem, base + i * 8 + 4)) as usize
    } else {
        u32_at(mem, base + i * 4) as usize
    }
}

/// The slot recorded for a sub-table pointer: its signature and address when the
/// table there checksums, nothing otherwise.
pub open spec fn sub_table_slot(mem: Seq<u8>, ptr: usize) -> Option<(Seq<u8>, usize)> {
    if table_valid_at(mem, ptr as int) {
        Some((mem.subrange(ptr as int, ptr + 4), ptr))
    } else {
        None
    }
}

/// Memory holds the pointer array and every table it points to.
pub open spec fn sub_tables_readable(mem: Seq<u8>, base: int, n: int, width: int) -> bool {
    &&& base + n * (width / 8) <= mem.len()
    &&& forall|i: int| 0 <= i < n ==> table_readable_any(mem, #[trigger] entry_pointer(mem, base, i, width) as int)
}

/// The slots filled from the `n` pointers at `base`; slots past `n` stay empty.
pub open spec fn sub_table_slots(mem: Seq<u8>, base: int, n: int, width: int) -> Seq<Option<(Seq<u8>, usize)>> {
    Seq::new(
        SDT_MAX_ENTRIES as nat,
        |i: int|
            if i < n {
                sub_table_slot(mem, entry_pointer(mem, base, i, width))
            } else {
                None
            },
    )
}

/// The table at `a` has signature `sig` and checksums.
pub open spec fn sdt_found(mem: Seq<u8>, a: int, sig: Seq<u8>) -> bool {
    mem.subrange(a, a + 4) == sig && table_valid_at(mem, a)
}

/// Number of pointers in an SDT of `length` bytes with `width`-bit pointers.
pub open spec fn sdt_entry_count(length: u32, width: int) -> int {
    (length - SDT_HEADER_LEN) / (width / 8)
}

/// An SDT found at `a` can be read in full: its length covers the header and its
/// pointers fit the slots, and memory holds every table it points to.
pub open spec fn sdt_contents_readable(mem: Seq<u8>, a: int, width: int) -> bool {
    &&& u32_at(mem, a + 4) >= SDT_HEADER_LEN
    &&& sdt_entry_count(u32_at(mem, a + 4), width) <= SDT_MAX_ENTRIES
    &&& sub_tables_readable(mem, a + SDT_HEADER_LEN, sdt_entry_count(u32_at(mem, a + 4), width), width)
}

/// Memory holds what `Sdt::new` reads for this RSDP, and the SDT it finds is complete.
pub open spec fn sdt_readable(mem: Seq<u8>, rsdp: Rsdp) -> bool {
    sdt_readable_at(mem, sdt_address_of(rsdp) as usize as int)
}

/// Memory holds what `Sdt::new` reads for an SDT at `a`, and the SDT it finds is complete.
pub open spec fn sdt_readable_at(mem: Seq<u8>, a: int) -> bool {
    &&& table_readable(mem, a, xsdt_signature())
    &&& sdt_found(mem, a, xsdt_signature()) ==> sdt_contents_readable(mem, a, 64)
    &&& !sdt_found(mem, a, xsdt_signature()) ==> {
        &&& table_readable(mem, a, rsdt_signature())
        &&& sdt_found(mem, a, rsdt_signature()) ==> sdt_contents_readable(mem, a, 32)
    }
}

/// The XSDT or RSDT
#[derive(Copy, Clone)]
pub struct Sdt {
    header: SDTHeader,
    n_entries: usize,
    sub_tables: [Option<SdtEntry>; 32],
    addr_width: usize,
}

spec fn slot_view(e: Option<SdtEntry>) -> Option<(Seq<u8>, usize)> {
    match e {
        Some(entry) => Some((entry.signature@, entry.addr)),
        None => None,
    }
}

/// The signature recorded in a filled slot.
pub open spec fn slot_signature(slot: Option<(Seq<u8>, usize)>) -> Seq<u8> {
    match slot {
        Some((sig, _)) => sig,
        None => Seq::empty(),
    }
}

/// The address recorded in a filled slot.
pub open spec fn slot_address(slot: Option<(Seq<u8>, usize)>) -> usize {
    match slot {
        Some((_, addr)) => addr,
        None => 0,
    }
}

/// Pointer width of the SDT at `a`: 64 bits for an XSDT, 32 for an RSDT.
pub open spec fn sdt_width_at(mem: Seq<u8>, a: int) -> int {
    if sdt_found(mem, a, xsdt_signature()) {
        64
    } else {
        32
    }
}

/// The sub-table slots of the SDT at `a`.
pub open spec fn sdt_slots_at(mem: Seq<u8>, a: int) -> Seq<Option<(Seq<u8>, usize)>> {
    let w = sdt_width_at(mem, a);
    sub_table_slots(mem, a + SDT_HEADER_LEN, sdt_entry_count(u32_at(mem, a + 4), w), w)
}

/// The address the SDT at `a` records for the first table with signature `sig`.
pub open spec fn sdt_lookup_at(mem: Seq<u8>, a: int, sig: Seq<u8>) -> Option<usize> {
    let w = sdt_width_at(mem, a);
    match first_slot_with(sdt_slots_at(mem, a), sig, 0, sdt_entry_count(u32_at(mem, a + 4), w)) {
        Some(i) => Some(slot_address(sdt_slots_at(mem, a)[i])),
        None => None,
    }
}

/// Index of the first of the slots `i..n` that records signature `sig`.
pub open spec fn first_slot_with(slots: Seq<Option<(Seq<u8>, usize)>>, sig: Seq<u8>, i: int, n: int) -> Option<int>
    decreases n - i,
{
    if i >= n {
        None
    } else if slots[i] is Some && slot_signature(slots[i]) == sig {
        Some(i)
    } else {
        first_slot_with(slots, sig, i + 1, n)
    }
}

/// The slot `first_slot_with` finds lies in range and records `sig`.
pub proof fn lemma_first_slot_with(slots: Seq<Option<(Seq<u8>, usize)>>, sig: Seq<u8>, i: int, n: int)
    ensures
        first_slot_with(slots, sig, i, n) matches Some(j) ==> {
            &&& i <= j < n
            &&& slots[j] is Some
            &&& slot_signature(slots[j]) == sig
        },
    decreases n - i,
{
    if i < n && !(slots[i] is Some && slot_signature(slots[i]) == sig) {
        lemma_first_slot_with(slots, sig, i + 1, n);
    }
}

/// A table the SDT at `a` lists under `sig` is a valid table with that signature.
pub proof fn lemma_lookup_found(mem: Seq<u8>, a: int, sig: Seq<u8>)
    requires
        sdt_readable_at(mem, a),
        sdt_found(mem, a, xsdt_signature()) || sdt_found(mem, a, rsdt_signature()),
        sdt_lookup_at(mem, a, sig) is Some,
    ensures
        ({
            let p = sdt_lookup_at(mem, a, sig)->0 as int;
            &&& sdt_found(mem, p, sig)
            &&& table_readable(mem, p, sig)
        }),
{
    let w = sdt_width_at(mem, a);
    let n = sdt_entry_count(u32_at(mem, a + 4), w);
    let slots = sdt_slots_at(mem, a);
    lemma_first_slot_with(slots, sig, 0, n);
    let i = first_slot_with(slots, sig, 0, n)->0;
    assert(n <= SDT_MAX_ENTRIES);
    assert(slots[i] == sub_table_slot(mem, entry_pointer(mem, a + SDT_HEADER_LEN, i, w)));
}

impl Sdt {
    #[verifier::type_invariant]
    spec fn inv(self) -> bool {
        self.n_entries <= SDT_MAX_ENTRIES
    }

    pub closed spec fn spec_header(&self) -> SDTHeader {
        self.header
    }

    pub closed spec fn spec_n_entries(&self) -> usize {
        self.n_entries
    }

    pub closed spec fn spec_addr_width(&self) -> usize {
        self.addr_width
    }

    /// The sub-table slots, each the signature and address of a validated table.
    pub closed spec fn spec_slots(&self) -> Seq<Option<(Seq<u8>, usize)>> {
        self.sub_tables@.map_values(|e: Option<SdtEntry>| slot_view(e))
    }

    /// The SDT was read from the table at `a` with `width`-bit pointers.
    pub open spec fn parsed_from(&self, mem: Seq<u8>, a: int, width: int) -> bool {
        &&& self.spec_header().parsed_from(mem, a)
        &&& self.spec_n_entries() == sdt_entry_count(u32_at(mem, a + 4), width)
        &&& self.spec_addr_width() == width
        &&& self.spec_slots() == sub_table_slots(
            mem,
            a + SDT_HEADER_LEN,
            sdt_entry_count(u32_at(mem, a + 4), width),
            width,
        )
    }

    /// Finds the SDT the RSDP points to: the XSDT when it validates, else the RSDT.
    pub fn new(mem: &[u8], rsdp: &Rsdp) -> (r: Option<Sdt>)
        requires
            sdt_readable(mem@, *rsdp),
        ensures
            ({
                let a = sdt_address_of(*rsdp) as usize as int;
                if sdt_found(mem@, a, xsdt_signature()) {
                    r matches Some(s) && s.parsed_from(mem@, a, 64)
                } else if sdt_found(mem@, a, rsdt_signature()) {
                    r matches Some(s) && s.parsed_from(mem@, a, 32)
                } else {
                    r is None
                }
            }),
    {
        let _len = mem.len();
        let sdt_address = if rsdp.xsdt_address().is_some() {
            rsdp.xsdt_address().unwrap()
        } else {
            rsdp.rsdt_address() as u64
        };
        let address = sdt_address as usize;
        let xsdt: [u8; 4] = [0x58, 0x53, 0x44, 0x54];
        assert(xsdt@ =~= xsdt_signature());
        let sdt = get_table(mem, address, xsdt);
        if let Some(header) = sdt {
            let n_entries = (header.length() as usize - SDT_HEADER_LEN) / 8;
            let sub_tables = populate_sub_tables(mem, address + SDT_HEADER_LEN, n_entries, 64);
            return Some(Sdt { header, n_entries, sub_tables, addr_width: 64 });
        }
        let rsdt: [u8; 4] = [0x52, 0x53, 0x44, 0x54];
        assert(rsdt@ =~= rsdt_signature());
        let sdt = get_table(mem, address, rsdt);
        if let Some(header) = sdt {
            let n_entries = (header.length() as usize - SDT_HEADER_LEN) / 4;
            let sub_tables = populate_sub_tables(mem, address + SDT_HEADER_LEN, n_entries, 32);
            return Some(Sdt { header, n_entries, sub_tables, addr_width: 32 });
        }
        None
    }

    /// The address of the first recorded sub-table with the given signature.
    pub fn get_table(&self, signature: [u8; 4]) -> (r: Option<usize>)
        ensures
            r == (match first_slot_with(self.spec_slots(), signature@, 0, self.spec_n_entries() as int) {
                Some(i) => Some(slot_address(self.spec_slots()[i])),
                None => None,
            }),
    {
        proof {
            use_type_invariant(self);
        }
        let mut i: usize = 0;
        while i < self.n_entries
            invariant
                i <= self.n_entries <= SDT_MAX_ENTRIES,
                first_slot_with(self.spec_slots(), signature@, 0, self.spec_n_entries() as int)
                    == first_slot_with(self.spec_slots(), signature@, i as int, self.spec_n_entries() as int),
            decreases self.n_entries - i,
        {
            if let Some(entry) = self.sub_tables[i] {
                if entry.signature[0] == signature[0] && entry.signature[1] == signature[1]
                    && entry.signature[2] == signature[2] && entry.signature[3] == signature[3] {
                    assert(entry.signature@ =~= signature@);
                    return Some(entry.addr);
                }
                assert(entry.signature@ != signature@);
            }
            i = i + 1;
        }
        None
    }

    pub fn header(&self) -> (h: &SDTHeader)
        ensures
            *h == self.spec_header(),
    {
        &self.header
    }

    pub fn n_entries(&self) -> (n: usize)
        ensures
            n == self.spec_n_entries(),
    {
        self.n_entries
    }

    pub fn addr_width(&self) -> (w: usize)
        ensures
            w == self.spec_addr_width(),
    {
        self.addr_width
    }
}

/// What an SDT that `Sdt::new` finds at `a` records of itself: pointers of 32 or 64
/// bits, 64 exactly when its header is an XSDT's, and as many entries as pointers of
/// that width fit in its length after the header.
pub proof fn lemma_sdt_width(mem: Seq<u8>, a: int, s: Sdt)
    requires
        if sdt_found(mem, a, xsdt_signature()) {
            s.parsed_from(mem, a, 64)
        } else {
            sdt_found(mem, a, rsdt_signature()) && s.parsed_from(mem, a, 32)
        },
    ensures
        s.spec_addr_width() == 32 || s.spec_addr_width() == 64,
        s.spec_addr_width() == 64 <==> s.spec_header().spec_signature() == xsdt_signature(),
        s.spec_n_entries() == (s.spec_header().spec_length() - SDT_HEADER_LEN) / ((s.spec_addr_width() / 8) as int),
{
    if !sdt_found(mem, a, xsdt_signature()) {
        assert(rsdt_signature()[0] != xsdt_signature()[0]);
    }
}

/// Fills the sub-table slots from the `n_entries` pointers at `address`.
fn populate_sub_tables(mem: &[u8], address: usize, n_entries: usize, addr_width: usize) -> (slots: [Option<SdtEntry>; 32])
    requires
        n_entries <= SDT_MAX_ENTRIES,
        addr_width == 32 || addr_width == 64,
        sub_tables_readable(mem@, address as int, n_entries as int, addr_width as int),
    ensures
        slots@.map_values(|e: Option<SdtEntry>| slot_view(e)) == sub_table_slots(
            mem@,
            address as int,
            n_entries as int,
            addr_width as int,
        ),
{
    let _len = mem.len();
    let mut sub_tables: [Option<SdtEntry>; 32] = [None; 32];
    let mut i: usize = 0;
    while i < n_entries
        invariant
            i <= n_entries <= SDT_MAX_ENTRIES,
            addr_width == 32 || addr_width == 64,
            sub_tables_readable(mem@, address as int, n_entries as int, addr_width as int),
            mem@.len() == _len,
            forall|k: int| 0 <= k < 32 ==> slot_view(#[trigger] sub_tables@[k]) == (if k < i {
                sub_table_slot(mem@, entry_pointer(mem@, address as int, k, addr_width as int))
            } else {
                None
            }),
        decreases n_entries - i,
    {
        let step = addr_width / 8;
        assert(address + i * step + step <= address + n_entries * step) by (nonlinear_arith)
            requires i < n_entries, step == 4 || step == 8;
        let ptr_low = read_u32(mem, address + i * step);
        let mut ptr: u64 = ptr_low as u64;
        if addr_width == 64 {
            let ptr_high = read_u32(mem, address + i * step + 4);
            ptr = ptr + (ptr_high as u64) * 4294967296;
        }
        let p = ptr as usize;
        assert(p == entry_pointer(mem@, address as int, i as int, addr_width as int));
        assert(table_readable_any(mem@, p as int));
        let table = get_table_any_sig(mem, p);
        if let Some(header) = table {
            sub_tables[i] = Some(SdtEntry { signature: *header.signature_bytes(), addr: p });
        }
        i = i + 1;
    }
    assert(sub_tables@.map_values(|e: Option<SdtEntry>| slot_view(e)) =~= sub_table_slots(
        mem@,
        address as int,
        n_entries as int,
        addr_width as int,
    ));
    sub_tables
}

/// Whether an SDT with signature found at `a` can be read in full with `width`-bit
/// pointers.
fn sdt_contents_check(mem: &[u8], a: usize, width: usize) -> (ok: bool)
    requires
        width == 32 || width == 64,
        a + SDT_HEADER_LEN <= mem@.len(),
        a + u32_at(mem@, a + 4) <= mem@.len(),
    ensures
        ok == sdt_contents_readable(mem@, a as int, width as int),
{
    let _len = mem.len();
    let length = read_u32(mem, a + 4) as usize;
    if length < SDT_HEADER_LEN {
        return false;
    }
    let step = width / 8;
    let n = (length - SDT_HEADER_LEN) / step;
    if n > SDT_MAX_ENTRIES {
        return false;
    }
    let base = a + SDT_HEADER_LEN;
    assert(n == sdt_entry_count(u32_at(mem@, a + 4), width as int));
    let rest: usize = length - SDT_HEADER_LEN;
    assert(n * step <= rest) by (nonlinear_arith)
        requires n == rest / step, step > 0;
    let mut i: usize = 0;
    while i < n
        invariant
            i <= n <= SDT_MAX_ENTRIES,
            step == width / 8,
            width == 32 || width == 64,
            base == a + SDT_HEADER_LEN,
            n == sdt_entry_count(u32_at(mem@, a + 4), width as int),
            base + n * step <= mem@.len(),
            mem@.len() == _len,
            forall|k: int| 0 <= k < i ==> table_readable_any(mem@, #[trigger] entry_pointer(mem@, base as int, k, width as int) as int),
        decreases n - i,
    {
        assert(base + i * step + step <= base + n * step) by (nonlinear_arith)
            requires i < n, step == 4 || step == 8;
        let ptr_low = read_u32(mem, base + i * step);
        let mut ptr: u64 = ptr_low as u64;
        if width == 64 {
            let ptr_high = read_u32(mem, base + i * step + 4);
            ptr = ptr + (ptr_high as u64) * 4294967296;
        }
        let p = ptr as usize;
        assert(p == entry_pointer(mem@, base as int, i as int, width as int));
        if !table_readable_any_check(mem, p) {
            assert(!sub_tables_readable(mem@, base as int, n as int, width as int));
            return false;
        }
        i = i + 1;
    }
    true
}

/// Whether memory holds what `Sdt::new` reads for an SDT at `a`.
pub fn sdt_readable_check(mem: &[u8], a: usize) -> (ok: bool)
    ensures
        ok == sdt_readable_at(mem@, a as int),
{
    let xsdt: [u8; 4] = [0x58, 0x53, 0x44, 0x54];
    assert(xsdt@ =~= xsdt_signature());
    if !table_readable_check(mem, a, xsdt) {
        return false;
    }
    if get_table(mem, a, xsdt).is_some() {
        return sdt_contents_check(mem, a, 64);
    }
    let rsdt: [u8; 4] = [0x52, 0x53, 0x44, 0x54];
    assert(rsdt@ =~= rsdt_signature());
    if !table_readable_check(mem, a, rsdt) {
        return false;
    }
    if get_table(mem, a, rsdt).is_some() {
        sdt_contents_check(mem, a, 32)
    } else {
        true
    }
}

} // verus!
