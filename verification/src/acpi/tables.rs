//! The common System Description Table header, checksums and table lookup.

use vstd::prelude::*;
use vstd::utf8::{valid_utf8, decode_utf8};
use crate::le_bytes::{read_u8, read_u32, read_array4, read_array6, read_array8, u32_at, checksum_ok, byte_sum, utf8_str};

verus! {

/// Size in bytes of the System Description Table header.
pub const SDT_HEADER_LEN: usize = 36;

/// The header shared by all System Description Tables.
#[derive(Copy, Clone, Debug)]
pub struct SDTHeader {
    signature: [u8; 4],
    length: u32,
    revision: u8,
    checksum: u8,
    oem_id: [u8; 6],
    oem_table_id: [u8; 8],
    oem_revision: u32,
    creator_id: u32,
    creator_revision: u32,
}

impl SDTHeader {
    pub closed spec fn spec_signature(&self) -> Seq<u8> {
        self.signature@
    }

    pub closed spec fn spec_length(&self) -> u32 {
        self.length
    }

    pub closed spec fn spec_revision(&self) -> u8 {
        self.revision
    }

    pub closed spec fn spec_checksum(&self) -> u8 {
        self.checksum
    }

    pub closed spec fn spec_oem_id(&self) -> Seq<u8> {
        self.oem_id@
    }

    pub closed spec fn spec_oem_table_id(&self) -> Seq<u8> {
        self.oem_table_id@
    }

    pub closed spec fn spec_oem_revision(&self) -> u32 {
        self.oem_revision
    }

    pub closed spec fn spec_creator_id(&self) -> u32 {
        self.creator_id
    }

    pub closed spec fn spec_creator_revision(&self) -> u32 {
        self.creator_revision
    }

    /// The header holds exactly the fields of the 36-byte image at `a` in `mem`.
    pub open spec fn parsed_from(&self, mem: Seq<u8>, a: int) -> bool {
        &&& self.spec_signature() == mem.subrange(a, a + 4)
        &&& self.spec_length() == u32_at(mem, a + 4)
        &&& self.spec_revision() == mem[a + 8]
        &&& self.spec_checksum() == mem[a + 9]
        &&& self.spec_oem_id() == mem.subrange(a + 10, a + 16)
        &&& self.spec_oem_table_id() == mem.subrange(a + 16, a + 24)
        &&& self.spec_oem_revision() == u32_at(mem, a + 24)
        &&& self.spec_creator_id() == u32_at(mem, a + 28)
        &&& self.spec_creator_revision() == u32_at(mem, a + 32)
    }

    /// Reads the header image at `address`.
    pub fn read(mem: &[u8], address: usize) -> (h: SDTHeader)
        requires
            address + SDT_HEADER_LEN <= mem@.len(),
        ensures
            h.parsed_from(mem@, address as int),
    {
        let _len = mem.len();
        SDTHeader {
            signature: read_array4(mem, address),
            length: read_u32(mem, address + 4),
            revision: read_u8(mem, address + 8),
            checksum: read_u8(mem, address + 9),
            oem_id: read_array6(mem, address + 10),
            oem_table_id: read_array8(mem, address + 16),
            oem_revision: read_u32(mem, address + 24),
            creator_id: read_u32(mem, address + 28),
            creator_revision: read_u32(mem, address + 32),
        }
    }

    /// The signature as text; the signature bytes must be well-formed UTF-8.
    pub fn signature(&self) -> (s: &str)
        requires
            valid_utf8(self.spec_signature()),
        ensures
            s@ == decode_utf8(self.spec_signature()),
    {
        utf8_str(self.signature.as_slice()).unwrap()
    }

    pub fn signature_bytes(&self) -> (s: &[u8; 4])
        ensures
            s@ == self.spec_signature(),
    {
        &self.signature
    }

    pub fn length(&self) -> (r: u32)
        ensures
            r == self.spec_length(),
    {
        self.length
    }

    pub fn revision(&self) -> (r: u8)
        ensures
            r == self.spec_revision(),
    {
        self.revision
    }

    pub fn checksum(&self) -> (r: u8)
        ensures
            r == self.spec_checksum(),
    {
        self.checksum
    }

    /// The OEM identifier as text; its bytes must be well-formed UTF-8.
    pub fn oem_id(&self) -> (s: &str)
        requires
            valid_utf8(self.spec_oem_id()),
        ensures
            s@ == decode_utf8(self.spec_oem_id()),
    {
        utf8_str(self.oem_id.as_slice()).unwrap()
    }

    /// The OEM table identifier as text; its bytes must be well-formed UTF-8.
    pub fn oem_table_id(&self) -> (s: &str)
        requires
            valid_utf8(self.spec_oem_table_id()),
        ensures
            s@ == decode_utf8(self.spec_oem_table_id()),
    {
        utf8_str(self.oem_table_id.as_slice()).unwrap()
    }

    pub fn oem_revision(&self) -> (r: u32)
        ensures
            r == self.spec_oem_revision(),
    {
        self.oem_revision
    }

    pub fn creator_id(&self) -> (r: u32)
        ensures
            r == self.spec_creator_id(),
    {
        self.creator_id
    }

    pub fn creator_revision(&self) -> (r: u32)
        ensures
            r == self.spec_creator_revision(),
    {
        self.creator_revision
    }
}

/// A byte region is valid when its bytes add up to zero modulo 256.
pub fn validate_checksum(data: &[u8]) -> (ok: bool)
    ensures
        ok == checksum_ok(data@),
{
    let mut sum: u8 = 0;
    let mut i: usize = 0;
    while i < data.len()
        invariant
            i <= data@.len(),
            sum == byte_sum(data@.subrange(0, i as int)) % 256,
        decreases data@.len() - i,
    {
        assert(data@.subrange(0, i + 1).drop_last() =~= data@.subrange(0, i as int));
        sum = sum.wrapping_add(data[i]);
        i = i + 1;
    }
    assert(data@.subrange(0, data@.len() as int) =~= data@);
    sum == 0
}

/// The table image at `a` starts with `sig` (when given) and its whole `length`
/// bytes checksum to zero.
pub open spec fn table_valid_at(mem: Seq<u8>, a: int) -> bool {
    &&& a + SDT_HEADER_LEN <= mem.len()
    &&& a + u32_at(mem, a + 4) <= mem.len()
    &&& checksum_ok(mem.subrange(a, a + u32_at(mem, a + 4)))
}

/// Memory holds what `get_table` reads at `address` before it can decide.
pub open spec fn table_readable(mem: Seq<u8>, address: int, sig: Seq<u8>) -> bool {
    &&& address + SDT_HEADER_LEN <= mem.len()
    &&& mem.subrange(address, address + 4) == sig ==> address + u32_at(mem, address + 4) <= mem.len()
}

/// Memory holds what `get_table_any_sig` reads at `address`.
pub open spec fn table_readable_any(mem: Seq<u8>, address: int) -> bool {
    &&& address + SDT_HEADER_LEN <= mem.len()
    &&& address + u32_at(mem, address + 4) <= mem.len()
}

fn same_signature(a: &[u8; 4], b: &[u8; 4]) -> (r: bool)
    ensures
        r == (a@ == b@),
{
    let r = a[0] == b[0] && a[1] == b[1] && a[2] == b[2] && a[3] == b[3];
    if r {
        assert(a@ =~= b@);
    }
    r
}

/// Looks for a table with signature `sig` at `address` and validates its checksum.
pub fn get_table(mem: &[u8], address: usize, sig: [u8; 4]) -> (r: Option<SDTHeader>)
    requires
        table_readable(mem@, address as int, sig@),
    ensures
        r is Some <==> (mem@.subrange(address as int, address + 4) == sig@ && table_valid_at(
            mem@,
            address as int,
        )),
        r matches Some(h) ==> h.parsed_from(mem@, address as int),
{
    let _len = mem.len();
    let header = SDTHeader::read(mem, address);
    if same_signature(header.signature_bytes(), &sig) {
        let len = header.length() as usize;
        if validate_checksum(&mem[address..address + len]) {
            return Some(header);
        }
    }
    None
}

/// Reads the table at `address`, whatever its signature, and validates its checksum.
pub fn get_table_any_sig(mem: &[u8], address: usize) -> (r: Option<SDTHeader>)
    requires
        table_readable_any(mem@, address as int),
    ensures
        r is Some <==> table_valid_at(mem@, address as int),
        r matches Some(h) ==> h.parsed_from(mem@, address as int),
{
    let _len = mem.len();
    let header = SDTHeader::read(mem, address);
    let len = header.length() as usize;
    if validate_checksum(&mem[address..address + len]) {
        Some(header)
    } else {
        None
    }
}

/// Whether memory holds what `get_table` reads at `address` for signature `sig`.
pub fn table_readable_check(mem: &[u8], address: usize, sig: [u8; 4]) -> (ok: bool)
    ensures
        ok == table_readable(mem@, address as int, sig@),
{
    if address > mem.len() || mem.len() - address < SDT_HEADER_LEN {
        return false;
    }
    let s = read_array4(mem, address);
    if same_signature(&s, &sig) {
        let len = read_u32(mem, address + 4) as usize;
        len <= mem.len() - address
    } else {
        true
    }
}

/// Whether memory holds what `get_table_any_sig` reads at `address`.
pub fn table_readable_any_check(mem: &[u8], address: usize) -> (ok: bool)
    ensures
        ok == table_readable_any(mem@, address as int),
{
    if address > mem.len() || mem.len() - address < SDT_HEADER_LEN {
        return false;
    }
    let len = read_u32(mem, address + 4) as usize;
    len <= mem.len() - address
}

} // verus!
