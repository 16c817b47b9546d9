//! Boot Graphics Record Table (BGRT) definition.

use vstd::prelude::*;
use vstd::utf8::{valid_utf8, decode_utf8};
use crate::le_bytes::{read_u8, read_u16, read_u32, read_u64, read_array4, read_array6, read_array8, u16_at, u32_at, u64_at, utf8_str};
use crate::acpi::tables::{get_table, table_readable};
use crate::acpi::sdt::sdt_found;

verus! {

/// Size of the BGRT image that is read (C layout of the record, with padding).
pub const BGRT_LEN: usize = 56;

/// "BGRT"
pub open spec fn bgrt_signature() -> Seq<u8> {
    seq![0x42u8, 0x47, 0x52, 0x54]
}

/// Memory holds what `Bgrt::new` reads at `addr`.
pub open spec fn bgrt_readable(mem: Seq<u8>, addr: int) -> bool {
    &&& table_readable(mem, addr, bgrt_signature())
    &&& sdt_found(mem, addr, bgrt_signature()) ==> addr + BGRT_LEN <= mem.len()
}

#[derive(Copy, Clone, Debug)]
pub struct Bgrt {
    signature: [u8; 4],
    length: u32,
    revision: u8,
    checksum: u8,
    oem_id: [u8; 6],
    oem_table_id: [u8; 8],
    oem_revision: [u8; 4],
    creator_id: u32,
    creator_revision: u8,
    version_id: u16,
    status: u8,
    image_type: u8,
    image_address: u64,
    x_offset: u32,
    y_offset: u32,
}

impl Bgrt {
    pub closed spec fn spec_signature(&self) -> Seq<u8> {
        self.signature@
    }

    pub closed spec fn spec_length(&self) -> u32 {
        self.length
    }

    pub closed spec fn spec_revision(&self) -> u8 {
        self.revision
    }

    pub closed spec fn spec_checksum(&self) -> u8 {
        self.checksum
    }

    pub closed spec fn spec_oem_id(&self) -> Seq<u8> {
        self.oem_id@
    }

    pub closed spec fn spec_oem_table_id(&self) -> Seq<u8> {
        self.oem_table_id@
    }

    pub closed spec fn spec_oem_revision(&self) -> Seq<u8> {
        self.oem_revision@
    }

    pub closed spec fn spec_creator_id(&self) -> u32 {
        self.creator_id
    }

    pub closed spec fn spec_creator_revision(&self) -> u8 {
        self.creator_revision
    }

    pub closed spec fn spec_version(&self) -> u16 {
        self.version_id
    }

    pub closed spec fn spec_status(&self) -> u8 {
        self.status
    }

    pub closed spec fn spec_image_type(&self) -> u8 {
        self.image_type
    }

    pub closed spec fn spec_image_address(&self) -> u64 {
        self.image_address
    }

    pub closed spec fn spec_x_offset(&self) -> u32 {
        self.x_offset
    }

    pub closed spec fn spec_y_offset(&self) -> u32 {
        self.y_offset
    }

    /// The record holds the fields of the image at `a`, laid out as a C struct.
    pub open spec fn parsed_from(&self, mem: Seq<u8>, a: int) -> bool {
        &&& self.spec_signature() == mem.subrange(a, a + 4)
        &&& self.spec_length() == u32_at(mem, a + 4)
        &&& self.spec_revision() == mem[a + 8]
        &&& self.spec_checksum() == mem[a + 9]
        &&& self.spec_oem_id() == mem.subrange(a + 10, a + 16)
        &&& self.spec_oem_table_id() == mem.subrange(a + 16, a + 24)
        &&& self.spec_oem_revision() == mem.subrange(a + 24, a + 28)
        &&& self.spec_creator_id() == u32_at(mem, a + 28)
        &&& self.spec_creator_revision() == mem[a + 32]
        &&& self.spec_version() == u16_at(mem, a + 34)
        &&& self.spec_status() == mem[a + 36]
        &&& self.spec_image_type() == mem[a + 37]
        &&& self.spec_image_address() == u64_at(mem, a + 40)
        &&& self.spec_x_offset() == u32_at(mem, a + 48)
        &&& self.spec_y_offset() == u32_at(mem, a + 52)
    }

    /// Reads the BGRT at `addr` when a valid one is there.
    pub fn new(mem: &[u8], addr: usize) -> (r: Option<Bgrt>)
        requires
            bgrt_readable(mem@, addr as int),
        ensures
            r is Some <==> sdt_found(mem@, addr as int, bgrt_signature()),
            r matches Some(b) ==> b.parsed_from(mem@, addr as int),
    {
        let _len = mem.len();
        let sig: [u8; 4] = [0x42, 0x47, 0x52, 0x54];
        assert(sig@ =~= bgrt_signature());
        let header = get_table(mem, addr, sig);
        if let Some(_header) = header {
            Some(
                Bgrt {
                    signature: read_array4(mem, addr),
                    length: read_u32(mem, addr + 4),
                    revision: read_u8(mem, addr + 8),
                    checksum: read_u8(mem, addr + 9),
                    oem_id: read_array6(mem, addr + 10),
                    oem_table_id: read_array8(mem, addr + 16),
                    oem_revision: read_array4(mem, addr + 24),
                    creator_id: read_u32(mem, addr + 28),
                    creator_revision: read_u8(mem, addr + 32),
                    version_id: read_u16(mem, addr + 34),
                    status: read_u8(mem, addr + 36),
                    image_type: read_u8(mem, addr + 37),
                    image_address: read_u64(mem, addr + 40),
                    x_offset: read_u32(mem, addr + 48),
                    y_offset: read_u32(mem, addr + 52),
                },
            )
        } else {
            None
        }
    }

    /// The signature as text; its bytes must be well-formed UTF-8.
    pub fn signature(&self) -> (s: &str)
        requires
            valid_utf8(self.spec_signature()),
        ensures
            s@ == decode_utf8(self.spec_signature()),
    {
        utf8_str(self.signature.as_slice()).unwrap()
    }

    pub fn checksum(&self) -> (r: u8)
        ensures
            r == self.spec_checksum(),
    {
        self.checksum
    }

    /// The OEM identifier as text; its bytes must be well-formed UTF-8.
    pub fn oem_id(&self) -> (s: &str)
        requires
            valid_utf8(self.spec_oem_id()),
        ensures
            s@ == decode_utf8(self.spec_oem_id()),
    {
        utf8_str(self.oem_id.as_slice()).unwrap()
    }

    /// The OEM table identifier as text; its bytes must be well-formed UTF-8.
    pub fn oem_table_id(&self) -> (s: &str)
        requires
            valid_utf8(self.spec_oem_table_id()),
        ensures
            s@ == decode_utf8(self.spec_oem_table_id()),
    {
        utf8_str(self.oem_table_id.as_slice()).unwrap()
    }

    pub fn revision(&self) -> (r: u8)
        ensures
            r == self.spec_revision(),
    {
        self.revision
    }

    pub fn creator_id(&self) -> (r: u32)
        ensures
            r == self.spec_creator_id(),
    {
        self.creator_id
    }

    pub fn creator_revision(&self) -> (r: u8)
        ensures
            r == self.spec_creator_revision(),
    {
        self.creator_revision
    }

    /// Sets the version to 1, the only version the record defines.
    pub fn set_version(&mut self)
        ensures
            final(self).spec_version() == 1,
            final(self).spec_signature() == old(self).spec_signature(),
            final(self).spec_length() == old(self).spec_length(),
            final(self).spec_revision() == old(self).spec_revision(),
            final(self).spec_checksum() == old(self).spec_checksum(),
            final(self).spec_oem_id() == old(self).spec_oem_id(),
            final(self).spec_oem_table_id() == old(self).spec_oem_table_id(),
            final(self).spec_oem_revision() == old(self).spec_oem_revision(),
            final(self).spec_creator_id() == old(self).spec_creator_id(),
            final(self).spec_creator_revision() == old(self).spec_creator_revision(),
            final(self).spec_status() == old(self).spec_status(),
            final(self).spec_image_type() == old(self).spec_image_type(),
            final(self).spec_image_address() == old(self).spec_image_address(),
            final(self).spec_x_offset() == old(self).spec_x_offset(),
            final(self).spec_y_offset() == old(self).spec_y_offset(),
    {
        self.version_id = 1
    }

    pub fn version(&self) -> (r: u16)
        ensures
            r == self.spec_version(),
    {
        self.version_id
    }

    pub fn status(&self) -> (r: u8)
        ensures
            r == self.spec_status(),
    {
        self.status
    }

    pub fn image_type(&self) -> (r: u8)
        ensures
            r == self.spec_image_type(),
    {
        self.image_type
    }

    pub fn image_address(&self) -> (r: u64)
        ensures
            r == self.spec_image_address(),
    {
        self.image_address
    }

    /// X offset of the image.
    pub fn x_offset(&self) -> (r: u32)
        ensures
            r == self.spec_x_offset(),
    {
        self.x_offset
    }

    /// Y offset of the image.
    pub fn y_offset(&self) -> (r: u32)
        ensures
            r == self.spec_y_offset(),
    {
        self.y_offset
    }

    /// The table length, recorded from revision 1 on.
    pub fn length(&self) -> (r: Option<u32>)
        ensures
            r == (if self.spec_revision() == 0 {
                None
            } else {
                Some(self.spec_length())
            }),
    {
        if self.revision == 0 {
            None
        } else {
            Some(self.length)
        }
    }
}

} // verus!
