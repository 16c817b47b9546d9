//! The Root System Description Pointer.

use vstd::prelude::*;
use vstd::utf8::{valid_utf8, decode_utf8};
use crate::le_bytes::{read_u8, read_u32, read_u64, read_array6, read_array8, u32_at, u64_at, checksum_ok, utf8_str, lemma_ascii_utf8};
use crate::acpi::tables::validate_checksum;

verus! {

/// Length of the RSDP for revision 0 (ACPI 1.0).
pub const RSDP_V1_LEN: usize = 20;

/// Size of the RSDP image that is read from memory.
pub const RSDP_LEN: usize = 36;

/// The RSDP signature, "RSD PTR ".
pub open spec fn rsdp_signature() -> Seq<u8> {
    seq![0x52u8, 0x53, 0x44, 0x20, 0x50, 0x54, 0x52, 0x20]
}

/// Number of bytes covered by the RSDP checksum.
pub open spec fn rsdp_checksum_len(mem: Seq<u8>, a: int) -> int {
    if mem[a + 15] == 0 {
        RSDP_V1_LEN as int
    } else {
        u32_at(mem, a + 20) as int
    }
}

/// Memory holds the RSDP image at `a` and the bytes its checksum covers.
pub open spec fn rsdp_readable(mem: Seq<u8>, a: int) -> bool {
    &&& a + RSDP_LEN <= mem.len()
    &&& a + rsdp_checksum_len(mem, a) <= mem.len()
}

/// The RSDP at `a` has the right signature, a UTF-8 OEM id, and a zero checksum.
pub open spec fn rsdp_valid(mem: Seq<u8>, a: int) -> bool {
    &&& mem.subrange(a, a + 8) == rsdp_signature()
    &&& valid_utf8(mem.subrange(a + 9, a + 15))
    &&& checksum_ok(mem.subrange(a, a + rsdp_checksum_len(mem, a)))
}

/// Root System Description Pointer.
#[derive(Copy, Clone)]
pub struct Rsdp {
    signature: [u8; 8],
    checksum: u8,
    oem_id: [u8; 6],
    revision: u8,
    rsdt_address: u32,
    length: u32,
    xsdt_address: u64,
    extended_checksum: u8,
}

impl Rsdp {
    #[verifier::type_invariant]
    spec fn inv(self) -> bool {
        &&& self.signature@ == rsdp_signature()
        &&& valid_utf8(self.oem_id@)
    }

    pub closed spec fn spec_checksum(&self) -> u8 {
        self.checksum
    }

    pub closed spec fn spec_oem_id(&self) -> Seq<u8> {
        self.oem_id@
    }

    pub closed spec fn spec_revision(&self) -> u8 {
        self.revision
    }

    pub closed spec fn spec_rsdt_address(&self) -> u32 {
        self.rsdt_address
    }

    pub closed spec fn spec_length(&self) -> u32 {
        self.length
    }

    pub closed spec fn spec_xsdt_address(&self) -> u64 {
        self.xsdt_address
    }

    pub closed spec fn spec_extended_checksum(&self) -> u8 {
        self.extended_checksum
    }

    /// The RSDP holds the fields of the image at `a` in `mem`.
    pub open spec fn parsed_from(&self, mem: Seq<u8>, a: int) -> bool {
        &&& self.spec_checksum() == mem[a + 8]
        &&& self.spec_oem_id() == mem.subrange(a + 9, a + 15)
        &&& self.spec_revision() == mem[a + 15]
        &&& self.spec_rsdt_address() == u32_at(mem, a + 16)
        &&& self.spec_length() == u32_at(mem, a + 20)
        &&& self.spec_xsdt_address() == u64_at(mem, a + 24)
        &&& self.spec_extended_checksum() == mem[a + 32]
    }

    /// Checks the RSDP at `address`: signature, OEM id text, and checksum over the
    /// 20 bytes of revision 0 or the recorded length of later revisions.
    pub fn validate(mem: &[u8], address: usize) -> (ok: bool)
        requires
            rsdp_readable(mem@, address as int),
        ensures
            ok == rsdp_valid(mem@, address as int),
    {
        let _len = mem.len();
        let sig = read_array8(mem, address);
        let expected: [u8; 8] = [0x52, 0x53, 0x44, 0x20, 0x50, 0x54, 0x52, 0x20];
        let same = sig[0] == expected[0] && sig[1] == expected[1] && sig[2] == expected[2]
            && sig[3] == expected[3] && sig[4] == expected[4] && sig[5] == expected[5]
            && sig[6] == expected[6] && sig[7] == expected[7];
        assert(expected@ =~= rsdp_signature());
        if same {
            assert(sig@ =~= expected@);
        }
        if !same {
            return false;
        }
        let oem_id = read_array6(mem, address + 9);
        if utf8_str(oem_id.as_slice()).is_none() {
            return false;
        }
        let revision = read_u8(mem, address + 15);
        let length = if revision == 0 {
            RSDP_V1_LEN
        } else {
            read_u32(mem, address + 20) as usize
        };
        validate_checksum(&mem[address..address + length])
    }

    /// Reads and validates the RSDP at `address`; the RSDP must be valid.
    pub fn new_from_address(mem: &[u8], address: usize) -> (r: Rsdp)
        requires
            rsdp_readable(mem@, address as int),
            rsdp_valid(mem@, address as int),
        ensures
            r.parsed_from(mem@, address as int),
    {
        let _len = mem.len();
        let r = Rsdp {
            signature: read_array8(mem, address),
            checksum: read_u8(mem, address + 8),
            oem_id: read_array6(mem, address + 9),
            revision: read_u8(mem, address + 15),
            rsdt_address: read_u32(mem, address + 16),
            length: read_u32(mem, address + 20),
            xsdt_address: read_u64(mem, address + 24),
            extended_checksum: read_u8(mem, address + 32),
        };
        r
    }

    /// The signature as text, "RSD PTR ".
    pub fn signature(&self) -> (s: &str)
        ensures
            s@ == decode_utf8(rsdp_signature()),
    {
        proof {
            use_type_invariant(self);
            lemma_ascii_utf8(rsdp_signature());
        }
        utf8_str(self.signature.as_slice()).unwrap()
    }

    pub fn checksum(&self) -> (r: u8)
        ensures
            r == self.spec_checksum(),
    {
        self.checksum
    }

    /// The OEM identifier as text.
    pub fn oem_id(&self) -> (s: &str)
        ensures
            s@ == decode_utf8(self.spec_oem_id()),
    {
        proof {
            use_type_invariant(self);
        }
        utf8_str(self.oem_id.as_slice()).unwrap()
    }

    pub fn revision(&self) -> (r: u8)
        ensures
            r == self.spec_revision(),
    {
        self.revision
    }

    pub fn rsdt_address(&self) -> (r: u32)
        ensures
            r == self.spec_rsdt_address(),
    {
        self.rsdt_address
    }

    /// The table length, recorded from revision 2.0 on.
    pub fn length(&self) -> (r: Option<u32>)
        ensures
            r == (if self.spec_revision() == 0 {
                None
            } else {
                Some(self.spec_length())
            }),
    {
        if self.revision == 0 {
            None
        } else {
            Some(self.length)
        }
    }

    /// The XSDT address, when the revision records one and it is not zero.
    pub fn xsdt_address(&self) -> (r: Option<u64>)
        ensures
            r == (if self.spec_revision() == 0 || self.spec_xsdt_address() == 0 {
                None
            } else {
                Some(self.spec_xsdt_address())
            }),
    {
        if self.revision == 0 || self.xsdt_address == 0 {
            None
        } else {
            Some(self.xsdt_address)
        }
    }

    /// The extended checksum, recorded from revision 2.0 on.
    pub fn extended_checksum(&self) -> (r: Option<u8>)
        ensures
            r == (if self.spec_revision() == 0 {
                None
            } else {
                Some(self.spec_extended_checksum())
            }),
    {
        if self.revision == 0 {
            None
        } else {
            Some(self.extended_checksum)
        }
    }
}

} // verus!
