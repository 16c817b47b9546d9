//! ACPI table parsing.

pub mod tables;
pub mod rsdp;
pub mod sdt;
pub mod madt;
pub mod srat;
pub mod bgrt;
pub mod fadt;

use vstd::prelude::*;
use crate::le_bytes::{read_u8, read_u32, read_u64, u32_at, u64_at};
use self::rsdp::{Rsdp, rsdp_readable, rsdp_valid, RSDP_LEN, RSDP_V1_LEN};
use self::sdt::{
    Sdt, sdt_found, lemma_lookup_found, sdt_readable_at, sdt_width_at, sdt_lookup_at, xsdt_signature, rsdt_signature,
    sdt_address_of, sdt_readable_check,
};
use self::madt::{Madt, madt_signature};
use self::fadt::{Fadt, fadt_signature, FADT_LEN};
use self::bgrt::{Bgrt, bgrt_signature, BGRT_LEN};
use self::srat::{Srat, srat_signature};
use self::tables::SDT_HEADER_LEN;

verus! {

/// Stores the data for all the ACPI tables.
#[derive(Clone, Copy)]
pub struct AcpiTables {
    rsdp: Rsdp,
    sdt: Sdt,
    madt: Madt,
    fadt: Fadt,
    bgrt: Bgrt,
    srat: Option<Srat>,
}

impl AcpiTables {
    pub closed spec fn spec_rsdp(&self) -> Rsdp {
        self.rsdp
    }

    pub closed spec fn spec_sdt(&self) -> Sdt {
        self.sdt
    }

    pub closed spec fn spec_madt(&self) -> Madt {
        self.madt
    }

    pub closed spec fn spec_fadt(&self) -> Fadt {
        self.fadt
    }

    pub closed spec fn spec_bgrt(&self) -> Bgrt {
        self.bgrt
    }

    pub closed spec fn spec_srat(&self) -> Option<Srat> {
        self.srat
    }

    /// Creates a new AcpiTables.
    pub fn new(rsdp: Rsdp, sdt: Sdt, madt: Madt, fadt: Fadt, bgrt: Bgrt, srat: Option<Srat>) -> (t: Self)
        ensures
            t.spec_rsdp() == rsdp,
            t.spec_sdt() == sdt,
            t.spec_madt() == madt,
            t.spec_fadt() == fadt,
            t.spec_bgrt() == bgrt,
            t.spec_srat() == srat,
    {
        Self { rsdp, sdt, madt, fadt, bgrt, srat }
    }

    pub fn rsdp(&self) -> (r: &Rsdp)
        ensures
            *r == self.spec_rsdp(),
    {
        &self.rsdp
    }

    pub fn sdt(&self) -> (r: &Sdt)
        ensures
            *r == self.spec_sdt(),
    {
        &self.sdt
    }

    pub fn madt(&self) -> (r: &Madt)
        ensures
            *r == self.spec_madt(),
    {
        &self.madt
    }

    pub fn bgrt(&self) -> (r: &Bgrt)
        ensures
            *r == self.spec_bgrt(),
    {
        &self.bgrt
    }
}

/// The SDT address the RSDP image at `a` records: its XSDT address from revision
/// 2.0 on when that is not zero, else its RSDT address.
pub open spec fn sdt_address_in(mem: Seq<u8>, a: int) -> u64 {
    if mem[a + 15] == 0 || u64_at(mem, a + 24) == 0 {
        u32_at(mem, a + 16) as u64
    } else {
        u64_at(mem, a + 24)
    }
}

/// The firmware's tables are all there for `init_acpi`: a valid RSDP at `a`, an XSDT or
/// RSDT it points to, and in it a MADT, a FADT and a BGRT that validate, plus an SRAT
/// that can be read when one is listed.
pub open spec fn acpi_tables_present(mem: Seq<u8>, a: int) -> bool {
    let s = sdt_address_in(mem, a) as usize as int;
    &&& rsdp_readable(mem, a)
    &&& rsdp_valid(mem, a)
    &&& sdt_readable_at(mem, s)
    &&& (sdt_found(mem, s, xsdt_signature()) || sdt_found(mem, s, rsdt_signature()))
    &&& sdt_lookup_at(mem, s, madt_signature()) matches Some(m) && m + SDT_HEADER_LEN + 8 <= mem.len()
    &&& sdt_lookup_at(mem, s, fadt_signature()) matches Some(f) && f + FADT_LEN <= mem.len()
    &&& sdt_lookup_at(mem, s, bgrt_signature()) matches Some(b) && b + BGRT_LEN <= mem.len()
    &&& sdt_lookup_at(mem, s, srat_signature()) matches Some(r) ==> u32_at(mem, r + 4) + 32 <= u32::MAX
}

/// The tables `init_acpi` reads for the RSDP at `a`: each parsed from where the RSDP,
/// the SDT and the SDT's entries place it, and the SRAT only when the SDT lists one.
pub open spec fn acpi_tables_parsed(t: AcpiTables, mem: Seq<u8>, a: int) -> bool {
    let s = sdt_address_in(mem, a) as usize as int;
    &&& t.spec_rsdp().parsed_from(mem, a)
    &&& t.spec_sdt().parsed_from(mem, s, sdt_width_at(mem, s))
    &&& t.spec_madt().parsed_from(mem, sdt_lookup_at(mem, s, madt_signature())->0 as int)
    &&& t.spec_fadt().parsed_from(mem, sdt_lookup_at(mem, s, fadt_signature())->0 as int)
    &&& t.spec_bgrt().parsed_from(mem, sdt_lookup_at(mem, s, bgrt_signature())->0 as int)
    &&& match sdt_lookup_at(mem, s, srat_signature()) {
        Some(r) => t.spec_srat() matches Some(x) && {
            &&& x.spec_header().parsed_from(mem, r as int)
            &&& x.spec_length() == u32_at(mem, r + 4) + 32
            &&& x.spec_addr() == r
        },
        None => t.spec_srat() is None,
    }
}

/// Reads all ACPI tables starting from the RSDP at `rsdp_address`.
pub fn init_acpi(mem: &[u8], rsdp_address: usize) -> (t: AcpiTables)
    requires
        acpi_tables_present(mem@, rsdp_address as int),
    ensures
        acpi_tables_parsed(t, mem@, rsdp_address as int),
{
    let rsdp = Rsdp::new_from_address(mem, rsdp_address);
    assert(sdt_address_of(rsdp) == sdt_address_in(mem@, rsdp_address as int));
    let sdt = Sdt::new(mem, &rsdp).unwrap();
    let ghost s = sdt_address_in(mem@, rsdp_address as int) as usize as int;
    proof {
        lemma_lookup_found(mem@, s, madt_signature());
        lemma_lookup_found(mem@, s, fadt_signature());
        lemma_lookup_found(mem@, s, bgrt_signature());
        if sdt_lookup_at(mem@, s, srat_signature()) is Some {
            lemma_lookup_found(mem@, s, srat_signature());
        }
    }
    let apic_sig: [u8; 4] = [0x41, 0x50, 0x49, 0x43];
    assert(apic_sig@ =~= madt_signature());
    let madt = Madt::new(mem, sdt.get_table(apic_sig).unwrap());
    let facp_sig: [u8; 4] = [0x46, 0x41, 0x43, 0x50];
    assert(facp_sig@ =~= fadt_signature());
    let fadt = Fadt::new(mem, sdt.get_table(facp_sig).unwrap()).unwrap();
    let bgrt_sig: [u8; 4] = [0x42, 0x47, 0x52, 0x54];
    assert(bgrt_sig@ =~= bgrt_signature());
    let bgrt = Bgrt::new(mem, sdt.get_table(bgrt_sig).unwrap()).unwrap();
    let srat_sig: [u8; 4] = [0x53, 0x52, 0x41, 0x54];
    assert(srat_sig@ =~= srat_signature());
    let srat = if let Some(srat_addr) = sdt.get_table(srat_sig) {
        Srat::new(mem, srat_addr)
    } else {
        None
    };
    AcpiTables::new(rsdp, sdt, madt, fadt, bgrt, srat)
}

/// Whether the firmware's tables are all there for `init_acpi` at `rsdp_address`.
pub fn acpi_tables_check(mem: &[u8], rsdp_address: usize) -> (ok: bool)
    ensures
        ok == acpi_tables_present(mem@, rsdp_address as int),
{
    let a = rsdp_address;
    if a > mem.len() || mem.len() - a < RSDP_LEN {
        return false;
    }
    let revision = read_u8(mem, a + 15);
    let checksum_len: usize = if revision == 0 {
        RSDP_V1_LEN
    } else {
        read_u32(mem, a + 20) as usize
    };
    if checksum_len > mem.len() - a {
        return false;
    }
    if !Rsdp::validate(mem, a) {
        return false;
    }
    let xsdt_address = read_u64(mem, a + 24);
    let sdt_address: u64 = if revision == 0 || xsdt_address == 0 {
        read_u32(mem, a + 16) as u64
    } else {
        xsdt_address
    };
    let s = sdt_address as usize;
    if !sdt_readable_check(mem, s) {
        return false;
    }
    let rsdp = Rsdp::new_from_address(mem, a);
    assert(sdt_address_of(rsdp) == sdt_address_in(mem@, a as int));
    let sdt = match Sdt::new(mem, &rsdp) {
        Some(sdt) => sdt,
        None => return false,
    };
    let apic_sig: [u8; 4] = [0x41, 0x50, 0x49, 0x43];
    assert(apic_sig@ =~= madt_signature());
    let madt_ok = match sdt.get_table(apic_sig) {
        Some(m) => m <= mem.len() && mem.len() - m >= SDT_HEADER_LEN + 8,
        None => false,
    };
    let facp_sig: [u8; 4] = [0x46, 0x41, 0x43, 0x50];
    assert(facp_sig@ =~= fadt_signature());
    let fadt_ok = match sdt.get_table(facp_sig) {
        Some(f) => f <= mem.len() && mem.len() - f >= FADT_LEN,
        None => false,
    };
    let bgrt_sig: [u8; 4] = [0x42, 0x47, 0x52, 0x54];
    assert(bgrt_sig@ =~= bgrt_signature());
    let bgrt_ok = match sdt.get_table(bgrt_sig) {
        Some(b) => b <= mem.len() && mem.len() - b >= BGRT_LEN,
        None => false,
    };
    let srat_sig: [u8; 4] = [0x53, 0x52, 0x41, 0x54];
    assert(srat_sig@ =~= srat_signature());
    let srat_ok = match sdt.get_table(srat_sig) {
        Some(r) => {
            proof {
                lemma_lookup_found(mem@, s as int, srat_signature());
            }
            read_u32(mem, r + 4) <= u32::MAX - 32
        },
        None => true,
    };
    madt_ok && fadt_ok && bgrt_ok && srat_ok
}

/// Reads all ACPI tables starting from the RSDP at `rsdp_address` when they are all
/// there, as `init_acpi` does; `None` when they are not, where `init_acpi` fails.
pub fn try_init_acpi(mem: &[u8], rsdp_address: usize) -> (r: Option<AcpiTables>)
    ensures
        r is Some <==> acpi_tables_present(mem@, rsdp_address as int),
        r matches Some(t) ==> acpi_tables_parsed(t, mem@, rsdp_address as int),
{
    if acpi_tables_check(mem, rsdp_address) {
        Some(init_acpi(mem, rsdp_address))
    } else {
        None
    }
}

} // verus!
