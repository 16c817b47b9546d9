use charlotte_core::acpi::bgrt::Bgrt;
use charlotte_core::acpi::fadt::{AccessSize, AddressSpace, Fadt, GenericAddress};
use charlotte_core::acpi::{acpi_tables_check, init_acpi, try_init_acpi};
use charlotte_core::acpi::madt::{Madt, MadtEntry};
use charlotte_core::acpi::rsdp::Rsdp;
use charlotte_core::acpi::sdt::Sdt;
use charlotte_core::acpi::srat::{Srat, SratEntry};
use charlotte_core::acpi::tables::{get_table, get_table_any_sig, validate_checksum, SDTHeader};
use charlotte_core::interrupts::apic::Apic;
use charlotte_core::interrupts::lapic::list_apics;

fn put_u16(mem: &mut [u8], at: usize, v: u16) {
    mem[at..at + 2].copy_from_slice(&v.to_le_bytes());
}

fn put_u32(mem: &mut [u8], at: usize, v: u32) {
    mem[at..at + 4].copy_from_slice(&v.to_le_bytes());
}

fn put_u64(mem: &mut [u8], at: usize, v: u64) {
    mem[at..at + 8].copy_from_slice(&v.to_le_bytes());
}

fn fix_checksum(mem: &mut [u8], start: usize, len: usize, checksum_at: usize) {
    mem[checksum_at] = 0;
    let sum: u32 = mem[start..start + len].iter().map(|b| *b as u32).sum();
    mem[checksum_at] = ((256 - (sum % 256)) % 256) as u8;
}

/// Writes a system description table header at `at` and fixes its checksum over
/// `len` bytes.
fn put_header(mem: &mut [u8], at: usize, sig: &[u8; 4], len: u32) {
    mem[at..at + 4].copy_from_slice(sig);
    put_u32(mem, at + 4, len);
    mem[at + 8] = 1;
    mem[at + 10..at + 16].copy_from_slice(b"CHRLTE");
    mem[at + 16..at + 24].copy_from_slice(b"KERNELTB");
    put_u32(mem, at + 24, 7);
    put_u32(mem, at + 28, 0x4C54_4E49);
    put_u32(mem, at + 32, 3);
}

const RSDP_AT: usize = 0x10;
const RSDT_AT: usize = 0x100;
const MADT_AT: usize = 0x200;
const FADT_AT: usize = 0x300;
const BGRT_AT: usize = 0x500;
const SRAT_AT: usize = 0x600;

/// A physical memory image with an RSDP (revision 0), an RSDT pointing at a MADT, a
/// FADT, a BGRT and, when asked, an SRAT.
fn acpi_image(with_srat: bool) -> Vec<u8> {
    let mut mem = vec![0u8; 0x800];
    // RSDP
    mem[RSDP_AT..RSDP_AT + 8].copy_from_slice(b"RSD PTR ");
    mem[RSDP_AT + 9..RSDP_AT + 15].copy_from_slice(b"CHRLTE");
    mem[RSDP_AT + 15] = 0;
    put_u32(&mut mem, RSDP_AT + 16, RSDT_AT as u32);
    fix_checksum(&mut mem, RSDP_AT, 20, RSDP_AT + 8);
    // MADT: local APIC address, flags, a processor local APIC, an address override
    let madt_len = 36 + 8 + 8 + 12;
    put_header(&mut mem, MADT_AT, b"APIC", madt_len);
    put_u32(&mut mem, MADT_AT + 36, 0xFEE0_0000);
    put_u32(&mut mem, MADT_AT + 40, 1);
    let e = MADT_AT + 44;
    mem[e] = 0;
    mem[e + 1] = 8;
    mem[e + 2] = 3;
    mem[e + 3] = 5;
    put_u32(&mut mem, e + 4, 1);
    let e = e + 8;
    mem[e] = 5;
    mem[e + 1] = 12;
    put_u64(&mut mem, e + 4, 0xFED0_0000);
    fix_checksum(&mut mem, MADT_AT, madt_len as usize, MADT_AT + 9);
    // FADT
    put_header(&mut mem, FADT_AT, b"FACP", 272);
    fix_checksum(&mut mem, FADT_AT, 272, FADT_AT + 9);
    // BGRT
    put_header(&mut mem, BGRT_AT, b"BGRT", 56);
    put_u16(&mut mem, BGRT_AT + 34, 1);
    mem[BGRT_AT + 36] = 1;
    put_u64(&mut mem, BGRT_AT + 40, 0x8000_0000);
    put_u32(&mut mem, BGRT_AT + 48, 100);
    put_u32(&mut mem, BGRT_AT + 52, 200);
    fix_checksum(&mut mem, BGRT_AT, 56, BGRT_AT + 9);
    // SRAT
    if with_srat {
        put_header(&mut mem, SRAT_AT, b"SRAT", 100);
        let p = SRAT_AT + 48;
        mem[p] = 0;
        mem[p + 1] = 16;
        mem[p + 3] = 9;
        fix_checksum(&mut mem, SRAT_AT, 100, SRAT_AT + 9);
    }
    // RSDT
    let n = if with_srat { 4 } else { 3 };
    let rsdt_len = 36 + 4 * n;
    put_header(&mut mem, RSDT_AT, b"RSDT", rsdt_len as u32);
    put_u32(&mut mem, RSDT_AT + 36, MADT_AT as u32);
    put_u32(&mut mem, RSDT_AT + 40, FADT_AT as u32);
    put_u32(&mut mem, RSDT_AT + 44, BGRT_AT as u32);
    if with_srat {
        put_u32(&mut mem, RSDT_AT + 48, SRAT_AT as u32);
    }
    fix_checksum(&mut mem, RSDT_AT, rsdt_len, RSDT_AT + 9);
    mem
}

#[test]
fn checksum_of_bytes_summing_to_zero_is_valid() {
    assert!(validate_checksum(&[0x10, 0xF0]));
    assert!(validate_checksum(&[]));
    assert!(!validate_checksum(&[0x10, 0xF1]));
}

#[test]
fn rsdp_validates_and_reads_fields() {
    let mem = acpi_image(false);
    assert!(Rsdp::validate(&mem, RSDP_AT));
    let rsdp = Rsdp::new_from_address(&mem, RSDP_AT);
    assert_eq!(rsdp.signature(), "RSD PTR ");
    assert_eq!(rsdp.oem_id(), "CHRLTE");
    assert_eq!(rsdp.revision(), 0);
    assert_eq!(rsdp.rsdt_address(), RSDT_AT as u32);
    assert_eq!(rsdp.length(), None);
    assert_eq!(rsdp.xsdt_address(), None);
    assert_eq!(rsdp.extended_checksum(), None);
}

#[test]
fn rsdp_with_bad_checksum_or_signature_is_refused() {
    let mut mem = acpi_image(false);
    mem[RSDP_AT + 8] = mem[RSDP_AT + 8].wrapping_add(1);
    assert!(!Rsdp::validate(&mem, RSDP_AT));
    let mut mem = acpi_image(false);
    mem[RSDP_AT] = b'X';
    assert!(!Rsdp::validate(&mem, RSDP_AT));
}

#[test]
fn table_header_reads_its_fields() {
    let mem = acpi_image(false);
    let h = SDTHeader::read(&mem, MADT_AT);
    assert_eq!(h.signature(), "APIC");
    assert_eq!(h.signature_bytes(), b"APIC");
    assert_eq!(h.length(), 64);
    assert_eq!(h.revision(), 1);
    assert_eq!(h.oem_id(), "CHRLTE");
    assert_eq!(h.oem_table_id(), "KERNELTB");
    assert_eq!(h.oem_revision(), 7);
    assert_eq!(h.creator_id(), 0x4C54_4E49);
    assert_eq!(h.creator_revision(), 3);
}

#[test]
fn get_table_checks_signature_and_checksum() {
    let mem = acpi_image(false);
    assert!(get_table(&mem, MADT_AT, *b"APIC").is_some());
    assert!(get_table(&mem, MADT_AT, *b"FACP").is_none());
    assert!(get_table_any_sig(&mem, FADT_AT).is_some());
    let mut bad = mem.clone();
    bad[MADT_AT + 50] ^= 0xFF;
    assert!(get_table(&bad, MADT_AT, *b"APIC").is_none());
    assert!(get_table_any_sig(&bad, MADT_AT).is_none());
}

#[test]
fn rsdt_lists_the_tables() {
    let mem = acpi_image(true);
    let rsdp = Rsdp::new_from_address(&mem, RSDP_AT);
    let sdt = Sdt::new(&mem, &rsdp).unwrap();
    assert_eq!(sdt.n_entries(), 4);
    assert_eq!(sdt.addr_width(), 32);
    assert_eq!(sdt.header().signature(), "RSDT");
    assert_eq!(sdt.get_table(*b"APIC"), Some(MADT_AT));
    assert_eq!(sdt.get_table(*b"FACP"), Some(FADT_AT));
    assert_eq!(sdt.get_table(*b"BGRT"), Some(BGRT_AT));
    assert_eq!(sdt.get_table(*b"SRAT"), Some(SRAT_AT));
    assert_eq!(sdt.get_table(*b"HPET"), None);
}

#[test]
fn madt_entries_are_walked_in_order() {
    let mem = acpi_image(false);
    let madt = Madt::new(&mem, MADT_AT);
    assert_eq!(madt.local_apic_addr(), 0xFEE0_0000);
    assert_eq!(madt.flags(), 1);
    let mut it = madt.iter();
    match it.next(&mem) {
        Some(MadtEntry::ProcessorLocalApic(p)) => {
            assert_eq!(p.processor_id, 3);
            assert_eq!(p.apic_id, 5);
            assert_eq!(p.flags, 1);
        }
        other => panic!("unexpected entry {:?}", other),
    }
    match it.next(&mem) {
        Some(MadtEntry::LocalApicAddressOverride(o)) => assert_eq!(o.local_apic_address, 0xFED0_0000),
        other => panic!("unexpected entry {:?}", other),
    }
    assert!(it.next(&mem).is_none());
}

#[test]
fn apic_base_follows_the_address_override() {
    let mem = acpi_image(false);
    let madt = Madt::new(&mem, MADT_AT);
    assert_eq!(Apic::get_apic_addr(&madt, &mem), 0xFED0_0000);
    let apic = Apic::new(&madt, &mem);
    assert_eq!(apic.get_addr(), 0xFED0_0000);
    assert_eq!(apic.tps(), 0);
}

#[test]
fn list_apics_places_each_processor_at_its_entry_index() {
    let mem = acpi_image(false);
    let madt = Madt::new(&mem, MADT_AT);
    let list = list_apics(&madt, &mem);
    assert!(list[0].is_some());
    assert_eq!(list[0].unwrap().processor_id, 3);
    assert_eq!(list[0].unwrap().apic_id, 5);
    assert!(list[1].is_none());
    assert_eq!(list.iter().filter(|e| e.is_some()).count(), 1);
}

#[test]
fn bgrt_reads_its_fields_and_sets_version() {
    let mem = acpi_image(false);
    let mut bgrt = Bgrt::new(&mem, BGRT_AT).unwrap();
    assert_eq!(bgrt.signature(), "BGRT");
    assert_eq!(bgrt.oem_id(), "CHRLTE");
    assert_eq!(bgrt.oem_table_id(), "KERNELTB");
    assert_eq!(bgrt.revision(), 1);
    assert_eq!(bgrt.length(), Some(56));
    assert_eq!(bgrt.version(), 1);
    assert_eq!(bgrt.status(), 1);
    assert_eq!(bgrt.image_type(), 0);
    assert_eq!(bgrt.image_address(), 0x8000_0000);
    assert_eq!(bgrt.x_offset(), 100);
    assert_eq!(bgrt.y_offset(), 200);
    bgrt.set_version();
    assert_eq!(bgrt.version(), 1);
    assert!(Bgrt::new(&mem, MADT_AT).is_none());
}

#[test]
fn fadt_is_found_and_generic_addresses_decode() {
    let mem = acpi_image(false);
    assert!(Fadt::new(&mem, FADT_AT).is_some());
    assert!(Fadt::new(&mem, MADT_AT).is_none());
    let ga_bytes = [1u8, 8, 0, 3, 0, 0, 0, 0, 0x78, 0x56, 0x34, 0x12, 0, 0, 0, 0];
    let g = GenericAddress::read(&ga_bytes, 0);
    assert!(matches!(g.address_space(), AddressSpace::SystemIO));
    assert!(matches!(g.access_size(), AccessSize::DWord));
    assert_eq!(g.address(), 0x1234_5678);
    assert_eq!(g.bit_width(), 8);
    assert_eq!(g.bit_offset(), 0);
}

#[test]
fn srat_entries_are_decoded() {
    let mem = acpi_image(true);
    let srat = Srat::new(&mem, SRAT_AT).unwrap();
    assert_eq!(srat.header().signature(), "SRAT");
    let mut it = srat.iter();
    match it.next(&mem) {
        Some(SratEntry::ProcessorLocalApic(p)) => assert_eq!(p.apic_id, 9),
        other => panic!("unexpected entry {:?}", other),
    }
    assert!(Srat::new(&mem, MADT_AT).is_none());
}

#[test]
fn init_acpi_reads_every_table() {
    let mem = acpi_image(false);
    let tables = init_acpi(&mem, RSDP_AT);
    assert_eq!(tables.rsdp().rsdt_address(), RSDT_AT as u32);
    assert_eq!(tables.sdt().n_entries(), 3);
    assert_eq!(tables.madt().local_apic_addr(), 0xFEE0_0000);
    assert_eq!(tables.bgrt().image_address(), 0x8000_0000);
}

#[test]
fn checked_acpi_init_accepts_complete_tables() {
    for with_srat in [false, true] {
        let mem = acpi_image(with_srat);
        assert!(acpi_tables_check(&mem, RSDP_AT));
        let tables = try_init_acpi(&mem, RSDP_AT).expect("tables are all there");
        assert_eq!(tables.sdt().n_entries(), if with_srat { 4 } else { 3 });
        assert_eq!(tables.madt().local_apic_addr(), 0xFEE0_0000);
    }
}

#[test]
fn checked_acpi_init_refuses_missing_or_broken_tables() {
    // No RSDP where one is looked for.
    let mem = acpi_image(false);
    assert!(!acpi_tables_check(&mem, RSDP_AT + 1));
    assert!(try_init_acpi(&mem, RSDP_AT + 1).is_none());
    // RSDP too close to the end of memory.
    assert!(try_init_acpi(&mem, mem.len() - 10).is_none());
    // A broken BGRT checksum: the BGRT is no longer listed.
    let mut mem = acpi_image(false);
    mem[BGRT_AT + 40] ^= 1;
    assert!(!acpi_tables_check(&mem, RSDP_AT));
    assert!(try_init_acpi(&mem, RSDP_AT).is_none());
    // An RSDT pointer past the end of memory.
    let mut mem = acpi_image(false);
    put_u32(&mut mem, RSDT_AT + 44, 0x7F0);
    fix_checksum(&mut mem, RSDT_AT, 48, RSDT_AT + 9);
    assert!(try_init_acpi(&mem, RSDP_AT).is_none());
}

#[test]
fn madt_walk_check_follows_the_recorded_lengths() {
    let mem = acpi_image(false);
    let madt = Madt::new(&mem, MADT_AT);
    assert!(madt.entries_walkable(&mem));
    // A structure recording length zero stops the walk.
    let mut broken = mem.clone();
    broken[MADT_AT + 44 + 1] = 0;
    fix_checksum(&mut broken, MADT_AT, 64, MADT_AT + 9);
    let madt = Madt::new(&broken, MADT_AT);
    assert!(!madt.entries_walkable(&broken));
    // A structure that runs past the end of memory.
    let short = &mem[..MADT_AT + 44 + 4];
    let madt = Madt::new(&mem, MADT_AT);
    assert!(!madt.entries_walkable(short));
}
