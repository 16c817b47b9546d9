use charlotte_core::memory::address::{PhysicalAddress, VirtualAddress};
use charlotte_core::memory::page_map::{PageMap, PageTables};
use charlotte_core::memory::page_table::{PageSize, PageTable, PageTableLevel};
use charlotte_core::memory::page_table_entry::{make_addr_mask, PageTableEntry, PteFlags};
use charlotte_core::memory::pfa::{self, PhysicalMemoryType, RegionDescriptor};
use charlotte_core::memory::pmm::{
    self, MemoryMap, MemoryMapEntry, PhysicalFrameAllocator, PhysicalMemoryRegion, BAD_MEMORY, USABLE,
};
use charlotte_core::memory::Error;

const WIDTH: u8 = 52;

fn flags(fs: &[PteFlags]) -> u64 {
    fs.iter().fold(0, |acc, f| acc | f.bits())
}

#[test]
fn virtual_address_indices() {
    let v = VirtualAddress::new(0xFFFF_8000_0000_0000);
    assert_eq!(v.pml4_index(), 256);
    assert_eq!(v.pdpt_index(), 0);
    let v = VirtualAddress::new((3 << 39) | (5 << 30) | (7 << 21) | (9 << 12) | 0x123);
    assert_eq!(v.pml4_index(), 3);
    assert_eq!(v.pdpt_index(), 5);
    assert_eq!(v.pd_index(), 7);
    assert_eq!(v.pt_index(), 9);
    assert!(v.is_aligned_to(1) && !v.is_aligned_to(4096));
    assert!(VirtualAddress::new(0).is_null());
}

#[test]
fn physical_address_alignment() {
    assert!(PhysicalAddress::new(0x20_0000).is_aligned_to(0x20_0000));
    assert!(PhysicalAddress::new(0x3000).is_page_aligned());
    assert!(!PhysicalAddress::new(0x3001).is_page_aligned());
    assert_eq!(PhysicalAddress::new(0x3000).bits(), 0x3000);
}

#[test]
fn address_mask_keeps_the_frame_bits() {
    assert_eq!(make_addr_mask(52), 0x000F_FFFF_FFFF_F000);
    assert_eq!(make_addr_mask(36), 0x0000_000F_FFFF_F000);
}

#[test]
fn entry_maps_and_reads_back() {
    let mut e = PageTableEntry::new();
    assert!(!e.is_present());
    assert_eq!(e.addr(WIDTH), Err(Error::EntryNotPresent));
    let f = flags(&[PteFlags::Present, PteFlags::Write]);
    assert_eq!(e.map_page(PhysicalAddress::new(0x7000), f, PageSize::Standard, WIDTH), Ok(()));
    assert!(e.is_present());
    assert!(!e.is_size_bit_set());
    assert_eq!(e.addr(WIDTH), Ok(PhysicalAddress::new(0x7000)));
    assert_eq!(
        e.map_page(PhysicalAddress::new(0x8000), f, PageSize::Standard, WIDTH),
        Err(Error::VAddrRangeUnavailable)
    );
    assert_eq!(e.unmap(WIDTH), Ok(PhysicalAddress::new(0x7000)));
    assert!(!e.is_present());
    assert_eq!(e.unmap(WIDTH), Err(Error::EntryNotPresent));
}

#[test]
fn entry_refuses_unaligned_frames() {
    let mut e = PageTableEntry::new();
    assert_eq!(
        e.map_table(PhysicalAddress::new(0x7010), PteFlags::Present.bits(), WIDTH),
        Err(Error::InvalidPAddrAlignment)
    );
    assert_eq!(e.map_table(PhysicalAddress::new(0x7000), PteFlags::Present.bits(), WIDTH), Ok(()));
    assert_eq!(e.addr(WIDTH), Ok(PhysicalAddress::new(0x7000)));
}

#[test]
fn large_page_entry_keeps_the_size_bit() {
    let mut e = PageTableEntry::new();
    let f = flags(&[PteFlags::Present, PteFlags::PageSizeOrPat]);
    assert_eq!(e.map_page(PhysicalAddress::new(0x20_0000), f, PageSize::Large, WIDTH), Ok(()));
    assert!(e.is_size_bit_set());
}

#[test]
fn page_table_maps_pages_by_size() {
    let mut t = PageTable::new();
    let f = flags(&[PteFlags::Present, PteFlags::Write]);
    assert_eq!(t.map_page(PageSize::Standard, 1, PhysicalAddress::new(0x2000), f, WIDTH), Ok(()));
    assert_eq!(t.entry(1).addr(WIDTH), Ok(PhysicalAddress::new(0x2000)));
    assert_eq!(
        t.map_page(PageSize::Standard, 1, PhysicalAddress::new(0x3000), f, WIDTH),
        Err(Error::VAddrRangeUnavailable)
    );
    assert_eq!(
        t.map_page(PageSize::Large, 2, PhysicalAddress::new(0x1000), f, WIDTH),
        Err(Error::InvalidPAddrAlignment)
    );
    assert_eq!(
        t.map_page(PageSize::Huge, 2, PhysicalAddress::new(0x20_0000), f, WIDTH),
        Err(Error::InvalidPAddrAlignment)
    );
    assert_eq!(t.map_page(PageSize::Huge, 2, PhysicalAddress::new(0x4000_0000), f, WIDTH), Ok(()));
    assert!(!t.entry(3).is_present());
    assert_eq!(t.unmap_page(PageSize::Standard, 1, WIDTH), Ok(PhysicalAddress::new(0x2000)));
    assert_eq!(t.unmap_page(PageSize::Standard, 1, WIDTH), Err(Error::EntryNotPresent));
}

#[test]
fn page_table_maps_and_unmaps_tables() {
    let mut t = PageTable::new();
    let f = PteFlags::Present.bits();
    assert_eq!(t.map_table(4, f, PhysicalAddress::new(0x9000), WIDTH), Ok(PhysicalAddress::new(0x9000)));
    assert_eq!(t.map_table(4, f, PhysicalAddress::new(0xA000), WIDTH), Err(Error::VAddrRangeUnavailable));
    assert_eq!(t.unmap_table(4, WIDTH), Ok(PhysicalAddress::new(0x9000)));
    assert_eq!(t.unmap_table(4, WIDTH), Err(Error::EntryNotPresent));
    let big = flags(&[PteFlags::Present, PteFlags::PageSizeOrPat]);
    assert_eq!(t.map_page(PageSize::Large, 5, PhysicalAddress::new(0x20_0000), big, WIDTH), Ok(()));
    assert_eq!(t.unmap_table(5, WIDTH), Err(Error::EntryNotTable));
}

#[test]
fn get_or_map_table_maps_once_then_follows() {
    let mut t = PageTable::new();
    let v = VirtualAddress::new(6 << 39);
    let f = PteFlags::Present.bits();
    assert_eq!(
        t.get_or_map_table(v, PageTableLevel::PML4, f, PhysicalAddress::new(0xB000), WIDTH),
        Ok(PhysicalAddress::new(0xB000))
    );
    assert_eq!(
        t.get_or_map_table(v, PageTableLevel::PML4, f, PhysicalAddress::new(0xC000), WIDTH),
        Ok(PhysicalAddress::new(0xB000))
    );
    assert!(t.entry(6).is_present());
}

#[test]
fn get_or_map_table_refuses_a_large_page() {
    let mut t = PageTable::new();
    let v = VirtualAddress::new(2 << 21);
    let big = flags(&[PteFlags::Present, PteFlags::PageSizeOrPat]);
    assert_eq!(t.map_page(PageSize::Large, 2, PhysicalAddress::new(0x40_0000), big, WIDTH), Ok(()));
    assert_eq!(
        t.get_or_map_table(v, PageTableLevel::PD, big, PhysicalAddress::new(0xC000), WIDTH),
        Err(Error::VAddrRangeUnavailable)
    );
}

#[test]
fn page_map_from_cr3_and_pcid() {
    assert_eq!(PageMap::from_cr3(1 << 60, WIDTH).err(), Some(Error::InvalidAddress));
    let mut pm = PageMap::from_cr3(0x1234_5000, WIDTH).unwrap();
    assert_eq!(pm.get_pml4_paddr(), PhysicalAddress::new(0x1234_5000));
    assert_eq!(pm.get_pcid(), 0);
    assert_eq!(pm.cr3_to_load(), Err(Error::InvalidPcid));
    assert_eq!(pm.set_pcid(0x2A), Ok(()));
    assert_eq!(pm.get_pcid(), 0x2A);
    assert_eq!(pm.get_pml4_paddr(), PhysicalAddress::new(0x1234_5000));
    assert_eq!(pm.cr3_to_load(), Ok(0x1234_502A));
    assert_eq!(pm.set_pcid(7), Err(Error::AlredyHasPcid));
    assert_eq!(pm.get_pcid(), 0x2A);
    assert!(pm.is_region_available(VirtualAddress::new(0x1000), 3));
}

#[test]
fn page_map_try_new_takes_the_allocated_frame() {
    let pm = PageMap::try_new(Ok(PhysicalAddress::new(0x3000))).unwrap();
    assert_eq!(pm.cr3(), 0x3000);
    assert_eq!(
        PageMap::try_new(Err(pmm::Error::OutOfMemory)).err(),
        Some(Error::PmmError(pmm::Error::OutOfMemory))
    );
}

fn sample_map() -> MemoryMap {
    MemoryMap::get(vec![
        MemoryMapEntry { base: 0, length: 0x10_0000, entry_type: 1 },
        MemoryMapEntry { base: 0x10_0000, length: 0x80_0000, entry_type: USABLE },
        MemoryMapEntry { base: 0x90_0000, length: 0x1000, entry_type: BAD_MEMORY },
    ])
}

#[test]
fn memory_map_totals() {
    let map = sample_map();
    assert_eq!(map.total_memory(), 0x90_0000);
    assert_eq!(map.usable_memory(), 0x80_0000);
    assert_eq!(map.find_best_fit(0x1000).base, 0x10_0000);
    assert_eq!(map.iter().count(), 3);
}

#[test]
fn allocator_starts_with_the_usable_memory_free() {
    let map = sample_map();
    let pfa = PhysicalFrameAllocator::new(&map);
    assert_eq!(pfa.available_memory(), 0x80_0000);
}

#[test]
fn allocation_carves_from_the_end_and_is_given_back() {
    let map = sample_map();
    let mut pfa = PhysicalFrameAllocator::new(&map);
    let region = pfa.allocate_contiguous(4).unwrap();
    assert_eq!(region, PhysicalMemoryRegion::new(0x10_0000 + 0x80_0000 - 2 * 0x4000, 0x4000, false));
    assert_eq!(pfa.available_memory(), 0x80_0000);
    assert_eq!(pfa.deallocate(region), Ok(()));
    assert_eq!(pfa.available_memory(), 0x80_0000 + 0x4000);
}

#[test]
fn allocation_errors() {
    let map = sample_map();
    let mut pfa = PhysicalFrameAllocator::new(&map);
    assert_eq!(pfa.allocate_contiguous(0x1000), Err(pmm::Error::InsufficientMemoryAvailable));
    let stray = PhysicalMemoryRegion::new(0x5000_0000, 0x1000, false);
    assert_eq!(pfa.deallocate(stray), Err(pmm::Error::AllocatedRegionNotFound));
}

#[test]
fn region_containment() {
    let outer = PhysicalMemoryRegion::new(0x1000, 0x3000, true);
    let inner = PhysicalMemoryRegion::new(0x2000, 0x1000, false);
    assert!(outer.contains(&inner));
    assert!(!inner.contains(&outer));
}

fn descriptor_map() -> Vec<MemoryMapEntry> {
    vec![
        MemoryMapEntry { base: 0x1000, length: 0x10_0000, entry_type: 0 },
        MemoryMapEntry { base: 0x20_0000, length: 0x1000, entry_type: 4 },
        MemoryMapEntry { base: 0x30_0000, length: 0x6_4000, entry_type: 1 },
    ]
}

#[test]
fn descriptor_allocator_counts_frames_and_finds_the_largest_region() {
    let map = descriptor_map();
    assert_eq!(pfa::PhysicalFrameAllocator::detect_total_frames(&map), 356);
    assert_eq!(pfa::PhysicalFrameAllocator::get_largest_usable_region(&map), Some(map[0]));
    let none = vec![MemoryMapEntry { base: 0, length: 0x1000, entry_type: 1 }];
    assert_eq!(pfa::PhysicalFrameAllocator::get_largest_usable_region(&none), None);
}

#[test]
fn descriptor_allocator_fills_descriptors_from_the_map() {
    let map = descriptor_map();
    let p = pfa::PhysicalFrameAllocator::new(&map);
    assert_eq!(p.region_array_base(), 0x1000);
    let expected = vec![
        RegionDescriptor { base: 0x1000, n_frames: 256, region_type: PhysicalMemoryType::Usable },
        RegionDescriptor { base: 0, n_frames: 0, region_type: PhysicalMemoryType::PfaNull },
        RegionDescriptor { base: 0x30_0000, n_frames: 100, region_type: PhysicalMemoryType::Reserved },
    ];
    assert_eq!(p.regions(), &expected);
}

fn walk_address() -> VirtualAddress {
    VirtualAddress::new((1 << 39) | (2 << 30) | (3 << 21) | (4 << 12))
}

fn table_frames() -> Vec<PhysicalAddress> {
    vec![PhysicalAddress::new(0x2000), PhysicalAddress::new(0x3000), PhysicalAddress::new(0x4000)]
}

#[test]
fn page_tables_store_tables_by_frame() {
    let mut tables = PageTables::new();
    assert!(!tables.table(0x5000).entry(0).is_present());
    let mut t = PageTable::new();
    t.set_entry(7, PageTableEntry::from_bits(0x9003));
    tables.set_table(0x5000, t);
    assert_eq!(tables.table(0x5000).entry(7).raw(), 0x9003);
    assert_eq!(tables.table(0x6000).entry(7).raw(), 0);
}

#[test]
fn mapping_a_page_builds_the_walk_and_unmapping_gives_the_frame_back() {
    let mut tables = PageTables::new();
    let pm = PageMap::from_cr3(0x1000, WIDTH).unwrap();
    let v = walk_address();
    let f = flags(&[PteFlags::Present, PteFlags::Write]);
    let frames = table_frames();
    assert_eq!(pm.map_page(&mut tables, v, PhysicalAddress::new(0x9000), f, &frames, WIDTH), Ok(()));
    assert_eq!(tables.table(0x1000).entry(1).addr(WIDTH), Ok(PhysicalAddress::new(0x2000)));
    assert_eq!(tables.table(0x2000).entry(2).addr(WIDTH), Ok(PhysicalAddress::new(0x3000)));
    assert_eq!(tables.table(0x3000).entry(3).addr(WIDTH), Ok(PhysicalAddress::new(0x4000)));
    assert_eq!(tables.table(0x4000).entry(4).addr(WIDTH), Ok(PhysicalAddress::new(0x9000)));
    assert_eq!(pm.walk(&mut tables, v, f, &frames, 3, WIDTH), Ok(0x4000));
    assert_eq!(
        pm.map_page(&mut tables, v, PhysicalAddress::new(0xA000), f, &frames, WIDTH),
        Err(Error::VAddrRangeUnavailable)
    );
    assert_eq!(pm.unmap_page(&mut tables, v, &frames, WIDTH), Ok(PhysicalAddress::new(0x9000)));
    assert!(!tables.table(0x4000).entry(4).is_present());
    assert_eq!(pm.unmap_page(&mut tables, v, &frames, WIDTH), Err(Error::EntryNotPresent));
}

#[test]
fn mapping_refuses_bad_virtual_addresses() {
    let mut tables = PageTables::new();
    let pm = PageMap::from_cr3(0x1000, WIDTH).unwrap();
    let f = PteFlags::Present.bits();
    let frames = table_frames();
    assert_eq!(
        pm.map_page(&mut tables, VirtualAddress::new(0x1234), PhysicalAddress::new(0x9000), f, &frames, WIDTH),
        Err(Error::InvalidVAddrAlignment)
    );
    assert_eq!(
        pm.map_page(&mut tables, VirtualAddress::new(0), PhysicalAddress::new(0x9000), f, &frames, WIDTH),
        Err(Error::InvalidAddress)
    );
    assert!(!tables.table(0x1000).entry(0).is_present());
}

#[test]
fn large_and_huge_pages() {
    let mut tables = PageTables::new();
    let pm = PageMap::from_cr3(0x1000, WIDTH).unwrap();
    let v = walk_address();
    let f = PteFlags::Present.bits();
    let frames = table_frames();
    assert_eq!(pm.map_large_page(&mut tables, v, PhysicalAddress::new(0x20_0000), f, &frames, WIDTH), Ok(()));
    assert_eq!(tables.table(0x3000).entry(3).addr(WIDTH), Ok(PhysicalAddress::new(0x20_0000)));
    assert_eq!(pm.unmap_large_page(&mut tables, v, &frames, WIDTH), Ok(PhysicalAddress::new(0x20_0000)));
    assert_eq!(
        pm.map_large_page(&mut tables, v, PhysicalAddress::new(0x1000), f, &frames, WIDTH),
        Err(Error::InvalidPAddrAlignment)
    );
    assert_eq!(
        pm.map_huge_page(&mut tables, v, PhysicalAddress::new(0x4000_0000), f, &frames, false, WIDTH),
        Err(Error::UnsupportedOperation)
    );
    assert_eq!(
        pm.map_huge_page(&mut tables, v, PhysicalAddress::new(0x4000_0000), f, &frames, true, WIDTH),
        Err(Error::VAddrRangeUnavailable)
    );
    let h = VirtualAddress::new((1 << 39) | (5 << 30));
    assert_eq!(pm.map_huge_page(&mut tables, h, PhysicalAddress::new(0x4000_0000), f, &frames, true, WIDTH), Ok(()));
    assert_eq!(tables.table(0x2000).entry(5).addr(WIDTH), Ok(PhysicalAddress::new(0x4000_0000)));
    assert_eq!(pm.unmap_huge_page(&mut tables, h, &frames, true, WIDTH), Ok(PhysicalAddress::new(0x4000_0000)));
    assert_eq!(
        pm.unmap_huge_page(&mut tables, v, &frames, false, WIDTH),
        Err(Error::UnsupportedOperation)
    );
}

#[test]
fn memory_map_seeding_check() {
    assert!(sample_map().seeds_allocator());
    // No usable entry can hold the slot array.
    let bad_only = MemoryMap::get(vec![MemoryMapEntry { base: 0, length: 0x100_0000, entry_type: 1 }]);
    assert!(!bad_only.seeds_allocator());
    // Lengths that overflow 64 bits.
    let huge = MemoryMap::get(vec![
        MemoryMapEntry { base: 0, length: u64::MAX, entry_type: USABLE },
        MemoryMapEntry { base: 0, length: 2, entry_type: USABLE },
    ]);
    assert!(!huge.seeds_allocator());
}

#[test]
fn allocator_call_checks() {
    let map = sample_map();
    let mut pfa = PhysicalFrameAllocator::new(&map);
    assert!(pfa.can_allocate_contiguous(4));
    assert!(!pfa.can_allocate_contiguous(usize::MAX));
    let region = pfa.allocate_contiguous(4).unwrap();
    assert!(pfa.can_deallocate(region));
    let stray = PhysicalMemoryRegion::new(0x5000_0000, 0x1000, false);
    assert!(pfa.can_deallocate(stray));
    let wrapping = PhysicalMemoryRegion::new(usize::MAX - 0x10, 0x1000, false);
    assert!(!pfa.can_deallocate(wrapping));
}

#[test]
fn usable_memory_is_within_total_memory() {
    let map = sample_map();
    assert!(map.usable_memory() <= map.total_memory());
}

#[test]
fn descriptor_init_skips_bad_entries_past_the_array() {
    let mut p = pfa::PhysicalFrameAllocator::with_array(0x1000, 2);
    let map = vec![
        MemoryMapEntry { base: 0x1000, length: 0x2000, entry_type: 0 },
        MemoryMapEntry { base: 0x8000, length: 0x1000, entry_type: 1 },
        MemoryMapEntry { base: 0x20_0000, length: 0x1000, entry_type: 4 },
    ];
    p.init(&map);
    let expected = vec![
        RegionDescriptor { base: 0x1000, n_frames: 2, region_type: PhysicalMemoryType::Usable },
        RegionDescriptor { base: 0x8000, n_frames: 1, region_type: PhysicalMemoryType::Reserved },
    ];
    assert_eq!(p.regions(), &expected);
}
