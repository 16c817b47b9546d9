//! The region-descriptor frame allocator: an array of descriptors of physical memory
//! regions, placed in the largest usable region of the memory map and filled from the
//! map.

use vstd::prelude::*;

use super::pmm::{functional_length_sum, lemma_functional_sum_prefix, MemoryMapEntry, BAD_MEMORY, USABLE};

verus! {

/// The kinds of physical memory region the allocator manages: those of the memory
/// map, one for the memory holding the allocator's own descriptors, and one for a
/// descriptor that describes nothing.
#[derive(Copy, Clone, Debug, PartialEq, Eq)]
pub enum PhysicalMemoryType {
    Usable,
    Reserved,
    AcpiReclaimable,
    AcpiNvs,
    BadMemory,
    BootloaderReclaimable,
    KernelAndModules,
    FrameBuffer,
    PfaReserved,
    PfaNull,
}

/// The region kind of a memory map entry type; unknown types count as bad memory.
pub open spec fn memory_type_of(entry_type: u64) -> PhysicalMemoryType {
    if entry_type == 0 {
        PhysicalMemoryType::Usable
    } else if entry_type == 1 {
        PhysicalMemoryType::Reserved
    } else if entry_type == 2 {
        PhysicalMemoryType::AcpiReclaimable
    } else if entry_type == 3 {
        PhysicalMemoryType::AcpiNvs
    } else if entry_type == 5 {
        PhysicalMemoryType::BootloaderReclaimable
    } else if entry_type == 6 {
        PhysicalMemoryType::KernelAndModules
    } else if entry_type == 7 {
        PhysicalMemoryType::FrameBuffer
    } else {
        PhysicalMemoryType::BadMemory
    }
}

/// A descriptor of a region of physical memory.
#[derive(Copy, Clone, Debug, PartialEq, Eq)]
pub struct RegionDescriptor {
    pub base: usize,
    pub n_frames: usize,
    pub region_type: PhysicalMemoryType,
}

/// The descriptor of a memory map entry.
pub open spec fn descriptor_of(e: MemoryMapEntry) -> RegionDescriptor {
    RegionDescriptor {
        base: e.base as usize,
        n_frames: (e.length / 4096) as usize,
        region_type: memory_type_of(e.entry_type),
    }
}

/// The descriptor that describes nothing.
pub open spec fn null_descriptor() -> RegionDescriptor {
    RegionDescriptor { base: 0, n_frames: 0, region_type: PhysicalMemoryType::PfaNull }
}

/// The number of region descriptors per frame of memory: the array gets one
/// descriptor for every this many frames.
pub const ALLOCATION_FACTOR: usize = 100;

/// The number of bytes a region descriptor takes in memory.
pub const REGION_DESCRIPTOR_BYTES: u64 = 40;

/// Entry `j` is the first of the longest usable entries.
pub open spec fn is_largest_usable_entry(s: Seq<MemoryMapEntry>, j: int) -> bool {
    &&& 0 <= j < s.len()
    &&& s[j].entry_type == USABLE
    &&& forall|k: int| 0 <= k < s.len() && #[trigger] s[k].entry_type == USABLE ==> s[k].length <= s[j].length
    &&& forall|k: int| 0 <= k < j && #[trigger] s[k].entry_type == USABLE ==> s[k].length < s[j].length
}

/// Some entry of the map is usable.
pub open spec fn has_usable_entry(s: Seq<MemoryMapEntry>) -> bool {
    exists|k: int| 0 <= k < s.len() && #[trigger] s[k].entry_type == USABLE
}

/// The descriptors `init` leaves: entry `i` of the map gives descriptor `i` unless it
/// is bad memory, in which case that descriptor is left as it was; the descriptors
/// past the map describe nothing.
pub open spec fn initialized_descriptors(
    old_descriptors: Seq<RegionDescriptor>,
    map: Seq<MemoryMapEntry>,
) -> Seq<RegionDescriptor> {
    Seq::new(
        old_descriptors.len(),
        |i: int|
            if i < map.len() {
                if map[i].entry_type != BAD_MEMORY {
                    descriptor_of(map[i])
                } else {
                    old_descriptors[i]
                }
            } else {
                null_descriptor()
            },
    )
}

/// The kind `init` records for a memory map entry follows the bootloader's entry
/// types: a descriptor is usable exactly when its entry's type is 0 (usable), and
/// likewise reserved for 1, ACPI reclaimable for 2, ACPI NVS for 3, bootloader
/// reclaimable for 5, kernel and modules for 6 and framebuffer for 7; every other
/// entry type is bad memory. Descriptors are never marked as the allocator's own or
/// as describing nothing by an entry.
pub proof fn lemma_descriptor_kinds(old_descriptors: Seq<RegionDescriptor>, map: Seq<MemoryMapEntry>, i: int)
    requires
        0 <= i < old_descriptors.len(),
        i < map.len(),
        map[i].entry_type != BAD_MEMORY,
    ensures
        ({
            let k = initialized_descriptors(old_descriptors, map)[i].region_type;
            let t = map[i].entry_type;
            &&& (k == PhysicalMemoryType::Usable) <==> t == 0
            &&& (k == PhysicalMemoryType::Reserved) <==> t == 1
            &&& (k == PhysicalMemoryType::AcpiReclaimable) <==> t == 2
            &&& (k == PhysicalMemoryType::AcpiNvs) <==> t == 3
            &&& (k == PhysicalMemoryType::BootloaderReclaimable) <==> t == 5
            &&& (k == PhysicalMemoryType::KernelAndModules) <==> t == 6
            &&& (k == PhysicalMemoryType::FrameBuffer) <==> t == 7
            &&& (k == PhysicalMemoryType::BadMemory) <==> t > 7
            &&& k != PhysicalMemoryType::PfaReserved
            &&& k != PhysicalMemoryType::PfaNull
            &&& initialized_descriptors(old_descriptors, map)[i].base == map[i].base as usize
            &&& initialized_descriptors(old_descriptors, map)[i].n_frames == (map[i].length / 4096) as usize
        }),
{
}

/// The frame allocator of region descriptors.
pub struct PhysicalFrameAllocator {
    region_array_base: usize,
    region_array: Vec<RegionDescriptor>,
}

impl PhysicalFrameAllocator {
    /// The physical base address of the descriptor array.
    pub closed spec fn spec_region_array_base(&self) -> usize {
        self.region_array_base
    }

    /// The descriptors.
    pub closed spec fn spec_regions(&self) -> Seq<RegionDescriptor> {
        self.region_array@
    }

    /// The physical base address of the descriptor array.
    pub fn region_array_base(&self) -> (b: usize)
        ensures
            b == self.spec_region_array_base(),
    {
        self.region_array_base
    }

    /// The descriptors.
    pub fn regions(&self) -> (r: &Vec<RegionDescriptor>)
        ensures
            r@ == self.spec_regions(),
    {
        &self.region_array
    }

    /// An allocator whose `len` descriptors at `region_array_base` all describe
    /// nothing yet.
    pub fn with_array(region_array_base: usize, len: usize) -> (pfa: Self)
        ensures
            pfa.spec_region_array_base() == region_array_base,
            pfa.spec_regions() == Seq::new(len as nat, |i: int| null_descriptor()),
    {
        let mut region_array: Vec<RegionDescriptor> = Vec::new();
        for i in 0..len
            invariant
                region_array@ == Seq::new(i as nat, |k: int| null_descriptor()),
        {
            region_array.push(RegionDescriptor { base: 0, n_frames: 0, region_type: PhysicalMemoryType::PfaNull });
            assert(region_array@ =~= Seq::new((i + 1) as nat, |k: int| null_descriptor()));
        }
        PhysicalFrameAllocator { region_array_base, region_array }
    }

    /// Builds the allocator from the memory map: its descriptor array, one descriptor
    /// per `ALLOCATION_FACTOR` frames of functional memory, goes at the base of the
    /// longest usable region, and is filled by `init`. There must be a usable region,
    /// and it must be long enough for the array; entries past the array's end must be
    /// bad memory.
    pub fn new(memory_map: &[MemoryMapEntry]) -> (pfa: Self)
        requires
            has_usable_entry(memory_map@),
            functional_length_sum(memory_map@) <= usize::MAX,
            forall|j: int| #[trigger] is_largest_usable_entry(memory_map@, j)
                ==> functional_length_sum(memory_map@) / 4096 / (ALLOCATION_FACTOR as int)
                    <= memory_map@[j].length / REGION_DESCRIPTOR_BYTES,
            forall|i: int|
                functional_length_sum(memory_map@) / 4096 / (ALLOCATION_FACTOR as int) <= i < memory_map@.len()
                    ==> #[trigger] memory_map@[i].entry_type == BAD_MEMORY,
        ensures
            exists|j: int| {
                &&& #[trigger] is_largest_usable_entry(memory_map@, j)
                &&& pfa.spec_region_array_base() == memory_map@[j].base as usize
            },
            pfa.spec_regions() == initialized_descriptors(
                Seq::new(
                    (functional_length_sum(memory_map@) / 4096 / (ALLOCATION_FACTOR as int)) as nat,
                    |i: int| null_descriptor(),
                ),
                memory_map@,
            ),
    {
        let largest = Self::get_largest_usable_region(memory_map);
        let largest = match largest {
            Some(l) => l,
            None => {
                proof {
                    let k = choose|k: int| 0 <= k < memory_map@.len() && #[trigger] memory_map@[k].entry_type == USABLE;
                    assert(memory_map@[k].entry_type == USABLE);
                }
                return Self::with_array(0, 0);
            },
        };
        let init_region_array_len = Self::detect_total_frames(memory_map) / ALLOCATION_FACTOR;
        let mut pfa = Self::with_array(largest.base as usize, init_region_array_len);
        pfa.init(memory_map);
        pfa
    }

    /// The number of frames of memory that is not reported bad, usable or not.
    pub fn detect_total_frames(memory_map: &[MemoryMapEntry]) -> (n: usize)
        requires
            functional_length_sum(memory_map@) <= usize::MAX,
        ensures
            n == functional_length_sum(memory_map@) / 4096,
    {
        let mut total_memory: usize = 0;
        let mut i: usize = 0;
        while i < memory_map.len()
            invariant
                i <= memory_map@.len(),
                total_memory == functional_length_sum(memory_map@.subrange(0, i as int)),
                functional_length_sum(memory_map@) <= usize::MAX,
            decreases memory_map@.len() - i,
        {
            proof {
                lemma_functional_sum_prefix(memory_map@, i as int + 1);
                assert(memory_map@.subrange(0, i + 1).drop_last() =~= memory_map@.subrange(0, i as int));
            }
            if memory_map[i].entry_type != BAD_MEMORY {
                total_memory = total_memory + memory_map[i].length as usize;
            }
            i = i + 1;
        }
        assert(memory_map@.subrange(0, memory_map@.len() as int) =~= memory_map@);
        total_memory / 4096
    }

    /// The first of the longest usable entries of the map, if any is usable.
    pub fn get_largest_usable_region(memory_map: &[MemoryMapEntry]) -> (r: Option<MemoryMapEntry>)
        ensures
            r is None <==> !has_usable_entry(memory_map@),
            r matches Some(e) ==> exists|j: int| #[trigger] is_largest_usable_entry(memory_map@, j) && memory_map@[j] == e,
    {
        let mut largest: Option<usize> = None;
        let mut i: usize = 0;
        while i < memory_map.len()
            invariant
                i <= memory_map@.len(),
                largest is None ==> forall|k: int| 0 <= k < i ==> #[trigger] memory_map@[k].entry_type != USABLE,
                largest matches Some(j) ==> j < i && is_largest_usable_entry(memory_map@.subrange(0, i as int), j as int),
            decreases memory_map@.len() - i,
        {
            if memory_map[i].entry_type == USABLE {
                match largest {
                    Some(j) => {
                        if memory_map[i].length > memory_map[j].length {
                            largest = Some(i);
                        }
                    },
                    None => {
                        largest = Some(i);
                    },
                }
            }
            proof {
                let t = memory_map@.subrange(0, i + 1);
                match largest {
                    Some(j) => {
                        assert(t[j as int] == memory_map@[j as int]);
                        assert forall|k: int| 0 <= k < t.len() && #[trigger] t[k].entry_type == USABLE implies t[k].length <= t[j as int].length by {
                            assert(t[k] == memory_map@[k]);
                            if k < i {
                                assert(memory_map@.subrange(0, i as int)[k] == memory_map@[k]);
                            }
                        }
                        assert forall|k: int| 0 <= k < j && #[trigger] t[k].entry_type == USABLE implies t[k].length < t[j as int].length by {
                            assert(t[k] == memory_map@[k]);
                            assert(memory_map@.subrange(0, i as int)[k] == memory_map@[k]);
                        }
                    },
                    None => {},
                }
            }
            i = i + 1;
        }
        assert(memory_map@.subrange(0, memory_map@.len() as int) =~= memory_map@);
        match largest {
            Some(j) => Some(memory_map[j]),
            None => None,
        }
    }

    /// Fills the descriptor array from the memory map: each entry that is not bad
    /// memory gives the descriptor of the same index, and the descriptors past the map
    /// describe nothing. Entries past the end of the array must be bad memory.
    pub fn init(&mut self, memory_map: &[MemoryMapEntry])
        requires
            forall|i: int|
                old(self).spec_regions().len() <= i < memory_map@.len() ==> #[trigger] memory_map@[i].entry_type
                    == BAD_MEMORY,
        ensures
            final(self).spec_region_array_base() == old(self).spec_region_array_base(),
            final(self).spec_regions() == initialized_descriptors(old(self).spec_regions(), memory_map@),
    {
        let ghost old_regions = self.region_array@;
        let mut i: usize = 0;
        while i < memory_map.len()
            invariant
                i <= memory_map@.len(),
                forall|k: int| old_regions.len() <= k < memory_map@.len() ==> #[trigger] memory_map@[k].entry_type == BAD_MEMORY,
                self.region_array@.len() == old_regions.len(),
                self.region_array_base == old(self).spec_region_array_base(),
                forall|k: int|
                    0 <= k < i && k < old_regions.len() ==> #[trigger] self.region_array@[k] == initialized_descriptors(
                        old_regions,
                        memory_map@,
                    )[k],
                forall|k: int| i <= k < old_regions.len() ==> #[trigger] self.region_array@[k] == old_regions[k],
            decreases memory_map@.len() - i,
        {
            let entry = memory_map[i];
            if entry.entry_type != BAD_MEMORY {
                let region_type = match entry.entry_type {
                    0 => PhysicalMemoryType::Usable,
                    1 => PhysicalMemoryType::Reserved,
                    2 => PhysicalMemoryType::AcpiReclaimable,
                    3 => PhysicalMemoryType::AcpiNvs,
                    5 => PhysicalMemoryType::BootloaderReclaimable,
                    6 => PhysicalMemoryType::KernelAndModules,
                    7 => PhysicalMemoryType::FrameBuffer,
                    _ => PhysicalMemoryType::BadMemory,
                };
                self.region_array.set(
                    i,
                    RegionDescriptor { base: entry.base as usize, n_frames: (entry.length / 4096) as usize, region_type },
                );
            }
            i = i + 1;
        }
        let len = self.region_array.len();
        let mut i: usize = if memory_map.len() < len { memory_map.len() } else { len };
        while i < len
            invariant
                memory_map@.len() <= i <= len || i == len,
                len == old_regions.len(),
                self.region_array@.len() == old_regions.len(),
                self.region_array_base == old(self).spec_region_array_base(),
                forall|k: int| 0 <= k < i ==> #[trigger] self.region_array@[k] == initialized_descriptors(old_regions, memory_map@)[k],
            decreases len - i,
        {
            self.region_array.set(i, RegionDescriptor { base: 0, n_frames: 0, region_type: PhysicalMemoryType::PfaNull });
            i = i + 1;
        }
        assert(self.region_array@ =~= initialized_descriptors(old_regions, memory_map@));
    }
}

} // verus!
