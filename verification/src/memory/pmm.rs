//! Physical memory manager: the bootloader's memory map and the physical frame
//! allocator, which keeps an array of regions of physical memory.

use vstd::prelude::*;
use vstd::std_specs::iter::IteratorSpec;

verus! {

pub type PhysicalAddress = usize;

/// Size of a physical frame.
pub const FRAME_SIZE: usize = 4096;

/// Memory map entry type of usable memory.
pub const USABLE: u64 = 0;

/// Memory map entry type of memory reported as bad.
pub const BAD_MEMORY: u64 = 4;

/// An entry of the bootloader's memory map.
#[derive(Copy, Clone, Debug, PartialEq, Eq)]
pub struct MemoryMapEntry {
    pub base: u64,
    pub length: u64,
    pub entry_type: u64,
}

/// Sum of the lengths of the entries that are not bad memory.
pub open spec fn functional_length_sum(s: Seq<MemoryMapEntry>) -> int
    decreases s.len(),
{
    if s.len() == 0 {
        0
    } else {
        functional_length_sum(s.drop_last()) + if s.last().entry_type != BAD_MEMORY {
            s.last().length as int
        } else {
            0
        }
    }
}

/// Sum of the lengths of the usable entries.
pub open spec fn usable_length_sum(s: Seq<MemoryMapEntry>) -> int
    decreases s.len(),
{
    if s.len() == 0 {
        0
    } else {
        usable_length_sum(s.drop_last()) + if s.last().entry_type == USABLE {
            s.last().length as int
        } else {
            0
        }
    }
}

/// Entry `j` is usable and at least `size` bytes long.
pub open spec fn entry_fits(s: Seq<MemoryMapEntry>, size: usize, j: int) -> bool {
    &&& 0 <= j < s.len()
    &&& s[j].entry_type == USABLE
    &&& s[j].length as usize >= size
}

/// Entry `j` is the first of the shortest usable entries of at least `size` bytes.
pub open spec fn is_best_fit_entry(s: Seq<MemoryMapEntry>, size: usize, j: int) -> bool {
    &&& entry_fits(s, size, j)
    &&& forall|k: int| #[trigger] entry_fits(s, size, k) ==> s[j].length <= s[k].length
    &&& forall|k: int| 0 <= k < j && #[trigger] entry_fits(s, size, k) ==> s[j].length < s[k].length
}

/// The bootloader's memory map.
pub struct MemoryMap {
    entries: Vec<MemoryMapEntry>,
}

impl View for MemoryMap {
    type V = Seq<MemoryMapEntry>;

    closed spec fn view(&self) -> Seq<MemoryMapEntry> {
        self.entries@
    }
}

impl MemoryMap {
    /// The memory map made of the entries the bootloader handed over.
    pub fn get(entries: Vec<MemoryMapEntry>) -> (m: MemoryMap)
        ensures
            m@ == entries@,
    {
        MemoryMap { entries }
    }

    /// Bytes of memory that is not reported bad, usable or not.
    pub fn total_memory(&self) -> (r: usize)
        requires
            functional_length_sum(self@) <= u64::MAX,
        ensures
            r == functional_length_sum(self@) as u64 as usize,
    {
        let mut sum: u64 = 0;
        let mut i: usize = 0;
        while i < self.entries.len()
            invariant
                i <= self@.len(),
                sum == functional_length_sum(self@.subrange(0, i as int)),
                functional_length_sum(self@) <= u64::MAX,
            decreases self@.len() - i,
        {
            proof {
                lemma_functional_sum_prefix(self@, i as int + 1);
                assert(self@.subrange(0, i + 1).drop_last() =~= self@.subrange(0, i as int));
            }
            if self.entries[i].entry_type != BAD_MEMORY {
                sum = sum + self.entries[i].length;
            }
            i = i + 1;
        }
        assert(self@.subrange(0, self@.len() as int) =~= self@);
        sum as usize
    }

    /// Whether the map can seed a frame allocator (see `memory_map_seeds_allocator`).
    pub fn seeds_allocator(&self) -> (ok: bool)
        ensures
            ok == memory_map_seeds_allocator(self@),
    {
        let ghost e = self@;
        let n = self.entries.len();
        let mut sum: u64 = 0;
        let mut i: usize = 0;
        while i < n
            invariant
                i <= n == e.len(),
                e == self@,
                sum == functional_length_sum(e.subrange(0, i as int)),
            decreases n - i,
        {
            proof {
                lemma_functional_sum_prefix(e, i as int + 1);
                assert(e.subrange(0, i + 1).drop_last() =~= e.subrange(0, i as int));
            }
            if self.entries[i].entry_type != BAD_MEMORY {
                if sum > u64::MAX - self.entries[i].length {
                    return false;
                }
                sum = sum + self.entries[i].length;
            }
            i = i + 1;
        }
        assert(e.subrange(0, n as int) =~= e);
        let total = sum as usize;
        if total / FRAME_SIZE > usize::MAX / REGION_RECORD_SIZE {
            assert((total / FRAME_SIZE) * REGION_RECORD_SIZE > usize::MAX) by (nonlinear_arith)
                requires total / FRAME_SIZE > usize::MAX / REGION_RECORD_SIZE;
            return false;
        }
        assert((total / FRAME_SIZE) * REGION_RECORD_SIZE <= usize::MAX) by (nonlinear_arith)
            requires total / FRAME_SIZE <= usize::MAX / REGION_RECORD_SIZE;
        let size = ((total / FRAME_SIZE) * REGION_RECORD_SIZE) / ESTIMATED_AVG_REGION_SIZE;
        assert(size == region_array_size(total));
        // Whether some usable entry can hold the slot array.
        let mut found = false;
        let mut k: usize = 0;
        while k < n
            invariant
                k <= n == e.len(),
                e == self@,
                found ==> exists|j: int| #[trigger] entry_fits(e, size, j),
                !found ==> forall|j: int| 0 <= j < k ==> !#[trigger] entry_fits(e, size, j),
            decreases n - k,
        {
            if self.entries[k].entry_type == USABLE && self.entries[k].length as usize >= size {
                assert(entry_fits(e, size, k as int));
                found = true;
            }
            k = k + 1;
        }
        if !found {
            assert forall|j: int| !#[trigger] entry_fits(e, size, j) by {}
            return false;
        }
        let best = self.find_best_fit(size);
        let ghost jb = choose|j: int| is_best_fit_entry(e, size, j) && *best == e[j];
        assert forall|j2: int| #[trigger] is_best_fit_entry(e, size, j2) implies e[j2] == e[jb] by {
            if j2 < jb {
                assert(entry_fits(e, size, j2));
            } else if j2 > jb {
                assert(entry_fits(e, size, jb));
            }
        }
        if best.base > u64::MAX - best.length || best.base + best.length < size as u64 {
            return false;
        }
        // The usable entries as regions: how many there are and whether each fits.
        let mut count: usize = 0;
        let mut fit = true;
        let mut m: usize = 0;
        while m < n
            invariant
                m <= n == e.len(),
                e == self@,
                count == usable_regions(e.subrange(0, m as int)).len(),
                count <= m,
                fit == regions_fit(usable_regions(e.subrange(0, m as int))),
            decreases n - m,
        {
            proof {
                lemma_usable_regions_step(e, m as int);
            }
            let entry = &self.entries[m];
            if entry.entry_type == USABLE {
                let ghost before = usable_regions(e.subrange(0, m as int));
                let ghost x = Some(PhysicalMemoryRegion { base: entry.base as usize, size: entry.length as usize, is_available: true });
                let ghost after = before + seq![x];
                let b = entry.base as usize;
                let l = entry.length as usize;
                let this_fits = b <= usize::MAX - l;
                assert(regions_fit(after) == (regions_fit(before) && this_fits)) by {
                    if regions_fit(after) {
                        assert forall|q: int| 0 <= q < before.len() && #[trigger] before[q] is Some implies before[q]->0.base
                            + before[q]->0.size <= usize::MAX by {
                            assert(after[q] == before[q]);
                        }
                        assert(after[before.len() as int] == x);
                    }
                }
                fit = fit && this_fits;
                count = count + 1;
            }
            m = m + 1;
        }
        assert(e.subrange(0, n as int) =~= e);
        count < size && fit
    }

    /// Bytes of usable memory.
    pub fn usable_memory(&self) -> (r: usize)
        requires
            usable_length_sum(self@) <= u64::MAX,
        ensures
            r == usable_length_sum(self@) as u64 as usize,
    {
        let mut sum: u64 = 0;
        let mut i: usize = 0;
        while i < self.entries.len()
            invariant
                i <= self@.len(),
                sum == usable_length_sum(self@.subrange(0, i as int)),
                usable_length_sum(self@) <= u64::MAX,
            decreases self@.len() - i,
        {
            proof {
                lemma_usable_sum_prefix(self@, i as int + 1);
                assert(self@.subrange(0, i + 1).drop_last() =~= self@.subrange(0, i as int));
            }
            if self.entries[i].entry_type == USABLE {
                sum = sum + self.entries[i].length;
            }
            i = i + 1;
        }
        assert(self@.subrange(0, self@.len() as int) =~= self@);
        sum as usize
    }

    /// The entries, in order.
    pub fn iter(&self) -> (it: core::slice::Iter<'_, MemoryMapEntry>)
        ensures
            it.remaining() == self@.as_ref(),
    {
        let slice = self.entries.as_slice();
        let it = slice.iter();
        proof {
            vstd::std_specs::slice::axiom_spec_slice_iter(slice);
        }
        it
    }

    /// The first of the shortest usable entries of at least `size` bytes; there must
    /// be one.
    pub fn find_best_fit(&self, size: usize) -> (e: &MemoryMapEntry)
        requires
            exists|j: int| entry_fits(self@, size, j),
        ensures
            exists|j: int| is_best_fit_entry(self@, size, j) && *e == self@[j],
    {
        let mut best: Option<usize> = None;
        let mut i: usize = 0;
        while i < self.entries.len()
            invariant
                i <= self@.len(),
                match best {
                    None => forall|k: int| 0 <= k < i ==> !#[trigger] entry_fits(self@, size, k),
                    Some(b) => {
                        &&& b < i
                        &&& entry_fits(self@, size, b as int)
                        &&& forall|k: int| 0 <= k < i && #[trigger] entry_fits(self@, size, k) ==> self@[b as int].length <= self@[k].length
                        &&& forall|k: int| 0 <= k < b && #[trigger] entry_fits(self@, size, k) ==> self@[b as int].length < self@[k].length
                    },
                },
            decreases self@.len() - i,
        {
            let e = &self.entries[i];
            if e.entry_type == USABLE && e.length as usize >= size {
                match best {
                    None => {
                        best = Some(i);
                    },
                    Some(b) => {
                        if e.length < self.entries[b].length {
                            best = Some(i);
                        }
                    },
                }
            }
            i = i + 1;
        }
        let b = best.unwrap();
        &self.entries[b]
    }
}

/// The lengths of a prefix of the map add up to no more than those of the whole map.
pub proof fn lemma_functional_sum_prefix(s: Seq<MemoryMapEntry>, i: int)
    requires
        0 <= i <= s.len(),
    ensures
        functional_length_sum(s.subrange(0, i)) <= functional_length_sum(s),
    decreases s.len() - i,
{
    if i < s.len() {
        lemma_functional_sum_prefix(s, i + 1);
        assert(s.subrange(0, i + 1).drop_last() =~= s.subrange(0, i));
    } else {
        assert(s.subrange(0, i) =~= s);
    }
}

/// Usable memory is part of the memory that is not bad: the usable total is at most
/// the functional total, and so are the amounts `usable_memory` and `total_memory`
/// report when the functional total fits in a `usize`.
pub proof fn lemma_usable_within_total(s: Seq<MemoryMapEntry>)
    ensures
        0 <= usable_length_sum(s) <= functional_length_sum(s),
        functional_length_sum(s) <= usize::MAX ==> usable_length_sum(s) as u64 as usize
            <= functional_length_sum(s) as u64 as usize,
    decreases s.len(),
{
    if s.len() > 0 {
        lemma_usable_within_total(s.drop_last());
    }
}

proof fn lemma_usable_sum_prefix(s: Seq<MemoryMapEntry>, i: int)
    requires
        0 <= i <= s.len(),
    ensures
        usable_length_sum(s.subrange(0, i)) <= usable_length_sum(s),
    decreases s.len() - i,
{
    if i < s.len() {
        lemma_usable_sum_prefix(s, i + 1);
        assert(s.subrange(0, i + 1).drop_last() =~= s.subrange(0, i));
    } else {
        assert(s.subrange(0, i) =~= s);
    }
}

/// A region of physical memory and whether it is free.
#[derive(Debug, Clone, Copy, PartialEq, Eq)]
pub struct PhysicalMemoryRegion {
    pub base: PhysicalAddress,
    pub size: usize,
    pub is_available: bool,
}

impl PhysicalMemoryRegion {
    pub fn new(base: PhysicalAddress, size: usize, is_available: bool) -> (r: Self)
        ensures
            r == (PhysicalMemoryRegion { base, size, is_available }),
    {
        PhysicalMemoryRegion { base, size, is_available }
    }

    /// Whether `other` lies within this region.
    pub fn contains(&self, other: &Self) -> (r: bool)
        requires
            self.base + self.size <= usize::MAX,
            other.base + other.size <= usize::MAX,
        ensures
            r == region_contains(*self, *other),
    {
        self.base <= other.base && self.base + self.size >= other.base + other.size
    }
}

/// `inner` lies within `outer`.
pub open spec fn region_contains(outer: PhysicalMemoryRegion, inner: PhysicalMemoryRegion) -> bool {
    outer.base <= inner.base && outer.base + outer.size >= inner.base + inner.size
}

/// The slot holds a free region.
pub open spec fn is_avail(o: Option<PhysicalMemoryRegion>) -> bool {
    o matches Some(r) && r.is_available
}

/// The size a slot contributes to the free memory.
pub open spec fn avail_size(o: Option<PhysicalMemoryRegion>) -> int {
    match o {
        Some(r) => if r.is_available { r.size as int } else { 0 },
        None => 0,
    }
}

/// Bytes of free memory the slots record.
pub open spec fn available_total(s: Seq<Option<PhysicalMemoryRegion>>) -> int {
    s.fold_left(0int, |acc: int, o: Option<PhysicalMemoryRegion>| acc + avail_size(o))
}

/// No region wraps around the end of the address space.
pub open spec fn regions_fit(s: Seq<Option<PhysicalMemoryRegion>>) -> bool {
    forall|i: int| 0 <= i < s.len() && #[trigger] s[i] is Some ==> s[i]->0.base + s[i]->0.size <= usize::MAX
}

/// Slot `k` holds a free region of at least `size` bytes.
pub open spec fn region_fits(s: Seq<Option<PhysicalMemoryRegion>>, size: usize, k: int) -> bool {
    &&& 0 <= k < s.len()
    &&& is_avail(s[k])
    &&& s[k]->0.size >= size
}

/// Slot `j` holds the first of the smallest free regions of at least `size` bytes.
pub open spec fn is_best_fit_region(s: Seq<Option<PhysicalMemoryRegion>>, size: usize, j: int) -> bool {
    &&& region_fits(s, size, j)
    &&& forall|k: int| #[trigger] region_fits(s, size, k) ==> s[j]->0.size <= s[k]->0.size
    &&& forall|k: int| 0 <= k < j && #[trigger] region_fits(s, size, k) ==> s[j]->0.size < s[k]->0.size
}

/// Slot `j` holds the first of the smallest free regions.
pub open spec fn is_smallest_region(s: Seq<Option<PhysicalMemoryRegion>>, j: int) -> bool {
    is_best_fit_region(s, 0, j)
}

/// Slot `j` holds the last of the largest free regions.
pub open spec fn is_largest_region(s: Seq<Option<PhysicalMemoryRegion>>, j: int) -> bool {
    &&& region_fits(s, 0, j)
    &&& forall|k: int| #[trigger] region_fits(s, 0, k) ==> s[k]->0.size <= s[j]->0.size
    &&& forall|k: int| j < k && #[trigger] region_fits(s, 0, k) ==> s[k]->0.size < s[j]->0.size
}

/// Why a request for `size` contiguous bytes is refused, if it is: no free memory at
/// all, less free memory than asked, or no single free region large enough.
pub open spec fn best_fit_refusal(s: Seq<Option<PhysicalMemoryRegion>>, size: usize) -> Option<Error> {
    if available_total(s) < size {
        if available_total(s) == 0 {
            Some(Error::OutOfMemory)
        } else {
            Some(Error::InsufficientMemoryAvailable)
        }
    } else if !(exists|k: int| region_fits(s, size, k)) {
        Some(Error::InsufficientContiguousMemoryAvailable)
    } else {
        None
    }
}

/// The region `allocate_contiguous` records when it takes `n` bytes of `c`: the `n`
/// bytes that end `n` bytes before the end of `c`, marked in use.
pub open spec fn carved_region(c: PhysicalMemoryRegion, n: usize) -> PhysicalMemoryRegion {
    PhysicalMemoryRegion { base: (c.base + c.size - 2 * n) as usize, size: n, is_available: false }
}

/// Slot `j` is the first slot holding a region in use that contains `region`.
pub open spec fn is_containing_region(s: Seq<Option<PhysicalMemoryRegion>>, region: PhysicalMemoryRegion, j: int) -> bool {
    &&& 0 <= j < s.len()
    &&& s[j] matches Some(c) && !c.is_available && region_contains(c, region)
    &&& forall|k: int| 0 <= k < j ==> !(#[trigger] s[k] matches Some(c) && !c.is_available && region_contains(c, region))
}

/// The slots after `deallocate` gave back `region` out of the region in use at slot
/// `j`, before they are sorted: the region in use loses `region` (from its front, from
/// its end, or split in two around it) and a free region for it is added at slot `len`.
pub open spec fn deallocated_slots(
    s: Seq<Option<PhysicalMemoryRegion>>,
    len: int,
    j: int,
    region: PhysicalMemoryRegion,
) -> Seq<Option<PhysicalMemoryRegion>> {
    let c = s[j]->0;
    let freed = PhysicalMemoryRegion { base: region.base, size: region.size, is_available: true };
    if c.base == region.base {
        s.update(
            j,
            Some(PhysicalMemoryRegion { base: (c.base + region.size) as usize, size: (c.size - region.size) as usize, is_available: c.is_available }),
        ).update(len, Some(freed))
    } else if c.base + c.size == region.base + region.size {
        s.update(j, Some(PhysicalMemoryRegion { base: c.base, size: (c.size - region.size) as usize, is_available: c.is_available })).update(
            len,
            Some(freed),
        )
    } else {
        s.update(j, Some(PhysicalMemoryRegion { base: c.base, size: (region.base - c.base) as usize, is_available: false })).update(
            len,
            Some(PhysicalMemoryRegion { base: (region.base + region.size) as usize, size: region.size, is_available: false }),
        ).update(len + 1, Some(freed))
    }
}

/// Number of slots `deallocate` adds: two when it splits the region in use, else one.
pub open spec fn deallocated_count(s: Seq<Option<PhysicalMemoryRegion>>, j: int, region: PhysicalMemoryRegion) -> int {
    let c = s[j]->0;
    if c.base == region.base || c.base + c.size == region.base + region.size {
        1
    } else {
        2
    }
}

/// Sort key of a slot: empty slots first, then regions by base address.
pub open spec fn slot_key(o: Option<PhysicalMemoryRegion>) -> int {
    match o {
        Some(r) => r.base as int,
        None => -1,
    }
}

pub open spec fn slots_sorted(s: Seq<Option<PhysicalMemoryRegion>>) -> bool {
    forall|a: int, b: int| 0 <= a < b < s.len() ==> slot_key(#[trigger] s[a]) <= slot_key(#[trigger] s[b])
}

fn key_le(a: &Option<PhysicalMemoryRegion>, b: &Option<PhysicalMemoryRegion>) -> (r: bool)
    ensures
        r == (slot_key(*a) <= slot_key(*b)),
{
    match (a, b) {
        (None, _) => true,
        (Some(_), None) => false,
        (Some(x), Some(y)) => x.base <= y.base,
    }
}

proof fn lemma_swap_multiset(s: Seq<Option<PhysicalMemoryRegion>>, a: int, b: int)
    requires
        0 <= a < s.len(),
        0 <= b < s.len(),
    ensures
        s.update(a, s[b]).update(b, s[a]).to_multiset() == s.to_multiset(),
{
    broadcast use vstd::seq_lib::to_multiset_update, vstd::multiset::group_multiset_properties;

    let s1 = s.update(a, s[b]);
    assert(s1.to_multiset() == s.to_multiset().insert(s[b]).remove(s[a]));
    assert(s1[b] == if a == b { s[b] } else { s[b] });
    assert(s1.update(b, s[a]).to_multiset() == s1.to_multiset().insert(s[a]).remove(s1[b]));
    vstd::seq_lib::to_multiset_contains(s, s[a]);
    vstd::seq_lib::to_multiset_contains(s, s[b]);
    assert(s.contains(s[a]));
    assert(s.contains(s[b]));
    let m = s.to_multiset();
    assert forall|x: Option<PhysicalMemoryRegion>| #[trigger] m.insert(s[b]).remove(s[a]).insert(s[a]).remove(s[b]).count(x) == m.count(x) by {
    }
    assert(m.insert(s[b]).remove(s[a]).insert(s[a]).remove(s[b]) =~= m);
}

/// Sorts the slots by `slot_key`: empty slots first, then regions by base address.
fn sort_regions(v: &mut Vec<Option<PhysicalMemoryRegion>>)
    ensures
        final(v)@.len() == old(v)@.len(),
        final(v)@.to_multiset() == old(v)@.to_multiset(),
        slots_sorted(final(v)@),
{
    let n = v.len();
    if n == 0 {
        return;
    }
    let mut i: usize = 1;
    while i < n
        invariant
            1 <= i <= n,
            v@.len() == n,
            v@.to_multiset() == old(v)@.to_multiset(),
            forall|a: int, b: int| 0 <= a < b < i ==> slot_key(#[trigger] v@[a]) <= slot_key(#[trigger] v@[b]),
        decreases n - i,
    {
        let mut j: usize = i;
        while j > 0 && !key_le(&v[j - 1], &v[j])
            invariant
                0 <= j <= i < n,
                v@.len() == n,
                v@.to_multiset() == old(v)@.to_multiset(),
                forall|a: int, b: int|
                    0 <= a < b <= i && a != j && b != j ==> slot_key(#[trigger] v@[a]) <= slot_key(#[trigger] v@[b]),
                forall|b: int| j < b <= i ==> slot_key(v@[j as int]) <= slot_key(#[trigger] v@[b]),
            decreases j,
        {
            let ghost before = v@;
            let t = v[j - 1];
            let u = v[j];
            v.set(j - 1, u);
            v.set(j, t);
            proof {
                lemma_swap_multiset(before, j - 1, j as int);
                assert(v@ == before.update(j - 1, before[j as int]).update(j as int, before[j - 1]));
            }
            j = j - 1;
        }
        i = i + 1;
    }
}

/// The physical frame allocator: an array of slots, each empty or holding a region
/// of physical memory, and the number of slots it has filled.
pub struct PhysicalFrameAllocator {
    region_array: Vec<Option<PhysicalMemoryRegion>>,
    len: usize,
}

impl PhysicalFrameAllocator {
    pub closed spec fn spec_regions(&self) -> Seq<Option<PhysicalMemoryRegion>> {
        self.region_array@
    }

    pub closed spec fn spec_len(&self) -> usize {
        self.len
    }

    /// Whether `deallocate` can give back `region`: no recorded region and not `region`
    /// runs past the end of the address space, and the slots have room for the free
    /// region and the remainder that giving it back out of the region in use records.
    pub fn can_deallocate(&self, region: PhysicalMemoryRegion) -> (ok: bool)
        ensures
            ok == ({
                let s = self.spec_regions();
                &&& regions_fit(s)
                &&& region.base + region.size <= usize::MAX
                &&& forall|j: int|
                    is_containing_region(s, region, j) ==> self.spec_len() + deallocated_count(s, j, region)
                        <= s.len()
            }),
    {
        let ghost s = self.spec_regions();
        let n = self.region_array.len();
        let mut i: usize = 0;
        while i < n
            invariant
                i <= n == s.len(),
                s == self.spec_regions(),
                forall|k: int| 0 <= k < i && #[trigger] s[k] is Some ==> s[k]->0.base + s[k]->0.size <= usize::MAX,
            decreases n - i,
        {
            if let Some(r) = &self.region_array[i] {
                if r.base > usize::MAX - r.size {
                    assert(!regions_fit(s));
                    return false;
                }
            }
            i = i + 1;
        }
        assert(regions_fit(s));
        if region.base > usize::MAX - region.size {
            return false;
        }
        let mut j: usize = 0;
        while j < n
            invariant
                j <= n == s.len(),
                s == self.spec_regions(),
                regions_fit(s),
                region.base + region.size <= usize::MAX,
                forall|k: int| 0 <= k < j ==> !(#[trigger] s[k] matches Some(c) && !c.is_available && region_contains(c, region)),
            decreases n - j,
        {
            if let Some(c) = &self.region_array[j] {
                if !c.is_available && c.contains(&region) {
                    assert(is_containing_region(s, region, j as int));
                    assert forall|j2: int| is_containing_region(s, region, j2) implies j2 == j by {
                        if j2 > j {
                            assert(s[j as int] matches Some(c) && !c.is_available && region_contains(c, region));
                        }
                    }
                    let count: usize = if c.base == region.base || c.base + c.size == region.base + region.size {
                        1
                    } else {
                        2
                    };
                    return self.len <= n && count <= n - self.len;
                }
            }
            j = j + 1;
        }
        assert forall|j2: int| !is_containing_region(s, region, j2) by {
            if 0 <= j2 < s.len() {
                assert(!(s[j2] matches Some(c) && !c.is_available && region_contains(c, region)));
            }
        }
        true
    }

    /// Whether `allocate_contiguous` can look for `count` frames: their size and the
    /// free memory fit in a `usize`, the first of the smallest free regions that can
    /// hold them ends within the address space and at least twice their size above
    /// zero, and when one is found a slot is left for the taken range.
    pub fn can_allocate_contiguous(&self, count: usize) -> (ok: bool)
        ensures
            ok == ({
                let s = self.spec_regions();
                let n = (count * FRAME_SIZE) as usize;
                &&& count * FRAME_SIZE <= usize::MAX
                &&& available_total(s) <= usize::MAX
                &&& forall|j: int|
                    is_best_fit_region(s, n, j) ==> {
                        &&& s[j]->0.base + s[j]->0.size <= usize::MAX
                        &&& s[j]->0.base + s[j]->0.size >= 2 * count * FRAME_SIZE
                    }
                &&& best_fit_refusal(s, n) is None ==> self.spec_len() < s.len()
            }),
    {
        let ghost s = self.spec_regions();
        if count > usize::MAX / FRAME_SIZE {
            assert(count * FRAME_SIZE > usize::MAX) by (nonlinear_arith)
                requires count > usize::MAX / FRAME_SIZE;
            return false;
        }
        assert(count * FRAME_SIZE <= usize::MAX) by (nonlinear_arith)
            requires count <= usize::MAX / FRAME_SIZE;
        let n = count * FRAME_SIZE;
        let mut sum: usize = 0;
        let mut i: usize = 0;
        while i < self.region_array.len()
            invariant
                i <= s.len(),
                s == self.spec_regions(),
                sum == available_total(s.subrange(0, i as int)),
            decreases s.len() - i,
        {
            proof {
                lemma_available_total_prefix(s, i as int + 1);
                assert(s.subrange(0, i + 1).drop_last() =~= s.subrange(0, i as int));
            }
            if let Some(region) = &self.region_array[i] {
                if region.is_available {
                    if sum > usize::MAX - region.size {
                        return false;
                    }
                    sum = sum + region.size;
                }
            }
            i = i + 1;
        }
        assert(s.subrange(0, i as int) =~= s);
        match self.best_fit_region(n) {
            Err(_) => {
                assert forall|j: int| !is_best_fit_region(s, n, j) by {
                    if is_best_fit_region(s, n, j) {
                        lemma_available_total_covers_slot(s, j);
                    }
                }
                true
            },
            Ok((j, o)) => {
                assert forall|j2: int| is_best_fit_region(s, n, j2) implies j2 == j by {
                    if j2 < j {
                        assert(region_fits(s, n, j2));
                    } else if j2 > j {
                        assert(region_fits(s, n, j as int));
                    }
                }
                match o {
                    Some(r) => {
                        if r.base > usize::MAX - r.size {
                            return false;
                        }
                        let end = r.base + r.size;
                        end - n >= n && self.len < self.region_array.len()
                    },
                    None => false,
                }
            },
        }
    }

    /// Records `region` in the next slot.
    fn add_region(&mut self, region: PhysicalMemoryRegion)
        requires
            old(self).spec_len() < old(self).spec_regions().len(),
        ensures
            final(self).spec_regions() == old(self).spec_regions().update(old(self).spec_len() as int, Some(region)),
            final(self).spec_len() == old(self).spec_len() + 1,
    {
        let n = self.region_array.len();
        assert(self.len < n);
        self.region_array.set(self.len, Some(region));
        self.len = self.len + 1;
    }

    /// Bytes of free memory.
    pub fn available_memory(&self) -> (r: usize)
        requires
            available_total(self.spec_regions()) <= usize::MAX,
        ensures
            r == available_total(self.spec_regions()),
    {
        let mut sum: usize = 0;
        let mut i: usize = 0;
        while i < self.region_array.len()
            invariant
                i <= self.spec_regions().len(),
                sum == available_total(self.spec_regions().subrange(0, i as int)),
                available_total(self.spec_regions()) <= usize::MAX,
            decreases self.spec_regions().len() - i,
        {
            proof {
                lemma_available_total_prefix(self.spec_regions(), i as int + 1);
                assert(self.spec_regions().subrange(0, i + 1).drop_last() =~= self.spec_regions().subrange(0, i as int));
            }
            if let Some(region) = &self.region_array[i] {
                if region.is_available {
                    sum = sum + region.size;
                }
            }
            i = i + 1;
        }
        assert(self.spec_regions().subrange(0, i as int) =~= self.spec_regions());
        sum
    }
}

impl PhysicalFrameAllocator {
    /// The first slot holding one of the smallest free regions of at least `size` bytes.
    fn first_smallest_fitting(&self, size: usize) -> (r: Option<usize>)
        ensures
            match r {
                Some(j) => is_best_fit_region(self.spec_regions(), size, j as int),
                None => !(exists|k: int| region_fits(self.spec_regions(), size, k)),
            },
    {
        let ghost s = self.spec_regions();
        let mut best: Option<usize> = None;
        let mut i: usize = 0;
        while i < self.region_array.len()
            invariant
                i <= s.len(),
                s == self.spec_regions(),
                match best {
                    None => forall|k: int| 0 <= k < i ==> !#[trigger] region_fits(s, size, k),
                    Some(b) => {
                        &&& b < i
                        &&& region_fits(s, size, b as int)
                        &&& forall|k: int| 0 <= k < i && #[trigger] region_fits(s, size, k) ==> s[b as int]->0.size <= s[k]->0.size
                        &&& forall|k: int| 0 <= k < b && #[trigger] region_fits(s, size, k) ==> s[b as int]->0.size < s[k]->0.size
                    },
                },
            decreases s.len() - i,
        {
            if let Some(region) = &self.region_array[i] {
                if region.is_available && region.size >= size {
                    match best {
                        None => {
                            best = Some(i);
                        },
                        Some(b) => {
                            if region.size < self.region_array[b].unwrap().size {
                                best = Some(i);
                            }
                        },
                    }
                }
            }
            i = i + 1;
        }
        best
    }

    /// Returns the index of the smallest region
    fn smallest_region(&self) -> (r: Result<(usize, &Option<PhysicalMemoryRegion>), Error>)
        ensures
            match r {
                Ok((j, o)) => is_smallest_region(self.spec_regions(), j as int) && *o == self.spec_regions()[j as int],
                Err(e) => e == Error::OutOfMemory && !(exists|k: int| region_fits(self.spec_regions(), 0, k)),
            },
    {
        match self.first_smallest_fitting(0) {
            Some(j) => Ok((j, &self.region_array[j])),
            None => Err(Error::OutOfMemory),
        }
    }

    /// The index of the last of the largest free regions.
    fn largest_region(&self) -> (r: Result<(usize, &Option<PhysicalMemoryRegion>), Error>)
        ensures
            match r {
                Ok((j, o)) => is_largest_region(self.spec_regions(), j as int) && *o == self.spec_regions()[j as int],
                Err(e) => e == Error::OutOfMemory && !(exists|k: int| region_fits(self.spec_regions(), 0, k)),
            },
    {
        let ghost s = self.spec_regions();
        let mut best: Option<usize> = None;
        let mut i: usize = 0;
        while i < self.region_array.len()
            invariant
                i <= s.len(),
                s == self.spec_regions(),
                match best {
                    None => forall|k: int| 0 <= k < i ==> !#[trigger] region_fits(s, 0, k),
                    Some(b) => {
                        &&& b < i
                        &&& region_fits(s, 0, b as int)
                        &&& forall|k: int| 0 <= k < i && #[trigger] region_fits(s, 0, k) ==> s[k]->0.size <= s[b as int]->0.size
                        &&& forall|k: int| b < k < i && #[trigger] region_fits(s, 0, k) ==> s[k]->0.size < s[b as int]->0.size
                    },
                },
            decreases s.len() - i,
        {
            if let Some(region) = &self.region_array[i] {
                if region.is_available {
                    match best {
                        None => {
                            best = Some(i);
                        },
                        Some(b) => {
                            if region.size >= self.region_array[b].unwrap().size {
                                best = Some(i);
                            }
                        },
                    }
                }
            }
            i = i + 1;
        }
        match best {
            Some(j) => Ok((j, &self.region_array[j])),
            None => Err(Error::OutOfMemory),
        }
    }

    /// The first of the smallest free regions of at least `size` bytes, or why there
    /// is none (see `best_fit_refusal`).
    fn best_fit_region(&self, size: usize) -> (r: Result<(usize, &Option<PhysicalMemoryRegion>), Error>)
        requires
            available_total(self.spec_regions()) <= usize::MAX,
        ensures
            match best_fit_refusal(self.spec_regions(), size) {
                Some(e) => r == Err::<(usize, &Option<PhysicalMemoryRegion>), Error>(e),
                None => r matches Ok((j, o)) && is_best_fit_region(self.spec_regions(), size, j as int)
                    && *o == self.spec_regions()[j as int],
            },
    {
        if self.available_memory() < size {
            if self.available_memory() == 0 {
                Err(Error::OutOfMemory)
            } else {
                Err(Error::InsufficientMemoryAvailable)
            }
        } else {
            match self.first_smallest_fitting(size) {
                Some(j) => Ok((j, &self.region_array[j])),
                None => Err(Error::InsufficientContiguousMemoryAvailable),
            }
        }
    }

    /// Takes `count` frames from the first of the smallest free regions that can hold
    /// them and records the taken range as a region in use in the next slot. The free
    /// region itself is left as it is. The taken range is the `count` frames that end
    /// `count` frames before the end of that free region.
    pub fn allocate_contiguous(&mut self, count: usize) -> (r: Result<PhysicalMemoryRegion, Error>)
        requires
            count * FRAME_SIZE <= usize::MAX,
            available_total(old(self).spec_regions()) <= usize::MAX,
            forall|j: int|
                is_best_fit_region(old(self).spec_regions(), (count * FRAME_SIZE) as usize, j) ==> {
                    &&& old(self).spec_regions()[j]->0.base + old(self).spec_regions()[j]->0.size <= usize::MAX
                    &&& old(self).spec_regions()[j]->0.base + old(self).spec_regions()[j]->0.size >= 2 * count * FRAME_SIZE
                },
            best_fit_refusal(old(self).spec_regions(), (count * FRAME_SIZE) as usize) is None ==> old(self).spec_len()
                < old(self).spec_regions().len(),
        ensures
            ({
                let n = (count * FRAME_SIZE) as usize;
                let s = old(self).spec_regions();
                match best_fit_refusal(s, n) {
                    Some(e) => {
                        &&& r == Err::<PhysicalMemoryRegion, Error>(e)
                        &&& final(self).spec_regions() == s
                        &&& final(self).spec_len() == old(self).spec_len()
                    },
                    None => exists|j: int|
                        {
                            &&& is_best_fit_region(s, n, j)
                            &&& r == Ok::<PhysicalMemoryRegion, Error>(carved_region(s[j]->0, n))
                            &&& final(self).spec_regions() == s.update(
                                old(self).spec_len() as int,
                                Some(carved_region(s[j]->0, n)),
                            )
                            &&& final(self).spec_len() == old(self).spec_len() + 1
                        },
                }
            }),
    {
        let n = count * FRAME_SIZE;
        let alloc_region_index = match self.best_fit_region(n) {
            Ok((i, _)) => i,
            Err(e) => return Err(e),
        };
        let mut alloc_region = self.region_array[alloc_region_index].unwrap();
        alloc_region.size = alloc_region.size - n;
        let new_region = PhysicalMemoryRegion::new(alloc_region.base + alloc_region.size - n, n, false);
        self.add_region(new_region);
        Ok(new_region)
    }

    /// Gives back `region`: the first region in use that contains it loses it and a
    /// free region for it is recorded, then the slots are sorted by base address with
    /// empty slots first. Refused when no region in use contains it.
    pub fn deallocate(&mut self, region: PhysicalMemoryRegion) -> (r: Result<(), Error>)
        requires
            regions_fit(old(self).spec_regions()),
            region.base + region.size <= usize::MAX,
            forall|j: int|
                is_containing_region(old(self).spec_regions(), region, j) ==> old(self).spec_len()
                    + deallocated_count(old(self).spec_regions(), j, region) <= old(self).spec_regions().len(),
        ensures
            ({
                let s = old(self).spec_regions();
                if exists|j: int| is_containing_region(s, region, j) {
                    exists|j: int|
                        {
                            &&& is_containing_region(s, region, j)
                            &&& r is Ok
                            &&& final(self).spec_len() == old(self).spec_len() + deallocated_count(s, j, region)
                            &&& final(self).spec_regions().len() == s.len()
                            &&& final(self).spec_regions().to_multiset() == deallocated_slots(
                                s,
                                old(self).spec_len() as int,
                                j,
                                region,
                            ).to_multiset()
                            &&& slots_sorted(final(self).spec_regions())
                        }
                } else {
                    &&& r == Err::<(), Error>(Error::AllocatedRegionNotFound)
                    &&& final(self).spec_regions() == s
                    &&& final(self).spec_len() == old(self).spec_len()
                }
            }),
    {
        let ghost s = self.spec_regions();
        let ghost len0 = self.spec_len() as int;
        let mut found: Option<usize> = None;
        let mut i: usize = 0;
        while i < self.region_array.len()
            invariant_except_break
                found is None,
            invariant
                i <= s.len(),
                s == self.spec_regions(),
                regions_fit(s),
                region.base + region.size <= usize::MAX,
                forall|k: int| 0 <= k < i ==> !(#[trigger] s[k] matches Some(c) && !c.is_available && region_contains(c, region)),
            ensures
                match found {
                    Some(j) => is_containing_region(s, region, j as int),
                    None => forall|k: int| 0 <= k < s.len() ==> !(#[trigger] s[k] matches Some(c) && !c.is_available
                        && region_contains(c, region)),
                },
            decreases s.len() - i,
        {
            if let Some(c) = &self.region_array[i] {
                assert(s[i as int] is Some);
                if c.is_available == false && c.contains(&region) {
                    found = Some(i);
                    break;
                }
            }
            i = i + 1;
        }
        let j = match found {
            Some(j) => j,
            None => {
                return Err(Error::AllocatedRegionNotFound);
            },
        };
        assert(s[j as int] is Some);
        let c = self.region_array[j].unwrap();
        let new_region = PhysicalMemoryRegion::new(region.base, region.size, true);
        if c.base == region.base {
            self.region_array.set(
                j,
                Some(PhysicalMemoryRegion { base: c.base + region.size, size: c.size - region.size, is_available: c.is_available }),
            );
        } else if c.base + c.size == region.base + region.size {
            self.region_array.set(
                j,
                Some(PhysicalMemoryRegion { base: c.base, size: c.size - region.size, is_available: c.is_available }),
            );
        } else {
            let shrunk = PhysicalMemoryRegion { base: c.base, size: region.base - c.base, is_available: false };
            self.region_array.set(j, Some(shrunk));
            let after_region = PhysicalMemoryRegion::new(
                region.base + region.size,
                shrunk.base + shrunk.size - region.base + region.size,
                false,
            );
            self.add_region(after_region);
        }
        self.add_region(new_region);
        assert(self.spec_regions() == deallocated_slots(s, len0, j as int, region));
        sort_regions(&mut self.region_array);
        Ok(())
    }
}

/// The slots after the region at `j` is merged into the region at `i` when it starts
/// where that one ends and has the same availability: the one at `i` grows by its size
/// and slot `j` is emptied.
pub open spec fn merge_into(s: Seq<Option<PhysicalMemoryRegion>>, i: int, j: int) -> Seq<Option<PhysicalMemoryRegion>> {
    let a = s[i]->0;
    let b = s[j]->0;
    if a.base + a.size == b.base && a.is_available == b.is_available {
        s.update(i, Some(PhysicalMemoryRegion { base: a.base, size: (a.size + b.size) as usize, is_available: a.is_available })).update(
            j,
            None,
        )
    } else {
        s
    }
}

/// Merges into the region at `i` each region from slot `j` on, up to the next empty slot.
pub open spec fn combine_from(s: Seq<Option<PhysicalMemoryRegion>>, i: int, j: int) -> Seq<Option<PhysicalMemoryRegion>>
    decreases s.len() - j,
{
    if i < 0 || i >= s.len() || j < 0 || j >= s.len() || s[j] is None {
        s
    } else {
        combine_from(merge_into(s, i, j), i, j + 1)
    }
}

pub proof fn lemma_combine_from_len(s: Seq<Option<PhysicalMemoryRegion>>, i: int, j: int)
    ensures
        combine_from(s, i, j).len() == s.len(),
    decreases s.len() - j,
{
    if !(i < 0 || i >= s.len() || j < 0 || j >= s.len() || s[j] is None) {
        lemma_combine_from_len(merge_into(s, i, j), i, j + 1);
    }
}

/// For each region from slot `i` up to the first empty slot, in order, merges into it
/// the regions that follow it up to the next empty slot.
pub open spec fn combined_slots(s: Seq<Option<PhysicalMemoryRegion>>, i: int) -> Seq<Option<PhysicalMemoryRegion>>
    decreases s.len() - i,
{
    if i < 0 || i >= s.len() || s[i] is None {
        s
    } else {
        proof {
            lemma_combine_from_len(s, i, i + 1);
        }
        combined_slots(combine_from(s, i, i + 1), i + 1)
    }
}

impl PhysicalFrameAllocator {
    /// Combines all contiguous regions of the same availability into single regions
    /// (see `combined_slots`). Some slot must be empty: the scans stop at empty slots.
    fn combine_regions(&mut self)
        requires
            regions_fit(old(self).spec_regions()),
            exists|k: int| 0 <= k < old(self).spec_regions().len() && #[trigger] old(self).spec_regions()[k] is None,
        ensures
            final(self).spec_regions() == combined_slots(old(self).spec_regions(), 0),
            final(self).spec_len() == old(self).spec_len(),
            regions_fit(final(self).spec_regions()),
    {
        let ghost s0 = self.spec_regions();
        let n = self.region_array.len();
        let mut i: usize = 0;
        while self.region_array[i].is_some()
            invariant
                i < n,
                n == self.spec_regions().len(),
                s0.len() == n,
                self.spec_len() == old(self).spec_len(),
                regions_fit(self.spec_regions()),
                forall|k: int| 0 <= k < i ==> #[trigger] self.spec_regions()[k] is Some,
                exists|k: int| 0 <= k < n && #[trigger] self.spec_regions()[k] is None,
                combined_slots(s0, 0) == combined_slots(self.spec_regions(), i as int),
            decreases n - i,
        {
            let ghost start = self.spec_regions();
            let mut j: usize = i + 1;
            proof {
                let k = choose|k: int| 0 <= k < n && #[trigger] self.spec_regions()[k] is None;
                assert(k > i);
            }
            while self.region_array[j].is_some()
                invariant
                    i < j < n,
                    n == self.spec_regions().len(),
                    self.spec_len() == old(self).spec_len(),
                    regions_fit(self.spec_regions()),
                    self.spec_regions()[i as int] is Some,
                    forall|k: int| 0 <= k < i ==> #[trigger] self.spec_regions()[k] is Some,
                    exists|k: int| j <= k < n && #[trigger] self.spec_regions()[k] is None,
                    combine_from(start, i as int, i + 1) == combine_from(self.spec_regions(), i as int, j as int),
                decreases n - j,
            {
                let a = self.region_array[i].unwrap();
                let b = self.region_array[j].unwrap();
                let ghost before = self.spec_regions();
                proof {
                    let k = choose|k: int| j <= k < n && #[trigger] before[k] is None;
                    assert(k != j);
                }
                if a.base + a.size == b.base && a.is_available == b.is_available {
                    self.region_array.set(i, Some(PhysicalMemoryRegion { base: a.base, size: a.size + b.size, is_available: a.is_available }));
                    self.region_array.set(j, None);
                }
                assert(self.spec_regions() == merge_into(before, i as int, j as int));
                proof {
                    let k = choose|k: int| j <= k < n && #[trigger] before[k] is None;
                    assert(self.spec_regions()[k] is None);
                }
                j = j + 1;
            }
            i = i + 1;
            proof {
                let k = choose|k: int| 0 <= k < n && #[trigger] self.spec_regions()[k] is None;
                if i == n {
                    assert(false);
                }
            }
        }
    }
}

/// Size in bytes of one region record.
pub const REGION_RECORD_SIZE: usize = 24;

/// Regions per slot-array sizing unit: the array is sized as a bitmap of the memory
/// would be, assuming regions of 128 frames on average.
pub const ESTIMATED_AVG_REGION_SIZE: usize = 128;

/// The usable entries of the memory map as free regions, in map order.
pub open spec fn usable_regions(e: Seq<MemoryMapEntry>) -> Seq<Option<PhysicalMemoryRegion>>
    decreases e.len(),
{
    if e.len() == 0 {
        Seq::empty()
    } else {
        usable_regions(e.drop_last()) + if e.last().entry_type == USABLE {
            seq![Some(PhysicalMemoryRegion { base: e.last().base as usize, size: e.last().length as usize, is_available: true })]
        } else {
            Seq::empty()
        }
    }
}

/// Number of slots the allocator keeps for a memory map with `total` bytes of memory
/// that is not bad.
pub open spec fn region_array_size(total: usize) -> int {
    ((total as int / FRAME_SIZE as int) * REGION_RECORD_SIZE as int) / ESTIMATED_AVG_REGION_SIZE as int
}

/// The slots before they are combined and sorted: the usable regions, then empty slots.
pub open spec fn initial_slots(e: Seq<MemoryMapEntry>, size: int) -> Seq<Option<PhysicalMemoryRegion>> {
    usable_regions(e) + Seq::new((size - usable_regions(e).len()) as nat, |k: int| None::<PhysicalMemoryRegion>)
}

/// The memory map can seed an allocator: its sizes fit the machine words, an entry can
/// hold the slot array, and there are fewer usable entries than slots.
pub open spec fn memory_map_seeds_allocator(e: Seq<MemoryMapEntry>) -> bool {
    let total = functional_length_sum(e) as u64 as usize;
    let size = region_array_size(total);
    &&& functional_length_sum(e) <= u64::MAX
    &&& (total / FRAME_SIZE) * REGION_RECORD_SIZE <= usize::MAX
    &&& exists|j: int| #[trigger] entry_fits(e, size as usize, j)
    &&& forall|j: int| #[trigger] is_best_fit_entry(e, size as usize, j) ==> e[j].base + e[j].length <= u64::MAX && e[j].base + e[j].length >= size
    &&& usable_regions(e).len() < size
    &&& regions_fit(usable_regions(e))
}

proof fn lemma_usable_regions_step(e: Seq<MemoryMapEntry>, i: int)
    requires
        0 <= i < e.len(),
    ensures
        usable_regions(e.subrange(0, i + 1)) == usable_regions(e.subrange(0, i)) + if e[i].entry_type == USABLE {
            seq![Some(PhysicalMemoryRegion { base: e[i].base as usize, size: e[i].length as usize, is_available: true })]
        } else {
            Seq::empty()
        },
        usable_regions(e.subrange(0, i)).len() <= usable_regions(e).len(),
{
    assert(e.subrange(0, i + 1).drop_last() =~= e.subrange(0, i));
    lemma_usable_regions_prefix_len(e, i);
}

proof fn lemma_usable_regions_prefix_len(e: Seq<MemoryMapEntry>, i: int)
    requires
        0 <= i <= e.len(),
    ensures
        usable_regions(e.subrange(0, i)).len() <= usable_regions(e).len(),
    decreases e.len() - i,
{
    if i < e.len() {
        lemma_usable_regions_prefix_len(e, i + 1);
        assert(e.subrange(0, i + 1).drop_last() =~= e.subrange(0, i));
    } else {
        assert(e.subrange(0, i) =~= e);
    }
}

impl PhysicalFrameAllocator {
    /// An allocator seeded from the memory map: as many slots as a bitmap of the
    /// memory would take bytes over 128, holding the usable entries as free regions,
    /// then contiguous regions combined and the slots sorted by base address.
    pub fn new(memory_map: &MemoryMap) -> (pfa: Self)
        requires
            memory_map_seeds_allocator(memory_map@),
        ensures
            ({
                let total = functional_length_sum(memory_map@) as u64 as usize;
                let slots = combined_slots(initial_slots(memory_map@, region_array_size(total)), 0);
                &&& pfa.spec_regions().len() == slots.len()
                &&& pfa.spec_regions().to_multiset() == slots.to_multiset()
                &&& slots_sorted(pfa.spec_regions())
                &&& pfa.spec_len() == usable_regions(memory_map@).len()
            }),
    {
        let ghost e = memory_map@;
        let total = memory_map.total_memory();
        let slot_count = ((total / FRAME_SIZE) * REGION_RECORD_SIZE) / ESTIMATED_AVG_REGION_SIZE;
        let best_fit_entry = memory_map.find_best_fit(slot_count);
        let _pfa_base = (best_fit_entry.base + best_fit_entry.length - slot_count as u64) as usize;
        let mut region_array: Vec<Option<PhysicalMemoryRegion>> = Vec::new();
        while region_array.len() < slot_count
            invariant
                region_array@.len() <= slot_count,
                forall|k: int| 0 <= k < region_array@.len() ==> #[trigger] region_array@[k] is None,
            decreases slot_count - region_array@.len(),
        {
            region_array.push(None);
        }
        let mut pfa = PhysicalFrameAllocator { region_array, len: 0 };
        let mut i: usize = 0;
        while i < memory_map.entries.len()
            invariant
                i <= e.len(),
                e == memory_map@,
                slot_count == region_array_size(total),
                usable_regions(e).len() < slot_count,
                pfa.spec_regions().len() == slot_count,
                pfa.spec_len() == usable_regions(e.subrange(0, i as int)).len(),
                pfa.spec_regions() == initial_slots(e.subrange(0, i as int), slot_count as int),
            decreases e.len() - i,
        {
            proof {
                lemma_usable_regions_step(e, i as int);
            }
            let entry = &memory_map.entries[i];
            if entry.entry_type == USABLE {
                let ghost before = pfa.spec_regions();
                pfa.add_region(PhysicalMemoryRegion { base: entry.base as usize, size: entry.length as usize, is_available: true });
                assert(pfa.spec_regions() =~= initial_slots(e.subrange(0, i + 1), slot_count as int));
            } else {
                assert(pfa.spec_regions() =~= initial_slots(e.subrange(0, i + 1), slot_count as int));
            }
            i = i + 1;
        }
        assert(e.subrange(0, e.len() as int) =~= e);
        let ghost init = pfa.spec_regions();
        assert(init[slot_count - 1] is None);
        assert(regions_fit(init)) by {
            assert forall|k: int| 0 <= k < init.len() && #[trigger] init[k] is Some implies init[k]->0.base + init[k]->0.size
                <= usize::MAX by {
                assert(k < usable_regions(e).len());
                assert(init[k] == usable_regions(e)[k]);
            }
        }
        pfa.combine_regions();
        sort_regions(&mut pfa.region_array);
        pfa
    }
}

/// Free memory only grows along the slots.
pub proof fn lemma_available_total_prefix(s: Seq<Option<PhysicalMemoryRegion>>, i: int)
    requires
        0 <= i <= s.len(),
    ensures
        available_total(s.subrange(0, i)) <= available_total(s),
        available_total(s.subrange(0, i)) >= 0,
    decreases s.len() - i,
{
    lemma_available_total_nonneg(s.subrange(0, i));
    if i < s.len() {
        lemma_available_total_prefix(s, i + 1);
        assert(s.subrange(0, i + 1).drop_last() =~= s.subrange(0, i));
    } else {
        assert(s.subrange(0, i) =~= s);
        lemma_available_total_nonneg(s);
    }
}

/// The free memory covers the free region of any one slot.
proof fn lemma_available_total_covers_slot(s: Seq<Option<PhysicalMemoryRegion>>, j: int)
    requires
        0 <= j < s.len(),
    ensures
        available_total(s) >= avail_size(s[j]),
    decreases s.len(),
{
    if j < s.len() - 1 {
        lemma_available_total_covers_slot(s.drop_last(), j);
    } else {
        lemma_available_total_nonneg(s.drop_last());
    }
}

pub proof fn lemma_available_total_nonneg(s: Seq<Option<PhysicalMemoryRegion>>)
    ensures
        available_total(s) >= 0,
    decreases s.len(),
{
    if s.len() > 0 {
        lemma_available_total_nonneg(s.drop_last());
    }
}

/// Errors of the physical frame allocator.
#[derive(Copy, Clone, Debug, PartialEq, Eq)]
pub enum Error {
    OutOfMemory,
    InsufficientMemoryAvailable,
    InsufficientContiguousMemoryAvailable,
    MemoryOvercommitted,
    PfaRegionArrayFull,
    AllocatedRegionNotFound,
    AddressMisaligned,
}

/// Replacing one slot changes the free memory by the difference of the two slots.
pub proof fn lemma_available_total_update(s: Seq<Option<PhysicalMemoryRegion>>, k: int, x: Option<PhysicalMemoryRegion>)
    requires
        0 <= k < s.len(),
    ensures
        available_total(s.update(k, x)) == available_total(s) - avail_size(s[k]) + avail_size(x),
    decreases s.len(),
{
    let t = s.update(k, x);
    if k == s.len() - 1 {
        assert(t.drop_last() =~= s.drop_last());
    } else {
        assert(t.drop_last() =~= s.drop_last().update(k, x));
        lemma_available_total_update(s.drop_last(), k, x);
    }
}

/// The free memory does not depend on the order of the slots.
pub proof fn lemma_available_total_permutation(s: Seq<Option<PhysicalMemoryRegion>>, t: Seq<Option<PhysicalMemoryRegion>>)
    requires
        s.to_multiset() == t.to_multiset(),
    ensures
        available_total(s) == available_total(t),
{
    let f = |acc: int, o: Option<PhysicalMemoryRegion>| acc + avail_size(o);
    assert(vstd::seq_lib::commutative_foldl(f)) by {
        assert forall|x: Option<PhysicalMemoryRegion>, y: Option<PhysicalMemoryRegion>, v: int| #[trigger] f(f(v, x), y) == f(f(v, y), x) by {
        }
    }
    vstd::seq_lib::lemma_fold_left_permutation(s, t, f, 0int);
}

proof fn lemma_merge_into_available(s: Seq<Option<PhysicalMemoryRegion>>, i: int, j: int)
    requires
        0 <= i < j < s.len(),
        s[i] is Some,
        s[j] is Some,
        regions_fit(s),
    ensures
        available_total(merge_into(s, i, j)) == available_total(s),
        regions_fit(merge_into(s, i, j)),
        merge_into(s, i, j).len() == s.len(),
        merge_into(s, i, j)[i] is Some,
{
    let a = s[i]->0;
    let b = s[j]->0;
    if a.base + a.size == b.base && a.is_available == b.is_available {
        let m = Some(PhysicalMemoryRegion { base: a.base, size: (a.size + b.size) as usize, is_available: a.is_available });
        let s1 = s.update(i, m);
        lemma_available_total_update(s, i, m);
        lemma_available_total_update(s1, j, None);
        assert(s1[j] == s[j]);
        let t = merge_into(s, i, j);
        assert forall|k: int| 0 <= k < t.len() && #[trigger] t[k] is Some implies t[k]->0.base + t[k]->0.size <= usize::MAX by {
            if k != i && k != j {
                assert(t[k] == s[k]);
            }
        }
    }
}

proof fn lemma_combine_from_available(s: Seq<Option<PhysicalMemoryRegion>>, i: int, j: int)
    requires
        0 <= i < j,
        i < s.len(),
        s[i] is Some,
        regions_fit(s),
    ensures
        available_total(combine_from(s, i, j)) == available_total(s),
        regions_fit(combine_from(s, i, j)),
        combine_from(s, i, j).len() == s.len(),
        combine_from(s, i, j)[i] is Some,
    decreases s.len() - j,
{
    if !(j >= s.len() || s[j] is None) {
        lemma_merge_into_available(s, i, j);
        lemma_combine_from_available(merge_into(s, i, j), i, j + 1);
    }
}

/// Combining contiguous regions keeps the amount of free memory.
pub proof fn lemma_combined_slots_available(s: Seq<Option<PhysicalMemoryRegion>>, i: int)
    requires
        0 <= i,
        regions_fit(s),
    ensures
        available_total(combined_slots(s, i)) == available_total(s),
        regions_fit(combined_slots(s, i)),
    decreases s.len() - i,
{
    if !(i >= s.len() || s[i] is None) {
        lemma_combine_from_available(s, i, i + 1);
        lemma_combined_slots_available(combine_from(s, i, i + 1), i + 1);
    }
}

/// The free memory of the usable regions is the usable memory of the map.
proof fn lemma_usable_regions_available(e: Seq<MemoryMapEntry>)
    requires
        forall|k: int| 0 <= k < e.len() && #[trigger] e[k].entry_type == USABLE ==> e[k].length <= usize::MAX,
    ensures
        available_total(usable_regions(e)) == usable_length_sum(e),
    decreases e.len(),
{
    if e.len() > 0 {
        let d = e.drop_last();
        assert forall|k: int| 0 <= k < d.len() && #[trigger] d[k].entry_type == USABLE implies d[k].length <= usize::MAX by {
            assert(d[k] == e[k]);
        }
        lemma_usable_regions_available(d);
        let tail = if e.last().entry_type == USABLE {
            seq![Some(PhysicalMemoryRegion { base: e.last().base as usize, size: e.last().length as usize, is_available: true })]
        } else {
            Seq::<Option<PhysicalMemoryRegion>>::empty()
        };
        assert((usable_regions(d) + tail).drop_last() =~= usable_regions(d) || tail.len() == 0);
        if tail.len() == 0 {
            assert(usable_regions(d) + tail =~= usable_regions(d));
        } else {
            assert(e[e.len() - 1].entry_type == USABLE);
        }
    }
}

proof fn lemma_available_total_empty_tail(s: Seq<Option<PhysicalMemoryRegion>>, n: nat)
    ensures
        available_total(s + Seq::new(n, |k: int| None::<PhysicalMemoryRegion>)) == available_total(s),
    decreases n,
{
    if n > 0 {
        let t = s + Seq::new(n, |k: int| None::<PhysicalMemoryRegion>);
        assert(t.drop_last() =~= s + Seq::new((n - 1) as nat, |k: int| None::<PhysicalMemoryRegion>));
        lemma_available_total_empty_tail(s, (n - 1) as nat);
    } else {
        assert(s + Seq::new(n, |k: int| None::<PhysicalMemoryRegion>) =~= s);
    }
}

/// A new allocator's free memory is exactly the usable memory of the memory map it was
/// seeded from (each usable entry being at most a machine word long).
pub proof fn lemma_new_allocator_free_memory(e: Seq<MemoryMapEntry>, regions: Seq<Option<PhysicalMemoryRegion>>)
    requires
        memory_map_seeds_allocator(e),
        forall|k: int| 0 <= k < e.len() && #[trigger] e[k].entry_type == USABLE ==> e[k].length <= usize::MAX,
        regions.to_multiset() == combined_slots(
            initial_slots(e, region_array_size(functional_length_sum(e) as u64 as usize)),
            0,
        ).to_multiset(),
    ensures
        available_total(regions) == usable_length_sum(e),
{
    let size = region_array_size(functional_length_sum(e) as u64 as usize);
    let init = initial_slots(e, size);
    let u = usable_regions(e);
    lemma_usable_regions_available(e);
    lemma_available_total_empty_tail(u, (size - u.len()) as nat);
    assert(regions_fit(init)) by {
        assert forall|k: int| 0 <= k < init.len() && #[trigger] init[k] is Some implies init[k]->0.base + init[k]->0.size <= usize::MAX by {
            assert(k < u.len());
            assert(init[k] == u[k]);
        }
    }
    lemma_combined_slots_available(init, 0);
    lemma_available_total_permutation(regions, combined_slots(init, 0));
}

/// Giving back a region makes its size free: when `deallocate` finds the region in use
/// at slot `j`, the free memory of the slots it leaves grows by the region's size,
/// provided the slots it fills (`len`, and `len + 1` when it splits) held no free region.
pub proof fn lemma_deallocate_frees_region(
    s: Seq<Option<PhysicalMemoryRegion>>,
    len: int,
    j: int,
    region: PhysicalMemoryRegion,
    t: Seq<Option<PhysicalMemoryRegion>>,
)
    requires
        is_containing_region(s, region, j),
        0 <= len,
        len + deallocated_count(s, j, region) <= s.len(),
        !is_avail(s[len]),
        deallocated_count(s, j, region) == 2 ==> !is_avail(s[len + 1]),
        region.base + region.size <= usize::MAX,
        t.to_multiset() == deallocated_slots(s, len, j, region).to_multiset(),
    ensures
        available_total(t) == available_total(s) + region.size,
{
    let c = s[j]->0;
    let freed = Some(PhysicalMemoryRegion { base: region.base, size: region.size, is_available: true });
    if c.base == region.base {
        let x = Some(PhysicalMemoryRegion { base: (c.base + region.size) as usize, size: (c.size - region.size) as usize, is_available: c.is_available });
        lemma_available_total_update(s, j, x);
        lemma_available_total_update(s.update(j, x), len, freed);
    } else if c.base + c.size == region.base + region.size {
        let x = Some(PhysicalMemoryRegion { base: c.base, size: (c.size - region.size) as usize, is_available: c.is_available });
        lemma_available_total_update(s, j, x);
        lemma_available_total_update(s.update(j, x), len, freed);
    } else {
        let x = Some(PhysicalMemoryRegion { base: c.base, size: (region.base - c.base) as usize, is_available: false });
        let after = Some(PhysicalMemoryRegion { base: (region.base + region.size) as usize, size: region.size, is_available: false });
        lemma_available_total_update(s, j, x);
        lemma_available_total_update(s.update(j, x), len, after);
        lemma_available_total_update(s.update(j, x).update(len, after), len + 1, freed);
    }
    lemma_available_total_permutation(t, deallocated_slots(s, len, j, region));
}

proof fn lemma_first_containing(s: Seq<Option<PhysicalMemoryRegion>>, region: PhysicalMemoryRegion, k: int)
    requires
        0 <= k < s.len(),
        s[k] matches Some(c) && !c.is_available && region_contains(c, region),
    ensures
        exists|j: int| is_containing_region(s, region, j),
    decreases k,
{
    if exists|k2: int| 0 <= k2 < k && (#[trigger] s[k2] matches Some(c) && !c.is_available && region_contains(c, region)) {
        let k2 = choose|k2: int| 0 <= k2 < k && (#[trigger] s[k2] matches Some(c) && !c.is_available && region_contains(c, region));
        lemma_first_containing(s, region, k2);
    } else {
        assert(is_containing_region(s, region, k));
    }
}

/// A region handed out by `allocate_contiguous` can be given back: after the allocation
/// records it at slot `len`, some region in use contains it, so `deallocate` finds one.
/// When the free region it was taken from has at least twice its size, it lies within
/// that free region.
pub proof fn lemma_allocated_region_can_be_freed(s: Seq<Option<PhysicalMemoryRegion>>, len: int, n: usize, j: int)
    requires
        0 <= len < s.len(),
        is_best_fit_region(s, n, j),
        s[j]->0.base + s[j]->0.size >= 2 * n,
        s[j]->0.base + s[j]->0.size <= usize::MAX,
    ensures
        exists|k: int| is_containing_region(s.update(len, Some(carved_region(s[j]->0, n))), carved_region(s[j]->0, n), k),
        s[j]->0.size >= 2 * n ==> region_contains(s[j]->0, carved_region(s[j]->0, n)),
{
    let r = carved_region(s[j]->0, n);
    let t = s.update(len, Some(r));
    assert(t[len] == Some(r));
    lemma_first_containing(t, r, len);
}

} // verus!
