//! A page map: the value of CR3, which holds the physical address of the PML4 in its
//! upper bits and the process-context identifier (PCID) in its low 12 bits.

use vstd::prelude::*;

use super::address::{table_index, PhysicalAddress, VirtualAddress, PAGE_SIZE};
use super::page_table::{
    level_index, next_table, page_mapping, page_unmapping, PageSize, PageTable, PageTableLevel, N_PT_ENTRIES,
};
use super::page_table_entry::{lemma_mapped_entry_reads_back, mapped_entry, page_flag_mask, pte_present, FLAG_MASK};
use super::pmm::Error as PmmError;
use super::Error;
use crate::arch::Api;

verus! {

/// The number of 4 KiB frames a PDPT entry spans.
pub const N_FRAMES_PDPT: usize = 262144;

/// The number of 4 KiB frames a PD entry spans.
pub const N_FRAMES_PD: usize = 512;

/// The PCID held in a CR3 value.
pub open spec fn pcid_of(cr3: u64) -> u64 {
    cr3 & 0xFFF
}

/// The PML4 address held in a CR3 value.
pub open spec fn pml4_of(cr3: u64) -> u64 {
    cr3 & !0xFFFu64
}

/// A CR3 value with its PCID bits replaced by `pcid`.
pub open spec fn with_pcid(cr3: u64, pcid: u16) -> u64 {
    pml4_of(cr3) | pcid as u64
}

/// An all-zero page table.
pub open spec fn zero_table() -> Seq<u64> {
    Seq::new(N_PT_ENTRIES as nat, |i: int| 0u64)
}

/// The table in frame `a` after the tables `tables` were stored, in order, in the
/// frames `addrs`: the last one stored there, or zeros when none was.
pub open spec fn stored_table(addrs: Seq<u64>, tables: Seq<Seq<u64>>, a: u64) -> Seq<u64>
    decreases addrs.len(),
{
    if addrs.len() == 0 || tables.len() != addrs.len() {
        zero_table()
    } else if addrs.last() == a {
        tables.last()
    } else {
        stored_table(addrs.drop_last(), tables.drop_last(), a)
    }
}

/// Storing one more table.
proof fn lemma_stored_push(addrs: Seq<u64>, tables: Seq<Seq<u64>>, p: u64, t: Seq<u64>, a: u64)
    requires
        addrs.len() == tables.len(),
    ensures
        stored_table(addrs.push(p), tables.push(t), a) == if a == p {
            t
        } else {
            stored_table(addrs, tables, a)
        },
{
    assert(addrs.push(p).drop_last() =~= addrs);
    assert(tables.push(t).drop_last() =~= tables);
}

/// The table in a frame is the one stored last in it, or zeros.
proof fn lemma_stored_last(addrs: Seq<u64>, tables: Seq<Seq<u64>>, a: u64, k: int)
    requires
        addrs.len() == tables.len(),
        -1 <= k < addrs.len(),
        k >= 0 ==> addrs[k] == a,
        forall|j: int| k < j < addrs.len() ==> addrs[j] != a,
    ensures
        stored_table(addrs, tables, a) == if k >= 0 {
            tables[k]
        } else {
            zero_table()
        },
    decreases addrs.len(),
{
    if addrs.len() > 0 && k < addrs.len() - 1 {
        lemma_stored_last(addrs.drop_last(), tables.drop_last(), a, k);
    }
}

/// Replacing the table stored last in frame `p` changes that frame only.
proof fn lemma_stored_update(addrs: Seq<u64>, tables: Seq<Seq<u64>>, k: int, t: Seq<u64>, a: u64)
    requires
        addrs.len() == tables.len(),
        0 <= k < addrs.len(),
        forall|j: int| k < j < addrs.len() ==> addrs[j] != addrs[k],
    ensures
        stored_table(addrs, tables.update(k, t), a) == if a == addrs[k] {
            t
        } else {
            stored_table(addrs, tables, a)
        },
    decreases addrs.len(),
{
    if k < addrs.len() - 1 {
        assert(tables.update(k, t).drop_last() =~= tables.drop_last().update(k, t));
        lemma_stored_update(addrs.drop_last(), tables.drop_last(), k, t, a);
    } else {
        assert(tables.update(k, t).drop_last() =~= tables.drop_last());
    }
}

/// The page tables in physical memory: the table each frame holds, where a frame no
/// table was written to reads as all zeros.
pub struct PageTables {
    addrs: Vec<u64>,
    tables: Vec<PageTable>,
}

impl View for PageTables {
    type V = Map<u64, Seq<u64>>;

    closed spec fn view(&self) -> Map<u64, Seq<u64>> {
        Map::new(|a: u64| true, |a: u64| stored_table(self.addrs@, self.tables@.map_values(|t: PageTable| t@), a))
    }
}

impl PageTables {
    /// Every frame has a table, and every table has all its entries.
    pub closed spec fn wf(&self) -> bool {
        &&& self.addrs@.len() == self.tables@.len()
        &&& forall|k: int| 0 <= k < self.tables@.len() ==> #[trigger] self.tables@[k]@.len() == N_PT_ENTRIES
    }

    /// Memory in which every frame reads as an empty table.
    pub fn new() -> (p: Self)
        ensures
            p.wf(),
            p@ == Map::new(|a: u64| true, |a: u64| zero_table()),
    {
        let p = PageTables { addrs: Vec::new(), tables: Vec::new() };
        assert(p@ =~= Map::new(|a: u64| true, |a: u64| zero_table()));
        p
    }

    /// The last index at which frame `a` was stored.
    fn find_last(&self, a: u64) -> (r: Option<usize>)
        ensures
            r matches Some(k) ==> k < self.addrs@.len() && self.addrs@[k as int] == a && forall|j: int|
                k < j < self.addrs@.len() ==> self.addrs@[j] != a,
            r is None ==> forall|j: int| 0 <= j < self.addrs@.len() ==> self.addrs@[j] != a,
    {
        let mut i = self.addrs.len();
        while i > 0
            invariant
                i <= self.addrs@.len(),
                forall|j: int| i <= j < self.addrs@.len() ==> self.addrs@[j] != a,
            decreases i,
        {
            if self.addrs[i - 1] == a {
                return Some(i - 1);
            }
            i = i - 1;
        }
        None
    }

    /// The table in frame `a`.
    pub fn table(&self, a: u64) -> (t: PageTable)
        requires
            self.wf(),
        ensures
            t@ == self@[a],
            t@.len() == N_PT_ENTRIES,
    {
        let ghost views = self.tables@.map_values(|t: PageTable| t@);
        match self.find_last(a) {
            Some(k) => {
                proof {
                    lemma_stored_last(self.addrs@, views, a, k as int);
                }
                self.tables[k].copy()
            },
            None => {
                proof {
                    lemma_stored_last(self.addrs@, views, a, -1);
                }
                let t = PageTable::new();
                assert(t@ =~= zero_table());
                t
            },
        }
    }

    /// Writes the table `t` into frame `a`.
    pub fn set_table(&mut self, a: u64, t: PageTable)
        requires
            old(self).wf(),
            t@.len() == N_PT_ENTRIES,
        ensures
            final(self).wf(),
            final(self)@ == old(self)@.insert(a, t@),
    {
        let ghost old_views = self.tables@.map_values(|x: PageTable| x@);
        let ghost tv = t@;
        match self.find_last(a) {
            Some(k) => {
                let _old = self.tables.remove(k);
                self.tables.insert(k, t);
                proof {
                    let views = self.tables@.map_values(|x: PageTable| x@);
                    assert(views =~= old_views.update(k as int, tv));
                    assert forall|b: u64| #[trigger] self@[b] == old(self)@.insert(a, tv)[b] by {
                        lemma_stored_update(self.addrs@, old_views, k as int, tv, b);
                    }
                    assert(self@ =~= old(self)@.insert(a, tv));
                }
            },
            None => {
                self.addrs.push(a);
                self.tables.push(t);
                proof {
                    let views = self.tables@.map_values(|x: PageTable| x@);
                    assert(views =~= old_views.push(tv));
                    assert forall|b: u64| #[trigger] self@[b] == old(self)@.insert(a, tv)[b] by {
                        lemma_stored_push(old(self).addrs@, old_views, a, tv, b);
                    }
                    assert(self@ =~= old(self)@.insert(a, tv));
                }
            },
        }
    }

    /// One step of a walk: in the table in frame `at`, the table of the next level
    /// for `vaddr` at `level`, mapping `new_table` when there is none (see
    /// `next_table`).
    pub fn next_table_at(
        &mut self,
        at: u64,
        vaddr: VirtualAddress,
        level: PageTableLevel,
        flags: u64,
        new_table: PhysicalAddress,
        paddr_width: u8,
    ) -> (r: Result<PhysicalAddress, Error>)
        requires
            old(self).wf(),
            paddr_width < 64,
        ensures
            final(self).wf(),
            (r, final(self)@) == ({
                let (r, t2) = next_table(old(self)@[at], vaddr, level, flags, new_table, paddr_width);
                (r, old(self)@.insert(at, t2))
            }),
    {
        let mut t = self.table(at);
        let r = t.get_or_map_table(vaddr, level, flags, new_table, paddr_width);
        self.set_table(at, t);
        r
    }

    /// Maps a page in entry `index` of the table in frame `at` (see `page_mapping`).
    pub fn map_page_at(
        &mut self,
        at: u64,
        size: PageSize,
        index: usize,
        paddr: PhysicalAddress,
        flags: u64,
        paddr_width: u8,
    ) -> (r: Result<(), Error>)
        requires
            old(self).wf(),
            index < N_PT_ENTRIES,
            paddr_width < 64,
        ensures
            final(self).wf(),
            (r, final(self)@) == ({
                let (r, t2) = page_mapping(old(self)@[at], size, index as int, paddr, flags, paddr_width);
                (r, old(self)@.insert(at, t2))
            }),
    {
        let mut t = self.table(at);
        let r = t.map_page(size, index, paddr, flags, paddr_width);
        self.set_table(at, t);
        r
    }

    /// Clears entry `index` of the table in frame `at` (see `page_unmapping`).
    pub fn unmap_page_at(&mut self, at: u64, size: PageSize, index: usize, paddr_width: u8) -> (r: Result<
        PhysicalAddress,
        Error,
    >)
        requires
            old(self).wf(),
            index < N_PT_ENTRIES,
            paddr_width < 64,
        ensures
            final(self).wf(),
            (r, final(self)@) == ({
                let (r, t2) = page_unmapping(old(self)@[at], index as int, paddr_width);
                (r, old(self)@.insert(at, t2))
            }),
    {
        let mut t = self.table(at);
        let r = t.unmap_page(size, index, paddr_width);
        self.set_table(at, t);
        r
    }
}

/// The level of the table at step `k` of a walk from the PML4.
pub open spec fn level_at(k: int) -> PageTableLevel {
    if k == 0 {
        PageTableLevel::PML4
    } else if k == 1 {
        PageTableLevel::PDPT
    } else if k == 2 {
        PageTableLevel::PD
    } else {
        PageTableLevel::PT
    }
}

/// The walk from the table in frame `at` at step `k` down to step `depth`: each step
/// takes the table of the next level (see `next_table`), pointing an absent entry at
/// the frame `frames[k]`. It gives the frame of the table it reaches, or the first
/// refusal, and the tables after it.
pub open spec fn walk_tables(
    m: Map<u64, Seq<u64>>,
    at: u64,
    vaddr: VirtualAddress,
    flags: u64,
    frames: Seq<PhysicalAddress>,
    paddr_width: u8,
    depth: int,
    k: int,
) -> (Result<u64, Error>, Map<u64, Seq<u64>>)
    decreases depth - k,
{
    if k >= depth {
        (Ok(at), m)
    } else {
        let (r, t2) = next_table(m[at], vaddr, level_at(k), flags, frames[k], paddr_width);
        let m2 = m.insert(at, t2);
        match r {
            Ok(p) => walk_tables(m2, p.bits, vaddr, flags, frames, paddr_width, depth, k + 1),
            Err(e) => (Err(e), m2),
        }
    }
}

/// The outcome of mapping a page of `size` for `vaddr` in the tables reached by a walk
/// of `depth` steps from the PML4 of `cr3`.
pub open spec fn map_through(
    m: Map<u64, Seq<u64>>,
    cr3: u64,
    vaddr: VirtualAddress,
    depth: int,
    size: PageSize,
    paddr: PhysicalAddress,
    flags: u64,
    frames: Seq<PhysicalAddress>,
    paddr_width: u8,
) -> (Result<(), Error>, Map<u64, Seq<u64>>) {
    let (w, m1) = walk_tables(m, pml4_of(cr3), vaddr, flags, frames, paddr_width, depth, 0);
    match w {
        Ok(t) => {
            let (r, t2) = page_mapping(m1[t], size, table_index(vaddr.bits, (39 - 9 * depth) as u64) as int, paddr, flags, paddr_width);
            (r, m1.insert(t, t2))
        },
        Err(e) => (Err(e), m1),
    }
}

/// The outcome of unmapping the page for `vaddr` in the table reached by a walk of
/// `depth` steps from the PML4 of `cr3` (walking with no flags).
pub open spec fn unmap_through(
    m: Map<u64, Seq<u64>>,
    cr3: u64,
    vaddr: VirtualAddress,
    depth: int,
    frames: Seq<PhysicalAddress>,
    paddr_width: u8,
) -> (Result<PhysicalAddress, Error>, Map<u64, Seq<u64>>) {
    let (w, m1) = walk_tables(m, pml4_of(cr3), vaddr, 0, frames, paddr_width, depth, 0);
    match w {
        Ok(t) => {
            let (r, t2) = page_unmapping(m1[t], table_index(vaddr.bits, (39 - 9 * depth) as u64) as int, paddr_width);
            (r, m1.insert(t, t2))
        },
        Err(e) => (Err(e), m1),
    }
}

/// The frames of the tables a walk passes through, in order.
pub open spec fn walk_frames(
    m: Map<u64, Seq<u64>>,
    at: u64,
    vaddr: VirtualAddress,
    flags: u64,
    frames: Seq<PhysicalAddress>,
    paddr_width: u8,
    depth: int,
    k: int,
) -> Seq<u64>
    decreases depth - k,
{
    if k >= depth {
        Seq::empty()
    } else {
        let (r, t2) = next_table(m[at], vaddr, level_at(k), flags, frames[k], paddr_width);
        match r {
            Ok(p) => seq![at] + walk_frames(m.insert(at, t2), p.bits, vaddr, flags, frames, paddr_width, depth, k + 1),
            Err(e) => seq![at],
        }
    }
}

/// A walk changes only the tables it passes through; each of them it changes once,
/// at its own step.
proof fn lemma_walk_changes_path(
    m: Map<u64, Seq<u64>>,
    at: u64,
    vaddr: VirtualAddress,
    flags: u64,
    frames: Seq<PhysicalAddress>,
    paddr_width: u8,
    depth: int,
    k: int,
    q: u64,
)
    requires
        0 <= k,
        walk_frames(m, at, vaddr, flags, frames, paddr_width, depth, k).no_duplicates(),
    ensures
        ({
            let path = walk_frames(m, at, vaddr, flags, frames, paddr_width, depth, k);
            let m1 = walk_tables(m, at, vaddr, flags, frames, paddr_width, depth, k).1;
            &&& !path.contains(q) ==> m1[q] == m[q]
            &&& (k < depth && q == at) ==> m1[q] == next_table(m[at], vaddr, level_at(k), flags, frames[k], paddr_width).1
            &&& m1.dom() == m.dom().union(m1.dom())
        }),
    decreases depth - k,
{
    if k < depth {
        let (r, t2) = next_table(m[at], vaddr, level_at(k), flags, frames[k], paddr_width);
        let m2 = m.insert(at, t2);
        let path = walk_frames(m, at, vaddr, flags, frames, paddr_width, depth, k);
        match r {
            Ok(p) => {
                let rest = walk_frames(m2, p.bits, vaddr, flags, frames, paddr_width, depth, k + 1);
                assert(path == seq![at] + rest);
                assert(rest =~= path.subrange(1, path.len() as int));
                assert(rest.no_duplicates());
                lemma_walk_changes_path(m2, p.bits, vaddr, flags, frames, paddr_width, depth, k + 1, q);
                if q == at {
                    assert(path[0] == at);
                    assert(!rest.contains(at)) by {
                        if rest.contains(at) {
                            let j = choose|j: int| 0 <= j < rest.len() && rest[j] == at;
                            assert(path[j + 1] == at);
                        }
                    }
                }
                if !path.contains(q) {
                    assert(q != at) by {
                        assert(path[0] == at);
                    }
                    assert(!rest.contains(q)) by {
                        if rest.contains(q) {
                            let j = choose|j: int| 0 <= j < rest.len() && rest[j] == q;
                            assert(path[j + 1] == q);
                        }
                    }
                }
            },
            Err(e) => {
                assert(path == seq![at]);
                if !path.contains(q) {
                    assert(path[0] == at);
                }
            },
        }
    }
}

/// A virtual address selects an entry within a table at every level.
proof fn lemma_level_index_bound(vaddr: VirtualAddress, level: PageTableLevel)
    ensures
        0 <= level_index(vaddr, level) < N_PT_ENTRIES,
{
    let v = vaddr.bits;
    assert((v >> 39u64) & 0x1FF < 512 && (v >> 30u64) & 0x1FF < 512 && (v >> 21u64) & 0x1FF < 512 && (v >> 12u64) & 0x1FF < 512)
        by (bit_vector);
}

/// The entry a walk step leaves behind is present and points at the table the step
/// went on to, so a later walk with no flags takes the same step without changing
/// anything.
proof fn lemma_step_repeats(
    t: Seq<u64>,
    vaddr: VirtualAddress,
    level: PageTableLevel,
    flags: u64,
    frame: PhysicalAddress,
    other: PhysicalAddress,
    paddr_width: u8,
)
    requires
        t.len() == N_PT_ENTRIES,
        12 <= paddr_width <= 52,
        flags & 1 != 0,
        flags & 0x80 == 0,
        frame.bits < (1u64 << paddr_width),
        next_table(t, vaddr, level, flags, frame, paddr_width).0 is Ok,
    ensures
        ({
            let (r, t2) = next_table(t, vaddr, level, flags, frame, paddr_width);
            next_table(t2, vaddr, level, 0, other, paddr_width) == (r, t2)
        }),
{
    let index = level_index(vaddr, level);
    lemma_level_index_bound(vaddr, level);
    if !pte_present(t[index]) {
        lemma_mapped_entry_reads_back(frame.bits, flags, PageSize::Standard, paddr_width);
        assert(page_flag_mask(PageSize::Standard) == FLAG_MASK);
    }
}

/// A second walk with no flags over the tables a first walk left (and that agree
/// with them on the first walk's path) takes the same path to the same table and
/// changes nothing.
proof fn lemma_rewalk(
    m: Map<u64, Seq<u64>>,
    m_after: Map<u64, Seq<u64>>,
    at: u64,
    vaddr: VirtualAddress,
    flags: u64,
    frames: Seq<PhysicalAddress>,
    paddr_width: u8,
    depth: int,
    k: int,
)
    requires
        0 <= k <= depth <= 3,
        frames.len() >= depth,
        12 <= paddr_width <= 52,
        flags & 1 != 0,
        flags & 0x80 == 0,
        forall|j: int| 0 <= j < frames.len() ==> #[trigger] frames[j].bits < (1u64 << paddr_width),
        forall|a: u64| #[trigger] m[a].len() == N_PT_ENTRIES,
        forall|a: u64| #[trigger] m_after.dom().contains(a),
        walk_tables(m, at, vaddr, flags, frames, paddr_width, depth, k).0 is Ok,
        walk_frames(m, at, vaddr, flags, frames, paddr_width, depth, k).no_duplicates(),
        forall|q: u64| walk_frames(m, at, vaddr, flags, frames, paddr_width, depth, k).contains(q)
            ==> #[trigger] m_after[q] == walk_tables(m, at, vaddr, flags, frames, paddr_width, depth, k).1[q],
    ensures
        walk_tables(m_after, at, vaddr, 0, frames, paddr_width, depth, k) == (
            walk_tables(m, at, vaddr, flags, frames, paddr_width, depth, k).0,
            m_after,
        ),
    decreases depth - k,
{
    if k < depth {
        let (r, t2) = next_table(m[at], vaddr, level_at(k), flags, frames[k], paddr_width);
        let m2 = m.insert(at, t2);
        let path = walk_frames(m, at, vaddr, flags, frames, paddr_width, depth, k);
        assert(path[0] == at);
        assert(path.contains(at));
        lemma_walk_changes_path(m, at, vaddr, flags, frames, paddr_width, depth, k, at);
        assert(m_after[at] == t2);
        lemma_step_repeats(m[at], vaddr, level_at(k), flags, frames[k], frames[k], paddr_width);
        let p = r->Ok_0;
        let rest = walk_frames(m2, p.bits, vaddr, flags, frames, paddr_width, depth, k + 1);
        assert(rest =~= path.subrange(1, path.len() as int));
        assert forall|q: u64| rest.contains(q) implies #[trigger] m_after[q] == walk_tables(
            m2,
            p.bits,
            vaddr,
            flags,
            frames,
            paddr_width,
            depth,
            k + 1,
        ).1[q] by {
            let j = choose|j: int| 0 <= j < rest.len() && rest[j] == q;
            assert(path[j + 1] == q);
        }
        lemma_level_index_bound(vaddr, level_at(k));
        assert forall|a: u64| #[trigger] m2[a].len() == N_PT_ENTRIES by {
            if a == at {
                assert(t2.len() == N_PT_ENTRIES);
            }
        }
        assert(m_after.insert(at, t2) =~= m_after);
        lemma_rewalk(m2, m_after, p.bits, vaddr, flags, frames, paddr_width, depth, k + 1);
    }
}

/// What a mapping gives back: after a page of `size` is mapped for `vaddr` through a
/// walk of `depth` steps (3 for 4 KiB pages, 2 for 2 MiB, 1 for 1 GiB), unmapping
/// `vaddr` through the same walk gives back the page's frame. This holds when the
/// tables the walk passes through, and the one the page is mapped in, are distinct
/// frames, the flags mark entries present without the page-size or large-page PAT
/// bits, and the frames are valid physical addresses.
pub proof fn lemma_map_then_unmap(
    m: Map<u64, Seq<u64>>,
    cr3: u64,
    vaddr: VirtualAddress,
    depth: int,
    size: PageSize,
    paddr: PhysicalAddress,
    flags: u64,
    frames: Seq<PhysicalAddress>,
    paddr_width: u8,
)
    requires
        1 <= depth <= 3,
        size == (if depth == 3 {
            PageSize::Standard
        } else if depth == 2 {
            PageSize::Large
        } else {
            PageSize::Huge
        }),
        12 <= paddr_width <= 52,
        forall|a: u64| #[trigger] m.dom().contains(a),
        forall|a: u64| #[trigger] m[a].len() == N_PT_ENTRIES,
        paddr.bits % PAGE_SIZE == 0,
        paddr.bits < (1u64 << paddr_width),
        flags & 1 != 0,
        flags & 0x80 == 0,
        flags & 0x1000 == 0,
        frames.len() >= depth,
        forall|j: int| 0 <= j < frames.len() ==> #[trigger] frames[j].bits < (1u64 << paddr_width),
        map_through(m, cr3, vaddr, depth, size, paddr, flags, frames, paddr_width).0 is Ok,
        walk_frames(m, pml4_of(cr3), vaddr, flags, frames, paddr_width, depth, 0).no_duplicates(),
        !walk_frames(m, pml4_of(cr3), vaddr, flags, frames, paddr_width, depth, 0).contains(
            walk_tables(m, pml4_of(cr3), vaddr, flags, frames, paddr_width, depth, 0).0->Ok_0,
        ),
    ensures
        unmap_through(map_through(m, cr3, vaddr, depth, size, paddr, flags, frames, paddr_width).1, cr3, vaddr, depth, frames, paddr_width).0
            == Ok::<PhysicalAddress, Error>(paddr),
{
    let pml4 = pml4_of(cr3);
    let (w, m1) = walk_tables(m, pml4, vaddr, flags, frames, paddr_width, depth, 0);
    let t = w->Ok_0;
    let index = table_index(vaddr.bits, (39 - 9 * depth) as u64) as int;
    lemma_walk_changes_path(m, pml4, vaddr, flags, frames, paddr_width, depth, 0, t);
    assert(m1[t] == m[t]);
    assert(0 <= index < N_PT_ENTRIES) by {
        let v = vaddr.bits;
        let sh = (39 - 9 * depth) as u64;
        assert((v >> sh) & 0x1FF < 512) by (bit_vector);
    }
    let (r, t3) = page_mapping(m1[t], size, index, paddr, flags, paddr_width);
    let m2 = m1.insert(t, t3);
    assert forall|a: u64| #[trigger] m2.dom().contains(a) by {
        lemma_walk_changes_path(m, pml4, vaddr, flags, frames, paddr_width, depth, 0, a);
        assert(m.dom().contains(a));
    }
    assert forall|q: u64| walk_frames(m, pml4, vaddr, flags, frames, paddr_width, depth, 0).contains(q) implies #[trigger] m2[q]
        == m1[q] by {
        assert(q != t);
    }
    lemma_rewalk(m, m2, pml4, vaddr, flags, frames, paddr_width, depth, 0);
    lemma_mapped_entry_reads_back(paddr.bits, flags, size, paddr_width);
    assert(t3[index] == mapped_entry(paddr.bits, flags, page_flag_mask(size), paddr_width));
}

/// A page map, known by its CR3 value.
#[derive(Debug)]
pub struct PageMap {
    cr3: u64,
}

impl View for PageMap {
    type V = u64;

    closed spec fn view(&self) -> u64 {
        self.cr3
    }
}

impl PageMap {
    /// A page map whose PML4 is the frame the frame allocator handed out; the
    /// allocator's refusal is passed on.
    pub fn try_new(frame: Result<PhysicalAddress, PmmError>) -> (r: Result<Self, Error>)
        ensures
            match frame {
                Ok(p) => r matches Ok(m) && m@ == p.bits,
                Err(e) => r matches Err(err) && err == Error::PmmError(e),
            },
    {
        match frame {
            Ok(p) => Ok(PageMap { cr3: p.bits() }),
            Err(e) => Err(Error::PmmError(e)),
        }
    }

    /// The page map of a CR3 value, refused when the value is not a valid physical
    /// address for `paddr_width` significant bits.
    pub fn from_cr3(cr3: u64, paddr_width: u8) -> (r: Result<Self, Error>)
        requires
            (paddr_width as u32) < usize::BITS,
        ensures
            (cr3 as usize) >> paddr_width == 0 ==> (r matches Ok(m) && m@ == cr3),
            (cr3 as usize) >> paddr_width != 0 ==> (r matches Err(e) && e == Error::InvalidAddress),
    {
        if Api::validate_paddr(cr3 as usize, paddr_width) == false {
            Err(Error::InvalidAddress)
        } else {
            Ok(PageMap { cr3 })
        }
    }

    /// The CR3 value.
    pub fn cr3(&self) -> (c: u64)
        ensures
            c == self@,
    {
        self.cr3
    }

    /// The physical address of the PML4.
    pub fn get_pml4_paddr(&self) -> (p: PhysicalAddress)
        ensures
            p.bits == pml4_of(self@),
    {
        PhysicalAddress::new(self.cr3 & !0xFFF)
    }

    /// The PCID.
    pub fn get_pcid(&self) -> (pcid: u16)
        ensures
            pcid == pcid_of(self@),
    {
        let c = self.cr3;
        assert(c & 0xFFF <= 0xFFF) by (bit_vector);
        (self.cr3 & 0xFFF) as u16
    }

    /// Gives a page map without a PCID the PCID `pcid`; one that already has a PCID
    /// refuses and stays as it is.
    pub fn set_pcid(&mut self, pcid: u16) -> (r: Result<(), Error>)
        ensures
            pcid_of(old(self)@) != 0 ==> r == Err::<(), Error>(Error::AlredyHasPcid) && final(self)@ == old(self)@,
            pcid_of(old(self)@) == 0 ==> r is Ok && final(self)@ == with_pcid(old(self)@, pcid),
    {
        if self.get_pcid() != 0 {
            Err(Error::AlredyHasPcid)
        } else {
            self.cr3 = (self.cr3 & !0xFFF) | pcid as u64;
            Ok(())
        }
    }

    /// The CR3 value to load into the processor; a page map without a PCID is refused.
    pub fn cr3_to_load(&self) -> (r: Result<u64, Error>)
        ensures
            pcid_of(self@) != 0 ==> r == Ok::<u64, Error>(self@),
            pcid_of(self@) == 0 ==> r == Err::<u64, Error>(Error::InvalidPcid),
    {
        if self.get_pcid() != 0 {
            Ok(self.cr3)
        } else {
            Err(Error::InvalidPcid)
        }
    }

    /// Walks `depth` steps (at most three) down from the PML4 for `vaddr`, mapping a
    /// table from `frames` (frames the caller took from the frame allocator, one per
    /// step) wherever one is missing; gives the frame of the table reached (see
    /// `walk_tables`).
    pub fn walk(
        &self,
        tables: &mut PageTables,
        vaddr: VirtualAddress,
        flags: u64,
        frames: &[PhysicalAddress],
        depth: usize,
        paddr_width: u8,
    ) -> (r: Result<u64, Error>)
        requires
            old(tables).wf(),
            depth <= 3,
            frames@.len() >= depth,
            paddr_width < 64,
        ensures
            final(tables).wf(),
            (r, final(tables)@) == walk_tables(old(tables)@, pml4_of(self@), vaddr, flags, frames@, paddr_width, depth as int, 0),
    {
        let mut at = self.cr3 & !0xFFF;
        let mut k: usize = 0;
        while k < depth
            invariant
                k <= depth <= 3,
                frames@.len() >= depth,
                paddr_width < 64,
                tables.wf(),
                walk_tables(old(tables)@, pml4_of(self@), vaddr, flags, frames@, paddr_width, depth as int, 0)
                    == walk_tables(tables@, at, vaddr, flags, frames@, paddr_width, depth as int, k as int),
            decreases depth - k,
        {
            let level = if k == 0 {
                PageTableLevel::PML4
            } else if k == 1 {
                PageTableLevel::PDPT
            } else {
                PageTableLevel::PD
            };
            match tables.next_table_at(at, vaddr, level, flags, frames[k], paddr_width) {
                Ok(p) => {
                    at = p.bits();
                },
                Err(e) => {
                    return Err(e);
                },
            }
            k = k + 1;
        }
        Ok(at)
    }

    /// Maps the 4 KiB page at `paddr` for `vaddr`: walks to the page table, mapping
    /// missing tables from `frames`, and maps the page in it. A `vaddr` that is not
    /// page aligned, or is null, is refused before anything changes.
    pub fn map_page(
        &self,
        tables: &mut PageTables,
        vaddr: VirtualAddress,
        paddr: PhysicalAddress,
        flags: u64,
        frames: &[PhysicalAddress],
        paddr_width: u8,
    ) -> (r: Result<(), Error>)
        requires
            old(tables).wf(),
            frames@.len() >= 3,
            paddr_width < 64,
        ensures
            final(tables).wf(),
            vaddr.bits % PAGE_SIZE != 0 ==> r == Err::<(), Error>(Error::InvalidVAddrAlignment) && final(tables)@ == old(tables)@,
            vaddr.bits % PAGE_SIZE == 0 && vaddr.bits == 0 ==> r == Err::<(), Error>(Error::InvalidAddress) && final(tables)@
                == old(tables)@,
            vaddr.bits % PAGE_SIZE == 0 && vaddr.bits != 0 ==> (r, final(tables)@) == map_through(
                old(tables)@,
                self@,
                vaddr,
                3,
                PageSize::Standard,
                paddr,
                flags,
                frames@,
                paddr_width,
            ),
    {
        if vaddr.is_aligned_to(PAGE_SIZE) == false {
            Err(Error::InvalidVAddrAlignment)
        } else if vaddr.is_null() {
            Err(Error::InvalidAddress)
        } else {
            let pt = match self.walk(tables, vaddr, flags, frames, 3, paddr_width) {
                Ok(t) => t,
                Err(e) => return Err(e),
            };
            tables.map_page_at(pt, PageSize::Standard, vaddr.pt_index(), paddr, flags, paddr_width)
        }
    }

    /// Unmaps the 4 KiB page mapped for `vaddr` and gives back its frame, which the
    /// caller returns to the frame allocator (see `unmap_through`).
    pub fn unmap_page(
        &self,
        tables: &mut PageTables,
        vaddr: VirtualAddress,
        frames: &[PhysicalAddress],
        paddr_width: u8,
    ) -> (r: Result<PhysicalAddress, Error>)
        requires
            old(tables).wf(),
            frames@.len() >= 3,
            paddr_width < 64,
        ensures
            final(tables).wf(),
            (r, final(tables)@) == unmap_through(old(tables)@, self@, vaddr, 3, frames@, paddr_width),
    {
        let pt = match self.walk(tables, vaddr, 0, frames, 3, paddr_width) {
            Ok(t) => t,
            Err(e) => return Err(e),
        };
        tables.unmap_page_at(pt, PageSize::Standard, vaddr.pt_index(), paddr_width)
    }

    /// Maps the 2 MiB page at `paddr` for `vaddr` in the page directory the walk
    /// reaches (see `map_through`).
    pub fn map_large_page(
        &self,
        tables: &mut PageTables,
        vaddr: VirtualAddress,
        paddr: PhysicalAddress,
        flags: u64,
        frames: &[PhysicalAddress],
        paddr_width: u8,
    ) -> (r: Result<(), Error>)
        requires
            old(tables).wf(),
            frames@.len() >= 2,
            paddr_width < 64,
        ensures
            final(tables).wf(),
            (r, final(tables)@) == map_through(old(tables)@, self@, vaddr, 2, PageSize::Large, paddr, flags, frames@, paddr_width),
    {
        let pd = match self.walk(tables, vaddr, flags, frames, 2, paddr_width) {
            Ok(t) => t,
            Err(e) => return Err(e),
        };
        tables.map_page_at(pd, PageSize::Large, vaddr.pd_index(), paddr, flags, paddr_width)
    }

    /// Unmaps the 2 MiB page mapped for `vaddr` and gives back its base frame; the
    /// caller returns its frames to the frame allocator (see `unmap_through`).
    pub fn unmap_large_page(
        &self,
        tables: &mut PageTables,
        vaddr: VirtualAddress,
        frames: &[PhysicalAddress],
        paddr_width: u8,
    ) -> (r: Result<PhysicalAddress, Error>)
        requires
            old(tables).wf(),
            frames@.len() >= 2,
            paddr_width < 64,
        ensures
            final(tables).wf(),
            (r, final(tables)@) == unmap_through(old(tables)@, self@, vaddr, 2, frames@, paddr_width),
    {
        let pd = match self.walk(tables, vaddr, 0, frames, 2, paddr_width) {
            Ok(t) => t,
            Err(e) => return Err(e),
        };
        tables.unmap_page_at(pd, PageSize::Large, vaddr.pd_index(), paddr_width)
    }

    /// Maps the 1 GiB page at `paddr` for `vaddr` in the PDPT the walk reaches (see
    /// `map_through`); refused when the processor does not map huge pages.
    pub fn map_huge_page(
        &self,
        tables: &mut PageTables,
        vaddr: VirtualAddress,
        paddr: PhysicalAddress,
        flags: u64,
        frames: &[PhysicalAddress],
        huge_pages_supported: bool,
        paddr_width: u8,
    ) -> (r: Result<(), Error>)
        requires
            old(tables).wf(),
            frames@.len() >= 1,
            paddr_width < 64,
        ensures
            final(tables).wf(),
            !huge_pages_supported ==> r == Err::<(), Error>(Error::UnsupportedOperation) && final(tables)@ == old(tables)@,
            huge_pages_supported ==> (r, final(tables)@) == map_through(
                old(tables)@,
                self@,
                vaddr,
                1,
                PageSize::Huge,
                paddr,
                flags,
                frames@,
                paddr_width,
            ),
    {
        if huge_pages_supported == false {
            Err(Error::UnsupportedOperation)
        } else {
            let pdpt = match self.walk(tables, vaddr, flags, frames, 1, paddr_width) {
                Ok(t) => t,
                Err(e) => return Err(e),
            };
            tables.map_page_at(pdpt, PageSize::Huge, vaddr.pdpt_index(), paddr, flags, paddr_width)
        }
    }

    /// Unmaps the 1 GiB page mapped for `vaddr` and gives back its base frame (see
    /// `unmap_through`); refused when the processor does not map huge pages.
    pub fn unmap_huge_page(
        &self,
        tables: &mut PageTables,
        vaddr: VirtualAddress,
        frames: &[PhysicalAddress],
        huge_pages_supported: bool,
        paddr_width: u8,
    ) -> (r: Result<PhysicalAddress, Error>)
        requires
            old(tables).wf(),
            frames@.len() >= 1,
            paddr_width < 64,
        ensures
            final(tables).wf(),
            !huge_pages_supported ==> r == Err::<PhysicalAddress, Error>(Error::UnsupportedOperation) && final(tables)@
                == old(tables)@,
            huge_pages_supported ==> (r, final(tables)@) == unmap_through(old(tables)@, self@, vaddr, 1, frames@, paddr_width),
    {
        if huge_pages_supported == false {
            Err(Error::UnsupportedOperation)
        } else {
            let pdpt = match self.walk(tables, vaddr, 0, frames, 1, paddr_width) {
                Ok(t) => t,
                Err(e) => return Err(e),
            };
            tables.unmap_page_at(pdpt, PageSize::Huge, vaddr.pdpt_index(), paddr_width)
        }
    }

    /// Whether `n_frames` frames from `base` are free to map. The frames are split into
    /// the PDPT, PD and PT entries they would take; the check itself is not done yet
    /// and every region is reported available.
    pub fn is_region_available(&self, base: VirtualAddress, n_frames: usize) -> (r: bool)
        ensures
            r,
    {
        let n_pdpt_entries = n_frames / N_FRAMES_PDPT;
        let pdpt_rem: usize = n_frames % N_FRAMES_PDPT;
        let n_pd_entries = pdpt_rem / N_FRAMES_PD;
        let pd_rem: usize = pdpt_rem % N_FRAMES_PD;
        let n_pt_entries = pd_rem;
        true
    }
}

/// Giving a page map a PCID below 4096 makes that its PCID and keeps its PML4
/// address; a larger value would spill into the address bits.
pub proof fn lemma_set_pcid_reads_back(cr3: u64, pcid: u16)
    requires
        pcid < 0x1000,
    ensures
        pcid_of(with_pcid(cr3, pcid)) == pcid,
        pml4_of(with_pcid(cr3, pcid)) == pml4_of(cr3),
{
    let p = pcid as u64;
    assert(((cr3 & !0xFFFu64) | p) & 0xFFF == p && ((cr3 & !0xFFFu64) | p) & !0xFFFu64 == cr3 & !0xFFFu64)
        by (bit_vector)
        requires
            p < 0x1000,
    ;
}

} // verus!
