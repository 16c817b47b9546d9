//! Enumeration of the processors' local APICs.

use vstd::prelude::*;
use crate::acpi::madt::{Madt, MadtEntry, ProcessorLocalApic, madt_entries, madt_walk_ok};
use crate::acpi::tables::SDT_HEADER_LEN;
use crate::interrupts::apic::lemma_madt_walk_step;

verus! {

/// Slot `k` of the processor list: the local APIC record of the `k`th interrupt
/// controller structure, when that structure is one.
pub open spec fn apic_list_slot(entries: Seq<MadtEntry>, k: int) -> Option<ProcessorLocalApic> {
    if k < entries.len() {
        match entries[k] {
            MadtEntry::ProcessorLocalApic(l) => Some(l),
            _ => None,
        }
    } else {
        None
    }
}

/// Lists the processor local APICs of the MADT, each at the position of its
/// structure among all structures. A processor record must not come after the 256th
/// structure.
pub fn list_apics(madt: &Madt, mem: &[u8]) -> (list: [Option<ProcessorLocalApic>; 256])
    requires
        madt.spec_header().spec_length() >= SDT_HEADER_LEN + 8,
        madt_walk_ok(mem@, madt.entries_base(), 0, madt.entries_len()),
        forall|k: int|
            256 <= k < madt_entries(mem@, madt.entries_base(), 0, madt.entries_len()).len()
                ==> !(#[trigger] madt_entries(mem@, madt.entries_base(), 0, madt.entries_len())[k] is ProcessorLocalApic),
    ensures
        forall|k: int|
            0 <= k < 256 ==> #[trigger] list@[k] == apic_list_slot(
                madt_entries(mem@, madt.entries_base(), 0, madt.entries_len()),
                k,
            ),
{
    let ghost base = madt.entries_base();
    let ghost len = madt.entries_len();
    let ghost all = madt_entries(mem@, base, 0, len);
    let mut list: [Option<ProcessorLocalApic>; 256] = [None; 256];
    let mut i: usize = 0;
    let mut itr = madt.iter();
    proof {
        lemma_madt_walk_step(mem@, base, 0, len);
    }
    loop
        invariant
            itr.spec_addr() == base,
            itr.spec_len() == len,
            madt_walk_ok(mem@, base, itr.spec_offset() as int, len),
            i <= all.len(),
            madt_entries(mem@, base, itr.spec_offset() as int, len) == all.subrange(i as int, all.len() as int),
            forall|k: int| 256 <= k < all.len() ==> !(#[trigger] all[k] is ProcessorLocalApic),
            forall|k: int| 0 <= k < 256 ==> #[trigger] list@[k] == (if k < i { apic_list_slot(all, k) } else { None }),
            all.len() <= len <= u32::MAX,
        ensures
            forall|k: int| 0 <= k < 256 ==> #[trigger] list@[k] == apic_list_slot(all, k),
        decreases (if itr.spec_offset() >= len { 0 } else { len - itr.spec_offset() }),
    {
        let ghost off = itr.spec_offset() as int;
        proof {
            lemma_madt_walk_step(mem@, base, off, len);
        }
        match itr.next(mem) {
            Some(entry) => {
                assert(all.subrange(i as int, all.len() as int)[0] == entry);
                assert(all[i as int] == entry);
                assert(all.subrange(i + 1, all.len() as int) =~= all.subrange(i as int, all.len() as int).drop_first());
                if let MadtEntry::ProcessorLocalApic(lapic) = entry {
                    list[i] = Some(lapic);
                }
                i = i + 1;
            },
            None => {
                assert(all.subrange(i as int, all.len() as int).len() == 0);
                assert forall|k: int| 0 <= k < 256 implies #[trigger] list@[k] == apic_list_slot(all, k) by {
                    if k >= i {
                        assert(k >= all.len());
                    }
                }
                break;
            },
        }
    }
    list
}

} // verus!
