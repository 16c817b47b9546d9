//! Local APIC register programming.
//!
//! Register accesses are memory-mapped I/O that the kernel performs; the functions
//! here decide which registers get which values.

use vstd::prelude::*;
use crate::acpi::madt::{Madt, MadtEntry, madt_entries, madt_entry_at, madt_walk_ok, entry_readable};
use crate::acpi::tables::SDT_HEADER_LEN;
use crate::cpu::MSRValue;

verus! {

pub const LAPIC_ID: u32 = 0x020;
pub const LAPIC_VERSION: u32 = 0x030;
pub const TASK_PRIORITY_TPR: u32 = 0x080;
pub const EOI_REGISTER: u32 = 0x0B0;
pub const LOGICAL_DESTINATION: u32 = 0x0D0;
pub const DESTINATION_FORMAT: u32 = 0x0E0;
pub const SPURIOUS_INTERRUPT_VECTOR: u32 = 0x0F0;
pub const LVT_TIMER: u32 = 0x320;
pub const LVT_PERFORMANCE_MONITORING_COUNTERS: u32 = 0x340;
pub const LVT_LINT0: u32 = 0x350;
pub const LVT_LINT1: u32 = 0x360;
pub const TIMER_INIT_COUNT: u32 = 0x380;
pub const TIMER_CURRENT: u32 = 0x390;
pub const TIMER_DIVISOR: u32 = 0x3E0;
pub const APIC_DISABLE: u32 = 0x10000;
pub const APIC_NMI: u32 = 0x400;
pub const APIC_SW_ENABLE: u32 = 0x100;

/// The only base address the kernel drives the local APIC at.
pub const APIC_DEFAULT_BASE: usize = 0xFEE00000;

/// One write of `value` to the local APIC register at `offset`.
#[derive(Copy, Clone, Debug, PartialEq, Eq)]
pub struct ApicRegWrite {
    pub offset: u32,
    pub value: u32,
}

/// Timer modes, selected by bits 17 and 18 of the LVT timer register.
#[derive(Copy, Clone, Debug, PartialEq, Eq)]
pub enum TimerMode {
    Oneshot,
    Periodic,
    TscDeadline,
}

impl TimerMode {
    pub open spec fn spec_bits(self) -> u32 {
        match self {
            TimerMode::Oneshot => 0,
            TimerMode::Periodic => 0x20000,
            TimerMode::TscDeadline => 0x40000,
        }
    }

    /// The mode bits of the LVT timer register.
    pub fn bits(self) -> (b: u32)
        ensures
            b == self.spec_bits(),
    {
        match self {
            TimerMode::Oneshot => 0x00,
            TimerMode::Periodic => 0x20000,
            TimerMode::TscDeadline => 0x40000,
        }
    }
}

/// The local APIC base address the MADT gives: its local APIC address, replaced by
/// the address of each address override structure in turn, so that the last wins.
pub open spec fn apic_addr_from(entries: Seq<MadtEntry>, addr: usize) -> usize
    decreases entries.len(),
{
    if entries.len() == 0 {
        addr
    } else {
        let next = match entries[0] {
            MadtEntry::LocalApicAddressOverride(o) => o.local_apic_address as usize,
            _ => addr,
        };
        apic_addr_from(entries.drop_first(), next)
    }
}

/// One step of a walk over the interrupt controller structures.
pub proof fn lemma_madt_walk_step(mem: Seq<u8>, base: int, off: int, len: int)
    requires
        madt_walk_ok(mem, base, off, len),
    ensures
        off < len ==> {
            &&& entry_readable(mem, base + off)
            &&& mem[base + off + 1] > 0
            &&& madt_walk_ok(mem, base, off + mem[base + off + 1], len)
            &&& madt_entries(mem, base, off, len) == seq![madt_entry_at(mem, base + off)] + madt_entries(
                mem,
                base,
                off + mem[base + off + 1],
                len,
            )
        },
        off >= len ==> madt_entries(mem, base, off, len) == Seq::<MadtEntry>::empty(),
        madt_entries(mem, base, off, len).len() <= if off >= len { 0 } else { len - off },
    decreases if off >= len { 0 } else { len - off },
{
    if off < len {
        lemma_madt_walk_step(mem, base, off + mem[base + off + 1], len);
    }
}

pub struct Apic {
    base_phys_addr: usize,
    base_mapped_addr: Option<usize>,
    pub tps: u64,
    pub lvt_max: u8,
}

impl Apic {
    pub closed spec fn spec_base_phys_addr(&self) -> usize {
        self.base_phys_addr
    }

    pub closed spec fn spec_base_mapped_addr(&self) -> Option<usize> {
        self.base_mapped_addr
    }

    pub closed spec fn spec_tps(&self) -> u64 {
        self.tps
    }

    pub closed spec fn spec_lvt_max(&self) -> u8 {
        self.lvt_max
    }

    /// The address registers are accessed at: the mapped base when there is one,
    /// else the physical base.
    pub open spec fn spec_addr(&self) -> usize {
        match self.spec_base_mapped_addr() {
            Some(a) => a,
            None => self.spec_base_phys_addr(),
        }
    }

    /// An APIC at the base address the MADT gives, not yet mapped or measured.
    pub fn new(madt: &Madt, mem: &[u8]) -> (a: Apic)
        requires
            madt.spec_header().spec_length() >= SDT_HEADER_LEN + 8,
            madt_walk_ok(mem@, madt.entries_base(), 0, madt.entries_len()),
        ensures
            a.spec_base_phys_addr() == apic_addr_from(
                madt_entries(mem@, madt.entries_base(), 0, madt.entries_len()),
                madt.spec_local_apic_addr() as usize,
            ),
            a.spec_base_mapped_addr() is None,
            a.spec_tps() == 0,
            a.spec_lvt_max() == 0,
    {
        let addr = Self::get_apic_addr(madt, mem);
        Apic { base_phys_addr: addr, base_mapped_addr: None, tps: 0, lvt_max: 0 }
    }

    /// The measured timer rate, in ticks per second.
    pub fn tps(&self) -> (t: u64)
        ensures
            t == self.spec_tps(),
    {
        self.tps
    }

    pub fn get_addr(&self) -> (a: usize)
        ensures
            a == self.spec_addr(),
    {
        match self.base_mapped_addr {
            Some(a) => a,
            None => self.base_phys_addr,
        }
    }

    /// Brings the APIC to a known state, given the version register and the logical
    /// destination register it reads and the timer rate it measured. Records the
    /// number of LVT entries and the rate, and returns the register writes, in order:
    /// flat destination format, logical destination with its low 24 bits kept,
    /// spurious vector 0x27 with the software enable bit, timer masked, performance
    /// counters as NMI, both LINT pins masked, task priority 15.
    /// The APIC must be at 0xFEE00000.
    pub fn init(&mut self, version_reg: u32, logical_destination_reg: u32, ticks_per_second: u64) -> (writes: Vec<ApicRegWrite>)
        requires
            old(self).spec_addr() == APIC_DEFAULT_BASE,
        ensures
            final(self).spec_lvt_max() == (((version_reg & 0xff0000) >> 16) + 1) as u8,
            final(self).spec_tps() == ticks_per_second,
            final(self).spec_base_phys_addr() == old(self).spec_base_phys_addr(),
            final(self).spec_base_mapped_addr() == old(self).spec_base_mapped_addr(),
            writes@ == seq![
                ApicRegWrite { offset: DESTINATION_FORMAT, value: 0xFFFFFFFF },
                ApicRegWrite { offset: LOGICAL_DESTINATION, value: logical_destination_reg & 0x00FFFFFF },
                ApicRegWrite { offset: SPURIOUS_INTERRUPT_VECTOR, value: 0x127 },
                ApicRegWrite { offset: LVT_TIMER, value: APIC_DISABLE },
                ApicRegWrite { offset: LVT_PERFORMANCE_MONITORING_COUNTERS, value: APIC_NMI },
                ApicRegWrite { offset: LVT_LINT0, value: APIC_DISABLE },
                ApicRegWrite { offset: LVT_LINT1, value: APIC_DISABLE },
                ApicRegWrite { offset: TASK_PRIORITY_TPR, value: 15 },
            ],
    {
        let max_lvt = (0xffu32 << 16) & version_reg;
        assert(max_lvt == version_reg & 0xff0000) by (bit_vector)
            requires max_lvt == (0xffu32 << 16) & version_reg;
        assert((max_lvt >> 16) <= 0xff) by (bit_vector)
            requires max_lvt == (0xffu32 << 16) & version_reg;
        self.lvt_max = ((max_lvt >> 16) + 1) as u8;
        let mut writes: Vec<ApicRegWrite> = Vec::new();
        writes.push(ApicRegWrite { offset: DESTINATION_FORMAT, value: 0x0FFFFFFFF });
        writes.push(ApicRegWrite { offset: LOGICAL_DESTINATION, value: logical_destination_reg & 0x00FFFFFF });
        writes.push(ApicRegWrite { offset: SPURIOUS_INTERRUPT_VECTOR, value: 0x27 + APIC_SW_ENABLE });
        writes.push(ApicRegWrite { offset: LVT_TIMER, value: APIC_DISABLE });
        writes.push(ApicRegWrite { offset: LVT_PERFORMANCE_MONITORING_COUNTERS, value: APIC_NMI });
        writes.push(ApicRegWrite { offset: LVT_LINT0, value: APIC_DISABLE });
        writes.push(ApicRegWrite { offset: LVT_LINT1, value: APIC_DISABLE });
        writes.push(ApicRegWrite { offset: TASK_PRIORITY_TPR, value: 15 });
        self.tps = ticks_per_second;
        writes
    }

    /// The timer rate from the ticks counted over a measuring interval of
    /// `duration_ms` milliseconds (the APIC measures over 100 ms).
    pub fn calculate_bus_speed(ticks: u64, duration_ms: u64) -> (r: u64)
        requires
            duration_ms > 0,
        ensures
            r == ticks / duration_ms,
    {
        ticks / duration_ms
    }

    /// The initial count register write for a timer firing `frequency` times per
    /// second at the measured rate of `ticks_per_second` (truncated to 32 bits).
    pub fn set_timer_counter(&self, frequency: u32, ticks_per_second: u64) -> (w: ApicRegWrite)
        requires
            frequency > 0,
        ensures
            w == (ApicRegWrite { offset: TIMER_INIT_COUNT, value: (ticks_per_second / frequency as u64) as u32 }),
    {
        let counter_value = ticks_per_second / frequency as u64;
        ApicRegWrite { offset: TIMER_INIT_COUNT, value: counter_value as u32 }
    }

    /// The divide configuration register write.
    pub fn set_timer_divisor(&self, divisor: u8) -> (w: ApicRegWrite)
        ensures
            w == (ApicRegWrite { offset: TIMER_DIVISOR, value: divisor as u32 }),
    {
        ApicRegWrite { offset: TIMER_DIVISOR, value: divisor as u32 }
    }

    /// The LVT timer register value: the vector, the mode bits, and the mask bit
    /// (bit 16) when the timer is not enabled.
    pub open spec fn lvt_timer_value(mode: TimerMode, enabled: bool, vector: u8) -> u32 {
        if enabled {
            vector as u32 | mode.spec_bits()
        } else {
            vector as u32 | mode.spec_bits() | 0x10000
        }
    }

    /// The LVT timer register write.
    pub fn set_lvt_timer_register(&self, mode: TimerMode, enabled: bool, vector: u8) -> (w: ApicRegWrite)
        ensures
            w == (ApicRegWrite { offset: LVT_TIMER, value: Self::lvt_timer_value(mode, enabled, vector) }),
    {
        let mut value = vector as u32;
        value = value | mode.bits();
        if !enabled {
            value = value | 0x10000;
        }
        ApicRegWrite { offset: LVT_TIMER, value }
    }

    /// Sets up the timer: divisor, LVT timer on vector 32 in the given mode and
    /// enabled, divisor again, then the initial count; the writes in that order.
    pub fn setup_timer(&self, mode: TimerMode, frequency: u32, divisor: u8, ticks_per_second: u64) -> (writes: Vec<ApicRegWrite>)
        requires
            frequency > 0,
        ensures
            writes@ == seq![
                ApicRegWrite { offset: TIMER_DIVISOR, value: divisor as u32 },
                ApicRegWrite { offset: LVT_TIMER, value: Self::lvt_timer_value(mode, true, 32) },
                ApicRegWrite { offset: TIMER_DIVISOR, value: divisor as u32 },
                ApicRegWrite { offset: TIMER_INIT_COUNT, value: (ticks_per_second / frequency as u64) as u32 },
            ],
    {
        let mut writes: Vec<ApicRegWrite> = Vec::new();
        writes.push(self.set_timer_divisor(divisor));
        writes.push(self.set_lvt_timer_register(mode, true, 32));
        writes.push(self.set_timer_divisor(divisor));
        writes.push(self.set_timer_counter(frequency, ticks_per_second));
        writes
    }

    /// The end-of-interrupt write.
    pub fn write_eoi(&self) -> (w: ApicRegWrite)
        ensures
            w == (ApicRegWrite { offset: EOI_REGISTER, value: 1 }),
    {
        ApicRegWrite { offset: EOI_REGISTER, value: 1 }
    }

    /// The local APIC base address from the MADT: the last address override wins
    /// over the table's local APIC address.
    pub fn get_apic_addr(madt: &Madt, mem: &[u8]) -> (addr: usize)
        requires
            madt.spec_header().spec_length() >= SDT_HEADER_LEN + 8,
            madt_walk_ok(mem@, madt.entries_base(), 0, madt.entries_len()),
        ensures
            addr == apic_addr_from(
                madt_entries(mem@, madt.entries_base(), 0, madt.entries_len()),
                madt.spec_local_apic_addr() as usize,
            ),
    {
        let ghost base = madt.entries_base();
        let ghost len = madt.entries_len();
        let ghost goal = apic_addr_from(madt_entries(mem@, base, 0, len), madt.spec_local_apic_addr() as usize);
        let mut addr = madt.local_apic_addr() as usize;
        let mut itr = madt.iter();
        loop
            invariant
                itr.spec_addr() == base,
                itr.spec_len() == len,
                madt_walk_ok(mem@, base, itr.spec_offset() as int, len),
                apic_addr_from(madt_entries(mem@, base, itr.spec_offset() as int, len), addr) == goal,
            ensures
                addr == goal,
            decreases (if itr.spec_offset() >= len { 0 } else { len - itr.spec_offset() }),
        {
            let ghost off = itr.spec_offset() as int;
            proof {
                lemma_madt_walk_step(mem@, base, off, len);
            }
            match itr.next(mem) {
                Some(entry) => {
                    let ghost rest = madt_entries(mem@, base, itr.spec_offset() as int, len);
                    assert((seq![entry] + rest).drop_first() =~= rest);
                    if let MadtEntry::LocalApicAddressOverride(addr_o) = entry {
                        addr = addr_o.local_apic_address as usize;
                    }
                },
                None => {
                    break;
                },
            }
        }
        addr
    }

    /// The APIC base MSR value with the global enable bit (bit 11 of the low half)
    /// set, or toggled when disabling.
    pub fn enable_apic(msr: MSRValue, enable: bool) -> (r: MSRValue)
        ensures
            r.edx == msr.edx,
            r.eax == (if enable {
                msr.eax | 0x800
            } else {
                msr.eax ^ 0x800
            }),
    {
        let mut msr = msr;
        if enable {
            msr.eax = msr.eax | 0x800;
        } else {
            msr.eax = msr.eax ^ 0x800;
        }
        msr
    }

    /// Whether the APIC base MSR value has the global enable bit set.
    pub fn is_apic_enabled(msr: MSRValue) -> (r: bool)
        ensures
            r == (msr.eax & 0x800 != 0),
    {
        (msr.eax & 0x800) != 0
    }

    /// Whether the processor has an APIC, from EDX of CPUID leaf 1 (bit 9).
    pub fn is_present(cpuid_edx: u32) -> (r: bool)
        ensures
            r == (cpuid_edx & 0x200 == 0x200),
    {
        assert(1u32 << 9u32 == 0x200) by (bit_vector);
        let feat_edx_apic: u32 = 1 << 9;
        (cpuid_edx & feat_edx_apic) == feat_edx_apic
    }
}

} // verus!
