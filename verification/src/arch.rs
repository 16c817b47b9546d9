//! The architecture interface of the x86_64 kernel: paging parameters, address
//! validation, and the choice of the APIC timer's divisor and count.

use vstd::prelude::*;

use crate::acpi::AcpiTables;
use crate::interrupts::apic::{Apic, ApicRegWrite, TimerMode, LVT_TIMER, TIMER_DIVISOR, TIMER_INIT_COUNT};

verus! {

/// Kinds of kernel memory a mapping can be made for.
#[derive(Copy, Clone, Debug, PartialEq, Eq)]
pub enum MemType {
    KernelReadWrite,
    KernelReadOnly,
    KernelReadExecute,
}

/// Whether a hardware timer fires once or again and again.
#[derive(Copy, Clone, Debug, PartialEq, Eq)]
pub enum HwTimerMode {
    OneShot,
    Recurrent,
}

impl HwTimerMode {
    pub open spec fn spec_apic_mode(self) -> TimerMode {
        match self {
            HwTimerMode::OneShot => TimerMode::Oneshot,
            HwTimerMode::Recurrent => TimerMode::Periodic,
        }
    }

    /// The APIC timer mode that runs a timer in this mode.
    pub fn apic_mode(self) -> (m: TimerMode)
        ensures
            m == self.spec_apic_mode(),
    {
        match self {
            HwTimerMode::OneShot => TimerMode::Oneshot,
            HwTimerMode::Recurrent => TimerMode::Periodic,
        }
    }
}

/// Paging parameters of an instruction set.
#[derive(Copy, Clone, Debug, PartialEq, Eq)]
pub struct PagingParams {
    pub page_size: usize,
    pub page_shift: usize,
    pub page_mask: usize,
}

/// Parameters of an instruction set.
#[derive(Copy, Clone, Debug, PartialEq, Eq)]
pub struct IsaParams {
    pub paging: PagingParams,
}

/// The x86_64 parameters: 4 KiB pages.
pub fn isa_params() -> (p: IsaParams)
    ensures
        p.paging.page_size == 0x1000,
        p.paging.page_shift == 0xC,
        p.paging.page_mask == !0xfffusize,
{
    IsaParams { paging: PagingParams { page_size: 0x1000, page_shift: 0xC, page_mask: !0xfffusize } }
}

/// The largest count the APIC timer register holds.
pub const TIMER_COUNT_LIMIT: u64 = 0xFFFF_FFFF;

/// The timer count for divisor `d`: the ticks per second of the divided APIC clock
/// over ten times the requested rate.
pub open spec fn timer_count(apic_tps: u64, tps: u32, d: u64) -> u64 {
    (apic_tps / d) / ((tps as u64 * 10) as u64)
}

/// The divisors the timer setup tries, in order.
pub open spec fn is_tried_divisor(d: u64) -> bool {
    d == 1 || d == 2 || d == 4 || d == 8 || d == 16 || d == 32 || d == 64
}

/// The divisor and count the timer setup picks: the first of 1, 2, 4, .., 64 whose
/// count is below `TIMER_COUNT_LIMIT`; when none is, divisor 128 with the count of 64.
pub open spec fn isa_timer_setting(apic_tps: u64, tps: u32) -> (u8, u64) {
    let c = |d: u64| timer_count(apic_tps, tps, d);
    if c(1) < TIMER_COUNT_LIMIT {
        (1u8, c(1))
    } else if c(2) < TIMER_COUNT_LIMIT {
        (2u8, c(2))
    } else if c(4) < TIMER_COUNT_LIMIT {
        (4u8, c(4))
    } else if c(8) < TIMER_COUNT_LIMIT {
        (8u8, c(8))
    } else if c(16) < TIMER_COUNT_LIMIT {
        (16u8, c(16))
    } else if c(32) < TIMER_COUNT_LIMIT {
        (32u8, c(32))
    } else if c(64) < TIMER_COUNT_LIMIT {
        (64u8, c(64))
    } else {
        (128u8, c(64))
    }
}

/// The x86_64 implementation of the architecture interface.
pub struct Api {
    acpi_info: AcpiTables,
    bsp_apic: Apic,
    irq_flags: u64,
}

impl Api {
    pub closed spec fn spec_bsp_apic(&self) -> Apic {
        self.bsp_apic
    }

    pub closed spec fn spec_acpi_info(&self) -> AcpiTables {
        self.acpi_info
    }

    pub closed spec fn spec_irq_flags(&self) -> u64 {
        self.irq_flags
    }

    /// The interface over the parsed ACPI tables and the bootstrap processor's APIC.
    pub fn new(acpi_info: AcpiTables, bsp_apic: Apic) -> (api: Api)
        ensures
            api.spec_acpi_info() == acpi_info,
            api.spec_bsp_apic() == bsp_apic,
            api.spec_irq_flags() == 0,
    {
        Api { acpi_info, bsp_apic, irq_flags: 0 }
    }

    /// The parsed ACPI tables.
    pub fn acpi_info(&self) -> (t: &AcpiTables)
        ensures
            *t == self.spec_acpi_info(),
    {
        &self.acpi_info
    }

    /// The bootstrap processor's APIC.
    pub fn bsp_apic(&self) -> (a: &Apic)
        ensures
            *a == self.spec_bsp_apic(),
    {
        &self.bsp_apic
    }

    /// Whether `raw` is a valid physical address on a processor with `paddr_width`
    /// significant physical address bits: no bit at or above that width is set.
    pub fn validate_paddr(raw: usize, paddr_width: u8) -> (r: bool)
        requires
            (paddr_width as u32) < usize::BITS,
        ensures
            r == (raw >> paddr_width == 0),
    {
        let w = paddr_width as usize;
        assert((1usize << w) >= 1) by (bit_vector)
            requires
                w < usize::BITS,
        ;
        let low: usize = (1usize << w) - 1;
        let unused_bitmask: usize = !low;
        assert((raw & !low == 0) == (raw >> w == 0)) by (bit_vector)
            requires
                w < usize::BITS,
                low == (1usize << w) - 1,
        ;
        assert((raw >> w) == (raw >> paddr_width));
        raw & unused_bitmask == 0
    }

    /// Whether `raw` is a canonical virtual address for `vaddr_width` significant
    /// virtual address bits: with 48 bits, bits 47 to 63 are all clear or all set;
    /// with 57 bits, the check covers bits 49 to 63. Other widths are not valid.
    pub fn validate_vaddr(raw: u64, vaddr_width: u8) -> (r: bool)
        ensures
            r == (if vaddr_width == 48 {
                raw >> 47u64 == 0 || raw >> 47u64 == 0x1FFFF
            } else if vaddr_width == 57 {
                raw >> 49u64 == 0 || raw >> 49u64 == 0x7FFF
            } else {
                false
            }),
    {
        match vaddr_width {
            48 => {
                let masked = raw & 0xFFFF800000000000;
                assert((raw & 0xFFFF800000000000u64 == 0 || raw & 0xFFFF800000000000u64 == 0xFFFF800000000000u64)
                    == (raw >> 47u64 == 0 || raw >> 47u64 == 0x1FFFF)) by (bit_vector);
                masked == 0 || masked == 0xFFFF800000000000
            },
            57 => {
                let masked = raw & 0xFFFE000000000000;
                assert((raw & 0xFFFE000000000000u64 == 0 || raw & 0xFFFE000000000000u64 == 0xFFFE000000000000u64)
                    == (raw >> 49u64 == 0 || raw >> 49u64 == 0x7FFF)) by (bit_vector);
                masked == 0 || masked == 0xFFFE000000000000
            },
            _ => false,
        }
    }

    /// Sets up the bootstrap processor's APIC timer to fire `tps` times per second in
    /// the given mode, and returns the APIC register writes that do it. The divisor
    /// and count are those of `isa_timer_setting` for the APIC's measured rate; the
    /// count is handed to the APIC as the frequency it divides its rate by. There is
    /// one timer, so `timer_id` is not used.
    pub fn setup_isa_timer(&mut self, tps: u32, mode: HwTimerMode, timer_id: u16) -> (writes: Vec<ApicRegWrite>)
        requires
            tps > 0,
            isa_timer_setting(old(self).spec_bsp_apic().spec_tps(), tps).1 as u32 > 0,
        ensures
            *final(self) == *old(self),
            ({
                let (divisor, count) = isa_timer_setting(old(self).spec_bsp_apic().spec_tps(), tps);
                let apic_tps = old(self).spec_bsp_apic().spec_tps();
                writes@ == seq![
                    ApicRegWrite { offset: TIMER_DIVISOR, value: divisor as u32 },
                    ApicRegWrite { offset: LVT_TIMER, value: Apic::lvt_timer_value(mode.spec_apic_mode(), true, 32) },
                    ApicRegWrite { offset: TIMER_DIVISOR, value: divisor as u32 },
                    ApicRegWrite { offset: TIMER_INIT_COUNT, value: (apic_tps / (count as u32) as u64) as u32 },
                ]
            }),
    {
        let apic_tps = self.bsp_apic.tps();
        let mut divisor: u8 = 1;
        let mut counter: u64 = 0;
        let ghost limit = TIMER_COUNT_LIMIT;
        while divisor < 128
            invariant_except_break
                divisor > 1 ==> counter == timer_count(apic_tps, tps, (divisor / 2) as u64),
            invariant
                tps > 0,
                apic_tps == self.bsp_apic.spec_tps(),
                limit == TIMER_COUNT_LIMIT,
                is_tried_divisor(divisor as u64) || divisor == 128,
                forall|d: u64| #[trigger] is_tried_divisor(d) && d < divisor ==> timer_count(apic_tps, tps, d) >= limit,
            ensures
                (divisor == 128 && counter == timer_count(apic_tps, tps, 64)) || (is_tried_divisor(divisor as u64)
                    && counter == timer_count(apic_tps, tps, divisor as u64) && counter < limit),
            decreases 128 - divisor,
        {
            counter = (apic_tps / divisor as u64) / (tps as u64 * 10);
            if counter < 0xFFFF_FFFF {
                break;
            }
            let ghost old_div = divisor;
            divisor = divisor << 1;
            assert(divisor == 2 * old_div && divisor / 2 == old_div) by (bit_vector)
                requires
                    divisor == old_div << 1,
                    old_div < 128,
            ;
            assert forall|d: u64| #[trigger] is_tried_divisor(d) && d < divisor implies timer_count(apic_tps, tps, d)
                >= limit by {
                if d != old_div as u64 {
                    assert(d < old_div);
                }
            }
        }
        proof {
            assert(is_tried_divisor(1));
            assert(is_tried_divisor(2));
            assert(is_tried_divisor(4));
            assert(is_tried_divisor(8));
            assert(is_tried_divisor(16));
            assert(is_tried_divisor(32));
            assert(is_tried_divisor(64));
            assert((divisor as u64, counter) == (isa_timer_setting(apic_tps, tps).0 as u64, isa_timer_setting(apic_tps, tps).1));
        }
        let mode = mode.apic_mode();
        self.bsp_apic.setup_timer(mode, counter as u32, divisor, apic_tps)
    }
}

} // verus!
