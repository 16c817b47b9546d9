//! Model-specific register values.

use vstd::prelude::*;

verus! {

/// The two halves of a model-specific register, as `rdmsr` and `wrmsr` move them.
#[derive(Copy, Clone, Debug)]
pub struct MSRValue {
    pub eax: u32,
    pub edx: u32,
}

/// The register value with bit `bit` of its high half set.
pub fn set_msr_bit(val: MSRValue, bit: u8) -> (r: MSRValue)
    requires
        bit < 32,
    ensures
        r.eax == val.eax,
        r.edx == val.edx | (1u32 << bit),
{
    let mut val = val;
    val.edx = val.edx | (1u32 << bit);
    val
}

/// The register value with bit `bit` of its high half cleared.
pub fn clear_msr_bit(val: MSRValue, bit: u8) -> (r: MSRValue)
    requires
        bit < 32,
    ensures
        r.eax == val.eax,
        r.edx == val.edx & !(1u32 << bit),
{
    let mut val = val;
    val.edx = val.edx & !(1u32 << bit);
    val
}

/// Setting a bit turns it on and leaves every other bit of the register as it was;
/// clearing it afterwards gives back a register with that bit off.
pub proof fn lemma_set_then_clear_bit(edx: u32, bit: u8)
    requires
        bit < 32,
    ensures
        (edx | (1u32 << bit)) >> bit & 1 == 1,
        forall|j: u32| j < 32 && j != bit ==> ((edx | (1u32 << bit)) >> j) & 1 == (edx >> j) & 1,
        ((edx | (1u32 << bit)) & !(1u32 << bit)) >> bit & 1 == 0,
        (edx & !(1u32 << bit)) == ((edx | (1u32 << bit)) & !(1u32 << bit)),
{
    let b = bit as u32;
    assert((edx | (1u32 << b)) >> b & 1 == 1) by (bit_vector)
        requires b < 32;
    assert(forall|j: u32| j < 32 && j != b ==> ((edx | (1u32 << b)) >> j) & 1 == (edx >> j) & 1) by (bit_vector)
        requires b < 32;
    assert(((edx | (1u32 << b)) & !(1u32 << b)) >> b & 1 == 0) by (bit_vector)
        requires b < 32;
    assert((edx & !(1u32 << b)) == ((edx | (1u32 << b)) & !(1u32 << b))) by (bit_vector)
        requires b < 32;
}

/// The 64-bit register value: the high half above the low half.
pub fn msr_u64(value: MSRValue) -> (r: u64)
    ensures
        r == value.edx as u64 * 0x1_0000_0000 + value.eax as u64,
{
    let hi = value.edx as u64;
    let lo = value.eax as u64;
    assert(((hi << 32u64) | lo) == hi * 0x1_0000_0000 + lo) by (bit_vector)
        requires
            hi <= 0xFFFF_FFFF,
            lo <= 0xFFFF_FFFF,
    ;
    (hi << 32) | lo
}

/// The TSC frequency from CPUID leaf 0x15: the clock ratio's numerator `ebx` over its
/// denominator `eax`. The ratio must be enumerated (both non-zero).
pub fn tsc_frequency(eax: u32, ebx: u32) -> (f: u32)
    requires
        ebx != 0,
        eax != 0,
    ensures
        f == ebx / eax,
{
    ebx / eax
}

/// The number of significant physical address bits, from EAX of CPUID leaf
/// 0x80000008.
pub fn paddr_sig_bits(eax: u32) -> (b: u8)
    ensures
        b == eax & 0xFF,
{
    assert(eax & 0xFF <= 0xFF) by (bit_vector);
    (eax & 0xFF) as u8
}

/// The number of significant virtual address bits, from EAX of CPUID leaf
/// 0x80000008.
pub fn vaddr_sig_bits(eax: u32) -> (b: u8)
    ensures
        b == (eax >> 8) & 0xFF,
{
    assert((eax >> 8) & 0xFF <= 0xFF) by (bit_vector);
    ((eax >> 8) & 0xFF) as u8
}

/// The width of virtual addresses from ECX of CPUID leaf 0x80000001: 57 bits with
/// five-level paging (bit 16), else 48.
pub fn vaddr_width(ecx: u32) -> (w: u8)
    ensures
        w == (if ecx & 0x10000 != 0 { 57u8 } else { 48u8 }),
{
    assert(1u32 << 16u32 == 0x10000) by (bit_vector);
    if ecx & (1 << 16) != 0 {
        57
    } else {
        48
    }
}

/// Whether the processor maps 1 GiB pages, from EDX of CPUID leaf 0x80000001 (bit 26).
pub fn huge_pages_supported(edx: u32) -> (r: bool)
    ensures
        r == (edx & 0x400_0000 != 0),
{
    assert(1u32 << 26u32 == 0x400_0000) by (bit_vector);
    edx & (1 << 26) != 0
}

/// Whether the processor has model-specific registers, from EDX of CPUID leaf 0 as
/// the kernel reads it (bit 5).
pub fn has_msr(edx: u32) -> (r: bool)
    ensures
        r == (edx & 0x20 != 0),
{
    assert(1u32 << 5u32 == 0x20) by (bit_vector);
    edx & (1 << 5) != 0
}

/// Whether interrupts are enabled, from the flags register (the interrupt flag,
/// bit 9).
pub fn interrupts_enabled(flags: u64) -> (r: bool)
    ensures
        r == (flags & 0x200 != 0),
{
    assert(1u64 << 9u64 == 0x200) by (bit_vector);
    flags & (1 << 9) != 0
}

/// The number of significant physical address bits on aarch64, from the PARange field
/// of ID_AA64MMFR0_EL1; a value the architecture does not define gives `None` (the
/// kernel treats the processor as broken).
pub fn aarch64_paddr_sig_bits(parange: u64) -> (b: Option<u8>)
    ensures
        b == (if parange == 0 {
            Some(32u8)
        } else if parange == 1 {
            Some(36u8)
        } else if parange == 2 {
            Some(40u8)
        } else if parange == 3 {
            Some(42u8)
        } else if parange == 4 {
            Some(44u8)
        } else if parange == 5 {
            Some(48u8)
        } else if parange == 6 {
            Some(52u8)
        } else {
            None::<u8>
        }),
{
    match parange {
        0 => Some(32),
        1 => Some(36),
        2 => Some(40),
        3 => Some(42),
        4 => Some(44),
        5 => Some(48),
        6 => Some(52),
        _ => None,
    }
}

/// The number of significant virtual address bits on aarch64, from the VARange field
/// of ID_AA64MMFR2_EL1; a value the architecture does not define gives `None`.
pub fn aarch64_vaddr_sig_bits(varange: u64) -> (b: Option<u8>)
    ensures
        b == (if varange == 0 {
            Some(48u8)
        } else if varange == 1 {
            Some(52u8)
        } else {
            None::<u8>
        }),
{
    match varange {
        0 => Some(48),
        1 => Some(52),
        _ => None,
    }
}

} // verus!
