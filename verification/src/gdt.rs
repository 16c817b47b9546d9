//! The task state segment and the segment selectors of the global descriptor table.

use vstd::prelude::*;

verus! {

/// The size of the task state segment in bytes, which is also where its (empty)
/// I/O permission bitmap starts.
pub const TSS_SIZE: u16 = 104;

/// The 64-bit task state segment, with the stack pointer used on entry to ring 0.
pub struct Tss {
    res: u32,
    rsp0: u64,
    unused: [u8; 90],
    iopb: u16,
}

impl Tss {
    /// The reserved field that opens the segment.
    pub closed spec fn spec_res(&self) -> u32 {
        self.res
    }

    pub closed spec fn spec_rsp0(&self) -> u64 {
        self.rsp0
    }

    pub closed spec fn spec_iopb(&self) -> u16 {
        self.iopb
    }

    pub closed spec fn spec_unused(&self) -> Seq<u8> {
        self.unused@
    }

    /// A task state segment whose ring 0 stack pointer is `rsp0`, everything else
    /// clear, and whose I/O permission bitmap starts at its end.
    pub fn new(rsp0: u64) -> (t: Self)
        ensures
            t.spec_res() == 0,
            t.spec_rsp0() == rsp0,
            t.spec_iopb() == TSS_SIZE,
            t.spec_unused() == Seq::new(90, |i: int| 0u8),
    {
        let t = Tss { res: 0, rsp0, unused: [0u8; 90], iopb: TSS_SIZE };
        assert(t.unused@ =~= Seq::new(90, |i: int| 0u8));
        t
    }

    pub fn rsp0(&self) -> (r: u64)
        ensures
            r == self.spec_rsp0(),
    {
        self.rsp0
    }

    pub fn iopb(&self) -> (r: u16)
        ensures
            r == self.spec_iopb(),
    {
        self.iopb
    }
}

/// The null segment selector.
pub const NULL_SELECTOR: u16 = 0;

/// The segment selectors of the kernel's and user space's code and data segments and
/// of the task state segment.
#[derive(Copy, Clone, Debug, PartialEq, Eq)]
pub struct SegmentSelectorTable {
    pub kernel_data: u16,
    pub kernel_code: u16,
    pub user_data: u16,
    pub user_code: u16,
    pub tss: u16,
}

impl SegmentSelectorTable {
    /// A table of null selectors, before the descriptors are added.
    pub fn new() -> (t: Self)
        ensures
            t.kernel_data == NULL_SELECTOR,
            t.kernel_code == NULL_SELECTOR,
            t.user_data == NULL_SELECTOR,
            t.user_code == NULL_SELECTOR,
            t.tss == NULL_SELECTOR,
    {
        SegmentSelectorTable {
            kernel_data: NULL_SELECTOR,
            kernel_code: NULL_SELECTOR,
            user_data: NULL_SELECTOR,
            user_code: NULL_SELECTOR,
            tss: NULL_SELECTOR,
        }
    }

    /// The selectors to load into CS and into DS, ES, FS, GS and SS for the kernel.
    pub fn kernel_segments(&self) -> (r: (u16, u16))
        ensures
            r == (self.kernel_code, self.kernel_data),
    {
        (self.kernel_code, self.kernel_data)
    }

    /// The selectors to load into CS and into DS, ES, FS, GS and SS for user space.
    pub fn user_segments(&self) -> (r: (u16, u16))
        ensures
            r == (self.user_code, self.user_data),
    {
        (self.user_code, self.user_data)
    }
}

} // verus!
