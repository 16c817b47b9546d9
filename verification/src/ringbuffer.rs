//! A ring buffer over a fixed block of memory.

use vstd::prelude::*;

verus! {

/// Whether `addr` is a multiple of `align`, for a power-of-two `align`: its bits
/// below `align` are clear. No address is aligned to 0.
pub fn is_aligned(addr: usize, align: usize) -> (r: bool)
    ensures
        r == (align != 0 && addr & ((align - 1) as usize) == 0),
{
    if align == 0 {
        false
    } else {
        addr & (align - 1) == 0
    }
}

/// A ring buffer of `cap` items over a block of memory, with its read and write
/// positions.
pub struct RingBuffer<T> {
    data: Vec<T>,
    cap: usize,
    read_ptr: usize,
    write_ptr: usize,
}

impl<T> RingBuffer<T> {
    pub closed spec fn spec_data(&self) -> Seq<T> {
        self.data@
    }

    pub closed spec fn spec_cap(&self) -> usize {
        self.cap
    }

    pub closed spec fn spec_read_ptr(&self) -> usize {
        self.read_ptr
    }

    pub closed spec fn spec_write_ptr(&self) -> usize {
        self.write_ptr
    }

    /// A ring buffer over the block of `cap` items `data` at `address`, with both
    /// positions at the start. The block must be page aligned.
    pub fn new_in_static_memory(data: Vec<T>, address: usize, cap: usize) -> (r: Self)
        requires
            address & 0xFFF == 0,
            data@.len() == cap,
        ensures
            r.spec_data() == data@,
            r.spec_cap() == cap,
            r.spec_read_ptr() == 0,
            r.spec_write_ptr() == 0,
    {
        let aligned = is_aligned(address, 0x1000);
        assert(aligned);
        RingBuffer { data, cap, read_ptr: 0, write_ptr: 0 }
    }

    /// The number of items the buffer holds room for.
    pub fn capacity(&self) -> (c: usize)
        ensures
            c == self.spec_cap(),
    {
        self.cap
    }
}

} // verus!
