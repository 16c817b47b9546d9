//! Interrupt vectors and the table of handlers of vectors 32 to 255.

use vstd::prelude::*;

verus! {

/// The first vector that is not a processor exception.
pub const FIRST_IRQ_VECTOR: u8 = 32;

/// The number of vectors above the exceptions.
pub const N_IRQ_VECTORS: usize = 224;

/// Named interrupt vectors.
#[derive(Copy, Clone, Debug, PartialEq, Eq)]
pub enum IntIdx {
    Timer,
}

impl IntIdx {
    pub open spec fn spec_vector(self) -> u8 {
        match self {
            IntIdx::Timer => 0x20,
        }
    }

    /// The vector number.
    pub fn vector(self) -> (v: u8)
        ensures
            v == self.spec_vector(),
    {
        match self {
            IntIdx::Timer => 0x20,
        }
    }
}

/// The handlers of vectors 32 to 255: the handler of vector `v` is at `v - 32`.
pub struct IvHandlerTable<T> {
    handlers: Vec<T>,
}

impl<T: Copy> IvHandlerTable<T> {
    pub closed spec fn spec_handlers(&self) -> Seq<T> {
        self.handlers@
    }

    /// A table in which every vector has `default_handler`.
    pub fn new(default_handler: T) -> (t: Self)
        ensures
            t.spec_handlers() == Seq::new(N_IRQ_VECTORS as nat, |i: int| default_handler),
    {
        let mut handlers: Vec<T> = Vec::new();
        for i in 0..N_IRQ_VECTORS
            invariant
                handlers@ == Seq::new(i as nat, |k: int| default_handler),
        {
            handlers.push(default_handler);
            assert(handlers@ =~= Seq::new((i + 1) as nat, |k: int| default_handler));
        }
        IvHandlerTable { handlers }
    }

    /// Makes `h` the handler of `vector`, which must not be an exception vector.
    pub fn register_iv_handler(&mut self, h: T, vector: u8)
        requires
            vector >= FIRST_IRQ_VECTOR,
            old(self).spec_handlers().len() == N_IRQ_VECTORS,
        ensures
            final(self).spec_handlers() == old(self).spec_handlers().update(vector - FIRST_IRQ_VECTOR, h),
    {
        let idx = (vector - FIRST_IRQ_VECTOR) as usize;
        self.handlers.set(idx, h);
    }

    /// The handler the interrupt service routine calls for `vector`.
    pub fn handler_for(&self, vector: u64) -> (h: T)
        requires
            FIRST_IRQ_VECTOR <= vector < 256,
            self.spec_handlers().len() == N_IRQ_VECTORS,
        ensures
            h == self.spec_handlers()[vector - FIRST_IRQ_VECTOR],
    {
        let called_by = vector - 32;
        self.handlers[called_by as usize]
    }
}

} // verus!
