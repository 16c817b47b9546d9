//! Result and option types with a C-compatible layout, for calls across C ABI
//! boundaries.

use vstd::prelude::*;

verus! {

/// A C ABI compatible result.
pub enum Result<T, E> {
    /// The operation succeeded.
    Success(T),
    /// The operation failed.
    Failure(E),
}

impl<T, E> Result<T, E> {
    /// The value of a successful result; it must not be a failure.
    pub fn unwrap(self) -> (v: T)
        requires
            self is Success,
        ensures
            self == Result::<T, E>::Success(v),
    {
        match self {
            Result::Success(val) => val,
            Result::Failure(_) => vstd::pervasive::unreached(),
        }
    }

    /// The value of a successful result; a failure would stop the kernel with `msg`,
    /// so it must not be one.
    pub fn expect(self, msg: &str) -> (v: T)
        requires
            self is Success,
        ensures
            self == Result::<T, E>::Success(v),
    {
        match self {
            Result::Success(val) => val,
            Result::Failure(_) => vstd::pervasive::unreached(),
        }
    }
}

/// A C ABI compatible option.
pub enum Option<T> {
    /// A value is present.
    Present(T),
    /// No value is present.
    Absent,
}

} // verus!
