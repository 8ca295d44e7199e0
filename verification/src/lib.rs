//! Numeric stepping primitives: an arithmetic step iterator over half-open
//! ranges of integer types, and an exact unit-in-the-last-place stepping
//! engine that walks the bit layout of an IEEE-754 single-precision float
//! one representable value at a time.

use vstd::prelude::*;

pub mod eq_with_tolerance;
pub mod step_float;
pub mod step_iter;
pub mod step_num;

verus! {

/// The error conditions of this library. Every one is a deterministic
/// function of the inputs; none is transient or retryable.
#[derive(Clone, Copy, Debug, PartialEq, Eq, Structural)]
pub enum StepError {
    /// A precondition violation: a non-positive step value, or a negative
    /// tolerance.
    InvalidArgument,
    /// An increment or decrement was asked for at a boundary of the
    /// representable range, where the exponent field cannot move further.
    Overflow,
}

/// Interface for iterating a range by the element type's local epsilon.
/// Left as an interface: no type of the library implements it.
pub trait IntoFloatIter<T> {
    type I;

    /// Iterate over a range using the local epsilon of its element type.
    fn float_iter(self) -> Self::I;
}

/// Interface for the distance from a value to the next representable one.
/// Left as an interface: no type of the library implements it.
pub trait LocalEpsilon {
    /// Return the local epsilon around this value.
    fn epsilon(self) -> Self;
}

} // verus!
