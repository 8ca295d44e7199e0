//! Epsilon-based approximate equality: two values are equal with tolerance
//! `t` exactly where they lie strictly closer together than `t`. The
//! relation is symmetric but not transitive, so it must not be used to
//! partition values.

use vstd::prelude::*;

use crate::step_num::StepNum;
use crate::StepError;

verus! {

/// `|a - b| < t`, over the mathematical integers.
pub open spec fn within_tolerance(a: int, b: int, t: int) -> bool {
    a - b < t && b - a < t
}

/// Approximate equality under a non-negative tolerance.
pub trait EqWithTolerance where Self: StepNum {
    /// The type compared against, and the type of the tolerance.
    type N: StepNum;

    /// Whether `self` and `other` lie strictly closer together than
    /// `tolerance`. Fails with `InvalidArgument` exactly where the
    /// tolerance is negative.
    fn eq_with_tolerance(self, other: Self::N, tolerance: Self::N) -> (r: Result<
        bool,
        StepError,
    >)
        ensures
            r is Err <==> tolerance.as_int() < 0,
            r matches Err(e) ==> e == StepError::InvalidArgument,
            r matches Ok(b) ==> b == within_tolerance(
                self.as_int(),
                other.as_int(),
                tolerance.as_int(),
            ),
    ;
}

impl<T: StepNum> EqWithTolerance for T {
    type N = T;

    fn eq_with_tolerance(self, other: Self, tolerance: Self) -> (r: Result<bool, StepError>) {
        if tolerance.negative() {
            Err(StepError::InvalidArgument)
        } else {
            Ok(self.diff_within(other, tolerance))
        }
    }
}

/// Symmetry law: equality with tolerance does not depend on the order of
/// the two values compared.
pub proof fn lemma_within_tolerance_symmetric(a: int, b: int, t: int)
    ensures
        within_tolerance(a, b, t) == within_tolerance(b, a, t),
{
}

} // verus!
