//! The arithmetic stepping strategy: a lazy cursor over a half-open range
//! whose k-th value is `start + k * step`, ending once a value is no longer
//! below the range's end.

use core::ops::Range;
use vstd::prelude::*;

use crate::step_num::StepNum;
use crate::StepError;

verus! {

/// A lazy, finite cursor over the values `start + k * step` of `range`, for
/// `k = 0, 1, 2, ...`, ending (exclusively) once a value is no longer below
/// the range's end.
pub struct StepIterator<T> {
    /// The step, strictly positive.
    pub step: T,
    /// How many values have been handed out.
    pub count: usize,
    /// The half-open range being walked.
    pub range: Range<T>,
}

impl<T: StepNum> StepIterator<T> {
    /// The iterator's invariant: the step is strictly positive.
    pub open spec fn wf(self) -> bool {
        self.step.as_int() > 0
    }

    /// The k-th value of the sequence, as a mathematical integer.
    pub open spec fn value_at(self, k: int) -> int {
        self.range.start.as_int() + k * self.step.as_int()
    }

    /// Build a cursor over `range` with the given step. Fails with
    /// `InvalidArgument` exactly where the step is not strictly positive.
    pub fn new(range: Range<T>, step: T) -> (r: Result<Self, StepError>)
        ensures
            r is Err <==> step.as_int() <= 0,
            r matches Err(e) ==> e == StepError::InvalidArgument,
            r matches Ok(it) ==> it.range == range && it.step == step && it.count == 0 && it.wf(),
    {
        if step.non_positive() {
            Err(StepError::InvalidArgument)
        } else {
            Ok(StepIterator { step, count: 0, range })
        }
    }

    /// The next value of the sequence: `start + count * step` where that
    /// value still lies below the range's end, `None` from then on. The one
    /// machine limit: once `count` has exhausted `usize`, the cursor ends
    /// even where the range has values left.
    pub fn next(&mut self) -> (r: Option<T>)
        requires
            old(self).wf(),
        ensures
            final(self).wf(),
            final(self).range == old(self).range,
            final(self).step == old(self).step,
            ({
                let cur = old(self).value_at(old(self).count as int);
                if cur < old(self).range.end.as_int() && old(self).count < usize::MAX {
                    r matches Some(v) && v.as_int() == cur && final(self).count == old(
                        self,
                    ).count + 1
                } else {
                    r is None && final(self).count == old(self).count
                }
            }),
    {
        match T::checked_step(self.range.start, self.count, self.step) {
            Some(v) => {
                if v.lt(self.range.end) {
                    if self.count < usize::MAX {
                        self.count = self.count + 1;
                        Some(v)
                    } else {
                        None
                    }
                } else {
                    None
                }
            },
            None => {
                proof {
                    self.range.end.lemma_in_range();
                }
                None
            },
        }
    }
}

/// Walking a half-open range by a fixed, strictly positive step.
pub trait IntoIterStep<T: StepNum> {
    type I;

    /// Build the stepped sequence. Fails with `InvalidArgument` exactly
    /// where the step is not strictly positive.
    fn into_iter_step(self, step: T) -> (r: Result<Self::I, StepError>)
        ensures
            r is Err <==> step.as_int() <= 0,
            r matches Err(e) ==> e == StepError::InvalidArgument,
    ;
}

impl<T: StepNum> IntoIterStep<T> for Range<T> {
    type I = StepIterator<T>;

    fn into_iter_step(self, step: T) -> (r: Result<StepIterator<T>, StepError>) {
        StepIterator::new(self, step)
    }
}

} // verus!
