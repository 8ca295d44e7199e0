//! The unit-in-the-last-place stepping strategy: walking a half-open
//! interval of bit patterns one representable value at a time.

use vstd::prelude::*;

pub mod bit_pattern;

pub use bit_pattern::StepFloat;

use crate::step_float::bit_pattern::{
    increment_n, lemma_decrement_magnitude, lemma_increment_magnitude,
    lemma_increment_n_magnitude, magnitude_of, sign_of, MAGNITUDE_MASK,
};

verus! {

impl StepFloat {
    /// How many increments lead from `start` to `end`: the distance of the
    /// two magnitudes. `None` where no number of increments reaches `end`
    /// from `start`, that is where the sign bits differ or `end` lies below
    /// `start`.
    pub fn steps_between(start: &StepFloat, end: &StepFloat) -> (r: Option<usize>)
        ensures
            r is Some <==> sign_of(start.bits) == sign_of(end.bits) && magnitude_of(start.bits)
                <= magnitude_of(end.bits),
            r matches Some(n) ==> n == magnitude_of(end.bits) - magnitude_of(start.bits),
    {
        let s_sign = start.bits >> 31;
        let e_sign = end.bits >> 31;
        let s_mag = start.bits & MAGNITUDE_MASK;
        let e_mag = end.bits & MAGNITUDE_MASK;
        if s_sign == e_sign && s_mag <= e_mag {
            Some((e_mag - s_mag) as usize)
        } else {
            None
        }
    }

    /// `count` increments in a row. `None` where one of them would overflow
    /// the exponent field, that is where the magnitude cannot grow by
    /// `count`; the result otherwise is `count` bit patterns up.
    pub fn forward_checked(self, count: usize) -> (r: Option<StepFloat>)
        ensures
            r is Some <==> magnitude_of(self.bits) + count <= MAGNITUDE_MASK,
            r matches Some(v) ==> v.bits == self.bits + count,
    {
        let mut cur = self;
        let mut i: usize = 0;
        while i < count
            invariant
                i <= count,
                cur.bits == self.bits + i,
                magnitude_of(cur.bits) == magnitude_of(self.bits) + i,
            decreases count - i,
        {
            match cur.increment() {
                Ok(next) => {
                    proof {
                        lemma_increment_magnitude(cur.bits);
                    }
                    cur = next;
                    i = i + 1;
                },
                Err(_) => {
                    return None;
                },
            }
        }
        proof {
            let b = cur.bits;
            assert(b & MAGNITUDE_MASK <= MAGNITUDE_MASK) by (bit_vector);
        }
        Some(cur)
    }

    /// `count` decrements in a row. `None` where one of them would underflow
    /// the exponent field, that is where the magnitude is below `count`; the
    /// result otherwise is `count` bit patterns down.
    pub fn backward_checked(self, count: usize) -> (r: Option<StepFloat>)
        ensures
            r is Some <==> count <= magnitude_of(self.bits),
            r matches Some(v) ==> v.bits == self.bits - count,
    {
        let mut cur = self;
        let mut i: usize = 0;
        while i < count
            invariant
                i <= count,
                cur.bits == self.bits - i,
                magnitude_of(cur.bits) == magnitude_of(self.bits) - i,
                i <= magnitude_of(self.bits),
            decreases count - i,
        {
            match cur.decrement() {
                Ok(prev) => {
                    proof {
                        lemma_decrement_magnitude(cur.bits);
                    }
                    cur = prev;
                    i = i + 1;
                },
                Err(_) => {
                    return None;
                },
            }
        }
        Some(cur)
    }
}

/// The distance and the walk agree: from `start`, exactly as many
/// increments as `steps_between` counts land on `end`, so the walk visits
/// every representable pattern between the two, in order, skipping none.
pub proof fn lemma_steps_between_reaches_end(start: u32, end: u32)
    requires
        sign_of(start) == sign_of(end),
        magnitude_of(start) <= magnitude_of(end),
    ensures
        increment_n(start, (magnitude_of(end) - magnitude_of(start)) as nat) == end,
{
    let n = (magnitude_of(end) - magnitude_of(start)) as nat;
    assert(end & MAGNITUDE_MASK <= MAGNITUDE_MASK) by (bit_vector);
    lemma_increment_n_magnitude(start, n);
    let w = increment_n(start, n);
    assert(w == end) by (bit_vector)
        requires
            w >> 31u32 == end >> 31u32,
            w & MAGNITUDE_MASK == end & MAGNITUDE_MASK,
    ;
}

} // verus!
