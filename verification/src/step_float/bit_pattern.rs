//! The bit-level stepping engine. A `StepFloat` wraps the raw bit pattern of
//! an IEEE-754 single-precision float (1 sign bit, 8 exponent bits, 23
//! mantissa bits) and moves to the next or previous representable value by
//! exact field arithmetic on that pattern, never by floating-point
//! arithmetic.

use vstd::prelude::*;

use crate::StepError;

verus! {

/// Mask of the 23 mantissa bits.
pub const MANTISSA_MASK: u32 = 0x007F_FFFF;
/// Mask of the sign bit.
pub const SIGN_MASK: u32 = 0x8000_0000;
/// Mask of everything below the sign bit: exponent and mantissa together.
pub const MAGNITUDE_MASK: u32 = 0x7FFF_FFFF;
/// Mask of the exponent field and its largest value.
pub const EXPONENT_MAX: u32 = 0xFF;

/// The mantissa field of a bit pattern.
pub open spec fn mantissa_of(bits: u32) -> u32 {
    bits & MANTISSA_MASK
}

/// The exponent field of a bit pattern.
pub open spec fn exponent_of(bits: u32) -> u32 {
    (bits >> 23u32) & EXPONENT_MAX
}

/// The sign bit of a bit pattern.
pub open spec fn sign_of(bits: u32) -> u32 {
    bits >> 31u32
}

/// Exponent and mantissa fields together: the magnitude of the value the
/// pattern denotes, in units of one bit step.
pub open spec fn magnitude_of(bits: u32) -> u32 {
    bits & MAGNITUDE_MASK
}

/// The next bit pattern: increment the mantissa field, or, where the
/// mantissa field is at its maximum, reset it to zero and carry one into the
/// exponent field. The sign bit is never touched.
pub open spec fn spec_increment(bits: u32) -> u32 {
    if mantissa_of(bits) == MANTISSA_MASK {
        (bits & SIGN_MASK) | (((exponent_of(bits) + 1) as u32) << 23u32)
    } else {
        (bits & !MANTISSA_MASK) | ((mantissa_of(bits) + 1) as u32)
    }
}

/// The previous bit pattern: decrement the mantissa field, or, where the
/// mantissa field is zero, reset it to its maximum and borrow one from the
/// exponent field. The sign bit is never touched.
pub open spec fn spec_decrement(bits: u32) -> u32 {
    if mantissa_of(bits) == 0 {
        (bits & SIGN_MASK) | (((exponent_of(bits) - 1) as u32) << 23u32) | MANTISSA_MASK
    } else {
        (bits & !MANTISSA_MASK) | ((mantissa_of(bits) - 1) as u32)
    }
}

/// A value object holding the raw bit pattern of a single-precision float.
/// Equality is bit-pattern identity, which on the engine's supported domain
/// (non-negative, finite, non-zero values) coincides with numeric equality
/// of the floats the patterns denote.
#[derive(Clone, Copy, Debug, PartialEq, Eq, Structural)]
pub struct StepFloat {
    /// The raw bit pattern.
    pub bits: u32,
}

impl StepFloat {
    /// Wrap a raw bit pattern.
    pub fn new(bits: u32) -> (r: Self)
        ensures
            r.bits == bits,
    {
        StepFloat { bits }
    }

    /// The next representable value: one exact bit step up in magnitude.
    /// For non-negative finite inputs this is the smallest representable
    /// float above the input. Fails with `Overflow` exactly where the
    /// exponent field can no longer be incremented, that is on the largest
    /// magnitude the pattern can hold.
    pub fn increment(self) -> (r: Result<Self, StepError>)
        ensures
            r is Err <==> magnitude_of(self.bits) == MAGNITUDE_MASK,
            r matches Err(e) ==> e == StepError::Overflow,
            r matches Ok(v) ==> v.bits == spec_increment(self.bits),
            r matches Ok(v) ==> v.bits == self.bits + 1,
    {
        let b = self.bits;
        let mantissa = b & MANTISSA_MASK;
        let exponent = (b >> 23) & EXPONENT_MAX;
        proof {
            assert(b & MANTISSA_MASK <= MANTISSA_MASK && (b >> 23) & EXPONENT_MAX <= EXPONENT_MAX)
                by (bit_vector);
        }
        if mantissa == MANTISSA_MASK {
            if exponent == EXPONENT_MAX {
                proof {
                    assert(b & MAGNITUDE_MASK == MAGNITUDE_MASK) by (bit_vector)
                        requires
                            b & MANTISSA_MASK == MANTISSA_MASK,
                            (b >> 23) & EXPONENT_MAX == EXPONENT_MAX,
                    ;
                }
                return Err(StepError::Overflow);
            }
            let next = (b & SIGN_MASK) | ((exponent + 1) << 23);
            proof {
                assert(b & MAGNITUDE_MASK != MAGNITUDE_MASK && next == b + 1) by (bit_vector)
                    requires
                        b & MANTISSA_MASK == MANTISSA_MASK,
                        (b >> 23) & EXPONENT_MAX != EXPONENT_MAX,
                        next == (b & SIGN_MASK) | (((((b >> 23) & EXPONENT_MAX) + 1) as u32)
                            << 23u32),
                ;
            }
            Ok(StepFloat { bits: next })
        } else {
            proof {
                assert(b & MANTISSA_MASK < MANTISSA_MASK) by (bit_vector)
                    requires
                        b & MANTISSA_MASK != MANTISSA_MASK,
                ;
            }
            let next = (b & !MANTISSA_MASK) | (mantissa + 1);
            proof {
                assert(b & MAGNITUDE_MASK != MAGNITUDE_MASK && next == b + 1) by (bit_vector)
                    requires
                        b & MANTISSA_MASK != MANTISSA_MASK,
                        next == (b & !MANTISSA_MASK) | (((b & MANTISSA_MASK) + 1) as u32),
                ;
            }
            Ok(StepFloat { bits: next })
        }
    }

    /// The previous representable value: one exact bit step down in
    /// magnitude. For positive finite inputs this is the largest
    /// representable float below the input. Fails with `Overflow` exactly
    /// where the exponent field can no longer be decremented, that is on a
    /// zero bit pattern (of either sign).
    pub fn decrement(self) -> (r: Result<Self, StepError>)
        ensures
            r is Err <==> magnitude_of(self.bits) == 0,
            r matches Err(e) ==> e == StepError::Overflow,
            r matches Ok(v) ==> v.bits == spec_decrement(self.bits),
            r matches Ok(v) ==> v.bits == self.bits - 1,
    {
        let b = self.bits;
        let mantissa = b & MANTISSA_MASK;
        let exponent = (b >> 23) & EXPONENT_MAX;
        if mantissa == 0 {
            if exponent == 0 {
                proof {
                    assert(b & MAGNITUDE_MASK == 0) by (bit_vector)
                        requires
                            b & MANTISSA_MASK == 0,
                            (b >> 23) & EXPONENT_MAX == 0,
                    ;
                }
                return Err(StepError::Overflow);
            }
            let prev = (b & SIGN_MASK) | ((exponent - 1) << 23) | MANTISSA_MASK;
            proof {
                assert(b & MAGNITUDE_MASK != 0 && prev == b - 1) by (bit_vector)
                    requires
                        b & MANTISSA_MASK == 0,
                        (b >> 23) & EXPONENT_MAX != 0,
                        prev == (b & SIGN_MASK) | (((((b >> 23) & EXPONENT_MAX) - 1) as u32)
                            << 23u32) | MANTISSA_MASK,
                ;
            }
            Ok(StepFloat { bits: prev })
        } else {
            let prev = (b & !MANTISSA_MASK) | (mantissa - 1);
            proof {
                assert(b & MAGNITUDE_MASK != 0 && prev == b - 1) by (bit_vector)
                    requires
                        b & MANTISSA_MASK != 0,
                        prev == (b & !MANTISSA_MASK) | (((b & MANTISSA_MASK) - 1) as u32),
                ;
            }
            Ok(StepFloat { bits: prev })
        }
    }
}

/// An increment moves one bit pattern up: the engine walks every
/// representable pattern of a given sign in increasing bit order, skipping
/// none. For non-negative finite floats, bit order is numeric order, so the
/// walk is strictly monotonic.
pub proof fn lemma_spec_increment_is_next(bits: u32)
    requires
        magnitude_of(bits) != MAGNITUDE_MASK,
    ensures
        spec_increment(bits) == bits + 1,
{
    assert(spec_increment(bits) == bits + 1) by (bit_vector)
        requires
            bits & MAGNITUDE_MASK != MAGNITUDE_MASK,
    ;
}

/// A decrement moves one bit pattern down.
pub proof fn lemma_spec_decrement_is_prev(bits: u32)
    requires
        magnitude_of(bits) != 0,
    ensures
        spec_decrement(bits) == bits - 1,
{
    assert(spec_decrement(bits) == bits - 1) by (bit_vector)
        requires
            bits & MAGNITUDE_MASK != 0,
    ;
}

/// An increment adds one to the magnitude and preserves the sign bit.
pub proof fn lemma_increment_magnitude(bits: u32)
    requires
        magnitude_of(bits) != MAGNITUDE_MASK,
    ensures
        magnitude_of(spec_increment(bits)) == magnitude_of(bits) + 1,
        sign_of(spec_increment(bits)) == sign_of(bits),
{
    assert(magnitude_of(spec_increment(bits)) == magnitude_of(bits) + 1
        && sign_of(spec_increment(bits)) == sign_of(bits)) by (bit_vector)
        requires
            bits & MAGNITUDE_MASK != MAGNITUDE_MASK,
    ;
}

/// A decrement takes one from the magnitude and preserves the sign bit.
pub proof fn lemma_decrement_magnitude(bits: u32)
    requires
        magnitude_of(bits) != 0,
    ensures
        magnitude_of(spec_decrement(bits)) == magnitude_of(bits) - 1,
        sign_of(spec_decrement(bits)) == sign_of(bits),
{
    assert(magnitude_of(spec_decrement(bits)) == magnitude_of(bits) - 1
        && sign_of(spec_decrement(bits)) == sign_of(bits)) by (bit_vector)
        requires
            bits & MAGNITUDE_MASK != 0,
    ;
}

/// Wherever an increment is defined, the decrement of its result gives the
/// original pattern back.
pub proof fn lemma_increment_then_decrement(bits: u32)
    requires
        magnitude_of(bits) != MAGNITUDE_MASK,
    ensures
        spec_decrement(spec_increment(bits)) == bits,
{
    assert(spec_decrement(spec_increment(bits)) == bits) by (bit_vector)
        requires
            bits & MAGNITUDE_MASK != MAGNITUDE_MASK,
    ;
}

/// Wherever a decrement is defined, the increment of its result gives the
/// original pattern back.
pub proof fn lemma_decrement_then_increment(bits: u32)
    requires
        magnitude_of(bits) != 0,
    ensures
        spec_increment(spec_decrement(bits)) == bits,
{
    assert(spec_increment(spec_decrement(bits)) == bits) by (bit_vector)
        requires
            bits & MAGNITUDE_MASK != 0,
    ;
}

/// The round-trip invariant of the engine: for every pattern whose exponent
/// field lies strictly between its minimum and maximum values,
/// `decrement(increment(x)) == x` and `increment(decrement(x)) == x`.
pub proof fn lemma_round_trip(bits: u32)
    requires
        0 < exponent_of(bits) < EXPONENT_MAX,
    ensures
        spec_decrement(spec_increment(bits)) == bits,
        spec_increment(spec_decrement(bits)) == bits,
{
    assert(bits & MAGNITUDE_MASK != MAGNITUDE_MASK && bits & MAGNITUDE_MASK != 0) by (bit_vector)
        requires
            0 < (bits >> 23u32) & EXPONENT_MAX < EXPONENT_MAX,
    ;
    lemma_increment_then_decrement(bits);
    lemma_decrement_then_increment(bits);
}

/// `n` applications of the increment.
pub open spec fn increment_n(bits: u32, n: nat) -> u32
    decreases n,
{
    if n == 0 {
        bits
    } else {
        spec_increment(increment_n(bits, (n - 1) as nat))
    }
}

/// `n` applications of the decrement.
pub open spec fn decrement_n(bits: u32, n: nat) -> u32
    decreases n,
{
    if n == 0 {
        bits
    } else {
        decrement_n(spec_decrement(bits), (n - 1) as nat)
    }
}

/// As long as the magnitude stays in range, `n` increments add `n` to the
/// magnitude.
pub proof fn lemma_increment_n_magnitude(bits: u32, n: nat)
    requires
        magnitude_of(bits) + n <= MAGNITUDE_MASK,
    ensures
        magnitude_of(increment_n(bits, n)) == magnitude_of(bits) + n,
        sign_of(increment_n(bits, n)) == sign_of(bits),
    decreases n,
{
    if n > 0 {
        lemma_increment_n_magnitude(bits, (n - 1) as nat);
        lemma_increment_magnitude(increment_n(bits, (n - 1) as nat));
    }
}

/// Iterated round trip: for every pattern whose exponent field lies strictly
/// between its minimum and maximum values and every `n` below 1024, applying
/// the increment `n` times and then the decrement `n` times gives the
/// original pattern back.
pub proof fn lemma_round_trip_n(bits: u32, n: nat)
    requires
        0 < exponent_of(bits) < EXPONENT_MAX,
        n < 1024,
    ensures
        decrement_n(increment_n(bits, n), n) == bits,
    decreases n,
{
    assert(bits & MAGNITUDE_MASK <= 0x7F7F_FFFF) by (bit_vector)
        requires
            (bits >> 23u32) & EXPONENT_MAX < EXPONENT_MAX,
    ;
    if n > 0 {
        let y = increment_n(bits, (n - 1) as nat);
        lemma_increment_n_magnitude(bits, (n - 1) as nat);
        lemma_increment_then_decrement(y);
        lemma_round_trip_n(bits, (n - 1) as nat);
    }
}

} // verus!
