//! The capability set the arithmetic stepping strategy asks of a numeric
//! element type: a mathematical view, the machine range, an order, and the
//! exact checked arithmetic the strategy is built from. One implementation
//! per integer width replaces per-type copies of the stepping code.

use vstd::prelude::*;

verus! {

/// A numeric element type the arithmetic strategy can walk.
pub trait StepNum: Copy + Sized {
    /// The mathematical value.
    spec fn as_int(self) -> int;

    /// The smallest value of the type.
    spec fn min_int() -> int;

    /// The largest value of the type.
    spec fn max_int() -> int;

    /// Every value lies in the machine range.
    proof fn lemma_in_range(self)
        ensures
            Self::min_int() <= self.as_int() <= Self::max_int(),
    ;

    /// Whether the value is below zero.
    fn negative(self) -> (r: bool)
        ensures
            r == (self.as_int() < 0),
    ;

    /// Whether the value is zero or below.
    fn non_positive(self) -> (r: bool)
        ensures
            r == (self.as_int() <= 0),
    ;

    /// Strict order of the mathematical values.
    fn lt(self, other: Self) -> (r: bool)
        ensures
            r == (self.as_int() < other.as_int()),
    ;

    /// `start + count * step`, exactly, or `None` where that value lies
    /// above the machine range.
    fn checked_step(start: Self, count: usize, step: Self) -> (r: Option<Self>)
        requires
            step.as_int() > 0,
        ensures
            r matches Some(v) ==> v.as_int() == start.as_int() + count as int * step.as_int(),
            r is None ==> start.as_int() + count as int * step.as_int() > Self::max_int(),
    ;

    /// Whether the two values lie strictly closer together than `tol`.
    fn diff_within(self, other: Self, tol: Self) -> (r: bool)
        requires
            tol.as_int() >= 0,
        ensures
            r == (self.as_int() - other.as_int() < tol.as_int() && other.as_int() - self.as_int()
                < tol.as_int()),
    ;
}

proof fn lemma_mul_le(x: int, xb: int, y: int, yb: int)
    by (nonlinear_arith)
    requires
        0 <= x <= xb,
        0 <= y <= yb,
    ensures
        0 <= x * y <= xb * yb,
{
}

impl StepNum for u8 {
    open spec fn as_int(self) -> int {
        self as int
    }

    open spec fn min_int() -> int {
        0
    }

    open spec fn max_int() -> int {
        u8::MAX as int
    }

    proof fn lemma_in_range(self) {
    }

    fn negative(self) -> (r: bool) {
        false
    }

    fn non_positive(self) -> (r: bool) {
        self == 0
    }

    fn lt(self, other: Self) -> (r: bool) {
        self < other
    }

    fn checked_step(start: Self, count: usize, step: Self) -> (r: Option<Self>) {
        let c = count as u128;
        let s = step as u128;
        proof {
            lemma_mul_le(c as int, u64::MAX as int, s as int, u8::MAX as int);
        }
        let v = start as u128 + c * s;
        if v <= u8::MAX as u128 {
            Some(v as u8)
        } else {
            None
        }
    }

    fn diff_within(self, other: Self, tol: Self) -> (r: bool) {
        if self >= other {
            self - other < tol
        } else {
            other - self < tol
        }
    }
}

impl StepNum for u16 {
    open spec fn as_int(self) -> int {
        self as int
    }

    open spec fn min_int() -> int {
        0
    }

    open spec fn max_int() -> int {
        u16::MAX as int
    }

    proof fn lemma_in_range(self) {
    }

    fn negative(self) -> (r: bool) {
        false
    }

    fn non_positive(self) -> (r: bool) {
        self == 0
    }

    fn lt(self, other: Self) -> (r: bool) {
        self < other
    }

    fn checked_step(start: Self, count: usize, step: Self) -> (r: Option<Self>) {
        let c = count as u128;
        let s = step as u128;
        proof {
            lemma_mul_le(c as int, u64::MAX as int, s as int, u16::MAX as int);
        }
        let v = start as u128 + c * s;
        if v <= u16::MAX as u128 {
            Some(v as u16)
        } else {
            None
        }
    }

    fn diff_within(self, other: Self, tol: Self) -> (r: bool) {
        if self >= other {
            self - other < tol
        } else {
            other - self < tol
        }
    }
}

impl StepNum for u32 {
    open spec fn as_int(self) -> int {
        self as int
    }

    open spec fn min_int() -> int {
        0
    }

    open spec fn max_int() -> int {
        u32::MAX as int
    }

    proof fn lemma_in_range(self) {
    }

    fn negative(self) -> (r: bool) {
        false
    }

    fn non_positive(self) -> (r: bool) {
        self == 0
    }

    fn lt(self, other: Self) -> (r: bool) {
        self < other
    }

    fn checked_step(start: Self, count: usize, step: Self) -> (r: Option<Self>) {
        let c = count as u128;
        let s = step as u128;
        proof {
            lemma_mul_le(c as int, u64::MAX as int, s as int, u32::MAX as int);
        }
        let v = start as u128 + c * s;
        if v <= u32::MAX as u128 {
            Some(v as u32)
        } else {
            None
        }
    }

    fn diff_within(self, other: Self, tol: Self) -> (r: bool) {
        if self >= other {
            self - other < tol
        } else {
            other - self < tol
        }
    }
}

impl StepNum for u64 {
    open spec fn as_int(self) -> int {
        self as int
    }

    open spec fn min_int() -> int {
        0
    }

    open spec fn max_int() -> int {
        u64::MAX as int
    }

    proof fn lemma_in_range(self) {
    }

    fn negative(self) -> (r: bool) {
        false
    }

    fn non_positive(self) -> (r: bool) {
        self == 0
    }

    fn lt(self, other: Self) -> (r: bool) {
        self < other
    }

    fn checked_step(start: Self, count: usize, step: Self) -> (r: Option<Self>) {
        let c = count as u128;
        let s = step as u128;
        proof {
            lemma_mul_le(c as int, u64::MAX as int, s as int, u64::MAX as int);
        }
        let v = start as u128 + c * s;
        if v <= u64::MAX as u128 {
            Some(v as u64)
        } else {
            None
        }
    }

    fn diff_within(self, other: Self, tol: Self) -> (r: bool) {
        if self >= other {
            self - other < tol
        } else {
            other - self < tol
        }
    }
}

impl StepNum for u128 {
    open spec fn as_int(self) -> int {
        self as int
    }

    open spec fn min_int() -> int {
        0
    }

    open spec fn max_int() -> int {
        u128::MAX as int
    }

    proof fn lemma_in_range(self) {
    }

    fn negative(self) -> (r: bool) {
        false
    }

    fn non_positive(self) -> (r: bool) {
        self == 0
    }

    fn lt(self, other: Self) -> (r: bool) {
        self < other
    }

    fn checked_step(start: Self, count: usize, step: Self) -> (r: Option<Self>) {
        let c = count as u128;
        match c.checked_mul(step) {
            Some(p) => match start.checked_add(p) {
                Some(v) => Some(v),
                None => None,
            },
            None => None,
        }
    }

    fn diff_within(self, other: Self, tol: Self) -> (r: bool) {
        if self >= other {
            self - other < tol
        } else {
            other - self < tol
        }
    }
}

impl StepNum for i8 {
    open spec fn as_int(self) -> int {
        self as int
    }

    open spec fn min_int() -> int {
        i8::MIN as int
    }

    open spec fn max_int() -> int {
        i8::MAX as int
    }

    proof fn lemma_in_range(self) {
    }

    fn negative(self) -> (r: bool) {
        self < 0
    }

    fn non_positive(self) -> (r: bool) {
        self <= 0
    }

    fn lt(self, other: Self) -> (r: bool) {
        self < other
    }

    fn checked_step(start: Self, count: usize, step: Self) -> (r: Option<Self>) {
        let c = count as i128;
        let s = step as i128;
        proof {
            lemma_mul_le(c as int, u64::MAX as int, s as int, i8::MAX as int);
        }
        let v = start as i128 + c * s;
        if v <= i8::MAX as i128 {
            Some(v as i8)
        } else {
            None
        }
    }

    fn diff_within(self, other: Self, tol: Self) -> (r: bool) {
        let a = self as i16;
        let b = other as i16;
        let t = tol as i16;
        if a >= b {
            a - b < t
        } else {
            b - a < t
        }
    }
}

impl StepNum for i16 {
    open spec fn as_int(self) -> int {
        self as int
    }

    open spec fn min_int() -> int {
        i16::MIN as int
    }

    open spec fn max_int() -> int {
        i16::MAX as int
    }

    proof fn lemma_in_range(self) {
    }

    fn negative(self) -> (r: bool) {
        self < 0
    }

    fn non_positive(self) -> (r: bool) {
        self <= 0
    }

    fn lt(self, other: Self) -> (r: bool) {
        self < other
    }

    fn checked_step(start: Self, count: usize, step: Self) -> (r: Option<Self>) {
        let c = count as i128;
        let s = step as i128;
        proof {
            lemma_mul_le(c as int, u64::MAX as int, s as int, i16::MAX as int);
        }
        let v = start as i128 + c * s;
        if v <= i16::MAX as i128 {
            Some(v as i16)
        } else {
            None
        }
    }

    fn diff_within(self, other: Self, tol: Self) -> (r: bool) {
        let a = self as i32;
        let b = other as i32;
        let t = tol as i32;
        if a >= b {
            a - b < t
        } else {
            b - a < t
        }
    }
}

impl StepNum for i32 {
    open spec fn as_int(self) -> int {
        self as int
    }

    open spec fn min_int() -> int {
        i32::MIN as int
    }

    open spec fn max_int() -> int {
        i32::MAX as int
    }

    proof fn lemma_in_range(self) {
    }

    fn negative(self) -> (r: bool) {
        self < 0
    }

    fn non_positive(self) -> (r: bool) {
        self <= 0
    }

    fn lt(self, other: Self) -> (r: bool) {
        self < other
    }

    fn checked_step(start: Self, count: usize, step: Self) -> (r: Option<Self>) {
        let c = count as i128;
        let s = step as i128;
        proof {
            lemma_mul_le(c as int, u64::MAX as int, s as int, i32::MAX as int);
        }
        let v = start as i128 + c * s;
        if v <= i32::MAX as i128 {
            Some(v as i32)
        } else {
            None
        }
    }

    fn diff_within(self, other: Self, tol: Self) -> (r: bool) {
        let a = self as i64;
        let b = other as i64;
        let t = tol as i64;
        if a >= b {
            a - b < t
        } else {
            b - a < t
        }
    }
}

impl StepNum for i64 {
    open spec fn as_int(self) -> int {
        self as int
    }

    open spec fn min_int() -> int {
        i64::MIN as int
    }

    open spec fn max_int() -> int {
        i64::MAX as int
    }

    proof fn lemma_in_range(self) {
    }

    fn negative(self) -> (r: bool) {
        self < 0
    }

    fn non_positive(self) -> (r: bool) {
        self <= 0
    }

    fn lt(self, other: Self) -> (r: bool) {
        self < other
    }

    fn checked_step(start: Self, count: usize, step: Self) -> (r: Option<Self>) {
        let c = count as i128;
        let s = step as i128;
        proof {
            lemma_mul_le(c as int, u64::MAX as int, s as int, i64::MAX as int);
        }
        let v = start as i128 + c * s;
        if v <= i64::MAX as i128 {
            Some(v as i64)
        } else {
            None
        }
    }

    fn diff_within(self, other: Self, tol: Self) -> (r: bool) {
        let a = self as i128;
        let b = other as i128;
        let t = tol as i128;
        if a >= b {
            a - b < t
        } else {
            b - a < t
        }
    }
}

impl StepNum for i128 {
    open spec fn as_int(self) -> int {
        self as int
    }

    open spec fn min_int() -> int {
        i128::MIN as int
    }

    open spec fn max_int() -> int {
        i128::MAX as int
    }

    proof fn lemma_in_range(self) {
    }

    fn negative(self) -> (r: bool) {
        self < 0
    }

    fn non_positive(self) -> (r: bool) {
        self <= 0
    }

    fn lt(self, other: Self) -> (r: bool) {
        self < other
    }

    fn checked_step(start: Self, count: usize, step: Self) -> (r: Option<Self>) {
        let c = count as u128;
        let s = step as u128;
        match c.checked_mul(s) {
            None => None,
            Some(p) => {
                if start >= 0 {
                    if p <= (i128::MAX - start) as u128 {
                        Some(start + p as i128)
                    } else {
                        None
                    }
                } else {
                    let mag = ((-(start + 1)) as u128) + 1;
                    if p >= mag {
                        let d = p - mag;
                        if d <= i128::MAX as u128 {
                            Some(d as i128)
                        } else {
                            None
                        }
                    } else {
                        Some(start + (p as i128))
                    }
                }
            },
        }
    }

    fn diff_within(self, other: Self, tol: Self) -> (r: bool) {
        if self >= other {
            match self.checked_sub(other) {
                Some(d) => d < tol,
                None => false,
            }
        } else {
            match other.checked_sub(self) {
                Some(d) => d < tol,
                None => false,
            }
        }
    }
}

} // verus!
