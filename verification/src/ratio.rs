//! Exact rational values.
//!
//! Every indicator this library publishes is an exact rational number:
//! a quotient of two integers with a positive denominator.  Keeping the
//! numerator and denominator separate avoids any rounding inside the
//! verified core; the quotient is evaluated in floating point only at the
//! I/O boundary, outside the library.

use vstd::prelude::*;

verus! {

/// Mathematical model of a rational value: an integer numerator over an
/// integer denominator.  Order between two values with positive
/// denominators is decided by cross-multiplication.
pub ghost struct Rat {
    pub num: int,
    pub den: int,
}

pub open spec fn rat(num: int, den: int) -> Rat {
    Rat { num, den }
}

/// `a <= b` for rationals with positive denominators.
pub open spec fn rat_le(a: Rat, b: Rat) -> bool {
    a.num * b.den <= b.num * a.den
}

/// `a < b` for rationals with positive denominators.
pub open spec fn rat_lt(a: Rat, b: Rat) -> bool {
    a.num * b.den < b.num * a.den
}

/// `a - b` over a common denominator.
pub open spec fn rat_sub(a: Rat, b: Rat) -> Rat {
    Rat { num: a.num * b.den - b.num * a.den, den: a.den * b.den }
}

/// `a * b`.
pub open spec fn rat_mul(a: Rat, b: Rat) -> Rat {
    Rat { num: a.num * b.num, den: a.den * b.den }
}

/// An exact rational value, carried through the executable code.
#[derive(Debug, Clone, Copy, PartialEq, Eq)]
pub struct Ratio {
    pub num: i128,
    pub den: i128,
}

impl View for Ratio {
    type V = Rat;

    open spec fn view(&self) -> Rat {
        Rat { num: self.num as int, den: self.den as int }
    }
}

impl Ratio {
    /// A denominator is always kept positive, so the sign of the value is
    /// the sign of the numerator and cross-multiplied comparisons are
    /// order-preserving.
    pub open spec fn wf(&self) -> bool {
        self.den > 0
    }

    /// The rational number zero.
    pub fn zero() -> (r: Ratio)
        ensures
            r@ == rat(0, 1),
            r.wf(),
    {
        Ratio { num: 0, den: 1 }
    }

    pub fn new(num: i128, den: i128) -> (r: Ratio)
        requires
            den > 0,
        ensures
            r@ == rat(num as int, den as int),
            r.wf(),
    {
        Ratio { num, den }
    }

    /// Strict order by cross-multiplication.  The callers' bounds keep the
    /// two products inside the `i128` range.
    pub fn lt(&self, other: &Ratio) -> (r: bool)
        requires
            i128::MIN <= self@.num * other@.den <= i128::MAX,
            i128::MIN <= other@.num * self@.den <= i128::MAX,
        ensures
            r == rat_lt(self@, other@),
    {
        self.num * other.den < other.num * self.den
    }

    /// Non-strict order by cross-multiplication.
    pub fn le(&self, other: &Ratio) -> (r: bool)
        requires
            i128::MIN <= self@.num * other@.den <= i128::MAX,
            i128::MIN <= other@.num * self@.den <= i128::MAX,
        ensures
            r == rat_le(self@, other@),
    {
        self.num * other.den <= other.num * self.den
    }

    /// Exact difference over the common denominator.
    pub fn sub(&self, other: &Ratio) -> (r: Ratio)
        requires
            self.wf(),
            other.wf(),
            i128::MIN <= self@.num * other@.den <= i128::MAX,
            i128::MIN <= other@.num * self@.den <= i128::MAX,
            i128::MIN <= self@.num * other@.den - other@.num * self@.den <= i128::MAX,
            self@.den * other@.den <= i128::MAX,
        ensures
            r@ == rat_sub(self@, other@),
            r.wf(),
    {
        proof {
            assert(self.den as int * other.den as int > 0) by (nonlinear_arith)
                requires
                    self.den > 0,
                    other.den > 0,
            ;
        }
        Ratio { num: self.num * other.den - other.num * self.den, den: self.den * other.den }
    }
}

} // verus!
