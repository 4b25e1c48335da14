//! An exact rational number type.  The numeric helpers (`pow`, `linspace`)
//! and the advection configuration work on these instead of approximate
//! machine reals, so every contract can state the value exactly.

use vstd::prelude::*;

verus! {

use crate::intmath::lemma_mul_pos;

/// Cross-multiplication equality of two rationals given as
/// `(numerator, denominator)` pairs: `a` and `b` denote the same value
/// exactly when `a.0 * b.1 == b.0 * a.1` (for nonzero denominators).
pub open spec fn pair_eqv(a: (int, int), b: (int, int)) -> bool {
    a.0 * b.1 == b.0 * a.1
}

/// An exact rational number `num / den` with a positive denominator.
/// It is kept unreduced: contracts compare values by cross-multiplication.
#[derive(Clone, Copy, Debug, PartialEq, Eq, Structural)]
pub struct Rat {
    pub num: i128,
    pub den: i128,
}

impl Rat {
    /// Valid rational: the denominator is positive.
    pub open spec fn wf(self) -> bool {
        self.den > 0
    }

    /// The rational as a `(numerator, denominator)` pair of unbounded integers.
    pub open spec fn pair(self) -> (int, int) {
        (self.num as int, self.den as int)
    }

    /// Small enough that four-fold products of numerators or denominators
    /// stay far inside `i128`.
    pub open spec fn small(self) -> bool {
        &&& -1000000000 <= self.num <= 1000000000
        &&& 0 < self.den <= 1000000000
    }

    /// The exact rational `num / den`.
    pub fn new(num: i128, den: i128) -> (r: Rat)
        requires
            den > 0,
        ensures
            r.wf(),
            r.num == num,
            r.den == den,
    {
        Rat { num, den }
    }

    /// The integer `n` as a rational.
    pub fn from_int(n: i128) -> (r: Rat)
        ensures
            r.wf(),
            r.num == n,
            r.den == 1,
    {
        Rat { num: n, den: 1 }
    }

    /// Exact product of two rationals; `None` exactly when the product's
    /// numerator or denominator leaves `i128`.
    pub fn checked_mul(self, other: Rat) -> (r: Option<Rat>)
        requires
            self.wf(),
            other.wf(),
        ensures
            r matches Some(p) ==> p.wf() && p.num == self.num * other.num && p.den == self.den
                * other.den,
            (i128::MIN <= self.num * other.num <= i128::MAX && self.den * other.den
                <= i128::MAX) ==> r is Some,
    {
        proof {
            lemma_mul_pos(self.den as int, other.den as int);
        }
        let n: Option<i128> = self.num.checked_mul(other.num);
        let d: Option<i128> = self.den.checked_mul(other.den);
        match (n, d) {
            (Some(nn), Some(dd)) => Some(Rat { num: nn, den: dd }),
            _ => None,
        }
    }
}

} // verus!
