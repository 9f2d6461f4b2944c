//! Double-precision numbers as the search sees them: values to be ordered,
//! selected and handed on, never computed with.

use vstd::prelude::*;

verus! {

/// Bit pattern of the sign bit alone.
pub const SIGN_BIT: u64 = 0x8000_0000_0000_0000;

/// Bit pattern of positive infinity: every larger magnitude is a NaN.
pub const INFINITY_BITS: u64 = 0x7ff0_0000_0000_0000;

/// An IEEE-754 double carried as its bit pattern. `==` compares patterns.
#[derive(Clone, Copy, Debug, PartialEq, Eq, Structural)]
pub struct Scalar {
    pub bits: u64,
}

impl Scalar {
    /// The pattern without its sign bit.
    pub open spec fn magnitude(self) -> int {
        if self.bits >= SIGN_BIT {
            self.bits - SIGN_BIT
        } else {
            self.bits as int
        }
    }

    pub open spec fn nan(self) -> bool {
        self.magnitude() > INFINITY_BITS
    }

    /// Where a number that is not a NaN stands among the numbers: the two
    /// zeros share one place.
    pub open spec fn place(self) -> int {
        if self.bits >= SIGN_BIT {
            -self.magnitude()
        } else {
            self.magnitude()
        }
    }

    /// Where any pattern stands in the IEEE `totalOrder`: negative NaNs first,
    /// then the numbers with -0 before +0, then positive NaNs.
    pub open spec fn rank(self) -> int {
        if self.bits >= SIGN_BIT {
            -1 - self.magnitude()
        } else {
            self.magnitude()
        }
    }

    /// Numeric `<`: false whenever either side is a NaN.
    pub open spec fn lt(self, other: Scalar) -> bool {
        !self.nan() && !other.nan() && self.place() < other.place()
    }

    /// Numeric `<=`: false whenever either side is a NaN.
    pub open spec fn le(self, other: Scalar) -> bool {
        !self.nan() && !other.nan() && self.place() <= other.place()
    }

    /// The larger of two numbers, a NaN giving way to the other side.
    pub open spec fn larger(self, other: Scalar) -> Scalar {
        if self.nan() || self.lt(other) {
            other
        } else {
            self
        }
    }

    /// The nearest number between two bounds; a NaN stays as it is.
    pub open spec fn clamped(self, lo: Scalar, hi: Scalar) -> Scalar {
        if self.lt(lo) {
            lo
        } else if hi.lt(self) {
            hi
        } else {
            self
        }
    }

    pub fn zero() -> (r: Scalar)
        ensures
            r.bits == 0,
    {
        Scalar { bits: 0 }
    }

    pub fn infinity() -> (r: Scalar)
        ensures
            r.bits == INFINITY_BITS,
    {
        Scalar { bits: INFINITY_BITS }
    }

    pub fn is_nan(self) -> (r: bool)
        ensures
            r == self.nan(),
    {
        if self.bits >= SIGN_BIT {
            self.bits - SIGN_BIT > INFINITY_BITS
        } else {
            self.bits > INFINITY_BITS
        }
    }

    /// Neither infinite nor a NaN.
    pub fn is_finite(self) -> (r: bool)
        ensures
            r == (self.magnitude() < INFINITY_BITS),
    {
        if self.bits >= SIGN_BIT {
            self.bits - SIGN_BIT < INFINITY_BITS
        } else {
            self.bits < INFINITY_BITS
        }
    }

    /// Equal to zero, of either sign.
    pub fn is_zero(self) -> (r: bool)
        ensures
            r == (self.magnitude() == 0),
    {
        self.bits == 0 || self.bits == SIGN_BIT
    }

    fn exec_place(self) -> (r: i128)
        ensures
            r == self.place(),
    {
        if self.bits >= SIGN_BIT {
            -((self.bits - SIGN_BIT) as i128)
        } else {
            self.bits as i128
        }
    }

    /// Numeric `<`.
    pub fn less_than(self, other: Scalar) -> (r: bool)
        ensures
            r == self.lt(other),
    {
        !self.is_nan() && !other.is_nan() && self.exec_place() < other.exec_place()
    }

    /// Numeric `<=`.
    pub fn at_most(self, other: Scalar) -> (r: bool)
        ensures
            r == self.le(other),
    {
        !self.is_nan() && !other.is_nan() && self.exec_place() <= other.exec_place()
    }

    /// Strictly earlier in the total order.
    pub fn ranks_before(self, other: Scalar) -> (r: bool)
        ensures
            r == (self.rank() < other.rank()),
    {
        if self.bits >= SIGN_BIT {
            if other.bits >= SIGN_BIT {
                other.bits < self.bits
            } else {
                true
            }
        } else if other.bits >= SIGN_BIT {
            false
        } else {
            self.bits < other.bits
        }
    }

    /// The larger of two numbers, a NaN giving way to the other side.
    pub fn max(self, other: Scalar) -> (r: Scalar)
        ensures
            r == self.larger(other),
    {
        if self.is_nan() || self.less_than(other) {
            other
        } else {
            self
        }
    }

    /// The nearest number between two bounds; a NaN stays as it is.
    pub fn clamp(self, lo: Scalar, hi: Scalar) -> (r: Scalar)
        requires
            lo.le(hi),
        ensures
            r == self.clamped(lo, hi),
            !self.nan() ==> lo.le(r) && r.le(hi),
            self.nan() ==> r == self,
    {
        if self.less_than(lo) {
            lo
        } else if hi.less_than(self) {
            hi
        } else {
            self
        }
    }
}

/// What is clamped lies within its bounds, and what lies within them already is
/// left as it is.
pub proof fn clamping_stays_within(x: Scalar, lo: Scalar, hi: Scalar)
    requires
        lo.le(hi),
        !x.nan(),
    ensures
        lo.le(x.clamped(lo, hi)) && x.clamped(lo, hi).le(hi),
        lo.le(x) && x.le(hi) ==> x.clamped(lo, hi) == x,
{
}

/// The total order tells any two bit patterns apart.
pub proof fn rank_is_injective(a: Scalar, b: Scalar)
    ensures
        a.rank() == b.rank() <==> a == b,
{
}

/// A number that is numerically smaller also ranks earlier.
pub proof fn smaller_ranks_earlier(a: Scalar, b: Scalar)
    requires
        a.lt(b),
    ensures
        a.rank() < b.rank(),
{
}

/// Among numbers, ranking earlier means not being larger.
pub proof fn earlier_is_not_larger(a: Scalar, b: Scalar)
    requires
        !a.nan(),
        !b.nan(),
        a.rank() <= b.rank(),
    ensures
        a.le(b),
{
}

/// Numeric `<` chains, and nothing is below itself.
pub proof fn lt_is_a_strict_order(a: Scalar, b: Scalar, c: Scalar)
    ensures
        !a.lt(a),
        a.lt(b) && b.lt(c) ==> a.lt(c),
        a.lt(b) ==> !b.lt(a),
{
}

/// The larger of two numbers is one of them and below neither. Where one side is not a
/// number, it is the other side.
pub proof fn larger_is_below_neither(a: Scalar, b: Scalar)
    ensures
        a.larger(b) == a || a.larger(b) == b,
        !a.nan() ==> a.le(a.larger(b)),
        !b.nan() ==> b.le(a.larger(b)),
        a.larger(b).nan() <==> a.nan() && b.nan(),
{
}

} // verus!
