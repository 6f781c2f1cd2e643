//! Exact scores as fractions of natural numbers.

use vstd::prelude::*;

verus! {

/// A non-negative fraction `num / den`.
#[derive(Clone, Copy, Debug, PartialEq, Eq)]
pub struct Ratio {
    /// Numerator.
    pub num: u128,
    /// Denominator, never zero.
    pub den: u128,
}

impl Ratio {
    /// Well-formedness: the denominator is positive.
    pub open spec fn wf(self) -> bool {
        self.den > 0
    }

    /// The fraction lies in `[0, 1]`.
    pub open spec fn in_unit(self) -> bool {
        self.den > 0 && self.num <= self.den
    }

    /// Equality of values.
    pub open spec fn same_value(self, other: Ratio) -> bool {
        self.num * other.den == other.num * self.den
    }

    /// The fraction `0/1`.
    pub fn zero() -> (r: Ratio)
        ensures
            r.num == 0 && r.den == 1,
    {
        Ratio { num: 0, den: 1 }
    }

    /// The fraction `1/1`.
    pub fn one() -> (r: Ratio)
        ensures
            r.num == 1 && r.den == 1,
    {
        Ratio { num: 1, den: 1 }
    }
}

/// `part / total`, or `when_empty` when `total` is zero.
pub open spec fn share(part: nat, total: nat, when_empty: Ratio) -> Ratio {
    if total == 0 {
        when_empty
    } else {
        Ratio { num: part as u128, den: total as u128 }
    }
}

/// The fraction `part / total`, or `when_empty` if `total` is zero.
pub fn share_of(part: usize, total: usize, when_empty: Ratio) -> (r: Ratio)
    ensures
        r == share(part as nat, total as nat, when_empty),
{
    if total == 0 {
        when_empty
    } else {
        Ratio { num: part as u128, den: total as u128 }
    }
}

} // verus!
