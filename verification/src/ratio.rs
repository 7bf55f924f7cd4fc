//! Exact fractions of non-negative integers.

use vstd::prelude::*;

verus! {

/// The fraction `numer / denom`, kept exact.
///
/// A zero denominator stands for a quantity that is not defined, such as the
/// mean of no samples; such a fraction compares as neither below nor above
/// anything.
#[derive(Debug, Clone, Copy, PartialEq, Eq, Structural)]
pub struct Ratio {
    pub numer: u128,
    pub denom: u128,
}

impl Ratio {
    /// Whether the fraction denotes a number.
    pub open spec fn defined(self) -> bool {
        self.denom > 0
    }

    /// Whether this fraction is defined and equal to the integer `n`.
    pub open spec fn is_int(self, n: int) -> bool {
        self.defined() && self.numer == n * self.denom
    }
}

/// A threshold `numer / denom` against which a distance is compared. It may
/// be negative.
///
/// A zero denominator stands for a threshold that is not a number: nothing is
/// within it.
#[derive(Debug, Clone, Copy, PartialEq, Eq, Structural)]
pub struct Tolerance {
    pub numer: i32,
    pub denom: u32,
}

impl Tolerance {
    /// Whether the threshold denotes a number.
    pub open spec fn defined(self) -> bool {
        self.denom > 0
    }

    /// Whether the threshold is defined and at least the integer `n`.
    pub open spec fn at_least(self, n: int) -> bool {
        self.defined() && self.numer >= n * self.denom
    }

    /// Whether `r` and the threshold are both defined and `r` does not exceed
    /// the threshold.
    pub open spec fn admits(self, r: Ratio) -> bool {
        r.defined() && self.defined() && r.numer * self.denom <= self.numer * r.denom
    }
}

} // verus!
