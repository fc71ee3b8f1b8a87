//! Progress fractions, kept exact as a numerator/denominator pair.
//!
//! A progress value in `[0, 1]` is stored as `num / den` with `den >= 1` and
//! `num <= den`, so the library never touches floating point; observers that
//! want a float divide the two fields themselves.

use vstd::prelude::*;

verus! {

/// An exact progress ratio in the closed interval `[0, 1]`.
#[derive(Clone, Copy, Debug, PartialEq, Eq, Structural)]
pub struct Fraction {
    pub num: usize,
    pub den: usize,
}

impl Fraction {
    /// Well-formed fractions denote a value between 0 and 1.
    pub open spec fn wf(self) -> bool {
        1 <= self.den && self.num <= self.den
    }

    /// Zero progress, as a spec value.
    pub open spec fn spec_zero() -> Fraction {
        Fraction { num: 0, den: 1 }
    }

    /// Full progress, as a spec value.
    pub open spec fn spec_one() -> Fraction {
        Fraction { num: 1, den: 1 }
    }

    /// The ratio `processed / max(total, 1)`, clamped to 1.
    pub open spec fn spec_of(processed: int, total: int) -> Fraction {
        let den = if total >= 1 { total } else { 1 };
        let num = if processed <= den { processed } else { den };
        Fraction { num: (if num >= 0 { num } else { 0 }) as usize, den: den as usize }
    }

    /// Zero progress.
    pub fn zero() -> (r: Fraction)
        ensures
            r == Fraction::spec_zero(),
            r.wf(),
    {
        Fraction { num: 0, den: 1 }
    }

    /// Full progress.
    pub fn one() -> (r: Fraction)
        ensures
            r == Fraction::spec_one(),
            r.wf(),
    {
        Fraction { num: 1, den: 1 }
    }

    /// The aggregate ratio of `processed` finished items out of `total`,
    /// guarding against an empty total and clamping overshoot at 1.
    pub fn of(processed: usize, total: usize) -> (r: Fraction)
        ensures
            r == Fraction::spec_of(processed as int, total as int),
            r.wf(),
    {
        let den: usize = if total >= 1 { total } else { 1 };
        let num: usize = if processed <= den { processed } else { den };
        Fraction { num, den }
    }

    /// Whether the fraction denotes exactly 1; meaningful on well-formed
    /// fractions, where the value is 1 exactly when the two fields agree.
    pub fn is_one(&self) -> (r: bool)
        ensures
            r == (self.num == self.den),
    {
        self.num == self.den
    }
}

} // verus!
