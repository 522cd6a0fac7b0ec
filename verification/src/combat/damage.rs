//! A simple damage formula: base plus a symmetric variance.

use vstd::prelude::*;
use crate::combat::arith::{trunc_rem, rem_i32};

verus! {

#[derive(Copy, Clone, Debug, Default, PartialEq, Eq, Structural)]
pub struct DamageFormula {
    pub base: i32,
    pub variance: i32,
    /// A natural roll at or above `crit_threshold` is a critical hit.
    pub crit_threshold: i32,
}

/// `max(v, 1)`.
pub open spec fn at_least_one(v: int) -> int {
    if v < 1 { 1 } else { v }
}

/// The modulus of the variance roll: `2 * max(variance, 1) + 1`.
pub open spec fn variance_span(variance: int) -> int {
    at_least_one(variance) * 2 + 1
}

/// `base + (rng % span) - variance`, before the floor of 1.
pub open spec fn raw_roll(f: DamageFormula, rng: u32) -> int {
    f.base + trunc_rem((rng as i32) as int, variance_span(f.variance as int)) - f.variance
}

impl DamageFormula {
    /// Damage for a roll: base plus a variance in `[-variance, variance]`
    /// drawn from `rng`, never below 1.
    pub fn roll(&self, rng: u32) -> (dmg: i32)
        requires
            self.variance <= (i32::MAX - 1) / 2,
            i32::MIN <= self.base + trunc_rem((rng as i32) as int, variance_span(self.variance as int)) <= i32::MAX,
            i32::MIN <= raw_roll(*self, rng) <= i32::MAX,
        ensures
            dmg == at_least_one(raw_roll(*self, rng)),
            dmg >= 1,
    {
        let v = if self.variance < 1 { 1 } else { self.variance };
        let span = v * 2 + 1;
        #[verifier::truncate]
        let r = rng as i32;
        let dmg = self.base + rem_i32(r, span) - self.variance;
        if dmg < 1 { 1 } else { dmg }
    }

    /// A roll is critical when it reaches `crit_threshold` (`rng` read as
    /// `i32`).
    pub fn is_crit(&self, rng: u32) -> (c: bool)
        ensures
            c == ((rng as i32) >= self.crit_threshold),
    {
        #[verifier::truncate]
        let r = rng as i32;
        r >= self.crit_threshold
    }
}

} // verus!
