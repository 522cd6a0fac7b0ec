//! Food carried by the player.

use vstd::prelude::*;

verus! {

/// Current food and the amount the run started with.
#[derive(Copy, Clone, Debug, Default, PartialEq, Eq, Structural)]
pub struct Food {
    pub current: i32,
    pub max: i32,
}

impl Food {
    /// Default starting food.
    pub const DEFAULT_MAX: i32 = 8;

    /// Current and max both set to `value`, negatives raised to 0.
    pub fn new(value: i32) -> (r: Self)
        ensures
            r.current == (if value < 0 { 0 } else { value }),
            r.max == r.current,
    {
        let value = if value < 0 { 0 } else { value };
        Food { current: value, max: value }
    }

    /// Eats `by` (saturating), never going below 0.
    pub fn consume(&mut self, by: i32)
        ensures
            final(self).max == old(self).max,
            final(self).current == ({
                let d = old(self).current - by;
                let s = if d < i32::MIN { i32::MIN as int } else if d > i32::MAX { i32::MAX as int } else { d };
                if s < 0 { 0 } else { s }
            }),
    {
        let d: i64 = self.current as i64 - by as i64;
        let s: i64 = if d < i32::MIN as i64 { i32::MIN as i64 } else if d > i32::MAX as i64 { i32::MAX as i64 } else { d };
        self.current = if s < 0 { 0 } else { s as i32 };
    }

    /// True when no food is left.
    pub fn is_starving(&self) -> (r: bool)
        ensures
            r == (self.current <= 0),
    {
        self.current <= 0
    }
}

} // verus!
