//! Status effects that deal damage over a number of turns.

use vstd::prelude::*;

verus! {

#[derive(Copy, Clone, Debug, PartialEq, Eq, Structural)]
pub enum StatusKind {
    Poison,
    Burn,
    Slow,
    Silence,
    Bleed,
}

#[derive(Copy, Clone, Debug, PartialEq, Eq, Structural)]
pub struct StatusEffect {
    pub kind: StatusKind,
    pub damage_per_turn: i32,
    pub turns_remaining: u32,
}

impl StatusEffect {
    /// One turn passes: an active effect loses a turn and deals its damage;
    /// an expired one deals nothing.
    pub fn tick(&mut self) -> (dmg: i32)
        ensures
            old(self).turns_remaining == 0 ==> dmg == 0 && *final(self) == *old(self),
            old(self).turns_remaining > 0 ==> {
                &&& dmg == old(self).damage_per_turn
                &&& final(self).turns_remaining == old(self).turns_remaining - 1
                &&& final(self).kind == old(self).kind
                &&& final(self).damage_per_turn == old(self).damage_per_turn
            },
    {
        if self.turns_remaining == 0 {
            return 0;
        }
        self.turns_remaining = self.turns_remaining - 1;
        self.damage_per_turn
    }
}

} // verus!
