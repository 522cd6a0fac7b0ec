//! Combat: attack resolution, the damage formula, status ticks and enemy AI.

pub mod arith;
pub mod attack;
pub mod damage;
pub mod status;
pub mod ai;
