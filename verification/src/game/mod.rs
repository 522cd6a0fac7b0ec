//! The game itself: the entities of a floor, what the hero does with items,
//! how a floor is populated, and the key-driven state machine.

pub mod world;
pub mod items;
pub mod spawn;
pub mod app;
pub mod keys;
pub mod turn;
pub mod input;
pub mod seek;
pub mod dump;
pub mod hud;
pub mod laws;
