//! Dungeon tiles, rooms and the grid, plus the BSP generator.

pub mod dungeon;

pub mod bsp;
