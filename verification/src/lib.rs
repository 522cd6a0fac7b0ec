//! asciirogue: the rules of a Korean-first terminal roguelike, verified.
//!
//! Module map:
//! - `components`: positions, directions and the per-entity game data
//!   (health, mana, stats, items, inventory, equipment, floor themes).
//! - `i18n`, `meta`, `food`, `knobs`, `seed`: small self-contained rules.
//! - `combat`: attack resolution, damage formula, status ticks, enemy AI.
//! - `procgen`: tiles, rooms, the dungeon grid and the BSP generator.
//! - `render`: the wall glyph selector.
//! - `vision`: field of view through the `doryen-fov` shadowcaster.
//! - `game`: the game state, its entities and the key-driven state machine.

pub mod components;
pub mod text;
pub mod i18n;
pub mod meta;
pub mod food;
pub mod knobs;
pub mod seed;
pub mod combat;
pub mod procgen;
pub mod render;
pub mod vision;
pub mod game;
