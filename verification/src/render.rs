//! Choice of the half-block glyph that draws a wall tile.

use vstd::prelude::*;
use crate::procgen::dungeon::{Dungeon, Tile, tile_at};

verus! {

/// Is the neighbour at offset `(dx, dy)` a wall?
pub open spec fn wall_near(map: Dungeon, x: int, y: int, dx: int, dy: int) -> bool {
    tile_at(map.width as int, map.height as int, map.tiles@, x + dx, y + dy) == Tile::Wall
}

/// Glyph of a wall at `(x, y)` from its wall neighbours: none gives a blank,
/// only the north one an upper half block, only the south one a lower half
/// block, any other combination a full block.
pub open spec fn wall_glyph_spec(map: Dungeon, x: int, y: int) -> char {
    let n = wall_near(map, x, y, 0, -1);
    let s = wall_near(map, x, y, 0, 1);
    let w = wall_near(map, x, y, -1, 0);
    let e = wall_near(map, x, y, 1, 0);
    if !n && !s && !w && !e {
        ' '
    } else if n && !s && !w && !e {
        '▀'
    } else if !n && s && !w && !e {
        '▄'
    } else {
        '█'
    }
}

/// Wall glyph selector: a 4-bit mask (N=1, S=2, W=4, E=8) of the wall
/// neighbours picks a half-block character.
pub fn wall_glyph(map: &Dungeon, x: i32, y: i32) -> (c: char)
    requires
        map.wf(),
        -0x1000_0000 <= x <= 0x1000_0000,
        -0x1000_0000 <= y <= 0x1000_0000,
    ensures
        c == wall_glyph_spec(*map, x as int, y as int),
{
    let n: u8 = if map.at(x, y - 1) == Tile::Wall { 1 } else { 0 };
    let s: u8 = if map.at(x, y + 1) == Tile::Wall { 2 } else { 0 };
    let w: u8 = if map.at(x - 1, y) == Tile::Wall { 4 } else { 0 };
    let e: u8 = if map.at(x + 1, y) == Tile::Wall { 8 } else { 0 };
    let mask: u8 = n + s + w + e;
    if mask == 0 {
        ' '
    } else if mask == 1 {
        '▀'
    } else if mask == 2 {
        '▄'
    } else {
        '█'
    }
}

} // verus!
