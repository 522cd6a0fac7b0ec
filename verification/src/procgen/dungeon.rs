//! Tiles, rectangular rooms and the dungeon grid with its carving operations.

use vstd::prelude::*;
use crate::components::TilePos;

verus! {

/// A tile in the dungeon.
#[derive(Copy, Clone, Debug, PartialEq, Eq, Structural)]
pub enum Tile {
    Wall,
    Floor,
    /// Impassable (boundary or pillar).
    Rock,
    /// Stairs to the next floor: passable, one per generated floor.
    StairsDown,
}

/// Floors and stairs can be stood on.
pub open spec fn passable_tile(t: Tile) -> bool {
    t == Tile::Floor || t == Tile::StairsDown
}

impl Tile {
    pub fn is_passable(self) -> (r: bool)
        ensures
            r == passable_tile(self),
    {
        match self {
            Tile::Floor | Tile::StairsDown => true,
            _ => false,
        }
    }
}

/// Axis-aligned rectangle, corners inclusive.
#[derive(Copy, Clone, Debug, PartialEq, Eq, Structural)]
pub struct Rect {
    pub x1: i32,
    pub y1: i32,
    pub x2: i32,
    pub y2: i32,
}

/// Coordinates kept small enough for rectangle arithmetic.
pub open spec fn rect_in_range(r: Rect) -> bool {
    &&& -0x2001_0000 <= r.x1 <= r.x2 <= 0x2001_0000
    &&& -0x2001_0000 <= r.y1 <= r.y2 <= 0x2001_0000
}

/// Centre of a rectangle (integer division rounds toward zero, as in Rust).
pub open spec fn center_of(r: Rect) -> (int, int) {
    (half(r.x1 + r.x2), half(r.y1 + r.y2))
}

/// `v / 2` rounded toward zero.
pub open spec fn half(v: int) -> int {
    if v >= 0 { v / 2 } else { -((-v) / 2) }
}

pub open spec fn rect_contains(r: Rect, x: int, y: int) -> bool {
    r.x1 <= x <= r.x2 && r.y1 <= y <= r.y2
}

fn half_i32(v: i32) -> (r: i32)
    ensures
        r == half(v as int),
{
    v / 2
}

impl Rect {
    /// The rectangle with the given corners (`x1 <= x2`, `y1 <= y2`).
    pub fn new(x1: i32, y1: i32, x2: i32, y2: i32) -> (r: Self)
        requires
            x1 <= x2,
            y1 <= y2,
        ensures
            r == (Rect { x1, y1, x2, y2 }),
    {
        Rect { x1, y1, x2, y2 }
    }

    pub fn width(&self) -> (w: i32)
        requires
            i32::MIN <= self.x2 - self.x1 <= i32::MAX,
            self.x2 - self.x1 + 1 <= i32::MAX,
        ensures
            w == self.x2 - self.x1 + 1,
    {
        self.x2 - self.x1 + 1
    }

    pub fn height(&self) -> (h: i32)
        requires
            i32::MIN <= self.y2 - self.y1 <= i32::MAX,
            self.y2 - self.y1 + 1 <= i32::MAX,
        ensures
            h == self.y2 - self.y1 + 1,
    {
        self.y2 - self.y1 + 1
    }

    pub fn center(&self) -> (c: (i32, i32))
        requires
            i32::MIN <= self.x1 + self.x2 <= i32::MAX,
            i32::MIN <= self.y1 + self.y2 <= i32::MAX,
        ensures
            c.0 == center_of(*self).0,
            c.1 == center_of(*self).1,
    {
        (half_i32(self.x1 + self.x2), half_i32(self.y1 + self.y2))
    }

    pub fn contains(&self, x: i32, y: i32) -> (b: bool)
        ensures
            b == rect_contains(*self, x as int, y as int),
    {
        x >= self.x1 && x <= self.x2 && y >= self.y1 && y <= self.y2
    }
}

/// The centre of a rectangle with `x1 <= x2` lies inside it.
pub proof fn lemma_center_inside(r: Rect)
    requires
        rect_in_range(r),
    ensures
        rect_contains(r, center_of(r).0, center_of(r).1),
{
}

/// A generated dungeon floor.
#[derive(Clone, Debug)]
pub struct Dungeon {
    pub width: i32,
    pub height: i32,
    /// Row-major tiles: `(x, y)` is at `y * width + x`.
    pub tiles: Vec<Tile>,
    pub rooms: Vec<Rect>,
    /// Location of the stairs tile, if any.
    pub stairs: Option<TilePos>,
}

/// A grid of `width` x `height` cells small enough for `i32` index arithmetic.
pub open spec fn grid_ok(width: int, height: int, tiles: Seq<Tile>) -> bool {
    &&& 0 <= width
    &&& 0 <= height
    &&& width * height <= i32::MAX
    &&& tiles.len() == width * height
}

pub open spec fn in_bounds(width: int, height: int, x: int, y: int) -> bool {
    0 <= x < width && 0 <= y < height
}

/// Tile at `(x, y)`; `Rock` outside the grid.
pub open spec fn tile_at(width: int, height: int, tiles: Seq<Tile>, x: int, y: int) -> Tile {
    if in_bounds(width, height, x, y) { tiles[y * width + x] } else { Tile::Rock }
}

/// Position of cell index `i` in a grid of the given width.
pub open spec fn cell_x(width: int, i: int) -> int {
    i % width
}

pub open spec fn cell_y(width: int, i: int) -> int {
    i / width
}

/// The tiles after carving room `r`: inside it, a cell on its edge that was
/// `Rock` becomes `Wall` and every other cell becomes `Floor`.
pub open spec fn carve_room_tiles(width: int, tiles: Seq<Tile>, r: Rect) -> Seq<Tile> {
    Seq::new(tiles.len(), |i: int| {
        let x = cell_x(width, i);
        let y = cell_y(width, i);
        if rect_contains(r, x, y) {
            let on_edge = x == r.x1 || y == r.y1 || x == r.x2 || y == r.y2;
            if on_edge && tiles[i] == Tile::Rock { Tile::Wall } else { Tile::Floor }
        } else {
            tiles[i]
        }
    })
}

pub open spec fn min_i(a: int, b: int) -> int {
    if a < b { a } else { b }
}

pub open spec fn max_i(a: int, b: int) -> int {
    if a < b { b } else { a }
}

/// Cells of the L-shaped corridor from `(ax, ay)` to `(bx, by)`: the start
/// cell, row `by` between the two columns, column `bx` between the two rows.
pub open spec fn on_corridor(ax: int, ay: int, bx: int, by: int, x: int, y: int) -> bool {
    ||| (x == ax && y == ay)
    ||| (y == by && min_i(ax, bx) <= x <= max_i(ax, bx))
    ||| (x == bx && min_i(ay, by) <= y <= max_i(ay, by))
}

/// The tiles after carving that corridor: its in-grid cells become `Floor`.
pub open spec fn carve_corridor_tiles(width: int, tiles: Seq<Tile>, ax: int, ay: int, bx: int, by: int) -> Seq<Tile> {
    Seq::new(tiles.len(), |i: int|
        if on_corridor(ax, ay, bx, by, cell_x(width, i), cell_y(width, i)) { Tile::Floor } else { tiles[i] }
    )
}

/// The tiles after setting `(x, y)` to `t` (no change outside the grid).
pub open spec fn set_tile(width: int, height: int, tiles: Seq<Tile>, x: int, y: int, t: Tile) -> Seq<Tile> {
    if in_bounds(width, height, x, y) { tiles.update(y * width + x, t) } else { tiles }
}

impl Dungeon {
    pub open spec fn wf(&self) -> bool {
        grid_ok(self.width as int, self.height as int, self.tiles@)
    }

    /// Tile at `(x, y)`; `Rock` outside the grid.
    pub fn at(&self, x: i32, y: i32) -> (t: Tile)
        requires
            self.wf(),
        ensures
            t == tile_at(self.width as int, self.height as int, self.tiles@, x as int, y as int),
    {
        if x < 0 || y < 0 || x >= self.width || y >= self.height {
            return Tile::Rock;
        }
        proof { lemma_cell_index(self.width as int, self.height as int, x as int, y as int); }
        self.tiles[(y as usize) * (self.width as usize) + (x as usize)]
    }

    /// Sets `(x, y)` to `t`; does nothing outside the grid.
    pub fn set(&mut self, x: i32, y: i32, t: Tile)
        requires
            old(self).wf(),
        ensures
            final(self).wf(),
            final(self).width == old(self).width,
            final(self).height == old(self).height,
            final(self).rooms == old(self).rooms,
            final(self).stairs == old(self).stairs,
            final(self).tiles@ == set_tile(old(self).width as int, old(self).height as int, old(self).tiles@, x as int, y as int, t),
    {
        if x >= 0 && y >= 0 && x < self.width && y < self.height {
            proof { lemma_cell_index(self.width as int, self.height as int, x as int, y as int); }
            self.tiles.set((y as usize) * (self.width as usize) + (x as usize), t);
        }
    }

    /// Carves a room: edge cells that were rock become walls, the rest floor.
    pub fn carve_room(&mut self, r: Rect)
        requires
            old(self).wf(),
            rect_in_range(r),
        ensures
            final(self).wf(),
            final(self).width == old(self).width,
            final(self).height == old(self).height,
            final(self).rooms == old(self).rooms,
            final(self).stairs == old(self).stairs,
            final(self).tiles@ == carve_room_tiles(old(self).width as int, old(self).tiles@, r),
    {
        let ghost w = self.width as int;
        let ghost h = self.height as int;
        let ghost t0 = self.tiles@;
        let mut y = r.y1;
        while y <= r.y2
            invariant
                self.wf(),
                self.width == old(self).width,
                self.height == old(self).height,
                self.rooms == old(self).rooms,
                self.stairs == old(self).stairs,
                w == self.width,
                h == self.height,
                t0 == old(self).tiles@,
                rect_in_range(r),
                r.y1 <= y <= r.y2 + 1,
                self.tiles@ == Seq::new(t0.len(), |i: int| if rect_contains(r, cell_x(w, i), cell_y(w, i)) && cell_y(w, i) < y {
                    carve_room_tiles(w, t0, r)[i]
                } else {
                    t0[i]
                }),
            decreases r.y2 + 1 - y,
        {
            let mut x = r.x1;
            while x <= r.x2
                invariant
                    self.wf(),
                    self.width == old(self).width,
                    self.height == old(self).height,
                    self.rooms == old(self).rooms,
                    self.stairs == old(self).stairs,
                    w == self.width,
                    h == self.height,
                    t0 == old(self).tiles@,
                    rect_in_range(r),
                    r.y1 <= y <= r.y2,
                    r.x1 <= x <= r.x2 + 1,
                    self.tiles@ == Seq::new(t0.len(), |i: int| if rect_contains(r, cell_x(w, i), cell_y(w, i))
                        && (cell_y(w, i) < y || (cell_y(w, i) == y && cell_x(w, i) < x)) {
                        carve_room_tiles(w, t0, r)[i]
                    } else {
                        t0[i]
                    }),
                decreases r.x2 + 1 - x,
            {
                let p = self.at(x, y);
                let on_edge = x == r.x1 || y == r.y1 || x == r.x2 || y == r.y2;
                let nt = if on_edge && p == Tile::Rock { Tile::Wall } else { Tile::Floor };
                let ghost before = self.tiles@;
                self.set(x, y, nt);
                proof {
                    lemma_room_cell_step(w, h, t0, before, self.tiles@, r, x as int, y as int, nt);
                }
                x = x + 1;
            }
            proof {
                assert(self.tiles@ =~= Seq::new(t0.len(), |i: int| if rect_contains(r, cell_x(w, i), cell_y(w, i)) && cell_y(w, i) < y + 1 {
                    carve_room_tiles(w, t0, r)[i]
                } else {
                    t0[i]
                })) by {
                    assert forall|i: int| 0 <= i < t0.len() implies
                        (rect_contains(r, cell_x(w, i), cell_y(w, i)) && (cell_y(w, i) < y || (cell_y(w, i) == y && cell_x(w, i) < x)))
                        == (rect_contains(r, cell_x(w, i), cell_y(w, i)) && cell_y(w, i) < y + 1) by {}
                }
            }
            y = y + 1;
        }
        proof {
            assert(self.tiles@ =~= carve_room_tiles(w, t0, r));
        }
    }
}

/// Cell `(x, y)` of an in-bounds position sits at index `y * width + x`,
/// which decodes back to `(x, y)`.
pub proof fn lemma_cell_index(width: int, height: int, x: int, y: int)
    requires
        0 <= x < width,
        0 <= y < height,
        width * height <= i32::MAX,
    ensures
        0 <= y * width + x < width * height,
        cell_x(width, y * width + x) == x,
        cell_y(width, y * width + x) == y,
        y * width + x < i32::MAX,
{
    assert(0 <= y * width + x < width * height) by (nonlinear_arith)
        requires 0 <= x < width, 0 <= y < height;
    vstd::arithmetic::div_mod::lemma_fundamental_div_mod_converse(y * width + x, width, y, x);
}

/// A carved corridor joins its ends: afterwards its start cell, every cell of
/// row `by` from column `ax` to column `bx`, and every cell of column `bx`
/// from row `ay` to row `by` are floor (those on the grid), so `(ax, ay)`
/// and `(bx, by)` are joined when both rooms' cells are; every other cell is
/// as it was.
pub proof fn law_corridor_joins(width: int, height: int, tiles: Seq<Tile>, ax: int, ay: int, bx: int, by: int)
    requires
        grid_ok(width, height, tiles),
    ensures
        ({
            let t = carve_corridor_tiles(width, tiles, ax, ay, bx, by);
            &&& t.len() == tiles.len()
            &&& in_bounds(width, height, ax, ay) ==> tile_at(width, height, t, ax, ay) == Tile::Floor
            &&& forall|x: int| #![trigger tile_at(width, height, t, x, by)]
                (if ax < bx { ax <= x <= bx } else { bx <= x <= ax }) && in_bounds(width, height, x, by)
                ==> tile_at(width, height, t, x, by) == Tile::Floor
            &&& forall|y: int| #![trigger tile_at(width, height, t, bx, y)]
                (if ay < by { ay <= y <= by } else { by <= y <= ay }) && in_bounds(width, height, bx, y)
                ==> tile_at(width, height, t, bx, y) == Tile::Floor
            &&& forall|x: int, y: int| #![trigger tile_at(width, height, t, x, y)]
                in_bounds(width, height, x, y)
                && !(x == ax && y == ay)
                && !(y == by && (if ax < bx { ax <= x <= bx } else { bx <= x <= ax }))
                && !(x == bx && (if ay < by { ay <= y <= by } else { by <= y <= ay }))
                ==> tile_at(width, height, t, x, y) == tile_at(width, height, tiles, x, y)
        }),
{
    let t = carve_corridor_tiles(width, tiles, ax, ay, bx, by);
    assert forall|x: int, y: int| in_bounds(width, height, x, y) implies
        #[trigger] tile_at(width, height, t, x, y)
            == (if on_corridor(ax, ay, bx, by, x, y) { Tile::Floor } else { tile_at(width, height, tiles, x, y) }) by {
        lemma_cell_index(width, height, x, y);
    }
}

/// The cells of a grid index decode to an in-bounds position.
pub proof fn lemma_cell_decode(width: int, height: int, i: int)
    requires
        0 < width,
        0 <= height,
        0 <= i < width * height,
    ensures
        0 <= cell_x(width, i) < width,
        0 <= cell_y(width, i) < height,
        i == cell_y(width, i) * width + cell_x(width, i),
{
    vstd::arithmetic::div_mod::lemma_fundamental_div_mod(i, width);
    vstd::arithmetic::div_mod::lemma_mod_pos_bound(i, width);
    let q = i / width;
    let m = i % width;
    assert(q * width == width * q) by (nonlinear_arith);
    assert(0 <= q < height) by (nonlinear_arith)
        requires 0 <= i < width * height, 0 < width, i == width * q + m, 0 <= m < width;
}

proof fn lemma_room_cell_step(w: int, h: int, t0: Seq<Tile>, before: Seq<Tile>, after: Seq<Tile>, r: Rect, x: int, y: int, nt: Tile)
    requires
        grid_ok(w, h, t0),
        t0.len() == before.len(),
        rect_in_range(r),
        r.y1 <= y <= r.y2,
        r.x1 <= x <= r.x2,
        before == Seq::new(t0.len(), |i: int| if rect_contains(r, cell_x(w, i), cell_y(w, i))
            && (cell_y(w, i) < y || (cell_y(w, i) == y && cell_x(w, i) < x)) {
            carve_room_tiles(w, t0, r)[i]
        } else {
            t0[i]
        }),
        after == set_tile(w, h, before, x, y, nt),
        nt == (if (x == r.x1 || y == r.y1 || x == r.x2 || y == r.y2) && tile_at(w, h, before, x, y) == Tile::Rock { Tile::Wall } else { Tile::Floor }),
    ensures
        after == Seq::new(t0.len(), |i: int| if rect_contains(r, cell_x(w, i), cell_y(w, i))
            && (cell_y(w, i) < y || (cell_y(w, i) == y && cell_x(w, i) < x + 1)) {
            carve_room_tiles(w, t0, r)[i]
        } else {
            t0[i]
        }),
{
    let target = Seq::new(t0.len(), |i: int| if rect_contains(r, cell_x(w, i), cell_y(w, i))
        && (cell_y(w, i) < y || (cell_y(w, i) == y && cell_x(w, i) < x + 1)) {
        carve_room_tiles(w, t0, r)[i]
    } else {
        t0[i]
    });
    if in_bounds(w, h, x, y) {
        lemma_cell_index(w, h, x, y);
        let k = y * w + x;
        assert(before[k] == t0[k]);
        assert forall|i: int| 0 <= i < t0.len() implies after[i] == target[i] by {
            if i != k {
                lemma_cell_decode(w, h, i);
                if cell_x(w, i) == x && cell_y(w, i) == y {
                    assert(i == k);
                }
            }
        }
        assert(after =~= target);
    } else {
        assert forall|i: int| 0 <= i < t0.len() implies after[i] == target[i] by {
            lemma_cell_decode(w, h, i);
        }
        assert(after =~= target);
    }
}


/// Setting one cell, seen cell by cell.
pub proof fn lemma_set_cell(w: int, h: int, before: Seq<Tile>, x: int, y: int, t: Tile)
    requires
        grid_ok(w, h, before),
    ensures
        set_tile(w, h, before, x, y, t) == Seq::new(before.len(), |i: int|
            if cell_x(w, i) == x && cell_y(w, i) == y { t } else { before[i] }),
{
    let target = Seq::new(before.len(), |i: int| if cell_x(w, i) == x && cell_y(w, i) == y { t } else { before[i] });
    let after = set_tile(w, h, before, x, y, t);
    if w == 0 || h == 0 {
        assert(w * h == 0) by (nonlinear_arith) requires w == 0 || h == 0;
        assert(after =~= target);
    } else {
        if in_bounds(w, h, x, y) {
            lemma_cell_index(w, h, x, y);
        }
        assert forall|i: int| 0 <= i < before.len() implies after[i] == target[i] by {
            lemma_cell_decode(w, h, i);
            if in_bounds(w, h, x, y) {
                lemma_cell_index(w, h, x, y);
            }
        }
        assert(after =~= target);
    }
}

impl Dungeon {
    /// Sets cells `(x, y)` for `xa <= x <= xb` to floor (those inside the grid).
    fn carve_row(&mut self, y: i32, xa: i32, xb: i32)
        requires
            old(self).wf(),
            -0x2001_0000 <= xa,
            xb <= 0x2001_0000,
        ensures
            final(self).wf(),
            final(self).width == old(self).width,
            final(self).height == old(self).height,
            final(self).rooms == old(self).rooms,
            final(self).stairs == old(self).stairs,
            final(self).tiles@ == Seq::new(old(self).tiles@.len(), |i: int|
                if cell_y(old(self).width as int, i) == y && xa <= cell_x(old(self).width as int, i) <= xb {
                    Tile::Floor
                } else {
                    old(self).tiles@[i]
                }),
    {
        let ghost w = self.width as int;
        let ghost h = self.height as int;
        let ghost t0 = self.tiles@;
        let mut x = xa;
        while x <= xb
            invariant
                self.wf(),
                self.width == old(self).width,
                self.height == old(self).height,
                self.rooms == old(self).rooms,
                self.stairs == old(self).stairs,
                w == self.width,
                h == self.height,
                t0 == old(self).tiles@,
                xb <= 0x2001_0000,
                xa <= x,
                x <= xb + 1 || x == xa,
                self.tiles@ == Seq::new(t0.len(), |i: int|
                    if cell_y(w, i) == y && xa <= cell_x(w, i) < x { Tile::Floor } else { t0[i] }),
            decreases xb + 1 - x,
        {
            let ghost before = self.tiles@;
            self.set(x, y, Tile::Floor);
            proof {
                lemma_set_cell(w, h, before, x as int, y as int, Tile::Floor);
                assert(self.tiles@ =~= Seq::new(t0.len(), |i: int|
                    if cell_y(w, i) == y && xa <= cell_x(w, i) < x + 1 { Tile::Floor } else { t0[i] }));
            }
            x = x + 1;
        }
        assert(self.tiles@ =~= Seq::new(t0.len(), |i: int|
            if cell_y(w, i) == y && xa <= cell_x(w, i) <= xb { Tile::Floor } else { t0[i] }));
    }

    /// Sets cells `(x, y)` for `ya <= y <= yb` to floor (those inside the grid).
    fn carve_col(&mut self, x: i32, ya: i32, yb: i32)
        requires
            old(self).wf(),
            -0x2001_0000 <= ya,
            yb <= 0x2001_0000,
        ensures
            final(self).wf(),
            final(self).width == old(self).width,
            final(self).height == old(self).height,
            final(self).rooms == old(self).rooms,
            final(self).stairs == old(self).stairs,
            final(self).tiles@ == Seq::new(old(self).tiles@.len(), |i: int|
                if cell_x(old(self).width as int, i) == x && ya <= cell_y(old(self).width as int, i) <= yb {
                    Tile::Floor
                } else {
                    old(self).tiles@[i]
                }),
    {
        let ghost w = self.width as int;
        let ghost h = self.height as int;
        let ghost t0 = self.tiles@;
        let mut y = ya;
        while y <= yb
            invariant
                self.wf(),
                self.width == old(self).width,
                self.height == old(self).height,
                self.rooms == old(self).rooms,
                self.stairs == old(self).stairs,
                w == self.width,
                h == self.height,
                t0 == old(self).tiles@,
                yb <= 0x2001_0000,
                ya <= y,
                y <= yb + 1 || y == ya,
                self.tiles@ == Seq::new(t0.len(), |i: int|
                    if cell_x(w, i) == x && ya <= cell_y(w, i) < y { Tile::Floor } else { t0[i] }),
            decreases yb + 1 - y,
        {
            let ghost before = self.tiles@;
            self.set(x, y, Tile::Floor);
            proof {
                lemma_set_cell(w, h, before, x as int, y as int, Tile::Floor);
                assert(self.tiles@ =~= Seq::new(t0.len(), |i: int|
                    if cell_x(w, i) == x && ya <= cell_y(w, i) < y + 1 { Tile::Floor } else { t0[i] }));
            }
            y = y + 1;
        }
        assert(self.tiles@ =~= Seq::new(t0.len(), |i: int|
            if cell_x(w, i) == x && ya <= cell_y(w, i) <= yb { Tile::Floor } else { t0[i] }));
    }

    /// Carves an L-shaped corridor: the start cell, then along row `by`
    /// from column `ax` to `bx`, then along column `bx` from row `ay` to `by`.
    pub fn carve_corridor(&mut self, ax: i32, ay: i32, bx: i32, by: i32)
        requires
            old(self).wf(),
            -0x2001_0000 <= ax <= 0x2001_0000,
            -0x2001_0000 <= ay <= 0x2001_0000,
            -0x2001_0000 <= bx <= 0x2001_0000,
            -0x2001_0000 <= by <= 0x2001_0000,
        ensures
            final(self).wf(),
            final(self).width == old(self).width,
            final(self).height == old(self).height,
            final(self).rooms == old(self).rooms,
            final(self).stairs == old(self).stairs,
            final(self).tiles@ == carve_corridor_tiles(old(self).width as int, old(self).tiles@, ax as int, ay as int, bx as int, by as int),
    {
        let cx = ax;
        self.carve_row(ay, if ax < cx { ax } else { cx }, if ax < cx { cx } else { ax });
        self.carve_row(by, if cx < bx { cx } else { bx }, if cx < bx { bx } else { cx });
        self.carve_col(bx, if ay < by { ay } else { by }, if ay < by { by } else { ay });
        assert(self.tiles@ =~= carve_corridor_tiles(old(self).width as int, old(self).tiles@, ax as int, ay as int, bx as int, by as int));
    }
}

} // verus!
