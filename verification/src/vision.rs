//! Field of view (recursive shadowcasting from `doryen-fov`).

use vstd::prelude::*;
use doryen_fov::{FovAlgorithm, FovRecursiveShadowCasting, MapData};
use crate::components::TilePos;

verus! {

#[verifier::external_type_specification]
#[verifier::external_body]
pub struct ExMapData(MapData);

#[verifier::external_type_specification]
#[verifier::external_body]
pub struct ExFovRecursiveShadowCasting(FovRecursiveShadowCasting);

/// Cells of a `MapData`, row-major: `(transparent, in field of view)`.
pub uninterp spec fn map_cells(m: MapData) -> Seq<(bool, bool)>;

/// Width of a `MapData` (the number of cells is a multiple of it).
pub uninterp spec fn map_width(m: MapData) -> nat;

/// Cells that `FovRecursiveShadowCasting::compute_fov` marks visible on a map
/// of the given transparency and size, seen from `(x, y)` within `radius`
/// (0 = unlimited) with `light_walls`.
pub uninterp spec fn shadowcast(transparent: Seq<bool>, width: nat, height: nat, x: nat, y: nat, radius: nat, light_walls: bool) -> Seq<bool>;

pub open spec fn transparency(cells: Seq<(bool, bool)>) -> Seq<bool> {
    cells.map_values(|c: (bool, bool)| c.0)
}

pub open spec fn fov_of(cells: Seq<(bool, bool)>) -> Seq<bool> {
    cells.map_values(|c: (bool, bool)| c.1)
}

/// `MapData::new`: a `width` x `height` map, every cell transparent and
/// outside the field of view.
#[verifier::external_body]
fn map_new(width: usize, height: usize) -> (m: MapData)
    requires
        width * height <= usize::MAX,
    ensures
        map_width(m) == width,
        map_cells(m) == Seq::new((width * height) as nat, |i: int| (true, false)),
{
    MapData::new(width, height)
}

/// `MapData::set_transparent`: sets the transparency of cell `(x, y)`.
#[verifier::external_body]
fn map_set_transparent(m: &mut MapData, x: usize, y: usize, is_transparent: bool)
    requires
        0 < map_width(*old(m)),
        x < map_width(*old(m)),
        y * map_width(*old(m)) + x < map_cells(*old(m)).len(),
    ensures
        map_width(*final(m)) == map_width(*old(m)),
        map_cells(*final(m)) == map_cells(*old(m)).update(
            (y * map_width(*old(m)) + x) as int,
            (is_transparent, map_cells(*old(m))[(y * map_width(*old(m)) + x) as int].1),
        ),
{
    m.set_transparent(x, y, is_transparent);
}

/// `MapData::is_in_fov`: whether cell `(x, y)` is in the field of view.
#[verifier::external_body]
fn map_is_in_fov(m: &MapData, x: usize, y: usize) -> (b: bool)
    requires
        x < map_width(*m),
        y * map_width(*m) + x < map_cells(*m).len(),
    ensures
        b == map_cells(*m)[(y * map_width(*m) + x) as int].1,
{
    m.is_in_fov(x, y)
}

/// `FovRecursiveShadowCasting::new`.
#[verifier::external_body]
fn shadowcaster_new() -> (f: FovRecursiveShadowCasting) {
    FovRecursiveShadowCasting::new()
}

/// `FovRecursiveShadowCasting::compute_fov`: adds to the field of view the
/// cells visible from `(x, y)`; transparency is untouched. The observer's cell
/// is always visible, and with a positive radius every newly visible cell lies
/// within that Euclidean distance.
#[verifier::external_body]
fn shadowcast_fov(fov: &mut FovRecursiveShadowCasting, m: &mut MapData, x: usize, y: usize, radius: usize, light_walls: bool)
    requires
        0 < map_width(*old(m)) <= 0x4000,
        map_cells(*old(m)).len() % map_width(*old(m)) == 0,
        map_cells(*old(m)).len() / map_width(*old(m)) <= 0x4000,
        x < map_width(*old(m)),
        y < map_cells(*old(m)).len() / map_width(*old(m)),
        radius <= 0x4000,
    ensures
        map_width(*final(m)) == map_width(*old(m)),
        map_cells(*final(m)) == Seq::new(map_cells(*old(m)).len(), |i: int| (
            map_cells(*old(m))[i].0,
            map_cells(*old(m))[i].1 || shadowcast(
                transparency(map_cells(*old(m))),
                map_width(*old(m)),
                map_cells(*old(m)).len() / map_width(*old(m)),
                x as nat,
                y as nat,
                radius as nat,
                light_walls,
            )[i],
        )),
        map_cells(*final(m)).len() == shadowcast(
            transparency(map_cells(*old(m))),
            map_width(*old(m)),
            map_cells(*old(m)).len() / map_width(*old(m)),
            x as nat,
            y as nat,
            radius as nat,
            light_walls,
        ).len(),
        map_cells(*final(m))[(y * map_width(*old(m)) + x) as int].1,
        radius > 0 ==> forall|i: int| 0 <= i < map_cells(*final(m)).len()
            && (#[trigger] map_cells(*final(m))[i]).1 && !map_cells(*old(m))[i].1 ==> {
                let dx = i % (map_width(*old(m)) as int) - x;
                let dy = i / (map_width(*old(m)) as int) - y;
                dx * dx + dy * dy <= radius * radius
            },
{
    fov.compute_fov(m, x, y, radius, light_walls);
}

/// Row-major list of the positions of the first `n` cells that are in the
/// field of view.
pub open spec fn visible_positions(fov: Seq<bool>, width: int, n: int) -> Seq<TilePos>
    decreases n,
{
    if n <= 0 {
        Seq::empty()
    } else {
        let prev = visible_positions(fov, width, n - 1);
        if fov[n - 1] {
            prev.push(TilePos(((n - 1) % width) as i32, ((n - 1) / width) as i32))
        } else {
            prev
        }
    }
}

/// The cells visible from `origin` on a map whose sight-blocking cells are `blocks`.
pub open spec fn fov_cells(origin: TilePos, width: int, height: int, radius: int, blocks: Seq<bool>) -> Seq<bool> {
    shadowcast(
        Seq::new((width * height) as nat, |i: int| !blocks[i]),
        width as nat,
        height as nat,
        origin.0 as nat,
        origin.1 as nat,
        radius as nat,
        true,
    )
}

/// Positions in `out` all lie within `radius` of `origin` (Euclidean).
pub open spec fn within_radius(out: Seq<TilePos>, origin: TilePos, radius: int) -> bool {
    forall|k: int| 0 <= k < out.len() ==> {
        let dx = (#[trigger] out[k]).0 - origin.0;
        let dy = out[k].1 - origin.1;
        dx * dx + dy * dy <= radius * radius
    }
}

proof fn lemma_visible_positions_facts(fov: Seq<bool>, width: int, n: int, origin: TilePos, radius: int)
    requires
        0 < width <= 0x4000,
        0 <= n <= fov.len(),
        radius > 0 ==> forall|i: int| 0 <= i < fov.len() && #[trigger] fov[i] ==> {
            let dx = i % width - origin.0;
            let dy = i / width - origin.1;
            dx * dx + dy * dy <= radius * radius
        },
        fov.len() <= 0x1000_0000,
    ensures
        radius > 0 ==> within_radius(visible_positions(fov, width, n), origin, radius),
        forall|i: int| 0 <= i < n && fov[i] ==> visible_positions(fov, width, n).contains(
            TilePos((i % width) as i32, (i / width) as i32)),
    decreases n,
{
    if n > 0 {
        lemma_visible_positions_facts(fov, width, n - 1, origin, radius);
        let prev = visible_positions(fov, width, n - 1);
        let cur = visible_positions(fov, width, n);
        assert forall|i: int| 0 <= i < n && fov[i] implies cur.contains(TilePos((i % width) as i32, (i / width) as i32)) by {
            if i < n - 1 {
                let k = choose|k: int| 0 <= k < prev.len() && prev[k] == TilePos((i % width) as i32, (i / width) as i32);
                assert(cur[k] == prev[k]);
            } else {
                assert(cur[cur.len() - 1] == TilePos((i % width) as i32, (i / width) as i32));
            }
        }
        if radius > 0 && fov[n - 1] {
            vstd::arithmetic::div_mod::lemma_mod_pos_bound(n - 1, width);
            assert((n - 1) / width <= n - 1) by (nonlinear_arith) requires 0 < width, n >= 1;
            assert(0 <= (n - 1) / width) by (nonlinear_arith) requires 0 < width, n >= 1;
            let p = TilePos(((n - 1) % width) as i32, ((n - 1) / width) as i32);
            assert(p.0 == (n - 1) % width);
            assert(p.1 == (n - 1) / width);
            assert(cur[cur.len() - 1] == p);
            assert forall|k: int| 0 <= k < cur.len() implies {
                let dx = (#[trigger] cur[k]).0 - origin.0;
                let dy = cur[k].1 - origin.1;
                dx * dx + dy * dy <= radius * radius
            } by {
                if k < prev.len() {
                    assert(cur[k] == prev[k]);
                }
            }
        }
    }
}

/// The positions of the lit cells of a `width` x `height` map (`lit[x + y *
/// width]`), in row-major order (see `visible_positions`); `out` is cleared
/// and refilled.
pub fn positions_of_lit(lit: &Vec<bool>, width: i32, height: i32, out: &mut Vec<TilePos>)
    requires
        1 <= width <= 0x4000,
        1 <= height <= 0x4000,
        lit@.len() == width * height,
    ensures
        final(out)@ == visible_positions(lit@, width as int, width * height),
{
    out.clear();
    let ghost n = width * height;
    assert(n <= 0x1000_0000) by (nonlinear_arith) requires 1 <= width <= 0x4000, 1 <= height <= 0x4000, n == width * height;
    let mut yy: i32 = 0;
    while yy < height
        invariant
            1 <= width <= 0x4000,
            1 <= height <= 0x4000,
            n == width * height,
            n <= 0x1000_0000,
            lit@.len() == n,
            0 <= yy <= height,
            out@ == visible_positions(lit@, width as int, yy * width),
        decreases height - yy,
    {
        let mut xx: i32 = 0;
        while xx < width
            invariant
                1 <= width <= 0x4000,
                1 <= height <= 0x4000,
                n == width * height,
                n <= 0x1000_0000,
                lit@.len() == n,
                0 <= yy < height,
                0 <= xx <= width,
                out@ == visible_positions(lit@, width as int, yy * width + xx),
            decreases width - xx,
        {
            assert(yy * width + xx < n) by (nonlinear_arith) requires yy < height, xx < width, n == width * height, 0 <= yy, 0 <= xx;
            let i = yy * width + xx;
            proof {
                vstd::arithmetic::div_mod::lemma_fundamental_div_mod_converse(i as int, width as int, yy as int, xx as int);
            }
            if lit[i as usize] {
                out.push(TilePos(xx, yy));
            }
            xx = xx + 1;
        }
        assert((yy + 1) * width == yy * width + width) by (nonlinear_arith);
        yy = yy + 1;
    }
    assert(height * width == width * height) by (nonlinear_arith);
}

/// Computes the tiles visible from `origin` on a `width` x `height` map whose
/// sight-blocking cells are `blocks[x + y * width]`, within `radius`
/// (0 = unlimited), walls at the edge of sight included. `out` is cleared and
/// refilled in row-major order.
pub fn compute(origin: TilePos, width: i32, height: i32, radius: i32, blocks: &[bool], out: &mut Vec<TilePos>)
    requires
        1 <= width <= 0x4000,
        1 <= height <= 0x4000,
        0 <= origin.0 < width,
        0 <= origin.1 < height,
        0 <= radius <= 0x4000,
        blocks@.len() >= width * height,
    ensures
        final(out)@ == visible_positions(fov_cells(origin, width as int, height as int, radius as int, blocks@), width as int, width * height),
        final(out)@.contains(origin),
        radius > 0 ==> within_radius(final(out)@, origin, radius as int),
{
    out.clear();
    let w = width as usize;
    let h = height as usize;
    assert(w * h <= 0x1000_0000) by (nonlinear_arith) requires w <= 0x4000, h <= 0x4000;
    let mut map = map_new(w, h);
    let ghost n = (w * h) as int;
    let mut y: usize = 0;
    while y < h
        invariant
            w == width,
            h == height,
            n == w * h,
            n <= 0x1000_0000,
            1 <= w <= 0x4000,
            1 <= h <= 0x4000,
            blocks@.len() >= n,
            y <= h,
            map_width(map) == w,
            map_cells(map).len() == n,
            forall|i: int| 0 <= i < n ==> (#[trigger] map_cells(map)[i]).1 == false,
            forall|i: int| 0 <= i < n ==> (#[trigger] map_cells(map)[i]).0 == (if i < y * w { !blocks@[i] } else { true }),
        decreases h - y,
    {
        let mut x: usize = 0;
        while x < w
            invariant
                w == width,
                h == height,
                n == w * h,
                n <= 0x1000_0000,
                1 <= w <= 0x4000,
                1 <= h <= 0x4000,
                blocks@.len() >= n,
                y < h,
                x <= w,
                map_width(map) == w,
                map_cells(map).len() == n,
                forall|i: int| 0 <= i < n ==> (#[trigger] map_cells(map)[i]).1 == false,
                forall|i: int| 0 <= i < n ==> (#[trigger] map_cells(map)[i]).0 == (if i < y * w + x { !blocks@[i] } else { true }),
            decreases w - x,
        {
            assert(y * w + x < n) by (nonlinear_arith) requires y < h, x < w, n == w * h;
            let b = blocks[x + y * w];
            map_set_transparent(&mut map, x, y, !b);
            x = x + 1;
        }
        assert((y + 1) * w == y * w + w) by (nonlinear_arith);
        y = y + 1;
    }
    assert(map_cells(map).len() / (w as nat) == h) by {
        vstd::arithmetic::div_mod::lemma_div_multiples_vanish(h as int, w as int);
        assert(w * h == h * w) by (nonlinear_arith);
    }
    assert(map_cells(map).len() % (w as nat) == 0) by {
        vstd::arithmetic::div_mod::lemma_mod_multiples_basic(h as int, w as int);
        assert(w * h == h * w) by (nonlinear_arith);
    }
    let ghost cells0 = map_cells(map);
    assert(transparency(cells0) =~= Seq::new((width * height) as nat, |i: int| !blocks@[i])) by {
        assert(n == width * height);
    }
    let mut fov = shadowcaster_new();
    shadowcast_fov(&mut fov, &mut map, origin.0 as usize, origin.1 as usize, radius as usize, true);
    let ghost lit = fov_cells(origin, width as int, height as int, radius as int, blocks@);
    assert(fov_of(map_cells(map)) =~= lit);
    assert(radius > 0 ==> forall|i: int| 0 <= i < lit.len() && #[trigger] lit[i] ==> {
        let dx = i % (w as int) - origin.0;
        let dy = i / (w as int) - origin.1;
        dx * dx + dy * dy <= radius * radius
    }) by {
        if radius > 0 {
            assert forall|i: int| 0 <= i < lit.len() && #[trigger] lit[i] implies {
                let dx = i % (w as int) - origin.0;
                let dy = i / (w as int) - origin.1;
                dx * dx + dy * dy <= radius * radius
            } by {
                assert(map_cells(map)[i].1);
                assert(!cells0[i].1);
            }
        }
    }
    let ghost o = origin.1 * width + origin.0;
    assert(0 <= o < n) by (nonlinear_arith)
        requires 0 <= origin.1 < height, 0 <= origin.0 < width, o == origin.1 * width + origin.0, n == w * h, w == width, h == height;
    assert(map_cells(map)[o].1);
    assert(fov_of(map_cells(map))[o] == map_cells(map)[o].1);
    assert(lit[o]);
    let ghost radius_fact = radius > 0 ==> forall|i: int| 0 <= i < lit.len() && #[trigger] lit[i] ==> {
        let dx = i % (w as int) - origin.0;
        let dy = i / (w as int) - origin.1;
        dx * dx + dy * dy <= radius * radius
    };
    assert(radius_fact);
    let mut cells: Vec<bool> = Vec::new();
    let mut yy: usize = 0;
    while yy < h
        invariant
            w == width,
            h == height,
            n == w * h,
            n <= 0x1000_0000,
            1 <= w <= 0x4000,
            yy <= h,
            map_width(map) == w,
            map_cells(map).len() == n,
            lit.len() == n,
            fov_of(map_cells(map)) == lit,
            cells@ == lit.take(yy * w),
        decreases h - yy,
    {
        let mut xx: usize = 0;
        while xx < w
            invariant
                w == width,
                h == height,
                n == w * h,
                n <= 0x1000_0000,
                1 <= w <= 0x4000,
                yy < h,
                xx <= w,
                map_width(map) == w,
                map_cells(map).len() == n,
                lit.len() == n,
                fov_of(map_cells(map)) == lit,
                cells@ == lit.take(yy * w + xx),
            decreases w - xx,
        {
            assert(yy * w + xx < n) by (nonlinear_arith) requires yy < h, xx < w, n == w * h;
            let vis = map_is_in_fov(&map, xx, yy);
            cells.push(vis);
            assert(cells@ =~= lit.take(yy * w + xx + 1));
            xx = xx + 1;
        }
        assert((yy + 1) * w == yy * w + w) by (nonlinear_arith);
        yy = yy + 1;
    }
    assert(cells@ =~= lit);
    positions_of_lit(&cells, width, height, out);
    proof {
        assert(height * width == width * height) by (nonlinear_arith);
        assert(0 <= o < n) by (nonlinear_arith) requires 0 <= origin.1 < height, 0 <= origin.0 < width, o == origin.1 * width + origin.0, n == w * h, w == width, h == height;
        vstd::arithmetic::div_mod::lemma_fundamental_div_mod_converse(o as int, w as int, origin.1 as int, origin.0 as int);
        lemma_visible_positions_facts(lit, w as int, n, origin, radius as int);
    }
}

} // verus!
