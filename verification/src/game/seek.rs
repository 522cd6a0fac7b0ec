//! Finding the nearest item on the ground, or the stairs: a breadth-first
//! walk over the floor from the hero, up to a fixed number of steps.

use vstd::prelude::*;
use crate::components::{Direction, TilePos};
use crate::game::app::App;
use crate::game::world::{GroundItem, is_passable};
use crate::procgen::dungeon::{Tile, in_bounds, passable_tile, tile_at, lemma_cell_index};

verus! {

/// How far (in steps) the search for a nearby item goes.
pub const MAX_PICKUP_SEARCH: usize = 24;

/// A map to walk on: its tiles (row-major), its width and its height.
pub type Grid = (Seq<Tile>, int, int);

/// The map of a dungeon.
pub open spec fn grid_of(d: crate::procgen::dungeon::Dungeon) -> Grid {
    (d.tiles@, d.width as int, d.height as int)
}

/// `p` lies on the map `g`, whose cell count fits in an `i32`.
pub open spec fn on_grid(g: Grid, p: TilePos) -> bool {
    &&& in_bounds(g.1, g.2, p.0 as int, p.1 as int)
    &&& g.1 * g.2 <= i32::MAX
}

/// `p` is a floor or stairs tile of the map.
pub open spec fn walkable(tiles: Grid, p: TilePos) -> bool {
    passable_tile(tile_at(tiles.1, tiles.2, tiles.0, p.0 as int, p.1 as int))
}

/// The `k`-th cardinal neighbour of `p`: up, down, left, right.
pub open spec fn nb(p: TilePos, k: int) -> TilePos {
    if k == 0 {
        TilePos(p.0, (p.1 - 1) as i32)
    } else if k == 1 {
        TilePos(p.0, (p.1 + 1) as i32)
    } else if k == 2 {
        TilePos((p.0 - 1) as i32, p.1)
    } else {
        TilePos((p.0 + 1) as i32, p.1)
    }
}

/// The direction of the `k`-th cardinal neighbour.
pub open spec fn nb_dir(k: int) -> Direction {
    if k == 0 {
        Direction::Up
    } else if k == 1 {
        Direction::Down
    } else if k == 2 {
        Direction::Left
    } else {
        Direction::Right
    }
}

/// `p` can be reached from `s` in at most `k` cardinal steps over walkable
/// tiles.
pub open spec fn reachable(tiles: Grid, s: TilePos, p: TilePos, k: nat) -> bool
    decreases k,
{
    if k == 0 {
        p == s
    } else {
        ||| reachable(tiles, s, p, (k - 1) as nat)
        ||| walkable(tiles, p) && (
            reachable(tiles, s, nb(p, 0), (k - 1) as nat)
            || reachable(tiles, s, nb(p, 1), (k - 1) as nat)
            || reachable(tiles, s, nb(p, 2), (k - 1) as nat)
            || reachable(tiles, s, nb(p, 3), (k - 1) as nat))
    }
}

/// Glyph shown on `p` among the targets (position and glyph): the last one
/// listed there.
pub open spec fn glyph_on(items: Seq<(TilePos, char)>, p: TilePos) -> Option<char>
    decreases items.len(),
{
    if items.len() == 0 {
        None
    } else if items.last().0 == p {
        Some(items.last().1)
    } else {
        glyph_on(items.drop_last(), p)
    }
}

/// Some target lies within `k` steps of `s`.
pub open spec fn target_within(tiles: Grid, items: Seq<(TilePos, char)>, s: TilePos, k: nat) -> bool {
    exists|i: int| 0 <= i < items.len() && #[trigger] reachable(tiles, s, items[i].0, k)
}

/// The first step `dir` from `s` starts a walk of at most `m` more steps to
/// `p`.
pub open spec fn first_step_ok(tiles: Grid, s: TilePos, p: TilePos, dir: Direction, m: nat) -> bool {
    exists|k: int| 0 <= k < 4 && dir == nb_dir(k) && walkable(tiles, nb(s, k))
        && #[trigger] reachable(tiles, nb(s, k), p, m)
}

/// What a search from `s` for the nearest of `items` within `cap` steps
/// answers: nothing when `s` cannot be walked on or no target lies within
/// `cap` steps; otherwise the smallest number of steps to a target, the
/// direction of the first step of such a walk (staying for a target
/// underfoot), and the glyph shown on that target's tile.
pub open spec fn nearest_ok(tiles: Grid, items: Seq<(TilePos, char)>, s: TilePos, cap: nat, r: Option<(usize, Direction, char)>) -> bool {
    if !walkable(tiles, s) {
        r is None
    } else {
        match r {
            None => !target_within(tiles, items, s, cap),
            Some(v) => {
                let d = v.0 as nat;
                &&& d <= cap
                &&& d == 0 || !target_within(tiles, items, s, (d - 1) as nat)
                &&& exists|p: TilePos| #[trigger] glyph_on(items, p) == Some(v.2) && reachable(tiles, s, p, d) && if d == 0 {
                    v.1 == Direction::Stay && p == s
                } else {
                    first_step_ok(tiles, s, p, v.1, (d - 1) as nat)
                }
            },
        }
    }
}

/// Cell index of an on-map position.
pub open spec fn cell_of(g: Grid, p: TilePos) -> int {
    p.1 * g.1 + p.0
}

proof fn lemma_cell_of(tiles: Grid, p: TilePos, q: TilePos)
    requires
        on_grid(tiles, p),
        on_grid(tiles, q),
    ensures
        0 <= cell_of(tiles, p) < tiles.1 * tiles.2,
        cell_of(tiles, p) < i32::MAX,
        cell_of(tiles, p) == cell_of(tiles, q) ==> p == q,
{
    lemma_cell_index(tiles.1, tiles.2, p.0 as int, p.1 as int);
    lemma_cell_index(tiles.1, tiles.2, q.0 as int, q.1 as int);
}

/// Walkable tiles are on the map.
proof fn lemma_walkable_on_grid(tiles: Grid, p: TilePos)
    requires
        walkable(tiles, p),
        tiles.1 * tiles.2 <= i32::MAX,
    ensures
        on_grid(tiles, p),
{
}

/// Everything reachable from a walkable start is the start or walkable.
proof fn lemma_reachable_walkable(tiles: Grid, s: TilePos, p: TilePos, k: nat)
    requires
        reachable(tiles, s, p, k),
        walkable(tiles, s),
    ensures
        walkable(tiles, p),
    decreases k,
{
    if k > 0 && reachable(tiles, s, p, (k - 1) as nat) {
        lemma_reachable_walkable(tiles, s, p, (k - 1) as nat);
    }
}

/// Reachability only grows with the step budget.
proof fn lemma_reachable_mono(tiles: Grid, s: TilePos, p: TilePos, k: nat, m: nat)
    requires
        reachable(tiles, s, p, k),
        k <= m,
    ensures
        reachable(tiles, s, p, m),
    decreases m,
{
    if m > k {
        lemma_reachable_mono(tiles, s, p, k, (m - 1) as nat);
    }
}

/// The neighbour across from the `k`-th.
pub open spec fn opposite(k: int) -> int {
    if k == 0 { 1 } else if k == 1 { 0 } else if k == 2 { 3 } else { 2 }
}

/// A walkable neighbour of something reachable in `m` steps is reachable in
/// `m + 1`.
proof fn lemma_step(tiles: Grid, s: TilePos, p: TilePos, k: int, m: nat)
    requires
        0 <= k < 4,
        reachable(tiles, s, p, m),
        walkable(tiles, nb(p, k)),
        on_grid(tiles, p),
    ensures
        reachable(tiles, s, nb(p, k), m + 1),
{
    assert(tiles.1 <= i32::MAX && tiles.2 <= i32::MAX) by (nonlinear_arith)
        requires tiles.1 * tiles.2 <= i32::MAX, 0 <= p.0 < tiles.1, 0 <= p.1 < tiles.2;
    let q = nb(p, k);
    assert(nb(q, opposite(k)) == p);
    assert(reachable(tiles, s, nb(q, opposite(k)), m));
}

/// A tile reached in exactly `d + 1` steps has a walkable-reached neighbour
/// reached in exactly `d` steps.
proof fn lemma_layer_parent(tiles: Grid, s: TilePos, q: TilePos, d: nat)
    requires
        reachable(tiles, s, q, d + 1),
        !reachable(tiles, s, q, d),
    ensures
        walkable(tiles, q),
        exists|k: int| 0 <= k < 4 && #[trigger] reachable(tiles, s, nb(q, k), d)
            && (d == 0 || !reachable(tiles, s, nb(q, k), (d - 1) as nat)),
{
    assert(reachable(tiles, s, q, d + 1));
    assert(((d + 1) - 1) as nat == d);
    assert(walkable(tiles, q) && (reachable(tiles, s, nb(q, 0), d) || reachable(tiles, s, nb(q, 1), d)
        || reachable(tiles, s, nb(q, 2), d) || reachable(tiles, s, nb(q, 3), d)));
    let k = if reachable(tiles, s, nb(q, 0), d) {
        0int
    } else if reachable(tiles, s, nb(q, 1), d) {
        1int
    } else if reachable(tiles, s, nb(q, 2), d) {
        2int
    } else {
        3int
    };
    assert(reachable(tiles, s, nb(q, k), d));
    if d > 0 {
        let dd = (d - 1) as nat;
        if reachable(tiles, s, nb(q, k), dd) {
            assert(reachable(tiles, s, q, d));
        }
        assert(!reachable(tiles, s, nb(q, k), dd));
    }
    assert(0 <= k < 4 && reachable(tiles, s, nb(q, k), d)
        && (d == 0 || !reachable(tiles, s, nb(q, k), (d - 1) as nat)));
}

/// The glyph shown on `p`, if a target lies there.
fn glyph_at(items: &Vec<(TilePos, char)>, p: TilePos) -> (r: Option<char>)
    ensures
        r == glyph_on(items@, p),
        r is None ==> forall|i: int| 0 <= i < items@.len() ==> (#[trigger] items@[i]).0 != p,
{
    let n = items.len();
    let mut r: Option<char> = None;
    let mut i: usize = 0;
    while i < n
        invariant
            n == items@.len(),
            i <= n,
            r == glyph_on(items@.take(i as int), p),
            r is None ==> forall|j: int| 0 <= j < i ==> (#[trigger] items@[j]).0 != p,
        decreases n - i,
    {
        assert(items@.take(i + 1).drop_last() =~= items@.take(i as int));
        if items[i].0 == p {
            r = Some(items[i].1);
        }
        i = i + 1;
    }
    assert(items@.take(n as int) =~= items@);
    r
}

proof fn lemma_glyph_on_some(items: Seq<(TilePos, char)>, p: TilePos)
    requires
        glyph_on(items, p) is Some,
    ensures
        exists|i: int| 0 <= i < items.len() && #[trigger] items[i].0 == p,
    decreases items.len(),
{
    if items.last().0 != p {
        lemma_glyph_on_some(items.drop_last(), p);
        let i = choose|i: int| 0 <= i < items.drop_last().len() && #[trigger] items.drop_last()[i].0 == p;
        assert(items[i] == items.drop_last()[i]);
    } else {
        assert(items[items.len() - 1].0 == p);
    }
}

/// The neighbour of `p` in search order `k`, as the executable computes it.
fn nb_exec(p: TilePos, k: usize) -> (q: TilePos)
    requires
        0 <= p.0 < i32::MAX,
        0 <= p.1 < i32::MAX,
        k < 4,
    ensures
        q == nb(p, k as int),
{
    if k == 0 {
        TilePos(p.0, p.1 - 1)
    } else if k == 1 {
        TilePos(p.0, p.1 + 1)
    } else if k == 2 {
        TilePos(p.0 - 1, p.1)
    } else {
        TilePos(p.0 + 1, p.1)
    }
}

fn nb_dir_exec(k: usize) -> (d: Direction)
    requires
        k < 4,
    ensures
        d == nb_dir(k as int),
{
    if k == 0 {
        Direction::Up
    } else if k == 1 {
        Direction::Down
    } else if k == 2 {
        Direction::Left
    } else {
        Direction::Right
    }
}

/// An entry of a search layer: its tile sits exactly `d` steps from `s`, and
/// its first step is right.
pub open spec fn entry_ok(tiles: Grid, s: TilePos, e: (TilePos, Direction), d: nat) -> bool {
    &&& on_grid(tiles, e.0)
    &&& reachable(tiles, s, e.0, d)
    &&& (d == 0 || !reachable(tiles, s, e.0, (d - 1) as nat))
    &&& if d == 0 { e.0 == s } else { first_step_ok(tiles, s, e.0, e.1, (d - 1) as nat) }
}

/// `p` is listed in `layer`.
pub open spec fn listed(layer: Seq<(TilePos, Direction)>, p: TilePos) -> bool {
    exists|m: int| 0 <= m < layer.len() && (#[trigger] layer[m]).0 == p
}

/// Walks from `start` over floor and stairs tiles, breadth first, to the
/// nearest of `items` within `cap` steps (see `nearest_ok`).
fn nearest_target(dungeon: &crate::procgen::dungeon::Dungeon, items: &Vec<(TilePos, char)>, start: TilePos, cap: usize)
    -> (r: Option<(usize, Direction, char)>)
    requires
        dungeon.wf(),
    ensures
        nearest_ok(grid_of(*dungeon), items@, start, cap as nat, r),
{
    let ghost t = grid_of(*dungeon);
    let ghost its = items@;
    if !is_passable(dungeon, start.0, start.1) {
        return None;
    }
    let ghost s = start;
    proof { lemma_walkable_on_grid(t, s); }
    match glyph_at(items, start) {
        Some(g) => {
            assert(reachable(t, s, s, 0));
            return Some((0, Direction::Stay, g));
        },
        None => {},
    }
    assert(!target_within(t, its, s, 0)) by {
        if target_within(t, its, s, 0) {
            let i = choose|i: int| 0 <= i < its.len() && #[trigger] reachable(t, s, its[i].0, 0);
            assert(its[i].0 == s);
        }
    }
    proof {
        assert(t.1 * t.2 <= i32::MAX);
    }
    let cells = (dungeon.width as usize) * (dungeon.height as usize);
    let mut visited: Vec<bool> = vec![false; cells];
    proof { lemma_cell_of(t, s, s); }
    visited.set((start.1 * dungeon.width + start.0) as usize, true);
    let mut layer: Vec<(TilePos, Direction)> = Vec::new();
    layer.push((start, Direction::Stay));
    let mut d: usize = 0;
    proof {
        assert forall|p: TilePos| on_grid(t, p) implies
            #[trigger] visited@[cell_of(t, p)] == reachable(t, s, p, d as nat) by {
            lemma_cell_of(t, p, s);
        }
        assert forall|p: TilePos| on_grid(t, p) && reachable(t, s, p, d as nat) implies #[trigger] listed(layer@, p) by {
            assert(layer@[0].0 == p);
        }
    }
    while d < cap
        invariant
            dungeon.wf(),
            t == grid_of(*dungeon),
            its == items@,
            walkable(t, s),
            s == start,
            d <= cap,
            visited@.len() == t.1 * t.2,
            forall|p: TilePos| on_grid(t, p) ==> #[trigger] visited@[cell_of(t, p)] == reachable(t, s, p, d as nat),
            forall|m: int| 0 <= m < layer@.len() ==> entry_ok(t, s, #[trigger] layer@[m], d as nat),
            forall|p: TilePos| on_grid(t, p) && reachable(t, s, p, d as nat) && (d == 0 || !reachable(t, s, p, (d - 1) as nat))
                ==> #[trigger] listed(layer@, p),
            !target_within(t, its, s, d as nat),
        decreases cap - d,
    {
        let mut next: Vec<(TilePos, Direction)> = Vec::new();
        let nl = layer.len();
        let mut j: usize = 0;
        while j < nl
            invariant
                dungeon.wf(),
                t == grid_of(*dungeon),
                its == items@,
                walkable(t, s),
                s == start,
                d < cap,
                nl == layer@.len(),
                j <= nl,
                visited@.len() == t.1 * t.2,
                forall|m: int| 0 <= m < layer@.len() ==> entry_ok(t, s, #[trigger] layer@[m], d as nat),
                forall|p: TilePos| on_grid(t, p) ==> #[trigger] visited@[cell_of(t, p)]
                    == (reachable(t, s, p, d as nat) || listed(next@, p)),
                forall|m: int| 0 <= m < next@.len() ==> entry_ok(t, s, #[trigger] next@[m], (d + 1) as nat),
                forall|m: int| 0 <= m < next@.len() ==> glyph_on(its, (#[trigger] next@[m]).0) is None,
                forall|jj: int, k: int| 0 <= jj < j && 0 <= k < 4 && walkable(t, #[trigger] nb(layer@[jj].0, k))
                    && !reachable(t, s, nb(layer@[jj].0, k), d as nat) ==> listed(next@, nb(layer@[jj].0, k)),
                !target_within(t, its, s, d as nat),
            decreases nl - j,
        {
            let (p, fd) = layer[j];
            proof { assert(entry_ok(t, s, layer@[j as int], d as nat)); }
            let mut k: usize = 0;
            while k < 4
                invariant
                    dungeon.wf(),
                    t == grid_of(*dungeon),
                    its == items@,
                    walkable(t, s),
                    s == start,
                    d < cap,
                    nl == layer@.len(),
                    j < nl,
                    (p, fd) == layer@[j as int],
                    entry_ok(t, s, (p, fd), d as nat),
                    k <= 4,
                    visited@.len() == t.1 * t.2,
                    forall|m: int| 0 <= m < layer@.len() ==> entry_ok(t, s, #[trigger] layer@[m], d as nat),
                    forall|q: TilePos| on_grid(t, q) ==> #[trigger] visited@[cell_of(t, q)]
                        == (reachable(t, s, q, d as nat) || listed(next@, q)),
                    forall|m: int| 0 <= m < next@.len() ==> entry_ok(t, s, #[trigger] next@[m], (d + 1) as nat),
                    forall|m: int| 0 <= m < next@.len() ==> glyph_on(its, (#[trigger] next@[m]).0) is None,
                    forall|jj: int, kk: int| 0 <= jj < j && 0 <= kk < 4 && walkable(t, #[trigger] nb(layer@[jj].0, kk))
                        && !reachable(t, s, nb(layer@[jj].0, kk), d as nat) ==> listed(next@, nb(layer@[jj].0, kk)),
                    forall|kk: int| 0 <= kk < k && walkable(t, #[trigger] nb(p, kk))
                        && !reachable(t, s, nb(p, kk), d as nat) ==> listed(next@, nb(p, kk)),
                    !target_within(t, its, s, d as nat),
                decreases 4 - k,
            {
                let q = nb_exec(p, k);
                let open = is_passable(dungeon, q.0, q.1);
                if open {
                    proof {
                        lemma_walkable_on_grid(t, q);
                        lemma_cell_of(t, q, q);
                    }
                    let qi = (q.1 * dungeon.width + q.0) as usize;
                    if !visited[qi] {
                        let ghost old_next = next@;
                        let ghost old_visited = visited@;
                        visited.set(qi, true);
                        let qd = if d == 0 { nb_dir_exec(k) } else { fd };
                        proof {
                            lemma_step(t, s, p, k as int, d as nat);
                            assert(reachable(t, s, q, (d + 1) as nat));
                            assert(!reachable(t, s, q, d as nat)) by {
                                assert(old_visited[cell_of(t, q)] == (reachable(t, s, q, d as nat) || listed(old_next, q)));
                            }
                            if d == 0 {
                                assert(p == s);
                                assert(reachable(t, nb(s, k as int), q, 0));
                                assert(first_step_ok(t, s, q, qd, 0));
                            } else {
                                let kk = choose|kk: int| 0 <= kk < 4 && fd == nb_dir(kk) && walkable(t, nb(s, kk))
                                    && #[trigger] reachable(t, nb(s, kk), p, (d - 1) as nat);
                                lemma_step(t, nb(s, kk), p, k as int, (d - 1) as nat);
                                assert(reachable(t, nb(s, kk), q, d as nat));
                                assert(first_step_ok(t, s, q, qd, d as nat));
                            }
                            assert(entry_ok(t, s, (q, qd), (d + 1) as nat));
                        }
                        match glyph_at(items, q) {
                            Some(g) => {
                                proof {
                                    assert(glyph_on(its, q) == Some(g));
                                    assert(reachable(t, s, q, (d + 1) as nat));
                                }
                                return Some((d + 1, qd, g));
                            },
                            None => {},
                        }
                        next.push((q, qd));
                        proof {
                            assert(next@[next@.len() - 1].0 == q);
                            assert forall|x: TilePos| on_grid(t, x) implies #[trigger] visited@[cell_of(t, x)]
                                == (reachable(t, s, x, d as nat) || listed(next@, x)) by {
                                lemma_cell_of(t, x, q);
                                if listed(old_next, x) {
                                    let m = choose|m: int| 0 <= m < old_next.len() && (#[trigger] old_next[m]).0 == x;
                                    assert(next@[m] == old_next[m]);
                                }
                                if listed(next@, x) && x != q {
                                    let m = choose|m: int| 0 <= m < next@.len() && (#[trigger] next@[m]).0 == x;
                                    assert(m < old_next.len());
                                    assert(old_next[m] == next@[m]);
                                }
                            }
                            assert forall|jj: int, kk: int| 0 <= jj < j && 0 <= kk < 4 && walkable(t, #[trigger] nb(layer@[jj].0, kk))
                                && !reachable(t, s, nb(layer@[jj].0, kk), d as nat) implies listed(next@, nb(layer@[jj].0, kk)) by {
                                let x = nb(layer@[jj].0, kk);
                                assert(listed(old_next, x));
                                let m = choose|m: int| 0 <= m < old_next.len() && (#[trigger] old_next[m]).0 == x;
                                assert(next@[m] == old_next[m]);
                            }
                            assert forall|kk: int| 0 <= kk < k + 1 && walkable(t, #[trigger] nb(p, kk))
                                && !reachable(t, s, nb(p, kk), d as nat) implies listed(next@, nb(p, kk)) by {
                                if kk < k {
                                    let x = nb(p, kk);
                                    assert(listed(old_next, x));
                                    let m = choose|m: int| 0 <= m < old_next.len() && (#[trigger] old_next[m]).0 == x;
                                    assert(next@[m] == old_next[m]);
                                }
                            }
                        }
                    } else {
                        proof {
                            assert(visited@[cell_of(t, q)] == (reachable(t, s, q, d as nat) || listed(next@, q)));
                        }
                    }
                }
                k = k + 1;
            }
            j = j + 1;
        }
        proof {
            let dn = (d + 1) as nat;
            assert forall|q: TilePos| on_grid(t, q) && reachable(t, s, q, dn) && !reachable(t, s, q, d as nat)
                implies #[trigger] listed(next@, q) by {
                lemma_layer_parent(t, s, q, d as nat);
                let k = choose|k: int| 0 <= k < 4 && #[trigger] reachable(t, s, nb(q, k), d as nat)
                    && (d == 0 || !reachable(t, s, nb(q, k), (d - 1) as nat));
                let pp = nb(q, k);
                lemma_reachable_walkable(t, s, pp, d as nat);
                lemma_walkable_on_grid(t, pp);
                assert(listed(layer@, pp));
                let jj = choose|jj: int| 0 <= jj < layer@.len() && (#[trigger] layer@[jj]).0 == pp;
                assert(nb(pp, opposite(k)) == q);
                assert(walkable(t, nb(layer@[jj].0, opposite(k))));
            }
            assert forall|q: TilePos| on_grid(t, q) implies #[trigger] visited@[cell_of(t, q)] == reachable(t, s, q, dn) by {
                if listed(next@, q) {
                    let m = choose|m: int| 0 <= m < next@.len() && (#[trigger] next@[m]).0 == q;
                    assert(entry_ok(t, s, next@[m], dn));
                }
                if reachable(t, s, q, dn) && !reachable(t, s, q, d as nat) {
                    assert(listed(next@, q));
                }
            }
            assert(!target_within(t, its, s, dn)) by {
                if target_within(t, its, s, dn) {
                    let i = choose|i: int| 0 <= i < its.len() && #[trigger] reachable(t, s, its[i].0, dn);
                    let q = its[i].0;
                    if reachable(t, s, q, d as nat) {
                        assert(target_within(t, its, s, d as nat));
                    } else {
                        lemma_reachable_walkable(t, s, q, dn);
                        lemma_walkable_on_grid(t, q);
                        assert(listed(next@, q));
                        let m = choose|m: int| 0 <= m < next@.len() && (#[trigger] next@[m]).0 == q;
                        assert(glyph_on(its, next@[m].0) is None);
                        lemma_glyph_shown(its, q, i);
                    }
                }
            }
        }
        layer = next;
        d = d + 1;
    }
    None
}

/// A tile on which some target lies shows a glyph.
proof fn lemma_glyph_shown(items: Seq<(TilePos, char)>, p: TilePos, i: int)
    requires
        0 <= i < items.len(),
        items[i].0 == p,
    ensures
        glyph_on(items, p) is Some,
    decreases items.len(),
{
    if items.last().0 != p {
        assert(i < items.len() - 1);
        assert(items.drop_last()[i] == items[i]);
        lemma_glyph_shown(items.drop_last(), p, i);
    }
}

/// How far (in steps) the search for the stairs goes.
pub const MAX_STAIRS_SEARCH: usize = 999;

/// The ground items as search targets: each item's position and glyph.
pub open spec fn targets_of(items: Seq<GroundItem>) -> Seq<(TilePos, char)> {
    items.map_values(|g: GroundItem| (g.pos, g.item.glyph))
}

/// The stairs as a search target, shown as `▼`.
pub open spec fn stairs_targets(stairs: Option<TilePos>) -> Seq<(TilePos, char)> {
    match stairs {
        Some(p) => seq![(p, '▼')],
        None => Seq::empty(),
    }
}

/// The nearest item on the ground within `MAX_PICKUP_SEARCH` steps of
/// `start`: its distance, the first step toward it and its glyph (see
/// `nearest_ok`).
pub fn nearest_pickup_info(dungeon: &crate::procgen::dungeon::Dungeon, items: &Vec<GroundItem>, start: TilePos)
    -> (r: Option<(usize, Direction, char)>)
    requires
        dungeon.wf(),
    ensures
        nearest_ok(grid_of(*dungeon), targets_of(items@), start, MAX_PICKUP_SEARCH as nat, r),
{
    let n = items.len();
    let mut ts: Vec<(TilePos, char)> = Vec::new();
    let mut i: usize = 0;
    while i < n
        invariant
            n == items@.len(),
            i <= n,
            ts@ == targets_of(items@.take(i as int)),
        decreases n - i,
    {
        ts.push((items[i].pos, items[i].item.glyph));
        i = i + 1;
        assert(ts@ =~= targets_of(items@.take(i as int)));
    }
    assert(items@.take(n as int) =~= items@);
    nearest_target(dungeon, &ts, start, MAX_PICKUP_SEARCH)
}

/// The stairs, if they lie within `MAX_STAIRS_SEARCH` steps of `start`: the
/// distance, the first step toward them and `▼` (see `nearest_ok`).
pub fn nearest_stairs_info(dungeon: &crate::procgen::dungeon::Dungeon, start: TilePos)
    -> (r: Option<(usize, Direction, char)>)
    requires
        dungeon.wf(),
    ensures
        nearest_ok(grid_of(*dungeon), stairs_targets(dungeon.stairs), start, MAX_STAIRS_SEARCH as nat, r),
{
    let mut ts: Vec<(TilePos, char)> = Vec::new();
    match dungeon.stairs {
        Some(p) => { ts.push((p, '▼')); },
        None => {},
    }
    assert(ts@ =~= stairs_targets(dungeon.stairs));
    nearest_target(dungeon, &ts, start, MAX_STAIRS_SEARCH)
}

impl App {
    /// The nearest item on the ground within `MAX_PICKUP_SEARCH` steps of the
    /// hero: its distance, the first step toward it and its glyph.
    pub fn nearest_pickup_info(&self) -> (r: Option<(usize, Direction, char)>)
        requires
            self.wf(),
        ensures
            nearest_ok(grid_of(self.dungeon), targets_of(self.world.items@), self.world.hero.pos, MAX_PICKUP_SEARCH as nat, r),
    {
        nearest_pickup_info(&self.dungeon, &self.world.items, self.world.hero.pos)
    }

    /// The stairs, if within `MAX_STAIRS_SEARCH` steps of the hero: the
    /// distance, the first step toward them and `▼`.
    pub fn nearest_stairs_info(&self) -> (r: Option<(usize, Direction, char)>)
        requires
            self.wf(),
        ensures
            nearest_ok(grid_of(self.dungeon), stairs_targets(self.dungeon.stairs), self.world.hero.pos, MAX_STAIRS_SEARCH as nat, r),
    {
        nearest_stairs_info(&self.dungeon, self.world.hero.pos)
    }
}

} // verus!
