//! Binary space partition dungeon generator.
//!
//! The playable area is split in two recursively; each leaf places one room,
//! and the first rooms of sibling subtrees are joined by L-shaped corridors.
//! The stairs go at the centre of the last room.

use vstd::prelude::*;
use crate::components::TilePos;
use crate::procgen::dungeon::{Dungeon, Rect, Tile, carve_corridor_tiles, carve_room_tiles, center_of, max_i, min_i, set_tile, in_bounds};

verus! {

/// Configuration of BSP generation.
#[derive(Copy, Clone, Debug, PartialEq, Eq, Structural)]
pub struct Config {
    /// Minimum dimension of a leaf (no further split when both sides are smaller than twice this).
    pub min_leaf_size: i32,
    /// Minimum room width/height.
    pub room_min: i32,
    /// Maximum room width/height.
    pub room_max: i32,
    /// Maximum recursion depth.
    pub max_depth: u32,
}

impl Default for Config {
    fn default() -> (r: Self)
        ensures
            r == (Config { min_leaf_size: 8, room_min: 4, room_max: 9, max_depth: 5 }),
    {
        Config { min_leaf_size: 8, room_min: 4, room_max: 9, max_depth: 5 }
    }
}

/// Configurations whose arithmetic stays small; sizes of at least 1.
pub open spec fn config_ok(cfg: Config) -> bool {
    &&& 1 <= cfg.min_leaf_size <= 0x4000
    &&& 1 <= cfg.room_min <= 0x4000
    &&& -0x4000 <= cfg.room_max <= 0x4000
}

/// Xorshift pseudo-random number generator (deterministic).
pub struct Rng(pub u64);

/// One xorshift step of the state.
pub open spec fn xorshift(s: u64) -> u64 {
    let a = s ^ (s << 13u64);
    let b = a ^ (a >> 7u64);
    b ^ (b << 17u64)
}

/// Output of a step: the high 32 bits of the new state.
pub open spec fn next_out(s: u64) -> u32 {
    (xorshift(s) >> 32u64) as u32
}

/// Initial state for a seed (0 is replaced by a fixed non-zero constant).
pub open spec fn seed_state(seed: u64) -> u64 {
    if seed == 0 { 0xDEAD_BEEF_CAFE_BABEu64 } else { seed }
}

/// A draw in `[lo, hi]`: `(state after, value)`; `lo` without a step when `hi <= lo`.
pub open spec fn range_draw(s: u64, lo: int, hi: int) -> (u64, int) {
    if hi <= lo {
        (s, lo)
    } else {
        (xorshift(s), lo + (next_out(s) % ((hi - lo + 1) as u32)) as int)
    }
}

pub open spec fn rect_w(r: Rect) -> int {
    r.x2 - r.x1 + 1
}

pub open spec fn rect_h(r: Rect) -> int {
    r.y2 - r.y1 + 1
}

/// A room placed inside `area`: width and height drawn in
/// `[room_min, max(min(room_max, side - 2), room_min)]`, then an offset
/// inside the area, leaving a one-cell margin on the top-left.
pub open spec fn room_draw(s: u64, area: Rect, cfg: Config) -> (u64, Rect) {
    let max_w = max_i(min_i(cfg.room_max as int, rect_w(area) - 2), cfg.room_min as int);
    let max_h = max_i(min_i(cfg.room_max as int, rect_h(area) - 2), cfg.room_min as int);
    let (s1, w) = range_draw(s, cfg.room_min as int, max_w);
    let (s2, h) = range_draw(s1, cfg.room_min as int, max_h);
    let max_dx = max_i(rect_w(area) - w - 1, 0);
    let max_dy = max_i(rect_h(area) - h - 1, 0);
    let (s3, dx) = range_draw(s2, 0, max_dx);
    let (s4, dy) = range_draw(s3, 0, max_dy);
    (s4, Rect {
        x1: (area.x1 + 1 + dx) as i32,
        y1: (area.y1 + 1 + dy) as i32,
        x2: (area.x1 + dx + w) as i32,
        y2: (area.y1 + dy + h) as i32,
    })
}

/// An area inside the `0..=0x2000_0000` square.
pub open spec fn area_ok(r: Rect) -> bool {
    0 <= r.x1 <= r.x2 <= 0x2000_0000 && 0 <= r.y1 <= r.y2 <= 0x2000_0000
}

/// A room whose coordinates stay small enough to add two of them.
pub open spec fn room_ok(r: Rect) -> bool {
    0 <= r.x1 <= r.x2 <= 0x2001_0000 && 0 <= r.y1 <= r.y2 <= 0x2001_0000
}

impl Rng {
    pub fn new(seed: u64) -> (r: Self)
        ensures
            r.0 == seed_state(seed),
    {
        let s = if seed == 0 { 0xDEAD_BEEF_CAFE_BABEu64 } else { seed };
        Rng(s)
    }

    /// Advances the state and returns its high 32 bits.
    pub fn next_u32(&mut self) -> (v: u32)
        ensures
            final(self).0 == xorshift(old(self).0),
            v == next_out(old(self).0),
    {
        let mut x = self.0;
        x = x ^ (x << 13u64);
        x = x ^ (x >> 7u64);
        x = x ^ (x << 17u64);
        self.0 = x;
        (x >> 32u64) as u32
    }

    /// A value in `[lo, hi_inclusive]` (just `lo` when the range is empty).
    pub fn gen_range(&mut self, lo: i32, hi_inclusive: i32) -> (v: i32)
        requires
            -0x2000_0000 <= lo,
            hi_inclusive <= 0x2000_0000,
        ensures
            (final(self).0, v as int) == range_draw(old(self).0, lo as int, hi_inclusive as int),
            lo <= v,
            hi_inclusive >= lo ==> v <= hi_inclusive,
    {
        if hi_inclusive <= lo {
            return lo;
        }
        let span = (hi_inclusive - lo + 1) as u32;
        let n = self.next_u32();
        let m = n % span;
        lo + m as i32
    }

    /// A room inside `area` (see `room_draw`).
    pub fn gen_room(&mut self, area: &Rect, cfg: &Config) -> (r: Rect)
        requires
            area_ok(*area),
            config_ok(*cfg),
        ensures
            (final(self).0, r) == room_draw(old(self).0, *area, *cfg),
            room_ok(r),
    {
        let aw = area.width();
        let ah = area.height();
        let mw0 = if cfg.room_max < aw - 2 { cfg.room_max } else { aw - 2 };
        let max_w = if mw0 < cfg.room_min { cfg.room_min } else { mw0 };
        let mh0 = if cfg.room_max < ah - 2 { cfg.room_max } else { ah - 2 };
        let max_h = if mh0 < cfg.room_min { cfg.room_min } else { mh0 };
        let w = self.gen_range(cfg.room_min, max_w);
        let h = self.gen_range(cfg.room_min, max_h);
        let dx0 = aw - w - 1;
        let max_dx = if dx0 < 0 { 0 } else { dx0 };
        let dy0 = ah - h - 1;
        let max_dy = if dy0 < 0 { 0 } else { dy0 };
        let dx = self.gen_range(0, max_dx);
        let dy = self.gen_range(0, max_dy);
        Rect::new(area.x1 + 1 + dx, area.y1 + 1 + dy, area.x1 + dx + w, area.y1 + dy + h)
    }
}

/// A node of the partition tree: an area, two children or a room.
pub struct Node {
    pub rect: Rect,
    pub left: Option<Box<Node>>,
    pub right: Option<Box<Node>>,
    pub room: Option<Rect>,
}

/// Is the area left as a leaf (depth exhausted, too small to split)?
pub open spec fn is_leaf_area(rect: Rect, cfg: Config, depth: int) -> bool {
    let horizontal = rect_h(rect) > rect_w(rect);
    let max_dim = if horizontal { rect_h(rect) } else { rect_w(rect) };
    ||| depth >= cfg.max_depth
    ||| (rect_w(rect) < cfg.min_leaf_size * 2 && rect_h(rect) < cfg.min_leaf_size * 2)
    ||| max_dim < cfg.min_leaf_size * 2
}

/// The two halves of a split at offset `cut` (rows when taller than wide, columns otherwise).
pub open spec fn split_at(rect: Rect, cut: int) -> (Rect, Rect) {
    if rect_h(rect) > rect_w(rect) {
        let mid = rect.y1 + cut;
        (Rect { x1: rect.x1, y1: rect.y1, x2: rect.x2, y2: (mid - 1) as i32 },
         Rect { x1: rect.x1, y1: mid as i32, x2: rect.x2, y2: rect.y2 })
    } else {
        let mid = rect.x1 + cut;
        (Rect { x1: rect.x1, y1: rect.y1, x2: (mid - 1) as i32, y2: rect.y2 },
         Rect { x1: mid as i32, y1: rect.y1, x2: rect.x2, y2: rect.y2 })
    }
}

/// The partition tree that `build` makes from `rect` with the generator in
/// state `s`, and the state afterwards.
pub open spec fn built(rect: Rect, s: u64, cfg: Config, depth: int) -> (Node, u64)
    decreases cfg.max_depth - depth,
{
    if is_leaf_area(rect, cfg, depth) || depth >= cfg.max_depth {
        let (s1, room) = room_draw(s, rect, cfg);
        (Node { rect, left: None, right: None, room: Some(room) }, s1)
    } else {
        let max_dim = if rect_h(rect) > rect_w(rect) { rect_h(rect) } else { rect_w(rect) };
        let (s1, cut) = range_draw(s, cfg.min_leaf_size as int, max_dim - cfg.min_leaf_size);
        let (lr, rr) = split_at(rect, cut);
        let (l, s2) = built(lr, s1, cfg, depth + 1);
        let (r, s3) = built(rr, s2, cfg, depth + 1);
        (Node { rect, left: Some(Box::new(l)), right: Some(Box::new(r)), room: None }, s3)
    }
}

/// Rooms of a tree in order: the node's own room, then the left subtree's, then the right's.
pub open spec fn rooms_of(n: Node) -> Seq<Rect>
    decreases n,
{
    let own = match n.room {
        Some(r) => seq![r],
        None => Seq::empty(),
    };
    let l = match n.left {
        Some(b) => rooms_of(*b),
        None => Seq::empty(),
    };
    let r = match n.right {
        Some(b) => rooms_of(*b),
        None => Seq::empty(),
    };
    own + l + r
}

/// The first room of a tree in the same order.
pub open spec fn first_room_of(n: Node) -> Option<Rect>
    decreases n,
{
    match n.room {
        Some(r) => Some(r),
        None => {
            let l = match n.left {
                Some(b) => first_room_of(*b),
                None => None,
            };
            match l {
                Some(r) => Some(r),
                None => match n.right {
                    Some(b) => first_room_of(*b),
                    None => None,
                },
            }
        },
    }
}

/// A tree as `build` makes it: a leaf holds a room, an inner node two such subtrees;
/// all rooms have small coordinates.
pub open spec fn tree_ok(n: Node) -> bool
    decreases n,
{
    match (n.room, n.left, n.right) {
        (Some(r), None, None) => room_ok(r),
        (None, Some(l), Some(r)) => tree_ok(*l) && tree_ok(*r),
        _ => false,
    }
}

/// The tiles after joining, for every inner node, the centres of the first
/// rooms of its two subtrees (the node's corridor first, then the left
/// subtree's corridors, then the right's).
pub open spec fn connect_tiles(n: Node, width: int, t: Seq<Tile>) -> Seq<Tile>
    decreases n,
{
    match (n.left, n.right) {
        (Some(l), Some(r)) => {
            let a = center_of(first_room_of(*l).unwrap());
            let b = center_of(first_room_of(*r).unwrap());
            let t1 = carve_corridor_tiles(width, t, a.0, a.1, b.0, b.1);
            let t2 = connect_tiles(*l, width, t1);
            connect_tiles(*r, width, t2)
        },
        _ => t,
    }
}

/// The tiles after carving the rooms in order.
pub open spec fn carve_all(width: int, t: Seq<Tile>, rooms: Seq<Rect>) -> Seq<Tile>
    decreases rooms.len(),
{
    if rooms.len() == 0 {
        t
    } else {
        carve_room_tiles(width, carve_all(width, t, rooms.drop_last()), rooms.last())
    }
}

/// The partition tree of a whole `width` x `height` map.
pub open spec fn map_tree(width: int, height: int, seed: u64, cfg: Config) -> Node {
    built(Rect { x1: 0, y1: 0, x2: (width - 1) as i32, y2: (height - 1) as i32 }, seed_state(seed), cfg, 0).0
}

/// Tiles of the generated map: all rock, rooms carved in order, corridors
/// carved, then stairs at the centre of the last room.
pub open spec fn generated_tiles(width: int, height: int, seed: u64, cfg: Config) -> Seq<Tile> {
    let root = map_tree(width, height, seed, cfg);
    let rooms = rooms_of(root);
    let t0 = Seq::new((width * height) as nat, |i: int| Tile::Rock);
    let t2 = connect_tiles(root, width, carve_all(width, t0, rooms));
    let c = center_of(rooms.last());
    set_tile(width, height, t2, c.0, c.1, Tile::StairsDown)
}

proof fn lemma_range_draw_bounds(s: u64, lo: int, hi: int)
    requires
        -0x2000_0000 <= lo,
        hi <= 0x2000_0000,
    ensures
        lo <= range_draw(s, lo, hi).1,
        hi >= lo ==> range_draw(s, lo, hi).1 <= hi,
{
    if hi > lo {
        let m = (hi - lo + 1) as u32;
        assert(m as int == hi - lo + 1);
        let v = next_out(s) % m;
        assert(v < m);
    }
}

proof fn lemma_room_draw_ok(s: u64, area: Rect, cfg: Config)
    requires
        area_ok(area),
        config_ok(cfg),
    ensures
        room_ok(room_draw(s, area, cfg).1),
{
    let max_w = max_i(min_i(cfg.room_max as int, rect_w(area) - 2), cfg.room_min as int);
    let max_h = max_i(min_i(cfg.room_max as int, rect_h(area) - 2), cfg.room_min as int);
    let (s1, w) = range_draw(s, cfg.room_min as int, max_w);
    let (s2, h) = range_draw(s1, cfg.room_min as int, max_h);
    lemma_range_draw_bounds(s, cfg.room_min as int, max_w);
    lemma_range_draw_bounds(s1, cfg.room_min as int, max_h);
    let max_dx = max_i(rect_w(area) - w - 1, 0);
    let max_dy = max_i(rect_h(area) - h - 1, 0);
    let (s3, dx) = range_draw(s2, 0, max_dx);
    lemma_range_draw_bounds(s2, 0, max_dx);
    lemma_range_draw_bounds(s3, 0, max_dy);
}

/// `build` makes a well-formed tree.
pub proof fn lemma_built_ok(rect: Rect, s: u64, cfg: Config, depth: int)
    requires
        area_ok(rect),
        config_ok(cfg),
        0 <= depth <= cfg.max_depth,
    ensures
        tree_ok(built(rect, s, cfg, depth).0),
        built(rect, s, cfg, depth).0.rect == rect,
    decreases cfg.max_depth - depth,
{
    if is_leaf_area(rect, cfg, depth) || depth >= cfg.max_depth {
        lemma_room_draw_ok(s, rect, cfg);
    } else {
        let max_dim = if rect_h(rect) > rect_w(rect) { rect_h(rect) } else { rect_w(rect) };
        let (s1, cut) = range_draw(s, cfg.min_leaf_size as int, max_dim - cfg.min_leaf_size);
        lemma_range_draw_bounds(s, cfg.min_leaf_size as int, max_dim - cfg.min_leaf_size);
        let (lr, rr) = split_at(rect, cut);
        let (l, s2) = built(lr, s1, cfg, depth + 1);
        lemma_built_ok(lr, s1, cfg, depth + 1);
        lemma_built_ok(rr, s2, cfg, depth + 1);
    }
}

/// A well-formed tree has a first room, which is its first listed room.
pub proof fn lemma_first_room(n: Node)
    requires
        tree_ok(n),
    ensures
        first_room_of(n) is Some,
        rooms_of(n).len() >= 1,
        rooms_of(n)[0] == first_room_of(n).unwrap(),
        forall|i: int| 0 <= i < rooms_of(n).len() ==> room_ok(#[trigger] rooms_of(n)[i]),
    decreases n,
{
    match (n.room, n.left, n.right) {
        (Some(r), None, None) => {
            assert(rooms_of(n) =~= seq![r]);
        },
        (None, Some(l), Some(r)) => {
            lemma_first_room(*l);
            lemma_first_room(*r);
            assert(rooms_of(n) =~= rooms_of(*l) + rooms_of(*r));
        },
        _ => {},
    }
}

/// Builds the partition tree below `node` (a fresh node holding only its area).
#[verifier::rlimit(50)]
fn build(node: &mut Node, rng: &mut Rng, cfg: &Config, depth: u32)
    requires
        area_ok(old(node).rect),
        config_ok(*cfg),
        depth <= cfg.max_depth,
        old(node).left is None,
        old(node).right is None,
        old(node).room is None,
    ensures
        (*final(node), final(rng).0) == built(old(node).rect, old(rng).0, *cfg, depth as int),
    decreases cfg.max_depth - depth,
{
    let w = node.rect.width();
    let h = node.rect.height();
    if depth >= cfg.max_depth || w < cfg.min_leaf_size * 2 && h < cfg.min_leaf_size * 2 {
        node.room = Some(rng.gen_room(&node.rect, cfg));
        return;
    }
    let horizontal = h > w;
    let max_dim = if horizontal { h } else { w };
    let min_dim = cfg.min_leaf_size;
    if max_dim < min_dim * 2 {
        node.room = Some(rng.gen_room(&node.rect, cfg));
        return;
    }
    let cut = rng.gen_range(min_dim, max_dim - min_dim);
    let r = node.rect;
    let (lr, rr) = if horizontal {
        let mid_y = r.y1 + cut;
        (Rect::new(r.x1, r.y1, r.x2, mid_y - 1), Rect::new(r.x1, mid_y, r.x2, r.y2))
    } else {
        let mid_x = r.x1 + cut;
        (Rect::new(r.x1, r.y1, mid_x - 1, r.y2), Rect::new(mid_x, r.y1, r.x2, r.y2))
    };
    assert((lr, rr) == split_at(r, cut as int));
    let mut left = Node { rect: lr, left: None, right: None, room: None };
    let mut right = Node { rect: rr, left: None, right: None, room: None };
    build(&mut left, rng, cfg, depth + 1);
    build(&mut right, rng, cfg, depth + 1);
    node.left = Some(Box::new(left));
    node.right = Some(Box::new(right));
    node.room = None;
}

/// Appends the rooms of the tree, in order.
fn collect_rooms(node: &Node, out: &mut Vec<Rect>)
    ensures
        final(out)@ == old(out)@ + rooms_of(*node),
    decreases node,
{
    let ghost start = out@;
    if let Some(r) = node.room {
        out.push(r);
    }
    let ghost mid = out@;
    if let Some(l) = &node.left {
        collect_rooms(l, out);
    }
    let ghost mid2 = out@;
    if let Some(r) = &node.right {
        collect_rooms(r, out);
    }
    proof {
        let own = match node.room { Some(r) => seq![r], None => Seq::<Rect>::empty() };
        let lr = match &node.left { Some(b) => rooms_of(**b), None => Seq::<Rect>::empty() };
        let rr = match &node.right { Some(b) => rooms_of(**b), None => Seq::<Rect>::empty() };
        assert(mid =~= start + own);
        assert(mid2 =~= mid + lr);
        assert(out@ =~= mid2 + rr);
        assert(out@ =~= start + (own + lr + rr));
    }
}

/// The first room of the tree, if any.
fn first_room(node: &Node) -> (r: Option<Rect>)
    ensures
        r == first_room_of(*node),
    decreases node,
{
    if let Some(r) = node.room {
        return Some(r);
    }
    if let Some(l) = &node.left {
        if let Some(r) = first_room(l) {
            return Some(r);
        }
    }
    if let Some(r) = &node.right {
        if let Some(r) = first_room(r) {
            return Some(r);
        }
    }
    None
}

/// Carves the corridors of every inner node.
fn connect(node: &Node, dungeon: &mut Dungeon)
    requires
        tree_ok(*node),
        old(dungeon).wf(),
    ensures
        final(dungeon).wf(),
        final(dungeon).width == old(dungeon).width,
        final(dungeon).height == old(dungeon).height,
        final(dungeon).rooms == old(dungeon).rooms,
        final(dungeon).stairs == old(dungeon).stairs,
        final(dungeon).tiles@ == connect_tiles(*node, old(dungeon).width as int, old(dungeon).tiles@),
    decreases node,
{
    if let (Some(l), Some(r)) = (&node.left, &node.right) {
        proof {
            lemma_first_room(**l);
            lemma_first_room(**r);
        }
        let la = first_room(l).unwrap();
        let ra = first_room(r).unwrap();
        assert(room_ok(la)) by { assert(rooms_of(**l)[0] == la); }
        assert(room_ok(ra)) by { assert(rooms_of(**r)[0] == ra); }
        let ac = la.center();
        let bc = ra.center();
        dungeon.carve_corridor(ac.0, ac.1, bc.0, bc.1);
        connect(l, dungeon);
        connect(r, dungeon);
    }
}

/// Generates a `width` x `height` dungeon from `seed`.
pub fn generate(width: i32, height: i32, seed: u64, cfg: Config) -> (d: Dungeon)
    requires
        1 <= width <= 0x2000_0000,
        1 <= height <= 0x2000_0000,
        width * height <= i32::MAX,
        config_ok(cfg),
    ensures
        d.wf(),
        d.width == width,
        d.height == height,
        d.rooms@ == rooms_of(map_tree(width as int, height as int, seed, cfg)),
        d.rooms@.len() >= 1,
        d.tiles@ == generated_tiles(width as int, height as int, seed, cfg),
        d.stairs == Some(TilePos(center_of(d.rooms@.last()).0 as i32, center_of(d.rooms@.last()).1 as i32)),
{
    let mut rng = Rng::new(seed);
    let n = (width as usize) * (height as usize);
    let tiles = vec![Tile::Rock; n];
    let ghost t0 = Seq::new((width * height) as nat, |i: int| Tile::Rock);
    assert(tiles@ =~= t0);
    let mut dungeon = Dungeon { width, height, tiles, rooms: Vec::new(), stairs: None };
    let mut root = Node { rect: Rect::new(0, 0, width - 1, height - 1), left: None, right: None, room: None };
    build(&mut root, &mut rng, &cfg, 0);
    proof {
        lemma_built_ok(Rect { x1: 0, y1: 0, x2: (width - 1) as i32, y2: (height - 1) as i32 }, seed_state(seed), cfg, 0);
        lemma_first_room(root);
    }
    collect_rooms(&root, &mut dungeon.rooms);
    assert(dungeon.rooms@ =~= rooms_of(root));
    let rooms_snapshot = dungeon.rooms.clone();
    let nr = rooms_snapshot.len();
    let mut i: usize = 0;
    while i < nr
        invariant
            nr == rooms_snapshot@.len(),
            rooms_snapshot@ == rooms_of(root),
            dungeon.wf(),
            dungeon.width == width,
            dungeon.height == height,
            dungeon.rooms@ == rooms_of(root),
            dungeon.stairs is None,
            i <= nr,
            forall|k: int| 0 <= k < rooms_of(root).len() ==> room_ok(#[trigger] rooms_of(root)[k]),
            dungeon.tiles@ == carve_all(width as int, t0, rooms_snapshot@.take(i as int)),
        decreases nr - i,
    {
        let r = rooms_snapshot[i];
        assert(room_ok(rooms_of(root)[i as int]));
        dungeon.carve_room(r);
        assert(rooms_snapshot@.take(i + 1).drop_last() =~= rooms_snapshot@.take(i as int));
        i = i + 1;
    }
    assert(rooms_snapshot@.take(nr as int) =~= rooms_snapshot@);
    connect(&root, &mut dungeon);
    let last_room = rooms_snapshot[nr - 1];
    assert(room_ok(rooms_of(root)[nr - 1]));
    let (cx, cy) = last_room.center();
    dungeon.set(cx, cy, Tile::StairsDown);
    dungeon.stairs = Some(TilePos(cx, cy));
    dungeon
}


/// No cell holds stairs.
pub open spec fn no_stairs(t: Seq<Tile>) -> bool {
    forall|i: int| 0 <= i < t.len() ==> #[trigger] t[i] != Tile::StairsDown
}

proof fn lemma_carve_all_no_stairs(w: int, t: Seq<Tile>, rooms: Seq<Rect>)
    requires
        no_stairs(t),
    ensures
        no_stairs(carve_all(w, t, rooms)),
        carve_all(w, t, rooms).len() == t.len(),
    decreases rooms.len(),
{
    if rooms.len() > 0 {
        lemma_carve_all_no_stairs(w, t, rooms.drop_last());
    }
}

proof fn lemma_connect_no_stairs(n: Node, w: int, t: Seq<Tile>)
    requires
        no_stairs(t),
    ensures
        no_stairs(connect_tiles(n, w, t)),
        connect_tiles(n, w, t).len() == t.len(),
    decreases n,
{
    match (n.left, n.right) {
        (Some(l), Some(r)) => {
            let a = center_of(first_room_of(*l).unwrap());
            let b = center_of(first_room_of(*r).unwrap());
            let t1 = carve_corridor_tiles(w, t, a.0, a.1, b.0, b.1);
            lemma_connect_no_stairs(*l, w, t1);
            lemma_connect_no_stairs(*r, w, connect_tiles(*l, w, t1));
        },
        _ => {},
    }
}

/// Connecting keeps every floor cell a floor.
proof fn lemma_connect_keeps_floor(n: Node, w: int, t: Seq<Tile>, i: int)
    requires
        0 <= i < t.len(),
        t[i] == Tile::Floor,
    ensures
        connect_tiles(n, w, t)[i] == Tile::Floor,
        connect_tiles(n, w, t).len() == t.len(),
    decreases n,
{
    match (n.left, n.right) {
        (Some(l), Some(r)) => {
            let a = center_of(first_room_of(*l).unwrap());
            let b = center_of(first_room_of(*r).unwrap());
            let t1 = carve_corridor_tiles(w, t, a.0, a.1, b.0, b.1);
            lemma_connect_keeps_floor(*l, w, t1, i);
            lemma_connect_keeps_floor(*r, w, connect_tiles(*l, w, t1), i);
        },
        _ => {},
    }
}

/// Room `r` lies strictly inside area `a` (a one-cell margin on every side).
pub open spec fn strictly_inside(r: Rect, a: Rect) -> bool {
    a.x1 < r.x1 && r.x2 < a.x2 && a.y1 < r.y1 && r.y2 < a.y2
}

/// Rooms fit their leaf areas: leaves are at least `room_min + 2` wide and
/// high, and rooms are at least 1 wide.
pub open spec fn rooms_fit(cfg: Config) -> bool {
    cfg.min_leaf_size >= cfg.room_min + 2
}

proof fn lemma_room_draw_inside(s: u64, area: Rect, cfg: Config)
    requires
        area_ok(area),
        config_ok(cfg),
        rect_w(area) >= cfg.room_min + 2,
        rect_h(area) >= cfg.room_min + 2,
    ensures
        strictly_inside(room_draw(s, area, cfg).1, area) || (
            room_draw(s, area, cfg).1.x1 > area.x1 && room_draw(s, area, cfg).1.x2 <= area.x2
            && room_draw(s, area, cfg).1.y1 > area.y1 && room_draw(s, area, cfg).1.y2 <= area.y2),
{
    let max_w = max_i(min_i(cfg.room_max as int, rect_w(area) - 2), cfg.room_min as int);
    let max_h = max_i(min_i(cfg.room_max as int, rect_h(area) - 2), cfg.room_min as int);
    let (s1, w) = range_draw(s, cfg.room_min as int, max_w);
    let (s2, h) = range_draw(s1, cfg.room_min as int, max_h);
    lemma_range_draw_bounds(s, cfg.room_min as int, max_w);
    lemma_range_draw_bounds(s1, cfg.room_min as int, max_h);
    let max_dx = max_i(rect_w(area) - w - 1, 0);
    let max_dy = max_i(rect_h(area) - h - 1, 0);
    let (s3, dx) = range_draw(s2, 0, max_dx);
    lemma_range_draw_bounds(s2, 0, max_dx);
    lemma_range_draw_bounds(s3, 0, max_dy);
}

/// Every room lies inside the area of the tree's root (x and y within bounds).
pub open spec fn room_within(r: Rect, a: Rect) -> bool {
    a.x1 <= r.x1 && r.x2 <= a.x2 && a.y1 <= r.y1 && r.y2 <= a.y2
}

proof fn lemma_built_rooms_inside(rect: Rect, s: u64, cfg: Config, depth: int)
    requires
        area_ok(rect),
        config_ok(cfg),
        rooms_fit(cfg),
        0 <= depth <= cfg.max_depth,
        rect_w(rect) >= cfg.room_min + 2,
        rect_h(rect) >= cfg.room_min + 2,
    ensures
        forall|i: int| 0 <= i < rooms_of(built(rect, s, cfg, depth).0).len()
            ==> room_within(#[trigger] rooms_of(built(rect, s, cfg, depth).0)[i], rect),
    decreases cfg.max_depth - depth,
{
    let n = built(rect, s, cfg, depth).0;
    if is_leaf_area(rect, cfg, depth) || depth >= cfg.max_depth {
        lemma_room_draw_inside(s, rect, cfg);
        assert(rooms_of(n) =~= seq![room_draw(s, rect, cfg).1]);
    } else {
        let max_dim = if rect_h(rect) > rect_w(rect) { rect_h(rect) } else { rect_w(rect) };
        let (s1, cut) = range_draw(s, cfg.min_leaf_size as int, max_dim - cfg.min_leaf_size);
        lemma_range_draw_bounds(s, cfg.min_leaf_size as int, max_dim - cfg.min_leaf_size);
        let (lr, rr) = split_at(rect, cut);
        let (l, s2) = built(lr, s1, cfg, depth + 1);
        lemma_built_rooms_inside(lr, s1, cfg, depth + 1);
        lemma_built_rooms_inside(rr, s2, cfg, depth + 1);
        let rl = rooms_of(l);
        let rrr = rooms_of(built(rr, s2, cfg, depth + 1).0);
        assert(rooms_of(n) =~= rl + rrr);
        assert forall|i: int| 0 <= i < rooms_of(n).len() implies room_within(#[trigger] rooms_of(n)[i], rect) by {
            if i < rl.len() {
                assert(rooms_of(n)[i] == rl[i]);
            } else {
                assert(rooms_of(n)[i] == rrr[i - rl.len()]);
            }
        }
    }
}

/// The map's root area.
pub open spec fn map_rect(width: int, height: int) -> Rect {
    Rect { x1: 0, y1: 0, x2: (width - 1) as i32, y2: (height - 1) as i32 }
}

/// Every room of a generated map is well-formed and lies on the map.
pub proof fn lemma_generated_rooms_on_map(width: int, height: int, seed: u64, cfg: Config)
    requires
        1 <= width <= 0x2000_0000,
        1 <= height <= 0x2000_0000,
        width * height <= i32::MAX,
        config_ok(cfg),
        rooms_fit(cfg),
        width >= cfg.room_min + 2,
        height >= cfg.room_min + 2,
    ensures
        rooms_of(map_tree(width, height, seed, cfg)).len() >= 1,
        forall|i: int| 0 <= i < rooms_of(map_tree(width, height, seed, cfg)).len() ==> {
            &&& room_ok(#[trigger] rooms_of(map_tree(width, height, seed, cfg))[i])
            &&& room_within(rooms_of(map_tree(width, height, seed, cfg))[i], map_rect(width, height))
        },
{
    let root_rect = map_rect(width, height);
    lemma_built_ok(root_rect, seed_state(seed), cfg, 0);
    lemma_built_rooms_inside(root_rect, seed_state(seed), cfg, 0);
    lemma_first_room(map_tree(width, height, seed, cfg));
}

/// Law: a generated floor holds exactly one stairs tile, at `stairs`, when the
/// last room's centre lies on the map (always the case when rooms fit their
/// leaves and the map is at least `room_min + 2` on each side).
pub proof fn lemma_exactly_one_stairs(width: int, height: int, seed: u64, cfg: Config)
    requires
        1 <= width <= 0x2000_0000,
        1 <= height <= 0x2000_0000,
        width * height <= i32::MAX,
        config_ok(cfg),
        rooms_fit(cfg),
        width >= cfg.room_min + 2,
        height >= cfg.room_min + 2,
    ensures
        ({
            let rooms = rooms_of(map_tree(width, height, seed, cfg));
            let c = center_of(rooms.last());
            let t = generated_tiles(width, height, seed, cfg);
            &&& rooms.len() >= 1
            &&& in_bounds(width, height, c.0, c.1)
            &&& t.len() == width * height
            &&& forall|i: int| 0 <= i < t.len() ==> (#[trigger] t[i] == Tile::StairsDown <==> i == c.1 * width + c.0)
        }),
{
    let root_rect = map_rect(width, height);
    lemma_built_ok(root_rect, seed_state(seed), cfg, 0);
    lemma_built_rooms_inside(root_rect, seed_state(seed), cfg, 0);
    let root = map_tree(width, height, seed, cfg);
    lemma_first_room(root);
    let rooms = rooms_of(root);
    let last = rooms.last();
    assert(room_within(rooms[rooms.len() - 1], root_rect));
    crate::procgen::dungeon::lemma_center_inside(last);
    let c = center_of(last);
    let t0 = Seq::new((width * height) as nat, |i: int| Tile::Rock);
    lemma_carve_all_no_stairs(width, t0, rooms);
    let t1 = carve_all(width, t0, rooms);
    lemma_connect_no_stairs(root, width, t1);
    let t2 = connect_tiles(root, width, t1);
    crate::procgen::dungeon::lemma_cell_index(width, height, c.0, c.1);
    let t = generated_tiles(width, height, seed, cfg);
    assert(t == t2.update(c.1 * width + c.0, Tile::StairsDown));
}

/// Law: the centre of the first room is passable (floor or stairs) when rooms
/// fit their leaves and the map is at least `room_min + 2` on each side.
pub proof fn lemma_first_room_center_passable(width: int, height: int, seed: u64, cfg: Config)
    requires
        1 <= width <= 0x2000_0000,
        1 <= height <= 0x2000_0000,
        width * height <= i32::MAX,
        config_ok(cfg),
        rooms_fit(cfg),
        width >= cfg.room_min + 2,
        height >= cfg.room_min + 2,
    ensures
        ({
            let rooms = rooms_of(map_tree(width, height, seed, cfg));
            let c = center_of(rooms[0]);
            crate::procgen::dungeon::passable_tile(
                crate::procgen::dungeon::tile_at(width, height, generated_tiles(width, height, seed, cfg), c.0, c.1))
        }),
{
    let root_rect = map_rect(width, height);
    lemma_built_ok(root_rect, seed_state(seed), cfg, 0);
    lemma_built_rooms_inside(root_rect, seed_state(seed), cfg, 0);
    let root = map_tree(width, height, seed, cfg);
    lemma_first_room(root);
    let rooms = rooms_of(root);
    assert(room_within(rooms[0], root_rect));
    crate::procgen::dungeon::lemma_center_inside(rooms[0]);
    let c = center_of(rooms[0]);
    crate::procgen::dungeon::lemma_cell_index(width, height, c.0, c.1);
    let k = c.1 * width + c.0;
    let t0 = Seq::new((width * height) as nat, |i: int| Tile::Rock);
    lemma_carve_all_no_stairs(width, t0, rooms);
    let t1 = carve_all(width, t0, rooms);
    let t2 = connect_tiles(root, width, t1);
    lemma_connect_no_stairs(root, width, t1);
    match (root.left, root.right) {
        (Some(l), Some(r)) => {
            lemma_first_room(*l);
            assert(rooms_of(root) =~= rooms_of(*l) + rooms_of(*r));
            assert(first_room_of(*l).unwrap() == rooms[0]);
            let a = center_of(first_room_of(*l).unwrap());
            let b = center_of(first_room_of(*r).unwrap());
            let tc = carve_corridor_tiles(width, t1, a.0, a.1, b.0, b.1);
            assert(tc[k] == Tile::Floor);
            lemma_connect_keeps_floor(*l, width, tc, k);
            lemma_connect_keeps_floor(*r, width, connect_tiles(*l, width, tc), k);
            assert(t2[k] == Tile::Floor);
        },
        _ => {
            assert(rooms =~= seq![root.room.unwrap()]);
        },
    }
    let last = rooms.last();
    assert(room_within(rooms[rooms.len() - 1], root_rect));
    crate::procgen::dungeon::lemma_center_inside(last);
    let cl = center_of(last);
    crate::procgen::dungeon::lemma_cell_index(width, height, cl.0, cl.1);
    let t = generated_tiles(width, height, seed, cfg);
    assert(t == t2.update(cl.1 * width + cl.0, Tile::StairsDown));
    if root.left is None || root.right is None {
        assert(last == rooms[0]);
    }
}

} // verus!
