//! Populating a floor: monsters scaled by depth, a boss on the boss floor and
//! loot in every other room.

use vstd::prelude::*;
use crate::combat::ai::in_coord_range;
use crate::components::{
    Ai, AiKind, FloorTheme, Health, Item, ItemKind, Renderable, Stats, TilePos, kind_glyph,
    kind_rgb,
};
use crate::game::world::{
    BOSS_FLOOR, GroundItem, Monster, World, ground_ok, item_ok, monster_ok, stats_ok,
};
use crate::procgen::dungeon::{Dungeon, Rect, center_of, half, rect_contains};
use crate::text::decimal_text;

verus! {

/// Where a spawn goes: position, glyph, colour, hit points, stats, vision,
/// behaviour and name.
pub type MonsterPlan = (TilePos, char, u32, int, Stats, int, AiKind, Seq<char>);

/// Where a piece of loot goes: position, kind, strength and name.
pub type LootPlan = (TilePos, ItemKind, int, Seq<char>);

/// The neighbours tried, in order, when a spawn must leave the stairs tile.
pub open spec fn nudge_offsets() -> Seq<(int, int)> {
    seq![(0, 1), (1, 0), (0, -1), (-1, 0), (1, 1), (1, -1), (-1, 1), (-1, -1)]
}

/// The first of `offs` that keeps `(cx, cy)` inside `r`; `(cx, cy)` itself
/// when none does.
pub open spec fn first_inside(r: Rect, cx: int, cy: int, offs: Seq<(int, int)>) -> (int, int)
    decreases offs.len(),
{
    if offs.len() == 0 {
        (cx, cy)
    } else if rect_contains(r, cx + offs[0].0, cy + offs[0].1) {
        (cx + offs[0].0, cy + offs[0].1)
    } else {
        first_inside(r, cx, cy, offs.skip(1))
    }
}

pub open spec fn pos_of(p: (int, int)) -> TilePos {
    TilePos(p.0 as i32, p.1 as i32)
}

/// The tile a monster spawns on in `room`: its centre, moved to the first
/// neighbour inside the room when the centre holds the stairs.
pub open spec fn spawn_spot(room: Rect, stairs: Option<TilePos>) -> TilePos {
    let c = center_of(room);
    if stairs == Some(pos_of(c)) {
        pos_of(first_inside(room, c.0, c.1, nudge_offsets()))
    } else {
        pos_of(c)
    }
}

/// The tile the boss spawns on: like `spawn_spot`, except that a floor
/// without stairs counts as having them at the centre.
pub open spec fn boss_spot(room: Rect, stairs: Option<TilePos>) -> TilePos {
    let c = center_of(room);
    let s = match stairs {
        Some(p) => p,
        None => pos_of(c),
    };
    if s == pos_of(c) {
        pos_of(first_inside(room, c.0, c.1, nudge_offsets()))
    } else {
        pos_of(c)
    }
}

/// Colour of a monster glyph: pink rats, magenta goblins, white otherwise.
pub open spec fn glyph_rgb(glyph: char) -> u32 {
    if glyph == 'r' {
        0xE6_82_82u32
    } else if glyph == 'g' {
        0xB4_5A_D2u32
    } else {
        0xFF_FF_FFu32
    }
}

/// `m` is the monster `p` describes, freshly spawned.
pub open spec fn monster_matches(m: Monster, p: MonsterPlan) -> bool {
    &&& m.pos == p.0
    &&& m.look == (Renderable { glyph: p.1, fg_rgb: p.2 })
    &&& m.health == (Health { current: p.3 as i32, max: p.3 as i32 })
    &&& m.stats == p.4
    &&& m.ai == (Ai { kind: p.6, speed: 100, vision: p.5 as i32, last_known_player: None, cooldown: 0 })
    &&& m.name@ == p.7
}

/// `g` is the loot `p` describes.
pub open spec fn loot_matches(g: GroundItem, p: LootPlan) -> bool {
    &&& g.pos == p.0
    &&& g.item.kind == p.1
    &&& g.item.bonus == p.2
    &&& g.item.name@ == p.3
    &&& g.item.glyph == kind_glyph(p.1)
    &&& g.item.fg_rgb == kind_rgb(p.1)
}

/// The monsters that `spawn_enemy` adds.
pub open spec fn enemy_plan(
    rooms: Seq<Rect>,
    stairs: Option<TilePos>,
    room_idx: int,
    glyph: char,
    name: Seq<char>,
    hp: int,
    stats: Stats,
    vision: int,
    kind: AiKind,
) -> Seq<MonsterPlan> {
    if 0 <= room_idx < rooms.len() {
        seq![(spawn_spot(rooms[room_idx], stairs), glyph, glyph_rgb(glyph), hp, stats, vision, kind, name)]
    } else {
        Seq::empty()
    }
}

/// The rooms' coordinates keep all spawn arithmetic in range.
/// A room whose corners, and the tiles next to them, keep to the coordinate
/// range of the entities.
pub open spec fn room_small(r: Rect) -> bool {
    &&& -0x0100_0000 <= r.x1 <= r.x2 <= 0x0100_0000
    &&& -0x0100_0000 <= r.y1 <= r.y2 <= 0x0100_0000
}

/// Every room is small (see `room_small`).
pub open spec fn rooms_in_range(rooms: Seq<Rect>) -> bool {
    forall|i: int| 0 <= i < rooms.len() ==> room_small(#[trigger] rooms[i])
}

/// `b` is `a` with the monsters of `plans` appended.
pub open spec fn spawned(a: Seq<Monster>, b: Seq<Monster>, plans: Seq<MonsterPlan>) -> bool {
    &&& b.len() == a.len() + plans.len()
    &&& b.take(a.len() as int) == a
    &&& forall|k: int| 0 <= k < plans.len() ==> monster_matches(#[trigger] b[a.len() + k], plans[k])
}

fn spot_near(room: &Rect, cx: i32, cy: i32) -> (p: TilePos)
    requires
        room_small(*room),
        -0x0100_0000 <= cx <= 0x0100_0000,
        -0x0100_0000 <= cy <= 0x0100_0000,
    ensures
        p == pos_of(first_inside(*room, cx as int, cy as int, nudge_offsets())),
        in_coord_range(p),
{
    let offs: [(i32, i32); 8] = [(0, 1), (1, 0), (0, -1), (-1, 0), (1, 1), (1, -1), (-1, 1), (-1, -1)];
    assert(offs@.map_values(|o: (i32, i32)| (o.0 as int, o.1 as int)) =~= nudge_offsets());
    assert(nudge_offsets().skip(0) =~= nudge_offsets());
    let mut k: usize = 0;
    while k < 8
        invariant
            k <= 8,
            offs@.map_values(|o: (i32, i32)| (o.0 as int, o.1 as int)) == nudge_offsets(),
            first_inside(*room, cx as int, cy as int, nudge_offsets())
                == first_inside(*room, cx as int, cy as int, nudge_offsets().skip(k as int)),
            room_small(*room),
            -0x0100_0000 <= cx <= 0x0100_0000,
            -0x0100_0000 <= cy <= 0x0100_0000,
        decreases 8 - k,
    {
        let (dx, dy) = offs[k];
        assert(-1 <= dx <= 1 && -1 <= dy <= 1);
        let ghost rest = nudge_offsets().skip(k as int);
        assert(rest[0] == (dx as int, dy as int));
        if room.contains(cx + dx, cy + dy) {
            return TilePos(cx + dx, cy + dy);
        }
        assert(rest.skip(1) =~= nudge_offsets().skip(k + 1));
        k = k + 1;
    }
    assert(nudge_offsets().skip(8) =~= Seq::<(int, int)>::empty());
    TilePos(cx, cy)
}

fn glyph_color(glyph: char) -> (c: u32)
    ensures
        c == glyph_rgb(glyph),
{
    if glyph == 'r' {
        0xE6_82_82u32
    } else if glyph == 'g' {
        0xB4_5A_D2u32
    } else {
        0xFF_FF_FFu32
    }
}

/// Spawns a monster at the centre of room `room_idx` (moved off the stairs
/// when they sit there); does nothing when the room does not exist.
pub fn spawn_enemy(
    world: &mut World,
    dungeon: &Dungeon,
    room_idx: usize,
    glyph: char,
    name: &str,
    hp: i32,
    stats: Stats,
    vision: i32,
    kind: AiKind,
)
    requires
        old(world).wf(),
        rooms_in_range(dungeon.rooms@),
        stats_ok(stats),
    ensures
        final(world).wf(),
        final(world).hero == old(world).hero,
        final(world).items == old(world).items,
        spawned(old(world).monsters@, final(world).monsters@,
            enemy_plan(dungeon.rooms@, dungeon.stairs, room_idx as int, glyph, name@, hp as int, stats, vision as int, kind)),
{
    if room_idx < dungeon.rooms.len() {
        let room = dungeon.rooms[room_idx];
        assert(room_small(dungeon.rooms@[room_idx as int]));
        let (cx, cy) = room.center();
        proof { crate::procgen::dungeon::lemma_center_inside(room); }
        let pos = match dungeon.stairs {
            Some(s) => if s.0 == cx && s.1 == cy { spot_near(&room, cx, cy) } else { TilePos(cx, cy) },
            None => TilePos(cx, cy),
        };
        let fg = glyph_color(glyph);
        world.monsters.push(Monster {
            pos,
            look: Renderable::new(glyph, fg),
            health: Health::new(hp),
            stats,
            ai: Ai::new(kind, 100, vision),
            name: String::from_str(name),
        });
        proof {
            let a = old(world).monsters@;
            let b = world.monsters@;
            assert(b.take(a.len() as int) =~= a);
            assert forall|i: int| 0 <= i < b.len() implies monster_ok(#[trigger] b[i]) by {
                if i < a.len() {
                    assert(b[i] == a[i]);
                }
            }
        }
    } else {
        assert(world.monsters@.take(old(world).monsters@.len() as int) =~= old(world).monsters@);
    }
}

proof fn lemma_spawned_chain(a: Seq<Monster>, b: Seq<Monster>, c: Seq<Monster>, p1: Seq<MonsterPlan>, p2: Seq<MonsterPlan>)
    requires
        spawned(a, b, p1),
        spawned(b, c, p2),
    ensures
        spawned(a, c, p1 + p2),
{
    assert(c.take(a.len() as int) =~= b.take(a.len() as int)) by {
        assert forall|i: int| 0 <= i < a.len() implies c[i] == b[i] by {
            assert(c.take(b.len() as int)[i] == b[i]);
        }
    }
    assert forall|k: int| 0 <= k < (p1 + p2).len() implies monster_matches(#[trigger] c[a.len() + k], (p1 + p2)[k]) by {
        if k < p1.len() {
            assert(c.take(b.len() as int)[a.len() + k] == b[a.len() + k]);
            assert(monster_matches(b[a.len() + k], p1[k]));
        } else {
            assert(monster_matches(c[b.len() + (k - p1.len())], p2[k - p1.len()]));
            assert(b.len() + (k - p1.len()) == a.len() + k);
        }
    }
}

/// Index of a room that is never the last one (which holds the stairs) when
/// there is another: `idx` clamped into range, then moved back from the last.
pub open spec fn safe_room(n: int, idx: int) -> int {
    let last = if n >= 1 { n - 1 } else { 0 };
    let picked = if idx < last { idx } else { last };
    if picked == last && last > 0 { last - 1 } else { picked }
}

/// Stats with no equipment bonus.
pub open spec fn base_stats(s: i32, d: i32, i: i32, w: i32, c: i32) -> Stats {
    Stats { strength: s, dexterity: d, intellect: i, wisdom: w, constitution: c, attack_bonus: 0, defense_bonus: 0 }
}

/// Glyph of the second monster of a floor, by theme.
pub open spec fn second_glyph(theme: FloorTheme) -> char {
    match theme {
        FloorTheme::Cave | FloorTheme::Garden => 'g',
        FloorTheme::Catacomb | FloorTheme::Library => 'S',
        FloorTheme::Forge | FloorTheme::Temple => 'T',
        FloorTheme::FinalMaw | FloorTheme::Boss => 'D',
    }
}

/// Name of a monster glyph.
pub open spec fn glyph_name(glyph: char) -> Seq<char> {
    if glyph == 'g' {
        "고블린"@
    } else if glyph == 'S' {
        "스켈레톤"@
    } else if glyph == 'T' {
        "트롤"@
    } else if glyph == 'D' {
        "드래곤"@
    } else {
        "적"@
    }
}

/// The monsters of a floor at depth `floor`: a cowardly rat and a theme
/// monster when there are at least three rooms, a bear from depth 3 on when
/// there are at least four, and the boss beside the stairs on the boss floor.
/// None of the first three is placed in the last room while another exists.
pub open spec fn floor_monster_plans(rooms: Seq<Rect>, stairs: Option<TilePos>, floor: int, theme: FloorTheme) -> Seq<MonsterPlan> {
    let n = rooms.len() as int;
    let scale = floor;
    let g2 = second_glyph(theme);
    let tier = if n >= 3 {
        enemy_plan(rooms, stairs, safe_room(n, 1), 'r', "쥐"@, 6 + scale, base_stats(3, 8, 1, 1, 5), 8, AiKind::Coward)
            + enemy_plan(rooms, stairs, safe_room(n, 2), g2, glyph_name(g2), 14 + scale * 2, base_stats(5, 6, 2, 2, 7), 9, AiKind::Chase)
    } else {
        Seq::empty()
    };
    let bear = if n >= 4 && floor >= 3 {
        enemy_plan(rooms, stairs, safe_room(n, 3), 'B', "곰"@, 28 + scale * 2, base_stats(9, 4, 1, 1, 12), 8, AiKind::Chase)
    } else {
        Seq::empty()
    };
    let boss = if floor == BOSS_FLOOR && n >= 1 {
        seq![(boss_spot(rooms.last(), stairs), 'D', 0xFF_FF_40u32, 120 + scale * 8, base_stats(12, 8, 6, 6, 16), 10int, AiKind::Chase, "황녀 🐲"@)]
    } else {
        Seq::empty()
    };
    tier + bear + boss
}

pub open spec fn min_int(a: int, b: int) -> int {
    if a < b { a } else { b }
}

pub open spec fn max_int(a: int, b: int) -> int {
    if a > b { a } else { b }
}

/// Where loot lies in `room`: its centre (one step right when the centre
/// holds the stairs), kept off the room's edge.
pub open spec fn loot_spot(room: Rect, stairs: Option<TilePos>) -> TilePos {
    let cx = half(room.x1 + room.x2);
    let cy = half(room.y1 + room.y2);
    let c = if stairs == Some(pos_of((cx, cy))) { (cx + 1, cy) } else { (cx, cy) };
    pos_of((min_int(max_int(c.0, room.x1 + 1), room.x2 - 1), min_int(max_int(c.1, room.y1 + 1), room.y2 - 1)))
}

/// The loot of room `i` at depth `floor`, cycling with `floor + i`: gold,
/// a healing potion, a mana potion, a weapon.
pub open spec fn loot_item(floor: int, i: int) -> (ItemKind, int, Seq<char>) {
    let scale = floor;
    let sel = (floor + i) % 4;
    if sel == 0 {
        (ItemKind::Coin, 10 + scale * 4, "금화 "@ + decimal_text(10 + scale * 4))
    } else if sel == 1 {
        (ItemKind::HealthPotion, 15int, "치유 물약"@)
    } else if sel == 2 {
        (ItemKind::ManaPotion, 10int, "마나 물약"@)
    } else {
        (ItemKind::Weapon, 1 + scale, if scale >= 3 { "장검"@ } else { "단검"@ })
    }
}

/// The loot of the first `k` rooms: one piece in every odd-numbered room.
pub open spec fn loot_plans(rooms: Seq<Rect>, stairs: Option<TilePos>, floor: int, k: nat) -> Seq<LootPlan>
    decreases k,
{
    if k == 0 {
        Seq::empty()
    } else {
        let prev = loot_plans(rooms, stairs, floor, (k - 1) as nat);
        let i = k - 1;
        if i % 2 == 0 {
            prev
        } else {
            let it = loot_item(floor, i);
            prev.push((loot_spot(rooms[i], stairs), it.0, it.1, it.2))
        }
    }
}

/// `b` is `a` with the loot of `plans` appended.
pub open spec fn looted(a: Seq<GroundItem>, b: Seq<GroundItem>, plans: Seq<LootPlan>) -> bool {
    &&& b.len() == a.len() + plans.len()
    &&& b.take(a.len() as int) == a
    &&& forall|k: int| 0 <= k < plans.len() ==> loot_matches(#[trigger] b[a.len() + k], plans[k])
}

/// The deepest floor whose numbers fit `i32`.
pub open spec fn floor_fits(floor: int) -> bool {
    floor <= 268_435_431
}

fn safe_room_exec(n: usize, idx: usize) -> (r: usize)
    ensures
        r == safe_room(n as int, idx as int),
{
    let last = if n >= 1 { n - 1 } else { 0 };
    let picked = if idx < last { idx } else { last };
    if picked == last && last > 0 { last - 1 } else { picked }
}

fn loot_for(room: &Rect, stairs: Option<TilePos>, floor: u32, i: usize) -> (g: GroundItem)
    requires
        room_small(*room),
        floor_fits(floor as int),
    ensures
        loot_matches(g, ({
            let it = loot_item(floor as int, i as int);
            (loot_spot(*room, stairs), it.0, it.1, it.2)
        })),
        ground_ok(g),
{
    let scale = floor as i32;
    let cxc = (room.x1 + room.x2) / 2;
    let cyc = (room.y1 + room.y2) / 2;
    let (cx, cy) = match stairs {
        Some(s) => if s.0 == cxc && s.1 == cyc { (cxc + 1, cyc) } else { (cxc, cyc) },
        None => (cxc, cyc),
    };
    let cx = if cx > room.x1 + 1 { cx } else { room.x1 + 1 };
    let cx = if cx < room.x2 - 1 { cx } else { room.x2 - 1 };
    let cy = if cy > room.y1 + 1 { cy } else { room.y1 + 1 };
    let cy = if cy < room.y2 - 1 { cy } else { room.y2 - 1 };
    let sel = ((floor % 4) as usize + i % 4) % 4;
    assert(sel == (floor as int + i as int) % 4) by (nonlinear_arith)
        requires sel == ((floor as int % 4) + (i as int % 4)) % 4, floor >= 0, i >= 0;
    let item = if sel == 0 {
        Item::gold(10 + scale * 4)
    } else if sel == 1 {
        Item::potion_hp()
    } else if sel == 2 {
        Item::potion_mp()
    } else {
        Item::weapon(1 + scale, if scale >= 3 { "장검" } else { "단검" })
    };
    GroundItem { pos: TilePos(cx, cy), item }
}

/// Spawns the monsters and the loot of a floor at depth `floor` (see
/// `floor_monster_plans` and `loot_plans`).
pub fn populate_floor(world: &mut World, dungeon: &Dungeon, floor: u32, theme: FloorTheme)
    requires
        old(world).wf(),
        rooms_in_range(dungeon.rooms@),
        floor_fits(floor as int),
    ensures
        final(world).wf(),
        final(world).hero == old(world).hero,
        spawned(old(world).monsters@, final(world).monsters@,
            floor_monster_plans(dungeon.rooms@, dungeon.stairs, floor as int, theme)),
        looted(old(world).items@, final(world).items@,
            loot_plans(dungeon.rooms@, dungeon.stairs, floor as int, dungeon.rooms@.len())),
{
    let scale = floor as i32;
    let rooms = &dungeon.rooms;
    let n = rooms.len();
    let ghost m0 = world.monsters@;
    let ghost rs = dungeon.rooms@;
    let ghost st = dungeon.stairs;
    let ghost p_tier: Seq<MonsterPlan> = Seq::empty();
    let ghost p_bear: Seq<MonsterPlan> = Seq::empty();
    let ghost p_boss: Seq<MonsterPlan> = Seq::empty();
    assert(world.monsters@.take(m0.len() as int) =~= m0);
    if n >= 3 {
        let ghost ma = world.monsters@;
        spawn_enemy(world, dungeon, safe_room_exec(n, 1), 'r', "쥐", 6 + scale, Stats::new(3, 8, 1, 1, 5), 8, AiKind::Coward);
        let g2 = match theme {
            FloorTheme::Cave | FloorTheme::Garden => 'g',
            FloorTheme::Catacomb | FloorTheme::Library => 'S',
            FloorTheme::Forge | FloorTheme::Temple => 'T',
            FloorTheme::FinalMaw | FloorTheme::Boss => 'D',
        };
        let name2 = if g2 == 'g' {
            "고블린"
        } else if g2 == 'S' {
            "스켈레톤"
        } else if g2 == 'T' {
            "트롤"
        } else if g2 == 'D' {
            "드래곤"
        } else {
            "적"
        };
        let ghost mb = world.monsters@;
        spawn_enemy(world, dungeon, safe_room_exec(n, 2), g2, name2, 14 + scale * 2, Stats::new(5, 6, 2, 2, 7), 9, AiKind::Chase);
        proof {
            lemma_spawned_chain(ma, mb, world.monsters@,
                enemy_plan(rs, st, safe_room(n as int, 1), 'r', "쥐"@, 6 + scale, base_stats(3, 8, 1, 1, 5), 8, AiKind::Coward),
                enemy_plan(rs, st, safe_room(n as int, 2), g2, glyph_name(g2), 14 + scale * 2, base_stats(5, 6, 2, 2, 7), 9, AiKind::Chase));
            p_tier = enemy_plan(rs, st, safe_room(n as int, 1), 'r', "쥐"@, 6 + scale, base_stats(3, 8, 1, 1, 5), 8, AiKind::Coward)
                + enemy_plan(rs, st, safe_room(n as int, 2), g2, glyph_name(g2), 14 + scale * 2, base_stats(5, 6, 2, 2, 7), 9, AiKind::Chase);
        }
    }
    let ghost m1 = world.monsters@;
    if n >= 4 && floor >= 3 {
        spawn_enemy(world, dungeon, safe_room_exec(n, 3), 'B', "곰", 28 + scale * 2, Stats::new(9, 4, 1, 1, 12), 8, AiKind::Chase);
        proof {
            p_bear = enemy_plan(rs, st, safe_room(n as int, 3), 'B', "곰"@, 28 + scale * 2, base_stats(9, 4, 1, 1, 12), 8, AiKind::Chase);
        }
    } else {
        assert(world.monsters@.take(m1.len() as int) =~= m1);
    }
    proof { lemma_spawned_chain(m0, m1, world.monsters@, p_tier, p_bear); }
    let ghost m2 = world.monsters@;
    if floor == BOSS_FLOOR && n >= 1 {
        let room = rooms[n - 1];
        assert(room_small(rs[n - 1]));
        let (cx, cy) = room.center();
        proof { crate::procgen::dungeon::lemma_center_inside(room); }
        let (sx, sy) = match dungeon.stairs {
            Some(p) => (p.0, p.1),
            None => (cx, cy),
        };
        let pos = if sx == cx && sy == cy { spot_near(&room, cx, cy) } else { TilePos(cx, cy) };
        world.monsters.push(Monster {
            pos,
            look: Renderable::new('D', 0xFF_FF_40),
            health: Health::new(120 + scale * 8),
            stats: Stats::new(12, 8, 6, 6, 16),
            ai: Ai::new(AiKind::Chase, 100, 10),
            name: String::from_str("황녀 🐲"),
        });
        proof {
            p_boss = seq![(boss_spot(rs.last(), st), 'D', 0xFF_FF_40u32, 120 + scale * 8, base_stats(12, 8, 6, 6, 16), 10int, AiKind::Chase, "황녀 🐲"@)];
            assert(world.monsters@.take(m2.len() as int) =~= m2);
            assert(monster_matches(world.monsters@[m2.len() as int], p_boss[0]));
            assert forall|i: int| 0 <= i < world.monsters@.len() implies monster_ok(#[trigger] world.monsters@[i]) by {
                if i < m2.len() {
                    assert(world.monsters@[i] == m2[i]);
                }
            }
        }
    } else {
        assert(world.monsters@.take(m2.len() as int) =~= m2);
    }
    proof {
        lemma_spawned_chain(m0, m2, world.monsters@, p_tier + p_bear, p_boss);
        assert(p_tier + p_bear + p_boss =~= floor_monster_plans(rs, st, floor as int, theme));
    }
    let ghost i0 = world.items@;
    assert(world.items@.take(i0.len() as int) =~= i0);
    let mut i: usize = 0;
    while i < n
        invariant
            n == rs.len(),
            rs == dungeon.rooms@,
            st == dungeon.stairs,
            i <= n,
            rooms_in_range(rs),
            floor_fits(floor as int),
            world.wf(),
            world.hero == old(world).hero,
            spawned(m0, world.monsters@, floor_monster_plans(rs, st, floor as int, theme)),
            m0 == old(world).monsters@,
            i0 == old(world).items@,
            looted(i0, world.items@, loot_plans(rs, st, floor as int, i as nat)),
        decreases n - i,
    {
        let ghost before = world.items@;
        if i % 2 == 1 {
            assert(room_small(rs[i as int]));
            let g = loot_for(&dungeon.rooms[i], dungeon.stairs, floor, i);
            world.items.push(g);
            proof {
                let plans = loot_plans(rs, st, floor as int, (i + 1) as nat);
                assert(plans == loot_plans(rs, st, floor as int, i as nat).push(({
                    let it = loot_item(floor as int, i as int);
                    (loot_spot(rs[i as int], st), it.0, it.1, it.2)
                })));
                assert(world.items@.take(i0.len() as int) =~= before.take(i0.len() as int));
                assert forall|k: int| 0 <= k < plans.len() implies loot_matches(#[trigger] world.items@[i0.len() + k], plans[k]) by {
                    if k < plans.len() - 1 {
                        assert(world.items@[i0.len() + k] == before[i0.len() + k]);
                    }
                }
                assert forall|k: int| 0 <= k < world.items@.len() implies ground_ok(#[trigger] world.items@[k]) by {
                    if k < before.len() {
                        assert(world.items@[k] == before[k]);
                    }
                }
            }
        }
        i = i + 1;
    }
}

} // verus!
