//! The game state of a run and the rules that move it: starting a floor,
//! sight, the message log, combat, death and descent.

use vstd::prelude::*;
use crate::combat::ai::in_coord_range;
use crate::combat::ai::{AiAction, chebyshev, step_pos, take_turn, turn_action};
use crate::components::{
    Ai, Direction, Equipment, FloorTheme, Health, Inventory, Mana, Renderable, Stats, TilePos,
    Viewshed, eight_spec, theme_label, theme_of,
};
use crate::game::spawn::{
    base_stats, floor_fits, floor_monster_plans, loot_plans, looted, populate_floor,
    rooms_in_range, spawned,
};
use crate::game::world::{
    BOSS_FLOOR, Hero, INVENTORY_MAX, MAP_H, MAP_W, Monster, VIEW_RADIUS, World, blocks_of, build_blocks,
    is_passable, occupied,
};
use crate::i18n::{Key, Locale, fill_slots, t_format_with_locale, text_of, texts_of};
use crate::meta::SoulRemembrance;
use crate::procgen::bsp::{Config, generate, generated_tiles, lemma_generated_rooms_on_map, map_tree, room_ok, rooms_of};
use crate::procgen::dungeon::{Dungeon, center_of, in_bounds, passable_tile, tile_at};
use crate::text::{append_str, decimal_string, decimal_text};
use crate::vision::{compute, fov_cells, visible_positions};

verus! {

/// Top-level input mode: while a modal is open, keys go to it and the world
/// stands still.
#[derive(Copy, Clone, Debug, PartialEq, Eq, Structural)]
pub enum ModalMode {
    Closed,
    /// The inventory, with the highlighted slot.
    Inventory { cursor: usize },
    /// "Descend the stairs?", with `choice` true on "yes".
    ConfirmStairs { choice: bool },
}

/// The state of a run.
pub struct App {
    pub dungeon: Dungeon,
    /// Seed of the current floor.
    pub seed: u64,
    pub running: bool,
    /// Current floor, from 1.
    pub floor: u32,
    /// Sight blockers of the floor, one per cell.
    pub blocks: Vec<bool>,
    pub world: World,
    /// The message log, newest last.
    pub messages: Vec<String>,
    /// Turn counter; seeds the attack rolls.
    pub tick: u64,
    /// The floor's boss has fallen (descending past the boss floor needs it).
    pub boss_defeated: bool,
    /// Bosses killed in this run.
    pub run_bosses_killed: u32,
    pub locale: Locale,
    /// Meta progression carried between runs.
    pub remembrance: SoulRemembrance,
    /// Gold in the wallet.
    pub gold: u32,
    /// The hero has died; only restart and quit are left.
    pub game_over: bool,
    pub modal: ModalMode,
    /// Frames during which a just-opened modal must stay drawn.
    pub modal_redraws: u8,
    /// The hero stands on the stairs.
    pub at_stairs: bool,
    /// The remembrance changed and should be written to disk.
    pub save_requested: bool,
}

/// Number of cells of a floor.
pub open spec fn map_cells() -> int {
    MAP_W * MAP_H
}

/// `p` lies on the map.
pub open spec fn on_map(p: TilePos) -> bool {
    in_bounds(MAP_W as int, MAP_H as int, p.0 as int, p.1 as int)
}

impl App {
    pub open spec fn wf(&self) -> bool {
        &&& self.dungeon.wf()
        &&& self.dungeon.width == MAP_W
        &&& self.dungeon.height == MAP_H
        &&& rooms_in_range(self.dungeon.rooms@)
        &&& (self.dungeon.stairs matches Some(s) ==> on_map(s))
        &&& self.blocks@ == blocks_of(self.dungeon.tiles@)
        &&& self.world.wf()
        &&& self.world.hero.viewshed.revealed@.len() == map_cells()
        &&& floor_fits(self.floor as int)
        &&& (self.modal matches ModalMode::Inventory { cursor } ==> cursor < self.world.hero.inventory.max)
    }
}

/// The messages as texts.
pub open spec fn log_of(app: App) -> Seq<Seq<char>> {
    texts_of(app.messages@)
}

/// The log after adding `m`: at most five lines are kept, so when five are
/// already there the oldest goes.
pub open spec fn logged(s: Seq<Seq<char>>, m: Seq<char>) -> Seq<Seq<char>> {
    if s.len() >= 5 {
        s.skip(1).push(m)
    } else {
        s.push(m)
    }
}

/// `b` equals `a` in every field but the world and the messages.
pub open spec fn same_but_world_log(a: App, b: App) -> bool {
    &&& b.dungeon == a.dungeon
    &&& b.seed == a.seed
    &&& b.running == a.running
    &&& b.floor == a.floor
    &&& b.blocks == a.blocks
    &&& b.tick == a.tick
    &&& b.boss_defeated == a.boss_defeated
    &&& b.run_bosses_killed == a.run_bosses_killed
    &&& b.locale == a.locale
    &&& b.remembrance == a.remembrance
    &&& b.gold == a.gold
    &&& b.game_over == a.game_over
    &&& b.modal == a.modal
    &&& b.modal_redraws == a.modal_redraws
    &&& b.at_stairs == a.at_stairs
    &&& b.save_requested == a.save_requested
}

/// `b` is `a` with `m` added to the log.
pub open spec fn just_logged(a: App, b: App, m: Seq<char>) -> bool {
    &&& same_but_world_log(a, b)
    &&& b.world == a.world
    &&& log_of(b) == logged(log_of(a), m)
}

/// Cell index `i` is one of the positions `vis` on the map.
pub open spec fn shown(vis: Seq<TilePos>, i: int) -> bool {
    exists|k: int| 0 <= k < vis.len() && on_map(#[trigger] vis[k]) && vis[k].1 * MAP_W + vis[k].0 == i
}

/// What the hero sees from `pos` on a floor with sight blockers `blocks`.
pub open spec fn sight_from(pos: TilePos, blocks: Seq<bool>) -> Seq<TilePos> {
    visible_positions(fov_cells(pos, MAP_W as int, MAP_H as int, VIEW_RADIUS as int, blocks), MAP_W as int, map_cells())
}

/// The remembered cells after seeing `vis`.
pub open spec fn revealed_after(before: Seq<bool>, vis: Seq<TilePos>) -> Seq<bool> {
    Seq::new(before.len(), |i: int| before[i] || shown(vis, i))
}

/// `b` is `a` after the hero's sight was recomputed.
pub open spec fn sight_updated(a: App, b: App) -> bool {
    let vis = sight_from(a.world.hero.pos, a.blocks@);
    &&& same_but_world_log(a, b)
    &&& b.messages == a.messages
    &&& b.world.monsters == a.world.monsters
    &&& b.world.items == a.world.items
    &&& b.world.hero.pos == a.world.hero.pos
    &&& b.world.hero.look == a.world.hero.look
    &&& b.world.hero.health == a.world.hero.health
    &&& b.world.hero.mana == a.world.hero.mana
    &&& b.world.hero.stats == a.world.hero.stats
    &&& b.world.hero.inventory == a.world.hero.inventory
    &&& b.world.hero.equipment == a.world.hero.equipment
    &&& b.world.hero.name == a.world.hero.name
    &&& b.world.hero.viewshed.range == a.world.hero.viewshed.range
    &&& b.world.hero.viewshed.visible@ == vis
    &&& b.world.hero.viewshed.revealed@ == revealed_after(a.world.hero.viewshed.revealed@, vis)
}

/// Seed of floor `floor` of a run seeded with `base`.
pub open spec fn floor_seed(base: u64, floor: u32) -> u64 {
    ((base as int + (floor as int * 0x9E37_79B9_7F4A_7C15int) % 0x1_0000_0000_0000_0000int)
        % 0x1_0000_0000_0000_0000int) as u64
}

/// The key hint that follows the floor announcement.
pub open spec fn start_hint(locale: Locale) -> Seq<char> {
    match locale {
        Locale::Korean => "h/j/k/l, 화살표, yubn, i 인벤토리, p 포션, 계단에서 y/n"@,
        Locale::English => "h/j/k/l, arrows, yubn, i inv, p potion, y/n on stairs"@,
    }
}

/// The first log line of a floor.
pub open spec fn start_msg(floor: u32, locale: Locale) -> Seq<char> {
    fill_slots(text_of(Key::MsgFloorEntered, locale), seq![decimal_text(floor as int), theme_label(theme_of(floor as int))])
        + " — "@ + start_hint(locale)
}

/// The generator settings of every floor.
pub open spec fn floor_config() -> Config {
    Config { min_leaf_size: 8, room_min: 4, room_max: 9, max_depth: 5 }
}

/// `d` is the map generated from `seed`.
pub open spec fn generated_map(d: Dungeon, seed: u64) -> bool {
    let rooms = rooms_of(map_tree(MAP_W as int, MAP_H as int, seed, floor_config()));
    &&& d.width == MAP_W
    &&& d.height == MAP_H
    &&& d.rooms@ == rooms
    &&& d.tiles@ == generated_tiles(MAP_W as int, MAP_H as int, seed, floor_config())
    &&& d.stairs == Some(TilePos(center_of(rooms.last()).0 as i32, center_of(rooms.last()).1 as i32))
}

/// Hit points of the hero at the start of floor `floor`.
pub open spec fn start_hp(floor: u32) -> int {
    40 + 5 * (floor as int - 1)
}

/// Mana of the hero at the start of floor `floor`.
pub open spec fn start_mp(floor: u32) -> int {
    15 + 2 * (floor as int - 1)
}

/// `app` is the start of floor `floor` of a run seeded with `base_seed`:
/// the generated map, the hero at the centre of the first room with fresh
/// pools, empty inventory and nothing worn, the floor's monsters and loot,
/// and the hero's first sight (the log aside).
pub open spec fn fresh_state(
    app: App,
    base_seed: u64,
    floor: u32,
    remembrance: SoulRemembrance,
    locale: Locale,
    gold: u32,
) -> bool {
    let seed = floor_seed(base_seed, floor);
    let rooms = app.dungeon.rooms@;
    let c = center_of(rooms[0]);
    let start = TilePos(c.0 as i32, c.1 as i32);
    let h = app.world.hero;
    &&& app.seed == seed
    &&& app.floor == floor
    &&& generated_map(app.dungeon, seed)
    &&& app.blocks@ == blocks_of(app.dungeon.tiles@)
    &&& h.pos == start
    &&& h.look == (Renderable { glyph: '@', fg_rgb: 0xFF_D6_5Au32 })
    &&& h.health == (Health { current: start_hp(floor) as i32, max: start_hp(floor) as i32 })
    &&& h.mana == (Mana { current: start_mp(floor) as i32, max: start_mp(floor) as i32 })
    &&& h.stats == base_stats(10, 10, 8, 8, 10)
    &&& h.inventory.max == INVENTORY_MAX
    &&& h.inventory.slots@ == Seq::new(INVENTORY_MAX as nat, |i: int| None::<crate::components::Item>)
    &&& h.equipment == (Equipment { weapon: None, armor: None })
    &&& h.name@ == "모험가"@
    &&& h.viewshed.range == VIEW_RADIUS
    &&& h.viewshed.visible@ == sight_from(start, app.blocks@)
    &&& h.viewshed.revealed@ == revealed_after(Seq::new(map_cells() as nat, |i: int| false), sight_from(start, app.blocks@))
    &&& spawned(Seq::empty(), app.world.monsters@, floor_monster_plans(rooms, app.dungeon.stairs, floor as int, theme_of(floor as int)))
    &&& looted(Seq::empty(), app.world.items@, loot_plans(rooms, app.dungeon.stairs, floor as int, rooms.len()))
    &&& app.running
    &&& app.tick == 0
    &&& app.boss_defeated == (floor > BOSS_FLOOR)
    &&& app.run_bosses_killed == 0
    &&& app.locale == locale
    &&& app.remembrance == remembrance
    &&& app.gold == gold
    &&& !app.game_over
    &&& app.modal == ModalMode::Closed
    &&& app.modal_redraws == 0
    &&& !app.at_stairs
    &&& !app.save_requested
}

/// `fresh_state`, with the floor announcement as the only message.
pub open spec fn fresh_floor(
    app: App,
    base_seed: u64,
    floor: u32,
    remembrance: SoulRemembrance,
    locale: Locale,
    gold: u32,
) -> bool {
    &&& fresh_state(app, base_seed, floor, remembrance, locale, gold)
    &&& log_of(app) == seq![start_msg(floor, locale)]
}

impl App {
    /// Starts floor `floor` of a run seeded with `base_seed`, carrying the
    /// remembrance, the locale and `carried_gold` over (see `fresh_floor`).
    pub fn new_at_with(
        base_seed: u64,
        floor: u32,
        remembrance: SoulRemembrance,
        locale: Locale,
        carried_gold: u32,
    ) -> (app: App)
        requires
            floor_fits(floor as int),
        ensures
            app.wf(),
            fresh_floor(app, base_seed, floor, remembrance, locale, carried_gold),
    {
        let theme = FloorTheme::from_depth(floor);
        let seed = base_seed.wrapping_add((floor as u64).wrapping_mul(0x9E37_79B9_7F4A_7C15u64));
        let cfg = Config { min_leaf_size: 8, room_min: 4, room_max: 9, max_depth: 5 };
        let dungeon = generate(MAP_W, MAP_H, seed, cfg);
        proof {
            lemma_generated_rooms_on_map(MAP_W as int, MAP_H as int, seed, cfg);
            let rooms = dungeon.rooms@;
            assert(rooms_in_range(rooms)) by {
                assert forall|i: int| 0 <= i < rooms.len() implies crate::game::spawn::room_small(#[trigger] rooms[i]) by {
                    assert(room_ok(rooms[i]));
                }
            }
            crate::procgen::dungeon::lemma_center_inside(rooms[0]);
            crate::procgen::dungeon::lemma_center_inside(rooms.last());
            assert(room_ok(rooms[rooms.len() - 1]));
            assert(crate::procgen::bsp::room_within(rooms[0], crate::procgen::bsp::map_rect(MAP_W as int, MAP_H as int)));
            assert(crate::procgen::bsp::room_within(rooms[rooms.len() - 1], crate::procgen::bsp::map_rect(MAP_W as int, MAP_H as int)));
        }
        let (px, py) = dungeon.rooms[0].center();
        let hp = 40 + 5 * (floor as i32 - 1);
        let mp = 15 + 2 * (floor as i32 - 1);
        let hero = Hero {
            pos: TilePos(px, py),
            look: Renderable::new('@', 0xFF_D6_5A),
            health: Health::new(hp),
            mana: Mana::new(mp),
            stats: Stats::new(10, 10, 8, 8, 10),
            inventory: Inventory::new(INVENTORY_MAX),
            equipment: Equipment::new(),
            viewshed: Viewshed::new(VIEW_RADIUS, MAP_W, MAP_H),
            name: String::from_str("모험가"),
        };
        let mut world = World { hero, monsters: Vec::new(), items: Vec::new() };
        assert(world.wf());
        populate_floor(&mut world, &dungeon, floor, theme);
        let blocks = build_blocks(&dungeon);
        let boss_defeated = floor > BOSS_FLOOR;
        let mut args: Vec<String> = Vec::new();
        args.push(decimal_string(floor as i64));
        args.push(String::from_str(theme.label()));
        assert(texts_of(args@) =~= seq![decimal_text(floor as int), theme_label(theme_of(floor as int))]);
        let mut msg = t_format_with_locale(Key::MsgFloorEntered, locale, args.as_slice());
        append_str(&mut msg, " — ");
        match locale {
            Locale::Korean => append_str(&mut msg, "h/j/k/l, 화살표, yubn, i 인벤토리, p 포션, 계단에서 y/n"),
            Locale::English => append_str(&mut msg, "h/j/k/l, arrows, yubn, i inv, p potion, y/n on stairs"),
        }
        assert(msg@ =~= start_msg(floor, locale));
        let mut messages: Vec<String> = Vec::new();
        messages.push(msg);
        let mut app = App {
            dungeon,
            seed,
            running: true,
            floor,
            blocks,
            world,
            messages,
            tick: 0,
            boss_defeated,
            run_bosses_killed: 0,
            locale,
            remembrance,
            gold: carried_gold,
            game_over: false,
            modal: ModalMode::Closed,
            modal_redraws: 0,
            at_stairs: false,
            save_requested: false,
        };
        assert(log_of(app) =~= seq![start_msg(floor, locale)]);
        app.recompute_fov();
        app
    }

    /// A fresh run at floor `floor` with an empty remembrance, in Korean and
    /// with an empty wallet.
    pub fn new_at(base_seed: u64, floor: u32) -> (app: App)
        requires
            floor_fits(floor as int),
        ensures
            app.wf(),
            fresh_floor(app, base_seed, floor, SoulRemembrance {
                champion_count: 0,
                wisps: 0,
                marks_of_departed: 0,
                last_wager_gold: 0,
                clears: 0,
            }, Locale::Korean, 0),
    {
        App::new_at_with(base_seed, floor, SoulRemembrance::new(), Locale::Korean, 0)
    }

    /// Recomputes what the hero sees from where it stands and remembers it.
    pub fn recompute_fov(&mut self)
        requires
            old(self).wf(),
            on_map(old(self).world.hero.pos),
        ensures
            final(self).wf(),
            sight_updated(*old(self), *final(self)),
    {
        let pos = self.world.hero.pos;
        let mut vis: Vec<TilePos> = Vec::new();
        compute(pos, MAP_W, MAP_H, VIEW_RADIUS, self.blocks.as_slice(), &mut vis);
        let ghost before = self.world.hero.viewshed.revealed@;
        let n = vis.len();
        let mut k: usize = 0;
        while k < n
            invariant
                n == vis@.len(),
                k <= n,
                self.world.hero.viewshed.revealed@.len() == map_cells(),
                before.len() == map_cells(),
                self.world.hero.viewshed.revealed@ == Seq::new(before.len(), |i: int| before[i] || shown(vis@.take(k as int), i)),
                self.world.hero.viewshed.range == old(self).world.hero.viewshed.range,
                self.world.hero.viewshed.visible == old(self).world.hero.viewshed.visible,
                self.world.hero.pos == old(self).world.hero.pos,
                self.world.hero.look == old(self).world.hero.look,
                self.world.hero.health == old(self).world.hero.health,
                self.world.hero.mana == old(self).world.hero.mana,
                self.world.hero.stats == old(self).world.hero.stats,
                self.world.hero.inventory == old(self).world.hero.inventory,
                self.world.hero.equipment == old(self).world.hero.equipment,
                self.world.hero.name == old(self).world.hero.name,
                self.world.monsters == old(self).world.monsters,
                self.world.items == old(self).world.items,
                same_but_world_log(*old(self), *self),
                self.messages == old(self).messages,
            decreases n - k,
        {
            let p = vis[k];
            let ghost prev = self.world.hero.viewshed.revealed@;
            if p.0 >= 0 && p.1 >= 0 && p.0 < MAP_W && p.1 < MAP_H {
                let idx = (p.1 * MAP_W + p.0) as usize;
                self.world.hero.viewshed.revealed.set(idx, true);
            }
            k = k + 1;
            proof {
                let cur = self.world.hero.viewshed.revealed@;
                assert(vis@.take(k as int).drop_last() =~= vis@.take(k - 1));
                assert forall|i: int| 0 <= i < before.len() implies
                    cur[i] == (before[i] || shown(vis@.take(k as int), i)) by {
                    let t = vis@.take(k as int);
                    let t0 = vis@.take(k - 1);
                    if shown(t0, i) {
                        let w = choose|w: int| 0 <= w < t0.len() && on_map(#[trigger] t0[w]) && t0[w].1 * MAP_W + t0[w].0 == i;
                        assert(t[w] == t0[w]);
                    }
                    if shown(t, i) {
                        let w = choose|w: int| 0 <= w < t.len() && on_map(#[trigger] t[w]) && t[w].1 * MAP_W + t[w].0 == i;
                        if w < k - 1 {
                            assert(t0[w] == t[w]);
                        }
                    }
                    if on_map(p) && i == p.1 * MAP_W + p.0 {
                        assert(t[k - 1] == p);
                    }
                }
                assert(cur =~= Seq::new(before.len(), |i: int| before[i] || shown(vis@.take(k as int), i)));
            }
        }
        assert(vis@.take(n as int) =~= vis@);
        self.world.hero.viewshed.visible = vis;
    }
}


/// Every field but the world, the log and the run's progress
/// (boss, kills, death, remembrance, save request) is unchanged.
pub open spec fn frame_core(a: App, b: App) -> bool {
    &&& b.dungeon == a.dungeon
    &&& b.seed == a.seed
    &&& b.running == a.running
    &&& b.floor == a.floor
    &&& b.blocks == a.blocks
    &&& b.tick == a.tick
    &&& b.locale == a.locale
    &&& b.gold == a.gold
    &&& b.modal == a.modal
    &&& b.modal_redraws == a.modal_redraws
    &&& b.at_stairs == a.at_stairs
}

/// The roll of the hero's attacks at turn `tick`.
pub open spec fn hero_rng(tick: u64) -> u32 {
    (((tick as int % 0x1_0000_0000int) * 2654435761int) % 0x1_0000_0000int) as u32
}

/// The roll of the monsters' attacks at turn `tick`.
pub open spec fn enemy_rng(tick: u64) -> u32 {
    hero_rng(tick) ^ 0xDEAD_BEEFu32
}

pub open spec fn hit_msg(crit: bool, dealt: int) -> Seq<char> {
    (if crit { "치명타! "@ } else { Seq::<char>::empty() }) + decimal_text(dealt) + " 피해!"@
}

pub open spec fn enemy_hit_msg(dmg: int, crit: bool) -> Seq<char> {
    "적 명중! "@ + decimal_text(dmg) + " 피해"@ + (if crit { " (치명타!)"@ } else { Seq::<char>::empty() })
}

pub open spec fn kills_msg(count: int) -> Seq<char> {
    decimal_text(count) + " 처치!"@
}

pub open spec fn boss_down_msg(floor: u32) -> Seq<char> {
    decimal_text(floor as int) + "층 보스 격파! '>' 내려가기."@
}

/// The death summary that replaces the log.
pub open spec fn death_lines(floor: u32, gold: u32, bosses: u32) -> Seq<Seq<char>> {
    let deposit = if gold as int / 10 < 200 { gold as int / 10 } else { 200 };
    seq![
        "═══ 쓰러졌습니다… ═══"@,
        "도달: "@ + decimal_text(floor as int) + "F ("@ + decimal_text(floor as int) + "층) — 보스 "@
            + decimal_text(bosses as int) + "명 처치"@,
        "남긴 Gold: "@ + decimal_text(gold as int) + " — 영혼 +"@ + decimal_text(bosses as int) + " 표시 / +"@
            + decimal_text(deposit) + " 골드 (마지막 노림전)"@,
        "R = 새 게임, q = 종료"@
    ]
}

/// The monsters still alive, in order.
pub open spec fn alive_only(ms: Seq<Monster>) -> Seq<Monster>
    decreases ms.len(),
{
    if ms.len() == 0 {
        Seq::empty()
    } else {
        let r = alive_only(ms.drop_last());
        if ms.last().health.current > 0 { r.push(ms.last()) } else { r }
    }
}

/// How many monsters are dead.
pub open spec fn dead_count(ms: Seq<Monster>) -> int
    decreases ms.len(),
{
    if ms.len() == 0 {
        0
    } else {
        dead_count(ms.drop_last()) + if ms.last().health.current <= 0 { 1int } else { 0 }
    }
}

/// A dead monster was a boss (more than 100 maximum hit points).
pub open spec fn boss_among_dead(ms: Seq<Monster>) -> bool {
    exists|i: int| 0 <= i < ms.len() && (#[trigger] ms[i]).health.current <= 0 && ms[i].health.max > 100
}

/// The end of a death check made from `a` with the log `log`, the boss flag
/// `bd` and the run's kill count `rbk`: when the hero is down and the run not
/// yet over, the run ends (remembrance updated, a save requested, the log
/// replaced by the death summary); otherwise those stay.
pub open spec fn death_checked(a: App, b: App, log: Seq<Seq<char>>, bd: bool, rbk: u32) -> bool {
    &&& b.boss_defeated == bd
    &&& b.run_bosses_killed == rbk
    &&& if a.world.hero.health.current <= 0 && !a.game_over {
        &&& b.game_over
        &&& b.remembrance == crate::meta::after_run(a.remembrance, a.floor as int, a.gold as int, rbk as int)
        &&& b.save_requested
        &&& log_of(b) == death_lines(a.floor, a.gold, rbk)
    } else {
        &&& b.game_over == a.game_over
        &&& b.remembrance == a.remembrance
        &&& b.save_requested == a.save_requested
        &&& log_of(b) == log
    }
}

/// `b` is `a` after the run ended: the remembrance takes the floor reached,
/// the wallet and the bosses killed, a save is requested and the log is
/// replaced by the death summary; nothing changes when the run was already
/// over.
pub open spec fn run_ended(a: App, b: App) -> bool {
    &&& frame_core(a, b)
    &&& b.world == a.world
    &&& b.boss_defeated == a.boss_defeated
    &&& b.run_bosses_killed == a.run_bosses_killed
    &&& if a.game_over {
        b == a
    } else {
        &&& b.game_over
        &&& b.remembrance == crate::meta::after_run(a.remembrance, a.floor as int, a.gold as int, a.run_bosses_killed as int)
        &&& b.save_requested
        &&& log_of(b) == death_lines(a.floor, a.gold, a.run_bosses_killed)
    }
}

/// `b` is `a` after the dead among `ms` were cleared away, starting from the
/// log `log`: the kills are counted in the log, a fallen boss is credited
/// once per floor, and the hero's death is checked.
pub open spec fn dead_cleared(a: App, b: App, ms: Seq<Monster>, log: Seq<Seq<char>>) -> bool {
    let count = dead_count(ms);
    let log1 = if count > 0 { logged(log, kills_msg(count)) } else { log };
    let new_boss = boss_among_dead(ms) && !a.boss_defeated;
    let log2 = if new_boss { logged(log1, boss_down_msg(a.floor)) } else { log1 };
    let bd = a.boss_defeated || new_boss;
    let rbk = if new_boss {
        (if a.run_bosses_killed == u32::MAX { u32::MAX as int } else { a.run_bosses_killed + 1 }) as u32
    } else {
        a.run_bosses_killed
    };
    &&& frame_core(a, b)
    &&& b.world.hero == a.world.hero
    &&& b.world.items == a.world.items
    &&& b.world.monsters@ == alive_only(ms)
    &&& death_checked(a, b, log2, bd, rbk)
}

/// `b` is `a` after the hero attacked monster `target`.
pub open spec fn hero_attacked(a: App, b: App, target: int) -> bool {
    let m = a.world.monsters@[target];
    let out = crate::combat::attack::attack_outcome(a.world.hero.stats, m.stats, hero_rng(a.tick), a.world.hero.stats.attack_bonus as int);
    if m.health.current <= 0 {
        b == a
    } else if !out.hit {
        just_logged(a, b, "빗나감!"@)
    } else {
        let dealt = crate::components::dealt_damage(m.health.current as int, out.dmg as int);
        let hit = Monster {
            health: Health { current: (m.health.current - dealt) as i32, max: m.health.max },
            ..m
        };
        let log = if dealt == 0 { log_of(a) } else { logged(log_of(a), hit_msg(out.crit, dealt)) };
        dead_cleared(a, b, a.world.monsters@.update(target, hit), log)
    }
}

/// `b` is `a` after a monster with stats `atk` struck at the hero, the
/// monsters being `ms` afterwards.
pub open spec fn enemy_strike(a: App, b: App, atk: Stats, ms: Seq<Monster>) -> bool {
    let h = a.world.hero;
    let out = crate::combat::attack::attack_outcome(atk, h.stats, enemy_rng(a.tick), atk.attack_bonus as int);
    &&& same_but_world_log(a, b)
    &&& b.world.monsters@ == ms
    &&& b.world.items == a.world.items
    &&& if !out.hit {
        &&& b.world.hero == h
        &&& log_of(b) == logged(log_of(a), "적이 빗나감."@)
    } else {
        let dealt = crate::components::dealt_damage(h.health.current as int, out.dmg as int);
        &&& b.world.hero == (Hero { health: Health { current: (h.health.current - dealt) as i32, max: h.health.max }, ..h })
        &&& log_of(b) == logged(log_of(a), enemy_hit_msg(out.dmg as int, out.crit))
    }
}

/// `b` is `a` after monster `i` attacked the hero.
pub open spec fn enemy_attacked(a: App, b: App, i: int) -> bool {
    enemy_strike(a, b, a.world.monsters@[i].stats, a.world.monsters@)
}

/// A monster may step onto `p`: it is floor or stairs and nothing stands or
/// lies there.
pub open spec fn open_tile(a: App, p: TilePos) -> bool {
    &&& passable_tile(tile_at(MAP_W as int, MAP_H as int, a.dungeon.tiles@, p.0 as int, p.1 as int))
    &&& !occupied(a.world, p)
}

/// Which of the eight neighbours of `from` (clockwise from up) are open.
pub open spec fn open_neighbours(a: App, from: TilePos) -> Seq<bool> {
    Seq::new(8, |k: int| open_tile(a, step_pos(from, eight_spec()[k])))
}

/// Monster `i` sees the hero now: within its vision and with a clear line
/// (`clear[i]`).
pub open spec fn sees_now(a: App, i: int, clear: Seq<bool>) -> bool {
    let m = a.world.monsters@[i];
    chebyshev(m.pos, a.world.hero.pos) <= m.ai.vision && clear[i]
}

/// Where monster `i` remembers the hero after looking: where the hero is when
/// it sees the hero now, else where it last saw the hero.
pub open spec fn remembered(a: App, i: int, clear: Seq<bool>) -> Option<TilePos> {
    if sees_now(a, i, clear) { Some(a.world.hero.pos) } else { a.world.monsters@[i].ai.last_known_player }
}

/// What monster `i` decides to do (see `turn_action`).
pub open spec fn monster_action(a: App, i: int, clear: Seq<bool>) -> AiAction {
    let m = a.world.monsters@[i];
    turn_action(m.pos, a.world.hero.pos, m.ai.vision as int, m.ai.kind, remembered(a, i, clear),
        open_neighbours(a, m.pos), clear[i])
}

/// Monster `i` is ready (no cooldown) and attacks the hero on its turn.
pub open spec fn attacks(a: App, i: int, clear: Seq<bool>) -> bool {
    a.world.monsters@[i].ai.cooldown == 0 && monster_action(a, i, clear) == AiAction::AttackPlayer
}

/// `b` is `a` after monster `i` took its turn. A monster that sees the hero
/// remembers where; then it acts as `turn_action` decides: it attacks (and
/// must then wait a turn: its cooldown becomes 1), steps to an open
/// neighbour, or stays.
pub open spec fn monster_turn(a: App, b: App, i: int, clear: Seq<bool>) -> bool {
    let m = a.world.monsters@[i];
    let m1 = Monster { ai: Ai { last_known_player: remembered(a, i, clear), ..m.ai }, ..m };
    match monster_action(a, i, clear) {
        AiAction::AttackPlayer => enemy_strike(a, b, m.stats,
            a.world.monsters@.update(i, Monster { ai: Ai { cooldown: 1, ..m1.ai }, ..m1 })),
        AiAction::Step(d) => {
            let np = step_pos(m.pos, d);
            let moved = if open_tile(a, np) { Monster { pos: np, ..m1 } } else { m1 };
            &&& same_but_world_log(a, b)
            &&& b.messages == a.messages
            &&& b.world.hero == a.world.hero
            &&& b.world.items == a.world.items
            &&& b.world.monsters@ == a.world.monsters@.update(i, moved)
        },
        _ => {
            &&& same_but_world_log(a, b)
            &&& b.messages == a.messages
            &&& b.world.hero == a.world.hero
            &&& b.world.items == a.world.items
            &&& b.world.monsters@ == a.world.monsters@.update(i, m1)
        },
    }
}

/// Monster `i`'s part of the enemy phase: a monster on cooldown does nothing,
/// any other takes its turn.
pub open spec fn monster_acts(a: App, b: App, i: int, clear: Seq<bool>) -> bool {
    if a.world.monsters@[i].ai.cooldown > 0 { b == a } else { monster_turn(a, b, i, clear) }
}

/// `b` is `a` after the enemy phase (`clear[i]` tells whether monster `i`'s
/// line to the hero is clear), followed by the death check. The monsters act
/// in order, those on cooldown skipped; only one attack is made per phase:
/// once a monster attacks, the monsters after it do nothing.
pub open spec fn enemies_acted(a: App, b: App, clear: Seq<bool>) -> bool {
    let n = a.world.monsters@.len();
    exists|states: Seq<App>, k: int| #![trigger states[k]] {
        &&& 0 <= k <= n
        &&& states.len() == k + 1
        &&& states[0] == a
        &&& (forall|j: int| 0 <= j < k ==> monster_acts(#[trigger] states[j], states[j + 1], j, clear))
        &&& (forall|j: int| 0 <= j < k - 1 ==> !attacks(#[trigger] states[j], j, clear))
        &&& (k == n || attacks(states[k - 1], k - 1, clear))
        &&& if states[k].world.hero.health.current <= 0 {
            &&& frame_core(states[k], b)
            &&& b.world == states[k].world
            &&& death_checked(states[k], b, log_of(states[k]), states[k].boss_defeated,
                states[k].run_bosses_killed)
        } else {
            b == states[k]
        }
    }
}

/// `b` is `a` with every monster's cooldown back to 0.
pub open spec fn cooldowns_cleared(a: App, b: App) -> bool {
    &&& same_but_world_log(a, b)
    &&& b.messages == a.messages
    &&& b.world.hero == a.world.hero
    &&& b.world.items == a.world.items
    &&& b.world.monsters@.len() == a.world.monsters@.len()
    &&& forall|j: int| 0 <= j < a.world.monsters@.len() ==> #[trigger] b.world.monsters@[j]
        == (Monster { ai: Ai { cooldown: 0, ..a.world.monsters@[j].ai }, ..a.world.monsters@[j] })
}

impl App {
    /// Adds `msg` to the log, dropping the oldest line when five are kept.
    pub fn log(&mut self, msg: String)
        requires
            old(self).wf(),
        ensures
            final(self).wf(),
            just_logged(*old(self), *final(self), msg@),
    {
        let ghost before = log_of(*self);
        if self.messages.len() >= 5 {
            self.messages.remove(0);
        }
        self.messages.push(msg);
        assert(log_of(*self) =~= logged(before, msg@));
    }

    /// Logs a fixed text.
    fn say(&mut self, msg: &str)
        requires
            old(self).wf(),
        ensures
            final(self).wf(),
            just_logged(*old(self), *final(self), msg@),
    {
        self.log(String::from_str(msg));
    }

    /// The floor and its theme, such as "3F 동굴".
    pub fn floor_label(&self) -> (r: String)
        ensures
            r@ == decimal_text(self.floor as int) + "F "@ + theme_label(theme_of(self.floor as int)),
    {
        let mut s = decimal_string(self.floor as i64);
        append_str(&mut s, "F ");
        append_str(&mut s, FloorTheme::from_depth(self.floor).label());
        s
    }

    /// Gold in the wallet.
    pub fn gold(&self) -> (r: u32)
        ensures
            r == self.gold,
    {
        self.gold
    }

    /// The current floor.
    pub fn floor(&self) -> (r: u32)
        ensures
            r == self.floor,
    {
        self.floor
    }

    /// The message log, newest last.
    pub fn messages(&self) -> (r: &Vec<String>)
        ensures
            *r == self.messages,
    {
        &self.messages
    }

    /// The floor's map.
    pub fn dungeon_ref(&self) -> (r: &Dungeon)
        ensures
            *r == self.dungeon,
    {
        &self.dungeon
    }

    /// The floor's entities.
    pub fn world_ref(&self) -> (r: &World)
        ensures
            *r == self.world,
    {
        &self.world
    }

    /// Ends the run (see `run_ended`); nothing happens when it is already
    /// over.
    fn on_player_death(&mut self)
        requires
            old(self).wf(),
        ensures
            final(self).wf(),
            run_ended(*old(self), *final(self)),
    {
        if self.game_over {
            return;
        }
        self.game_over = true;
        let bosses = self.run_bosses_killed;
        let floor = self.floor;
        let gold = self.gold;
        self.remembrance.on_run_end(floor, gold, bosses);
        self.save_requested = true;
        self.messages.clear();
        self.messages.push(String::from_str("═══ 쓰러졌습니다… ═══"));
        let mut l2 = String::from_str("도달: ");
        crate::text::push_decimal(&mut l2, floor as i64);
        append_str(&mut l2, "F (");
        crate::text::push_decimal(&mut l2, floor as i64);
        append_str(&mut l2, "층) — 보스 ");
        crate::text::push_decimal(&mut l2, bosses as i64);
        append_str(&mut l2, "명 처치");
        self.messages.push(l2);
        let mut l3 = String::from_str("남긴 Gold: ");
        crate::text::push_decimal(&mut l3, gold as i64);
        append_str(&mut l3, " — 영혼 +");
        crate::text::push_decimal(&mut l3, bosses as i64);
        append_str(&mut l3, " 표시 / +");
        let deposit = if gold / 10 < 200 { gold / 10 } else { 200 };
        crate::text::push_decimal(&mut l3, deposit as i64);
        append_str(&mut l3, " 골드 (마지막 노림전)");
        self.messages.push(l3);
        self.messages.push(String::from_str("R = 새 게임, q = 종료"));
        assert(log_of(*self) =~= death_lines(floor, gold, bosses));
    }

    /// Runs the death handler directly, as a test harness needs (see
    /// `run_ended`).
    pub fn on_player_died_for_tests(&mut self)
        requires
            old(self).wf(),
        ensures
            final(self).wf(),
            run_ended(*old(self), *final(self)),
    {
        self.on_player_death();
    }
}


impl App {
    /// Clears away the dead monsters (see `dead_cleared`).
    pub fn despawn_dead(&mut self)
        requires
            old(self).wf(),
        ensures
            final(self).wf(),
            dead_cleared(*old(self), *final(self), old(self).world.monsters@, log_of(*old(self))),
    {
        let ghost orig = self.world.monsters@;
        let n0 = self.world.monsters.len();
        let mut src: Vec<Monster> = Vec::new();
        std::mem::swap(&mut src, &mut self.world.monsters);
        let mut kept: Vec<Monster> = Vec::new();
        let mut count: usize = 0;
        let mut boss = false;
        let ghost mut k: int = 0;
        assert(orig.take(0) =~= Seq::<Monster>::empty());
        assert(orig.skip(0) =~= orig);
        while src.len() > 0
            invariant
                0 <= k <= orig.len(),
                orig.len() == n0,
                src@ == orig.skip(k),
                kept@ == alive_only(orig.take(k)),
                count == dead_count(orig.take(k)),
                count <= k,
                boss == boss_among_dead(orig.take(k)),
                forall|j: int| 0 <= j < orig.len() ==> crate::game::world::monster_ok(#[trigger] orig[j]),
                forall|j: int| 0 <= j < kept@.len() ==> crate::game::world::monster_ok(#[trigger] kept@[j]),
            decreases src@.len(),
        {
            let m = src.remove(0);
            proof {
                assert(m == orig[k]);
                assert(orig.take(k + 1).drop_last() =~= orig.take(k));
                assert(orig.skip(k + 1) =~= src@);
            }
            let dead = m.health.current <= 0;
            let is_boss = dead && m.health.max > 100;
            proof {
                let t1 = orig.take(k + 1);
                let t0 = orig.take(k);
                if boss_among_dead(t0) {
                    let w = choose|w: int| 0 <= w < t0.len() && (#[trigger] t0[w]).health.current <= 0 && t0[w].health.max > 100;
                    assert(t1[w] == t0[w]);
                }
                if boss_among_dead(t1) {
                    let w = choose|w: int| 0 <= w < t1.len() && (#[trigger] t1[w]).health.current <= 0 && t1[w].health.max > 100;
                    if w < k {
                        assert(t0[w] == t1[w]);
                    }
                }
                if is_boss {
                    assert(t1[k] == m);
                }
            }
            if dead {
                count = count + 1;
                if is_boss {
                    boss = true;
                }
            } else {
                kept.push(m);
            }
            proof {
                k = k + 1;
            }
        }
        assert(orig.take(orig.len() as int) =~= orig);
        self.world.monsters = kept;
        let ghost mid = *self;
        assert(log_of(mid) == log_of(*old(self)));
        if count > 0 {
            let mut msg = String::new();
            crate::text::push_count(&mut msg, count);
            append_str(&mut msg, " 처치!");
            self.log(msg);
        }
        if boss && !self.boss_defeated {
            self.boss_defeated = true;
            self.run_bosses_killed = self.run_bosses_killed.saturating_add(1);
            let mut msg = decimal_string(self.floor as i64);
            append_str(&mut msg, "층 보스 격파! '>' 내려가기.");
            self.log(msg);
        }
        if self.world.hero.health.current <= 0 {
            self.on_player_death();
        }
    }

    /// The hero attacks monster `target` (see `hero_attacked`).
    pub fn player_attack(&mut self, target: usize)
        requires
            old(self).wf(),
            target < old(self).world.monsters@.len(),
        ensures
            final(self).wf(),
            hero_attacked(*old(self), *final(self), target as int),
    {
        let hero_stats = self.world.hero.stats;
        let foe_stats = self.world.monsters[target].stats;
        if self.world.monsters[target].health.current <= 0 {
            return;
        }
        proof {
            assert(crate::game::world::monster_ok(self.world.monsters@[target as int]));
        }
        let t = (self.tick % 0x1_0000_0000) as u32;
        let rng = t.wrapping_mul(2654435761u32);
        proof {
            crate::combat::attack::lemma_moderate_stats_in_range(hero_stats, foe_stats, rng, hero_stats.attack_bonus as int);
        }
        let out = crate::combat::attack::resolve_attack(&hero_stats, &foe_stats, rng, hero_stats.attack_bonus);
        if !out.hit {
            self.say("빗나감!");
            return;
        }
        let ghost before = self.world.monsters@;
        let mut m = self.world.monsters.remove(target);
        let dealt = m.health.take(out.dmg);
        self.world.monsters.insert(target, m);
        proof {
            assert(self.world.monsters@ =~= before.update(target as int, self.world.monsters@[target as int]));
            assert forall|j: int| 0 <= j < self.world.monsters@.len() implies crate::game::world::monster_ok(#[trigger] self.world.monsters@[j]) by {
                if j != target {
                    assert(self.world.monsters@[j] == before[j]);
                }
            }
        }
        if dealt == 0 {
            self.despawn_dead();
            return;
        }
        let mut msg = if out.crit { String::from_str("치명타! ") } else { String::new() };
        crate::text::push_decimal(&mut msg, dealt as i64);
        append_str(&mut msg, " 피해!");
        assert(msg@ =~= hit_msg(out.crit, dealt as int));
        self.log(msg);
        self.despawn_dead();
    }

    /// Monster `i` attacks the hero (see `enemy_attacked`).
    pub fn enemy_attack(&mut self, i: usize)
        requires
            old(self).wf(),
            i < old(self).world.monsters@.len(),
        ensures
            final(self).wf(),
            enemy_attacked(*old(self), *final(self), i as int),
    {
        let atk = self.world.monsters[i].stats;
        let def = self.world.hero.stats;
        proof {
            assert(crate::game::world::monster_ok(self.world.monsters@[i as int]));
        }
        let t = (self.tick % 0x1_0000_0000) as u32;
        let rng = t.wrapping_mul(2654435761u32) ^ 0xDEAD_BEEFu32;
        proof {
            crate::combat::attack::lemma_moderate_stats_in_range(atk, def, rng, atk.attack_bonus as int);
        }
        let out = crate::combat::attack::resolve_attack(&atk, &def, rng, atk.attack_bonus);
        if !out.hit {
            self.say("적이 빗나감.");
            return;
        }
        self.world.hero.health.take(out.dmg);
        let mut msg = String::from_str("적 명중! ");
        crate::text::push_decimal(&mut msg, out.dmg as i64);
        append_str(&mut msg, " 피해");
        if out.crit {
            append_str(&mut msg, " (치명타!)");
        }
        assert(msg@ =~= enemy_hit_msg(out.dmg as int, out.crit));
        self.log(msg);
    }
}


fn abs_i32(v: i32) -> (r: i32)
    requires
        v > i32::MIN,
    ensures
        r == crate::combat::ai::abs_int(v as int),
{
    if v < 0 { -v } else { v }
}

fn chebyshev_exec(a: TilePos, b: TilePos) -> (r: i32)
    requires
        in_coord_range(a),
        in_coord_range(b),
    ensures
        r == chebyshev(a, b),
{
    let dx = abs_i32(b.0 - a.0);
    let dy = abs_i32(b.1 - a.1);
    if dx < dy { dy } else { dx }
}

impl App {
    /// Can a monster step onto `p`?
    fn open_step(&self, from: TilePos, d: Direction) -> (r: bool)
        requires
            self.wf(),
            in_coord_range(from),
        ensures
            r == open_tile(*self, step_pos(from, d)),
    {
        let (dx, dy) = d.delta();
        let np = TilePos(from.0 + dx, from.1 + dy);
        is_passable(&self.dungeon, np.0, np.1) && !self.world.is_occupied(np)
    }

    /// Monster `i` takes its turn (see `monster_turn`); `true` when it
    /// attacked.
    #[verifier::rlimit(40)]
    fn act_monster(&mut self, i: usize, clear: &[bool]) -> (attacked: bool)
        requires
            old(self).wf(),
            i < old(self).world.monsters@.len(),
            i < clear@.len(),
        ensures
            final(self).wf(),
            final(self).world.monsters@.len() == old(self).world.monsters@.len(),
            monster_turn(*old(self), *final(self), i as int, clear@),
            attacked == (monster_action(*old(self), i as int, clear@) == AiAction::AttackPlayer),
    {
        proof {
            assert(crate::game::world::monster_ok(self.world.monsters@[i as int]));
        }
        let m_pos = self.world.monsters[i].pos;
        let ai = self.world.monsters[i].ai;
        let player = self.world.hero.pos;
        let dist = chebyshev_exec(m_pos, player);
        let sees = dist <= ai.vision && clear[i];
        let lk = if sees { Some(player) } else { ai.last_known_player };
        let dirs = Direction::eight();
        let o0 = self.open_step(m_pos, dirs[0]);
        let o1 = self.open_step(m_pos, dirs[1]);
        let o2 = self.open_step(m_pos, dirs[2]);
        let o3 = self.open_step(m_pos, dirs[3]);
        let o4 = self.open_step(m_pos, dirs[4]);
        let o5 = self.open_step(m_pos, dirs[5]);
        let o6 = self.open_step(m_pos, dirs[6]);
        let o7 = self.open_step(m_pos, dirs[7]);
        let open = [o0, o1, o2, o3, o4, o5, o6, o7];
        assert(open@ =~= open_neighbours(*self, m_pos));
        let act = take_turn(m_pos, player, ai.vision, ai.kind, lk, &open, clear[i]);
        let mut target: Option<TilePos> = None;
        match act {
            AiAction::Step(d) => {
                let (dx, dy) = d.delta();
                let np = TilePos(m_pos.0 + dx, m_pos.1 + dy);
                if is_passable(&self.dungeon, np.0, np.1) && !self.world.is_occupied(np) {
                    target = Some(np);
                }
            },
            _ => {},
        }
        let ghost before = self.world.monsters@;
        let mut m = self.world.monsters.remove(i);
        m.ai.last_known_player = lk;
        match target {
            Some(np) => { m.pos = np; },
            None => {},
        }
        let attacking = match act {
            AiAction::AttackPlayer => true,
            _ => false,
        };
        if attacking {
            m.ai.cooldown = 1;
        }
        self.world.monsters.insert(i, m);
        proof {
            assert(self.world.monsters@ =~= before.update(i as int, self.world.monsters@[i as int]));
            assert forall|j: int| 0 <= j < self.world.monsters@.len() implies crate::game::world::monster_ok(#[trigger] self.world.monsters@[j]) by {
                if j != i {
                    assert(self.world.monsters@[j] == before[j]);
                }
            }
        }
        if attacking {
            self.enemy_attack(i);
        }
        attacking
    }

    /// The enemy phase, then the hero's death check (see `enemies_acted`):
    /// the monsters act in order, skipping those on cooldown, until one
    /// attacks. `clear[i]` tells whether monster `i` has a clear line to the
    /// hero.
    pub fn enemy_take_turns(&mut self, clear: &[bool])
        requires
            old(self).wf(),
            clear@.len() == old(self).world.monsters@.len(),
        ensures
            final(self).wf(),
            enemies_acted(*old(self), *final(self), clear@),
    {
        let n = self.world.monsters.len();
        let ghost mut states: Seq<App> = seq![*self];
        let mut i: usize = 0;
        let mut used = false;
        while i < n && !used
            invariant
                self.wf(),
                n == self.world.monsters@.len(),
                n == old(self).world.monsters@.len(),
                clear@.len() == n,
                i <= n,
                states.len() == i + 1,
                states[0] == *old(self),
                states[i as int] == *self,
                forall|j: int| 0 <= j < i ==> monster_acts(#[trigger] states[j], states[j + 1], j, clear@),
                forall|j: int| 0 <= j < i - 1 ==> !attacks(#[trigger] states[j], j, clear@),
                used == (i > 0 && attacks(states[i - 1], i - 1, clear@)),
            decreases n - i,
        {
            let ghost before = *self;
            let ghost was_used = used;
            if self.world.monsters[i].ai.cooldown == 0 {
                used = self.act_monster(i, clear);
            }
            proof {
                let prev = states;
                states = states.push(*self);
                assert(monster_acts(before, *self, i as int, clear@));
                assert forall|j: int| 0 <= j < i + 1 implies monster_acts(#[trigger] states[j], states[j + 1], j, clear@) by {
                    if j < i {
                        assert(states[j] == prev[j]);
                        assert(states[j + 1] == prev[j + 1]);
                    }
                }
                assert forall|j: int| 0 <= j < i implies !attacks(#[trigger] states[j], j, clear@) by {
                    assert(states[j] == prev[j]);
                    if j == i - 1 {
                        assert(!was_used);
                    }
                }
                assert(states[i as int] == before);
            }
            i = i + 1;
        }
        if self.world.hero.health.current <= 0 {
            self.on_player_death();
        }
        proof {
            assert(states.len() == i + 1);
            assert(i == n || used);
        }
    }

    /// Every monster's cooldown goes back to 0, ready for the next turn.
    pub fn clear_enemy_cooldowns(&mut self)
        requires
            old(self).wf(),
        ensures
            final(self).wf(),
            cooldowns_cleared(*old(self), *final(self)),
    {
        let n = self.world.monsters.len();
        let mut i: usize = 0;
        while i < n
            invariant
                self.wf(),
                n == self.world.monsters@.len(),
                n == old(self).world.monsters@.len(),
                i <= n,
                same_but_world_log(*old(self), *self),
                self.messages == old(self).messages,
                self.world.hero == old(self).world.hero,
                self.world.items == old(self).world.items,
                forall|j: int| 0 <= j < i ==> #[trigger] self.world.monsters@[j]
                    == (Monster { ai: Ai { cooldown: 0, ..old(self).world.monsters@[j].ai }, ..old(self).world.monsters@[j] }),
                forall|j: int| i <= j < n ==> #[trigger] self.world.monsters@[j] == old(self).world.monsters@[j],
            decreases n - i,
        {
            let ghost before = self.world.monsters@;
            let mut m = self.world.monsters.remove(i);
            m.ai.cooldown = 0;
            self.world.monsters.insert(i, m);
            proof {
                assert(self.world.monsters@ =~= before.update(i as int, self.world.monsters@[i as int]));
                assert forall|j: int| 0 <= j < n implies crate::game::world::monster_ok(#[trigger] self.world.monsters@[j]) by {
                    if j != i {
                        assert(self.world.monsters@[j] == before[j]);
                    } else {
                        assert(crate::game::world::monster_ok(before[j]));
                    }
                }
            }
            i = i + 1;
        }
    }
}


/// An entity of the floor.
#[derive(Copy, Clone, Debug, PartialEq, Eq, Structural)]
pub enum Entity {
    Hero,
    /// The monster at this index.
    Monster(usize),
    /// The ground item at this index.
    Item(usize),
}

/// `i` is the first ground item lying on `p`.
pub open spec fn is_first_item_at(items: Seq<crate::game::world::GroundItem>, p: TilePos, i: int) -> bool {
    &&& 0 <= i < items.len()
    &&& items[i].pos == p
    &&& forall|j: int| 0 <= j < i ==> (#[trigger] items[j]).pos != p
}

impl App {
    /// The first entity standing or lying on `pos`: the hero, else the first
    /// monster there, else the first item there.
    pub fn entity_at(&self, pos: TilePos) -> (r: Option<Entity>)
        ensures
            self.world.hero.pos == pos ==> r == Some(Entity::Hero),
            self.world.hero.pos != pos ==> match r {
                Some(Entity::Monster(i)) => crate::game::world::is_first_monster_at(self.world.monsters@, pos, i as int),
                Some(Entity::Item(i)) => !crate::game::world::monster_on(self.world.monsters@, pos)
                    && is_first_item_at(self.world.items@, pos, i as int),
                Some(Entity::Hero) => false,
                None => !crate::game::world::monster_on(self.world.monsters@, pos)
                    && !crate::game::world::item_on(self.world.items@, pos),
            },
    {
        if self.world.hero.pos == pos {
            return Some(Entity::Hero);
        }
        match crate::game::world::monster_at(&self.world.monsters, pos) {
            Some(i) => { return Some(Entity::Monster(i)); },
            None => {},
        }
        let n = self.world.items.len();
        let mut i: usize = 0;
        while i < n
            invariant
                n == self.world.items@.len(),
                i <= n,
                self.world.hero.pos != pos,
                !crate::game::world::monster_on(self.world.monsters@, pos),
                forall|j: int| 0 <= j < i ==> (#[trigger] self.world.items@[j]).pos != pos,
            decreases n - i,
        {
            if self.world.items[i].pos == pos {
                return Some(Entity::Item(i));
            }
            i = i + 1;
        }
        None
    }
}

/// The text of `key` in the app's locale with its `{}` slots filled from
/// `args`.
pub fn t_format(app: &App, key: Key, args: &[String]) -> (r: String)
    ensures
        r@ == fill_slots(text_of(key, app.locale), texts_of(args@)),
{
    t_format_with_locale(key, app.locale, args)
}

/// Logs the text of `key` in the app's locale with its `{}` slots filled
/// from `args`.
pub fn log_t(app: &mut App, key: Key, args: &[String])
    requires
        old(app).wf(),
    ensures
        final(app).wf(),
        just_logged(*old(app), *final(app), fill_slots(text_of(key, old(app).locale), texts_of(args@))),
{
    let s = t_format(app, key, args);
    app.log(s);
}

} // verus!
