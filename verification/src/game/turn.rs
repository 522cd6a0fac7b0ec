//! A player turn: moving, attacking or waiting, the pickup on arrival, the
//! monsters' answer, the stairs prompt and descending.

use vstd::prelude::*;
use crate::combat::ai::in_coord_range;
use crate::components::{Direction, TilePos, delta_of};
use crate::game::app::{
    App, ModalMode, cooldowns_cleared, enemies_acted, fresh_floor, fresh_state, hero_attacked, just_logged, log_of,
    logged, on_map, same_but_world_log, sight_updated, start_msg,
};
use crate::game::items::{PickupOutcome, pick_up_outcome, pickup_of, pickup_post};
use crate::game::world::{Hero, MAX_FLOORS, BOSS_FLOOR, World, is_first_monster_at, is_passable, monster_at, monster_on};
use crate::i18n::{Key, fill_slots, t_for, t_format_with_locale, text_of, texts_of};
use crate::procgen::dungeon::{Tile, passable_tile, tile_at};
use crate::text::{append_str, decimal_string, decimal_text, push_decimal};

verus! {

/// What a handled key leaves to do.
#[derive(Copy, Clone, Debug, PartialEq, Eq, Structural)]
pub enum Turn {
    /// Nothing: the key did not take a turn.
    Done,
    /// The hero took a turn and the monsters answer next; `arrived` is the
    /// tile the hero walked onto, if it moved.
    EnemiesAct { arrived: Option<TilePos> },
}

/// The turn counter after one more turn (wrapping).
pub open spec fn next_tick(t: u64) -> u64 {
    ((t as int + 1) % 0x1_0000_0000_0000_0000int) as u64
}

/// `b` equals `a` in every field but the world, the messages and the wallet.
pub open spec fn same_but_world_log_gold(a: App, b: App) -> bool {
    &&& b.dungeon == a.dungeon
    &&& b.seed == a.seed
    &&& b.running == a.running
    &&& b.floor == a.floor
    &&& b.blocks == a.blocks
    &&& b.tick == a.tick
    &&& b.boss_defeated == a.boss_defeated
    &&& b.run_bosses_killed == a.run_bosses_killed
    &&& b.locale == a.locale
    &&& b.remembrance == a.remembrance
    &&& b.game_over == a.game_over
    &&& b.modal == a.modal
    &&& b.modal_redraws == a.modal_redraws
    &&& b.at_stairs == a.at_stairs
    &&& b.save_requested == a.save_requested
}

/// The log after a pickup: gold found, an item found, nothing found (said
/// only when not `quiet`), or a full inventory.
pub open spec fn pickup_log(log: Seq<Seq<char>>, r: PickupOutcome, g: int, quiet: bool) -> Seq<Seq<char>> {
    match r {
        PickupOutcome::Picked => if g > 0 {
            logged(log, "골드 +"@ + decimal_text(g) + "!"@)
        } else {
            logged(log, "아이템을 주웠습니다."@)
        },
        PickupOutcome::NoItem => if quiet { log } else { logged(log, "주울 아이템이 없습니다."@) },
        PickupOutcome::InventoryFull => if g > 0 {
            logged(log, "골드는 +"@ + decimal_text(g) + " 챙겼지만 인벤토리가 가득 찼습니다."@)
        } else {
            logged(log, "인벤토리가 가득 찼습니다."@)
        },
    }
}

/// `b` is `a` after picking up what lies around the hero: the gold found
/// goes to the wallet (saturating) and the log tells what happened.
pub open spec fn picked_up(a: App, b: App, quiet: bool) -> bool {
    let res = pickup_of(a.world.items@, a.world.hero.pos, a.world.hero.inventory.slots@, 0);
    let r = res.3;
    &&& same_but_world_log_gold(a, b)
    &&& pickup_post(a.world, b.world, 0u32, res.2 as u32, r)
    &&& b.gold == crate::game::items::sat_add_u32(a.gold as int, res.2)
    &&& log_of(b) == pickup_log(log_of(a), r, res.2, quiet)
}

/// The state `a` with the hero standing on `p`.
pub open spec fn hero_at(a: App, p: TilePos) -> App {
    App { world: World { hero: Hero { pos: p, ..a.world.hero }, ..a.world }, ..a }
}

/// `b` is `a` after the hero walked onto `next`: it sees from there, picks
/// up quietly, and the turn counter advances.
pub open spec fn walked(a: App, b: App, next: TilePos) -> bool {
    exists|m2: App, m3: App| {
        &&& #[trigger] sight_updated(hero_at(a, next), m2)
        &&& #[trigger] picked_up(m2, m3, true)
        &&& b == App { tick: next_tick(m3.tick), ..m3 }
    }
}

/// The tile one step from `p` in direction `dir`.
pub open spec fn step_from(p: TilePos, dir: Direction) -> TilePos {
    TilePos((p.0 + delta_of(dir).0) as i32, (p.1 + delta_of(dir).1) as i32)
}

/// `b` is `a` after the hero acted in direction `dir`, `t` saying what is
/// left: waiting takes a turn; stepping into a monster attacks the first one
/// there and takes a turn; stepping into a wall or off the floor does
/// nothing; otherwise the hero walks (see `walked`).
pub open spec fn player_acted(a: App, b: App, dir: Direction, t: Turn) -> bool {
    let cur = a.world.hero.pos;
    let next = step_from(cur, dir);
    if dir == Direction::Stay {
        &&& t == (Turn::EnemiesAct { arrived: None })
        &&& b == App { tick: next_tick(a.tick), ..a }
    } else if monster_on(a.world.monsters@, next) {
        &&& t == (Turn::EnemiesAct { arrived: None })
        &&& exists|i: int, mid: App| {
            &&& is_first_monster_at(a.world.monsters@, next, i)
            &&& #[trigger] hero_attacked(a, mid, i)
            &&& b == App { tick: next_tick(a.tick), ..mid }
        }
    } else if !passable_tile(tile_at(a.dungeon.width as int, a.dungeon.height as int, a.dungeon.tiles@, next.0 as int, next.1 as int)) {
        t == Turn::Done && b == a
    } else {
        &&& t == (Turn::EnemiesAct { arrived: Some(next) })
        &&& walked(a, b, next)
    }
}

/// After the monsters' answer: a hero who walked onto the stairs, with no
/// modal open, is asked whether to descend (the "yes"
/// option selected).
pub open spec fn stairs_prompted(a: App, b: App, arrived: Option<TilePos>) -> bool {
    if arrived matches Some(p) && a.modal == ModalMode::Closed
        && tile_at(a.dungeon.width as int, a.dungeon.height as int, a.dungeon.tiles@, p.0 as int, p.1 as int) == Tile::StairsDown {
        &&& same_but_world_log(App { modal: ModalMode::ConfirmStairs { choice: true }, modal_redraws: 4, at_stairs: true, ..a }, b)
        &&& b.world == a.world
        &&& log_of(b) == logged(log_of(a), "▼ — 내려갈까? (y/n)"@)
    } else {
        b == a
    }
}

/// The message after clearing the last floor.
pub open spec fn clear_msg(clears: u32, wisps: u8) -> Seq<char> {
    "쏠쏠리의 방 클리어! clears="@ + decimal_text(clears as int) + ", soul_wisps="@ + decimal_text(wisps as int)
}

/// `b` is `a` after trying to descend, `r` telling whether it did. The boss
/// floor cannot be left while its boss lives; past the last floor the run is
/// cleared instead (the remembrance credits a full run and a boss, and a save
/// is requested); otherwise the next floor starts, carrying the remembrance,
/// the locale and the wallet, and the log announces the descent.
pub open spec fn descended(a: App, b: App, r: bool) -> bool {
    let next = a.floor as int + 1;
    if a.floor == BOSS_FLOOR && !a.boss_defeated {
        !r && just_logged(a, b, text_of(Key::MsgBossFirst, a.locale))
    } else if next > MAX_FLOORS {
        let rem = crate::meta::after_run(a.remembrance, MAX_FLOORS as int, a.gold as int, 1);
        &&& !r
        &&& same_but_world_log(App { remembrance: rem, save_requested: true, ..a }, b)
        &&& b.world == a.world
        &&& log_of(b) == logged(logged(logged(log_of(a), text_of(Key::MsgBossFirst, a.locale)),
            text_of(Key::MsgAlreadyAtBottom, a.locale)), clear_msg(rem.clears, rem.wisps))
    } else {
        &&& r
        &&& fresh_state(b, a.seed, next as u32, a.remembrance, a.locale, a.gold)
        &&& log_of(b) == logged(seq![start_msg(next as u32, a.locale)],
            fill_slots(text_of(Key::MsgStairDescendOk, a.locale), seq![decimal_text(next)]))
    }
}

impl App {
    /// Adds a fixed text to the log.
    fn note(&mut self, msg: &str)
        requires
            old(self).wf(),
        ensures
            final(self).wf(),
            just_logged(*old(self), *final(self), msg@),
    {
        self.log(String::from_str(msg));
    }

    /// Picks up what lies around the hero into the inventory and the wallet
    /// (see `picked_up`).
    pub fn pick_up_here(&mut self, quiet: bool)
        requires
            old(self).wf(),
        ensures
            final(self).wf(),
            picked_up(*old(self), *final(self), quiet),
    {
        let mut gained: u32 = 0;
        let r = pick_up_outcome(&mut self.world, &mut gained);
        self.gold = self.gold.saturating_add(gained);
        match r {
            PickupOutcome::Picked => {
                if gained > 0 {
                    let mut m = String::from_str("골드 +");
                    push_decimal(&mut m, gained as i64);
                    append_str(&mut m, "!");
                    self.log(m);
                } else {
                    self.note("아이템을 주웠습니다.");
                }
            },
            PickupOutcome::NoItem => {
                if !quiet {
                    self.note("주울 아이템이 없습니다.");
                }
            },
            PickupOutcome::InventoryFull => {
                if gained > 0 {
                    let mut m = String::from_str("골드는 +");
                    push_decimal(&mut m, gained as i64);
                    append_str(&mut m, " 챙겼지만 인벤토리가 가득 찼습니다.");
                    self.log(m);
                } else {
                    self.note("인벤토리가 가득 찼습니다.");
                }
            },
        }
    }

    /// The hero acts in direction `dir` (see `player_acted`); the returned
    /// `Turn` says whether the monsters answer next.
    pub fn try_player_act(&mut self, dir: Direction) -> (t: Turn)
        requires
            old(self).wf(),
        ensures
            final(self).wf(),
            player_acted(*old(self), *final(self), dir, t),
    {
        let cur = self.world.hero.pos;
        let (dx, dy) = dir.delta();
        if dx == 0 && dy == 0 {
            self.tick = self.tick.wrapping_add(1);
            return Turn::EnemiesAct { arrived: None };
        }
        let next = TilePos(cur.0 + dx, cur.1 + dy);
        match monster_at(&self.world.monsters, next) {
            Some(i) => {
                let ghost a = *self;
                self.player_attack(i);
                let ghost mid = *self;
                self.tick = self.tick.wrapping_add(1);
                assert(hero_attacked(a, mid, i as int));
                return Turn::EnemiesAct { arrived: None };
            },
            None => {},
        }
        if !is_passable(&self.dungeon, next.0, next.1) {
            return Turn::Done;
        }
        self.world.hero.pos = next;
        assert(*self == hero_at(*old(self), next));
        self.recompute_fov();
        let ghost m2 = *self;
        self.pick_up_here(true);
        let ghost m3 = *self;
        self.tick = self.tick.wrapping_add(1);
        assert(sight_updated(hero_at(*old(self), next), m2));
        assert(picked_up(m2, m3, true));
        Turn::EnemiesAct { arrived: Some(next) }
    }

    /// The monsters answer the hero's turn (see `enemies_acted`), their
    /// cooldowns are cleared for the next turn, then a hero who walked onto
    /// the stairs is asked whether to descend (see `stairs_prompted`).
    /// `clear[i]` tells whether monster `i` has a clear line to the hero.
    pub fn enemy_phase(&mut self, arrived: Option<TilePos>, clear: &[bool])
        requires
            old(self).wf(),
            clear@.len() == old(self).world.monsters@.len(),
        ensures
            final(self).wf(),
            exists|mid: App, mid2: App| #[trigger] enemies_acted(*old(self), mid, clear@)
                && #[trigger] cooldowns_cleared(mid, mid2) && stairs_prompted(mid2, *final(self), arrived),
    {
        self.enemy_take_turns(clear);
        let ghost mid0 = *self;
        self.clear_enemy_cooldowns();
        let ghost mid = *self;
        match arrived {
            Some(p) => {
                if self.modal == ModalMode::Closed && self.dungeon.at(p.0, p.1) == Tile::StairsDown {
                    self.modal = ModalMode::ConfirmStairs { choice: true };
                    self.modal_redraws = 4;
                    self.at_stairs = true;
                    self.note("▼ — 내려갈까? (y/n)");
                }
            },
            None => {},
        }
        assert(stairs_prompted(mid, *self, arrived));
        assert(enemies_acted(*old(self), mid0, clear@) && cooldowns_cleared(mid0, mid));
    }

    /// Tries to descend (see `descended`); `true` when a new floor started.
    pub fn descend_internal(&mut self) -> (r: bool)
        requires
            old(self).wf(),
        ensures
            final(self).wf(),
            descended(*old(self), *final(self), r),
    {
        if self.floor == BOSS_FLOOR && !self.boss_defeated {
            self.note(t_for(Key::MsgBossFirst, self.locale));
            return false;
        }
        if self.floor >= MAX_FLOORS {
            self.note(t_for(Key::MsgBossFirst, self.locale));
            self.note(t_for(Key::MsgAlreadyAtBottom, self.locale));
            let gold = self.gold;
            self.remembrance.on_run_end(MAX_FLOORS, gold, 1);
            self.save_requested = true;
            let mut m = String::from_str("쏠쏠리의 방 클리어! clears=");
            push_decimal(&mut m, self.remembrance.clears as i64);
            append_str(&mut m, ", soul_wisps=");
            push_decimal(&mut m, self.remembrance.wisps as i64);
            assert(m@ =~= clear_msg(self.remembrance.clears, self.remembrance.wisps));
            self.log(m);
            return false;
        }
        let next = self.floor + 1;
        let mut args: Vec<String> = Vec::new();
        args.push(decimal_string(next as i64));
        assert(texts_of(args@) =~= seq![decimal_text(next as int)]);
        let msg = t_format_with_locale(Key::MsgStairDescendOk, self.locale, args.as_slice());
        let fresh = App::new_at_with(self.seed, next, self.remembrance, self.locale, self.gold);
        *self = fresh;
        self.log(msg);
        true
    }

    /// Takes a turn in direction `dir`, as a movement key does.
    pub fn step(&mut self, dir: Direction) -> (t: Turn)
        requires
            old(self).wf(),
        ensures
            final(self).wf(),
            player_acted(*old(self), *final(self), dir, t),
    {
        self.try_player_act(dir)
    }
}

} // verus!
