//! Properties of the game that span several operations or hold of every
//! state, stated over the same spec functions the operations' contracts use.

use vstd::prelude::*;
use crate::game::app::{App, ModalMode, dead_cleared, log_of, logged, run_ended};
use crate::components::{Item, ItemKind, TilePos};
use crate::game::input::{handled, inventory_keyed, is_quit, key_noted, restarted, stairs_keyed};
use crate::game::items::{
    drop_post, equip_post, free_count, not_reach_coin, pick_pass, pickup_of, reach_item, toggle_post,
    unequip_post, use_post, wanted_count,
};
use crate::components::EquipSlot;
use crate::game::spawn::{boss_spot, loot_spot, pos_of, spawn_spot};
use crate::procgen::dungeon::{Rect, center_of, rect_contains};
use crate::game::keys::{KeyCode, KeyPress};
use crate::game::turn::{Turn, descended};
use crate::game::world::BOSS_FLOOR;

verus! {

/// The message log never grows past five lines: adding a line to a log of at
/// most five keeps at most five, ends with the new line, and keeps the lines
/// before it in order (dropping the oldest only when five were there).
pub proof fn law_log_keeps_last_five(s: Seq<Seq<char>>, m: Seq<char>)
    requires
        s.len() <= 5,
    ensures
        logged(s, m).len() <= 5,
        logged(s, m).len() == if s.len() == 5 { 5 } else { s.len() + 1 },
        logged(s, m).last() == m,
        logged(s, m).drop_last() == s.skip(s.len() - (logged(s, m).len() - 1)),
{
    if s.len() >= 5 {
        assert(logged(s, m).drop_last() =~= s.skip(1));
    } else {
        assert(logged(s, m).drop_last() =~= s.skip(0));
    }
}

/// The boss floor cannot be left while its boss lives: trying to descend
/// there stays on the floor and changes nothing in the world.
pub proof fn law_boss_gate(a: App, b: App, r: bool)
    requires
        descended(a, b, r),
        a.floor == BOSS_FLOOR,
        !a.boss_defeated,
    ensures
        !r,
        b.floor == a.floor,
        b.world == a.world,
        b.remembrance == a.remembrance,
        b.gold == a.gold,
{
}

/// A descent that happens lands on the next floor with the same wallet,
/// remembrance and locale, alive and with no prompt open; one that does not
/// happen stays on the floor.
pub proof fn law_descent_carries_the_run(a: App, b: App, r: bool)
    requires
        descended(a, b, r),
    ensures
        r ==> b.floor == a.floor + 1,
        r ==> b.gold == a.gold,
        r ==> b.remembrance == a.remembrance,
        r ==> b.locale == a.locale,
        r ==> !b.game_over && b.modal == ModalMode::Closed,
        !r ==> b.floor == a.floor && b.world == a.world,
{
}

/// A run ends once: ending it again changes nothing, so the remembrance is
/// credited only for the first death.
pub proof fn law_run_ends_once(a: App, b: App, c: App)
    requires
        run_ended(a, b),
        run_ended(b, c),
    ensures
        c == b,
        b.game_over,
{
}

/// After death only quitting and restarting do anything: every other key
/// leaves the state as it was and takes no turn.
pub proof fn law_dead_hero_ignores_keys(a: App, b: App, key: KeyPress, t: Turn)
    requires
        handled(a, b, key, t),
        a.game_over,
        !(a.modal is Inventory),
        !is_quit(key.code),
        key.code != KeyCode::Char('R'),
    ensures
        b == a,
        t == Turn::Done,
{
}

/// A restart begins floor 1 with an empty wallet, keeping the remembrance
/// and the locale.
pub proof fn law_restart_keeps_memory(a: App, b: App)
    requires
        restarted(a, b),
    ensures
        b.floor == 1,
        b.gold == 0,
        b.remembrance == a.remembrance,
        b.locale == a.locale,
        !b.game_over,
{
}

/// While the inventory is open the floor stands still: whatever key is
/// pressed, no turn passes, the monsters stay as they are, the hero does not
/// move, and the floor, its map and the turn counter are unchanged.
pub proof fn law_inventory_freezes_the_floor(a: App, b: App, key: KeyPress, t: Turn)
    requires
        handled(a, b, key, t),
        a.modal is Inventory,
    ensures
        t == Turn::Done,
        b.world.monsters == a.world.monsters,
        b.world.hero.pos == a.world.hero.pos,
        b.floor == a.floor,
        b.dungeon == a.dungeon,
        b.tick == a.tick,
{
    let cursor = a.modal->cursor;
    assert(inventory_keyed(a, b, key.code, cursor));
    let s = a.world.hero.inventory.slots@;
    match key.code {
        KeyCode::Char('e') => {
            let r = choose|r: Option<String>| #[trigger] toggle_post(a.world, b.world, cursor, r)
                && crate::game::input::item_action_logged(a, b, r);
            assert(toggle_post(a.world, b.world, cursor, r));
        },
        KeyCode::Char('u') => {
            let r = choose|r: Option<String>| #[trigger] use_post(a.world, b.world, cursor, r)
                && crate::game::input::item_action_logged(a, b, r);
            assert(use_post(a.world, b.world, cursor, r));
        },
        KeyCode::Char('d') | KeyCode::Char('x') => {
            let r = choose|r: Option<String>| #[trigger] drop_post(a.world, b.world, cursor, r)
                && crate::game::input::item_action_logged(a, b, r);
            assert(drop_post(a.world, b.world, cursor, r));
        },
        KeyCode::Enter => {
            match s[cursor as int] {
                Some(it) => {
                    if it.kind == ItemKind::Weapon || it.kind == ItemKind::Armor {
                        let r = choose|r: Option<String>| #[trigger] toggle_post(a.world, b.world, cursor, r)
                            && crate::game::input::item_action_logged(a, b, r);
                        assert(toggle_post(a.world, b.world, cursor, r));
                    } else {
                        let r = choose|r: Option<String>| #[trigger] use_post(a.world, b.world, cursor, r)
                            && crate::game::input::item_action_logged(a, b, r);
                        assert(use_post(a.world, b.world, cursor, r));
                    }
                },
                None => {},
            }
        },
        _ => {},
    }
}

/// While the stairs prompt is open the hero stays put: a key other than an
/// answer that descends (`y`, `Y`, Enter) takes no turn and changes neither
/// the world nor the floor. (Shift+4, the pickup, is left out: it picks up
/// whatever modal is open.)
pub proof fn law_stairs_prompt_holds_the_hero(a: App, b: App, key: KeyPress, t: Turn)
    requires
        handled(a, b, key, t),
        a.modal is ConfirmStairs,
        !a.game_over,
        !(key.code == KeyCode::Char('4') && key.shift),
        key.code != KeyCode::Char('y'),
        key.code != KeyCode::Char('Y'),
        key.code != KeyCode::Enter,
    ensures
        t == Turn::Done,
        b.world == a.world,
        b.floor == a.floor,
{
    let choice = a.modal->choice;
    let a1 = choose|a1: App| #[trigger] key_noted(a, a1, key.code) && stairs_keyed(a1, b, key.code, choice);
    assert(key_noted(a, a1, key.code));
    assert(stairs_keyed(a1, b, key.code, choice));
}

/// No gold coin ever takes up an inventory slot in a pickup pass: every slot
/// that holds a coin afterwards held that same coin before.
pub proof fn law_pick_pass_keeps_coins_out(
    items: Seq<crate::game::world::GroundItem>,
    c: TilePos,
    own: bool,
    slots: Seq<Option<Item>>,
    gold: int,
    took: bool,
    full: bool,
    i: int,
)
    requires
        0 <= i < slots.len(),
        pick_pass(items, c, own, slots, gold, took, full).1[i] matches Some(x) && x.kind == ItemKind::Coin,
    ensures
        pick_pass(items, c, own, slots, gold, took, full).1[i] == slots[i],
        pick_pass(items, c, own, slots, gold, took, full).1.len() == slots.len(),
    decreases items.len(),
{
    lemma_pick_pass_len(items, c, own, slots, gold, took, full);
    if items.len() > 0 {
        let g = items[0];
        let rest = items.skip(1);
        if !crate::game::items::within_reach(c, g.pos, own) {
            law_pick_pass_keeps_coins_out(rest, c, own, slots, gold, took, full, i);
        } else if g.item.kind == ItemKind::Coin {
            law_pick_pass_keeps_coins_out(rest, c, own, slots,
                crate::game::items::sat_add_u32(gold, crate::game::items::coin_value(g.item)), true, full, i);
        } else {
            match crate::game::items::free_slot(slots) {
                Some(f) => {
                    let s2 = slots.update(f, Some(g.item));
                    lemma_free_slot_in_range(slots);
                    law_pick_pass_keeps_coins_out(rest, c, own, s2, gold, true, full, i);
                },
                None => {
                    law_pick_pass_keeps_coins_out(rest, c, own, slots, gold, took, true, i);
                },
            }
        }
    }
}

proof fn lemma_free_slot_in_range(s: Seq<Option<Item>>)
    ensures
        crate::game::items::free_slot(s) matches Some(f) ==> 0 <= f < s.len() && s[f] is None,
{
    if exists|i: int| crate::components::is_first_empty(s, i) {
        let f = choose|i: int| crate::components::is_first_empty(s, i);
        assert(crate::components::is_first_empty(s, f));
    }
}

proof fn lemma_pick_pass_len(
    items: Seq<crate::game::world::GroundItem>,
    c: TilePos,
    own: bool,
    slots: Seq<Option<Item>>,
    gold: int,
    took: bool,
    full: bool,
)
    ensures
        pick_pass(items, c, own, slots, gold, took, full).1.len() == slots.len(),
    decreases items.len(),
{
    if items.len() > 0 {
        let g = items[0];
        let rest = items.skip(1);
        if !crate::game::items::within_reach(c, g.pos, own) {
            lemma_pick_pass_len(rest, c, own, slots, gold, took, full);
        } else if g.item.kind == ItemKind::Coin {
            lemma_pick_pass_len(rest, c, own, slots,
                crate::game::items::sat_add_u32(gold, crate::game::items::coin_value(g.item)), true, full);
        } else {
            match crate::game::items::free_slot(slots) {
                Some(f) => {
                    lemma_pick_pass_len(rest, c, own, slots.update(f, Some(g.item)), gold, true, full);
                },
                None => {
                    lemma_pick_pass_len(rest, c, own, slots, gold, took, true);
                },
            }
        }
    }
}

/// Gold goes to the wallet, never into the inventory: after a whole pickup
/// (own tile, then the four neighbours) every slot holding a coin held that
/// same coin before.
pub proof fn law_gold_never_takes_a_slot(
    items: Seq<crate::game::world::GroundItem>,
    c: TilePos,
    slots: Seq<Option<Item>>,
    gold: int,
    i: int,
)
    requires
        0 <= i < slots.len(),
        pickup_of(items, c, slots, gold).1[i] matches Some(x) && x.kind == ItemKind::Coin,
    ensures
        pickup_of(items, c, slots, gold).1[i] == slots[i],
{
    if wanted_count(items, c) <= free_count(slots) {
        let p1 = pick_pass(items, c, true, slots, gold, false, false);
        lemma_pick_pass_len(items, c, true, slots, gold, false, false);
        law_pick_pass_keeps_coins_out(p1.0, c, false, p1.1, p1.2, p1.3, p1.4, i);
        law_pick_pass_keeps_coins_out(items, c, true, slots, gold, false, false, i);
    }
}

/// Items other than coins are picked up all or nothing: when more of them lie
/// within reach than there are empty slots, the outcome is `InventoryFull`,
/// the slots are unchanged, and every such item is still on the ground, in
/// the same order (only the coins within reach are gone).
pub proof fn law_full_inventory_takes_nothing(
    items: Seq<crate::game::world::GroundItem>,
    c: TilePos,
    slots: Seq<Option<Item>>,
    gold: int,
)
    requires
        wanted_count(items, c) > free_count(slots),
    ensures
        pickup_of(items, c, slots, gold).3 == crate::game::items::PickupOutcome::InventoryFull,
        pickup_of(items, c, slots, gold).1 == slots,
        pickup_of(items, c, slots, gold).0 == items.filter(not_reach_coin(c)),
        forall|k: int| 0 <= k < items.len() && #[trigger] reach_item(c)(items[k])
            ==> pickup_of(items, c, slots, gold).0.contains(items[k]),
{
    assert forall|k: int| 0 <= k < items.len() && #[trigger] reach_item(c)(items[k])
        implies items.filter(not_reach_coin(c)).contains(items[k]) by {
        items.lemma_filter_contains_rev(not_reach_coin(c), items[k]);
    }
}

/// A monster never spawns on the stairs: when the stairs lie at the room's
/// centre the monster moves to a neighbour inside the room, and stairs
/// outside the room are never reached. (A room one tile tall is left out:
/// the first neighbour tried is the one below.)
pub proof fn law_spawn_avoids_stairs(room: Rect, s: TilePos)
    requires
        0 <= room.x1 <= room.x2 < 0x1000,
        0 <= room.y1 < room.y2 < 0x1000,
        s == pos_of(center_of(room)) || !rect_contains(room, s.0 as int, s.1 as int),
    ensures
        spawn_spot(room, Some(s)) != s,
{
    let c = center_of(room);
    assert(rect_contains(room, c.0, c.1 + 1));
    if s == pos_of(c) {
        assert(pos_of((c.0 + 0, c.1 + 1)).1 != s.1);
    } else {
        assert(rect_contains(room, c.0, c.1));
    }
}

/// The boss never spawns on the stairs: with the stairs at the room's
/// centre it stands on a neighbour inside the room, and stairs outside the
/// room are never reached. (A room one tile tall is left out, as for the
/// other monsters.)
pub proof fn law_boss_avoids_stairs(room: Rect, s: TilePos)
    requires
        0 <= room.x1 <= room.x2 < 0x1000,
        0 <= room.y1 < room.y2 < 0x1000,
        s == pos_of(center_of(room)) || !rect_contains(room, s.0 as int, s.1 as int),
    ensures
        boss_spot(room, Some(s)) != s,
{
    let c = center_of(room);
    assert(rect_contains(room, c.0, c.1 + 1));
    if s == pos_of(c) {
        assert(pos_of((c.0 + 0, c.1 + 1)).1 != s.1);
    } else {
        assert(rect_contains(room, c.0, c.1));
    }
}

/// Loot never lies on the stairs: at the room's centre it steps aside, and it
/// always lies inside the room, away from stairs elsewhere. (A room narrower
/// than four tiles is left out: the step aside is clamped back.)
pub proof fn law_loot_avoids_stairs(room: Rect, s: TilePos)
    requires
        0 <= room.x1 && room.x1 + 3 <= room.x2 && room.x2 < 0x1000,
        0 <= room.y1 && room.y1 + 2 <= room.y2 && room.y2 < 0x1000,
        s == pos_of(center_of(room)) || !rect_contains(room, s.0 as int, s.1 as int),
    ensures
        loot_spot(room, Some(s)) != s,
{
}

/// Wearing a weapon from slot `idx` touches nothing but the weapon: the armor
/// stays worn where it was, the weapon slot now points at `idx`, the weapon
/// stays in that slot, and the attack bonus becomes the weapon's strength.
pub proof fn law_weapon_equip_keeps_armor(a: crate::game::world::World, b: crate::game::world::World, idx: usize, r: Option<String>)
    requires
        equip_post(a, b, idx, r),
        idx < a.hero.inventory.slots@.len(),
        a.hero.inventory.slots@[idx as int] matches Some(it) && it.kind == ItemKind::Weapon,
    ensures
        b.hero.equipment.armor == a.hero.equipment.armor,
        b.hero.equipment.weapon == Some(idx),
        b.hero.inventory.slots@[idx as int] == a.hero.inventory.slots@[idx as int],
        b.hero.stats.attack_bonus == a.hero.inventory.slots@[idx as int]->Some_0.bonus,
{
    let s = a.hero.inventory.slots@;
    match a.hero.equipment.weapon {
        Some(p) => {
            if p != idx && p < s.len() && s[p as int] is Some {
                let f = choose|f: int| #![trigger crate::game::items::is_first_free_except(s.update(p as int, None), idx as int, f)]
                    crate::game::items::is_first_free_except(s.update(p as int, None), idx as int, f)
                    && b.hero.inventory.slots@ == s.update(p as int, None).update(f, s[p as int]);
                assert(b.hero.inventory.slots@[idx as int] == s[idx as int]);
            }
        },
        None => {},
    }
}

/// Taking off what `slot` wears and nothing else: the other equipment slot
/// stays, no item moves, and the bonus of `slot` drops to zero.
pub proof fn law_unequip_clears_one_slot(a: crate::game::world::World, b: crate::game::world::World, slot: EquipSlot, r: Option<String>)
    requires
        unequip_post(a, b, slot, r),
        r is Some,
    ensures
        b.hero.inventory == a.hero.inventory,
        slot == EquipSlot::Weapon ==> b.hero.equipment.weapon is None && b.hero.equipment.armor == a.hero.equipment.armor
            && b.hero.stats.attack_bonus == 0,
        slot == EquipSlot::Armor ==> b.hero.equipment.armor is None && b.hero.equipment.weapon == a.hero.equipment.weapon
            && b.hero.stats.defense_bonus == 0,
{
}

/// Taking back what was just put in the inventory undoes the put: the slot
/// `push` fills (the first empty one) gives the item back to `take`, and the
/// slots are as they were.
pub proof fn law_push_then_take_restores(s: Seq<Option<Item>>, i: int, item: Item)
    requires
        crate::components::is_first_empty(s, i),
    ensures
        s.update(i, Some(item))[i] == Some(item),
        s.update(i, Some(item)).update(i, None) == s,
{
    assert(s.update(i, Some(item)).update(i, None) =~= s);
}

/// A potion restores its own pool and nothing else: using a mana potion of
/// strength `k` raises mana to `min(mana + k, max mana)` and leaves health as
/// it was; a healing potion does the same for health and leaves mana. Either
/// way the potion is used up and the equipment and stats stay.
pub proof fn law_potion_restores_its_pool(a: crate::game::world::World, b: crate::game::world::World, idx: usize, r: Option<String>)
    requires
        crate::game::items::use_post(a, b, idx, r),
        idx < a.hero.inventory.slots@.len(),
        a.hero.inventory.slots@[idx as int] matches Some(it)
            && (it.kind == ItemKind::ManaPotion || it.kind == ItemKind::HealthPotion),
    ensures
        ({
            let it = a.hero.inventory.slots@[idx as int]->Some_0;
            let h = a.hero;
            let g = b.hero;
            &&& r is Some
            &&& g.inventory.slots@ == h.inventory.slots@.update(idx as int, None)
            &&& g.equipment == h.equipment
            &&& g.stats == h.stats
            &&& it.kind == ItemKind::ManaPotion ==> {
                &&& g.mana.current == (if h.mana.current + it.bonus < h.mana.max { h.mana.current + it.bonus } else { h.mana.max as int })
                &&& g.mana.max == h.mana.max
                &&& g.health == h.health
            }
            &&& it.kind == ItemKind::HealthPotion ==> {
                &&& g.health.current == (if h.health.current + it.bonus < h.health.max { h.health.current + it.bonus } else { h.health.max as int })
                &&& g.health.max == h.health.max
                &&& g.mana == h.mana
            }
        }),
{
}

/// Clearing away the dead credits a fallen boss: when a dead monster with
/// more than 100 max HP is among those cleared and the floor's boss was not
/// yet defeated, the boss counts as defeated, one more boss is counted for
/// the run (saturating), and unless the hero's death ends the run the log's
/// last line announces it ("<floor>층 보스 격파! '>' 내려가기."). With no dead
/// boss the flag and the count stay. Either way only the living remain.
pub proof fn law_fallen_boss_is_credited(a: App, b: App, ms: Seq<crate::game::world::Monster>, log: Seq<Seq<char>>)
    requires
        dead_cleared(a, b, ms, log),
    ensures
        (exists|i: int| 0 <= i < ms.len() && (#[trigger] ms[i]).health.current <= 0 && ms[i].health.max > 100)
            && !a.boss_defeated ==> {
                &&& b.boss_defeated
                &&& b.run_bosses_killed == (if a.run_bosses_killed == u32::MAX { u32::MAX as int } else { a.run_bosses_killed + 1 })
                &&& !(a.world.hero.health.current <= 0 && !a.game_over) ==>
                    log_of(b).last() == crate::text::decimal_text(a.floor as int) + "층 보스 격파! '>' 내려가기."@
            },
        !(exists|i: int| 0 <= i < ms.len() && (#[trigger] ms[i]).health.current <= 0 && ms[i].health.max > 100) ==> {
            &&& b.boss_defeated == a.boss_defeated
            &&& b.run_bosses_killed == a.run_bosses_killed
        },
        forall|i: int| 0 <= i < b.world.monsters@.len() ==> (#[trigger] b.world.monsters@[i]).health.current > 0,
{
    lemma_alive_only_alive(ms);
}

proof fn lemma_alive_only_alive(ms: Seq<crate::game::world::Monster>)
    ensures
        forall|i: int| 0 <= i < crate::game::app::alive_only(ms).len()
            ==> (#[trigger] crate::game::app::alive_only(ms)[i]).health.current > 0,
    decreases ms.len(),
{
    if ms.len() > 0 {
        lemma_alive_only_alive(ms.drop_last());
    }
}

} // verus!
