//! What the hero does with items: use, equip, unequip, drop, quaff and pick up.

use vstd::prelude::*;
use crate::combat::ai::in_coord_range;
use crate::components::{
    EquipSlot, Equipment, Health, Inventory, Item, ItemKind, Mana, Stats, TilePos,
    is_first_empty,
};
use crate::game::world::{
    GroundItem, Hero, World, ground_ok, item_ok, item_lies_at, item_on, slots_ok,
};
use crate::text::{append_str, decimal_text, push_char, push_decimal};

verus! {

/// The bonus of the item worn from inventory slot `o`; 0 when nothing is worn
/// there.
pub open spec fn worn_bonus(slots: Seq<Option<Item>>, o: Option<usize>) -> int {
    match o {
        Some(i) => if i < slots.len() {
            match slots[i as int] {
                Some(it) => it.bonus as int,
                None => 0,
            }
        } else {
            0
        },
        None => 0,
    }
}

/// `s` with its equipment bonuses taken from the worn weapon and armor.
pub open spec fn stats_with_gear(s: Stats, slots: Seq<Option<Item>>, eq: Equipment) -> Stats {
    Stats {
        strength: s.strength,
        dexterity: s.dexterity,
        intellect: s.intellect,
        wisdom: s.wisdom,
        constitution: s.constitution,
        attack_bonus: worn_bonus(slots, eq.weapon) as i32,
        defense_bonus: worn_bonus(slots, eq.armor) as i32,
    }
}

/// The parts of the hero that item handling never touches.
pub open spec fn hero_frame(a: Hero, b: Hero) -> bool {
    &&& b.pos == a.pos
    &&& b.look == a.look
    &&& b.viewshed == a.viewshed
    &&& b.name == a.name
    &&& b.inventory.max == a.inventory.max
}

/// A pool of `current` raised by `amount` but never above `max`.
pub open spec fn topped_up(current: int, amount: int, max: int) -> int {
    if current + amount < max { current + amount } else { max }
}

pub open spec fn hp_potion_msg(amount: int) -> Seq<char> {
    "치유 물약 사용! HP +"@ + decimal_text(amount)
}

pub open spec fn mp_potion_msg(amount: int) -> Seq<char> {
    "마나 물약 사용! MP +"@ + decimal_text(amount)
}

pub open spec fn gear_hint_msg(it: Item) -> Seq<char> {
    "장비는 (e) 키로 장착하세요. ("@ + seq![it.glyph] + it.name@ + ")"@
}

pub open spec fn coin_use_msg(amount: int) -> Seq<char> {
    decimal_text(amount) + " 골드 획득!"@
}

pub open spec fn slot_name(slot: EquipSlot) -> Seq<char> {
    match slot {
        EquipSlot::Weapon => "무기"@,
        EquipSlot::Armor => "방어구"@,
    }
}

pub open spec fn equipped_msg(slot: EquipSlot, it: Item) -> Seq<char> {
    slot_name(slot) + " ("@ + seq![it.glyph] + it.name@ + ") 장착!"@
}

pub open spec fn unequipped_msg(slot: EquipSlot) -> Seq<char> {
    slot_name(slot) + " 해제!"@
}

/// The equipment slot that takes items of `kind`.
pub open spec fn slot_for(kind: ItemKind) -> Option<EquipSlot> {
    match kind {
        ItemKind::Weapon => Some(EquipSlot::Weapon),
        ItemKind::Armor => Some(EquipSlot::Armor),
        _ => None,
    }
}

/// The inventory slot worn in `slot`.
pub open spec fn worn_in(eq: Equipment, slot: EquipSlot) -> Option<usize> {
    match slot {
        EquipSlot::Weapon => eq.weapon,
        EquipSlot::Armor => eq.armor,
    }
}

/// `eq` with `slot` set to `v`.
pub open spec fn wear(eq: Equipment, slot: EquipSlot, v: Option<usize>) -> Equipment {
    match slot {
        EquipSlot::Weapon => Equipment { weapon: v, armor: eq.armor },
        EquipSlot::Armor => Equipment { weapon: eq.weapon, armor: v },
    }
}

/// `i` is the first empty slot of `s` other than `skip`.
pub open spec fn is_first_free_except(s: Seq<Option<Item>>, skip: int, i: int) -> bool {
    &&& 0 <= i < s.len()
    &&& i != skip
    &&& s[i] is None
    &&& forall|j: int| 0 <= j < i && j != skip ==> #[trigger] s[j] is Some
}

/// Recomputes the hero's attack and defense bonuses from the worn weapon and
/// armor.
pub fn recompute_stats_from_equipment(world: &mut World)
    requires
        old(world).wf(),
    ensures
        final(world).wf(),
        final(world).monsters == old(world).monsters,
        final(world).items == old(world).items,
        hero_frame(old(world).hero, final(world).hero),
        final(world).hero.inventory == old(world).hero.inventory,
        final(world).hero.equipment == old(world).hero.equipment,
        final(world).hero.health == old(world).hero.health,
        final(world).hero.mana == old(world).hero.mana,
        final(world).hero.stats == stats_with_gear(
            old(world).hero.stats,
            old(world).hero.inventory.slots@,
            old(world).hero.equipment,
        ),
{
    let atk = bonus_of_worn(&world.hero.inventory, world.hero.equipment.weapon);
    let def = bonus_of_worn(&world.hero.inventory, world.hero.equipment.armor);
    world.hero.stats.attack_bonus = atk;
    world.hero.stats.defense_bonus = def;
}

fn bonus_of_worn(inv: &Inventory, o: Option<usize>) -> (b: i32)
    requires
        slots_ok(inv.slots@),
    ensures
        b == worn_bonus(inv.slots@, o),
        -0x4000_0000 <= b <= 0x4000_0000,
{
    match o {
        Some(i) => {
            if i < inv.slots.len() {
                match &inv.slots[i] {
                    Some(it) => it.bonus,
                    None => 0,
                }
            } else {
                0
            }
        },
        None => 0,
    }
}

/// Is there an item in slot `idx`?
fn holds_item(inv: &Inventory, idx: usize) -> (r: bool)
    ensures
        r == (idx < inv.slots@.len() && inv.slots@[idx as int] is Some),
{
    idx < inv.slots.len() && inv.slots[idx].is_some()
}

/// What `use_inventory_at(idx)` does: `a` before, `b` after, `r` returned.
pub open spec fn use_post(a: World, b: World, idx: usize, r: Option<String>) -> bool {
    let s = a.hero.inventory.slots@;
    let h = a.hero;
    let g = b.hero;
    if idx >= s.len() || s[idx as int] is None {
        r is None && b == a
    } else {
        let it = s[idx as int]->Some_0;
        &&& r is Some
        &&& b.monsters == a.monsters
        &&& b.items == a.items
        &&& hero_frame(h, g)
        &&& g.equipment == h.equipment
        &&& g.stats == h.stats
        &&& match it.kind {
            ItemKind::HealthPotion => {
                &&& g.inventory.slots@ == s.update(idx as int, None)
                &&& g.health.current == topped_up(h.health.current as int, it.bonus as int, h.health.max as int)
                &&& g.health.max == h.health.max
                &&& g.mana == h.mana
                &&& r->Some_0@ == hp_potion_msg(it.bonus as int)
            },
            ItemKind::ManaPotion => {
                &&& g.inventory.slots@ == s.update(idx as int, None)
                &&& g.mana.current == topped_up(h.mana.current as int, it.bonus as int, h.mana.max as int)
                &&& g.mana.max == h.mana.max
                &&& g.health == h.health
                &&& r->Some_0@ == mp_potion_msg(it.bonus as int)
            },
            ItemKind::Weapon | ItemKind::Armor => {
                &&& g.inventory.slots@ == s
                &&& g.health == h.health
                &&& g.mana == h.mana
                &&& r->Some_0@ == gear_hint_msg(it)
            },
            ItemKind::Coin => {
                &&& g.inventory.slots@ == s.update(idx as int, None)
                &&& g.health == h.health
                &&& g.mana == h.mana
                &&& r->Some_0@ == coin_use_msg(it.bonus as int)
            },
        }
    }
}

/// Uses the inventory item in slot `idx` and returns what happened; `None`
/// when the slot is empty or does not exist.
///
/// A healing or mana potion is consumed and raises its pool by its strength,
/// up to the pool's maximum. A weapon or armor stays where it is, and the
/// message points at the equip key. A coin is consumed.
pub fn use_inventory_at(world: &mut World, idx: usize) -> (r: Option<String>)
    requires
        old(world).wf(),
    ensures
        final(world).wf(),
        use_post(*old(world), *final(world), idx, r),
{
    if !holds_item(&world.hero.inventory, idx) {
        return None;
    }
    let kind = match &world.hero.inventory.slots[idx] {
        Some(it) => it.kind,
        None => ItemKind::Coin,
    };
    match kind {
        ItemKind::Weapon | ItemKind::Armor => {
            let mut msg = String::from_str("장비는 (e) 키로 장착하세요. (");
            match &world.hero.inventory.slots[idx] {
                Some(it) => {
                    push_char(&mut msg, it.glyph);
                    append_str(&mut msg, it.name.as_str());
                },
                None => {},
            }
            append_str(&mut msg, ")");
            assert(msg@ =~= gear_hint_msg(old(world).hero.inventory.slots@[idx as int]->Some_0));
            Some(msg)
        },
        _ => {
            let taken = world.hero.inventory.take(idx);
            let it = match taken {
                Some(it) => it,
                None => { return None; },
            };
            assert(slots_ok(world.hero.inventory.slots@)) by {
                assert forall|i: int| 0 <= i < world.hero.inventory.slots@.len() implies
                    (#[trigger] world.hero.inventory.slots@[i] matches Some(x) ==> item_ok(x)) by {
                    if i != idx {
                        assert(world.hero.inventory.slots@[i] == old(world).hero.inventory.slots@[i]);
                    }
                }
            }
            assert(item_ok(it)) by {
                assert(old(world).hero.inventory.slots@[idx as int] matches Some(x) ==> item_ok(x));
            }
            if kind == ItemKind::HealthPotion {
                let h = world.hero.health;
                let raised: i64 = h.current as i64 + it.bonus as i64;
                world.hero.health.current = if raised < h.max as i64 { raised as i32 } else { h.max };
                let mut msg = String::from_str("치유 물약 사용! HP +");
                push_decimal(&mut msg, it.bonus as i64);
                Some(msg)
            } else if kind == ItemKind::ManaPotion {
                let m = world.hero.mana;
                let raised: i64 = m.current as i64 + it.bonus as i64;
                world.hero.mana.current = if raised < m.max as i64 { raised as i32 } else { m.max };
                let mut msg = String::from_str("마나 물약 사용! MP +");
                push_decimal(&mut msg, it.bonus as i64);
                Some(msg)
            } else {
                let mut msg = String::new();
                push_decimal(&mut msg, it.bonus as i64);
                append_str(&mut msg, " 골드 획득!");
                Some(msg)
            }
        },
    }
}

/// The first empty slot other than `skip`, if any.
fn first_free_except(inv: &Inventory, skip: usize) -> (r: Option<usize>)
    ensures
        match r {
            Some(i) => is_first_free_except(inv.slots@, skip as int, i as int),
            None => forall|j: int| 0 <= j < inv.slots@.len() && j != skip ==> #[trigger] inv.slots@[j] is Some,
        },
{
    let n = inv.slots.len();
    let mut i: usize = 0;
    while i < n
        invariant
            n == inv.slots@.len(),
            i <= n,
            forall|j: int| 0 <= j < i && j != skip ==> #[trigger] inv.slots@[j] is Some,
        decreases n - i,
    {
        if i != skip && inv.slots[i].is_none() {
            return Some(i);
        }
        i = i + 1;
    }
    None
}

/// The slots after equipping slot `idx` into `slot`: the item worn there
/// before (if it is another, occupied slot) moves to the first empty slot
/// other than `idx`.
pub open spec fn slots_after_equip(s: Seq<Option<Item>>, prev: Option<usize>, idx: int, t: Seq<Option<Item>>) -> bool {
    match prev {
        Some(p) => if p != idx && p < s.len() && s[p as int] is Some {
            exists|f: int| #![trigger is_first_free_except(s.update(p as int, None), idx, f)]
                is_first_free_except(s.update(p as int, None), idx, f)
                && t == s.update(p as int, None).update(f, s[p as int])
        } else {
            t == s
        },
        None => t == s,
    }
}

/// What `equip_inventory_at(idx)` does.
pub open spec fn equip_post(a: World, b: World, idx: usize, r: Option<String>) -> bool {
    let s = a.hero.inventory.slots@;
    let h = a.hero;
    let g = b.hero;
    if idx >= s.len() || s[idx as int] is None {
        r is None && b == a
    } else {
        let it = s[idx as int]->Some_0;
        match slot_for(it.kind) {
            None => r is Some && r->Some_0@ == "장착할 수 없는 아이템"@ && b == a,
            Some(slot) => {
                let eq = wear(h.equipment, slot, Some(idx));
                &&& r is Some
                &&& r->Some_0@ == equipped_msg(slot, it)
                &&& b.monsters == a.monsters
                &&& b.items == a.items
                &&& hero_frame(h, g)
                &&& slots_after_equip(s, worn_in(h.equipment, slot), idx as int, g.inventory.slots@)
                &&& g.equipment == eq
                &&& g.stats == stats_with_gear(h.stats, g.inventory.slots@, eq)
                &&& g.health == h.health
                &&& g.mana == h.mana
            },
        }
    }
}

/// Wears the weapon or armor in slot `idx` and returns what happened; `None`
/// when the slot is empty or does not exist.
///
/// An item that is neither weapon nor armor stays and is refused. If another
/// slot was worn in the same place, its item is moved to the first empty slot
/// other than `idx` (the slot it leaves is one, so it always finds room). The
/// equipment bonuses are then recomputed.
pub fn equip_inventory_at(world: &mut World, idx: usize) -> (r: Option<String>)
    requires
        old(world).wf(),
    ensures
        final(world).wf(),
        equip_post(*old(world), *final(world), idx, r),
{
    if !holds_item(&world.hero.inventory, idx) {
        return None;
    }
    let ghost s = world.hero.inventory.slots@;
    let kind = match &world.hero.inventory.slots[idx] {
        Some(it) => it.kind,
        None => ItemKind::Coin,
    };
    let slot = match kind {
        ItemKind::Weapon => EquipSlot::Weapon,
        ItemKind::Armor => EquipSlot::Armor,
        _ => {
            return Some(String::from_str("장착할 수 없는 아이템"));
        },
    };
    let prev = match slot {
        EquipSlot::Weapon => world.hero.equipment.weapon,
        EquipSlot::Armor => world.hero.equipment.armor,
    };
    match prev {
        Some(p) => {
            if p != idx && holds_item(&world.hero.inventory, p) {
                let moved = world.hero.inventory.take(p);
                let ghost t = world.hero.inventory.slots@;
                assert(t == s.update(p as int, None));
                match first_free_except(&world.hero.inventory, idx) {
                    Some(f) => {
                        match moved {
                            Some(m) => {
                                world.hero.inventory.slots.set(f, Some(m));
                            },
                            None => {},
                        }
                        assert(is_first_free_except(s.update(p as int, None), idx as int, f as int));
                    },
                    None => {
                        assert(t[p as int] is None);
                        assert(false);
                    },
                }
                assert(slots_ok(world.hero.inventory.slots@)) by {
                    assert forall|i: int| 0 <= i < world.hero.inventory.slots@.len() implies
                        (#[trigger] world.hero.inventory.slots@[i] matches Some(x) ==> item_ok(x)) by {
                        assert(s[i] matches Some(x) ==> item_ok(x));
                        assert(s[p as int] matches Some(x) ==> item_ok(x));
                    }
                }
            }
        },
        None => {},
    }
    match slot {
        EquipSlot::Weapon => { world.hero.equipment.weapon = Some(idx); },
        EquipSlot::Armor => { world.hero.equipment.armor = Some(idx); },
    }
    recompute_stats_from_equipment(world);
    let mut msg = match slot {
        EquipSlot::Weapon => String::from_str("무기"),
        EquipSlot::Armor => String::from_str("방어구"),
    };
    append_str(&mut msg, " (");
    match &world.hero.inventory.slots[idx] {
        Some(it) => {
            push_char(&mut msg, it.glyph);
            append_str(&mut msg, it.name.as_str());
        },
        None => {},
    }
    append_str(&mut msg, ") 장착!");
    assert(msg@ =~= equipped_msg(slot, s[idx as int]->Some_0));
    Some(msg)
}

/// What `unequip_slot(slot)` does.
pub open spec fn unequip_post(a: World, b: World, slot: EquipSlot, r: Option<String>) -> bool {
    let s = a.hero.inventory.slots@;
    let h = a.hero;
    let g = b.hero;
    match worn_in(h.equipment, slot) {
        Some(i) => if i < s.len() && s[i as int] is Some {
            let eq = wear(h.equipment, slot, None);
            &&& r is Some
            &&& r->Some_0@ == unequipped_msg(slot)
            &&& b.monsters == a.monsters
            &&& b.items == a.items
            &&& hero_frame(h, g)
            &&& g.inventory == h.inventory
            &&& g.equipment == eq
            &&& g.stats == stats_with_gear(h.stats, s, eq)
            &&& g.health == h.health
            &&& g.mana == h.mana
        } else {
            r is None && b == a
        },
        None => r is None && b == a,
    }
}

/// Takes off whatever is worn in `slot`; the item stays in its inventory slot.
/// `None` when nothing (or an empty slot) is worn there.
pub fn unequip_slot(world: &mut World, slot: EquipSlot) -> (r: Option<String>)
    requires
        old(world).wf(),
    ensures
        final(world).wf(),
        unequip_post(*old(world), *final(world), slot, r),
{
    let worn = match slot {
        EquipSlot::Weapon => world.hero.equipment.weapon,
        EquipSlot::Armor => world.hero.equipment.armor,
    };
    let idx = match worn {
        Some(i) => i,
        None => { return None; },
    };
    if !holds_item(&world.hero.inventory, idx) {
        return None;
    }
    match slot {
        EquipSlot::Weapon => { world.hero.equipment.weapon = None; },
        EquipSlot::Armor => { world.hero.equipment.armor = None; },
    }
    recompute_stats_from_equipment(world);
    let mut msg = match slot {
        EquipSlot::Weapon => String::from_str("무기"),
        EquipSlot::Armor => String::from_str("방어구"),
    };
    append_str(&mut msg, " 해제!");
    Some(msg)
}

/// The equipment slot wearing inventory slot `idx` (weapon first).
pub open spec fn wearing_slot(eq: Equipment, idx: usize) -> Option<EquipSlot> {
    if eq.weapon == Some(idx) {
        Some(EquipSlot::Weapon)
    } else if eq.armor == Some(idx) {
        Some(EquipSlot::Armor)
    } else {
        None
    }
}

/// What `toggle_equip_at(idx)` does: take off the item in slot `idx` if it is
/// worn, else wear it.
pub open spec fn toggle_post(a: World, b: World, idx: usize, r: Option<String>) -> bool {
    match wearing_slot(a.hero.equipment, idx) {
        Some(slot) => unequip_post(a, b, slot, r),
        None => equip_post(a, b, idx, r),
    }
}

/// Takes off the item in slot `idx` if it is worn, else wears it.
pub fn toggle_equip_at(world: &mut World, idx: usize) -> (r: Option<String>)
    requires
        old(world).wf(),
    ensures
        final(world).wf(),
        toggle_post(*old(world), *final(world), idx, r),
{
    match world.hero.equipment.slot_of(idx) {
        Some(slot) => unequip_slot(world, slot),
        None => equip_inventory_at(world, idx),
    }
}

/// What `drop_inventory_at(idx)` does.
pub open spec fn drop_post(a: World, b: World, idx: usize, r: Option<String>) -> bool {
    let s = a.hero.inventory.slots@;
    if idx >= s.len() || s[idx as int] is None {
        r is None && b == a
    } else if item_on(a.items@, a.hero.pos) {
        r is Some && r->Some_0@ == "이 타일에는 이미 다른 아이템이 있습니다."@ && b == a
    } else {
        &&& r is Some
        &&& r->Some_0@ == "아이템을 바닥에 내려놓았습니다."@
        &&& b.monsters == a.monsters
        &&& b.items@ == a.items@.push(GroundItem { pos: a.hero.pos, item: s[idx as int]->Some_0 })
        &&& hero_frame(a.hero, b.hero)
        &&& b.hero.inventory.slots@ == s.update(idx as int, None)
        &&& b.hero.equipment == a.hero.equipment
        &&& b.hero.stats == a.hero.stats
        &&& b.hero.health == a.hero.health
        &&& b.hero.mana == a.hero.mana
    }
}

/// Drops the item in slot `idx` on the hero's tile, unless an item already
/// lies there (then it stays in the inventory). `None` when the slot is empty.
pub fn drop_inventory_at(world: &mut World, idx: usize) -> (r: Option<String>)
    requires
        old(world).wf(),
    ensures
        final(world).wf(),
        drop_post(*old(world), *final(world), idx, r),
{
    if !holds_item(&world.hero.inventory, idx) {
        return None;
    }
    let pos = world.hero.pos;
    if item_lies_at(&world.items, pos) {
        return Some(String::from_str("이 타일에는 이미 다른 아이템이 있습니다."));
    }
    let ghost s = world.hero.inventory.slots@;
    let taken = world.hero.inventory.take(idx);
    match taken {
        Some(it) => {
            assert(item_ok(it)) by {
                assert(s[idx as int] matches Some(x) ==> item_ok(x));
            }
            world.items.push(GroundItem { pos, item: it });
        },
        None => {},
    }
    assert(slots_ok(world.hero.inventory.slots@)) by {
        assert forall|i: int| 0 <= i < world.hero.inventory.slots@.len() implies
            (#[trigger] world.hero.inventory.slots@[i] matches Some(x) ==> item_ok(x)) by {
            assert(s[i] matches Some(x) ==> item_ok(x));
        }
    }
    assert forall|i: int| 0 <= i < world.items@.len() implies ground_ok(#[trigger] world.items@[i]) by {
        if i < old(world).items@.len() {
            assert(world.items@[i] == old(world).items@[i]);
        }
    }
    Some(String::from_str("아이템을 바닥에 내려놓았습니다."))
}

/// Slot `j` holds a healing or mana potion.
pub open spec fn holds_potion(s: Seq<Option<Item>>, j: int) -> bool {
    s[j] matches Some(it) && (it.kind == ItemKind::HealthPotion || it.kind == ItemKind::ManaPotion)
}

/// `i` is the first slot holding a potion.
pub open spec fn is_first_potion(s: Seq<Option<Item>>, i: int) -> bool {
    &&& 0 <= i < s.len()
    &&& holds_potion(s, i)
    &&& forall|j: int| 0 <= j < i ==> !#[trigger] holds_potion(s, j)
}

/// What `use_first_potion` does: with no potion, nothing (`None`);
/// otherwise what using the first one does.
pub open spec fn quaffed(a: World, b: World, r: Option<String>) -> bool {
    &&& (forall|j: int| 0 <= j < a.hero.inventory.slots@.len() ==> !#[trigger] holds_potion(a.hero.inventory.slots@, j))
        ==> (r is None && b == a)
    &&& forall|i: int| #[trigger] is_first_potion(a.hero.inventory.slots@, i) ==> use_post(a, b, i as usize, r)
}

/// Drinks the first potion of the inventory; `None` when there is none.
pub fn use_first_potion(world: &mut World) -> (r: Option<String>)
    requires
        old(world).wf(),
    ensures
        final(world).wf(),
        quaffed(*old(world), *final(world), r),
        hero_frame(old(world).hero, final(world).hero),
{
    let n = world.hero.inventory.slots.len();
    let mut i: usize = 0;
    while i < n
        invariant
            n == world.hero.inventory.slots@.len(),
            i <= n,
            *world == *old(world),
            world.wf(),
            forall|j: int| 0 <= j < i ==> !#[trigger] holds_potion(world.hero.inventory.slots@, j),
        decreases n - i,
    {
        let found = match &world.hero.inventory.slots[i] {
            Some(it) => it.kind == ItemKind::HealthPotion || it.kind == ItemKind::ManaPotion,
            None => false,
        };
        if found {
            assert(is_first_potion(world.hero.inventory.slots@, i as int));
            assert forall|k: int| #[trigger] is_first_potion(old(world).hero.inventory.slots@, k) implies k == i by {
                if k < i {
                    assert(!holds_potion(world.hero.inventory.slots@, k));
                } else if k > i {
                    assert(holds_potion(world.hero.inventory.slots@, i as int));
                }
            }
            return use_inventory_at(world, i);
        }
        i = i + 1;
    }
    None
}

/// Distinguishes "no item here" from "inventory full" so the caller can show
/// a useful message either way.
#[derive(Copy, Clone, Debug, PartialEq, Eq, Structural)]
pub enum PickupOutcome {
    /// Nothing on the ground within reach.
    NoItem,
    /// At least one item was picked up, and nothing was left for want of room.
    Picked,
    /// Some item within reach stayed on the ground: the inventory is full.
    InventoryFull,
}

/// The first empty slot, if any.
pub open spec fn free_slot(s: Seq<Option<Item>>) -> Option<int> {
    if exists|i: int| is_first_empty(s, i) {
        Some(choose|i: int| is_first_empty(s, i))
    } else {
        None
    }
}

/// Tiles reached by a pickup around `c`: `c` itself when `own`, else its four
/// cardinal neighbours.
pub open spec fn within_reach(c: TilePos, p: TilePos, own: bool) -> bool {
    if own {
        p == c
    } else {
        (p.1 == c.1 && (p.0 == c.0 - 1 || p.0 == c.0 + 1)) || (p.0 == c.0 && (p.1 == c.1 - 1 || p.1 == c.1 + 1))
    }
}

/// Gold a coin is worth.
pub open spec fn coin_value(it: Item) -> int {
    if it.bonus > 0 { it.bonus as int } else { 0 }
}

/// `a + b`, saturating at `u32::MAX`.
pub open spec fn sat_add_u32(a: int, b: int) -> int {
    if a + b > u32::MAX { u32::MAX as int } else { a + b }
}

/// One pickup pass over the ground items, in order: every item within reach
/// is taken, a coin into the wallet, anything else into the first empty
/// slot; an item that finds no empty slot stays and marks the inventory full.
/// Returns the items left on the ground, the slots, the gold, whether
/// anything was taken and whether something was left for want of room.
pub open spec fn pick_pass(
    items: Seq<GroundItem>,
    c: TilePos,
    own: bool,
    slots: Seq<Option<Item>>,
    gold: int,
    took: bool,
    full: bool,
) -> (Seq<GroundItem>, Seq<Option<Item>>, int, bool, bool)
    decreases items.len(),
{
    if items.len() == 0 {
        (Seq::empty(), slots, gold, took, full)
    } else {
        let g = items[0];
        let rest = items.skip(1);
        if !within_reach(c, g.pos, own) {
            let r = pick_pass(rest, c, own, slots, gold, took, full);
            (seq![g] + r.0, r.1, r.2, r.3, r.4)
        } else if g.item.kind == ItemKind::Coin {
            pick_pass(rest, c, own, slots, sat_add_u32(gold, coin_value(g.item)), true, full)
        } else {
            match free_slot(slots) {
                Some(i) => pick_pass(rest, c, own, slots.update(i, Some(g.item)), gold, true, full),
                None => {
                    let r = pick_pass(rest, c, own, slots, gold, took, true);
                    (seq![g] + r.0, r.1, r.2, r.3, r.4)
                },
            }
        }
    }
}

/// The pickup around `c` when everything fits (see `pickup_of`): first the
/// hero's own tile, then its four cardinal neighbours.
pub open spec fn pickup_result(items: Seq<GroundItem>, c: TilePos, slots: Seq<Option<Item>>, gold: int)
    -> (Seq<GroundItem>, Seq<Option<Item>>, int, bool, bool)
{
    let p1 = pick_pass(items, c, true, slots, gold, false, false);
    pick_pass(p1.0, c, false, p1.1, p1.2, p1.3, p1.4)
}

pub open spec fn outcome_of(took: bool, full: bool) -> PickupOutcome {
    if full {
        PickupOutcome::InventoryFull
    } else if took {
        PickupOutcome::Picked
    } else {
        PickupOutcome::NoItem
    }
}

/// `p` is within the hero's reach from `c`: its own tile or one of the four
/// next to it.
pub open spec fn in_reach(c: TilePos, p: TilePos) -> bool {
    within_reach(c, p, true) || within_reach(c, p, false)
}

/// `g` is an item other than a coin lying within reach of `c`.
pub open spec fn reach_item(c: TilePos) -> spec_fn(GroundItem) -> bool {
    |g: GroundItem| in_reach(c, g.pos) && g.item.kind != ItemKind::Coin
}

/// `g` is not a coin within reach of `c` (it stays when only coins are taken).
pub open spec fn not_reach_coin(c: TilePos) -> spec_fn(GroundItem) -> bool {
    |g: GroundItem| !(in_reach(c, g.pos) && g.item.kind == ItemKind::Coin)
}

/// The empty slots.
pub open spec fn empty_slot() -> spec_fn(Option<Item>) -> bool {
    |o: Option<Item>| o is None
}

/// How many items other than coins lie within reach of `c`.
pub open spec fn wanted_count(items: Seq<GroundItem>, c: TilePos) -> nat {
    items.filter(reach_item(c)).len()
}

/// How many slots are empty.
pub open spec fn free_count(slots: Seq<Option<Item>>) -> nat {
    slots.filter(empty_slot()).len()
}

/// `gold` plus the coins lying within reach of `c`, in order, saturating.
pub open spec fn reach_gold(items: Seq<GroundItem>, c: TilePos, gold: int) -> int
    decreases items.len(),
{
    if items.len() == 0 {
        gold
    } else {
        let g0 = reach_gold(items.drop_last(), c, gold);
        if !not_reach_coin(c)(items.last()) {
            sat_add_u32(g0, coin_value(items.last().item))
        } else {
            g0
        }
    }
}

/// The whole pickup: the ground left, the slots, the wallet and the outcome.
/// Items other than coins come all or nothing: when they fit in the empty
/// slots they are all taken (see `pickup_result`); otherwise none is, the
/// inventory is untouched and only the coins within reach go to the wallet
/// (`InventoryFull`): gold never takes a slot, so a full inventory does not
/// stop it.
pub open spec fn pickup_of(items: Seq<GroundItem>, c: TilePos, slots: Seq<Option<Item>>, gold: int)
    -> (Seq<GroundItem>, Seq<Option<Item>>, int, PickupOutcome)
{
    if wanted_count(items, c) <= free_count(slots) {
        let r = pickup_result(items, c, slots, gold);
        (r.0, r.1, r.2, outcome_of(r.3, r.4))
    } else {
        (items.filter(not_reach_coin(c)), slots, reach_gold(items, c, gold), PickupOutcome::InventoryFull)
    }
}

/// What `pick_up_outcome` does, `ga`/`gb` being the wallet before and after.
pub open spec fn pickup_post(a: World, b: World, ga: u32, gb: u32, r: PickupOutcome) -> bool {
    let res = pickup_of(a.items@, a.hero.pos, a.hero.inventory.slots@, ga as int);
    &&& b.items@ == res.0
    &&& b.hero.inventory.slots@ == res.1
    &&& gb == res.2
    &&& r == res.3
    &&& b.monsters == a.monsters
    &&& hero_frame(a.hero, b.hero)
    &&& b.hero.equipment == a.hero.equipment
    &&& b.hero.stats == a.hero.stats
    &&& b.hero.health == a.hero.health
    &&& b.hero.mana == a.hero.mana
}

pub(crate) proof fn lemma_free_slot(s: Seq<Option<Item>>, i: int)
    requires
        is_first_empty(s, i),
    ensures
        free_slot(s) == Some(i),
{
    let k = choose|k: int| is_first_empty(s, k);
    assert(is_first_empty(s, k));
    if k < i {
        assert(s[k] is Some);
    } else if k > i {
        assert(s[i] is Some);
    }
}

pub(crate) proof fn lemma_no_free_slot(s: Seq<Option<Item>>)
    requires
        forall|j: int| 0 <= j < s.len() ==> #[trigger] s[j] is Some,
    ensures
        free_slot(s) is None,
{
    assert forall|i: int| !is_first_empty(s, i) by {
        if 0 <= i < s.len() {
            assert(s[i] is Some);
        }
    }
}

fn reaches(c: TilePos, p: TilePos, own: bool) -> (r: bool)
    requires
        in_coord_range(c),
    ensures
        r == within_reach(c, p, own),
{
    if own {
        p == c
    } else {
        (p.1 == c.1 && (p.0 == c.0 - 1 || p.0 == c.0 + 1)) || (p.0 == c.0 && (p.1 == c.1 - 1 || p.1 == c.1 + 1))
    }
}

/// One pickup pass (see `pick_pass`) applied to the world and the wallet.
fn pickup_pass(world: &mut World, own: bool, gold: &mut u32, took: &mut bool, full: &mut bool)
    requires
        old(world).wf(),
    ensures
        final(world).wf(),
        ({
            let res = pick_pass(old(world).items@, old(world).hero.pos, own, old(world).hero.inventory.slots@,
                *old(gold) as int, *old(took), *old(full));
            &&& final(world).items@ == res.0
            &&& final(world).hero.inventory.slots@ == res.1
            &&& *final(gold) == res.2
            &&& *final(took) == res.3
            &&& *final(full) == res.4
        }),
        final(world).monsters == old(world).monsters,
        hero_frame(old(world).hero, final(world).hero),
        final(world).hero.equipment == old(world).hero.equipment,
        final(world).hero.stats == old(world).hero.stats,
        final(world).hero.health == old(world).hero.health,
        final(world).hero.mana == old(world).hero.mana,
{
    let c = world.hero.pos;
    let ghost target = pick_pass(old(world).items@, c, own, old(world).hero.inventory.slots@,
        *old(gold) as int, *old(took), *old(full));
    let mut src: Vec<GroundItem> = Vec::new();
    std::mem::swap(&mut src, &mut world.items);
    let mut kept: Vec<GroundItem> = Vec::new();
    while src.len() > 0
        invariant
            world.hero.wf(),
            world.monsters == old(world).monsters,
            forall|i: int| 0 <= i < world.monsters@.len() ==> crate::game::world::monster_ok(#[trigger] world.monsters@[i]),
            world.hero.pos == c,
            hero_frame(old(world).hero, world.hero),
            world.hero.equipment == old(world).hero.equipment,
            world.hero.stats == old(world).hero.stats,
            world.hero.health == old(world).hero.health,
            world.hero.mana == old(world).hero.mana,
            forall|i: int| 0 <= i < src@.len() ==> ground_ok(#[trigger] src@[i]),
            forall|i: int| 0 <= i < kept@.len() ==> ground_ok(#[trigger] kept@[i]),
            ({
                let r = pick_pass(src@, c, own, world.hero.inventory.slots@, *gold as int, *took, *full);
                target == (kept@ + r.0, r.1, r.2, r.3, r.4)
            }),
        decreases src@.len(),
    {
        let ghost before = src@;
        let g = src.remove(0);
        assert(before.skip(1) =~= src@);
        assert(ground_ok(before[0]));
        if !reaches(c, g.pos, own) {
            kept.push(g);
            assert(forall|i: int| 0 <= i < kept@.len() ==> ground_ok(#[trigger] kept@[i]));
        } else if g.item.kind == ItemKind::Coin {
            let v: u32 = if g.item.bonus > 0 { g.item.bonus as u32 } else { 0 };
            *gold = gold.saturating_add(v);
            *took = true;
        } else {
            let ghost slots = world.hero.inventory.slots@;
            match first_free_except(&world.hero.inventory, usize::MAX) {
                Some(i) => {
                    proof {
                        assert(is_first_empty(slots, i as int)) by {
                            assert forall|j: int| 0 <= j < i implies #[trigger] slots[j] is Some by {
                                assert(j != usize::MAX);
                            }
                        }
                        lemma_free_slot(slots, i as int);
                    }
                    world.hero.inventory.slots.set(i, Some(g.item));
                    *took = true;
                    assert(slots_ok(world.hero.inventory.slots@)) by {
                        assert forall|k: int| 0 <= k < world.hero.inventory.slots@.len() implies
                            (#[trigger] world.hero.inventory.slots@[k] matches Some(x) ==> item_ok(x)) by {
                            assert(slots[k] matches Some(x) ==> item_ok(x));
                        }
                    }
                },
                None => {
                    proof {
                        assert forall|j: int| 0 <= j < slots.len() implies #[trigger] slots[j] is Some by {
                            assert(j != usize::MAX);
                        }
                        lemma_no_free_slot(slots);
                    }
                    kept.push(g);
                    *full = true;
                    assert(forall|i: int| 0 <= i < kept@.len() ==> ground_ok(#[trigger] kept@[i]));
                },
            }
        }
        proof {
            let r = pick_pass(src@, c, own, world.hero.inventory.slots@, *gold as int, *took, *full);
            assert(target.0 =~= kept@ + r.0);
        }
    }
    proof {
        let r = pick_pass(src@, c, own, world.hero.inventory.slots@, *gold as int, *took, *full);
        assert(kept@ + r.0 =~= kept@);
    }
    world.items = kept;
}

fn count_wanted(items: &Vec<GroundItem>, c: TilePos) -> (n: usize)
    requires
        in_coord_range(c),
    ensures
        n == wanted_count(items@, c),
{
    let len = items.len();
    let mut n: usize = 0;
    let mut i: usize = 0;
    while i < len
        invariant
            len == items@.len(),
            in_coord_range(c),
            i <= len,
            n == items@.take(i as int).filter(reach_item(c)).len(),
            n <= i,
        decreases len - i,
    {
        proof {
            assert(items@.take(i + 1) =~= items@.take(i as int).push(items@[i as int]));
            items@.take(i as int).lemma_filter_push(items@[i as int], reach_item(c));
        }
        let g = &items[i];
        let near = reaches(c, g.pos, true) || reaches(c, g.pos, false);
        if near && g.item.kind != ItemKind::Coin {
            n = n + 1;
        }
        i = i + 1;
    }
    assert(items@.take(len as int) =~= items@);
    n
}

fn count_free(slots: &Vec<Option<Item>>) -> (n: usize)
    ensures
        n == free_count(slots@),
{
    let len = slots.len();
    let mut n: usize = 0;
    let mut i: usize = 0;
    while i < len
        invariant
            len == slots@.len(),
            i <= len,
            n == slots@.take(i as int).filter(empty_slot()).len(),
            n <= i,
        decreases len - i,
    {
        proof {
            assert(slots@.take(i + 1) =~= slots@.take(i as int).push(slots@[i as int]));
            slots@.take(i as int).lemma_filter_push(slots@[i as int], empty_slot());
        }
        if slots[i].is_none() {
            n = n + 1;
        }
        i = i + 1;
    }
    assert(slots@.take(len as int) =~= slots@);
    n
}

/// Takes only the coins within reach into the wallet, leaving everything
/// else on the ground in order.
fn coin_pass(world: &mut World, gold: &mut u32)
    requires
        old(world).wf(),
    ensures
        final(world).wf(),
        final(world).items@ == old(world).items@.filter(not_reach_coin(old(world).hero.pos)),
        *final(gold) == reach_gold(old(world).items@, old(world).hero.pos, *old(gold) as int),
        final(world).hero == old(world).hero,
        final(world).monsters == old(world).monsters,
{
    let c = world.hero.pos;
    let ghost all = old(world).items@;
    let ghost g0 = *old(gold) as int;
    let mut src: Vec<GroundItem> = Vec::new();
    std::mem::swap(&mut src, &mut world.items);
    let mut kept: Vec<GroundItem> = Vec::new();
    while src.len() > 0
        invariant
            world.hero == old(world).hero,
            world.monsters == old(world).monsters,
            c == world.hero.pos,
            in_coord_range(c),
            all.len() >= src@.len(),
            src@ == all.skip(all.len() - src@.len()),
            kept@ == all.take(all.len() - src@.len()).filter(not_reach_coin(c)),
            *gold == reach_gold(all.take(all.len() - src@.len()), c, g0),
            forall|i: int| 0 <= i < all.len() ==> ground_ok(#[trigger] all[i]),
            forall|i: int| 0 <= i < kept@.len() ==> ground_ok(#[trigger] kept@[i]),
        decreases src@.len(),
    {
        let ghost k = all.len() - src@.len();
        let ghost before = src@;
        let g = src.remove(0);
        proof {
            assert(before[0] == all[k]);
            assert(src@ =~= all.skip(k + 1));
            assert(all.take(k + 1) =~= all.take(k).push(all[k]));
            all.take(k).lemma_filter_push(all[k], not_reach_coin(c));
            assert(all.take(k + 1).drop_last() =~= all.take(k));
        }
        let near = reaches(c, g.pos, true) || reaches(c, g.pos, false);
        if near && g.item.kind == ItemKind::Coin {
            let v: u32 = if g.item.bonus > 0 { g.item.bonus as u32 } else { 0 };
            *gold = gold.saturating_add(v);
        } else {
            kept.push(g);
            proof {
                assert forall|i: int| 0 <= i < kept@.len() implies ground_ok(#[trigger] kept@[i]) by {
                    if i == kept@.len() - 1 {
                        assert(kept@[i] == all[k]);
                    } else {
                        assert(ground_ok(all.take(k).filter(not_reach_coin(c))[i]));
                    }
                }
            }
        }
    }
    proof {
        assert(all.take(all.len() as int) =~= all);
    }
    world.items = kept;
}

/// Picks up what lies on the hero's tile and then on its four cardinal
/// neighbours (see `pickup_of`). Coins go straight into the wallet `gold`
/// (saturating). Other items come all or nothing: when they do not all fit
/// in the empty slots, none is taken, the inventory and those items are left
/// as they were, and only the coins are collected (`InventoryFull`).
///
/// Coins are taken even then because gold never occupies a slot: it goes to
/// the wallet, which a full inventory does not limit, and the message after
/// such a pickup reports the gold taken beside the full inventory ("골드는 +N
/// 챙겼지만 인벤토리가 가득 찼습니다.").
pub fn pick_up_outcome(world: &mut World, gold: &mut u32) -> (r: PickupOutcome)
    requires
        old(world).wf(),
    ensures
        final(world).wf(),
        pickup_post(*old(world), *final(world), *old(gold), *final(gold), r),
{
    let want = count_wanted(&world.items, world.hero.pos);
    let free = count_free(&world.hero.inventory.slots);
    if want > free {
        coin_pass(world, gold);
        return PickupOutcome::InventoryFull;
    }
    let mut took = false;
    let mut full = false;
    pickup_pass(world, true, gold, &mut took, &mut full);
    pickup_pass(world, false, gold, &mut took, &mut full);
    if full {
        PickupOutcome::InventoryFull
    } else if took {
        PickupOutcome::Picked
    } else {
        PickupOutcome::NoItem
    }
}

/// Picks up what lies within reach; `true` when that succeeded in full.
pub fn try_pickup(world: &mut World, gold: &mut u32) -> (r: bool)
    requires
        old(world).wf(),
    ensures
        final(world).wf(),
        exists|o: PickupOutcome| pickup_post(*old(world), *final(world), *old(gold), *final(gold), o)
            && r == (o == PickupOutcome::Picked),
{
    let o = pick_up_outcome(world, gold);
    o == PickupOutcome::Picked
}

} // verus!
