//! What each key does: in the inventory, at the stairs prompt, after death,
//! and during play.

use vstd::prelude::*;
use crate::components::{Item, ItemKind, TilePos, is_first_empty, kind_glyph, kind_rgb};
use crate::game::app::{
    App, ModalMode, just_logged, log_of, logged, same_but_world_log, sight_updated,
};
use crate::game::items::{
    drop_inventory_at, drop_post, free_slot, quaffed, toggle_equip_at, toggle_post,
    use_first_potion, use_inventory_at, use_post,
};
use crate::game::keys::{KeyCode, KeyPress, direction_of, key_label, key_name, key_to_direction};
use crate::game::turn::{Turn, descended, hero_at, picked_up, player_acted};
use crate::game::world::{World, slots_ok, item_ok};
use crate::i18n::{Key, Locale, t_for, text_of};
use crate::meta::SoulRemembrance;
use crate::text::{append_str, decimal_text, push_decimal};

verus! {

/// `b` is `a` after an item action that changed the world and returned `r`,
/// logged when there is a message.
pub open spec fn item_action_logged(a: App, b: App, r: Option<String>) -> bool {
    &&& same_but_world_log(a, b)
    &&& log_of(b) == match r {
        Some(m) => logged(log_of(a), m@),
        None => log_of(a),
    }
}

/// `b` is `a` with the modal set to `m`.
pub open spec fn with_modal(a: App, m: ModalMode) -> App {
    App { modal: m, ..a }
}

/// What a key does while the inventory is open, with the cursor on slot
/// `cursor`: `j`/Down and `k`/Up move the cursor (wrapping), `e` wears or
/// takes off, `u` uses, `d`/`x` drops, Enter wears or takes off gear and uses
/// anything else (an empty slot is only named), and Esc, `i`, `I` or `q`
/// close the inventory.
pub open spec fn inventory_keyed(a: App, b: App, code: KeyCode, cursor: usize) -> bool {
    let n = a.world.hero.inventory.max as int;
    let s = a.world.hero.inventory.slots@;
    match code {
        KeyCode::Char('j') | KeyCode::Down => b == with_modal(a, ModalMode::Inventory { cursor: ((cursor + 1) % n) as usize }),
        KeyCode::Char('k') | KeyCode::Up => b == with_modal(a, ModalMode::Inventory { cursor: ((cursor - 1) % n) as usize }),
        KeyCode::Char('e') => exists|r: Option<String>|
            #[trigger] toggle_post(a.world, b.world, cursor, r) && item_action_logged(a, b, r),
        KeyCode::Char('u') => exists|r: Option<String>|
            #[trigger] use_post(a.world, b.world, cursor, r) && item_action_logged(a, b, r),
        KeyCode::Char('d') | KeyCode::Char('x') => exists|r: Option<String>|
            #[trigger] drop_post(a.world, b.world, cursor, r) && item_action_logged(a, b, r),
        KeyCode::Enter => match s[cursor as int] {
            Some(it) => if it.kind == ItemKind::Weapon || it.kind == ItemKind::Armor {
                exists|r: Option<String>| #[trigger] toggle_post(a.world, b.world, cursor, r) && item_action_logged(a, b, r)
            } else {
                exists|r: Option<String>| #[trigger] use_post(a.world, b.world, cursor, r) && item_action_logged(a, b, r)
            },
            None => just_logged(a, b, "빈 슬롯입니다."@),
        },
        KeyCode::Esc | KeyCode::Char('i') | KeyCode::Char('I') | KeyCode::Char('q') => b == with_modal(a, ModalMode::Closed),
        _ => b == a,
    }
}

/// Keys that quit.
pub open spec fn is_quit(code: KeyCode) -> bool {
    code == KeyCode::Char('q') || code == KeyCode::Char('Q') || code == KeyCode::Esc
}

/// `b` is a new run from floor 1 of `a`'s seed, keeping the remembrance and
/// the locale, with an empty wallet.
pub open spec fn restarted(a: App, b: App) -> bool {
    crate::game::app::fresh_floor(b, a.seed, 1, a.remembrance, a.locale, 0)
}

/// The stairs prompt turned down: the modal closes and the log says so.
pub open spec fn stairs_cancelled(a: App, b: App) -> bool {
    &&& same_but_world_log(App { modal: ModalMode::Closed, at_stairs: false, ..a }, b)
    &&& b.world == a.world
    &&& log_of(b) == logged(log_of(a), text_of(Key::MsgStairCancel, a.locale))
}

/// The stairs prompt accepted: descend (see `descended`); the prompt closes
/// only when a new floor started.
pub open spec fn stairs_confirmed(a: App, b: App) -> bool {
    exists|mid: App, r: bool| {
        &&& #[trigger] descended(a, mid, r)
        &&& if r { b == App { modal: ModalMode::Closed, at_stairs: false, ..mid } } else { b == mid }
    }
}

/// What a key does at the stairs prompt (after the key was logged): `y`
/// descends, `n` or Esc cancels, Down/`j` and Up/`k` select "no" and "yes",
/// Tab flips the selection, and Enter acts on it.
pub open spec fn stairs_keyed(a: App, b: App, code: KeyCode, choice: bool) -> bool {
    match code {
        KeyCode::Char('y') | KeyCode::Char('Y') => stairs_confirmed(a, b),
        KeyCode::Char('n') | KeyCode::Char('N') | KeyCode::Esc => stairs_cancelled(a, b),
        KeyCode::Down | KeyCode::Char('j') => b == with_modal(a, ModalMode::ConfirmStairs { choice: false }),
        KeyCode::Up | KeyCode::Char('k') => b == with_modal(a, ModalMode::ConfirmStairs { choice: true }),
        KeyCode::Tab => b == with_modal(a, ModalMode::ConfirmStairs { choice: !choice }),
        KeyCode::Enter => if choice { stairs_confirmed(a, b) } else { stairs_cancelled(a, b) },
        _ => b == a,
    }
}

/// A key reaching the stairs prompt is logged by name, and the prompt no
/// longer needs forced redraws.
pub open spec fn key_noted(a: App, b: App, code: KeyCode) -> bool {
    &&& same_but_world_log(App { modal_redraws: 0, ..a }, b)
    &&& b.world == a.world
    &&& log_of(b) == logged(log_of(a), "[modal] key="@ + key_label(code))
}

pub open spec fn save_msg(r: SoulRemembrance) -> Seq<char> {
    "영혼 기억 저장: "@ + decimal_text(r.clears as int) + " 회 클리어, "@ + decimal_text(r.champion_count as int) + " 챔피언 영혼"@
}

pub open spec fn other_locale(l: Locale) -> Locale {
    match l {
        Locale::Korean => Locale::English,
        Locale::English => Locale::Korean,
    }
}

pub open spec fn locale_msg(l: Locale) -> Seq<char> {
    match l {
        Locale::Korean => "언어: 한국어"@,
        Locale::English => "Locale: English"@,
    }
}

/// The three help lines.
pub open spec fn help_logged(log: Seq<Seq<char>>) -> Seq<Seq<char>> {
    logged(logged(logged(log, "h/j/k/l 이동 | yubn 대각 | 화살표 이동"@),
        "g 줍기 | i 인벤토리 | p 포션 | R 새 게임 | q 종료"@), "S 영혼 저장 | L 언어 토글 | ? 도움말"@)
}

/// The debug warp: the hero jumps onto the stairs, looks around, and is asked
/// whether to descend; nothing happens on a floor without stairs.
pub open spec fn warped(a: App, b: App) -> bool {
    match a.dungeon.stairs {
        Some(s) => exists|m2: App| {
            &&& #[trigger] sight_updated(hero_at(a, s), m2)
            &&& same_but_world_log(App { modal: ModalMode::ConfirmStairs { choice: true }, modal_redraws: 4, at_stairs: true, ..m2 }, b)
            &&& b.world == m2.world
            &&& log_of(b) == logged(log_of(m2), "▼ — 내려갈까? (y/n) [debug warp]"@)
        },
        None => b == a,
    }
}

/// The hero's memory of the map is wiped; nothing else changes.
pub open spec fn memory_cleared(a: App, b: App) -> bool {
    let h = a.world.hero;
    let g = b.world.hero;
    &&& same_but_world_log(a, b)
    &&& b.messages == a.messages
    &&& b.world.monsters == a.world.monsters
    &&& b.world.items == a.world.items
    &&& g.pos == h.pos && g.look == h.look && g.health == h.health && g.mana == h.mana
    &&& g.stats == h.stats && g.inventory == h.inventory && g.equipment == h.equipment && g.name == h.name
    &&& g.viewshed.range == h.viewshed.range
    &&& g.viewshed.visible == h.viewshed.visible
    &&& g.viewshed.revealed@ == Seq::new(h.viewshed.revealed@.len(), |i: int| false)
}

/// `it` is a fresh healing potion.
pub open spec fn is_hp_potion(it: Item) -> bool {
    &&& it.kind == ItemKind::HealthPotion
    &&& it.name@ == "치유 물약"@
    &&& it.glyph == kind_glyph(ItemKind::HealthPotion)
    &&& it.fg_rgb == kind_rgb(ItemKind::HealthPotion)
    &&& it.bonus == 15
}

/// The potion cheat: a healing potion goes into the first empty slot, or the
/// log says the inventory is full.
pub open spec fn potion_cheated(a: App, b: App) -> bool {
    let s = a.world.hero.inventory.slots@;
    &&& same_but_world_log(a, b)
    &&& b.world.monsters == a.world.monsters
    &&& b.world.items == a.world.items
    &&& b.world.hero.pos == a.world.hero.pos
    &&& b.world.hero.health == a.world.hero.health
    &&& b.world.hero.mana == a.world.hero.mana
    &&& b.world.hero.stats == a.world.hero.stats
    &&& b.world.hero.equipment == a.world.hero.equipment
    &&& b.world.hero.viewshed == a.world.hero.viewshed
    &&& b.world.hero.inventory.max == a.world.hero.inventory.max
    &&& match free_slot(s) {
        Some(i) => {
            &&& exists|x: Item| #[trigger] is_hp_potion(x) && b.world.hero.inventory.slots@ == s.update(i, Some(x))
            &&& log_of(b) == logged(log_of(a), "[치트] 물약 추가: "@ + "치유 물약"@ + " (+"@ + decimal_text(15) + ")"@)
        },
        None => {
            &&& b.world.hero.inventory.slots@ == s
            &&& log_of(b) == logged(log_of(a), "[치트] 인벤토리가 가득 차서 추가 실패"@)
        },
    }
}

/// `i` is the first slot holding an item.
pub open spec fn is_first_filled(s: Seq<Option<Item>>, i: int) -> bool {
    &&& 0 <= i < s.len()
    &&& s[i] is Some
    &&& forall|j: int| 0 <= j < i ==> #[trigger] s[j] is None
}

/// Where the inventory cursor starts: the first filled slot, else slot 0.
pub open spec fn first_filled(s: Seq<Option<Item>>) -> usize {
    if exists|i: int| is_first_filled(s, i) {
        (choose|i: int| is_first_filled(s, i)) as usize
    } else {
        0
    }
}

/// The quick potion: drink the first potion and log what happened, or log
/// that there is none.
pub open spec fn quick_quaffed(a: App, b: App) -> bool {
    exists|r: Option<String>| {
        &&& #[trigger] quaffed(a.world, b.world, r)
        &&& same_but_world_log(a, b)
        &&& log_of(b) == match r {
            Some(m) => logged(log_of(a), m@),
            None => logged(log_of(a), "사용할 물약이 없습니다."@),
        }
    }
}

/// What a key does during play, with no modal open.
pub open spec fn play_keyed(a: App, b: App, code: KeyCode, t: Turn) -> bool {
    match code {
        KeyCode::Char('q') | KeyCode::Char('Q') | KeyCode::Esc => t == Turn::Done && b == App { running: false, ..a },
        KeyCode::Char('R') => t == Turn::Done && restarted(a, b),
        KeyCode::Char('S') => t == Turn::Done && just_logged(App { save_requested: true, ..a }, b, save_msg(a.remembrance)),
        KeyCode::Char('L') => t == Turn::Done && just_logged(App { locale: other_locale(a.locale), ..a }, b, locale_msg(other_locale(a.locale))),
        KeyCode::Char('?') => {
            &&& t == Turn::Done
            &&& same_but_world_log(a, b)
            &&& b.world == a.world
            &&& log_of(b) == help_logged(log_of(a))
        },
        KeyCode::Char('r') => {
            &&& t == Turn::Done
            &&& crate::game::app::fresh_floor(b, ((a.seed as int + 0x12345) % 0x1_0000_0000_0000_0000int) as u64,
                a.floor, a.remembrance, a.locale, a.gold)
        },
        KeyCode::Char('~') | KeyCode::Char('`') => t == Turn::Done && warped(a, b),
        KeyCode::Char('c') | KeyCode::Char('C') => t == Turn::Done && memory_cleared(a, b),
        KeyCode::Char('!') => t == Turn::Done && potion_cheated(a, b),
        KeyCode::Char('g') | KeyCode::Char('G') | KeyCode::Char('$') | KeyCode::Char(',') => t == Turn::Done && picked_up(a, b, false),
        KeyCode::Char('i') => t == Turn::Done && b == with_modal(a, ModalMode::Inventory { cursor: first_filled(a.world.hero.inventory.slots@) }),
        KeyCode::Char('p') => t == Turn::Done && quick_quaffed(a, b),
        _ => match direction_of(code) {
            Some(d) => player_acted(a, b, d, t),
            None => t == Turn::Done && b == a,
        },
    }
}

/// What a key press does (the monsters' answer, if any, comes after: see
/// `Turn`). With the inventory open the key goes there; after death only
/// quitting and `R` (restart) work; Shift+4 picks up; at the stairs prompt
/// the key is logged and answers the prompt; otherwise see `play_keyed`.
pub open spec fn handled(a: App, b: App, key: KeyPress, t: Turn) -> bool {
    let code = key.code;
    match a.modal {
        ModalMode::Inventory { cursor } => t == Turn::Done && inventory_keyed(a, b, code, cursor),
        _ => if a.game_over {
            &&& t == Turn::Done
            &&& if is_quit(code) {
                b == App { running: false, ..a }
            } else if code == KeyCode::Char('R') {
                restarted(a, b)
            } else {
                b == a
            }
        } else if code == KeyCode::Char('4') && key.shift {
            t == Turn::Done && picked_up(a, b, false)
        } else {
            match a.modal {
                ModalMode::ConfirmStairs { choice } => {
                    &&& t == Turn::Done
                    &&& exists|a1: App| #[trigger] key_noted(a, a1, code) && stairs_keyed(a1, b, code, choice)
                },
                _ => play_keyed(a, b, code, t),
            }
        },
    }
}

/// The first filled slot, else 0.
fn first_filled_slot(slots: &Vec<Option<Item>>) -> (r: usize)
    ensures
        r == first_filled(slots@),
        slots@.len() > 0 ==> r < slots@.len(),
{
    let n = slots.len();
    let ghost s = slots@;
    let mut i: usize = 0;
    while i < n
        invariant
            n == s.len(),
            s == slots@,
            i <= n,
            forall|j: int| 0 <= j < i ==> #[trigger] s[j] is None,
        decreases n - i,
    {
        if slots[i].is_some() {
            assert(is_first_filled(s, i as int));
            assert forall|k: int| #[trigger] is_first_filled(s, k) implies k == i by {
                if k < i {
                    assert(s[k] is None);
                } else if k > i {
                    assert(s[i as int] is Some);
                }
            }
            return i;
        }
        i = i + 1;
    }
    assert forall|k: int| !is_first_filled(s, k) by {
        if 0 <= k < n {
            assert(s[k] is None);
        }
    }
    0
}

impl App {
    /// Logs `r` when it holds a message.
    fn log_some(&mut self, r: Option<String>)
        requires
            old(self).wf(),
        ensures
            final(self).wf(),
            same_but_world_log(*old(self), *final(self)),
            final(self).world == old(self).world,
            log_of(*final(self)) == match r {
                Some(m) => logged(log_of(*old(self)), m@),
                None => log_of(*old(self)),
            },
    {
        match r {
            Some(m) => self.log(m),
            None => {},
        }
    }

    /// A key while the inventory is open (see `inventory_keyed`).
    pub fn handle_inventory_key(&mut self, code: KeyCode, cursor: usize)
        requires
            old(self).wf(),
            cursor < old(self).world.hero.inventory.max,
        ensures
            final(self).wf(),
            inventory_keyed(*old(self), *final(self), code, cursor),
    {
        let n = self.world.hero.inventory.max;
        match code {
            KeyCode::Char('j') | KeyCode::Down => {
                self.modal = ModalMode::Inventory { cursor: (cursor + 1) % n };
            },
            KeyCode::Char('k') | KeyCode::Up => {
                let c = if cursor == 0 { n - 1 } else { cursor - 1 };
                assert(c == (cursor - 1) % (n as int)) by (nonlinear_arith)
                    requires
                        1 <= n,
                        cursor < n,
                        c == if cursor == 0 { n - 1 } else { cursor - 1 };
                self.modal = ModalMode::Inventory { cursor: c };
            },
            KeyCode::Char('e') => {
                let r = toggle_equip_at(&mut self.world, cursor);
                self.log_some(r);
            },
            KeyCode::Char('u') => {
                let r = use_inventory_at(&mut self.world, cursor);
                self.log_some(r);
            },
            KeyCode::Char('d') | KeyCode::Char('x') => {
                let r = drop_inventory_at(&mut self.world, cursor);
                self.log_some(r);
            },
            KeyCode::Enter => {
                let kind = match &self.world.hero.inventory.slots[cursor] {
                    Some(it) => Some(it.kind),
                    None => None,
                };
                match kind {
                    Some(k) => {
                        if k == ItemKind::Weapon || k == ItemKind::Armor {
                            let r = toggle_equip_at(&mut self.world, cursor);
                            self.log_some(r);
                        } else {
                            let r = use_inventory_at(&mut self.world, cursor);
                            self.log_some(r);
                        }
                    },
                    None => {
                        self.log(String::from_str("빈 슬롯입니다."));
                    },
                }
            },
            KeyCode::Esc | KeyCode::Char('i') | KeyCode::Char('I') | KeyCode::Char('q') => {
                self.modal = ModalMode::Closed;
            },
            _ => {},
        }
    }

    fn cancel_stairs(&mut self)
        requires
            old(self).wf(),
        ensures
            final(self).wf(),
            stairs_cancelled(*old(self), *final(self)),
    {
        self.modal = ModalMode::Closed;
        self.at_stairs = false;
        self.log(String::from_str(t_for(Key::MsgStairCancel, self.locale)));
    }

    fn confirm_stairs(&mut self)
        requires
            old(self).wf(),
        ensures
            final(self).wf(),
            stairs_confirmed(*old(self), *final(self)),
    {
        let ghost a = *self;
        let r = self.descend_internal();
        let ghost mid = *self;
        if r {
            self.modal = ModalMode::Closed;
            self.at_stairs = false;
        }
        assert(descended(a, mid, r));
    }

    /// A key at the stairs prompt (see `key_noted` and `stairs_keyed`).
    fn handle_stairs_key(&mut self, code: KeyCode, choice: bool)
        requires
            old(self).wf(),
            old(self).modal == (ModalMode::ConfirmStairs { choice }),
        ensures
            final(self).wf(),
            exists|a1: App| #[trigger] key_noted(*old(self), a1, code) && stairs_keyed(a1, *final(self), code, choice),
    {
        self.modal_redraws = 0;
        let mut m = String::from_str("[modal] key=");
        let name = key_name(code);
        append_str(&mut m, name.as_str());
        self.log(m);
        let ghost a1 = *self;
        assert(key_noted(*old(self), a1, code));
        match code {
            KeyCode::Char('y') | KeyCode::Char('Y') => self.confirm_stairs(),
            KeyCode::Char('n') | KeyCode::Char('N') | KeyCode::Esc => self.cancel_stairs(),
            KeyCode::Down | KeyCode::Char('j') => {
                self.modal = ModalMode::ConfirmStairs { choice: false };
            },
            KeyCode::Up | KeyCode::Char('k') => {
                self.modal = ModalMode::ConfirmStairs { choice: true };
            },
            KeyCode::Tab => {
                self.modal = ModalMode::ConfirmStairs { choice: !choice };
            },
            KeyCode::Enter => {
                if choice {
                    self.confirm_stairs();
                } else {
                    self.cancel_stairs();
                }
            },
            _ => {},
        }
        assert(stairs_keyed(a1, *self, code, choice));
    }

    fn restart(&mut self)
        requires
            old(self).wf(),
        ensures
            final(self).wf(),
            restarted(*old(self), *final(self)),
    {
        let fresh = App::new_at_with(self.seed, 1, self.remembrance, self.locale, 0);
        *self = fresh;
    }

    fn warp_to_stairs(&mut self)
        requires
            old(self).wf(),
        ensures
            final(self).wf(),
            warped(*old(self), *final(self)),
    {
        match self.dungeon.stairs {
            Some(s) => {
                self.world.hero.pos = s;
                assert(*self == hero_at(*old(self), s));
                self.recompute_fov();
                let ghost m2 = *self;
                self.modal = ModalMode::ConfirmStairs { choice: true };
                self.modal_redraws = 4;
                self.at_stairs = true;
                self.log(String::from_str("▼ — 내려갈까? (y/n) [debug warp]"));
                assert(sight_updated(hero_at(*old(self), s), m2));
            },
            None => {},
        }
    }

    fn forget_map(&mut self)
        requires
            old(self).wf(),
        ensures
            final(self).wf(),
            memory_cleared(*old(self), *final(self)),
    {
        let n = self.world.hero.viewshed.revealed.len();
        let mut i: usize = 0;
        while i < n
            invariant
                n == self.world.hero.viewshed.revealed@.len(),
                n == old(self).world.hero.viewshed.revealed@.len(),
                i <= n,
                forall|j: int| 0 <= j < i ==> !#[trigger] self.world.hero.viewshed.revealed@[j],
                self.world.hero.viewshed.range == old(self).world.hero.viewshed.range,
                self.world.hero.viewshed.visible == old(self).world.hero.viewshed.visible,
                self.world.hero.pos == old(self).world.hero.pos,
                self.world.hero.look == old(self).world.hero.look,
                self.world.hero.health == old(self).world.hero.health,
                self.world.hero.mana == old(self).world.hero.mana,
                self.world.hero.stats == old(self).world.hero.stats,
                self.world.hero.inventory == old(self).world.hero.inventory,
                self.world.hero.equipment == old(self).world.hero.equipment,
                self.world.hero.name == old(self).world.hero.name,
                self.world.monsters == old(self).world.monsters,
                self.world.items == old(self).world.items,
                same_but_world_log(*old(self), *self),
                self.messages == old(self).messages,
            decreases n - i,
        {
            self.world.hero.viewshed.revealed.set(i, false);
            i = i + 1;
        }
        assert(self.world.hero.viewshed.revealed@ =~= Seq::new(n as nat, |i: int| false));
    }

    fn cheat_potion(&mut self)
        requires
            old(self).wf(),
        ensures
            final(self).wf(),
            potion_cheated(*old(self), *final(self)),
    {
        let item = Item::potion_hp();
        let mut label = String::from_str("[치트] 물약 추가: ");
        append_str(&mut label, item.name.as_str());
        append_str(&mut label, " (+");
        push_decimal(&mut label, item.bonus as i64);
        append_str(&mut label, ")");
        let ghost s = self.world.hero.inventory.slots@;
        let ghost x = item;
        match self.world.hero.inventory.push(item) {
            Ok(i) => {
                proof {
                    crate::game::items::lemma_free_slot(s, i as int);
                    assert(slots_ok(self.world.hero.inventory.slots@)) by {
                        assert forall|k: int| 0 <= k < self.world.hero.inventory.slots@.len() implies
                            (#[trigger] self.world.hero.inventory.slots@[k] matches Some(y) ==> item_ok(y)) by {
                            assert(s[k] matches Some(y) ==> item_ok(y));
                        }
                    }
                    assert(is_hp_potion(x));
                }
                self.log(label);
            },
            Err(_) => {
                proof {
                    crate::game::items::lemma_no_free_slot(s);
                }
                self.log(String::from_str("[치트] 인벤토리가 가득 차서 추가 실패"));
            },
        }
    }

    fn open_inventory(&mut self)
        requires
            old(self).wf(),
        ensures
            final(self).wf(),
            *final(self) == with_modal(*old(self), ModalMode::Inventory { cursor: first_filled(old(self).world.hero.inventory.slots@) }),
    {
        let cursor = first_filled_slot(&self.world.hero.inventory.slots);
        self.modal = ModalMode::Inventory { cursor };
    }

    fn quick_potion(&mut self)
        requires
            old(self).wf(),
        ensures
            final(self).wf(),
            quick_quaffed(*old(self), *final(self)),
    {
        let r = use_first_potion(&mut self.world);
        let ghost rr = r;
        match r {
            Some(m) => self.log(m),
            None => self.log(String::from_str("사용할 물약이 없습니다.")),
        }
        assert(quaffed(old(self).world, self.world, rr));
    }

    fn key_play(&mut self, code: KeyCode) -> (t: Turn)
        requires
            old(self).wf(),
        ensures
            final(self).wf(),
            play_keyed(*old(self), *final(self), code, t),
    {
        match code {
            KeyCode::Char('q') | KeyCode::Char('Q') | KeyCode::Esc => {
                self.running = false;
                Turn::Done
            },
            KeyCode::Char('R') => {
                self.restart();
                Turn::Done
            },
            KeyCode::Char('S') => {
                self.save_requested = true;
                let mut m = String::from_str("영혼 기억 저장: ");
                push_decimal(&mut m, self.remembrance.clears as i64);
                append_str(&mut m, " 회 클리어, ");
                push_decimal(&mut m, self.remembrance.champion_count as i64);
                append_str(&mut m, " 챔피언 영혼");
                assert(m@ =~= save_msg(old(self).remembrance));
                self.log(m);
                Turn::Done
            },
            KeyCode::Char('L') => {
                self.locale = match self.locale {
                    Locale::Korean => Locale::English,
                    Locale::English => Locale::Korean,
                };
                match self.locale {
                    Locale::Korean => self.log(String::from_str("언어: 한국어")),
                    Locale::English => self.log(String::from_str("Locale: English")),
                }
                Turn::Done
            },
            KeyCode::Char('?') => {
                self.log(String::from_str("h/j/k/l 이동 | yubn 대각 | 화살표 이동"));
                self.log(String::from_str("g 줍기 | i 인벤토리 | p 포션 | R 새 게임 | q 종료"));
                self.log(String::from_str("S 영혼 저장 | L 언어 토글 | ? 도움말"));
                Turn::Done
            },
            KeyCode::Char('r') => {
                let base = self.seed.wrapping_add(0x12345);
                let fresh = App::new_at_with(base, self.floor, self.remembrance, self.locale, self.gold);
                *self = fresh;
                Turn::Done
            },
            KeyCode::Char('~') | KeyCode::Char('`') => {
                self.warp_to_stairs();
                Turn::Done
            },
            KeyCode::Char('c') | KeyCode::Char('C') => {
                self.forget_map();
                Turn::Done
            },
            KeyCode::Char('!') => {
                self.cheat_potion();
                Turn::Done
            },
            KeyCode::Char('g') | KeyCode::Char('G') | KeyCode::Char('$') | KeyCode::Char(',') => {
                self.pick_up_here(false);
                Turn::Done
            },
            KeyCode::Char('i') => {
                self.open_inventory();
                Turn::Done
            },
            KeyCode::Char('p') => {
                self.quick_potion();
                Turn::Done
            },
            _ => {
                match key_to_direction(&code) {
                    Some(d) => self.try_player_act(d),
                    None => Turn::Done,
                }
            },
        }
    }

    /// Handles one key press (see `handled`). When the result asks for the
    /// monsters' answer, call `enemy_phase` next.
    pub fn handle(&mut self, key: KeyPress) -> (t: Turn)
        requires
            old(self).wf(),
        ensures
            final(self).wf(),
            handled(*old(self), *final(self), key, t),
    {
        let code = key.code;
        match self.modal {
            ModalMode::Inventory { cursor } => {
                self.handle_inventory_key(code, cursor);
                return Turn::Done;
            },
            _ => {},
        }
        if self.game_over {
            match code {
                KeyCode::Char('q') | KeyCode::Char('Q') | KeyCode::Esc => {
                    self.running = false;
                },
                KeyCode::Char('R') => {
                    self.restart();
                },
                _ => {},
            }
            return Turn::Done;
        }
        if code == KeyCode::Char('4') && key.shift {
            self.pick_up_here(false);
            return Turn::Done;
        }
        match self.modal {
            ModalMode::ConfirmStairs { choice } => {
                self.handle_stairs_key(code, choice);
                return Turn::Done;
            },
            _ => {},
        }
        self.key_play(code)
    }
}

} // verus!
