use asciirogue::combat::attack::resolve_attack;
use asciirogue::combat::damage::DamageFormula;
use asciirogue::combat::status::{StatusEffect, StatusKind};
use asciirogue::components::{Ai, AiKind, Direction, EquipSlot, Health, Inventory, Item, ItemKind, Renderable, Stats, TilePos};
use asciirogue::food::Food;
use asciirogue::game::app::{log_t, t_format, App, Entity, ModalMode};
use asciirogue::game::items::{equip_inventory_at, pick_up_outcome, unequip_slot, PickupOutcome};
use asciirogue::game::keys::{KeyCode, KeyPress};
use asciirogue::game::turn::Turn;
use asciirogue::game::seek::nearest_pickup_info;
use asciirogue::game::world::{GroundItem, Monster, BOSS_FLOOR};
use asciirogue::i18n::{t_format_with_locale, Key, Locale};
use asciirogue::knobs::{label_of, KnobId};
use asciirogue::meta::SoulRemembrance;
use asciirogue::procgen::dungeon::{Dungeon, Tile};
use asciirogue::seed::{parse_seed, SeedError};

/// Presses a key; when it takes a turn the monsters answer, each seeing the
/// hero (no walls are consulted: the floors used here have no monsters or
/// the answer does not matter).
fn press(app: &mut App, code: KeyCode) {
    let t = app.handle(KeyPress { code, shift: false });
    if let Turn::EnemiesAct { arrived } = t {
        let clear = vec![true; app.world.monsters.len()];
        app.enemy_phase(arrived, &clear);
    }
}

fn stairs_of(app: &App) -> TilePos {
    app.dungeon.stairs.expect("every generated floor has stairs")
}

/// An empty floor 1 with the hero one step left of the stairs.
fn beside_stairs(seed: u64) -> App {
    let mut app = App::new_at(seed, 1);
    app.world.monsters.clear();
    app.world.items.clear();
    let s = stairs_of(&app);
    app.world.hero.pos = TilePos(s.0 - 1, s.1);
    app
}

#[test]
fn log_keeps_only_the_last_five_lines() {
    let mut app = App::new_at(3, 1);
    for _ in 0..3 {
        press(&mut app, KeyCode::Char('?'));
    }
    assert_eq!(app.messages.len(), 5);
    assert_eq!(app.messages[4], "S 영혼 저장 | L 언어 토글 | ? 도움말");
    assert_eq!(app.messages[3], "g 줍기 | i 인벤토리 | p 포션 | R 새 게임 | q 종료");
}

#[test]
fn descent_carries_wallet_locale_and_remembrance() {
    let mut app = beside_stairs(11);
    app.gold = 42;
    app.locale = Locale::English;
    app.remembrance.clears = 2;
    press(&mut app, KeyCode::Right);
    assert!(matches!(app.modal, ModalMode::ConfirmStairs { choice: true }));
    press(&mut app, KeyCode::Char('y'));
    assert_eq!(app.floor(), 2);
    assert_eq!(app.gold(), 42);
    assert_eq!(app.locale, Locale::English);
    assert_eq!(app.remembrance.clears, 2);
    assert_eq!(app.modal, ModalMode::Closed);
    assert_eq!(app.messages.last().map(|s| s.as_str()), Some("Descending to 2F."));
}

#[test]
fn boss_gate_leaves_floor_and_world_alone() {
    let mut app = App::new_at(5, BOSS_FLOOR);
    app.boss_defeated = false;
    let s = stairs_of(&app);
    app.world.hero.pos = s;
    app.modal = ModalMode::ConfirmStairs { choice: true };
    let monsters = app.world.monsters.clone();
    press(&mut app, KeyCode::Char('y'));
    assert_eq!(app.floor(), BOSS_FLOOR);
    assert_eq!(app.world.monsters.len(), monsters.len());
    assert_eq!(app.world.hero.pos, s);
    assert_eq!(app.messages.last().map(|s| s.as_str()), Some("보스를 먼저 처치하세요."));
}

#[test]
fn restart_keeps_remembrance_and_empties_wallet() {
    let mut app = App::new_at(5, 3);
    app.gold = 77;
    app.remembrance.clears = 4;
    press(&mut app, KeyCode::Char('R'));
    assert_eq!(app.floor(), 1);
    assert_eq!(app.gold(), 0);
    assert_eq!(app.remembrance.clears, 4);
    assert!(!app.game_over);
}

#[test]
fn dead_hero_ignores_movement_and_pickup() {
    let mut app = App::new_at(9, 1);
    app.game_over = true;
    let pos = app.world.hero.pos;
    let log = app.messages.clone();
    let tick = app.tick;
    for code in [KeyCode::Char('l'), KeyCode::Char('g'), KeyCode::Char('i'), KeyCode::Char('p')] {
        let t = app.handle(KeyPress { code, shift: false });
        assert_eq!(t, Turn::Done);
    }
    assert_eq!(app.world.hero.pos, pos);
    assert_eq!(app.messages, log);
    assert_eq!(app.tick, tick);
    assert_eq!(app.modal, ModalMode::Closed);
}

#[test]
fn open_inventory_freezes_the_floor() {
    let mut app = App::new_at(21, 1);
    press(&mut app, KeyCode::Char('i'));
    assert!(matches!(app.modal, ModalMode::Inventory { .. }));
    let pos = app.world.hero.pos;
    let monsters: Vec<TilePos> = app.world.monsters.iter().map(|m| m.pos).collect();
    let tick = app.tick;
    for code in [KeyCode::Char('l'), KeyCode::Char('h'), KeyCode::Char('j'), KeyCode::Char('.')] {
        let t = app.handle(KeyPress { code, shift: false });
        assert_eq!(t, Turn::Done);
    }
    assert_eq!(app.world.hero.pos, pos);
    let after: Vec<TilePos> = app.world.monsters.iter().map(|m| m.pos).collect();
    assert_eq!(after, monsters);
    assert_eq!(app.tick, tick);
}

#[test]
fn stairs_prompt_holds_the_hero_in_place() {
    let mut app = beside_stairs(13);
    press(&mut app, KeyCode::Right);
    let s = stairs_of(&app);
    assert_eq!(app.world.hero.pos, s);
    for code in [KeyCode::Char('h'), KeyCode::Char('l'), KeyCode::Left, KeyCode::Char('.')] {
        let t = app.handle(KeyPress { code, shift: false });
        assert_eq!(t, Turn::Done);
        assert_eq!(app.world.hero.pos, s);
    }
    assert_eq!(app.floor(), 1);
    assert!(matches!(app.modal, ModalMode::ConfirmStairs { .. }));
    assert_eq!(app.messages.last().map(|s| s.as_str()), Some("[modal] key=Char('.')"));
}

#[test]
fn gold_goes_to_wallet_even_with_a_full_inventory() {
    let mut app = App::new_at(2, 1);
    for i in 0..app.world.hero.inventory.slots.len() {
        app.world.hero.inventory.slots[i] = Some(Item::potion_mp());
    }
    let before = app.world.hero.inventory.slots.clone();
    let pos = app.world.hero.pos;
    app.world.items.clear();
    app.world.items.push(GroundItem { pos, item: Item::gold(5) });
    app.world.items.push(GroundItem { pos, item: Item::potion_hp() });
    let mut gold: u32 = 10;
    let r = pick_up_outcome(&mut app.world, &mut gold);
    assert_eq!(r, PickupOutcome::InventoryFull);
    assert_eq!(gold, 15);
    assert_eq!(app.world.hero.inventory.slots.len(), before.len());
    for (a, b) in app.world.hero.inventory.slots.iter().zip(before.iter()) {
        assert_eq!(a.as_ref().map(|x| x.kind), b.as_ref().map(|x| x.kind));
    }
    assert_eq!(app.world.items.len(), 1);
    assert_eq!(app.world.items[0].item.kind, ItemKind::HealthPotion);
}

#[test]
fn full_inventory_pickup_message_names_the_gold() {
    let mut app = App::new_at(2, 1);
    for i in 0..app.world.hero.inventory.slots.len() {
        app.world.hero.inventory.slots[i] = Some(Item::potion_mp());
    }
    let pos = app.world.hero.pos;
    app.world.items.clear();
    app.world.items.push(GroundItem { pos, item: Item::gold(7) });
    app.world.items.push(GroundItem { pos, item: Item::potion_hp() });
    app.gold = 0;
    press(&mut app, KeyCode::Char('g'));
    assert_eq!(app.gold(), 7);
    assert_eq!(
        app.messages.last().map(|s| s.as_str()),
        Some("골드는 +7 챙겼지만 인벤토리가 가득 찼습니다.")
    );
}

#[test]
fn nothing_spawns_on_the_stairs() {
    for seed in 0..30u64 {
        for floor in [1, 4, BOSS_FLOOR] {
            let app = App::new_at(seed, floor);
            let s = stairs_of(&app);
            assert!(app.world.monsters.iter().all(|m| m.pos != s), "seed {seed} floor {floor}: monster on stairs");
            assert!(app.world.items.iter().all(|g| g.pos != s), "seed {seed} floor {floor}: loot on stairs");
            assert_eq!(app.dungeon.at(s.0, s.1), Tile::StairsDown);
        }
    }
}

#[test]
fn weapon_equip_keeps_the_armor_on() {
    let mut app = App::new_at(1, 1);
    app.world.hero.inventory.slots[0] = Some(Item::armor(4, "가죽 갑옷"));
    app.world.hero.inventory.slots[1] = Some(Item::weapon(6, "검"));
    let r = equip_inventory_at(&mut app.world, 0);
    assert_eq!(r.as_deref(), Some("방어구 ([가죽 갑옷) 장착!"));
    let r = equip_inventory_at(&mut app.world, 1);
    assert_eq!(r.as_deref(), Some("무기 ()검) 장착!"));
    assert_eq!(app.world.hero.equipment.armor, Some(0));
    assert_eq!(app.world.hero.equipment.weapon, Some(1));
    assert_eq!(app.world.hero.stats.attack_bonus, 6);
    assert_eq!(app.world.hero.stats.defense_bonus, 4);
}

#[test]
fn unequip_clears_only_its_slot() {
    let mut app = App::new_at(1, 1);
    app.world.hero.inventory.slots[0] = Some(Item::armor(4, "가죽 갑옷"));
    app.world.hero.inventory.slots[1] = Some(Item::weapon(6, "검"));
    equip_inventory_at(&mut app.world, 0);
    equip_inventory_at(&mut app.world, 1);
    let r = unequip_slot(&mut app.world, EquipSlot::Weapon);
    assert_eq!(r.as_deref(), Some("무기 해제!"));
    assert_eq!(app.world.hero.equipment.weapon, None);
    assert_eq!(app.world.hero.equipment.armor, Some(0));
    assert_eq!(app.world.hero.stats.attack_bonus, 0);
    assert_eq!(app.world.hero.stats.defense_bonus, 4);
    assert!(app.world.hero.inventory.slots[1].is_some());
    assert_eq!(unequip_slot(&mut app.world, EquipSlot::Weapon), None);
}

#[test]
fn push_then_take_gives_the_item_back() {
    let mut inv = Inventory::new(3);
    inv.slots[0] = Some(Item::gold(1));
    let idx = inv.push(Item::potion_hp()).expect("a slot is free");
    assert_eq!(idx, 1);
    let back = inv.take(idx).expect("the item is there");
    assert_eq!(back.kind, ItemKind::HealthPotion);
    assert!(inv.slots[1].is_none() && inv.slots[2].is_none() && inv.slots[0].is_some());
}

#[test]
fn death_is_credited_once() {
    let mut app = App::new_at(4, 3);
    app.gold = 120;
    app.world.hero.health.current = 0;
    app.on_player_died_for_tests();
    let rem = app.remembrance;
    let log = app.messages.clone();
    app.on_player_died_for_tests();
    assert_eq!(app.remembrance, rem);
    assert_eq!(app.messages, log);
    assert_eq!(rem.last_wager_gold, 12);
    assert_eq!(rem.champion_count, 0);
}

#[test]
fn seeds_parse_in_hex_and_decimal() {
    assert_eq!(parse_seed("0xCAFE"), Ok(0xCAFE));
    assert_eq!(parse_seed("0Xff"), Ok(255));
    assert_eq!(parse_seed("123"), Ok(123));
    assert_eq!(parse_seed("+42"), Ok(42));
    assert_eq!(parse_seed("18446744073709551615"), Ok(u64::MAX));
}

#[test]
fn malformed_seeds_are_refused_by_kind() {
    assert_eq!(parse_seed("0xZZ"), Err(SeedError::InvalidHex));
    assert_eq!(parse_seed("0x"), Err(SeedError::InvalidHex));
    assert_eq!(parse_seed("0x10000000000000000"), Err(SeedError::InvalidHex));
    assert_eq!(parse_seed("abc"), Err(SeedError::InvalidDecimal));
    assert_eq!(parse_seed(""), Err(SeedError::InvalidDecimal));
    assert_eq!(parse_seed("-1"), Err(SeedError::InvalidDecimal));
    assert_eq!(parse_seed("18446744073709551616"), Err(SeedError::InvalidDecimal));
}

#[test]
fn entity_at_finds_hero_then_monster_then_item() {
    let mut app = App::new_at(6, 1);
    let hero = app.world.hero.pos;
    assert_eq!(app.entity_at(hero), Some(Entity::Hero));
    app.world.items.clear();
    app.world.items.push(GroundItem { pos: TilePos(1, 1), item: Item::gold(2) });
    assert_eq!(app.entity_at(TilePos(1, 1)), Some(Entity::Item(0)));
    if let Some(m) = app.world.monsters.first() {
        let p = m.pos;
        assert_eq!(app.entity_at(p), Some(Entity::Monster(0)));
    }
    assert_eq!(app.entity_at(TilePos(0, 0)), None);
}

#[test]
fn formatted_messages_fill_their_slot() {
    let mut app = App::new_at(6, 1);
    let args = vec!["3".to_string()];
    assert_eq!(t_format(&app, Key::MsgStairDescendOk, &args), "3층으로 내려갑니다.");
    assert_eq!(t_format_with_locale(Key::MsgStairDescendOk, Locale::English, &args), "Descending to 3F.");
    assert_eq!(t_format_with_locale(Key::MsgStairDescendOk, Locale::English, &[]), "Descending to {}F.");
    log_t(&mut app, Key::MsgStairDescendOk, &args);
    assert_eq!(app.messages.last().map(|s| s.as_str()), Some("3층으로 내려갑니다."));
}

#[test]
fn nearest_pickup_on_own_tile_is_distance_zero() {
    let mut app = App::new_at(8, 1);
    let pos = app.world.hero.pos;
    app.world.items.clear();
    assert_eq!(app.nearest_pickup_info(), None);
    app.world.items.push(GroundItem { pos, item: Item::gold(3) });
    assert_eq!(app.nearest_pickup_info(), Some((0, Direction::Stay, '$')));
}

#[test]
fn nearest_pickup_points_the_first_step() {
    let mut app = App::new_at(8, 1);
    let pos = app.world.hero.pos;
    app.world.items.clear();
    let right = TilePos(pos.0 + 1, pos.1);
    if app.dungeon.at(right.0, right.1).is_passable() {
        app.world.items.push(GroundItem { pos: right, item: Item::potion_hp() });
        assert_eq!(app.nearest_pickup_info(), Some((1, Direction::Right, '!')));
    }
}

#[test]
fn damage_formula_rolls_exact_values() {
    let f = DamageFormula { base: 5, variance: 2, crit_threshold: 95 };
    assert_eq!(f.roll(7), 5);
    assert_eq!(f.roll(0), 3);
    assert_eq!(f.roll(4), 7);
    let weak = DamageFormula { base: 0, variance: 3, crit_threshold: 95 };
    assert_eq!(weak.roll(0), 1);
    assert!(f.is_crit(96));
    assert!(f.is_crit(95));
    assert!(!f.is_crit(94));
    assert!(!f.is_crit(50));
}

#[test]
fn status_effect_ticks_down_then_stops() {
    let mut e = StatusEffect { kind: StatusKind::Poison, damage_per_turn: 3, turns_remaining: 2 };
    assert_eq!(e.tick(), 3);
    assert_eq!(e.turns_remaining, 1);
    assert_eq!(e.tick(), 3);
    assert_eq!(e.turns_remaining, 0);
    assert_eq!(e.tick(), 0);
    assert_eq!(e.turns_remaining, 0);
}

#[test]
fn food_never_goes_negative() {
    let f = Food::new(-3);
    assert_eq!((f.current, f.max), (0, 0));
    let mut f = Food::new(8);
    f.consume(3);
    assert_eq!((f.current, f.max), (5, 8));
    assert!(!f.is_starving());
    f.consume(100);
    assert_eq!(f.current, 0);
    assert!(f.is_starving());
    let mut g = Food::new(5);
    g.consume(i32::MIN);
    assert_eq!(g.current, i32::MAX);
}

#[test]
fn knobs_are_indexed_and_labelled() {
    assert_eq!(KnobId::from_index(0), Some(KnobId::HpStart));
    assert_eq!(KnobId::from_index(15), Some(KnobId::MaxFloors));
    assert_eq!(KnobId::from_index(16), None);
    assert_eq!(label_of(KnobId::MaxFloors), "최대 층");
    assert_eq!(label_of(KnobId::HpStart), "시작 HP");
}

#[test]
fn a_cleared_run_is_remembered_within_caps() {
    let mut m = SoulRemembrance::new();
    m.on_run_end(8, 2500, 3);
    assert_eq!(m.champion_count, 1);
    assert_eq!(m.clears, 1);
    assert_eq!(m.last_wager_gold, 200);
    assert_eq!(m.marks_of_departed, 3);
    let mut d = SoulRemembrance::new();
    d.on_run_end(5, 99, 60);
    assert_eq!(d.champion_count, 0);
    assert_eq!(d.clears, 0);
    assert_eq!(d.last_wager_gold, 9);
    assert_eq!(d.marks_of_departed, 50);
}

#[test]
fn dump_rows_show_entities_over_tiles() {
    let app = App::new_at(0xCAFE, 1);
    let hero = app.world.hero.pos;
    let line: Vec<char> = app.dump_line(hero.1).chars().collect();
    assert_eq!(line.len(), 60);
    assert_eq!(line[hero.0 as usize], '@');
    let s = stairs_of(&app);
    let row: Vec<char> = app.dump_line(s.1).chars().collect();
    let shown = row[s.0 as usize];
    if app.entity_at(s).is_none() {
        if app.world.hero.viewshed.visible.contains(&s) {
            assert_eq!(shown, '▼');
        } else {
            assert_eq!(shown, '·');
        }
    }
    let top: String = app.dump_line(0);
    assert!(top.chars().all(|c| c == ' ' || c == '█' || c == '▀' || c == '▄' || c == '·' || c == '.'));
}

#[test]
fn header_lists_hints_badge_pools_and_gold() {
    let mut app = App::new_at(5, 1);
    app.gold = 33;
    app.at_stairs = true;
    let h = &app.world.hero;
    let expected = format!(
        "asciirogue — seed {}  {}  player ({},{})  visible {}  stairs: ↓ ▼ 7  pickup: ← $ 2   ▼ 도착! (y/n) HP {}/{}  MP {}/{}  G 33",
        app.seed,
        app.floor_label(),
        h.pos.0,
        h.pos.1,
        h.viewshed.visible.len(),
        h.health.current,
        h.health.max,
        h.mana.current,
        h.mana.max
    );
    let got = app.header_text(Some((2, Direction::Left, '$')), Some((7, Direction::Down, '▼')));
    assert_eq!(got, expected);
    app.at_stairs = false;
    let plain = app.header_text(None, None);
    assert!(plain.ends_with(&format!("visible {}  HP {}/{}  MP {}/{}  G 33",
        app.world.hero.viewshed.visible.len(),
        app.world.hero.health.current, app.world.hero.health.max,
        app.world.hero.mana.current, app.world.hero.mana.max)));
    let odd = app.header_text(Some((1, Direction::Up, 'x')), None);
    assert!(odd.contains("pickup: ↑ · 1  "));
}

#[test]
fn footer_shows_newest_messages_first() {
    let mut app = App::new_at(5, 1);
    app.messages = vec!["one".to_string(), "two".to_string(), "three".to_string()];
    let expected = format!(
        "[three  |  two]  rooms {}  {}\ng pick  i inv  p potion  stairs: y/n  q quit  R restart",
        app.dungeon.rooms.len(),
        app.floor_label()
    );
    assert_eq!(app.footer_text(), expected);
    app.messages = vec!["solo".to_string()];
    assert!(app.footer_text().starts_with("[solo]  rooms "));
    app.messages.clear();
    assert!(app.footer_text().starts_with("[]  rooms "));
    let mut boss = App::new_at(5, BOSS_FLOOR);
    boss.boss_defeated = true;
    assert!(boss.footer_text().ends_with("\ng pick  i inv  p potion  stairs: y/n  R restart"));
}

#[test]
fn stairs_search_points_at_the_stairs() {
    let mut app = beside_stairs(17);
    let s = stairs_of(&app);
    assert_eq!(app.nearest_stairs_info(), Some((1, Direction::Right, '▼')));
    app.world.hero.pos = s;
    assert_eq!(app.nearest_stairs_info(), Some((0, Direction::Stay, '▼')));
    let fresh = App::new_at(17, 1);
    match fresh.nearest_stairs_info() {
        Some((d, _, g)) => assert!(d >= 1 && g == '▼'),
        None => {}
    }
}

#[test]
fn pickup_reach_is_own_tile_and_four_neighbours() {
    let app = App::new_at(5, 1);
    let p = app.world.hero.pos;
    assert!(app.in_pickup_reach(p));
    assert!(app.in_pickup_reach(TilePos(p.0 + 1, p.1)));
    assert!(app.in_pickup_reach(TilePos(p.0, p.1 - 1)));
    assert!(!app.in_pickup_reach(TilePos(p.0 + 1, p.1 + 1)));
    assert!(!app.in_pickup_reach(TilePos(p.0 + 2, p.1)));
}

fn rat_at(p: TilePos) -> Monster {
    Monster {
        pos: p,
        look: Renderable::new('r', 0xFF8080),
        health: Health::new(5),
        stats: Stats::new(3, 3, 1, 1, 3),
        ai: Ai::new(AiKind::Chase, 10, 8),
        name: "쥐".to_string(),
    }
}

#[test]
fn only_one_enemy_attacks_per_turn() {
    let mut app = App::new_at(3, 1);
    app.world.monsters.clear();
    let h = app.world.hero.pos;
    app.world.monsters.push(rat_at(TilePos(h.0 + 1, h.1)));
    app.world.monsters.push(rat_at(TilePos(h.0 - 1, h.1)));
    let t = app.handle(KeyPress { code: KeyCode::Char('.'), shift: false });
    assert_eq!(t, Turn::EnemiesAct { arrived: None });
    app.enemy_phase(None, &[true, true]);
    assert_eq!(app.world.monsters[0].ai.last_known_player, Some(h));
    assert_eq!(app.world.monsters[1].ai.last_known_player, None, "the second rat must not act after the first attacked");
    assert!(app.world.monsters.iter().all(|m| m.ai.cooldown == 0), "cooldowns are cleared after the enemy phase");
}

#[test]
fn a_monster_on_cooldown_sits_out_the_turn() {
    let mut app = App::new_at(3, 1);
    app.world.monsters.clear();
    let h = app.world.hero.pos;
    let mut first = rat_at(TilePos(h.0 + 1, h.1));
    first.ai.cooldown = 1;
    app.world.monsters.push(first);
    app.world.monsters.push(rat_at(TilePos(h.0 - 1, h.1)));
    app.enemy_take_turns(&[true, true]);
    assert_eq!(app.world.monsters[0].ai.last_known_player, None);
    assert_eq!(app.world.monsters[0].ai.cooldown, 1);
    assert_eq!(app.world.monsters[1].ai.last_known_player, Some(h));
    assert_eq!(app.world.monsters[1].ai.cooldown, 1);
}

#[test]
fn items_that_do_not_all_fit_stay_on_the_ground() {
    let mut app = App::new_at(2, 1);
    let n = app.world.hero.inventory.slots.len();
    for i in 0..n - 1 {
        app.world.hero.inventory.slots[i] = Some(Item::potion_mp());
    }
    app.world.hero.inventory.slots[n - 1] = None;
    let pos = app.world.hero.pos;
    app.world.items.clear();
    app.world.items.push(GroundItem { pos, item: Item::potion_hp() });
    app.world.items.push(GroundItem { pos: TilePos(pos.0 + 1, pos.1), item: Item::gold(4) });
    app.world.items.push(GroundItem { pos: TilePos(pos.0, pos.1 + 1), item: Item::weapon(3, "검") });
    let mut gold: u32 = 0;
    let r = pick_up_outcome(&mut app.world, &mut gold);
    assert_eq!(r, PickupOutcome::InventoryFull);
    assert_eq!(gold, 4);
    assert!(app.world.hero.inventory.slots[n - 1].is_none());
    assert_eq!(app.world.items.len(), 2);
    assert_eq!(app.world.items[0].item.kind, ItemKind::HealthPotion);
    assert_eq!(app.world.items[1].item.kind, ItemKind::Weapon);
    app.world.items.remove(1);
    let r = pick_up_outcome(&mut app.world, &mut gold);
    assert_eq!(r, PickupOutcome::Picked);
    assert!(app.world.items.is_empty());
    assert_eq!(app.world.hero.inventory.slots[n - 1].as_ref().map(|i| i.kind), Some(ItemKind::HealthPotion));
}

#[test]
fn defense_bonus_is_taken_off_the_damage() {
    let a = Stats::new(10, 10, 1, 1, 10);
    let d0 = Stats::new(5, 5, 1, 1, 4);
    let d1 = Stats { defense_bonus: 3, ..d0 };
    let o0 = resolve_attack(&a, &d0, 60, 0);
    let o1 = resolve_attack(&a, &d1, 60, 0);
    assert!(o0.hit && !o0.crit);
    assert_eq!(o0.dmg, 16);
    assert_eq!(o1.dmg, 13);
    let wall = Stats { defense_bonus: 100, ..d0 };
    assert_eq!(resolve_attack(&a, &wall, 60, 0).dmg, 1);
    let neg = Stats { defense_bonus: -5, ..d0 };
    assert_eq!(resolve_attack(&a, &neg, 60, 0).dmg, 16);
    let c = resolve_attack(&a, &d1, 97, 0);
    assert!(c.crit);
    let raw = 10 + (97 % 21 - 10) - 2 - 3;
    assert_eq!(c.dmg, raw * 5 / 2);
}

#[test]
fn pickup_search_works_on_any_map_size() {
    let d = Dungeon { width: 5, height: 3, tiles: vec![Tile::Floor; 15], rooms: vec![], stairs: None };
    let items = vec![GroundItem { pos: TilePos(3, 1), item: Item::gold(2) }];
    assert_eq!(nearest_pickup_info(&d, &items, TilePos(1, 1)), Some((2, Direction::Right, '$')));
    assert_eq!(nearest_pickup_info(&d, &items, TilePos(3, 1)), Some((0, Direction::Stay, '$')));
    assert_eq!(nearest_pickup_info(&d, &items, TilePos(7, 1)), None);
}

#[test]
fn large_strength_attacks_resolve() {
    let a = Stats::new(1 << 28, 10, 1, 1, 10);
    let d = Stats::new(5, 5, 1, 1, 4);
    let o = resolve_attack(&a, &d, 60, 0);
    assert!(o.hit && !o.crit);
    let v: i64 = 1 << 28;
    let raw = v + (60 % (2 * v + 1)) - v - 2;
    assert_eq!(o.dmg as i64, raw);
}

#[test]
fn stairs_prompt_texts_follow_floor_and_locale() {
    let mut app = App::new_at(5, BOSS_FLOOR);
    assert_eq!(app.boss_hint(), Some(("※ 보스(", ") 처치 후 이동 가능")));
    assert_eq!(app.stairs_answer_labels(), ("[y] 예 — 다음 층으로", "[n] 취소 — 머무름"));
    app.locale = Locale::English;
    assert_eq!(app.boss_hint(), Some(("※ Defeat boss (", ") to descend")));
    assert_eq!(app.stairs_answer_labels(), ("[y] yes — descend", "[n] cancel — stay"));
    let low = App::new_at(5, 1);
    assert_eq!(low.boss_hint(), None);
    assert_eq!(asciirogue::i18n::t_for(Key::MsgStairConfirm, Locale::Korean), "▼ 다음 층으로 내려갈까?");
    assert_eq!(asciirogue::i18n::t_for(Key::MsgStairConfirm, Locale::English), "▼ Descend to the next floor?");
}

#[test]
fn wide_flat_maps_generate() {
    let d = asciirogue::procgen::bsp::generate(40000, 8, 7, asciirogue::procgen::bsp::Config::default());
    assert_eq!(d.tiles.len(), 320000);
    assert!(!d.rooms.is_empty());
    assert_eq!(d.tiles.iter().filter(|t| **t == Tile::StairsDown).count(), 1);
    let c = d.rooms.last().unwrap().center();
    assert_eq!(d.stairs, Some(TilePos(c.0, c.1)));
    let f = d.rooms[0].center();
    assert!(d.at(f.0, f.1).is_passable());
}

#[test]
fn lit_cells_become_row_major_positions() {
    let lit = vec![false, true, false, true, false, true];
    let mut out = vec![TilePos(9, 9)];
    asciirogue::vision::positions_of_lit(&lit, 3, 2, &mut out);
    assert_eq!(out, vec![TilePos(1, 0), TilePos(0, 1), TilePos(2, 1)]);
}

#[test]
fn inventory_slot_lines_are_padded_and_tagged() {
    let mut app = App::new_at(1, 1);
    app.world.hero.inventory.slots[0] = Some(Item::armor(4, "가죽 갑옷"));
    app.world.hero.inventory.slots[1] = Some(Item::weapon(-2, "녹슨 검"));
    equip_inventory_at(&mut app.world, 0);
    equip_inventory_at(&mut app.world, 1);
    assert_eq!(app.slot_line(0), format!(" 1. [A] {:<14}  보너스 +4", "[가죽 갑옷"));
    assert_eq!(app.slot_line(1), format!(" 2. [W] {:<14}  보너스 -2", ")녹슨 검"));
    assert_eq!(app.slot_line(2), " 3. (비어 있음)");
    app.world.hero.inventory.slots[3] = Some(Item::gold(0));
    assert_eq!(app.slot_line(3), format!(" 4.  {:<14}  보너스 +0", "$금화 0"));
    assert_eq!(app.slot_line(9), "10. (비어 있음)");
    app.world.hero.inventory.slots[4] = Some(Item::weapon(1, "아주아주아주아주긴이름의검"));
    assert_eq!(app.slot_line(4), " 5.  )아주아주아주아주긴이름의검  보너스 +1");
}
