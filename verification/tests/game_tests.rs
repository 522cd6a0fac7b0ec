use asciirogue::components::{Direction, EquipSlot, Item, TilePos};
use asciirogue::game::app::{App, ModalMode};
use asciirogue::game::items::{
    drop_inventory_at, equip_inventory_at, recompute_stats_from_equipment, unequip_slot,
    use_inventory_at,
};
use asciirogue::game::keys::{key_to_direction, KeyCode, KeyPress};
use asciirogue::game::turn::Turn;
use asciirogue::game::world::{is_passable, GroundItem, BOSS_FLOOR};
use asciirogue::procgen::dungeon::Tile;

/// Walks the tiles between a monster at `a` and the hero at `b`; false when
/// one blocks sight.
fn los_clear(a: TilePos, b: TilePos, blocks: &[bool], width: i32) -> bool {
    let dx = b.0 - a.0;
    let dy = b.1 - a.1;
    let dist = dx.abs().max(dy.abs());
    for i in 1..dist {
        let t = i as f32 / dist as f32;
        let px = a.0 + (dx as f32 * t).round() as i32;
        let py = a.1 + (dy as f32 * t).round() as i32;
        let idx = ((py * width) + px) as usize;
        if idx < blocks.len() && blocks[idx] {
            return false;
        }
    }
    true
}

/// Presses a key and lets the monsters answer when it took a turn.
fn press(app: &mut App, code: KeyCode) {
    let t = app.handle(KeyPress { code, shift: false });
    if let Turn::EnemiesAct { arrived } = t {
        let hero = app.world.hero.pos;
        let clear: Vec<bool> = app
            .world
            .monsters
            .iter()
            .map(|m| los_clear(m.pos, hero, &app.blocks, app.dungeon.width))
            .collect();
        app.enemy_phase(arrived, &clear);
    }
}

fn clear_inventory(app: &mut App) {
    app.world.hero.inventory.slots.iter_mut().for_each(|s| *s = None);
}

fn stairs_of(app: &App) -> (i32, i32) {
    app.dungeon
        .stairs
        .map(|p| (p.0, p.1))
        .expect("floor 1 must place a StairsDown tile")
}

/// Puts the hero one step left of the stairs and walks right onto them.
fn walk_onto_stairs(app: &mut App) {
    let (sx, sy) = stairs_of(app);
    app.world.hero.pos = TilePos(sx - 1, sy);
    press(app, KeyCode::Right);
}

#[test]
fn test_dollar_key_pickup() {
    let mut app = App::new_at(0, 1);
    let player_pos = app.world.hero.pos;
    app.world.items.push(GroundItem { pos: player_pos, item: Item::gold(1) });
    clear_inventory(&mut app);
    let starting_gold = app.gold();
    press(&mut app, KeyCode::Char('$'));
    assert_eq!(
        app.gold(),
        starting_gold + 1,
        "gold must increment App::gold (was {}, now {})",
        starting_gold,
        app.gold()
    );
    assert!(
        app.world.hero.inventory.slots.iter().all(|s| s.is_none()),
        "inventory must stay empty — gold skips it (v0.5.9)"
    );
    assert!(
        app.messages().iter().any(|m| m.contains("골드")),
        "messages should mention gold: {:?}",
        app.messages()
    );
}

#[test]
fn test_potion_pickup_still_uses_inventory() {
    let mut app = App::new_at(0, 1);
    let player_pos = app.world.hero.pos;
    app.world.items.push(GroundItem { pos: player_pos, item: Item::potion_hp() });
    clear_inventory(&mut app);
    press(&mut app, KeyCode::Char('g'));
    let filled = app.world.hero.inventory.slots.iter().filter(|s| s.is_some()).count();
    assert_eq!(filled, 1, "non-gold items still occupy a slot");
    assert_eq!(app.world.hero.inventory.slots[0].as_ref().unwrap().glyph, '!');
}

#[test]
fn test_adjacent_pickup() {
    let mut app = App::new_at(0, 1);
    app.world.hero.pos = TilePos(10, 10);
    clear_inventory(&mut app);
    let starting_gold = app.gold();
    app.world.items.push(GroundItem { pos: TilePos(9, 10), item: Item::gold(3) });
    press(&mut app, KeyCode::Char('g'));
    assert_eq!(
        app.gold(),
        starting_gold + 3,
        "adjacent gold must increment App::gold by 3 (was {}, now {})",
        starting_gold,
        app.gold()
    );
    assert!(
        app.world.hero.inventory.slots.iter().all(|s| s.is_none()),
        "inventory must stay empty — gold skips it (v0.5.9)"
    );
    assert!(
        app.messages().iter().any(|m| m.contains("골드")),
        "messages should mention gold: {:?}",
        app.messages()
    );
}

#[test]
fn test_equip_weapon_updates_attack_bonus() {
    let mut app = App::new_at(0, 1);
    app.world.hero.pos = TilePos(20, 20);
    clear_inventory(&mut app);
    let sword = Item::weapon(5, "롱소드");
    app.world.hero.inventory.put_at(0, sword).unwrap();
    recompute_stats_from_equipment(&mut app.world);
    assert_eq!(app.world.hero.stats.attack_bonus, 0);
    assert_eq!(app.world.hero.stats.defense_bonus, 0);
    let msg = equip_inventory_at(&mut app.world, 0).unwrap();
    assert!(msg.contains("장착"), "msg should say equipped: {}", msg);
    assert_eq!(app.world.hero.stats.attack_bonus, 5, "attack_bonus should reflect sword");
    let _ = unequip_slot(&mut app.world, EquipSlot::Weapon).unwrap();
    assert_eq!(app.world.hero.stats.attack_bonus, 0, "attack_bonus must clear on unequip");
}

#[test]
fn test_armor_defense_bonus_and_weapon_swap() {
    let mut app = App::new_at(0, 1);
    app.world.hero.pos = TilePos(25, 25);
    clear_inventory(&mut app);
    app.world.hero.inventory.put_at(0, Item::armor(3, "가죽갑옷")).unwrap();
    app.world.hero.inventory.put_at(1, Item::weapon(4, "단검")).unwrap();
    app.world.hero.inventory.put_at(2, Item::weapon(7, "도끼")).unwrap();
    equip_inventory_at(&mut app.world, 0).unwrap();
    equip_inventory_at(&mut app.world, 1).unwrap();
    recompute_stats_from_equipment(&mut app.world);
    assert_eq!(app.world.hero.stats.attack_bonus, 4);
    assert_eq!(app.world.hero.stats.defense_bonus, 3);
    equip_inventory_at(&mut app.world, 2).unwrap();
    assert_eq!(app.world.hero.stats.attack_bonus, 7, "new weapon must take effect");
    assert_eq!(app.world.hero.stats.defense_bonus, 3, "armor must NOT be touched by weapon swap");
    let dagger_count = app
        .world
        .hero
        .inventory
        .slots
        .iter()
        .filter(|s| s.as_ref().map_or(false, |i| i.name == "단검"))
        .count();
    assert_eq!(dagger_count, 1, "swapped-out dagger must remain in inventory");
    assert_eq!(app.world.hero.equipment.weapon, Some(2));
    assert_eq!(app.world.hero.equipment.armor, Some(0));
}

#[test]
fn test_use_health_potion() {
    let mut app = App::new_at(0, 1);
    app.world.hero.pos = TilePos(30, 30);
    app.world.hero.health.current = 10;
    clear_inventory(&mut app);
    app.world.hero.inventory.put_at(0, Item::potion_hp()).unwrap();
    let msg = use_inventory_at(&mut app.world, 0).unwrap();
    assert!(msg.contains("HP +"));
    assert_eq!(app.world.hero.health.current, 25, "HP must rise by potion.bonus");
}

#[test]
fn test_drop_inventory_at() {
    let mut app = App::new_at(0, 1);
    app.world.hero.pos = TilePos(35, 35);
    clear_inventory(&mut app);
    app.world.hero.inventory.put_at(0, Item::gold(99)).unwrap();
    let msg = drop_inventory_at(&mut app.world, 0).unwrap();
    assert!(msg.contains("내려놓"), "drop msg should be confirmative: {}", msg);
    assert!(app.world.hero.inventory.slots[0].is_none());
    let ground = app.world.items.iter().any(|g| g.pos == TilePos(35, 35));
    assert!(ground, "dropped item must spawn a ground entity");
}

#[test]
fn test_p_key_quick_potion() {
    let mut app = App::new_at(0, 1);
    app.world.hero.pos = TilePos(40, 40);
    app.world.hero.health.current = 5;
    clear_inventory(&mut app);
    app.world.hero.inventory.put_at(0, Item::potion_hp()).unwrap();
    let before_hp = app.world.hero.health.current;
    press(&mut app, KeyCode::Char('p'));
    assert!(matches!(app.modal, ModalMode::Closed), "p must not open the modal: {:?}", app.modal);
    let after_hp = app.world.hero.health.current;
    assert!(after_hp > before_hp, "potion must heal ({} → {})", before_hp, after_hp);
    assert!(app.world.hero.inventory.slots[0].is_none(), "potion must be consumed");
}

#[test]
fn test_inventory_modal_open_close() {
    let mut app = App::new_at(0, 1);
    assert!(matches!(app.modal, ModalMode::Closed));
    press(&mut app, KeyCode::Char('i'));
    assert!(matches!(app.modal, ModalMode::Inventory { .. }), "i must open the modal: {:?}", app.modal);
    press(&mut app, KeyCode::Char('i'));
    assert!(matches!(app.modal, ModalMode::Closed), "second i must close the modal (toggle): {:?}", app.modal);
    press(&mut app, KeyCode::Char('i'));
    assert!(matches!(app.modal, ModalMode::Inventory { .. }));
    press(&mut app, KeyCode::Esc);
    assert!(matches!(app.modal, ModalMode::Closed), "Esc must close the modal: {:?}", app.modal);
    press(&mut app, KeyCode::Char('i'));
    press(&mut app, KeyCode::Char('I'));
    assert!(
        matches!(app.modal, ModalMode::Closed),
        "uppercase I inside modal must close it (muscle memory): {:?}",
        app.modal
    );
}

#[test]
fn yubn_diagonals() {
    assert_eq!(key_to_direction(&KeyCode::Char('y')), Some(Direction::UpLeft));
    assert_eq!(key_to_direction(&KeyCode::Char('u')), Some(Direction::UpRight));
    assert_eq!(key_to_direction(&KeyCode::Char('b')), Some(Direction::DownLeft));
    assert_eq!(key_to_direction(&KeyCode::Char('n')), Some(Direction::DownRight));
}

#[test]
fn arrow_keys_map_to_cardinals() {
    assert_eq!(key_to_direction(&KeyCode::Left), Some(Direction::Left));
    assert_eq!(key_to_direction(&KeyCode::Right), Some(Direction::Right));
    assert_eq!(key_to_direction(&KeyCode::Up), Some(Direction::Up));
    assert_eq!(key_to_direction(&KeyCode::Down), Some(Direction::Down));
}

#[test]
fn wait_and_others() {
    assert_eq!(key_to_direction(&KeyCode::Char('.')), Some(Direction::Stay));
    assert_eq!(key_to_direction(&KeyCode::Char('q')), None);
    assert_eq!(key_to_direction(&KeyCode::Char('r')), None);
    assert_eq!(key_to_direction(&KeyCode::Esc), None);
    assert_eq!(key_to_direction(&KeyCode::Char(' ')), None);
}

#[test]
fn is_passable_accepts_stairs_down() {
    let app = App::new_at(0xCAFE_BABE_DEAD_BEEF, 1);
    let (sx, sy) = stairs_of(&app);
    assert!(
        matches!(app.dungeon.at(sx, sy), Tile::StairsDown),
        "precondition: tile ({sx},{sy}) must be StairsDown (got {:?})",
        app.dungeon.at(sx, sy)
    );
    assert!(is_passable(&app.dungeon, sx, sy));
}

#[test]
fn walking_onto_stairs_pops_confirm_modal() {
    let mut app = App::new_at(0xCAFE_BABE_DEAD_BEEF, 1);
    let (sx, sy) = stairs_of(&app);
    let start = TilePos(sx - 1, sy);
    app.world.hero.pos = start;
    assert!(
        matches!(app.dungeon.at(start.0, start.1), Tile::Floor),
        "precondition: starting tile must be Floor, got {:?}",
        app.dungeon.at(start.0, start.1)
    );
    assert!(matches!(app.modal, ModalMode::Closed), "modal must start Closed");
    press(&mut app, KeyCode::Right);
    assert!(
        matches!(app.modal, ModalMode::ConfirmStairs { .. }),
        "after walking onto StairsDown, modal must be ConfirmStairs (got {:?})",
        app.modal
    );
    assert!(app.at_stairs, "after walking onto StairsDown, at_stairs must be true");
}

#[test]
fn debug_tilde_warp_still_opens_modal() {
    let mut app = App::new_at(0xCAFE_BABE_DEAD_BEEF, 1);
    press(&mut app, KeyCode::Char('~'));
    assert!(
        matches!(app.modal, ModalMode::ConfirmStairs { .. }),
        "~ debug warp must still open ConfirmStairs modal (got {:?})",
        app.modal
    );
    assert!(app.at_stairs, "~ debug warp must still set at_stairs");
}

#[test]
fn pressing_y_in_modal_descends_to_next_floor() {
    let mut app = App::new_at(0xCAFE_BABE_DEAD_BEEF, 1);
    let start_floor = app.floor;
    walk_onto_stairs(&mut app);
    assert!(
        matches!(app.modal, ModalMode::ConfirmStairs { .. }),
        "precondition: modal must be open after walking onto stairs"
    );
    press(&mut app, KeyCode::Char('y'));
    assert!(
        matches!(app.modal, ModalMode::Closed),
        "v0.5.21: pressing y in ConfirmStairs modal must close it (got {:?})",
        app.modal
    );
    assert_eq!(
        app.floor,
        start_floor + 1,
        "v0.5.21: pressing y must descend to next floor (was {}, now {})",
        start_floor,
        app.floor
    );
}

#[test]
fn pressing_n_in_modal_cancels_without_descending() {
    let mut app = App::new_at(0xCAFE_BABE_DEAD_BEEF, 1);
    let start_floor = app.floor;
    walk_onto_stairs(&mut app);
    assert!(matches!(app.modal, ModalMode::ConfirmStairs { .. }));
    press(&mut app, KeyCode::Char('n'));
    assert!(
        matches!(app.modal, ModalMode::Closed),
        "v0.5.21: pressing n must close the modal (got {:?})",
        app.modal
    );
    assert_eq!(
        app.floor, start_floor,
        "v0.5.21: pressing n must NOT descend (was {}, now {})",
        start_floor, app.floor
    );
}

#[test]
fn modal_opens_with_yes_selected() {
    let mut app = App::new_at(0xCAFE_BABE_DEAD_BEEF, 1);
    walk_onto_stairs(&mut app);
    match app.modal {
        ModalMode::ConfirmStairs { choice } => {
            assert!(choice, "modal must open with yes selected by default (got choice={})", choice);
        }
        other => panic!("expected ConfirmStairs, got {:?}", other),
    }
}

#[test]
fn arrow_down_moves_selection_to_no() {
    let mut app = App::new_at(0xCAFE_BABE_DEAD_BEEF, 1);
    walk_onto_stairs(&mut app);
    assert!(matches!(app.modal, ModalMode::ConfirmStairs { choice: true }));
    press(&mut app, KeyCode::Down);
    assert!(
        matches!(app.modal, ModalMode::ConfirmStairs { choice: false }),
        "Down arrow must move selection to no (got {:?})",
        app.modal
    );
}

#[test]
fn arrow_up_moves_selection_to_yes() {
    let mut app = App::new_at(0xCAFE_BABE_DEAD_BEEF, 1);
    walk_onto_stairs(&mut app);
    press(&mut app, KeyCode::Down);
    assert!(matches!(app.modal, ModalMode::ConfirmStairs { choice: false }));
    press(&mut app, KeyCode::Up);
    assert!(
        matches!(app.modal, ModalMode::ConfirmStairs { choice: true }),
        "Up arrow must move selection back to yes (got {:?})",
        app.modal
    );
}

#[test]
fn enter_with_yes_selected_descends() {
    let mut app = App::new_at(0xCAFE_BABE_DEAD_BEEF, 1);
    let start_floor = app.floor;
    walk_onto_stairs(&mut app);
    press(&mut app, KeyCode::Enter);
    assert_eq!(
        app.floor,
        start_floor + 1,
        "Enter with yes selected must descend (was {}, now {})",
        start_floor,
        app.floor
    );
    assert!(matches!(app.modal, ModalMode::Closed), "Enter must close the modal");
}

#[test]
fn enter_with_no_selected_cancels() {
    let mut app = App::new_at(0xCAFE_BABE_DEAD_BEEF, 1);
    let start_floor = app.floor;
    walk_onto_stairs(&mut app);
    press(&mut app, KeyCode::Down);
    assert!(matches!(app.modal, ModalMode::ConfirmStairs { choice: false }));
    press(&mut app, KeyCode::Enter);
    assert_eq!(
        app.floor, start_floor,
        "Enter with no selected must NOT descend (was {}, now {})",
        start_floor, app.floor
    );
    assert!(matches!(app.modal, ModalMode::Closed));
}

#[test]
fn cannot_descend_from_boss_floor_without_defeating_boss() {
    let mut app = App::new_at(0xCAFE_BABE_DEAD_BEEF, BOSS_FLOOR);
    let start_floor = app.floor;
    assert_eq!(start_floor, BOSS_FLOOR, "precondition: we are on the boss floor");
    assert!(!app.boss_defeated, "precondition: boss is not yet defeated");
    walk_onto_stairs(&mut app);
    assert!(matches!(app.modal, ModalMode::ConfirmStairs { choice: true }));
    press(&mut app, KeyCode::Char('y'));
    assert_eq!(
        app.floor, start_floor,
        "v0.5.23: pressing y on boss floor without defeating boss must NOT descend (was {}, now {})",
        start_floor, app.floor
    );
    assert!(
        app.messages().iter().any(|m| m.contains("보스를 먼저 처치")),
        "modal should log the boss-gate message: {:?}",
        app.messages()
    );
}

#[test]
fn boss_gate_keeps_modal_open() {
    let mut app = App::new_at(0xCAFE_BABE_DEAD_BEEF, BOSS_FLOOR);
    walk_onto_stairs(&mut app);
    assert!(matches!(app.modal, ModalMode::ConfirmStairs { choice: true }));
    press(&mut app, KeyCode::Char('y'));
    assert!(
        matches!(app.modal, ModalMode::ConfirmStairs { .. }),
        "v0.5.23: modal must STAY OPEN after boss-gate rejection. Got modal={:?}",
        app.modal
    );
}

#[test]
fn boss_gate_n_cancels_modal() {
    let mut app = App::new_at(0xCAFE_BABE_DEAD_BEEF, BOSS_FLOOR);
    walk_onto_stairs(&mut app);
    press(&mut app, KeyCode::Char('y'));
    assert!(matches!(app.modal, ModalMode::ConfirmStairs { .. }));
    press(&mut app, KeyCode::Char('n'));
    assert!(
        matches!(app.modal, ModalMode::Closed),
        "v0.5.23: n must cancel the modal even when boss gate is active"
    );
}

#[test]
fn cannot_descend_via_enter_on_boss_floor_without_defeating_boss() {
    let mut app = App::new_at(0xCAFE_BABE_DEAD_BEEF, BOSS_FLOOR);
    let start_floor = app.floor;
    walk_onto_stairs(&mut app);
    press(&mut app, KeyCode::Enter);
    assert_eq!(
        app.floor, start_floor,
        "v0.5.23: pressing Enter on boss floor without defeating boss must NOT descend"
    );
    assert!(
        matches!(app.modal, ModalMode::ConfirmStairs { .. }),
        "v0.5.23: Enter must also keep the modal open on boss-gate rejection"
    );
}

#[test]
fn death_saves_partial_remembrance() {
    let mut app = App::new_at(0xCAFE_BABE_DEAD_BEEF, 4);
    let starting_marks = app.remembrance.marks_of_departed;
    let starting_wager = app.remembrance.last_wager_gold;
    app.gold += 100;
    app.world.hero.health.current = 0;
    app.on_player_died_for_tests();
    assert!(
        app.remembrance.marks_of_departed >= starting_marks,
        "v0.5.25: death must not lose marks (was {}, now {})",
        starting_marks,
        app.remembrance.marks_of_departed
    );
    assert!(
        app.remembrance.last_wager_gold > starting_wager,
        "v0.5.25: death must deposit 10% of gold to last-wager pool (was {}, now {})",
        starting_wager,
        app.remembrance.last_wager_gold
    );
    assert!(app.game_over, "v0.5.25: death must set game_over=true");
}

#[test]
fn death_summary_messages_are_pushed() {
    let mut app = App::new_at(0xCAFE_BABE_DEAD_BEEF, 3);
    app.gold += 50;
    app.world.hero.health.current = 0;
    app.on_player_died_for_tests();
    let joined: String = app.messages().join(" | ");
    assert!(
        joined.contains("쓰러졌") || joined.contains("사망"),
        "v0.5.25: death summary must announce the death. Messages: {}",
        joined
    );
    assert!(
        joined.contains("3F") || joined.contains("3f") || joined.contains("도달"),
        "v0.5.25: death summary must show floor reached (3F). Messages: {}",
        joined
    );
    assert!(
        joined.contains("R") && (joined.contains("새 게임") || joined.contains("재시작")),
        "v0.5.25: death summary must show restart hotkey. Messages: {}",
        joined
    );
}

#[test]
fn death_credits_bosses_killed_to_remembrance() {
    let mut app = App::new_at(0xCAFE_BABE_DEAD_BEEF, 6);
    app.gold += 200;
    app.run_bosses_killed = 3;
    let starting_marks = app.remembrance.marks_of_departed;
    app.world.hero.health.current = 0;
    app.on_player_died_for_tests();
    let joined: String = app.messages().join(" | ");
    assert!(
        joined.contains("보스 3명 처치"),
        "v0.5.25: summary must show bosses killed (3). Messages: {}",
        joined
    );
    assert!(
        joined.contains("+3 표시"),
        "v0.5.25: summary must show marks earned (+3). Messages: {}",
        joined
    );
    assert_eq!(
        app.remembrance.marks_of_departed,
        starting_marks + 3,
        "v0.5.25: death must award marks of the departed for bosses killed"
    );
}

#[test]
fn death_handler_is_idempotent() {
    let mut app = App::new_at(0xCAFE_BABE_DEAD_BEEF, 2);
    app.gold += 200;
    app.world.hero.health.current = 0;
    app.on_player_died_for_tests();
    let marks_after_first = app.remembrance.marks_of_departed;
    let wager_after_first = app.remembrance.last_wager_gold;
    app.on_player_died_for_tests();
    app.on_player_died_for_tests();
    assert_eq!(
        app.remembrance.marks_of_departed, marks_after_first,
        "v0.5.25: death handler must be idempotent — marks doubled"
    );
    assert_eq!(
        app.remembrance.last_wager_gold, wager_after_first,
        "v0.5.25: death handler must be idempotent — wager doubled"
    );
    assert!(app.game_over);
}

#[test]
fn debug_bang_adds_potion() {
    let mut app = App::new_at(0xCAFE_BABE_DEAD_BEEF, 1);
    clear_inventory(&mut app);
    let before = app.world.hero.inventory.slots.iter().filter(|s| s.is_some()).count();
    press(&mut app, KeyCode::Char('!'));
    let after = app.world.hero.inventory.slots.iter().filter(|s| s.is_some()).count();
    assert_eq!(
        after,
        before + 1,
        "v0.5.26: `!` must add exactly one slot item (was {}, now {})",
        before,
        after
    );
    let joined: String = app.messages().join(" | ");
    assert!(
        joined.contains("물약") || joined.contains("cheat") || joined.contains("치트"),
        "v0.5.26: `!` must log the cheat. Messages: {}",
        joined
    );
}

#[test]
fn debug_bang_refuses_when_inventory_full() {
    let mut app = App::new_at(0xCAFE_BABE_DEAD_BEEF, 1);
    for i in 0..app.world.hero.inventory.slots.len() {
        let _ = app.world.hero.inventory.put_at(i, Item::gold(1));
    }
    press(&mut app, KeyCode::Char('!'));
    let joined: String = app.messages().join(" | ");
    assert!(
        joined.contains("가득") || joined.contains("full") || joined.contains("실패"),
        "v0.5.26: `!` with full inventory must log a refusal. Messages: {}",
        joined
    );
}
