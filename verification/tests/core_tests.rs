use asciirogue::components::{
    Direction, FloorTheme, Health, Inventory, Item, ItemKind, Mana, Renderable, TilePos,
    ENERGY_PER_TURN,
};
use asciirogue::i18n::{t_for, translation_table, Key, Locale};
use asciirogue::meta::SoulRemembrance;

#[test]
fn energy_threshold_baseline() {
    assert!(ENERGY_PER_TURN == 100);
}

#[test]
fn direction_deltas_match_vim_yubn() {
    assert_eq!(Direction::Left.delta(), (-1, 0));
    assert_eq!(Direction::Right.delta(), (1, 0));
    assert_eq!(Direction::Up.delta(), (0, -1));
    assert_eq!(Direction::Down.delta(), (0, 1));
    assert_eq!(Direction::UpLeft.delta(), (-1, -1));
    assert_eq!(Direction::DownRight.delta(), (1, 1));
}

#[test]
fn tile_pos_basics() {
    let p = TilePos::new(3, 4);
    assert_eq!(p.x(), 3);
    assert_eq!(p.y(), 4);
}

#[test]
fn renderable_constructs() {
    let r = Renderable::new('@', 0xFFD65A);
    assert_eq!(r.glyph, '@');
    assert_eq!(r.fg_rgb, 0xFFD65A);
}

#[test]
fn health_dies_at_zero() {
    let mut h = Health::new(10);
    assert!(!h.is_dead());
    assert_eq!(h.take(3), 3);
    assert_eq!(h.current, 7);
    assert_eq!(h.take(100), 7, "cannot over-damage; capped at current");
    assert!(h.is_dead());
}

#[test]
fn mana_spend_respects_pool() {
    let mut m = Mana::new(5);
    assert!(m.spend(3));
    assert_eq!(m.current, 2);
    assert!(!m.spend(5), "cannot spend more than current");
    assert_eq!(m.current, 2);
}

#[test]
fn inventory_round_trip() {
    let mut inv = Inventory::new(4);
    assert!(inv.is_empty());
    assert_eq!(inv.push(Item::potion_hp()), Ok(0));
    assert_eq!(inv.push(Item::potion_mp()), Ok(1));
    assert_eq!(inv.push(Item::gold(15)), Ok(2));
    assert_eq!(inv.push(Item::weapon(2, "단검")), Ok(3));
    assert_eq!(inv.push(Item::potion_hp()), Err(()));
    let it = inv.take(2).expect("gold slot");
    assert_eq!(it.kind, ItemKind::Coin);
    assert_eq!(it.bonus, 15);
    assert!(inv.slots[2].is_none());
    assert!(!inv.is_empty());
    for i in 0..4 {
        inv.take(i);
    }
    assert!(inv.is_empty());
}

#[test]
fn floor_theme_mapping() {
    assert_eq!(FloorTheme::from_depth(1), FloorTheme::Cave);
    assert_eq!(FloorTheme::from_depth(4), FloorTheme::Cave);
    assert_eq!(FloorTheme::from_depth(5), FloorTheme::Catacomb);
    assert_eq!(FloorTheme::from_depth(28), FloorTheme::Boss);
}

#[test]
fn locale_code_round_trip() {
    assert_eq!(Locale::from_code("ko"), Locale::Korean);
    assert_eq!(Locale::from_code("en"), Locale::English);
    assert_eq!(Locale::from_code("xyz"), Locale::Korean, "unknown falls back to ko");
}

#[test]
fn strings_pair_exist() {
    for (_k, ko, en) in translation_table() {
        assert!(!ko.is_empty(), "ko missing");
        assert!(!en.is_empty(), "en missing");
    }
}

#[test]
fn translate_returns_non_empty() {
    assert_eq!(t_for(Key::MsgDeath, Locale::Korean), "쓰러졌습니다…");
    assert_eq!(t_for(Key::MsgDeath, Locale::English), "You died…");
}

#[test]
fn fresh_is_empty() {
    let m = SoulRemembrance::new();
    assert_eq!(m.champion_count, 0);
    assert_eq!(m.wisps, 0);
}

#[test]
fn clearing_grants_champion_soul() {
    let mut m = SoulRemembrance::new();
    m.on_run_end(8, 100, 1);
    assert_eq!(m.champion_count, 1);
    assert_eq!(m.clears, 1);
    assert!(m.last_wager_gold >= 10, "10% of 100 = 10 gold");
}

#[test]
fn dying_floor_4_grants_no_champion() {
    let mut m = SoulRemembrance::new();
    m.on_run_end(4, 50, 0);
    assert_eq!(m.champion_count, 0);
    assert!(m.last_wager_gold >= 5, "10% of 50 = 5 gold");
}

#[test]
fn capstone_respects_max_caps() {
    let mut m = SoulRemembrance::new();
    for _ in 0..100 {
        m.on_run_end(8, 99999, 8);
    }
    assert_eq!(m.champion_count, 30);
    assert_eq!(m.last_wager_gold, 200);
    assert_eq!(m.marks_of_departed, 50);
}
