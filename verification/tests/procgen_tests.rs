use asciirogue::procgen::bsp::{generate, Config};
use asciirogue::procgen::dungeon::{Dungeon, Rect, Tile};
use asciirogue::render::wall_glyph;

#[test]
fn rect_basic() {
    let r = Rect::new(2, 3, 7, 5);
    assert_eq!(r.width(), 6);
    assert_eq!(r.height(), 3);
    assert_eq!(r.center(), (4, 4));
    assert!(r.contains(4, 4));
    assert!(!r.contains(1, 4));
}

#[test]
fn dungeon_bounds() {
    let d = Dungeon {
        width: 10,
        height: 10,
        tiles: vec![Tile::Rock; 100],
        rooms: vec![],
        stairs: None,
    };
    assert_eq!(d.at(-1, 0), Tile::Rock);
    assert_eq!(d.at(0, 10), Tile::Rock);
    assert_eq!(d.at(0, 0), Tile::Rock);
}

#[test]
fn generate_a_floor() {
    let d = generate(60, 30, 12345, Config::default());
    assert!(!d.rooms.is_empty(), "BSP should produce rooms");
    let r = d.rooms[0];
    let (cx, cy) = r.center();
    assert!(
        d.at(cx, cy).is_passable(),
        "room center {:?} should be floor at ({},{})",
        d.at(cx, cy),
        cx,
        cy
    );
}

#[test]
fn determinism() {
    let a = generate(40, 24, 42, Config::default());
    let b = generate(40, 24, 42, Config::default());
    assert_eq!(a.tiles, b.tiles);
    assert_eq!(a.rooms.len(), b.rooms.len());
}

#[test]
fn different_seeds_differ() {
    let a = generate(40, 24, 1, Config::default());
    let b = generate(40, 24, 2, Config::default());
    assert_ne!(a.tiles, b.tiles);
}

#[test]
fn wall_glyph_handles_isolated_wall() {
    let d = Dungeon {
        width: 5,
        height: 5,
        tiles: vec![Tile::Floor; 25],
        rooms: vec![],
        stairs: None,
    };
    assert_eq!(wall_glyph(&d, 2, 2), ' ');
}

#[test]
fn dungeon_renders() {
    let _d = generate(20, 14, 99, Config::default());
}
