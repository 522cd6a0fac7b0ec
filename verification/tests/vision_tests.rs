use asciirogue::components::TilePos;
use asciirogue::vision::compute;

fn empty_map(w: i32, h: i32) -> Vec<bool> {
    vec![false; (w * h) as usize]
}

#[test]
fn origin_always_visible() {
    let w = 10;
    let h = 10;
    let blocks = empty_map(w, h);
    let mut out = Vec::new();
    compute(TilePos(5, 5), w, h, 4, &blocks, &mut out);
    assert!(out.contains(&TilePos(5, 5)), "origin should be visible");
}

#[test]
fn wall_blocks_two_steps_away() {
    let w = 10;
    let h = 10;
    let mut blocks = empty_map(w, h);
    blocks[(5 + 6 * w) as usize] = true;
    let mut out = Vec::new();
    compute(TilePos(5, 5), w, h, 8, &blocks, &mut out);
    assert!(out.contains(&TilePos(5, 6)), "wall cell is itself visible (light_walls=true)");
    assert!(!out.contains(&TilePos(5, 7)), "one tile south of wall should be hidden");
    assert!(!out.contains(&TilePos(5, 8)), "two tiles south of wall should be hidden");
}

#[test]
fn determinism_is_perfect() {
    let w = 18;
    let h = 12;
    let blocks = empty_map(w, h);
    let mut a = Vec::new();
    let mut b = Vec::new();
    compute(TilePos(3, 3), w, h, 6, &blocks, &mut a);
    compute(TilePos(3, 3), w, h, 6, &blocks, &mut b);
    assert_eq!(a, b);
}

#[test]
fn radius_limits_visibility() {
    let w = 30;
    let h = 1;
    let blocks = empty_map(w, h);
    let mut out = Vec::new();
    compute(TilePos(15, 0), w, h, 5, &blocks, &mut out);
    assert!(!out.contains(&TilePos(21, 0)));
    assert!(out.contains(&TilePos(19, 0)));
}
