use asciirogue::combat::ai::{take_turn, AiAction};
use asciirogue::combat::attack::resolve_attack;
use asciirogue::components::{AiKind, Direction, Stats, TilePos};

fn walkable_all(x: i32, y: i32) -> bool {
    !(x < 0 || y < 0 || x > 20 || y > 20)
}

/// The eight neighbours of `p`, clockwise from up, as `take_turn` reads them.
fn neighbours_open(p: TilePos, open: impl Fn(i32, i32) -> bool) -> [bool; 8] {
    let dirs = Direction::eight();
    let mut out = [false; 8];
    for (k, d) in dirs.iter().enumerate() {
        let (dx, dy) = d.delta();
        out[k] = open(p.0 + dx, p.1 + dy);
    }
    out
}

/// Walks the tiles between `a` and `b`; false when one blocks sight.
fn line_clear(a: TilePos, b: TilePos, blocks: impl Fn(i32, i32) -> bool) -> bool {
    let dx = b.0 - a.0;
    let dy = b.1 - a.1;
    let dist = dx.abs().max(dy.abs());
    for i in 1..dist {
        let t = i as f32 / dist as f32;
        let px = a.0 + (dx as f32 * t).round() as i32;
        let py = a.1 + (dy as f32 * t).round() as i32;
        if blocks(px, py) {
            return false;
        }
    }
    true
}

fn sight_no_walls(_: i32, _: i32) -> bool {
    false
}

#[test]
fn attacks_when_adjacent() {
    let e = TilePos(5, 5);
    let p = TilePos(6, 5);
    let a = take_turn(e, p, 8, AiKind::Chase, Some(p), &neighbours_open(e, walkable_all), line_clear(e, p, sight_no_walls));
    assert_eq!(a, AiAction::AttackPlayer);
}

#[test]
fn waits_when_last_known_player_is_stale() {
    let e = TilePos(5, 5);
    let p = TilePos(20, 20);
    let a = take_turn(e, p, 5, AiKind::Chase, Some(TilePos(0, 0)), &neighbours_open(e, walkable_all), line_clear(e, p, sight_no_walls));
    assert_eq!(a, AiAction::Idle);
}

#[test]
fn chases_toward_player_when_seen() {
    let e = TilePos(0, 0);
    let p = TilePos(5, 0);
    let a = take_turn(e, p, 8, AiKind::Chase, Some(p), &neighbours_open(e, walkable_all), line_clear(e, p, sight_no_walls));
    match a {
        AiAction::Step(d) => {
            assert_eq!(d.delta(), (1, 0), "should step right toward player");
        }
        other => panic!("expected Step(Right), got {:?}", other),
    }
}

#[test]
fn coward_steps_away_when_seen() {
    let e = TilePos(5, 5);
    let p = TilePos(8, 5);
    let a = take_turn(e, p, 8, AiKind::Coward, Some(p), &neighbours_open(e, walkable_all), line_clear(e, p, sight_no_walls));
    match a {
        AiAction::Step(d) => {
            assert_eq!(d.delta(), (-1, 1), "should flee down-left");
        }
        other => panic!("expected Step(DownLeft), got {:?}", other),
    }
}

#[test]
fn wall_blocks_line_of_sight() {
    let sight_wall = |x: i32, y: i32| -> bool { x == 1 && y == 0 };
    let e = TilePos(0, 0);
    let p = TilePos(5, 0);
    let a = take_turn(e, p, 8, AiKind::Chase, Some(p), &neighbours_open(e, walkable_all), line_clear(e, p, sight_wall));
    assert_eq!(a, AiAction::Idle, "wall at (1,0) should block LOS");
}

fn atk(s: i32, d: i32) -> Stats {
    Stats::new(s, d, 0, 0, 0)
}

fn def(c: i32, dx: i32) -> Stats {
    Stats::new(0, dx, 0, 0, c)
}

#[test]
fn miss_with_high_dodge() {
    let out = resolve_attack(&atk(5, 5), &def(3, 30), 50, 0);
    assert!(!out.hit, "target with high DEX should dodge low roll");
    assert_eq!(out.dmg, 0);
}

#[test]
fn hit_with_high_attacker() {
    let out = resolve_attack(&atk(10, 20), &def(2, 0), 99, 5);
    assert!(out.hit);
    assert!(out.dmg >= 1, "every hit should deal at least 1 dmg");
}

#[test]
fn natural_crit_on_highest_roll() {
    let out = resolve_attack(&atk(10, 20), &def(2, 0), 98, 0);
    assert!(out.crit);
    assert!(out.dmg >= 2, "crit bumps damage");
}

#[test]
fn damage_caps_at_one_minimum() {
    let out = resolve_attack(&atk(2, 0), &def(100, 0), 50, 0);
    assert!(out.hit || !out.hit);
    if out.hit {
        assert!(out.dmg >= 1, "damage has a 1-floor (variance can swing negative)");
    }
}

#[test]
fn crit_overrides_miss() {
    let out = resolve_attack(&atk(10, 20), &def(2, 50), 99, 0);
    assert!(out.crit);
    assert!(out.hit, "crit counts as hit even when dodge threshold is high");
}
