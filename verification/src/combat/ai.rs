//! Enemy AI: attack when adjacent, otherwise step toward (or away from) the player.

use vstd::prelude::*;
use crate::components::{AiKind, Direction, TilePos, delta_of, eight_spec};

verus! {

#[derive(Copy, Clone, Debug, PartialEq, Eq, Structural)]
pub enum AiAction {
    /// Move one step in a direction.
    Step(Direction),
    /// Stay put (no passable neighbour).
    Wait,
    /// Attack the adjacent player.
    AttackPlayer,
    /// The player is not seen.
    Idle,
}

/// Coordinates small enough that neighbour and distance arithmetic fits `i32`.
pub open spec fn in_coord_range(p: TilePos) -> bool {
    -0x1000_0000 <= p.0 <= 0x1000_0000 && -0x1000_0000 <= p.1 <= 0x1000_0000
}

pub open spec fn abs_int(v: int) -> int {
    if v < 0 { -v } else { v }
}

/// Chebyshev (king-move) distance.
pub open spec fn chebyshev(a: TilePos, b: TilePos) -> int {
    let dx = abs_int(b.0 - a.0);
    let dy = abs_int(b.1 - a.1);
    if dx < dy { dy } else { dx }
}

/// The direction from `a` to an adjacent `b`; `Stay` when `b` is `a` itself or
/// further than one step away.
pub open spec fn adjacent_dir(a: TilePos, b: TilePos) -> Direction {
    let dx = b.0 - a.0;
    let dy = b.1 - a.1;
    if abs_int(dx) > 1 || abs_int(dy) > 1 {
        Direction::Stay
    } else if dx == 0 && dy == 0 {
        Direction::Stay
    } else if dx == -1 && dy == 0 {
        Direction::Left
    } else if dx == 1 && dy == 0 {
        Direction::Right
    } else if dx == 0 && dy == -1 {
        Direction::Up
    } else if dx == 0 && dy == 1 {
        Direction::Down
    } else if dx == -1 && dy == -1 {
        Direction::UpLeft
    } else if dx == 1 && dy == -1 {
        Direction::UpRight
    } else if dx == -1 && dy == 1 {
        Direction::DownLeft
    } else {
        Direction::DownRight
    }
}

/// The neighbour of `p` in direction `d`.
pub open spec fn step_pos(p: TilePos, d: Direction) -> TilePos {
    TilePos((p.0 + delta_of(d).0) as i32, (p.1 + delta_of(d).1) as i32)
}

/// Score of the `k`-th neighbour (in `eight_spec` order): its distance to the
/// target when chasing, minus that distance when fleeing. Smaller is better.
pub open spec fn step_score(from: TilePos, target: TilePos, flee: bool, k: int) -> int {
    let dist = chebyshev(step_pos(from, eight_spec()[k]), target);
    if flee { -dist } else { dist }
}

/// Best `(score, index)` among the first `k` neighbours that are passable;
/// ties keep the earliest.
pub open spec fn best_among(from: TilePos, target: TilePos, flee: bool, passable: Seq<bool>, k: nat) -> Option<(int, int)>
    decreases k,
{
    if k == 0 {
        None
    } else {
        let prev = best_among(from, target, flee, passable, (k - 1) as nat);
        let i = k - 1;
        if !passable[i] {
            prev
        } else {
            let s = step_score(from, target, flee, i);
            match prev {
                Some(b) => if s < b.0 { Some((s, i)) } else { prev },
                None => Some((s, i)),
            }
        }
    }
}

/// The step chosen among the eight neighbours, if any is passable.
pub open spec fn best_step(from: TilePos, target: TilePos, flee: bool, passable: Seq<bool>) -> Option<Direction> {
    match best_among(from, target, flee, passable, 8) {
        Some(b) => Some(eight_spec()[b.1]),
        None => None,
    }
}

/// Does the enemy see the player? It must remember the player at exactly the
/// player's position, and the player must be on its tile, or within `vision`
/// with a clear line (`path_clear`).
pub open spec fn sees_player(enemy: TilePos, player: TilePos, vision: int, last_known: Option<TilePos>, path_clear: bool) -> bool {
    let dist = chebyshev(enemy, player);
    last_known == Some(player) && (dist == 0 || (dist <= vision && path_clear))
}

/// The action an enemy takes.
pub open spec fn turn_action(
    enemy: TilePos,
    player: TilePos,
    vision: int,
    kind: AiKind,
    last_known: Option<TilePos>,
    passable: Seq<bool>,
    path_clear: bool,
) -> AiAction {
    if sees_player(enemy, player, vision, last_known, path_clear) {
        if adjacent_dir(enemy, player) != Direction::Stay {
            AiAction::AttackPlayer
        } else {
            match best_step(enemy, player, kind == AiKind::Coward, passable) {
                Some(d) => AiAction::Step(d),
                None => AiAction::Wait,
            }
        }
    } else {
        AiAction::Idle
    }
}

fn abs_i32(v: i32) -> (r: i32)
    requires
        v > i32::MIN,
    ensures
        r == abs_int(v as int),
{
    if v < 0 { -v } else { v }
}

fn chebyshev_exec(a: TilePos, b: TilePos) -> (r: i32)
    requires
        -0x1000_0001 <= a.0 <= 0x1000_0001 && -0x1000_0001 <= a.1 <= 0x1000_0001,
        -0x1000_0001 <= b.0 <= 0x1000_0001 && -0x1000_0001 <= b.1 <= 0x1000_0001,
    ensures
        r == chebyshev(a, b),
{
    let dx = abs_i32(b.0 - a.0);
    let dy = abs_i32(b.1 - a.1);
    if dx < dy { dy } else { dx }
}

/// The direction from `a` to an adjacent `b`; `Stay` when not adjacent.
pub fn adjacent_enemy(a: TilePos, b: TilePos) -> (r: Direction)
    requires
        in_coord_range(a),
        in_coord_range(b),
    ensures
        r == adjacent_dir(a, b),
{
    let dx = b.0 - a.0;
    let dy = b.1 - a.1;
    if abs_i32(dx) > 1 || abs_i32(dy) > 1 {
        return Direction::Stay;
    }
    if dx == 0 && dy == 0 {
        Direction::Stay
    } else if dx == -1 && dy == 0 {
        Direction::Left
    } else if dx == 1 && dy == 0 {
        Direction::Right
    } else if dx == 0 && dy == -1 {
        Direction::Up
    } else if dx == 0 && dy == 1 {
        Direction::Down
    } else if dx == -1 && dy == -1 {
        Direction::UpLeft
    } else if dx == 1 && dy == -1 {
        Direction::UpRight
    } else if dx == -1 && dy == 1 {
        Direction::DownLeft
    } else {
        Direction::DownRight
    }
}

/// Picks the neighbour with the lowest score (distance to `target` when chasing,
/// its negation when fleeing) among the passable ones; `passable[k]` tells
/// whether the `k`-th neighbour (clockwise from `Up`) can be entered.
pub fn best_step_toward(from: TilePos, target: TilePos, flee: bool, passable: &[bool; 8]) -> (r: Option<Direction>)
    requires
        in_coord_range(from),
        in_coord_range(target),
    ensures
        r == best_step(from, target, flee, passable@),
{
    let dirs = Direction::eight();
    let mut best_score: Option<i32> = None;
    let mut best_dir: Option<Direction> = None;
    let mut k: usize = 0;
    while k < 8
        invariant
            k <= 8,
            dirs@ == eight_spec(),
            in_coord_range(from),
            in_coord_range(target),
            passable@.len() == 8,
            match best_among(from, target, flee, passable@, k as nat) {
                Some(b) => best_score == Some(b.0 as i32) && best_dir == Some(eight_spec()[b.1])
                    && -0x2000_0002 <= b.0 <= 0x2000_0002,
                None => best_score is None && best_dir is None,
            },
        decreases 8 - k,
    {
        let dir = dirs[k];
        let (dx, dy) = dir.delta();
        if passable[k] {
            let np = TilePos(from.0 + dx, from.1 + dy);
            assert(np == step_pos(from, eight_spec()[k as int]));
            let dist = chebyshev_exec(np, target);
            let s = if flee { -dist } else { dist };
            let update = match best_score {
                Some(b) => s < b,
                None => true,
            };
            if update {
                best_score = Some(s);
                best_dir = Some(dir);
            }
        }
        k = k + 1;
    }
    best_dir
}

/// Step toward `target`.
pub fn chase_step(from: TilePos, target: TilePos, passable: &[bool; 8]) -> (r: Option<Direction>)
    requires
        in_coord_range(from),
        in_coord_range(target),
    ensures
        r == best_step(from, target, false, passable@),
{
    best_step_toward(from, target, false, passable)
}

/// Step away from `target`.
pub fn flee_step(from: TilePos, target: TilePos, passable: &[bool; 8]) -> (r: Option<Direction>)
    requires
        in_coord_range(from),
        in_coord_range(target),
    ensures
        r == best_step(from, target, true, passable@),
{
    best_step_toward(from, target, true, passable)
}

/// Decide what an enemy does on its turn.
///
/// The enemy acts only when it sees the player: it must remember the player at
/// the player's current position, and either stand on the player's tile or be
/// within `vision` (Chebyshev) with no sight-blocking tile between them
/// (`path_clear`, the result of walking the intermediate tiles). Then it
/// attacks when adjacent, else steps toward the player (away for a coward)
/// through the best passable neighbour (`passable[k]` for the `k`-th
/// neighbour clockwise from `Up`), or waits when none is passable.
pub fn take_turn(
    enemy: TilePos,
    player: TilePos,
    vision: i32,
    kind: AiKind,
    last_known_player: Option<TilePos>,
    passable: &[bool; 8],
    path_clear: bool,
) -> (a: AiAction)
    requires
        in_coord_range(enemy),
        in_coord_range(player),
    ensures
        a == turn_action(enemy, player, vision as int, kind, last_known_player, passable@, path_clear),
{
    let dist = chebyshev_exec(enemy, player);
    let sees = last_known_player == Some(player) && (dist == 0 || (dist <= vision && path_clear));
    if sees {
        let adj = adjacent_enemy(enemy, player);
        if adj != Direction::Stay {
            return AiAction::AttackPlayer;
        }
        let target = match kind {
            AiKind::Coward => flee_step(enemy, player, passable),
            AiKind::Chase | AiKind::PatrolThenChase => chase_step(enemy, player, passable),
        };
        match target {
            Some(d) => AiAction::Step(d),
            None => AiAction::Wait,
        }
    } else {
        AiAction::Idle
    }
}

/// A chasing step never ends further from the target than any other
/// passable neighbour.
pub proof fn lemma_chase_step_is_closest(from: TilePos, target: TilePos, passable: Seq<bool>, k: nat, j: int)
    requires
        k <= 8,
        0 <= j < k,
        passable.len() == 8,
        passable[j],
    ensures
        best_among(from, target, false, passable, k) matches Some(b)
            && b.0 <= step_score(from, target, false, j)
            && b.0 == step_score(from, target, false, b.1)
            && 0 <= b.1 < k
            && passable[b.1],
    decreases k,
{
    if j < k - 1 {
        lemma_chase_step_is_closest(from, target, passable, (k - 1) as nat, j);
    } else {
        if k > 1 {
            lemma_best_among_facts(from, target, false, passable, (k - 1) as nat);
        }
    }
}

proof fn lemma_best_among_facts(from: TilePos, target: TilePos, flee: bool, passable: Seq<bool>, k: nat)
    requires
        k <= 8,
        passable.len() == 8,
    ensures
        best_among(from, target, flee, passable, k) matches Some(b) ==>
            b.0 == step_score(from, target, flee, b.1) && 0 <= b.1 < k && passable[b.1],
    decreases k,
{
    if k > 0 {
        lemma_best_among_facts(from, target, flee, passable, (k - 1) as nat);
    }
}

/// Among the first `k` neighbours, the best one scores no worse than any
/// passable one.
proof fn lemma_best_among_extreme(from: TilePos, target: TilePos, flee: bool, passable: Seq<bool>, k: nat, j: int)
    requires
        k <= 8,
        0 <= j < k,
        passable.len() == 8,
        passable[j],
    ensures
        best_among(from, target, flee, passable, k) matches Some(b)
            && b.0 <= step_score(from, target, flee, j)
            && b.0 == step_score(from, target, flee, b.1)
            && 0 <= b.1 < k
            && passable[b.1],
    decreases k,
{
    if j < k - 1 {
        lemma_best_among_extreme(from, target, flee, passable, (k - 1) as nat, j);
    } else {
        if k > 1 {
            lemma_best_among_facts(from, target, flee, passable, (k - 1) as nat);
        }
    }
}

/// The step an enemy chooses among its eight neighbours: there is one
/// exactly when some neighbour is passable; it is a passable neighbour; when
/// chasing, no passable neighbour is nearer the target (Chebyshev); when
/// fleeing, no passable neighbour is farther from it.
pub proof fn law_step_choice(from: TilePos, target: TilePos, flee: bool, passable: Seq<bool>)
    requires
        passable.len() == 8,
    ensures
        best_step(from, target, flee, passable) is Some <==> exists|k: int| 0 <= k < 8 && #[trigger] passable[k],
        best_step(from, target, flee, passable) matches Some(d) ==> exists|j: int| {
            &&& 0 <= j < 8
            &&& passable[j]
            &&& d == #[trigger] eight_spec()[j]
            &&& forall|k: int| 0 <= k < 8 && #[trigger] passable[k] ==> if flee {
                chebyshev(step_pos(from, eight_spec()[k]), target) <= chebyshev(step_pos(from, d), target)
            } else {
                chebyshev(step_pos(from, d), target) <= chebyshev(step_pos(from, eight_spec()[k]), target)
            }
        },
{
    lemma_best_among_facts(from, target, flee, passable, 8);
    if exists|k: int| 0 <= k < 8 && #[trigger] passable[k] {
        let k0 = choose|k: int| 0 <= k < 8 && #[trigger] passable[k];
        lemma_best_among_extreme(from, target, flee, passable, 8, k0);
        let b = best_among(from, target, flee, passable, 8)->Some_0;
        assert forall|k: int| 0 <= k < 8 && #[trigger] passable[k] implies if flee {
            chebyshev(step_pos(from, eight_spec()[k]), target) <= chebyshev(step_pos(from, eight_spec()[b.1]), target)
        } else {
            chebyshev(step_pos(from, eight_spec()[b.1]), target) <= chebyshev(step_pos(from, eight_spec()[k]), target)
        } by {
            lemma_best_among_extreme(from, target, flee, passable, 8, k);
        }
        assert(passable[b.1]);
    } else {
        lemma_best_among_none(from, target, flee, passable, 8);
    }
}

proof fn lemma_best_among_none(from: TilePos, target: TilePos, flee: bool, passable: Seq<bool>, k: nat)
    requires
        k <= 8,
        passable.len() == 8,
        forall|i: int| 0 <= i < k ==> !#[trigger] passable[i],
    ensures
        best_among(from, target, flee, passable, k) is None,
    decreases k,
{
    if k > 0 {
        lemma_best_among_none(from, target, flee, passable, (k - 1) as nat);
    }
}

/// How an enemy that sees the hero moves when not adjacent: a coward steps
/// to a passable neighbour no nearer the hero than any other passable
/// neighbour (Chebyshev), any other kind to one no farther; it waits only
/// when no neighbour is passable.
pub proof fn law_enemy_steps(
    enemy: TilePos,
    player: TilePos,
    vision: int,
    kind: AiKind,
    last_known: Option<TilePos>,
    passable: Seq<bool>,
    path_clear: bool,
)
    requires
        passable.len() == 8,
        sees_player(enemy, player, vision, last_known, path_clear),
        adjacent_dir(enemy, player) == Direction::Stay,
    ensures
        turn_action(enemy, player, vision, kind, last_known, passable, path_clear) == AiAction::Wait
            <==> forall|k: int| 0 <= k < 8 ==> !#[trigger] passable[k],
        turn_action(enemy, player, vision, kind, last_known, passable, path_clear) matches AiAction::Step(d)
            ==> exists|j: int| {
                &&& 0 <= j < 8
                &&& passable[j]
                &&& d == #[trigger] eight_spec()[j]
                &&& forall|k: int| 0 <= k < 8 && #[trigger] passable[k] ==> if kind == AiKind::Coward {
                    chebyshev(step_pos(enemy, eight_spec()[k]), player) <= chebyshev(step_pos(enemy, d), player)
                } else {
                    chebyshev(step_pos(enemy, d), player) <= chebyshev(step_pos(enemy, eight_spec()[k]), player)
                }
            },
        turn_action(enemy, player, vision, kind, last_known, passable, path_clear) is Step
            || turn_action(enemy, player, vision, kind, last_known, passable, path_clear) is Wait,
{
    law_step_choice(enemy, player, kind == AiKind::Coward, passable);
}

} // verus!
