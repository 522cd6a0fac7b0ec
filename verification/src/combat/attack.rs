//! Attack resolution: hit roll, damage and critical hits.

use vstd::prelude::*;
use crate::components::Stats;
use crate::combat::arith::{trunc_rem, trunc_div, rem_i32, div_i32};

verus! {

#[derive(Copy, Clone, Debug, Default, PartialEq, Eq, Structural)]
pub struct AttackOutcome {
    pub hit: bool,
    pub dmg: i32,
    pub crit: bool,
}

/// The d100 roll: `rng` read as `i32` and clamped to `[0, 99]`.
pub open spec fn d100(rng: u32) -> int {
    let r = (rng as i32) as int;
    if r < 0 { 0 } else if r > 99 { 99 } else { r }
}

/// Roll needed to hit: `100 - (50 + 2*DEX + bonus) + 3*defender DEX`.
pub open spec fn hit_target(a: Stats, d: Stats, attack_bonus: int) -> int {
    100 - (50 + a.dexterity * 2 + attack_bonus) + d.dexterity * 3
}

/// Damage before the floor of 1: `STR + variance - CON/2`, the variance being
/// `rng % (2*max(STR,1)+1) - max(STR,1)`.
pub open spec fn raw_damage(a: Stats, d: Stats, rng: u32) -> int {
    let variance = if a.strength < 1 { 1 } else { a.strength as int };
    let dv = trunc_rem((rng as i32) as int, variance * 2 + 1) - variance;
    a.strength + dv - trunc_div(d.constitution as int, 2)
}

/// The defender's defense bonus as it counts against damage: never below 0.
pub open spec fn defense_of(d: Stats) -> int {
    if d.defense_bonus < 0 { 0 } else { d.defense_bonus as int }
}

/// Damage of an ordinary hit: the raw damage less the defender's defense
/// bonus, at least 1.
pub open spec fn hit_damage(a: Stats, d: Stats, rng: u32) -> int {
    let net = raw_damage(a, d, rng) - defense_of(d);
    if net < 1 { 1 } else { net }
}

/// The outcome of an attack: a roll of 95 or more is a critical hit, which
/// always hits; otherwise the roll must reach the hit target. A hit deals the
/// raw damage less the defender's defense bonus, at least 1, and a critical
/// hit deals 5/2 of that (rounded down).
pub open spec fn attack_outcome(a: Stats, d: Stats, rng: u32, attack_bonus: int) -> AttackOutcome {
    let roll = d100(rng);
    let crit = roll >= 95;
    let hit = crit || roll >= hit_target(a, d, attack_bonus);
    if !hit {
        AttackOutcome { hit: false, dmg: 0, crit: false }
    } else {
        let dmg = hit_damage(a, d, rng);
        AttackOutcome { hit: true, dmg: (if crit { dmg * 5 / 2 } else { dmg }) as i32, crit }
    }
}

/// `v` fits in an `i32`.
pub open spec fn fits_i32(v: int) -> bool {
    i32::MIN <= v <= i32::MAX
}

/// The attacker's chance to hit before the defender's dodge.
pub open spec fn to_hit_of(a: Stats, attack_bonus: int) -> int {
    50 + a.dexterity * 2 + attack_bonus
}

/// The spread of the damage roll: the strength, at least 1.
pub open spec fn variance_of(a: Stats) -> int {
    if a.strength < 1 { 1 } else { a.strength as int }
}

/// Every step of the `i32` arithmetic of an attack stays within `i32`: the
/// hit target always, and on a hit the damage roll and, on a critical hit,
/// the 5/2 scaling.
pub open spec fn attack_in_range(a: Stats, d: Stats, rng: u32, attack_bonus: int) -> bool {
    let t = to_hit_of(a, attack_bonus);
    let v = variance_of(a);
    let rem = trunc_rem((rng as i32) as int, v * 2 + 1);
    &&& fits_i32(a.dexterity * 2)
    &&& fits_i32(50 + a.dexterity * 2)
    &&& fits_i32(t)
    &&& fits_i32(d.dexterity * 3)
    &&& fits_i32(100 - t)
    &&& fits_i32(100 - t + d.dexterity * 3)
    &&& (attack_outcome(a, d, rng, attack_bonus).hit ==> {
        &&& fits_i32(v * 2 + 1)
        &&& fits_i32(rem - v)
        &&& fits_i32(a.strength + rem - v)
        &&& fits_i32(raw_damage(a, d, rng))
        &&& (d100(rng) >= 95 ==> fits_i32(hit_damage(a, d, rng) * 5))
    })
}

/// Resolve an attack. `rng` is a d100-style value, clamped to `[0, 99]`;
/// `attack_bonus` raises the chance to hit and the defender's
/// `defense_bonus` is subtracted from the damage.
pub fn resolve_attack(attacker_stats: &Stats, defender_stats: &Stats, rng: u32, attack_bonus: i32) -> (out: AttackOutcome)
    requires
        attack_in_range(*attacker_stats, *defender_stats, rng, attack_bonus as int),
    ensures
        out == attack_outcome(*attacker_stats, *defender_stats, rng, attack_bonus as int),
        out.hit ==> out.dmg >= 1,
        !out.hit ==> out.dmg == 0 && !out.crit,
        out.crit ==> out.hit,
{
    #[verifier::truncate]
    let r = rng as i32;
    let roll = if r < 0 { 0 } else if r > 99 { 99 } else { r };
    let to_hit_chance = 50 + attacker_stats.dexterity * 2 + attack_bonus;
    let dodge_threshold = defender_stats.dexterity * 3;
    let target = 100 - to_hit_chance + dodge_threshold;
    let crit = roll >= 95;
    let hit = crit || roll >= target;
    if !hit {
        return AttackOutcome { hit: false, dmg: 0, crit: false };
    }
    let variance = if attacker_stats.strength < 1 { 1 } else { attacker_stats.strength };
    let d = rem_i32(r, variance * 2 + 1) - variance;
    let raw = attacker_stats.strength + d - div_i32(defender_stats.constitution, 2);
    let def: i64 = if defender_stats.defense_bonus < 0 { 0 } else { defender_stats.defense_bonus as i64 };
    let net: i64 = raw as i64 - def;
    let dmg: i32 = if net < 1 { 1 } else { net as i32 };
    let dmg = if crit { dmg * 5 / 2 } else { dmg };
    AttackOutcome { hit: true, dmg, crit }
}

/// A critical hit never deals less than an ordinary hit with the same roll.
pub proof fn lemma_crit_not_weaker(a: Stats, d: Stats, rng: u32, attack_bonus: int)
    requires
        attack_in_range(a, d, rng, attack_bonus),
        attack_outcome(a, d, rng, attack_bonus).crit,
    ensures
        attack_outcome(a, d, rng, attack_bonus).dmg >= hit_damage(a, d, rng),
{
}

/// More defense never means more damage: raising only the defender's defense
/// bonus leaves hitting unchanged and never raises the damage dealt.
pub proof fn lemma_defense_never_adds_damage(a: Stats, d0: Stats, d1: Stats, rng: u32, attack_bonus: int)
    requires
        attack_in_range(a, d0, rng, attack_bonus),
        d1 == (Stats { defense_bonus: d1.defense_bonus, ..d0 }),
        d0.defense_bonus <= d1.defense_bonus,
    ensures
        attack_outcome(a, d1, rng, attack_bonus).hit == attack_outcome(a, d0, rng, attack_bonus).hit,
        attack_outcome(a, d1, rng, attack_bonus).crit == attack_outcome(a, d0, rng, attack_bonus).crit,
        attack_outcome(a, d1, rng, attack_bonus).dmg <= attack_outcome(a, d0, rng, attack_bonus).dmg,
{
    let h0 = hit_damage(a, d0, rng);
    let h1 = hit_damage(a, d1, rng);
    assert(h1 <= h0);
    assert(h1 * 5 / 2 <= h0 * 5 / 2) by (nonlinear_arith)
        requires h1 <= h0;
}

/// How an attack lands, in terms of its inputs. With `roll` the d100 value
/// (`rng` as `i32`, clamped to `[0, 99]`): a roll of 95 or more is a
/// critical hit; otherwise it hits exactly when `roll >= 100 - (50 +
/// 2 * attacker DEX + attack_bonus) + 3 * defender DEX`. A hit deals the
/// attacker's strength plus a variance of `rng % (2 * max(STR, 1) + 1) -
/// max(STR, 1)`, less half the defender's constitution and its (non-negative)
/// defense bonus, at least 1; a critical hit deals 5/2 of that. A miss deals
/// nothing (damage is read as `i32`). A larger attack bonus never turns a hit
/// into a miss.
pub proof fn law_attack_rule(a: Stats, d: Stats, rng: u32, attack_bonus: int, more: int)
    requires
        attack_bonus <= more,
    ensures
        ({
            let r = (rng as i32) as int;
            let roll = if r < 0 { 0 } else if r > 99 { 99 } else { r };
            let out = attack_outcome(a, d, rng, attack_bonus);
            let v = if a.strength < 1 { 1 } else { a.strength as int };
            let raw = a.strength + trunc_rem(r, 2 * v + 1) - v - trunc_div(d.constitution as int, 2);
            let def = if d.defense_bonus < 0 { 0 } else { d.defense_bonus as int };
            let base = if raw - def < 1 { 1 } else { raw - def };
            &&& out.crit == (roll >= 95)
            &&& out.hit == (roll >= 95 || roll >= 100 - (50 + 2 * a.dexterity + attack_bonus) + 3 * d.dexterity)
            &&& (out.hit && !out.crit ==> out.dmg == base as i32)
            &&& (out.crit ==> out.dmg == (base * 5 / 2) as i32)
            &&& (!out.hit ==> out.dmg == 0)
        }),
        attack_outcome(a, d, rng, attack_bonus).hit ==> attack_outcome(a, d, rng, more).hit,
{
}

/// Stats of moderate size (as the game keeps them) never overflow an attack.
pub proof fn lemma_moderate_stats_in_range(a: Stats, d: Stats, rng: u32, attack_bonus: int)
    requires
        -0x0100_0000 <= a.dexterity <= 0x0100_0000,
        -0x0100_0000 <= d.dexterity <= 0x0100_0000,
        -0x4000_0000 <= attack_bonus <= 0x4000_0000,
        -0x0100_0000 <= a.strength <= 0x0100_0000,
        -0x0100_0000 <= d.constitution <= 0x0100_0000,
    ensures
        attack_in_range(a, d, rng, attack_bonus),
{
    let v = variance_of(a);
    let m = v * 2 + 1;
    let x = (rng as i32) as int;
    let rem = trunc_rem(x, m);
    if x >= 0 {
        assert(0 <= x % m < m) by (nonlinear_arith) requires m > 0;
    } else {
        assert(0 <= (-x) % m < m) by (nonlinear_arith) requires m > 0, -x > 0;
    }
    assert(-m < rem < m);
    let c = d.constitution as int;
    let half = trunc_div(c, 2);
    assert(-0x0100_0000 <= half <= 0x0100_0000);
    assert(hit_damage(a, d, rng) <= 0x0400_0000);
}

} // verus!
