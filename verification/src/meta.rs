//! Meta-progression carried between runs (Soul Remembrance).

use vstd::prelude::*;

verus! {

/// Permanent bonuses carried between runs.
#[derive(Copy, Clone, Debug, Default, PartialEq, Eq, Structural)]
pub struct SoulRemembrance {
    /// Champion souls unlocked (at most 30).
    pub champion_count: u32,
    /// Extra equipment slots (0..=8).
    pub wisps: u8,
    /// Bosses defeated across all runs (at most 50).
    pub marks_of_departed: u32,
    /// Gold carried over from earlier runs (at most 200).
    pub last_wager_gold: u32,
    /// Total clears of the 8-floor run.
    pub clears: u32,
}

/// Largest number of champion souls.
pub const CHAMPION_CAP: u32 = 30;
/// Largest last-wager deposit.
pub const WAGER_CAP: u32 = 200;
/// Largest number of marks of the departed.
pub const MARKS_CAP: u32 = 50;
/// Deepest floor of a full run.
pub const RUN_FLOORS: u32 = 8;

pub open spec fn min_int(a: int, b: int) -> int {
    if a < b { a } else { b }
}

/// `a + b` saturating at `u32::MAX`.
pub open spec fn sat_add(a: int, b: int) -> int {
    min_int(a + b, u32::MAX as int)
}

/// The remembrance after a run that reached `final_floor` with
/// `gold_remaining` gold and `bosses` bosses killed.
pub open spec fn after_run(
    m: SoulRemembrance,
    final_floor: int,
    gold_remaining: int,
    bosses: int,
) -> SoulRemembrance {
    let cleared = final_floor >= RUN_FLOORS;
    let deposit = min_int(gold_remaining / 10, WAGER_CAP as int);
    SoulRemembrance {
        champion_count: if cleared { min_int(m.champion_count + 1, CHAMPION_CAP as int) as u32 } else { m.champion_count },
        wisps: m.wisps,
        marks_of_departed: min_int(sat_add(m.marks_of_departed as int, bosses), MARKS_CAP as int) as u32,
        last_wager_gold: min_int(sat_add(m.last_wager_gold as int, deposit), WAGER_CAP as int) as u32,
        clears: if cleared { sat_add(m.clears as int, 1) as u32 } else { m.clears },
    }
}

/// All counters within their caps.
pub open spec fn within_caps(m: SoulRemembrance) -> bool {
    &&& m.champion_count <= CHAMPION_CAP
    &&& m.marks_of_departed <= MARKS_CAP
    &&& m.last_wager_gold <= WAGER_CAP
}

fn min_u32(a: u32, b: u32) -> (r: u32)
    ensures
        r == min_int(a as int, b as int),
{
    if a < b { a } else { b }
}

impl SoulRemembrance {
    /// Nothing unlocked yet.
    pub fn new() -> (r: Self)
        ensures
            r == (SoulRemembrance { champion_count: 0, wisps: 0, marks_of_departed: 0, last_wager_gold: 0, clears: 0 }),
    {
        SoulRemembrance { champion_count: 0, wisps: 0, marks_of_departed: 0, last_wager_gold: 0, clears: 0 }
    }

    /// Apply end-of-run rewards: a clear (floor 8 or deeper) adds a clear and a
    /// champion soul (cap 30); 10% of the remaining gold is deposited (cap 200);
    /// each boss killed adds a mark of the departed (cap 50).
    pub fn on_run_end(&mut self, final_floor: u32, gold_remaining: u32, bosses_killed_this_run: u32)
        ensures
            *final(self) == after_run(*old(self), final_floor as int, gold_remaining as int, bosses_killed_this_run as int),
    {
        if final_floor >= RUN_FLOORS {
            self.clears = self.clears.saturating_add(1);
            self.champion_count = if self.champion_count >= CHAMPION_CAP { CHAMPION_CAP } else { self.champion_count + 1 };
        }
        let deposit = min_u32(gold_remaining / 10, WAGER_CAP);
        self.last_wager_gold = min_u32(self.last_wager_gold.saturating_add(deposit), WAGER_CAP);
        self.marks_of_departed = min_u32(self.marks_of_departed.saturating_add(bosses_killed_this_run), MARKS_CAP);
    }
}

/// Ending a run keeps every counter within its cap.
pub proof fn lemma_run_end_keeps_caps(m: SoulRemembrance, final_floor: u32, gold: u32, bosses: u32)
    requires
        within_caps(m),
    ensures
        within_caps(after_run(m, final_floor as int, gold as int, bosses as int)),
{
}

/// Ending a run never lowers a counter that is within its cap: clears,
/// champion souls, marks and the wager only grow or stay.
pub proof fn lemma_run_end_monotone(m: SoulRemembrance, final_floor: u32, gold: u32, bosses: u32)
    requires
        within_caps(m),
    ensures
        ({
            let r = after_run(m, final_floor as int, gold as int, bosses as int);
            &&& r.clears >= m.clears
            &&& r.champion_count >= m.champion_count
            &&& r.marks_of_departed >= m.marks_of_departed
            &&& r.last_wager_gold >= m.last_wager_gold
            &&& r.wisps == m.wisps
        }),
{
}

/// A run that ends before floor 8 grants neither a clear nor a champion soul.
pub proof fn lemma_death_before_clear_grants_no_champion(m: SoulRemembrance, final_floor: u32, gold: u32, bosses: u32)
    requires
        final_floor < RUN_FLOORS,
    ensures
        after_run(m, final_floor as int, gold as int, bosses as int).clears == m.clears,
        after_run(m, final_floor as int, gold as int, bosses as int).champion_count == m.champion_count,
{
}

} // verus!
