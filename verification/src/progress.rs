//! What survives a run ending: the career tally on the title card.

use vstd::prelude::*;
use crate::session::Outcome;

verus! {

/// Everything the game remembers between runs.
#[derive(Debug, Clone, Copy, PartialEq, Eq, Structural)]
pub struct Career {
    /// Runs that reached an ending. A quit mid-run is not a run.
    pub runs: u32,
    /// Runs that cleared every wave.
    pub victories: u32,
    /// The deepest wave reached, won or lost.
    pub deepest_wave: u32,
    pub ships_boarded: u64,
}

impl Default for Career {
    fn default() -> (c: Career)
        ensures
            c.runs == 0 && c.victories == 0 && c.deepest_wave == 0 && c.ships_boarded == 0,
    {
        Career { runs: 0, victories: 0, deepest_wave: 0, ships_boarded: 0 }
    }
}

/// A run whose encounter could be recorded without any tally overflowing.
pub open spec fn can_record(career: Career, outcome: Outcome, ships_boarded: u32) -> bool {
    &&& career.runs < u32::MAX
    &&& outcome == Outcome::Cleared ==> career.victories < u32::MAX
    &&& career.ships_boarded + ships_boarded <= u64::MAX
}

/// The career with one more finished run folded in. The wave a run reports is
/// at least the first, as the end-of-run banner counts it.
pub open spec fn record_spec(career: Career, outcome: Outcome, wave: u32, ships_boarded: u32) -> Career {
    let reached = if wave > 1 {
        wave
    } else {
        1
    };
    Career {
        runs: (career.runs + 1) as u32,
        victories: if outcome == Outcome::Cleared {
            (career.victories + 1) as u32
        } else {
            career.victories
        },
        deepest_wave: if career.deepest_wave > reached {
            career.deepest_wave
        } else {
            reached
        },
        ships_boarded: (career.ships_boarded + ships_boarded) as u64,
    }
}

/// Fold a finished run into the career: one more run, one more victory if the
/// encounter was cleared, the deepest wave kept, and the ships boarded added.
pub fn record(career: &mut Career, outcome: Outcome, wave: u32, ships_boarded: u32)
    requires
        can_record(*old(career), outcome, ships_boarded),
    ensures
        *final(career) == record_spec(*old(career), outcome, wave, ships_boarded),
{
    career.runs = career.runs + 1;
    if outcome == Outcome::Cleared {
        career.victories = career.victories + 1;
    }
    let reached = if wave > 1 {
        wave
    } else {
        1
    };
    if reached > career.deepest_wave {
        career.deepest_wave = reached;
    }
    career.ships_boarded = career.ships_boarded + ships_boarded as u64;
}

/// The tally stays consistent whatever runs are folded in: there are never
/// more victories than runs, a recorded run always reaches some wave, and
/// nothing the career counts ever goes down.
pub proof fn law_career_only_grows(career: Career, outcome: Outcome, wave: u32, ships_boarded: u32)
    requires
        can_record(career, outcome, ships_boarded),
    ensures
        career.victories <= career.runs ==> record_spec(career, outcome, wave, ships_boarded).victories
            <= record_spec(career, outcome, wave, ships_boarded).runs,
        record_spec(career, outcome, wave, ships_boarded).runs == career.runs + 1,
        record_spec(career, outcome, wave, ships_boarded).deepest_wave >= 1,
        record_spec(career, outcome, wave, ships_boarded).deepest_wave >= career.deepest_wave,
        record_spec(career, outcome, wave, ships_boarded).deepest_wave >= wave,
        record_spec(career, outcome, wave, ships_boarded).ships_boarded >= career.ships_boarded,
        record_spec(career, outcome, wave, ships_boarded).victories >= career.victories,
{
}

} // verus!
