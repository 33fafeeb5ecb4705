//! Every data file the client loads, in one place, so a rename cannot leave a
//! mistyped path to be discovered as a confusing parse error at runtime.

use vstd::prelude::*;

verus! {

/// Simulation rules: damage, ranges, AI gains.
pub const SIM_TUNING: &'static str = "data/sim.tuning.ron";

/// The game's normal encounter.
pub const SKIRMISH: &'static str = "data/scenarios/skirmish.scn.ron";

/// A bare range with one inert, invulnerable, anchored target.
pub const TEST_RANGE: &'static str = "data/scenarios/test_range.scn.ron";

} // verus!
