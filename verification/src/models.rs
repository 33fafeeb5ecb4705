//! Which hull model and paint each faction flies.

use vstd::prelude::*;

verus! {

/// The powers of the Settled Dark.
#[derive(Debug, Clone, Copy, PartialEq, Eq, Structural, Hash)]
pub enum Faction {
    Corsairs,
    Houses,
    Janissariat,
    Guild,
    Freebooters,
}

/// The model every player hull loads, for previews that borrow it.
pub const SHIP_MODEL_PLAYER: &'static str = "models/challenger.glb";

/// The glb and colour-variant texture of a faction's hull. Every hull is
/// unique to its power, and each keeps its own baked paint.
pub open spec fn ship_model_spec(faction: Faction) -> (Seq<char>, Seq<char>) {
    match faction {
        Faction::Corsairs => ("models/challenger.glb"@, "models/textures/challenger_purple.png"@),
        Faction::Houses => ("models/imperial.glb"@, "models/textures/imperial_red.png"@),
        Faction::Janissariat => ("models/bob.glb"@, "models/textures/bob_orange.png"@),
        Faction::Guild => ("models/dispatcher.glb"@, "models/textures/dispatcher_blue.png"@),
        Faction::Freebooters => ("models/executioner.glb"@, "models/textures/executioner_green.png"@),
    }
}

/// The glb and colour-variant texture of a faction's hull.
pub fn ship_model(faction: Faction) -> (r: (&'static str, &'static str))
    ensures
        (r.0@, r.1@) == ship_model_spec(faction),
{
    match faction {
        Faction::Corsairs => ("models/challenger.glb", "models/textures/challenger_purple.png"),
        Faction::Houses => ("models/imperial.glb", "models/textures/imperial_red.png"),
        Faction::Janissariat => ("models/bob.glb", "models/textures/bob_orange.png"),
        Faction::Guild => ("models/dispatcher.glb", "models/textures/dispatcher_blue.png"),
        Faction::Freebooters => ("models/executioner.glb", "models/textures/executioner_green.png"),
    }
}

} // verus!
