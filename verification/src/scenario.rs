//! Scenarios: an encounter as data. This is the part of laying one out that is
//! a decision rather than a spawn: which class a placed ship is, and which of
//! the scenario's per-ship overrides it carries.

use vstd::prelude::*;
use crate::models::Faction;
use crate::ships::{find_spec, ClassId, DirectorSettings, DirectorSpec, ShipTable, resolve_spec};

verus! {

/// Per-ship overrides a scenario can apply. All default to off, so a placed
/// ship is an ordinary ship unless the file says otherwise.
#[derive(Debug, Clone, Copy, PartialEq, Eq, Structural, Default)]
pub struct ShipFlags {
    /// Takes no hull damage, though hits still register.
    pub invulnerable: bool,
    /// No controller at all: it never steers, never fires, and never counts as
    /// an enemy the encounter is waiting on.
    pub inert: bool,
    /// Never moves, whatever writes its helm.
    pub anchored: bool,
}

/// One ship placed by a scenario. `P` is where and how it starts (position,
/// facing, an optional hull override), handed to the spawn as authored.
pub struct PlacedShip<P> {
    /// Name of its class.
    pub class: String,
    pub faction: Faction,
    pub pose: P,
    pub flags: ShipFlags,
}

/// What to spawn for one placed ship.
#[derive(Debug, Clone, Copy, PartialEq)]
pub struct SpawnPlan<C, P> {
    pub class_id: ClassId,
    pub class: C,
    pub faction: Faction,
    pub pose: P,
    /// The ship the encounter revolves around, flown by the player.
    pub player: bool,
    /// Steered by its class's AI.
    pub controller: bool,
    pub invulnerable: bool,
    pub anchored: bool,
}

/// The plan for a placed ship: nothing when its class is unknown; otherwise
/// its class, and a controller only for a ship that is neither the player's
/// nor inert.
pub open spec fn spawn_spec<C, P>(
    classes: Seq<crate::ships::NamedClass<C>>,
    placed: PlacedShip<P>,
    protagonist: bool,
) -> Option<SpawnPlan<C, P>> {
    match find_spec(classes, placed.class@) {
        None => None,
        Some((class_id, class)) => Some(
            SpawnPlan {
                class_id,
                class,
                faction: placed.faction,
                pose: placed.pose,
                player: protagonist,
                controller: !protagonist && !placed.flags.inert,
                invulnerable: placed.flags.invulnerable,
                anchored: placed.flags.anchored,
            },
        ),
    }
}

/// Plan one placed ship. `None` when the class name is unknown, so the caller
/// can say which scenario is wrong rather than quietly flying the wrong ship.
pub fn spawn_placed<C: Copy, P: Copy>(
    table: &ShipTable<C>,
    placed: &PlacedShip<P>,
    protagonist: bool,
) -> (r: Option<SpawnPlan<C, P>>)
    ensures
        r == spawn_spec(table.classes@, *placed, protagonist),
        r is Some <==> find_spec(table.classes@, placed.class@) is Some,
        r matches Some(plan) ==> (plan.invulnerable == placed.flags.invulnerable
            && plan.anchored == placed.flags.anchored && plan.faction == placed.faction
            && plan.pose == placed.pose && plan.player == protagonist),
{
    match table.find(placed.class.as_str()) {
        None => None,
        Some((class_id, class)) => Some(
            SpawnPlan {
                class_id,
                class: *class,
                faction: placed.faction,
                pose: placed.pose,
                player: protagonist,
                controller: !protagonist && !placed.flags.inert,
                invulnerable: placed.flags.invulnerable,
                anchored: placed.flags.anchored,
            },
        ),
    }
}

/// A scenario's waves: none when it has no director, otherwise its director
/// resolved against the class table.
pub fn director_for<C: Copy, W: Copy>(director: &Option<DirectorSpec<W>>, table: &ShipTable<C>) -> (r:
    Option<DirectorSettings<C, W>>)
    ensures
        r == (match director {
            Some(spec) => resolve_spec(*spec, table.classes@),
            None => None,
        }),
{
    match director {
        Some(spec) => spec.resolve(table),
        None => None,
    }
}

/// The player's ship is never handed to the AI, and an inert ship never gets
/// a controller either, whatever else the file says.
pub proof fn law_player_and_inert_are_never_steered<C, P>(
    classes: Seq<crate::ships::NamedClass<C>>,
    placed: PlacedShip<P>,
    protagonist: bool,
)
    ensures
        spawn_spec(classes, placed, protagonist) matches Some(plan) ==> (plan.controller <==> (
        !protagonist && !placed.flags.inert)),
        spawn_spec(classes, placed, protagonist) matches Some(plan) ==> plan.player == protagonist,
{
}

/// Each override goes through on its own: for every placed ship whose class
/// is known, the plan is invulnerable exactly when the ship is flagged so and
/// anchored exactly when it is flagged so, whatever the other flags and
/// whoever flies it; it keeps the ship's faction and pose; and a ship of an
/// unknown class gets no plan at all.
pub proof fn law_each_override_goes_through_on_its_own<C, P>(
    classes: Seq<crate::ships::NamedClass<C>>,
    placed: PlacedShip<P>,
    protagonist: bool,
)
    ensures
        spawn_spec(classes, placed, protagonist) is Some <==> find_spec(classes, placed.class@) is Some,
        spawn_spec(classes, placed, protagonist) matches Some(plan) ==> (plan.invulnerable
            == placed.flags.invulnerable && plan.anchored == placed.flags.anchored && plan.faction
            == placed.faction && plan.pose == placed.pose),
{
}

/// The plans for a run of placed ships, none of them the player's, in order,
/// skipping each whose class is unknown.
pub open spec fn standing_plans<C, P>(
    classes: Seq<crate::ships::NamedClass<C>>,
    placed: Seq<PlacedShip<P>>,
) -> Seq<SpawnPlan<C, P>>
    decreases placed.len(),
{
    if placed.len() == 0 {
        Seq::empty()
    } else {
        let before = standing_plans(classes, placed.drop_last());
        match spawn_spec(classes, placed.last(), false) {
            Some(plan) => before.push(plan),
            None => before,
        }
    }
}

/// The positions in `placed` whose class is unknown, in order.
pub open spec fn unknown_positions<C, P>(
    classes: Seq<crate::ships::NamedClass<C>>,
    placed: Seq<PlacedShip<P>>,
) -> Seq<usize>
    decreases placed.len(),
{
    if placed.len() == 0 {
        Seq::empty()
    } else {
        let before = unknown_positions(classes, placed.drop_last());
        if find_spec(classes, placed.last().class@) is None {
            before.push((placed.len() - 1) as usize)
        } else {
            before
        }
    }
}

/// What laying out a scenario spawns: the player's ship (when its class is
/// known), then every standing ship whose class is known, in order; and which
/// standing ships were skipped for naming an unknown class, so each can be
/// reported rather than the whole scenario failing.
pub struct ScenarioPlan<C, P> {
    pub player: Option<SpawnPlan<C, P>>,
    pub standing: Vec<SpawnPlan<C, P>>,
    pub skipped: Vec<usize>,
}

/// Plan a scenario's ships: the player first, flown by the player, then its
/// standing ships.
pub fn plan_scenario<C: Copy, P: Copy>(
    table: &ShipTable<C>,
    player: &PlacedShip<P>,
    standing: &Vec<PlacedShip<P>>,
) -> (plan: ScenarioPlan<C, P>)
    ensures
        plan.player == spawn_spec(table.classes@, *player, true),
        plan.standing@ == standing_plans(table.classes@, standing@),
        plan.skipped@ == unknown_positions(table.classes@, standing@),
{
    let first = spawn_placed(table, player, true);
    let mut plans: Vec<SpawnPlan<C, P>> = Vec::new();
    let mut skipped: Vec<usize> = Vec::new();
    let mut i: usize = 0;
    while i < standing.len()
        invariant
            i <= standing@.len(),
            plans@ == standing_plans(table.classes@, standing@.subrange(0, i as int)),
            skipped@ == unknown_positions(table.classes@, standing@.subrange(0, i as int)),
        decreases standing@.len() - i,
    {
        proof {
            let pre = standing@.subrange(0, i + 1);
            assert(pre.drop_last() =~= standing@.subrange(0, i as int));
            assert(pre.last() == standing@[i as int]);
        }
        match spawn_placed(table, &standing[i], false) {
            Some(plan) => plans.push(plan),
            None => skipped.push(i),
        }
        i = i + 1;
    }
    proof {
        assert(standing@.subrange(0, standing@.len() as int) =~= standing@);
    }
    ScenarioPlan { player: first, standing: plans, skipped }
}

/// A scenario has one player: none of its standing ships is ever flown by
/// the player, and every one of them is planned or reported, never both.
pub proof fn law_standing_ships_are_never_the_player<C, P>(
    classes: Seq<crate::ships::NamedClass<C>>,
    placed: Seq<PlacedShip<P>>,
)
    ensures
        forall|i: int|
            0 <= i < standing_plans(classes, placed).len() ==> !(#[trigger] standing_plans(
                classes,
                placed,
            )[i]).player,
        standing_plans(classes, placed).len() + unknown_positions(classes, placed).len()
            == placed.len(),
    decreases placed.len(),
{
    if placed.len() > 0 {
        law_standing_ships_are_never_the_player(classes, placed.drop_last());
    }
}

} // verus!
