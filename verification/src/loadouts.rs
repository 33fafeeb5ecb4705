//! The loadout catalogue: what the player may bolt onto their sloop, in three
//! slots, and how a selection is laid over a class's own loadout.
//!
//! The devices themselves are carried as opaque payloads: a broadside, a
//! battery-slot kit (its pool and whichever devices draw on it) and a special.
//! Fitting never looks inside them; it only decides which of them a ship
//! carries.

use vstd::prelude::*;

verus! {

/// Which option is selected in each slot, as indices into the catalogue.
#[derive(Debug, Clone, Copy, PartialEq, Eq, Structural)]
pub struct SelectedLoadout {
    pub broadside: usize,
    pub battery: usize,
    pub special: usize,
}

impl Default for SelectedLoadout {
    fn default() -> (s: SelectedLoadout)
        ensures
            s.broadside == 0 && s.battery == 0 && s.special == 0,
    {
        SelectedLoadout { broadside: 0, battery: 0, special: 0 }
    }
}

/// A named broadside: the guns themselves, wholesale.
pub struct BroadsideOption<B> {
    /// String-table id of the option's menu text.
    pub id: String,
    pub broadside: B,
}

/// A named battery-slot fit: the pool and the devices that draw on it.
pub struct BatteryOption<Y> {
    pub id: String,
    pub kit: Y,
}

/// A named special.
pub struct SpecialOption<S> {
    pub id: String,
    pub kit: S,
}

/// Everything the player may fit, per slot.
pub struct LoadoutCatalogue<B, Y, S> {
    pub broadsides: Vec<BroadsideOption<B>>,
    pub batteries: Vec<BatteryOption<Y>>,
    pub specials: Vec<SpecialOption<S>>,
}

/// What a ship carries: its broadside and its hull's own shield, and the
/// battery-slot and special kits if any.
#[derive(Debug, Clone, Copy, PartialEq)]
pub struct ShipLoadout<B, H, Y, S> {
    pub broadside: B,
    pub shield: H,
    pub battery: Option<Y>,
    pub special: Option<S>,
}

/// The option an index selects: the one at that index, or the first when the
/// index has gone stale; nothing only when the slot is empty.
pub open spec fn pick_spec<T>(options: Seq<T>, index: usize) -> Option<T> {
    if index < options.len() {
        Some(options[index as int])
    } else if options.len() > 0 {
        Some(options[0])
    } else {
        None
    }
}

/// The option at `index`, falling back to the first when the index has gone
/// stale. `None` only when the slot is empty, which is an authoring mistake.
pub fn pick<T>(options: &Vec<T>, index: usize) -> (r: Option<&T>)
    ensures
        match r {
            Some(x) => pick_spec(options@, index) == Some(*x),
            None => pick_spec(options@, index) == None::<T>,
        },
{
    if index < options.len() {
        Some(&options[index])
    } else if options.len() > 0 {
        Some(&options[0])
    } else {
        None
    }
}

pub open spec fn broadside_kits<B>(o: Seq<BroadsideOption<B>>) -> Seq<B> {
    o.map_values(|x: BroadsideOption<B>| x.broadside)
}

pub open spec fn battery_kits<Y>(o: Seq<BatteryOption<Y>>) -> Seq<Y> {
    o.map_values(|x: BatteryOption<Y>| x.kit)
}

pub open spec fn special_kits<S>(o: Seq<SpecialOption<S>>) -> Seq<S> {
    o.map_values(|x: SpecialOption<S>| x.kit)
}

/// The fit a selection gives over `base`: every slot replaced wholesale by
/// its picked option (an empty slot carries nothing, except the broadside,
/// which stays the class's own), and the hull's shield untouched.
pub open spec fn fit_spec<B, H, Y, S>(
    cat: LoadoutCatalogue<B, Y, S>,
    base: ShipLoadout<B, H, Y, S>,
    selected: SelectedLoadout,
) -> ShipLoadout<B, H, Y, S> {
    ShipLoadout {
        broadside: match pick_spec(broadside_kits(cat.broadsides@), selected.broadside) {
            Some(b) => b,
            None => base.broadside,
        },
        shield: base.shield,
        battery: pick_spec(battery_kits(cat.batteries@), selected.battery),
        special: pick_spec(special_kits(cat.specials@), selected.special),
    }
}

impl<B: Copy, Y: Copy, S: Copy> LoadoutCatalogue<B, Y, S> {
    /// Lay the three selected options over `base`, giving the fit a ship
    /// spawns with. Every slot is overwritten wholesale, including the ones
    /// the selected option leaves out: picking a new special must remove the
    /// old one, or a fit would only ever accumulate.
    pub fn fit<H: Copy>(&self, base: ShipLoadout<B, H, Y, S>, selected: SelectedLoadout) -> (r:
        ShipLoadout<B, H, Y, S>)
        ensures
            r == fit_spec(*self, base, selected),
    {
        let broadside = match pick(&self.broadsides, selected.broadside) {
            Some(o) => o.broadside,
            None => base.broadside,
        };
        let battery = match pick(&self.batteries, selected.battery) {
            Some(o) => Some(o.kit),
            None => None,
        };
        let special = match pick(&self.specials, selected.special) {
            Some(o) => Some(o.kit),
            None => None,
        };
        ShipLoadout { broadside, shield: base.shield, battery, special }
    }
}

impl<B, Y, S> LoadoutCatalogue<B, Y, S> {
    /// How many options each slot offers, in slot order.
    pub fn counts(&self) -> (c: [usize; 3])
        ensures
            c@.len() == 3,
            c@[0] == self.broadsides@.len(),
            c@[1] == self.batteries@.len(),
            c@[2] == self.specials@.len(),
    {
        [self.broadsides.len(), self.batteries.len(), self.specials.len()]
    }
}

/// A selection with every slot inside bounds: an index past the end of its
/// slot's `count` goes back to the first option.
pub open spec fn clamp_spec(fit: SelectedLoadout, counts: Seq<nat>) -> SelectedLoadout {
    SelectedLoadout {
        broadside: if fit.broadside < counts[0] {
            fit.broadside
        } else {
            0
        },
        battery: if fit.battery < counts[1] {
            fit.battery
        } else {
            0
        },
        special: if fit.special < counts[2] {
            fit.special
        } else {
            0
        },
    }
}

/// A saved selection clamped to what the catalogue still offers.
pub fn clamp_to<B, Y, S>(fit: SelectedLoadout, catalogue: &LoadoutCatalogue<B, Y, S>) -> (r:
    SelectedLoadout)
    ensures
        r == clamp_spec(
            fit,
            seq![catalogue.broadsides@.len(), catalogue.batteries@.len(), catalogue.specials@.len()],
        ),
{
    let counts = catalogue.counts();
    let broadside = if fit.broadside < counts[0] {
        fit.broadside
    } else {
        0
    };
    let battery = if fit.battery < counts[1] {
        fit.battery
    } else {
        0
    };
    let special = if fit.special < counts[2] {
        fit.special
    } else {
        0
    };
    SelectedLoadout { broadside, battery, special }
}

/// A clamped selection picks, in every non-empty slot, an option that is
/// really there; and clamping twice is clamping once.
pub proof fn law_clamp_lands_in_range(fit: SelectedLoadout, counts: Seq<nat>)
    requires
        counts.len() == 3,
    ensures
        counts[0] > 0 ==> clamp_spec(fit, counts).broadside < counts[0],
        counts[1] > 0 ==> clamp_spec(fit, counts).battery < counts[1],
        counts[2] > 0 ==> clamp_spec(fit, counts).special < counts[2],
        clamp_spec(clamp_spec(fit, counts), counts) == clamp_spec(fit, counts),
{
}

/// A selection still inside the catalogue survives the clamp exactly, and a
/// clamped selection fits the same ship the stale one did.
pub proof fn law_clamp_keeps_the_fit<B, H, Y, S>(
    cat: LoadoutCatalogue<B, Y, S>,
    base: ShipLoadout<B, H, Y, S>,
    fit: SelectedLoadout,
)
    ensures
        ({
            let counts = seq![cat.broadsides@.len(), cat.batteries@.len(), cat.specials@.len()];
            &&& (fit.broadside < counts[0] && fit.battery < counts[1] && fit.special < counts[2])
                ==> clamp_spec(fit, counts) == fit
            &&& fit_spec(cat, base, clamp_spec(fit, counts)) == fit_spec(cat, base, fit)
        }),
{
    assert(broadside_kits(cat.broadsides@).len() == cat.broadsides@.len());
    assert(battery_kits(cat.batteries@).len() == cat.batteries@.len());
    assert(special_kits(cat.specials@).len() == cat.specials@.len());
}

/// A fit replaces what is in the three slots and nothing else: the hull's own
/// shields come through every selection untouched, and a slot's pick replaces
/// whatever the class carried there rather than adding to it.
pub proof fn law_a_fit_only_touches_the_slots<B, H, Y, S>(
    cat: LoadoutCatalogue<B, Y, S>,
    base: ShipLoadout<B, H, Y, S>,
    selected: SelectedLoadout,
)
    ensures
        fit_spec(cat, base, selected).shield == base.shield,
        cat.batteries@.len() > 0 ==> (fit_spec(cat, base, selected).battery matches Some(kit) && (
        exists|i: int| 0 <= i < cat.batteries@.len() && #[trigger] cat.batteries@[i].kit == kit)),
        cat.specials@.len() > 0 ==> (fit_spec(cat, base, selected).special matches Some(kit) && (
        exists|i: int| 0 <= i < cat.specials@.len() && #[trigger] cat.specials@[i].kit == kit)),
{
    let b = selected.battery as int;
    let sp = selected.special as int;
    if cat.batteries@.len() > 0 {
        if b < cat.batteries@.len() {
            assert(battery_kits(cat.batteries@)[b] == cat.batteries@[b].kit);
        } else {
            assert(battery_kits(cat.batteries@)[0] == cat.batteries@[0].kit);
        }
    }
    if cat.specials@.len() > 0 {
        if sp < cat.specials@.len() {
            assert(special_kits(cat.specials@)[sp] == cat.specials@[sp].kit);
        } else {
            assert(special_kits(cat.specials@)[0] == cat.specials@[0].kit);
        }
    }
}

} // verus!
