//! Ship classes: the authored description of what a ship *is*, under a name,
//! and the wave director a scenario asks for by class name.
//!
//! A class's contents (handling, hull, weapons, AI tuning) are carried as an
//! opaque payload: this table looks classes up and hands them on, and never
//! reads inside one.

use vstd::prelude::*;
use crate::models::Faction;
use crate::text::str_eq;

verus! {

/// A ship's class, as its index in the class table.
#[derive(Debug, Clone, Copy, PartialEq, Eq, Structural, Hash)]
pub struct ClassId(pub u16);

/// A named entry in the class table.
pub struct NamedClass<C> {
    pub name: String,
    pub class: C,
}

/// Every ship class the game knows about, in authored order.
pub struct ShipTable<C> {
    pub classes: Vec<NamedClass<C>>,
}

/// Index of the first class called `name`.
pub open spec fn first_named<C>(classes: Seq<NamedClass<C>>, name: Seq<char>) -> Option<int>
    decreases classes.len(),
{
    if classes.len() == 0 {
        None
    } else if classes[0].name@ == name {
        Some(0)
    } else {
        match first_named(classes.drop_first(), name) {
            Some(k) => Some(k + 1),
            None => None,
        }
    }
}

/// The class called `name` with its id: the first one so named, its id being
/// its position (as the `u16` a ship carries).
pub open spec fn find_spec<C>(classes: Seq<NamedClass<C>>, name: Seq<char>) -> Option<(ClassId, C)> {
    match first_named(classes, name) {
        Some(i) => Some((ClassId(i as u16), classes[i].class)),
        None => None,
    }
}

proof fn lemma_first_named<C>(classes: Seq<NamedClass<C>>, name: Seq<char>, k: int)
    requires
        0 <= k <= classes.len(),
        forall|j: int| 0 <= j < k ==> (#[trigger] classes[j]).name@ != name,
        k < classes.len() ==> classes[k].name@ == name,
    ensures
        first_named(classes, name) == (if k < classes.len() {
            Some(k)
        } else {
            None::<int>
        }),
    decreases k,
{
    if k > 0 {
        let t = classes.drop_first();
        assert forall|j: int| 0 <= j < k - 1 implies (#[trigger] t[j]).name@ != name by {
            assert(t[j] == classes[j + 1]);
        }
        lemma_first_named(t, name, k - 1);
    }
}

impl<C: Copy> ShipTable<C> {
    /// Look a class up by name, with its id. An unknown name is `None` rather
    /// than some substitute: a scenario naming a class that does not exist is
    /// an authoring mistake, and flying a different ship would hide it.
    pub fn find(&self, name: &str) -> (r: Option<(ClassId, &C)>)
        ensures
            match r {
                Some((id, c)) => find_spec(self.classes@, name@) == Some((id, *c)),
                None => find_spec(self.classes@, name@) is None,
            },
    {
        let mut i: usize = 0;
        while i < self.classes.len()
            invariant
                i <= self.classes@.len(),
                forall|j: int| 0 <= j < i ==> (#[trigger] self.classes@[j]).name@ != name@,
            decreases self.classes@.len() - i,
        {
            if str_eq(self.classes[i].name.as_str(), name) {
                proof {
                    lemma_first_named(self.classes@, name@, i as int);
                }
                return Some((ClassId(i as u16), &self.classes[i].class));
            }
            i = i + 1;
        }
        proof {
            lemma_first_named(self.classes@, name@, i as int);
        }
        None
    }

    /// The class a [`ClassId`] refers to, if it is still in range.
    pub fn get(&self, id: ClassId) -> (r: Option<&C>)
        ensures
            match r {
                Some(c) => (id.0 as int) < self.classes@.len() && *c == self.classes@[id.0 as int].class,
                None => (id.0 as int) >= self.classes@.len(),
            },
    {
        let i = id.0 as usize;
        if i < self.classes.len() {
            Some(&self.classes[i].class)
        } else {
            None
        }
    }

    /// Mutable access to the class a [`ClassId`] refers to, for the design
    /// panel.
    pub fn get_mut(&mut self, id: ClassId) -> (r: Option<&mut C>)
        ensures
            match r {
                Some(c) => (id.0 as int) < old(self).classes@.len() && *c == old(self).classes@[id.0 as int].class
                    && final(self).classes@ == old(self).classes@.update(
                    id.0 as int,
                    NamedClass { name: old(self).classes@[id.0 as int].name, class: *final(c) },
                ),
                None => (id.0 as int) >= old(self).classes@.len() && final(self).classes@ == old(self).classes@,
            },
    {
        let i = id.0 as usize;
        if i < self.classes.len() {
            Some(&mut self.classes[i].class)
        } else {
            None
        }
    }
}

impl<C> ShipTable<C> {
    /// Names in table order: what the design panel's class list shows.
    pub fn names(&self) -> (r: Vec<&str>)
        ensures
            r@.len() == self.classes@.len(),
            forall|i: int| 0 <= i < r@.len() ==> (#[trigger] r@[i])@ == self.classes@[i].name@,
    {
        let mut r: Vec<&str> = Vec::new();
        let mut i: usize = 0;
        while i < self.classes.len()
            invariant
                i <= self.classes@.len(),
                r@.len() == i,
                forall|j: int| 0 <= j < i ==> (#[trigger] r@[j])@ == self.classes@[j].name@,
            decreases self.classes@.len() - i,
        {
            r.push(self.classes[i].name.as_str());
            i = i + 1;
        }
        r
    }
}

/// How a scenario asks for waves: the authored half, naming classes where the
/// resolved settings carry the classes themselves. `W` is the wave-hull
/// scaling the director applies, handed on as authored.
pub struct DirectorSpec<W> {
    pub max_waves: u32,
    pub base_count: u32,
    pub faction: Faction,
    pub hulls: W,
    /// Name of the class the waves are made of.
    pub enemy_class: String,
    /// Name of the class that replaces the last wave, if any. An unknown or
    /// empty name means the run ends on one more ordinary wave.
    pub finale_class: String,
    /// How many of it to send.
    pub finale_count: u32,
}

/// The boss wave a run ends on.
#[derive(Debug, Clone, Copy, PartialEq)]
pub struct FinaleWave<C> {
    pub count: u32,
    pub class_id: ClassId,
    pub class: C,
}

/// A director spec resolved against the class table.
#[derive(Debug, Clone, Copy, PartialEq)]
pub struct DirectorSettings<C, W> {
    pub max_waves: u32,
    pub base_count: u32,
    pub faction: Faction,
    pub hulls: W,
    pub class_id: ClassId,
    pub class: C,
    pub finale: Option<FinaleWave<C>>,
}

/// The settings a spec resolves to: nothing when the wave class is unknown;
/// otherwise that class with its id, and a finale of at least one ship of the
/// finale class when that name resolves too.
pub open spec fn resolve_spec<C, W>(spec: DirectorSpec<W>, classes: Seq<NamedClass<C>>) -> Option<
    DirectorSettings<C, W>,
> {
    match find_spec(classes, spec.enemy_class@) {
        None => None,
        Some((class_id, class)) => Some(
            DirectorSettings {
                max_waves: spec.max_waves,
                base_count: spec.base_count,
                faction: spec.faction,
                hulls: spec.hulls,
                class_id,
                class,
                finale: match find_spec(classes, spec.finale_class@) {
                    Some((id, boss)) => Some(
                        FinaleWave {
                            count: if spec.finale_count > 1 {
                                spec.finale_count
                            } else {
                                1
                            },
                            class_id: id,
                            class: boss,
                        },
                    ),
                    None => None,
                },
            },
        ),
    }
}

impl<W: Copy> DirectorSpec<W> {
    /// Resolve into the director's settings, or `None` if the wave class is
    /// missing. A finale is silently optional.
    pub fn resolve<C: Copy>(&self, table: &ShipTable<C>) -> (r: Option<DirectorSettings<C, W>>)
        ensures
            r == resolve_spec(*self, table.classes@),
    {
        let (class_id, class) = match table.find(self.enemy_class.as_str()) {
            Some(found) => found,
            None => return None,
        };
        let finale = match table.find(self.finale_class.as_str()) {
            Some((id, boss)) => Some(
                FinaleWave {
                    count: if self.finale_count > 1 {
                        self.finale_count
                    } else {
                        1
                    },
                    class_id: id,
                    class: *boss,
                },
            ),
            None => None,
        };
        Some(
            DirectorSettings {
                max_waves: self.max_waves,
                base_count: self.base_count,
                faction: self.faction,
                hulls: self.hulls,
                class_id,
                class: *class,
                finale,
            },
        )
    }
}

/// A resolved director always carries the class it names, found by that name
/// in the table; an unknown wave class resolves to nothing at all.
pub proof fn law_resolved_director_carries_its_class<C, W>(
    spec: DirectorSpec<W>,
    classes: Seq<NamedClass<C>>,
)
    ensures
        resolve_spec(spec, classes) is None <==> first_named(classes, spec.enemy_class@) is None,
        resolve_spec(spec, classes) matches Some(s) ==> ({
            let i = first_named(classes, spec.enemy_class@)->0;
            &&& 0 <= i < classes.len()
            &&& classes[i].name@ == spec.enemy_class@
            &&& s.class == classes[i].class
            &&& s.class_id == ClassId(i as u16)
        }),
        resolve_spec(spec, classes) matches Some(s) ==> (s.finale matches Some(f) ==> f.count >= 1),
{
    lemma_first_named_found(classes, spec.enemy_class@);
}

proof fn lemma_first_named_found<C>(classes: Seq<NamedClass<C>>, name: Seq<char>)
    ensures
        first_named(classes, name) matches Some(i) ==> 0 <= i < classes.len() && classes[i].name@
            == name,
    decreases classes.len(),
{
    if classes.len() > 0 {
        lemma_first_named_found(classes.drop_first(), name);
    }
}

} // verus!
