//! Model sidecars: the rig each ship model ships beside it, looked up by the
//! model's asset path. The first rig datum is the engine trail anchors; a model
//! without a sidecar, or with an empty anchor list, keeps the global nacelle
//! pair, so a missing sidecar changes nothing.
//!
//! `A` is an anchor point, handed to the trails as authored.

use vstd::prelude::*;
use crate::text::str_eq;

verus! {

/// What a model's sidecar says about it.
pub struct ModelRig<A> {
    pub trail_anchors: Vec<A>,
}

/// Every rig loaded so far, one per model path.
pub struct ModelRigs<A> {
    rigs: Vec<(String, ModelRig<A>)>,
}

/// The rigs of a list of entries, by model path; a later entry for a path
/// stands over an earlier one.
pub open spec fn rig_map<A>(entries: Seq<(String, ModelRig<A>)>) -> Map<Seq<char>, Seq<A>>
    decreases entries.len(),
{
    if entries.len() == 0 {
        Map::empty()
    } else {
        rig_map(entries.drop_last()).insert(
            entries.last().0@,
            entries.last().1.trail_anchors@,
        )
    }
}

/// No model path is listed twice.
pub open spec fn distinct_paths<A>(entries: Seq<(String, ModelRig<A>)>) -> bool {
    forall|i: int, j: int|
        0 <= i < j < entries.len() ==> #[trigger] entries[i].0@ != #[trigger] entries[j].0@
}

impl<A> View for ModelRigs<A> {
    type V = Map<Seq<char>, Seq<A>>;

    closed spec fn view(&self) -> Map<Seq<char>, Seq<A>> {
        rig_map(self.rigs@)
    }
}

proof fn lemma_rig_map_lookup<A>(entries: Seq<(String, ModelRig<A>)>, k: Seq<char>)
    requires
        distinct_paths(entries),
    ensures
        rig_map(entries).contains_key(k) <==> exists|i: int|
            0 <= i < entries.len() && #[trigger] entries[i].0@ == k,
        forall|i: int|
            0 <= i < entries.len() && #[trigger] entries[i].0@ == k ==> rig_map(entries)[k]
                == entries[i].1.trail_anchors@,
    decreases entries.len(),
{
    if entries.len() > 0 {
        let front = entries.drop_last();
        assert forall|i: int, j: int|
            0 <= i < j < front.len() implies #[trigger] front[i].0@ != #[trigger] front[j].0@ by {
            assert(front[i] == entries[i] && front[j] == entries[j]);
        }
        lemma_rig_map_lookup(front, k);
        let n = entries.len() - 1;
        assert forall|i: int| 0 <= i < entries.len() && #[trigger] entries[i].0@ == k implies rig_map(
            entries,
        )[k] == entries[i].1.trail_anchors@ by {
            if i < n {
                assert(front[i] == entries[i]);
                assert(entries[i].0@ != entries[n].0@);
            }
        }
        if rig_map(entries).contains_key(k) && entries.last().0@ != k {
            let i = choose|i: int| 0 <= i < front.len() && #[trigger] front[i].0@ == k;
            assert(entries[i] == front[i]);
        }
        if exists|i: int| 0 <= i < entries.len() && #[trigger] entries[i].0@ == k {
            let i = choose|i: int| 0 <= i < entries.len() && #[trigger] entries[i].0@ == k;
            if i < n {
                assert(front[i] == entries[i]);
            }
        }
    }
}

proof fn lemma_rig_map_update<A>(entries: Seq<(String, ModelRig<A>)>, i: int, e: (String, ModelRig<A>))
    requires
        distinct_paths(entries),
        0 <= i < entries.len(),
        entries[i].0@ == e.0@,
    ensures
        rig_map(entries.update(i, e)) == rig_map(entries).insert(e.0@, e.1.trail_anchors@),
        distinct_paths(entries.update(i, e)),
    decreases entries.len(),
{
    let updated = entries.update(i, e);
    let n = entries.len() - 1;
    let front = entries.drop_last();
    assert forall|a: int, b: int|
        0 <= a < b < front.len() implies #[trigger] front[a].0@ != #[trigger] front[b].0@ by {
        assert(front[a] == entries[a] && front[b] == entries[b]);
    }
    if i == n {
        assert(updated.drop_last() =~= front);
        assert(rig_map(updated) =~= rig_map(entries).insert(e.0@, e.1.trail_anchors@));
    } else {
        lemma_rig_map_update(front, i, e);
        assert(updated.drop_last() =~= front.update(i, e));
        assert(updated.last() == entries.last());
        assert(entries.last().0@ != e.0@);
        assert(rig_map(updated) =~= rig_map(entries).insert(e.0@, e.1.trail_anchors@));
    }
    assert forall|a: int, b: int|
        0 <= a < b < updated.len() implies #[trigger] updated[a].0@ != #[trigger] updated[b].0@ by {
        assert(entries[a].0@ != entries[b].0@);
    }
}

impl<A> ModelRigs<A> {
    /// One entry per model path.
    #[verifier::type_invariant]
    spec fn wf(&self) -> bool {
        distinct_paths(self.rigs@)
    }

    /// No rigs yet.
    pub fn new() -> (r: ModelRigs<A>)
        ensures
            r@ == Map::<Seq<char>, Seq<A>>::empty(),
    {
        ModelRigs { rigs: Vec::new() }
    }

    /// The entry for `path` in `rigs`, if there is one.
    fn position(rigs: &Vec<(String, ModelRig<A>)>, path: &str) -> (r: Option<usize>)
        requires
            distinct_paths(rigs@),
        ensures
            match r {
                Some(i) => i < rigs@.len() && rigs@[i as int].0@ == path@,
                None => !rig_map(rigs@).contains_key(path@),
            },
    {
        let mut i: usize = 0;
        while i < rigs.len()
            invariant
                i <= rigs@.len(),
                forall|j: int| 0 <= j < i ==> (#[trigger] rigs@[j]).0@ != path@,
            decreases rigs@.len() - i,
        {
            if str_eq(rigs[i].0.as_str(), path) {
                return Some(i);
            }
            i = i + 1;
        }
        proof {
            lemma_rig_map_lookup(rigs@, path@);
        }
        None
    }

    /// Record the rig of the model at `path`, replacing any rig it had.
    pub fn insert(&mut self, path: &str, rig: ModelRig<A>)
        ensures
            final(self)@ == old(self)@.insert(path@, rig.trail_anchors@),
    {
        proof {
            use_type_invariant(&*self);
        }
        let mut rigs: Vec<(String, ModelRig<A>)> = Vec::new();
        std::mem::swap(&mut rigs, &mut self.rigs);
        let ghost before = rigs@;
        let key = path.to_string();
        let entry = (key, rig);
        match Self::position(&rigs, path) {
            Some(i) => {
                proof {
                    lemma_rig_map_update(rigs@, i as int, entry);
                }
                rigs.set(i, entry);
            },
            None => {
                proof {
                    lemma_rig_map_lookup(before, path@);
                }
                rigs.push(entry);
                proof {
                    assert(rigs@.drop_last() =~= before);
                    assert forall|a: int, b: int|
                        0 <= a < b < rigs@.len() implies #[trigger] rigs@[a].0@
                        != #[trigger] rigs@[b].0@ by {
                        if b == before.len() {
                            assert(rigs@[a] == before[a]);
                        } else {
                            assert(rigs@[a] == before[a] && rigs@[b] == before[b]);
                        }
                    }
                }
            },
        }
        self.rigs = rigs;
    }

    /// The rig of the model at `path`, if it has one.
    pub fn get(&self, path: &str) -> (r: Option<&ModelRig<A>>)
        ensures
            match r {
                Some(rig) => self@.contains_key(path@) && self@[path@] == rig.trail_anchors@,
                None => !self@.contains_key(path@),
            },
    {
        proof {
            use_type_invariant(self);
        }
        match Self::position(&self.rigs, path) {
            Some(i) => {
                proof {
                    lemma_rig_map_lookup(self.rigs@, path@);
                }
                Some(&self.rigs[i].1)
            },
            None => None,
        }
    }

    /// The trail anchors of the model at `path`: `None` when it has no rig or
    /// its rig lists none, which both mean the global pair rather than no
    /// trails at all.
    pub fn trail_anchors(&self, path: &str) -> (r: Option<&Vec<A>>)
        ensures
            match r {
                Some(anchors) => self@.contains_key(path@) && self@[path@] == anchors@
                    && anchors@.len() > 0,
                None => !self@.contains_key(path@) || self@[path@].len() == 0,
            },
    {
        match self.get(path) {
            Some(rig) => if rig.trail_anchors.len() == 0 {
                None
            } else {
                Some(&rig.trail_anchors)
            },
            None => None,
        }
    }
}

} // verus!
