//! A trail's committed history: crumbs newest first, capped in length. Where a
//! crumb sits and how it fades are measured where the positions live; when one
//! is committed and which fall off the end is decided here.

use vstd::prelude::*;
use std::collections::VecDeque;

verus! {

/// The history after committing `crumb`: at the front, with the oldest
/// crumbs past `max_crumbs` dropped off the tail.
pub open spec fn committed<C>(history: Seq<C>, crumb: C, max_crumbs: usize) -> Seq<C> {
    let grown = seq![crumb] + history;
    if grown.len() > max_crumbs {
        grown.take(max_crumbs as int)
    } else {
        grown
    }
}

/// Whether a crumb is committed: always into an empty history, and otherwise
/// only when the emitter has moved at least a step from the newest crumb.
pub open spec fn takes_crumb<C>(history: Seq<C>, far_from_newest: bool) -> bool {
    history.len() == 0 || far_from_newest
}

/// Commit `crumb` at the front of the history when the history is empty or
/// the emitter is `far_from_newest` (at least a step from the newest crumb),
/// so a ship sitting still lays no pile of crumbs; then drop the oldest
/// crumbs past the cap. Committed crumbs never move.
pub fn commit_crumb<C>(crumbs: &mut VecDeque<C>, crumb: C, far_from_newest: bool, max_crumbs: usize)
    ensures
        !takes_crumb(old(crumbs)@, far_from_newest) ==> final(crumbs)@ == old(crumbs)@,
        takes_crumb(old(crumbs)@, far_from_newest) ==> final(crumbs)@ == committed(
            old(crumbs)@,
            crumb,
            max_crumbs,
        ),
{
    if crumbs.len() > 0 && !far_from_newest {
        return;
    }
    let ghost grown = seq![crumb] + crumbs@;
    crumbs.push_front(crumb);
    proof {
        assert(crumbs@ =~= grown);
        assert(grown.take(grown.len() as int) =~= grown);
    }
    while crumbs.len() > max_crumbs
        invariant
            crumbs@.len() <= grown.len(),
            crumbs@ == grown.take(crumbs@.len() as int),
            grown.len() > max_crumbs ==> crumbs@.len() >= max_crumbs,
            grown.len() <= max_crumbs ==> crumbs@.len() == grown.len(),
        decreases crumbs@.len(),
    {
        crumbs.pop_back();
        proof {
            assert(crumbs@ =~= grown.take(crumbs@.len() as int));
        }
    }
    proof {
        if grown.len() <= max_crumbs {
            assert(grown.take(grown.len() as int) =~= grown);
        }
    }
}

/// However many crumbs are committed, the history never holds more than the
/// cap; below the cap each commit lengthens it by one; and the newest crumb is
/// always the one just committed, the rest keeping their order behind it.
pub proof fn law_history_is_capped<C>(history: Seq<C>, crumb: C, max_crumbs: usize)
    ensures
        committed(history, crumb, max_crumbs).len() == if history.len() + 1 < max_crumbs {
            (history.len() + 1) as int
        } else {
            max_crumbs as int
        },
        max_crumbs > 0 ==> committed(history, crumb, max_crumbs)[0] == crumb,
        forall|i: int|
            1 <= i < committed(history, crumb, max_crumbs).len() ==> #[trigger] committed(
                history,
                crumb,
                max_crumbs,
            )[i] == history[i - 1],
{
}

} // verus!
