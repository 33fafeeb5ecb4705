//! Carrying an edited ship class onto the ships already flying.
//!
//! The panel edits the class; this copies the class's authored fields onto a
//! live ship's component, walking both values in lockstep and skipping every
//! field the descriptor table marks live, subtree and all, so a retune never
//! resets a reload mid-cycle or refills a magazine.
//!
//! A tuning value is seen the way the panel's reflection sees it: a leaf, or a
//! struct with an owner name and named fields.

use vstd::prelude::*;
use crate::dev::fields::{field_kind, field_kind_spec, FieldKind};
use crate::text::str_eq;

verus! {

/// A tuning value as reflection walks it.
pub enum Reflected<L> {
    /// A number or flag the panel edits.
    Leaf(L),
    /// A struct: the name of its type and its fields in declaration order.
    Struct { owner: String, fields: Vec<(String, Reflected<L>)> },
}

/// The mathematical picture of a [`Reflected`] value.
pub enum Tree<L> {
    Leaf(L),
    Node(Seq<char>, Seq<(Seq<char>, Tree<L>)>),
}

/// The tree a reflected value stands for.
pub open spec fn tree_of<L>(r: Reflected<L>) -> Tree<L>
    decreases r,
{
    match r {
        Reflected::Leaf(x) => Tree::Leaf(x),
        Reflected::Struct { owner, fields } => Tree::Node(owner@, fields_view(fields)),
    }
}

/// A struct's fields as (name, tree) pairs.
pub open spec fn fields_view<L>(fields: Vec<(String, Reflected<L>)>) -> Seq<(Seq<char>, Tree<L>)>
    decreases fields,
{
    Seq::new(
        fields@.len(),
        |i: int|
            if 0 <= i < fields@.len() {
                (fields@[i].0@, tree_of(fields@[i].1))
            } else {
                (Seq::empty(), Tree::Leaf(arbitrary()))
            },
    )
}

impl<L> View for Reflected<L> {
    type V = Tree<L>;

    open spec fn view(&self) -> Tree<L> {
        tree_of(*self)
    }
}

/// The first field called `name`, as reflection's lookup by name finds it.
pub open spec fn field_named<L>(fields: Seq<(Seq<char>, Tree<L>)>, name: Seq<char>) -> Option<int>
    decreases fields.len(),
{
    if fields.len() == 0 {
        None
    } else {
        match field_named(fields.drop_last(), name) {
            Some(k) => Some(k),
            None => if fields.last().0 == name {
                Some(fields.len() - 1)
            } else {
                None
            },
        }
    }
}

/// Field `i` of a struct after merging `from` into it: live fields and fields
/// `from` lacks keep their value, the rest are merged in turn.
pub open spec fn merged_field<L>(
    owner: Seq<char>,
    field: (Seq<char>, Tree<L>),
    from_fields: Seq<(Seq<char>, Tree<L>)>,
) -> (Seq<char>, Tree<L>)
    decreases field.1, 1int,
{
    if field_kind_spec(owner, field.0) == FieldKind::Live {
        field
    } else {
        match field_named(from_fields, field.0) {
            Some(j) => if 0 <= j < from_fields.len() {
                (field.0, merged(field.1, from_fields[j].1))
            } else {
                field
            },
            None => field,
        }
    }
}

/// `into` with `from`'s authored values copied in. Two leaves: the new value.
/// Two structs: field by field, as [`merged_field`] says. A struct and a leaf
/// cannot be merged and leave `into` as it was.
pub open spec fn merged<L>(into: Tree<L>, from: Tree<L>) -> Tree<L>
    decreases into, 0int,
{
    match into {
        Tree::Leaf(_) => match from {
            Tree::Leaf(y) => Tree::Leaf(y),
            Tree::Node(_, _) => into,
        },
        Tree::Node(owner, fields) => match from {
            Tree::Leaf(_) => into,
            Tree::Node(_, from_fields) => Tree::Node(
                owner,
                Seq::new(
                    fields.len(),
                    |i: int|
                        if 0 <= i < fields.len() {
                            merged_field(owner, fields[i], from_fields)
                        } else {
                            fields[i]
                        },
                ),
            ),
        },
    }
}

/// The first field of `fields` called `name`.
fn find_field<L>(fields: &Vec<(String, Reflected<L>)>, name: &str) -> (r: Option<usize>)
    ensures
        match r {
            Some(j) => j < fields@.len() && field_named(fields_view(*fields), name@) == Some(j as int),
            None => field_named(fields_view(*fields), name@) is None,
        },
{
    let ghost view = fields_view(*fields);
    let mut i: usize = 0;
    while i < fields.len()
        invariant
            i <= fields@.len(),
            view == fields_view(*fields),
            field_named(view.subrange(0, i as int), name@) is None,
        decreases fields@.len() - i,
    {
        if str_eq(fields[i].0.as_str(), name) {
            proof {
                lemma_field_named_prefix(view, name@, i as int);
            }
            return Some(i);
        }
        proof {
            assert(view.subrange(0, i + 1).drop_last() =~= view.subrange(0, i as int));
        }
        i = i + 1;
    }
    proof {
        assert(view.subrange(0, i as int) =~= view);
    }
    None
}

proof fn lemma_field_named_prefix<L>(fields: Seq<(Seq<char>, Tree<L>)>, name: Seq<char>, i: int)
    requires
        0 <= i < fields.len(),
        field_named(fields.subrange(0, i), name) is None,
        fields[i].0 == name,
    ensures
        field_named(fields, name) == Some(i),
    decreases fields.len() - i,
{
    if i + 1 == fields.len() {
        assert(fields.drop_last() =~= fields.subrange(0, i));
    } else {
        let shorter = fields.drop_last();
        assert(shorter.subrange(0, i) =~= fields.subrange(0, i));
        lemma_field_named_prefix(shorter, name, i);
    }
}

/// Copy `from`'s authored fields onto `into`, leaving live state alone.
pub fn merge_config<L: Copy>(into: &mut Reflected<L>, from: &Reflected<L>)
    ensures
        final(into)@ == merged(old(into)@, from@),
    decreases *old(into),
{
    let ghost whole = *into;
    match from {
        Reflected::Leaf(y) => {
            match *into {
                Reflected::Leaf(_) => {
                    *into = Reflected::Leaf(*y);
                },
                Reflected::Struct { .. } => {},
            }
        },
        Reflected::Struct { owner: _, fields: src } => {
            match into {
                Reflected::Leaf(_) => {},
                Reflected::Struct { owner, fields } => {
                    let ghost start = *fields;
                    let ghost name0 = owner@;
                    let ghost start_view = fields_view(start);
                    let ghost src_view = fields_view(*src);
                    let n = fields.len();
                    let mut i: usize = 0;
                    while i < n
                        invariant
                            n == fields@.len(),
                            n == start@.len(),
                            i <= n,
                            whole == *old(into),
                            whole == (Reflected::Struct { owner: *owner, fields: start }),
                            name0 == owner@,
                            src_view == fields_view(*src),
                            start_view == fields_view(start),
                            forall|k: int| i <= k < n ==> #[trigger] fields@[k] == start@[k],
                            forall|k: int|
                                0 <= k < i ==> (#[trigger] fields@[k].0@, tree_of(fields@[k].1))
                                    == merged_field(name0, start_view[k], src_view),
                        decreases n - i,
                    {
                        let ghost before = fields@;
                        let kind = field_kind(owner.as_str(), fields[i].0.as_str());
                        let mut found: Option<usize> = None;
                        if kind == FieldKind::Config {
                            found = find_field(src, fields[i].0.as_str());
                            if let Some(j) = found {
                                proof {
                                    assert(decreases_to!(whole => whole->fields));
                                    assert(decreases_to!(start => start@[i as int]));
                                    assert(decreases_to!(start@[i as int] => start@[i as int].1));
                                }
                                let slot = &mut fields[i];
                                merge_config(&mut slot.1, &src[j].1);
                            }
                        }
                        proof {
                            assert forall|k: int| 0 <= k < i + 1 implies (#[trigger] fields@[k].0@,
                                tree_of(fields@[k].1)) == merged_field(name0, start_view[k], src_view) by {
                                if k < i {
                                    assert(fields@[k] == before[k]);
                                } else {
                                    assert(start_view[k] == (start@[k].0@, tree_of(start@[k].1)));
                                    if let Some(j) = found {
                                        assert(src_view[j as int].1 == tree_of(src@[j as int].1));
                                    }
                                }
                            }
                        }
                        i = i + 1;
                    }
                    proof {
                        let m = merged(tree_of(whole), tree_of(*from));
                        assert(tree_of(whole) == Tree::Node(name0, start_view));
                        assert(tree_of(*from) matches Tree::Node(_, v) && v == src_view);
                        assert(m->Node_1 =~= fields_view(*fields));
                    }
                },
            }
        },
    }
}

/// Merge an authored loadout slot onto the device fitted for it. A slot the
/// class leaves empty and a device the ship does not carry both mean there is
/// nothing to merge; what a hull carries is never changed by a retune.
pub fn merge_slot<L: Copy>(live: &mut Option<Reflected<L>>, authored: &Option<Reflected<L>>)
    ensures
        match (*old(live), *authored) {
            (Some(device), Some(slot)) => *final(live) matches Some(merged_device) && merged_device@
                == merged(device@, slot@),
            _ => *final(live) == *old(live),
        },
        final(live).is_some() == old(live).is_some(),
{
    match (live, authored) {
        (Some(device), Some(slot)) => merge_config(device, slot),
        _ => {},
    }
}

/// Every struct in the tree names its fields distinctly, as a Rust type does.
pub open spec fn distinct_names<L>(t: Tree<L>) -> bool
    decreases t,
{
    match t {
        Tree::Leaf(_) => true,
        Tree::Node(_, fields) => {
            &&& forall|i: int, j: int|
                0 <= i < j < fields.len() ==> #[trigger] fields[i].0 != #[trigger] fields[j].0
            &&& forall|i: int| 0 <= i < fields.len() ==> distinct_names(#[trigger] fields[i].1)
        },
    }
}

/// Two trees with the same structs, field names and leaf positions.
pub open spec fn same_shape<L>(a: Tree<L>, b: Tree<L>) -> bool
    decreases a,
{
    match (a, b) {
        (Tree::Leaf(_), Tree::Leaf(_)) => true,
        (Tree::Node(o, f), Tree::Node(p, g)) => {
            &&& o == p
            &&& f.len() == g.len()
            &&& forall|i: int|
                #![trigger f[i]]
                0 <= i < f.len() ==> f[i].0 == g[i].0 && same_shape(f[i].1, g[i].1)
        },
        _ => false,
    }
}

proof fn lemma_field_named_distinct<L>(fields: Seq<(Seq<char>, Tree<L>)>, i: int)
    requires
        0 <= i < fields.len(),
        forall|a: int, b: int|
            0 <= a < b < fields.len() ==> #[trigger] fields[a].0 != #[trigger] fields[b].0,
    ensures
        field_named(fields, fields[i].0) == Some(i),
    decreases fields.len(),
{
    let name = fields[i].0;
    if i + 1 == fields.len() {
        lemma_field_named_absent(fields.drop_last(), name);
    } else {
        let shorter = fields.drop_last();
        assert(shorter[i] == fields[i]);
        lemma_field_named_distinct(shorter, i);
    }
}

proof fn lemma_field_named_absent<L>(fields: Seq<(Seq<char>, Tree<L>)>, name: Seq<char>)
    requires
        forall|a: int| 0 <= a < fields.len() ==> #[trigger] fields[a].0 != name,
    ensures
        field_named(fields, name) is None,
    decreases fields.len(),
{
    if fields.len() > 0 {
        let shorter = fields.drop_last();
        assert forall|a: int| 0 <= a < shorter.len() implies #[trigger] shorter[a].0 != name by {
            assert(shorter[a] == fields[a]);
        }
        lemma_field_named_absent(shorter, name);
    }
}

proof fn lemma_field_named_in_range<L>(fields: Seq<(Seq<char>, Tree<L>)>, name: Seq<char>)
    ensures
        field_named(fields, name) matches Some(j) ==> 0 <= j < fields.len() && fields[j].0 == name,
    decreases fields.len(),
{
    if fields.len() > 0 {
        lemma_field_named_in_range(fields.drop_last(), name);
    }
}

/// A field the descriptor table marks live keeps its value, subtree and all,
/// whatever is merged in: a retune never resets a reload or refills a
/// magazine.
pub proof fn law_live_fields_survive_a_merge<L>(into: Tree<L>, from: Tree<L>, i: int)
    requires
        into is Node,
        0 <= i < into->Node_1.len(),
        field_kind_spec(into->Node_0, into->Node_1[i].0) == FieldKind::Live,
    ensures
        merged(into, from) is Node,
        merged(into, from)->Node_1[i] == into->Node_1[i],
{
}

/// Merging a value into itself changes nothing.
pub proof fn law_merging_a_value_into_itself_changes_nothing<L>(t: Tree<L>)
    requires
        distinct_names(t),
    ensures
        merged(t, t) == t,
    decreases t,
{
    match t {
        Tree::Leaf(_) => {},
        Tree::Node(owner, fields) => {
            assert forall|i: int| 0 <= i < fields.len() implies merged_field(owner, fields[i], fields)
                == fields[i] by {
                lemma_field_named_distinct(fields, i);
                assert(distinct_names(fields[i].1));
                law_merging_a_value_into_itself_changes_nothing(fields[i].1);
            }
            assert(merged(t, t)->Node_1 =~= fields);
        },
    }
}

/// A merge changes values only: the same structs, with the same fields in the
/// same order, and every leaf still a leaf.
pub proof fn law_merge_keeps_the_shape<L>(into: Tree<L>, from: Tree<L>)
    ensures
        same_shape(into, merged(into, from)),
    decreases into,
{
    match into {
        Tree::Leaf(_) => {},
        Tree::Node(owner, fields) => {
            match from {
                Tree::Leaf(_) => {
                    lemma_same_shape_reflexive(into);
                },
                Tree::Node(_, from_fields) => {
                    let m = merged(into, from);
                    assert forall|i: int|
                        #![trigger fields[i]]
                        0 <= i < fields.len() implies fields[i].0 == m->Node_1[i].0 && same_shape(
                            fields[i].1,
                            m->Node_1[i].1,
                        ) by {
                        lemma_field_named_in_range(from_fields, fields[i].0);
                        if field_kind_spec(owner, fields[i].0) == FieldKind::Live {
                            lemma_same_shape_reflexive(fields[i].1);
                        } else {
                            match field_named(from_fields, fields[i].0) {
                                Some(j) => {
                                    law_merge_keeps_the_shape(fields[i].1, from_fields[j].1);
                                },
                                None => {
                                    lemma_same_shape_reflexive(fields[i].1);
                                },
                            }
                        }
                    }
                },
            }
        },
    }
}

proof fn lemma_same_shape_reflexive<L>(t: Tree<L>)
    ensures
        same_shape(t, t),
    decreases t,
{
    match t {
        Tree::Leaf(_) => {},
        Tree::Node(_, fields) => {
            assert forall|i: int|
                #![trigger fields[i]]
                0 <= i < fields.len() implies fields[i].0 == fields[i].0 && same_shape(
                    fields[i].1,
                    fields[i].1,
                ) by {
                lemma_same_shape_reflexive(fields[i].1);
            }
        },
    }
}

} // verus!
