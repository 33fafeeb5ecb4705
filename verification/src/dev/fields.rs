//! What the design panel needs to know about a field that its type cannot say:
//! whether it is authored config or live state.
//!
//! Entries are keyed by owning struct *and* field, because bare names collide:
//! `Broadside.damage` is authored while `EmpDefense.damage` is the EMP a ship
//! has soaked. A field the table does not list is config.

use vstd::prelude::*;
use crate::text::str_eq;

verus! {

/// Whether a class edit may write a field.
#[derive(Debug, Clone, Copy, PartialEq, Eq, Structural)]
pub enum FieldKind {
    /// Authored tuning, copied from the class onto live ships.
    Config,
    /// State belonging to a running ship (a reload timer, a magazine), never
    /// written by a class edit.
    Live,
}

/// The fields that are live state, by owning struct.
pub open spec fn is_live(owner: Seq<char>, field: Seq<char>) -> bool {
    if owner == "Broadside"@ {
        field == "port"@ || field == "starboard"@
    } else if owner == "TorpedoBay"@ {
        field == "loaded"@
    } else if owner == "EmpWeapon"@ {
        field == "aim"@ || field == "timer"@
    } else if owner == "EmpDefense"@ {
        field == "damage"@
    } else if owner == "BoostDrive"@ {
        field == "battery"@
    } else if owner == "MicrowarpDrive"@ {
        field == "was_holding"@ || field == "timer"@
    } else if owner == "AiController"@ {
        field == "warp_prime"@
    } else {
        false
    }
}

/// The kind of `owner.field`: live where the table says so, config otherwise.
pub open spec fn field_kind_spec(owner: Seq<char>, field: Seq<char>) -> FieldKind {
    if is_live(owner, field) {
        FieldKind::Live
    } else {
        FieldKind::Config
    }
}

/// The kind of `owner.field`.
pub fn field_kind(owner: &str, field: &str) -> (k: FieldKind)
    ensures
        k == field_kind_spec(owner@, field@),
{
    let live = if str_eq(owner, "Broadside") {
        str_eq(field, "port") || str_eq(field, "starboard")
    } else if str_eq(owner, "TorpedoBay") {
        str_eq(field, "loaded")
    } else if str_eq(owner, "EmpWeapon") {
        str_eq(field, "aim") || str_eq(field, "timer")
    } else if str_eq(owner, "EmpDefense") {
        str_eq(field, "damage")
    } else if str_eq(owner, "BoostDrive") {
        str_eq(field, "battery")
    } else if str_eq(owner, "MicrowarpDrive") {
        str_eq(field, "was_holding") || str_eq(field, "timer")
    } else if str_eq(owner, "AiController") {
        str_eq(field, "warp_prime")
    } else {
        false
    };
    if live {
        FieldKind::Live
    } else {
        FieldKind::Config
    }
}

/// Whether the panel lets a field be edited: its parent must be editable and
/// the field itself authored config. A live subtree is greyed out, not hidden:
/// seeing a reload timer tick is useful, writing it is not.
pub fn field_editable(parent_editable: bool, owner: &str, field: &str) -> (editable: bool)
    ensures
        editable == (parent_editable && field_kind_spec(owner@, field@) == FieldKind::Config),
{
    parent_editable && field_kind(owner, field) == FieldKind::Config
}

} // verus!
