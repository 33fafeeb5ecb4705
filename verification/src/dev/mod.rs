//! The design panel's pure half: whether the panel is swallowing input, which
//! tuning fields are live state rather than authored config, and the merge
//! that carries an edited class onto the ships already flying.

pub mod fields;
pub mod apply;

use vstd::prelude::*;

verus! {

/// Whether the design panel is swallowing input this frame: the pointer when
/// it is over a window, the keyboard while a text box has focus. Both stay
/// `false` in a build without the panel.
#[derive(Debug, Clone, Copy, PartialEq, Eq, Default)]
pub struct DevPanelFocus {
    pub pointer: bool,
    pub keyboard: bool,
}

/// Run condition: the game acts on input only when the panel holds neither
/// the pointer nor the keyboard.
pub fn game_has_input(focus: &DevPanelFocus) -> (r: bool)
    ensures
        r == (!focus.pointer && !focus.keyboard),
{
    !focus.pointer && !focus.keyboard
}

/// Run condition for the pointer alone: free-look keeps following while a
/// text box has the keyboard.
pub fn game_has_pointer(focus: &DevPanelFocus) -> (r: bool)
    ensures
        r == !focus.pointer,
{
    !focus.pointer
}

} // verus!
