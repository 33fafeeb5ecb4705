//! Input state: the keyboard's thrust ladder, which device the player is on,
//! and the small toggles the HUD and camera read.

use vstd::prelude::*;

verus! {

/// The keyboard's thrust setting.
#[derive(Clone, Copy, PartialEq, Eq, Structural, Debug)]
pub enum ThrustState {
    /// The weak reverse.
    Reverse,
    /// Drives stopped.
    Stop,
    /// The default: handy, and where most of a fight is fought.
    Half,
    Full,
}

/// Position of a notch on the ladder, slowest first.
pub open spec fn notch_index(s: ThrustState) -> int {
    match s {
        ThrustState::Reverse => 0,
        ThrustState::Stop => 1,
        ThrustState::Half => 2,
        ThrustState::Full => 3,
    }
}

/// The notch at a ladder position (positions outside `0..4` have none).
pub open spec fn notch_at(i: int) -> ThrustState {
    if i <= 0 {
        ThrustState::Reverse
    } else if i == 1 {
        ThrustState::Stop
    } else if i == 2 {
        ThrustState::Half
    } else {
        ThrustState::Full
    }
}

/// The ladder position `delta` notches away from `from`, pinned to the ends.
pub open spec fn clamp_ladder(i: int) -> int {
    if i < 0 {
        0
    } else if i > 3 {
        3
    } else {
        i
    }
}

/// String-table id of a notch's HUD label.
pub open spec fn string_key_spec(s: ThrustState) -> Seq<char> {
    match s {
        ThrustState::Reverse => "hud.helm.reverse"@,
        ThrustState::Stop => "hud.helm.none"@,
        ThrustState::Half => "hud.helm.half"@,
        ThrustState::Full => "hud.helm.full"@,
    }
}

impl Default for ThrustState {
    /// A fresh ship starts at half thrust.
    fn default() -> (s: ThrustState)
        ensures
            s == ThrustState::Half,
    {
        ThrustState::Half
    }
}

impl Default for InputMethod {
    /// A fresh session assumes the keyboard and mouse.
    fn default() -> (m: InputMethod)
        ensures
            m == InputMethod::KeyboardMouse,
    {
        InputMethod::KeyboardMouse
    }
}

impl ThrustState {
    /// The ladder, slowest first.
    pub const LADDER: [ThrustState; 4] = [
        ThrustState::Reverse,
        ThrustState::Stop,
        ThrustState::Half,
        ThrustState::Full,
    ];

    /// This notch's position on the ladder, slowest first.
    pub fn index(self) -> (i: i32)
        ensures
            i == notch_index(self),
    {
        match self {
            ThrustState::Reverse => 0,
            ThrustState::Stop => 1,
            ThrustState::Half => 2,
            ThrustState::Full => 3,
        }
    }

    /// String-table id for this notch's HUD label.
    pub fn string_key(self) -> (key: &'static str)
        ensures
            key@ == string_key_spec(self),
    {
        match self {
            ThrustState::Reverse => "hud.helm.reverse",
            ThrustState::Stop => "hud.helm.none",
            ThrustState::Half => "hud.helm.half",
            ThrustState::Full => "hud.helm.full",
        }
    }

    /// Step `delta` notches up (positive) or down (negative) the ladder,
    /// saturating at the ends so holding a key never wraps from full thrust
    /// round to reverse.
    pub fn stepped(self, delta: i32) -> (next: ThrustState)
        requires
            notch_index(self) + delta <= i32::MAX,
        ensures
            next == notch_at(clamp_ladder(notch_index(self) + delta)),
    {
        let at = self.index();
        let raw = at + delta;
        let next = if raw < 0 {
            0
        } else if raw > 3 {
            3
        } else {
            raw
        };
        if next == 0 {
            ThrustState::Reverse
        } else if next == 1 {
            ThrustState::Stop
        } else if next == 2 {
            ThrustState::Half
        } else {
            ThrustState::Full
        }
    }
}

/// Stepping moves along the ladder and never round it: a step up never
/// lowers the thrust, a step down never raises it, no step moves further than
/// asked, and the notch reached is the clamped position.
pub proof fn law_stepping_never_wraps(s: ThrustState, delta: int)
    ensures
        ({
            let next = notch_at(clamp_ladder(notch_index(s) + delta));
            &&& notch_index(next) == clamp_ladder(notch_index(s) + delta)
            &&& delta >= 0 ==> notch_index(s) <= notch_index(next) <= notch_index(s) + delta
            &&& delta <= 0 ==> notch_index(s) + delta <= notch_index(next) <= notch_index(s)
        }),
{
}

/// Which broadsides the player is currently holding (aiming).
#[derive(Debug, Clone, Copy, PartialEq, Eq, Default)]
pub struct Aiming {
    pub port: bool,
    pub starboard: bool,
}

/// The most recently used input device, so the HUD can show matching hints.
#[derive(Debug, Clone, Copy, PartialEq, Eq, Structural)]
pub enum InputMethod {
    KeyboardMouse,
    Gamepad,
}

/// Whether the player ship is currently flown by the AI.
#[derive(Debug, Clone, Copy, PartialEq, Eq, Default)]
pub struct PlayerAi {
    pub on: bool,
}

/// Whether the game is paused.
#[derive(Debug, Clone, Copy, PartialEq, Eq, Default)]
pub struct Paused(pub bool);

/// Whether the HUD's controls side panel is open.
#[derive(Debug, Clone, Copy, PartialEq, Eq, Default)]
pub struct ControlsPanel {
    pub open: bool,
}

/// The AI-pilot key hands the player's ship to the AI or takes it back. The
/// flag flips on every press; when there is a player ship, handing it over
/// also clears any broadside the player was holding, so no aim beam lingers,
/// and with no ship the aim is left as it is. Returns, when the key was
/// pressed, whether the AI now flies.
pub fn toggle_player_ai(pressed: bool, has_ship: bool, ai: &mut PlayerAi, aiming: &mut Aiming) -> (flying:
    Option<bool>)
    ensures
        !pressed ==> flying is None && *final(ai) == *old(ai) && *final(aiming) == *old(aiming),
        pressed ==> flying == Some(final(ai).on) && final(ai).on == !old(ai).on,
        pressed && has_ship && final(ai).on ==> *final(aiming) == (Aiming {
            port: false,
            starboard: false,
        }),
        pressed && !(has_ship && final(ai).on) ==> *final(aiming) == *old(aiming),
{
    if !pressed {
        return None;
    }
    ai.on = !ai.on;
    if has_ship && ai.on {
        *aiming = Aiming { port: false, starboard: false };
    }
    Some(ai.on)
}

/// The pause key (or the pad's pause button) pauses or resumes. Returns, when
/// pressed, whether the game is now paused.
pub fn toggle_pause(pressed: bool, paused: &mut Paused) -> (now: Option<bool>)
    ensures
        !pressed ==> now is None && *final(paused) == *old(paused),
        pressed ==> final(paused).0 == !old(paused).0 && now == Some(final(paused).0),
{
    if !pressed {
        return None;
    }
    paused.0 = !paused.0;
    Some(paused.0)
}

/// The controls-panel key opens or closes the HUD's controls panel.
pub fn toggle_controls_panel(pressed: bool, panel: &mut ControlsPanel)
    ensures
        pressed ==> final(panel).open == !old(panel).open,
        !pressed ==> *final(panel) == *old(panel),
{
    if pressed {
        panel.open = !panel.open;
    }
}

impl InputMethod {
    /// The name the HUD page knows this device by.
    pub fn wire_name(self) -> (name: &'static str)
        ensures
            name@ == (match self {
                InputMethod::KeyboardMouse => "kbm"@,
                InputMethod::Gamepad => "gamepad"@,
            }),
    {
        match self {
            InputMethod::KeyboardMouse => "kbm",
            InputMethod::Gamepad => "gamepad",
        }
    }
}

/// The device the player is on after a frame in which the pad was (or was
/// not) active and a key or mouse button was (or was not) held: an active pad
/// wins, then the keyboard and mouse, and a quiet frame changes nothing.
pub fn track_input_method(current: InputMethod, pad_active: bool, kbm_active: bool) -> (m:
    InputMethod)
    ensures
        m == (if pad_active {
            InputMethod::Gamepad
        } else if kbm_active {
            InputMethod::KeyboardMouse
        } else {
            current
        }),
{
    if pad_active {
        InputMethod::Gamepad
    } else if kbm_active {
        InputMethod::KeyboardMouse
    } else {
        current
    }
}

} // verus!
