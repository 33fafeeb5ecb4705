//! Which framing the chase camera takes each frame. The easing, the lead and
//! the angles themselves are arithmetic done where the transforms live; which
//! of the framings applies is decided here.

use vstd::prelude::*;

verus! {

/// The camera's framing for a frame.
#[derive(Debug, Clone, Copy, PartialEq, Eq, Structural)]
pub enum CameraMode {
    /// The title card: a slow drift around the parked ship.
    Attract,
    /// A pointer weapon is being aimed: straight down from high up, centred on
    /// the ship.
    TopDown,
    /// A broadside is held: the view locks along that beam.
    BroadsideLock { port: bool },
    /// The right stick looks around, as a persistent offset from the heading.
    PadLook,
    /// The mouse looks around, as an absolute offset from the heading.
    MouseLook,
}

/// The framing for a frame. The attract drift wins on the title card; while
/// the AI flies, the camera stays a free look and never follows its aiming.
pub open spec fn camera_mode_spec(
    on_menu: bool,
    ai_flying: bool,
    pointer_aim: bool,
    aim_port: bool,
    aim_starboard: bool,
    use_pad: bool,
) -> CameraMode {
    let manual = !ai_flying;
    if on_menu {
        CameraMode::Attract
    } else if manual && pointer_aim {
        CameraMode::TopDown
    } else if manual && (aim_port || aim_starboard) {
        CameraMode::BroadsideLock { port: aim_port }
    } else if use_pad {
        CameraMode::PadLook
    } else {
        CameraMode::MouseLook
    }
}

/// Decide the camera's framing. `pointer_aim` is the microwarp or the
/// torpedoes being held.
pub fn camera_mode(
    on_menu: bool,
    ai_flying: bool,
    pointer_aim: bool,
    aim_port: bool,
    aim_starboard: bool,
    use_pad: bool,
) -> (m: CameraMode)
    ensures
        m == camera_mode_spec(on_menu, ai_flying, pointer_aim, aim_port, aim_starboard, use_pad),
{
    let manual = !ai_flying;
    if on_menu {
        CameraMode::Attract
    } else if manual && pointer_aim {
        CameraMode::TopDown
    } else if manual && (aim_port || aim_starboard) {
        CameraMode::BroadsideLock { port: aim_port }
    } else if use_pad {
        CameraMode::PadLook
    } else {
        CameraMode::MouseLook
    }
}

/// Whether a framing holds the view fixed (the aim framings), easing with
/// the tighter aim rate and keeping the idle recentre away.
pub open spec fn locks_spec(m: CameraMode) -> bool {
    m is TopDown || m is BroadsideLock
}

impl CameraMode {
    /// Whether this framing locks the view.
    pub fn locks(self) -> (locked: bool)
        ensures
            locked == locks_spec(self),
    {
        match self {
            CameraMode::TopDown | CameraMode::BroadsideLock { .. } => true,
            _ => false,
        }
    }
}

/// Whether the idle clock restarts this frame: a locked view or any look
/// input counts as activity.
pub fn idle_restarts(mode: CameraMode, look_active: bool) -> (restart: bool)
    ensures
        restart == (locks_spec(mode) || look_active),
{
    mode.locks() || look_active
}

/// Whether the view may ease back to its trailing position once the idle
/// clock has run out: never while locked, and never on the title card.
pub fn may_recentre(mode: CameraMode) -> (may: bool)
    ensures
        may == (!locks_spec(mode) && !(mode is Attract)),
{
    match mode {
        CameraMode::PadLook | CameraMode::MouseLook => true,
        _ => false,
    }
}

/// While the AI flies the player's ship, the camera is never locked to an aim:
/// the player always steers the view.
pub proof fn law_the_ai_never_takes_the_camera(
    on_menu: bool,
    pointer_aim: bool,
    aim_port: bool,
    aim_starboard: bool,
    use_pad: bool,
)
    ensures
        !locks_spec(camera_mode_spec(on_menu, true, pointer_aim, aim_port, aim_starboard, use_pad)),
{
}

} // verus!
