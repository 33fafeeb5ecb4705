//! The player's helm as decisions: which intents a frame's keys and pad
//! buttons add up to, how the keyboard's thrust ladder moves, and which rule
//! places the aim point and the broadside arc offset. The arithmetic those
//! rules feed (angles, cursor motion) is done where the positions live.

use vstd::prelude::*;
use crate::input::{clamp_ladder, notch_at, notch_index, ThrustState};

verus! {

/// The keyboard and mouse this frame, each control named by what it asks for;
/// which key or button is bound to it is the caller's business.
#[derive(Debug, Clone, Copy, PartialEq, Eq, Default)]
pub struct KeyboardMouse {
    /// Aiming the port broadside (held).
    pub port_held: bool,
    /// Aiming the starboard broadside (held).
    pub starboard_held: bool,
    /// The port broadside released this frame: fire port.
    pub port_released: bool,
    /// The starboard broadside released this frame: fire starboard.
    pub starboard_released: bool,
    /// The EMP (held).
    pub emp: bool,
    /// Torpedo lock (held).
    pub torpedo: bool,
    /// Microwarp aim (held).
    pub microwarp: bool,
    /// Brace (held).
    pub brace: bool,
    /// Boost (held).
    pub boost: bool,
    /// Board, pressed this frame.
    pub board: bool,
    /// One notch up the thrust ladder, pressed this frame.
    pub throttle_up: bool,
    /// One notch down, pressed this frame.
    pub throttle_down: bool,
    /// Turn to port (held).
    pub turn_port: bool,
    /// Turn to starboard (held).
    pub turn_starboard: bool,
}

/// The first connected pad this frame, each control named by what it asks for.
#[derive(Debug, Clone, Copy, PartialEq, Eq, Default)]
pub struct PadButtons {
    /// The port broadside, held / released this frame.
    pub port_held: bool,
    pub port_released: bool,
    /// The starboard broadside, held / released this frame.
    pub starboard_held: bool,
    pub starboard_released: bool,
    /// Torpedo lock (held).
    pub torpedo: bool,
    /// Microwarp aim (held).
    pub microwarp: bool,
    /// The EMP (held).
    pub emp: bool,
    /// Brace (held).
    pub brace: bool,
    /// Boost (held).
    pub boost: bool,
    /// Board, pressed this frame.
    pub board: bool,
}

/// What the player asks of the ship this frame.
#[derive(Debug, Clone, Copy, PartialEq, Eq)]
pub struct PilotIntents {
    pub aim_port: bool,
    pub aim_starboard: bool,
    pub fire_port: bool,
    pub fire_starboard: bool,
    pub emp_fire: bool,
    pub torpedo_hold: bool,
    /// Suppressed while the drive recharges, so the warp cannot even be aimed.
    pub microwarp_hold: bool,
    pub bracing: bool,
    pub boosting: bool,
    pub board_now: bool,
    /// A pointer weapon (EMP, torpedoes or microwarp) is in use.
    pub kit_active: bool,
}

/// Keyboard and pad combined: each intent is asked for by either device, and
/// the microwarp hold only counts while the drive is charged.
pub open spec fn intents_spec(keys: KeyboardMouse, pad: Option<PadButtons>, warp_ready: bool) -> PilotIntents {
    let p = match pad {
        Some(p) => p,
        None => PadButtons {
            port_held: false,
            port_released: false,
            starboard_held: false,
            starboard_released: false,
            torpedo: false,
            microwarp: false,
            emp: false,
            brace: false,
            boost: false,
            board: false,
        },
    };
    let emp_fire = keys.emp || p.emp;
    let torpedo_hold = keys.torpedo || p.torpedo;
    let microwarp_hold = (keys.microwarp || p.microwarp) && warp_ready;
    PilotIntents {
        aim_port: keys.port_held || p.port_held,
        aim_starboard: keys.starboard_held || p.starboard_held,
        fire_port: keys.port_released || p.port_released,
        fire_starboard: keys.starboard_released || p.starboard_released,
        emp_fire,
        torpedo_hold,
        microwarp_hold,
        bracing: keys.brace || p.brace,
        boosting: keys.boost || p.boost,
        board_now: keys.board || p.board,
        kit_active: emp_fire || torpedo_hold || microwarp_hold,
    }
}

/// The intents of one frame, from the keyboard and mouse, the first pad if
/// one is connected, and whether the microwarp has finished recharging.
pub fn gather_intents(keys: &KeyboardMouse, pad: &Option<PadButtons>, warp_ready: bool) -> (i:
    PilotIntents)
    ensures
        i == intents_spec(*keys, *pad, warp_ready),
        i.aim_port == (keys.port_held || (pad is Some && pad->0.port_held)),
        i.aim_starboard == (keys.starboard_held || (pad is Some && pad->0.starboard_held)),
        i.fire_port == (keys.port_released || (pad is Some && pad->0.port_released)),
        i.fire_starboard == (keys.starboard_released || (pad is Some && pad->0.starboard_released)),
        i.emp_fire == (keys.emp || (pad is Some && pad->0.emp)),
        i.torpedo_hold == (keys.torpedo || (pad is Some && pad->0.torpedo)),
        i.bracing == (keys.brace || (pad is Some && pad->0.brace)),
        i.boosting == (keys.boost || (pad is Some && pad->0.boost)),
        i.board_now == (keys.board || (pad is Some && pad->0.board)),
        i.microwarp_hold == ((keys.microwarp || (pad is Some && pad->0.microwarp)) && warp_ready),
        i.kit_active == (i.emp_fire || i.torpedo_hold || i.microwarp_hold),
{
    let p = match pad {
        Some(p) => *p,
        None => PadButtons {
            port_held: false,
            port_released: false,
            starboard_held: false,
            starboard_released: false,
            torpedo: false,
            microwarp: false,
            emp: false,
            brace: false,
            boost: false,
            board: false,
        },
    };
    let emp_fire = keys.emp || p.emp;
    let torpedo_hold = keys.torpedo || p.torpedo;
    let microwarp_hold = (keys.microwarp || p.microwarp) && warp_ready;
    PilotIntents {
        aim_port: keys.port_held || p.port_held,
        aim_starboard: keys.starboard_held || p.starboard_held,
        fire_port: keys.port_released || p.port_released,
        fire_starboard: keys.starboard_released || p.starboard_released,
        emp_fire,
        torpedo_hold,
        microwarp_hold,
        bracing: keys.brace || p.brace,
        boosting: keys.boost || p.boost,
        board_now: keys.board || p.board,
        kit_active: emp_fire || torpedo_hold || microwarp_hold,
    }
}

/// Each intent is asked for by either device: with a pad connected, every
/// intent is the keyboard's ask or the pad's (the microwarp hold only while
/// the drive is charged); with no pad, each is the keyboard's ask alone; and
/// the drive's charge touches nothing but the microwarp hold and the kit.
pub proof fn law_each_intent_comes_from_either_device(k: KeyboardMouse, p: PadButtons, w: bool)
    ensures
        intents_spec(k, Some(p), w).aim_port == (k.port_held || p.port_held),
        intents_spec(k, Some(p), w).aim_starboard == (k.starboard_held || p.starboard_held),
        intents_spec(k, Some(p), w).fire_port == (k.port_released || p.port_released),
        intents_spec(k, Some(p), w).fire_starboard == (k.starboard_released || p.starboard_released),
        intents_spec(k, Some(p), w).emp_fire == (k.emp || p.emp),
        intents_spec(k, Some(p), w).torpedo_hold == (k.torpedo || p.torpedo),
        intents_spec(k, Some(p), w).bracing == (k.brace || p.brace),
        intents_spec(k, Some(p), w).boosting == (k.boost || p.boost),
        intents_spec(k, Some(p), w).board_now == (k.board || p.board),
        intents_spec(k, Some(p), w).microwarp_hold == ((k.microwarp || p.microwarp) && w),
        intents_spec(k, Some(p), w).kit_active == (k.emp || p.emp || k.torpedo || p.torpedo || ((k.microwarp || p.microwarp) && w)),
        intents_spec(k, None, w).aim_port == k.port_held,
        intents_spec(k, None, w).aim_starboard == k.starboard_held,
        intents_spec(k, None, w).fire_port == k.port_released,
        intents_spec(k, None, w).fire_starboard == k.starboard_released,
        intents_spec(k, None, w).emp_fire == k.emp,
        intents_spec(k, None, w).torpedo_hold == k.torpedo,
        intents_spec(k, None, w).bracing == k.brace,
        intents_spec(k, None, w).boosting == k.boost,
        intents_spec(k, None, w).board_now == k.board,
        intents_spec(k, None, w).microwarp_hold == (k.microwarp && w),
        intents_spec(k, None, w).kit_active == (k.emp || k.torpedo || (k.microwarp && w)),
{
}

/// The keyboard's notch after this frame's throttle-up and throttle-down
/// presses: each press moves one notch, up first, and the notch then holds
/// until changed again.
pub fn keyboard_thrust(thrust: ThrustState, up: bool, down: bool) -> (next: ThrustState)
    ensures
        ({
            let after_up = if up {
                notch_at(clamp_ladder(notch_index(thrust) + 1))
            } else {
                thrust
            };
            next == if down {
                notch_at(clamp_ladder(notch_index(after_up) - 1))
            } else {
                after_up
            }
        }),
{
    let mut t = thrust;
    if up {
        t = t.stepped(1);
    }
    if down {
        t = t.stepped(-1);
    }
    t
}

/// The keyboard's turn: port (+1), starboard (-1), both or
/// neither holding course.
pub fn keyboard_turn(turn_port: bool, turn_starboard: bool) -> (turn: i8)
    ensures
        turn == (if turn_port {
            1int
        } else {
            0
        }) - (if turn_starboard {
            1int
        } else {
            0
        }),
{
    let mut turn: i8 = 0;
    if turn_port {
        turn = turn + 1;
    }
    if turn_starboard {
        turn = turn - 1;
    }
    turn
}

/// How the broadside arc offset moves this frame.
#[derive(Debug, Clone, Copy, PartialEq, Eq, Structural)]
pub enum OffsetRule {
    /// Aiming on a pad: the stick sets the offset absolutely (spring-centred).
    Stick,
    /// Aiming with the mouse: motion accumulates into the offset.
    Accumulate,
    /// The release frame: the offset is held, so the shot goes where the
    /// player was pointing.
    Hold,
    /// Genuinely idle: back to the beam.
    Reset,
}

/// Where the aim point goes this frame.
#[derive(Debug, Clone, Copy, PartialEq, Eq, Structural)]
pub enum AimPoint {
    /// Out along the held broadside's beam, swept by the arc offset.
    Beam { port: bool },
    /// The pad-driven cursor, nudged and kept within its range of the ship.
    PadCursor,
    /// Ahead of the bow, where the reticle rests.
    Rest,
    /// Wherever the mouse points on the plane.
    MousePick,
}

/// Which rule places the aim this frame.
#[derive(Debug, Clone, Copy, PartialEq, Eq, Structural)]
pub struct AimMode {
    pub offset: OffsetRule,
    pub point: AimPoint,
}

/// The aim rules for a frame: a held broadside wins and is aimed with the
/// device in use; a release frame keeps the offset; otherwise a pad drives a
/// cursor for the kit or rests ahead, and the mouse points directly.
pub open spec fn aim_mode_spec(
    aim_port: bool,
    aim_starboard: bool,
    fire_port: bool,
    fire_starboard: bool,
    kit_active: bool,
    use_pad: bool,
) -> AimMode {
    let aiming = aim_port || aim_starboard;
    AimMode {
        offset: if aiming {
            if use_pad {
                OffsetRule::Stick
            } else {
                OffsetRule::Accumulate
            }
        } else if fire_port || fire_starboard {
            OffsetRule::Hold
        } else {
            OffsetRule::Reset
        },
        point: if aiming {
            AimPoint::Beam { port: aim_port }
        } else if use_pad {
            if kit_active {
                AimPoint::PadCursor
            } else {
                AimPoint::Rest
            }
        } else {
            AimPoint::MousePick
        },
    }
}

/// Decide which rules place this frame's aim.
pub fn aim_mode(
    aim_port: bool,
    aim_starboard: bool,
    fire_port: bool,
    fire_starboard: bool,
    kit_active: bool,
    use_pad: bool,
) -> (m: AimMode)
    ensures
        m == aim_mode_spec(aim_port, aim_starboard, fire_port, fire_starboard, kit_active, use_pad),
{
    let aiming = aim_port || aim_starboard;
    let offset = if aiming {
        if use_pad {
            OffsetRule::Stick
        } else {
            OffsetRule::Accumulate
        }
    } else if fire_port || fire_starboard {
        OffsetRule::Hold
    } else {
        OffsetRule::Reset
    };
    let point = if aiming {
        AimPoint::Beam { port: aim_port }
    } else if use_pad {
        if kit_active {
            AimPoint::PadCursor
        } else {
            AimPoint::Rest
        }
    } else {
        AimPoint::MousePick
    };
    AimMode { offset, point }
}

/// A fired broadside always flies along an offset the player chose: on the
/// frame the button comes up, the offset is held rather than reset, so the
/// shot goes where the beam was pointing a frame earlier.
pub proof fn law_a_release_keeps_the_aimed_offset(
    fire_port: bool,
    fire_starboard: bool,
    kit_active: bool,
    use_pad: bool,
)
    requires
        fire_port || fire_starboard,
    ensures
        aim_mode_spec(false, false, fire_port, fire_starboard, kit_active, use_pad).offset
            == OffsetRule::Hold,
{
}

} // verus!
