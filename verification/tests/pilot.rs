use vt_client::input::ThrustState;
use vt_client::pilot::{
    aim_mode, gather_intents, keyboard_thrust, keyboard_turn, AimMode, AimPoint, KeyboardMouse,
    OffsetRule, PadButtons,
};

#[test]
fn a_held_side_aims_along_its_beam() {
    assert_eq!(
        aim_mode(true, false, false, false, false, false),
        AimMode {
            offset: OffsetRule::Accumulate,
            point: AimPoint::Beam { port: true },
        }
    );
    assert_eq!(
        aim_mode(false, true, false, false, true, true),
        AimMode {
            offset: OffsetRule::Stick,
            point: AimPoint::Beam { port: false },
        }
    );
}

#[test]
fn a_release_frame_holds_the_offset() {
    let mode = aim_mode(false, false, true, false, false, false);
    assert_eq!(mode.offset, OffsetRule::Hold);
    assert_eq!(mode.point, AimPoint::MousePick);
}

#[test]
fn an_idle_frame_resets_the_offset() {
    assert_eq!(
        aim_mode(false, false, false, false, false, false).offset,
        OffsetRule::Reset
    );
}

#[test]
fn an_idle_pad_rests_the_aim_ahead_of_the_bow() {
    assert_eq!(
        aim_mode(false, false, false, false, false, true).point,
        AimPoint::Rest
    );
}

#[test]
fn kit_weapons_aim_with_the_pad_cursor_or_the_mouse() {
    assert_eq!(
        aim_mode(false, false, false, false, true, true).point,
        AimPoint::PadCursor
    );
    assert_eq!(
        aim_mode(false, false, false, false, true, false).point,
        AimPoint::MousePick
    );
}

#[test]
fn either_device_can_ask_for_anything() {
    let keys = KeyboardMouse {
        port_held: true,
        emp: true,
        ..KeyboardMouse::default()
    };
    let pad = PadButtons {
        starboard_released: true,
        brace: true,
        board: true,
        ..PadButtons::default()
    };
    let i = gather_intents(&keys, &Some(pad), true);
    assert!(i.aim_port && !i.aim_starboard);
    assert!(i.fire_starboard && !i.fire_port);
    assert!(i.emp_fire && i.kit_active);
    assert!(i.bracing && i.board_now && !i.boosting);

    let alone = gather_intents(&keys, &None, true);
    assert!(alone.aim_port && !alone.fire_starboard && !alone.bracing);
}

#[test]
fn a_recharging_microwarp_cannot_even_be_aimed() {
    let keys = KeyboardMouse {
        microwarp: true,
        ..KeyboardMouse::default()
    };
    let charging = gather_intents(&keys, &None, false);
    assert!(!charging.microwarp_hold);
    assert!(!charging.kit_active);
    let ready = gather_intents(&keys, &None, true);
    assert!(ready.microwarp_hold && ready.kit_active);
}

#[test]
fn w_and_s_move_the_ladder_one_notch_per_press() {
    assert_eq!(keyboard_thrust(ThrustState::Half, true, false), ThrustState::Full);
    assert_eq!(keyboard_thrust(ThrustState::Half, false, true), ThrustState::Stop);
    assert_eq!(keyboard_thrust(ThrustState::Half, true, true), ThrustState::Half);
    assert_eq!(keyboard_thrust(ThrustState::Full, true, true), ThrustState::Half);
    assert_eq!(keyboard_thrust(ThrustState::Stop, false, false), ThrustState::Stop);
}

#[test]
fn opposite_turn_keys_cancel() {
    assert_eq!(keyboard_turn(true, false), 1);
    assert_eq!(keyboard_turn(false, true), -1);
    assert_eq!(keyboard_turn(true, true), 0);
    assert_eq!(keyboard_turn(false, false), 0);
}
