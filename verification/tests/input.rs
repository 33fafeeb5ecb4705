use vt_client::input::{track_input_method, InputMethod, ThrustState};

#[test]
fn the_thrust_ladder_saturates_at_both_ends() {
    let mut s = ThrustState::Full;
    for _ in 0..5 {
        s = s.stepped(1);
    }
    assert_eq!(s, ThrustState::Full);
    for _ in 0..9 {
        s = s.stepped(-1);
    }
    assert_eq!(s, ThrustState::Reverse);
}

#[test]
fn the_ladder_steps_one_notch_at_a_time_from_half_thrust() {
    let s = ThrustState::default();
    assert_eq!(s, ThrustState::Half, "a fresh ship starts at half thrust");
    assert_eq!(s.stepped(1), ThrustState::Full);
    assert_eq!(s.stepped(-1), ThrustState::Stop);
    assert_eq!(s.stepped(-1).stepped(-1), ThrustState::Reverse);
}

#[test]
fn a_big_step_lands_on_the_end_of_the_ladder() {
    assert_eq!(ThrustState::Stop.stepped(i32::MIN), ThrustState::Reverse);
    assert_eq!(ThrustState::Stop.stepped(i32::MAX - 1), ThrustState::Full);
    assert_eq!(ThrustState::Half.stepped(0), ThrustState::Half);
}

#[test]
fn the_ladder_is_in_order() {
    for (i, notch) in ThrustState::LADDER.iter().enumerate() {
        assert_eq!(notch.index() as usize, i);
    }
}

#[test]
fn every_thrust_notch_names_its_own_string() {
    assert_eq!(ThrustState::Reverse.string_key(), "hud.helm.reverse");
    assert_eq!(ThrustState::Stop.string_key(), "hud.helm.none");
    assert_eq!(ThrustState::Half.string_key(), "hud.helm.half");
    assert_eq!(ThrustState::Full.string_key(), "hud.helm.full");
}

#[test]
fn an_active_pad_wins_then_the_keyboard_and_a_quiet_frame_changes_nothing() {
    let kbm = InputMethod::KeyboardMouse;
    let pad = InputMethod::Gamepad;
    assert_eq!(track_input_method(kbm, true, true), pad);
    assert_eq!(track_input_method(pad, false, true), kbm);
    assert_eq!(track_input_method(pad, false, false), pad);
    assert_eq!(track_input_method(kbm, false, false), kbm);
    assert_eq!(InputMethod::default(), kbm);
    assert_eq!(kbm.wire_name(), "kbm");
    assert_eq!(pad.wire_name(), "gamepad");
}

use vt_client::input::{
    toggle_controls_panel, toggle_pause, toggle_player_ai, Aiming, ControlsPanel, Paused, PlayerAi,
};

#[test]
fn handing_the_ship_to_the_ai_drops_the_held_aim() {
    let mut ai = PlayerAi::default();
    let mut aiming = Aiming {
        port: true,
        starboard: false,
    };
    assert_eq!(toggle_player_ai(false, true, &mut ai, &mut aiming), None);
    assert!(aiming.port, "no key, no change");
    assert_eq!(toggle_player_ai(true, true, &mut ai, &mut aiming), Some(true));
    assert_eq!(aiming, Aiming::default());
    aiming.starboard = true;
    assert_eq!(toggle_player_ai(true, true, &mut ai, &mut aiming), Some(false));
    assert!(aiming.starboard, "taking the ship back leaves the aim alone");
}

#[test]
fn with_no_ship_the_flag_flips_but_the_aim_stays() {
    let mut ai = PlayerAi::default();
    let mut aiming = Aiming {
        port: true,
        starboard: true,
    };
    assert_eq!(toggle_player_ai(true, false, &mut ai, &mut aiming), Some(true));
    assert!(ai.on);
    assert!(aiming.port && aiming.starboard);
}

#[test]
fn pause_and_the_controls_panel_flip_each_press() {
    let mut paused = Paused::default();
    assert_eq!(toggle_pause(true, &mut paused), Some(true));
    assert_eq!(toggle_pause(false, &mut paused), None);
    assert!(paused.0);
    assert_eq!(toggle_pause(true, &mut paused), Some(false));
    let mut panel = ControlsPanel::default();
    toggle_controls_panel(true, &mut panel);
    assert!(panel.open);
    toggle_controls_panel(false, &mut panel);
    assert!(panel.open);
    toggle_controls_panel(true, &mut panel);
    assert!(!panel.open);
}
