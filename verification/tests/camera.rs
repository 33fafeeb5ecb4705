use vt_client::camera::{camera_mode, idle_restarts, may_recentre, CameraMode};

#[test]
fn the_title_card_drifts_whatever_is_held() {
    assert_eq!(camera_mode(true, false, true, true, false, true), CameraMode::Attract);
    assert!(!may_recentre(CameraMode::Attract));
}

#[test]
fn a_pointer_weapon_looks_straight_down() {
    let m = camera_mode(false, false, true, true, false, false);
    assert_eq!(m, CameraMode::TopDown);
    assert!(m.locks());
}

#[test]
fn a_held_broadside_locks_the_view_along_its_beam() {
    let m = camera_mode(false, false, false, false, true, true);
    assert_eq!(m, CameraMode::BroadsideLock { port: false });
    assert!(m.locks());
    assert!(idle_restarts(m, false));
    assert!(!may_recentre(m));
}

#[test]
fn the_ai_pilot_leaves_the_camera_to_the_player() {
    assert_eq!(camera_mode(false, true, true, true, true, true), CameraMode::PadLook);
    assert_eq!(camera_mode(false, true, true, true, true, false), CameraMode::MouseLook);
}

#[test]
fn free_look_recentres_after_idling() {
    let m = camera_mode(false, false, false, false, false, false);
    assert_eq!(m, CameraMode::MouseLook);
    assert!(!m.locks());
    assert!(!idle_restarts(m, false));
    assert!(idle_restarts(m, true));
    assert!(may_recentre(m));
}
