use marble_client::camera::{camera_target, zooms_to_fit, CameraTarget};
use marble_client::camera::{CameraMode, CameraState, LeaderPick, LEADER_SWITCH_COOLDOWN};

#[test]
fn test_camera_toggle_follow() {
    let mut camera = CameraState::new();

    // Start in Overview (default)
    assert_eq!(camera.mode, CameraMode::Overview);

    // Tab from Overview -> FollowMe
    camera.toggle_follow();
    assert_eq!(camera.mode, CameraMode::FollowMe);

    // Tab from FollowMe -> FollowLeader
    camera.toggle_follow();
    assert_eq!(camera.mode, CameraMode::FollowLeader);

    // Tab from FollowLeader -> FollowMe
    camera.toggle_follow();
    assert_eq!(camera.mode, CameraMode::FollowMe);
}

#[test]
fn test_camera_toggle_overview() {
    let mut camera = CameraState::new();

    // Start in Overview, toggle to follow first
    camera.toggle_follow();
    assert_eq!(camera.mode, CameraMode::FollowMe);

    // Toggle to Overview
    camera.toggle_overview();
    assert_eq!(camera.mode, CameraMode::Overview);
    assert_eq!(camera.previous_mode, CameraMode::FollowMe);

    // Toggle back - should restore FollowMe
    camera.toggle_overview();
    assert_eq!(camera.mode, CameraMode::FollowMe);
}

#[test]
fn camera_default_mode_is_overview() {
    assert_eq!(CameraMode::default(), CameraMode::Overview);
    let camera = CameraState::default();
    assert_eq!(camera.mode(), CameraMode::Overview);
    assert_eq!(camera.previous_mode, CameraMode::FollowMe);
}

#[test]
fn camera_overview_round_trip_from_follow_leader() {
    let mut camera = CameraState::new();
    camera.set_mode(CameraMode::FollowLeader);
    assert_eq!(camera.previous_mode, CameraMode::Overview);
    camera.toggle_overview();
    assert_eq!(camera.mode, CameraMode::Overview);
    assert_eq!(camera.previous_mode, CameraMode::FollowLeader);
    camera.toggle_overview();
    assert_eq!(camera.mode, CameraMode::FollowLeader);
}

#[test]
fn camera_set_same_mode_keeps_previous() {
    let mut camera = CameraState::new();
    camera.set_mode(CameraMode::Overview);
    assert_eq!(camera.mode, CameraMode::Overview);
    assert_eq!(camera.previous_mode, CameraMode::FollowMe);
    camera.set_mode(CameraMode::FollowMe);
    assert_eq!(camera.mode, CameraMode::FollowMe);
    assert_eq!(camera.previous_mode, CameraMode::Overview);
}

#[test]
fn camera_follow_toggle_never_enters_overview() {
    let mut camera = CameraState::new();
    for _ in 0..5 {
        camera.toggle_follow();
        assert_ne!(camera.mode, CameraMode::Overview);
    }
}

#[test]
fn leader_first_pick_starts_cooldown_and_holds() {
    let mut camera = CameraState::new();
    // First frame: no leader yet, a marble found -> follow the best one.
    assert_eq!(camera.pick_leader(false, true, false, false), LeaderPick::Best);
    // During the cooldown the followed marble is kept even if another is clearly ahead.
    for _ in 0..(LEADER_SWITCH_COOLDOWN - 1) {
        assert_eq!(camera.pick_leader(true, true, true, true), LeaderPick::Current);
    }
    // Cooldown over: a clearly ahead marble takes over.
    assert_eq!(camera.pick_leader(true, true, true, true), LeaderPick::Best);
    // ... and a new cooldown starts.
    assert_eq!(camera.pick_leader(true, true, true, true), LeaderPick::Current);
}

#[test]
fn leader_not_clearly_ahead_keeps_current() {
    let mut camera = CameraState::new();
    assert_eq!(camera.pick_leader(false, true, false, false), LeaderPick::Best);
    for _ in 0..LEADER_SWITCH_COOLDOWN {
        camera.pick_leader(true, true, true, false);
    }
    assert_eq!(camera.pick_leader(true, true, true, false), LeaderPick::Current);
    // Lost track of the followed marble: fall back to the best one.
    assert_eq!(camera.pick_leader(true, true, false, false), LeaderPick::Best);
}

#[test]
fn camera_targets_per_mode() {
    assert_eq!(camera_target(CameraMode::Overview, true), CameraTarget::MapCenter);
    assert_eq!(camera_target(CameraMode::FollowMe, true), CameraTarget::MyMarble);
    assert_eq!(camera_target(CameraMode::FollowMe, false), CameraTarget::MapCenter);
    assert_eq!(camera_target(CameraMode::FollowLeader, false), CameraTarget::Leader);
    assert!(zooms_to_fit(CameraMode::Overview));
    assert!(!zooms_to_fit(CameraMode::FollowMe));
    assert!(!zooms_to_fit(CameraMode::FollowLeader));
}
