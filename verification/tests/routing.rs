use marble_client::routing::{
    engine_mode, route_needs_bevy, share_url, EngineLatch, EngineMode, Route,
};

#[test]
fn play_and_editor_need_the_engine() {
    assert!(route_needs_bevy(&Some(Route::Play { room_id: "r1".to_string() })));
    assert!(route_needs_bevy(&Some(Route::Editor)));
    assert!(!route_needs_bevy(&Some(Route::Home)));
    assert!(!route_needs_bevy(&Some(Route::DebugP2p)));
    assert!(!route_needs_bevy(&None));
}

#[test]
fn engine_mode_per_page() {
    assert_eq!(engine_mode(&Some(Route::Play { room_id: "r1".to_string() })), EngineMode::Game);
    assert_eq!(engine_mode(&Some(Route::Editor)), EngineMode::Editor);
    assert_eq!(engine_mode(&Some(Route::NotFound)), EngineMode::Cleared);
    assert_eq!(engine_mode(&None), EngineMode::Cleared);
}

#[test]
fn canvas_stays_mounted_once_started() {
    let mut latch = EngineLatch::new();
    assert!(!latch.visit(false));
    assert!(latch.visit(true));
    assert!(latch.ever_started);
    assert!(latch.visit(false));
    assert!(latch.visit(false));
}

#[test]
fn share_urls() {
    assert_eq!(share_url("https://marble.example", "r-42"), "https://marble.example/play/r-42");
    assert_eq!(share_url("", ""), "/play/");
}
