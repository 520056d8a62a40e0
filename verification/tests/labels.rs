use marble_client::labels::{
    game_status, game_status_text, join_targets, name_with_hash, rank_label, target_summary,
    GameStatus,
};
use marble_client::room::{fallback_name, RoomSession};

#[test]
fn rank_labels() {
    assert_eq!(rank_label(1), "1st");
    assert_eq!(rank_label(2), "2nd");
    assert_eq!(rank_label(3), "3rd");
    assert_eq!(rank_label(4), "4th");
    assert_eq!(rank_label(11), "11th");
    assert_eq!(rank_label(21), "21th");
    assert_eq!(rank_label(100), "100th");
    assert_eq!(rank_label(0), "0th");
}

#[test]
fn names_with_hash() {
    assert_eq!(name_with_hash("Alice", ""), "Alice");
    assert_eq!(name_with_hash("Alice", "1a2b"), "Alice#1a2b");
}

#[test]
fn fallback_names_use_eight_characters() {
    assert_eq!(fallback_name("User-", "ab\u{AC00}\u{B098}\u{B2E4}"), "User-ab\u{AC00}\u{B098}\u{B2E4}");
    assert_eq!(fallback_name("User-", "\u{AC00}\u{B098}\u{B2E4}\u{B77C}"), "User-\u{AC00}\u{B098}\u{B2E4}\u{B77C}");
    assert_eq!(
        fallback_name("Peer-", "\u{AC00}\u{B098}\u{B2E4}\u{B77C}\u{B9C8}\u{BC14}\u{C0AC}\u{C544}\u{C790}"),
        "Peer-\u{AC00}\u{B098}\u{B2E4}\u{B77C}\u{B9C8}\u{BC14}\u{C0AC}\u{C544}"
    );
}

#[test]
fn fallback_names_of_ascii_ids() {
    assert_eq!(fallback_name("Peer-", "0123456789abcdef"), "Peer-01234567");
    assert_eq!(fallback_name("User-", "abc"), "User-abc");
    assert_eq!(fallback_name("User-", ""), "User-");
}

#[test]
fn session_fallbacks() {
    let rs = RoomSession::new("me".to_string());
    assert_eq!(rs.player_name_or_fallback("peer-xyz-123456", ""), "Peer-peer-xyz");
    assert_eq!(rs.player_name_or_fallback("p1", "p1"), "me");
    assert_eq!(rs.display_name_or_fallback("user-0123456789"), "User-user-012");
}

fn v(items: &[&str]) -> Vec<String> {
    items.iter().map(|s| s.to_string()).collect()
}

#[test]
fn target_summaries() {
    assert_eq!(target_summary(&v(&[])), "(no targets)");
    assert_eq!(target_summary(&v(&["gate"])), "gate");
    assert_eq!(target_summary(&v(&["gate", "wall", "pin"])), "gate, +2");
    let many: Vec<String> = (0..12).map(|i| format!("t{}", i)).collect();
    assert_eq!(target_summary(&many), "t0, +11");
}

#[test]
fn joined_targets() {
    assert_eq!(join_targets(&v(&[])), "");
    assert_eq!(join_targets(&v(&["a"])), "a");
    assert_eq!(join_targets(&v(&["a", "b", "c"])), "a, b, c");
}

#[test]
fn status_bar() {
    assert_eq!(game_status(false, true), GameStatus::Loading);
    assert_eq!(game_status(true, true), GameStatus::Running);
    assert_eq!(game_status(true, false), GameStatus::Ready);
    assert_eq!(game_status_text(false, true, 5), "Initializing...");
    assert_eq!(game_status_text(true, true, 1234), "Frame: 1234");
    assert_eq!(game_status_text(true, true, 0), "Frame: 0");
    assert_eq!(game_status_text(true, false, 9), "Ready");
}
