use marble_client::peer_manager::{rtt_quality, RttQuality};
use marble_client::peer_manager::{PeerManager, PeerStatus, UserPresence, MAX_RESOLVE_ATTEMPTS, PING_TIMEOUT_MS};

fn sorted(mut v: Vec<String>) -> Vec<String> {
    v.sort();
    v
}

#[test]
fn new_manager_is_empty() {
    let pm = PeerManager::new();
    assert!(pm.all_peer_ids().is_empty());
    assert!(pm.unresolved_peer_ids().is_empty());
    assert!(pm.unresolved_user_ids().is_empty());
    assert_eq!(pm.room_users().len(), 0);
    let pm2 = PeerManager::default();
    assert!(pm2.all_peer_ids().is_empty());
}

#[test]
fn connected_peer_is_resolving_and_connect_is_idempotent() {
    let mut pm = PeerManager::new();
    pm.on_peer_connected("p1");
    assert!(matches!(pm.peer_status("p1"), Some(PeerStatus::Resolving { attempts: 0 })));
    assert!(!pm.on_resolve_failed("p1"));
    pm.on_peer_connected("p1");
    assert!(matches!(pm.peer_status("p1"), Some(PeerStatus::Resolving { attempts: 1 })));
    assert_eq!(pm.unresolved_peer_ids(), vec!["p1".to_string()]);
    assert_eq!(pm.all_peer_ids(), vec!["p1".to_string()]);
}

#[test]
fn resolve_maps_peer_to_user_and_connects_user() {
    let mut pm = PeerManager::new();
    pm.on_peer_connected("p1");
    pm.on_peer_resolved("p1", "u1");
    assert_eq!(pm.peer_to_user("p1"), Some("u1".to_string()));
    assert!(pm.unresolved_peer_ids().is_empty());
    match pm.room_users().get("u1") {
        Some(UserPresence::Connected { peer_id }) => assert_eq!(peer_id, "p1"),
        _ => panic!("user should be connected"),
    }
    assert_eq!(pm.peer_to_user("p2"), None);
}

#[test]
fn disconnect_of_resolved_peer_leaves_user_in_room() {
    let mut pm = PeerManager::new();
    pm.update_room_users(vec!["u1".to_string()]);
    pm.on_peer_connected("p1");
    pm.on_peer_resolved("p1", "u1");
    pm.on_peer_disconnected("p1");
    assert!(pm.peer_status("p1").is_none());
    assert_eq!(pm.peer_to_user("p1"), None);
    assert!(matches!(pm.room_users().get("u1"), Some(UserPresence::InRoom)));
}

#[test]
fn disconnect_of_old_peer_keeps_newer_connection() {
    let mut pm = PeerManager::new();
    pm.on_peer_resolved("p1", "u1");
    pm.on_peer_resolved("p2", "u1");
    pm.on_peer_disconnected("p1");
    match pm.room_users().get("u1") {
        Some(UserPresence::Connected { peer_id }) => assert_eq!(peer_id, "p2"),
        _ => panic!("user should stay connected via p2"),
    }
}

#[test]
fn fifth_failed_resolve_asks_for_ping() {
    let mut pm = PeerManager::new();
    pm.on_peer_connected("p1");
    for _ in 1..MAX_RESOLVE_ATTEMPTS {
        assert!(!pm.on_resolve_failed("p1"));
        assert!(pm.peers_needing_ping().is_empty());
    }
    assert!(pm.on_resolve_failed("p1"));
    assert_eq!(pm.peers_needing_ping(), vec!["p1".to_string()]);
    // unknown peers never ask
    assert!(!pm.on_resolve_failed("nobody"));
}

#[test]
fn resolve_failure_of_non_resolving_peer_changes_nothing() {
    let mut pm = PeerManager::new();
    pm.on_peer_resolved("p1", "u1");
    assert!(!pm.on_resolve_failed("p1"));
    assert_eq!(pm.peer_to_user("p1"), Some("u1".to_string()));
}

#[test]
fn ping_counts_attempts_and_pong_resets() {
    let mut pm = PeerManager::new();
    pm.on_peer_connected("p1");
    pm.on_ping_sent("p1", 1000);
    assert!(matches!(pm.peer_status("p1"), Some(PeerStatus::PingSent { sent_at_ms: 1000, attempts: 1 })));
    pm.on_ping_sent("p1", 2000);
    assert!(matches!(pm.peer_status("p1"), Some(PeerStatus::PingSent { sent_at_ms: 2000, attempts: 2 })));
    assert!(pm.unresolved_peer_ids().is_empty());
    pm.on_pong_received("p1");
    assert!(matches!(pm.peer_status("p1"), Some(PeerStatus::Resolving { attempts: 0 })));
    // pings and pongs for unknown peers are ignored
    pm.on_ping_sent("nobody", 5);
    pm.on_pong_received("nobody");
    assert!(pm.peer_status("nobody").is_none());
}

#[test]
fn ping_timeout_marks_stale() {
    let mut pm = PeerManager::new();
    pm.on_peer_connected("p1");
    pm.on_peer_connected("p2");
    pm.on_ping_sent("p1", 1000);
    pm.on_ping_sent("p2", 2500);
    // not yet
    assert!(pm.check_ping_timeouts(1000 + PING_TIMEOUT_MS - 1).is_empty());
    // exactly at the timeout p1 expires, p2 does not
    assert_eq!(pm.check_ping_timeouts(1000 + PING_TIMEOUT_MS), vec!["p1".to_string()]);
    assert!(matches!(pm.peer_status("p1"), Some(PeerStatus::Stale)));
    assert!(matches!(pm.peer_status("p2"), Some(PeerStatus::PingSent { .. })));
    // a second check reports only what newly expired
    assert_eq!(pm.check_ping_timeouts(10_000), vec!["p2".to_string()]);
    assert!(pm.check_ping_timeouts(20_000).is_empty());
}

#[test]
fn ping_in_the_future_does_not_time_out() {
    let mut pm = PeerManager::new();
    pm.on_peer_connected("p1");
    pm.on_ping_sent("p1", 50_000);
    assert!(pm.check_ping_timeouts(1_000).is_empty());
}

#[test]
fn room_users_follow_authoritative_list() {
    let mut pm = PeerManager::new();
    pm.on_peer_resolved("p1", "u1");
    pm.update_room_users(vec!["u1".to_string(), "u2".to_string()]);
    assert!(matches!(pm.room_users().get("u1"), Some(UserPresence::Connected { .. })));
    assert!(matches!(pm.room_users().get("u2"), Some(UserPresence::InRoom)));
    pm.update_room_users(vec!["u2".to_string(), "u3".to_string()]);
    assert!(pm.room_users().get("u1").is_none());
    assert!(matches!(pm.room_users().get("u3"), Some(UserPresence::InRoom)));
    assert_eq!(sorted(pm.room_users().keys()), vec!["u2".to_string(), "u3".to_string()]);
}

#[test]
fn display_names_and_unnamed_users() {
    let mut pm = PeerManager::new();
    pm.update_room_users(vec!["u1".to_string(), "u2".to_string()]);
    assert_eq!(sorted(pm.unresolved_user_ids()), vec!["u1".to_string(), "u2".to_string()]);
    pm.set_display_name("u1", "Alice".to_string());
    assert_eq!(pm.display_name("u1"), Some("Alice".to_string()));
    assert_eq!(pm.display_name("u2"), None);
    assert_eq!(pm.unresolved_user_ids(), vec!["u2".to_string()]);
}

#[test]
fn reset_forgets_everything() {
    let mut pm = PeerManager::new();
    pm.on_peer_resolved("p1", "u1");
    pm.set_display_name("u1", "Alice".to_string());
    pm.reset();
    assert!(pm.all_peer_ids().is_empty());
    assert_eq!(pm.room_users().len(), 0);
    assert_eq!(pm.display_name("u1"), None);
}

#[test]
fn rtt_quality_thresholds() {
    assert_eq!(rtt_quality(0), RttQuality::Good);
    assert_eq!(rtt_quality(49), RttQuality::Good);
    assert_eq!(rtt_quality(50), RttQuality::Medium);
    assert_eq!(rtt_quality(99), RttQuality::Medium);
    assert_eq!(rtt_quality(100), RttQuality::Bad);
}
