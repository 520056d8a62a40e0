use marble_client::room::{
    should_auto_login, JoinReply, JoinedRoom, PlayerResult, RoomSession, RoomState,
};

fn s(x: &str) -> String {
    x.to_string()
}

fn active_session() -> RoomSession {
    let mut rs = RoomSession::new(s("alice"));
    assert!(rs.begin_join("room-1"));
    rs.complete_join(s("room-1"), s("wss://sig"), true, 1, Vec::new());
    rs
}

#[test]
fn new_session_is_idle() {
    let rs = RoomSession::new(s("alice"));
    assert_eq!(rs.room_state(), RoomState::Idle);
    assert_eq!(rs.room_id(), None);
    assert_eq!(rs.player_id(), "alice");
    assert!(!rs.is_host());
    assert_eq!(rs.server_room_state(), None);
    assert!(!rs.is_game_ended());
    assert!(rs.game_results().is_empty());
}

#[test]
fn join_goes_through_joining_to_active() {
    let mut rs = RoomSession::new(s("alice"));
    assert!(rs.begin_join("room-1"));
    assert_eq!(rs.room_state(), RoomState::Joining { room_id: s("room-1") });
    assert_eq!(rs.room_id(), Some(s("room-1")));
    assert_eq!(rs.active_room_id(), None);
    rs.complete_join(s("room-1"), s("wss://sig"), true, 2, Vec::new());
    assert_eq!(
        rs.room_state(),
        RoomState::Active { room_id: s("room-1"), signaling_url: s("wss://sig"), is_host: true }
    );
    assert_eq!(rs.signaling_url(), Some(s("wss://sig")));
    assert!(rs.is_host());
    assert_eq!(rs.server_room_state(), Some(2));
    assert!(!rs.is_game_ended());
}

#[test]
fn joining_the_active_room_again_is_a_no_op() {
    let mut rs = active_session();
    assert!(!rs.begin_join("room-1"));
    assert_eq!(rs.active_room_id(), Some(s("room-1")));
    assert!(rs.begin_join("room-2"));
    assert_eq!(rs.room_state(), RoomState::Joining { room_id: s("room-2") });
}

#[test]
fn join_into_ended_room_marks_game_ended() {
    let mut rs = RoomSession::new(s("alice"));
    rs.begin_join("r");
    let results = vec![PlayerResult { user_id: s("bob"), rank: 1 }, PlayerResult { user_id: s("alice"), rank: 2 }];
    rs.complete_join(s("r"), s("url"), false, 3, results.clone());
    assert!(rs.is_game_ended());
    assert_eq!(rs.game_results(), results);
}

#[test]
fn failed_join_and_create() {
    let mut rs = RoomSession::new(s("alice"));
    rs.begin_create();
    assert_eq!(rs.room_state(), RoomState::Joining { room_id: s("") });
    rs.fail_join(s(""), s("Failed to create gRPC client"));
    assert_eq!(rs.room_state(), RoomState::Error { room_id: s(""), message: s("Failed to create gRPC client") });
    assert_eq!(rs.room_id(), None);
}

#[test]
fn leave_resets_room_state() {
    let mut rs = active_session();
    rs.finish_peer_resolution(Some(vec![(s("p1"), s("bob"))]));
    rs.set_game_ended(vec![PlayerResult { user_id: s("bob"), rank: 1 }]);
    rs.leave();
    assert_eq!(rs.room_state(), RoomState::Idle);
    assert_eq!(rs.player_name("p1", ""), None);
    assert!(!rs.is_game_ended());
    assert!(rs.game_results().is_empty());
    assert_eq!(rs.server_room_state(), None);
    assert_eq!(rs.player_id(), "alice");
}

#[test]
fn player_name_prefers_own_peer_then_cache() {
    let mut rs = active_session();
    rs.finish_peer_resolution(Some(vec![(s("p1"), s("bob"))]));
    assert_eq!(rs.player_name("me", "me"), Some(s("alice")));
    assert_eq!(rs.player_name("p1", "me"), Some(s("bob")));
    assert_eq!(rs.player_name("p2", "me"), None);
    // an empty own peer id never matches
    assert_eq!(rs.player_name("", ""), None);
}

#[test]
fn registration_runs_once_until_confirmed() {
    let mut rs = RoomSession::new(s("alice"));
    // not active: nothing to do
    assert!(!rs.begin_peer_registration("me"));
    rs.begin_join("r");
    rs.complete_join(s("r"), s("u"), false, 1, Vec::new());
    // peer id unknown yet
    assert!(!rs.begin_peer_registration(""));
    assert!(rs.begin_peer_registration("me"));
    // in flight: no second request
    assert!(!rs.begin_peer_registration("me"));
    rs.finish_peer_registration(false);
    assert!(rs.begin_peer_registration("me"));
    rs.finish_peer_registration(true);
    assert!(!rs.begin_peer_registration("me"));
}

#[test]
fn resolution_asks_for_unknown_peers_once() {
    let mut rs = active_session();
    rs.finish_peer_resolution(Some(vec![(s("p1"), s("bob"))]));
    let listed = vec![s("me"), s("p1"), s("p2"), s("p3")];
    let asked = rs.begin_peer_resolution(7, Some(listed.clone()), "me");
    assert_eq!(asked, Some(vec![s("p2"), s("p3")]));
    // in flight with the same version: nothing new
    assert_eq!(rs.begin_peer_resolution(7, Some(listed.clone()), "me"), None);
    assert!(rs.finish_peer_resolution(Some(vec![(s("p2"), s("carol"))])));
    assert_eq!(rs.player_name("p2", "me"), Some(s("carol")));
    let asked = rs.begin_peer_resolution(7, Some(listed), "me");
    assert_eq!(asked, Some(vec![s("p3")]));
    assert!(!rs.finish_peer_resolution(None));
}

#[test]
fn resolution_with_nothing_unknown_sends_nothing() {
    let mut rs = active_session();
    assert_eq!(rs.begin_peer_resolution(1, Some(vec![s("me")]), "me"), None);
    assert_eq!(rs.begin_peer_resolution(2, None, "me"), None);
    let mut idle = RoomSession::new(s("alice"));
    assert_eq!(idle.begin_peer_resolution(1, Some(vec![s("p9")]), "me"), None);
}

#[test]
fn user_lookup_covers_peers_self_and_results() {
    let mut rs = active_session();
    rs.finish_peer_resolution(Some(vec![(s("p1"), s("bob")), (s("p2"), s("carol"))]));
    rs.set_game_ended(vec![PlayerResult { user_id: s("dave"), rank: 1 }, PlayerResult { user_id: s(""), rank: 2 }]);
    let mut ids = rs.begin_user_lookup().expect("lookup due");
    ids.sort();
    assert_eq!(ids, vec![s("alice"), s("bob"), s("carol"), s("dave")]);
    // in flight: nothing more
    assert_eq!(rs.begin_user_lookup(), None);
    assert!(rs.finish_user_lookup(Some(vec![(s("alice"), s("Alice")), (s("bob"), s("Bob"))])));
    assert_eq!(rs.display_name("bob"), Some(s("Bob")));
    let mut ids = rs.begin_user_lookup().expect("lookup due");
    ids.sort();
    assert_eq!(ids, vec![s("carol"), s("dave")]);
    assert!(!rs.finish_user_lookup(None));
}

#[test]
fn user_lookup_not_due_when_all_named() {
    let mut rs = RoomSession::new(s(""));
    assert_eq!(rs.begin_user_lookup(), None);
    rs.complete_login(s("tok"), s("u1"), s("Uno"));
    assert_eq!(rs.begin_user_lookup(), None);
}

#[test]
fn login_and_tokens() {
    let mut rs = RoomSession::new(s("configured"));
    rs.sync_config_player_id(s("renamed"));
    assert_eq!(rs.player_id(), "renamed");
    // token {"sub":"user-123","exp":5}
    rs.set_auth_token(Some(s("eyJzdWIiOiJ1c2VyLTEyMyIsImV4cCI6NX0.sig")));
    assert_eq!(rs.player_id(), "user-123");
    assert_eq!(rs.auth_token(), Some(s("eyJzdWIiOiJ1c2VyLTEyMyIsImV4cCI6NX0.sig")));
    // with a token the configured name no longer applies
    rs.sync_config_player_id(s("other"));
    assert_eq!(rs.player_id(), "user-123");
    // a token without a readable user keeps the player
    rs.set_auth_token(Some(s("garbage")));
    assert_eq!(rs.player_id(), "user-123");
    rs.apply_auth_token(None, Some(s("ignored")));
    assert_eq!(rs.auth_token(), None);
    assert_eq!(rs.player_id(), "user-123");
}

#[test]
fn relogin_needs_name_and_fingerprint() {
    let mut rs = RoomSession::new(s("alice"));
    assert_eq!(rs.relogin_credentials(), None);
    rs.set_login_credentials(s("Alice"), s("salt"), s(""));
    assert_eq!(rs.relogin_credentials(), None);
    rs.set_login_credentials(s("Alice"), s("salt"), s("fp"));
    assert_eq!(rs.relogin_credentials(), Some((s("Alice"), s("salt"), s("fp"))));
    rs.complete_login(s("tok"), s("u1"), s("Alice"));
    assert_eq!(rs.player_id(), "u1");
    assert_eq!(rs.display_name("u1"), Some(s("Alice")));
    rs.complete_login(s("tok2"), s("u2"), s(""));
    assert_eq!(rs.display_name("u2"), None);
    assert_eq!(rs.auth_token(), Some(s("tok2")));
}

#[test]
fn arrival_reply_ends_game_only_on_ended_state() {
    let mut rs = active_session();
    assert!(!rs.record_arrival_reply(Some(2), vec![PlayerResult { user_id: s("x"), rank: 1 }]));
    assert!(!rs.is_game_ended());
    assert!(!rs.record_arrival_reply(None, Vec::new()));
    assert!(rs.record_arrival_reply(Some(3), vec![PlayerResult { user_id: s("x"), rank: 1 }]));
    assert!(rs.is_game_ended());
    assert_eq!(rs.server_room_state(), Some(3));
    assert_eq!(rs.game_results(), vec![PlayerResult { user_id: s("x"), rank: 1 }]);
}

#[test]
fn auto_login_decision() {
    assert!(should_auto_login(&Some(s("Alice")), &Some(s("fp")), &None));
    assert!(!should_auto_login(&Some(s("")), &Some(s("fp")), &None));
    assert!(!should_auto_login(&None, &Some(s("fp")), &None));
    assert!(!should_auto_login(&Some(s("Alice")), &None, &None));
    assert!(!should_auto_login(&Some(s("Alice")), &Some(s("fp")), &Some(s("tok"))));
}

#[test]
fn join_reply_sets_host_url_and_state() {
    let mut rs = RoomSession::new(s("alice"));
    assert!(rs.begin_join("room-9"));
    let reply = JoinReply {
        signaling_url: Some(s("wss://sig/9")),
        room: Some(JoinedRoom {
            host_user_id: s("alice"),
            state: 3,
            results: Some(vec![PlayerResult { user_id: s("bob"), rank: 1 }]),
        }),
    };
    rs.apply_join_reply(s("room-9"), reply);
    assert_eq!(
        rs.room_state(),
        RoomState::Active { room_id: s("room-9"), signaling_url: s("wss://sig/9"), is_host: true }
    );
    assert_eq!(rs.server_room_state(), Some(3));
    assert!(rs.is_game_ended());
    assert_eq!(rs.game_results(), vec![PlayerResult { user_id: s("bob"), rank: 1 }]);
}

#[test]
fn join_reply_defaults() {
    let mut rs = RoomSession::new(s("alice"));
    assert!(rs.begin_join("room-9"));
    rs.apply_join_reply(s("room-9"), JoinReply { signaling_url: None, room: None });
    assert_eq!(
        rs.room_state(),
        RoomState::Active { room_id: s("room-9"), signaling_url: s(""), is_host: false }
    );
    assert_eq!(rs.server_room_state(), Some(0));
    assert!(!rs.is_game_ended());

    let mut other = RoomSession::new(s("alice"));
    assert!(other.begin_join("room-2"));
    let reply = JoinReply {
        signaling_url: Some(s("wss://x")),
        room: Some(JoinedRoom { host_user_id: s("bob"), state: 1, results: None }),
    };
    other.apply_join_reply(s("room-2"), reply);
    assert!(!other.is_host());
    assert!(other.game_results().is_empty());
}

#[test]
fn join_without_client_fails() {
    let mut rs = RoomSession::new(s("alice"));
    assert!(rs.begin_join("room-3"));
    rs.fail_join_without_client(s("room-3"));
    assert_eq!(
        rs.room_state(),
        RoomState::Error { room_id: s("room-3"), message: s("Failed to create gRPC client") }
    );
}

#[test]
fn join_reply_host_is_checked_against_the_joining_player() {
    let mut rs = RoomSession::new(s("alice"));
    assert!(rs.begin_join("room-5"));
    // a re-login during the join changes the player id
    rs.complete_login(s("tok"), s("u-new"), s("Alice"));
    let reply = JoinReply {
        signaling_url: Some(s("wss://sig/5")),
        room: Some(JoinedRoom { host_user_id: s("alice"), state: 1, results: None }),
    };
    rs.apply_join_reply(s("room-5"), reply);
    assert!(rs.is_host());
    assert_eq!(rs.player_id(), "u-new");
}
