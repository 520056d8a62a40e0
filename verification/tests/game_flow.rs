use marble_client::game_flow::{
    all_arrived, get_reaction_emoji, ordered_emojis, player_color, start_roster, reactions, shortcut_for, ArrivalReporter,
    GameFlow, GamePhase, PendingEmoji, ReactionCooldown, REACTION_COOLDOWN_MS, ROOM_ENDED,
};

fn arrived(list: &[(&str, Option<u64>)]) -> Vec<(String, Option<u64>)> {
    list.iter().map(|(n, f)| (n.to_string(), *f)).collect()
}

#[test]
fn flow_starts_in_lobby_or_ended() {
    let f = GameFlow::new(None);
    assert_eq!(f.phase, GamePhase::InLobby);
    assert!(!f.entered_ended);
    let f = GameFlow::new(Some(2));
    assert_eq!(f.phase, GamePhase::InLobby);
    let f = GameFlow::new(Some(ROOM_ENDED));
    assert_eq!(f.phase, GamePhase::Ended);
    assert!(f.entered_ended);
    assert!(f.in_ended());
    assert!(!f.in_lobby());
}

#[test]
fn non_host_starts_playing_when_players_appear() {
    let mut f = GameFlow::new(None);
    f.players_changed(false, false, 3);
    assert_eq!(f.phase, GamePhase::InLobby);
    f.players_changed(false, true, 0);
    assert_eq!(f.phase, GamePhase::InLobby);
    f.players_changed(false, true, 3);
    assert_eq!(f.phase, GamePhase::Playing);
}

#[test]
fn host_is_not_started_by_players() {
    let mut f = GameFlow::new(None);
    f.players_changed(true, true, 3);
    assert_eq!(f.phase, GamePhase::InLobby);
    f.host_started();
    assert_eq!(f.phase, GamePhase::Playing);
}

#[test]
fn entered_ended_room_stays_ended() {
    let mut f = GameFlow::new(Some(ROOM_ENDED));
    f.players_changed(false, true, 4);
    assert_eq!(f.phase, GamePhase::Ended);
    f.server_state_changed(Some(1));
    assert_eq!(f.phase, GamePhase::Ended);
}

#[test]
fn server_end_and_arrivals_end_the_game() {
    let mut f = GameFlow::new(None);
    f.host_started();
    f.server_state_changed(Some(2));
    assert_eq!(f.phase, GamePhase::Playing);
    f.server_state_changed(Some(ROOM_ENDED));
    assert_eq!(f.phase, GamePhase::Ended);
    assert!(f.entered_ended);

    let mut g = GameFlow::new(None);
    g.host_started();
    g.game_ended_changed(false);
    assert_eq!(g.phase, GamePhase::Playing);
    g.all_arrived_changed(true);
    assert_eq!(g.phase, GamePhase::Ended);
    assert!(!g.entered_ended);

    let mut h = GameFlow::new(None);
    h.game_ended_changed(true);
    assert_eq!(h.phase, GamePhase::Ended);
}

#[test]
fn all_arrived_needs_players() {
    assert!(!all_arrived(&vec![]));
    assert!(!all_arrived(&vec![true, false, true]));
    assert!(all_arrived(&vec![true, true]));
}

#[test]
fn host_reports_each_arrival_once_with_next_rank() {
    let mut r = ArrivalReporter::new();
    r.map_player("Alice".to_string(), "u-alice".to_string());
    r.map_player("Bob".to_string(), "u-bob".to_string());

    let first = r.report_arrivals(true, &arrived(&[("Bob", Some(120))]));
    assert_eq!(first.len(), 1);
    assert_eq!(first[0].name, "Bob");
    assert_eq!(first[0].user_id, Some("u-bob".to_string()));
    assert_eq!(first[0].frame, 120);
    assert_eq!(first[0].rank, 1);

    let second = r.report_arrivals(
        true,
        &arrived(&[("Bob", Some(120)), ("Carol", None), ("Alice", Some(200))]),
    );
    assert_eq!(second.len(), 2);
    assert_eq!(second[0].name, "Carol");
    assert_eq!(second[0].user_id, None);
    assert_eq!(second[0].frame, 0);
    assert_eq!(second[0].rank, 2);
    assert_eq!(second[1].name, "Alice");
    assert_eq!(second[1].rank, 3);

    // nothing new
    assert!(r.report_arrivals(true, &arrived(&[("Alice", Some(200))])).is_empty());

    // a new game forgets everything
    r.start_game();
    let again = r.report_arrivals(true, &arrived(&[("Alice", Some(5))]));
    assert_eq!(again.len(), 1);
    assert_eq!(again[0].rank, 1);
    assert_eq!(again[0].user_id, None);
}

#[test]
fn non_host_reports_nothing() {
    let mut r = ArrivalReporter::new();
    assert!(r.report_arrivals(false, &arrived(&[("Bob", Some(1))])).is_empty());
    // and still reports Bob once it hosts
    assert_eq!(r.report_arrivals(true, &arrived(&[("Bob", Some(1))])).len(), 1);
}

#[test]
fn reaction_shortcuts() {
    assert_eq!(get_reaction_emoji("1"), Some("\u{1F44D}"));
    assert_eq!(get_reaction_emoji("2"), Some("\u{2764}\u{FE0F}"));
    assert_eq!(get_reaction_emoji("3"), Some("\u{1F602}"));
    assert_eq!(get_reaction_emoji("4"), Some("\u{1F389}"));
    assert_eq!(get_reaction_emoji("5"), Some("\u{1F44F}"));
    assert_eq!(get_reaction_emoji("6"), None);
    assert_eq!(get_reaction_emoji(""), None);
    assert_eq!(get_reaction_emoji("11"), None);
}

#[test]
fn reactions_respect_cooldown() {
    let mut c = ReactionCooldown::new();
    assert!(c.try_send(1_000));
    assert!(!c.try_send(1_000 + REACTION_COOLDOWN_MS - 1));
    assert!(c.try_send(1_000 + REACTION_COOLDOWN_MS));
    // a clock that goes back sends nothing
    assert!(!c.try_send(10));
    // the very first reaction needs the cooldown from time zero
    let mut d = ReactionCooldown::new();
    assert!(!d.try_send(REACTION_COOLDOWN_MS - 1));
}

#[test]
fn reaction_table_and_shortcuts() {
    let t = reactions();
    assert_eq!(t.len(), 5);
    for (k, e) in t.iter() {
        assert_eq!(get_reaction_emoji(k), Some(*e));
        assert_eq!(shortcut_for(e), k.to_string());
    }
    assert_eq!(shortcut_for("x"), "");
}

#[test]
fn last_emoji_comes_first() {
    let order = ordered_emojis("\u{1F602}");
    assert_eq!(
        order,
        vec!["\u{1F602}", "\u{1F44D}", "\u{2764}\u{FE0F}", "\u{1F389}", "\u{1F44F}"]
    );
    // an emoji outside the table is shown first, followed by all five
    assert_eq!(ordered_emojis("x").len(), 6);
}

#[test]
fn pending_emoji_applies_when_panel_closes() {
    let mut p = PendingEmoji::new(false);
    assert_eq!(p.expanded_changed(true), None);
    p.select("\u{1F389}".to_string());
    assert_eq!(p.expanded_changed(true), None);
    assert_eq!(p.expanded_changed(false), Some("\u{1F389}".to_string()));
    assert_eq!(p.pending, None);
    assert_eq!(p.expanded_changed(false), None);
}

#[test]
fn start_roster_puts_host_first_and_skips_unknown_peers() {
    let peers = vec![
        Some(("Bob".to_string(), "u-bob".to_string())),
        None,
        Some(("Carol".to_string(), "u-carol".to_string())),
    ];
    let r = start_roster("Alice".to_string(), "u-alice".to_string(), &peers);
    let got: Vec<(String, String, usize)> =
        r.iter().map(|e| (e.name.clone(), e.user_id.clone(), e.color)).collect();
    assert_eq!(
        got,
        vec![
            ("Alice".to_string(), "u-alice".to_string(), 0),
            ("Bob".to_string(), "u-bob".to_string(), 1),
            ("Carol".to_string(), "u-carol".to_string(), 3),
        ]
    );
}

#[test]
fn roster_colours_wrap_around() {
    let peers: Vec<Option<(String, String)>> =
        (0..8).map(|i| Some((format!("p{}", i), format!("u{}", i)))).collect();
    let r = start_roster("h".to_string(), "uh".to_string(), &peers);
    assert_eq!(r.len(), 9);
    assert_eq!(r[7].color, 7);
    assert_eq!(r[8].color, 0);
    assert_eq!(player_color(0), [255, 0, 0, 255]);
    assert_eq!(player_color(3), [255, 128, 0, 255]);
    assert_eq!(player_color(7), [255, 255, 0, 255]);
}
