use marble_client::reaction_feed::{ReactionFeed, ANIMATION_DURATION_MS};

fn r(id: u64, e: &str) -> (u64, String) {
    (id, e.to_string())
}

fn ids(feed: &ReactionFeed) -> Vec<u64> {
    feed.shown_reactions().iter().map(|e| e.id).collect()
}

#[test]
fn new_reactions_appear_once() {
    let mut feed = ReactionFeed::new();
    let (added, changed) = feed.receive(&vec![r(1, "a"), r(2, "b")], 1_000);
    assert_eq!(added, vec![1, 2]);
    assert!(changed);
    assert_eq!(ids(&feed), vec![1, 2]);
    assert_eq!(feed.shown_reactions()[1].emoji, "b");
    assert_eq!(feed.shown_reactions()[1].created_ms, 1_000);

    // the same list again adds nothing
    let (added, changed) = feed.receive(&vec![r(1, "a"), r(2, "b")], 1_100);
    assert!(added.is_empty());
    assert!(!changed);

    // a repeated id inside one list is taken once
    let (added, _) = feed.receive(&vec![r(3, "c"), r(3, "c")], 1_200);
    assert_eq!(added, vec![3]);
    assert_eq!(ids(&feed), vec![1, 2, 3]);
}

#[test]
fn reactions_expire_after_the_animation() {
    let mut feed = ReactionFeed::new();
    feed.receive(&vec![r(1, "a")], 1_000);
    feed.receive(&vec![r(1, "a"), r(2, "b")], 2_000);
    // exactly the animation time later is not over yet
    assert!(!feed.expire(1_000 + ANIMATION_DURATION_MS));
    assert_eq!(ids(&feed), vec![1, 2]);
    assert!(feed.expire(1_000 + ANIMATION_DURATION_MS + 1));
    assert_eq!(ids(&feed), vec![2]);
    // an expired reaction never comes back
    let (added, changed) = feed.receive(&vec![r(1, "a"), r(2, "b")], 2_500);
    assert!(added.is_empty());
    assert!(!changed);
    assert_eq!(ids(&feed), vec![2]);
}

#[test]
fn receiving_also_cleans_up() {
    let mut feed = ReactionFeed::new();
    feed.receive(&vec![r(1, "a")], 0);
    let (added, changed) = feed.receive(&vec![r(1, "a")], ANIMATION_DURATION_MS + 5);
    assert!(added.is_empty());
    assert!(changed);
    assert!(ids(&feed).is_empty());
}
