use marble_client::timeline::{add_target, add_typed_target, chat_message, drop_move, is_playing};

fn v(items: &[&str]) -> Vec<String> {
    items.iter().map(|s| s.to_string()).collect()
}

#[test]
fn targets_are_added_once() {
    let mut t = v(&["a"]);
    assert!(add_target(&mut t, "b"));
    assert_eq!(t, v(&["a", "b"]));
    assert!(!add_target(&mut t, "a"));
    assert!(!add_target(&mut t, ""));
    assert_eq!(t, v(&["a", "b"]));
}

#[test]
fn typed_targets_are_trimmed() {
    let mut t = v(&["wall"]);
    assert!(add_typed_target(&mut t, "  gate \n"));
    assert_eq!(t, v(&["wall", "gate"]));
    assert!(!add_typed_target(&mut t, " wall "));
    assert!(!add_typed_target(&mut t, "   "));
    assert_eq!(t, v(&["wall", "gate"]));
}

#[test]
fn chat_messages_are_trimmed() {
    assert_eq!(chat_message("  hello  "), Some("hello".to_string()));
    assert_eq!(chat_message(" \t "), None);
    assert_eq!(chat_message(""), None);
}

#[test]
fn playing_keyframe_is_the_previous_pointer() {
    assert!(!is_playing(None, 0));
    assert!(!is_playing(Some(0), 0));
    assert!(is_playing(Some(1), 0));
    assert!(is_playing(Some(3), 2));
    assert!(!is_playing(Some(3), 3));
}

#[test]
fn dropping_moves_unless_on_itself() {
    assert_eq!(drop_move(Some(1), 3), Some((1, 3)));
    assert_eq!(drop_move(Some(2), 2), None);
    assert_eq!(drop_move(None, 2), None);
}

#[test]
fn trimming_removes_unicode_white_space() {
    assert_eq!(chat_message("\u{3000}\u{A0}hi there\u{2029}\t"), Some("hi there".to_string()));
    assert_eq!(chat_message("\u{2003}\u{85}"), None);
}
