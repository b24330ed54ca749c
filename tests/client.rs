use tcptalk::client::{calculate_scroll_to_bottom, is_near_bottom, Message};

fn msg(author: &str, content: &str) -> Message {
    Message { author: author.to_string(), content: content.to_string() }
}

#[test]
fn scroll_to_bottom_of_nothing_is_zero() {
    assert_eq!(calculate_scroll_to_bottom(&[], 10, 10), 0);
}

#[test]
fn scroll_to_bottom_counts_rows_and_spacing() {
    // "alice: hi" is 9 columns: one row at width 10
    let ms = vec![msg("alice", "hi"), msg("alice", "hi"), msg("alice", "hi")];
    assert_eq!(calculate_scroll_to_bottom(&ms, 3, 10), 1);
    assert_eq!(calculate_scroll_to_bottom(&ms, 4, 10), 1);
    assert_eq!(calculate_scroll_to_bottom(&ms, 5, 10), 0);
    assert_eq!(calculate_scroll_to_bottom(&ms, 1, 10), 2);
    // three rows each at width 4
    assert_eq!(calculate_scroll_to_bottom(&ms, 2, 4), 3);
    assert_eq!(calculate_scroll_to_bottom(&ms, 7, 4), 1);
}

#[test]
fn scroll_to_bottom_skips_messages_without_author() {
    let ms = vec![msg("", "x"), msg("a", "b")];
    assert_eq!(calculate_scroll_to_bottom(&ms, 1, 10), 1);
    let ms = vec![msg("a", "b"), msg("", "x")];
    assert_eq!(calculate_scroll_to_bottom(&ms, 1, 10), 1);
}

#[test]
fn scroll_to_bottom_at_width_zero_without_authors() {
    let ms = vec![msg("", "x"), msg("", "y")];
    assert_eq!(calculate_scroll_to_bottom(&ms, 5, 0), 2);
    assert_eq!(calculate_scroll_to_bottom(&[], 5, 0), 0);
}

#[test]
fn scroll_to_bottom_counts_bytes() {
    // "é: é" is 6 bytes: two rows at width 5
    let ms = vec![msg("é", "é"), msg("é", "é")];
    assert_eq!(calculate_scroll_to_bottom(&ms, 4, 5), 1);
    assert_eq!(calculate_scroll_to_bottom(&ms, 5, 5), 0);
}

#[test]
fn near_bottom_compares_hidden_messages() {
    let ten: Vec<Message> = (0..10).map(|i| msg("a", &i.to_string())).collect();
    assert!(is_near_bottom(&[], 0, 4, 10, 2));
    assert!(!is_near_bottom(&ten, 0, 4, 10, 2));
    assert!(is_near_bottom(&ten, 6, 4, 10, 2));
    assert!(!is_near_bottom(&ten, 5, 4, 10, 2));
    assert!(is_near_bottom(&ten, 20, 4, 10, 0));
    assert!(is_near_bottom(&ten[..3], 0, 1, 10, 2));
    assert!(!is_near_bottom(&ten[..4], 0, 1, 10, 2));
    assert!(is_near_bottom(&ten, 0, 0, 0, usize::MAX));
}
