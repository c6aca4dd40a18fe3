use discord_assist::claude::{chunk_message, ConversationStore, Message};
use discord_assist::plex::{format_relative_time, item_display, library_line, stream_line};

#[test]
fn test_relative_time_minutes() {
    assert_eq!(format_relative_time(1000, 400), "10m ago");
}

#[test]
fn test_relative_time_hours() {
    assert_eq!(format_relative_time(10000, 10000 - 7200), "2h ago");
}

#[test]
fn test_relative_time_days() {
    assert_eq!(format_relative_time(200000, 200000 - 172800), "2d ago");
}

#[test]
fn test_relative_time_future() {
    assert_eq!(format_relative_time(100, 200), "just now");
}

#[test]
fn test_relative_time_zero() {
    assert_eq!(format_relative_time(100, 0), "just now");
}

#[test]
fn test_chunk_message_short() {
    let chunks = chunk_message("Hello", 2000);
    assert_eq!(chunks, vec!["Hello"]);
}

#[test]
fn test_chunk_message_long() {
    let long = "a".repeat(3000);
    let chunks = chunk_message(&long, 2000);
    assert_eq!(chunks.len(), 2);
    assert_eq!(chunks[0].len(), 2000);
    assert_eq!(chunks[1].len(), 1000);
}

#[test]
fn test_chunk_message_splits_at_newline() {
    let text = format!("{}\n{}", "a".repeat(1500), "b".repeat(1000));
    let chunks = chunk_message(&text, 2000);
    assert_eq!(chunks.len(), 2);
    assert_eq!(chunks[0], "a".repeat(1500));
    assert_eq!(chunks[1], "b".repeat(1000));
}

#[test]
fn conversation_roundtrip() {
    let mut store = ConversationStore::new();
    // Without an active conversation, the prompt goes alone and nothing is
    // stored.
    let msgs = store.prepare_ask(7, "hi");
    assert_eq!(msgs.len(), 1);
    assert_eq!(msgs[0].role, "user");
    assert_eq!(msgs[0].content, "hi");
    store.record_response(7, "hello");
    // Start one: the transcript accumulates both sides.
    store.start(7);
    let msgs = store.prepare_ask(7, "q1");
    assert_eq!(msgs.len(), 1);
    store.record_response(7, "a1");
    let msgs = store.prepare_ask(7, "q2");
    assert_eq!(msgs.len(), 3);
    assert_eq!(msgs[1].role, "assistant");
    assert_eq!(msgs[1].content, "a1");
    assert!(store.end(7));
    assert!(!store.end(7));
}

#[test]
fn conversation_message_shape() {
    let m = Message { role: "user".to_string(), content: "x".to_string() };
    assert_eq!(m.role, "user");
    assert_eq!(m.content, "x");
}

#[test]
fn plex_line_formats() {
    assert_eq!(item_display("Pilot", &Some("Show A".to_string())), "Show A — Pilot");
    assert_eq!(item_display("Film", &None), "Film");
    assert_eq!(library_line("Movies", 42, "movie"), "- Movies: 42 items (movie)");
    assert_eq!(
        stream_line("ann", "Show A — Pilot", "playing", "TV"),
        "- **ann**: Show A — Pilot [playing] (TV)"
    );
}
