use moltis::xmpp::ns;
use moltis::xmpp::stanza::{build_message, build_presence, build_unavailable, chunk_text};

#[test]
fn build_chat_message() {
    let el = build_message("bot@example.com", "user@example.com", "chat", "Hello!");
    assert_eq!(el.name(), "message");
    assert_eq!(el.attr("type"), Some("chat"));
    assert_eq!(el.attr("to"), Some("user@example.com"));
    let body = el.get_child("body", ns::JABBER_CLIENT).unwrap();
    assert_eq!(body.text(), "Hello!");
}

#[test]
fn build_groupchat_message() {
    let el = build_message(
        "bot@example.com",
        "room@conference.example.com",
        "groupchat",
        "Hi room!",
    );
    assert_eq!(el.attr("type"), Some("groupchat"));
}

#[test]
fn build_initial_presence() {
    let el = build_presence("bot@example.com/moltis", None);
    assert_eq!(el.name(), "presence");
    assert_eq!(el.attr("from"), Some("bot@example.com/moltis"));
    assert!(el.attr("to").is_none());
}

#[test]
fn build_directed_presence() {
    let el = build_presence(
        "bot@example.com/moltis",
        Some("room@conference.example.com/botnick"),
    );
    assert_eq!(el.attr("to"), Some("room@conference.example.com/botnick"));
}

#[test]
fn unavailable_presence_has_type() {
    let el = build_unavailable("bot@example.com/moltis", Some("room@conference.example.com/bot"));
    assert_eq!(el.name(), "presence");
    assert_eq!(el.attr("type"), Some("unavailable"));
    assert_eq!(el.attr("to"), Some("room@conference.example.com/bot"));
    let bare = build_unavailable("bot@example.com/moltis", None);
    assert!(bare.attr("to").is_none());
}

#[test]
fn chunk_short_text() {
    let chunks = chunk_text("hello", 100);
    assert_eq!(chunks, vec!["hello"]);
}

#[test]
fn chunk_at_newline() {
    let text = "line1\nline2\nline3";
    let chunks = chunk_text(text, 10);
    assert_eq!(chunks, vec!["line1\n", "line2\n", "line3"]);
}

#[test]
fn chunk_no_newline() {
    let text = "abcdefghij";
    let chunks = chunk_text(text, 4);
    assert_eq!(chunks, vec!["abcd", "efgh", "ij"]);
}

#[test]
fn chunk_empty_and_exact_length() {
    assert_eq!(chunk_text("", 3), vec![""]);
    assert_eq!(chunk_text("abc", 3), vec!["abc"]);
    assert_eq!(chunk_text("ab\ncd", 3), vec!["ab\n", "cd"]);
}
