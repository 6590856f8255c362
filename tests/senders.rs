use moltis::senders::{sender_allowed, sender_allowed_folded};

#[test]
fn sender_on_allowlist_ignoring_case() {
    let list = vec!["Alice".to_string(), "12345".to_string()];
    assert!(sender_allowed(&list, "ALICE", None));
    assert!(sender_allowed(&list, "999", Some("alice")));
    assert!(sender_allowed(&list, "12345", Some("bob")));
    assert!(!sender_allowed(&list, "999", Some("bob")));
    assert!(!sender_allowed(&Vec::new(), "alice", Some("alice")));
}

#[test]
fn folded_match_is_exact() {
    let list = vec!["alice".to_string()];
    assert!(sender_allowed_folded(&list, "alice", None));
    assert!(!sender_allowed_folded(&list, "Alice", None));
    assert!(sender_allowed_folded(&list, "x", Some("alice")));
}
