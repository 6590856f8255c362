use moltis::discord::markdown::{
    chunk_message, format_for_discord, mentions_bot, strip_mentions, truncate_with_ellipsis,
    DISCORD_MAX_MESSAGE_LEN,
};

#[test]
fn test_truncate_with_ellipsis() {
    let text = "Hello, world!";
    assert_eq!(truncate_with_ellipsis(text, 100), text);
    assert_eq!(truncate_with_ellipsis(text, 10), "Hello, ...");
}

#[test]
fn truncate_tiny_limits() {
    assert_eq!(truncate_with_ellipsis("abcdef", 2), "...");
    assert_eq!(truncate_with_ellipsis("abcdef", 6), "abcdef");
    assert_eq!(truncate_with_ellipsis("", 0), "");
}

#[test]
fn markdown_test_strip_mentions() {
    let text = "<@123456789> hello there";
    assert_eq!(strip_mentions(text, Some(123456789)), "hello there");

    let text2 = "<@!123456789> hello";
    assert_eq!(strip_mentions(text2, Some(123456789)), "hello");
}

#[test]
fn strip_mentions_of_other_users_kept() {
    assert_eq!(strip_mentions("  <@42> hi <@7>  ", Some(42)), "hi <@7>");
    assert_eq!(strip_mentions("  <@42> hi  ", None), "<@42> hi");
}

#[test]
fn test_mentions_bot() {
    assert!(mentions_bot("<@123456789>", 123456789));
    assert!(mentions_bot("<@!123456789>", 123456789));
    assert!(!mentions_bot("hello", 123456789));
}

#[test]
fn mentions_need_exact_id() {
    assert!(!mentions_bot("<@1234567890>", 123456789));
    assert!(mentions_bot("hey <@0> there", 0));
}

#[test]
fn discord_text_passes_through() {
    assert_eq!(format_for_discord("**bold** _it_"), "**bold** _it_");
    assert_eq!(DISCORD_MAX_MESSAGE_LEN, 2000);
}

#[test]
fn test_chunk_short_message() {
    let text = "Hello, world!";
    let chunks = chunk_message(text, DISCORD_MAX_MESSAGE_LEN);
    assert_eq!(chunks.len(), 1);
    assert_eq!(chunks[0], text);
}

#[test]
fn test_chunk_long_message() {
    let text = "a".repeat(2500);
    let chunks = chunk_message(&text, DISCORD_MAX_MESSAGE_LEN);
    assert_eq!(chunks.len(), 2);
    assert!(chunks[0].len() <= DISCORD_MAX_MESSAGE_LEN);
}

#[test]
fn chunk_closes_open_code_block() {
    let x = "x".repeat(40);
    let y = "y".repeat(40);
    let text = format!("```\n{x}\n{y}\n```");
    let chunks = chunk_message(&text, 60);
    assert_eq!(chunks, vec![format!("```\n{x}\n```"), format!("{y}\n```")]);
}

#[test]
fn chunk_splits_long_line_at_space() {
    let words = format!("{} {}", "a".repeat(55), "b".repeat(30));
    let chunks = chunk_message(&words, 60);
    assert_eq!(chunks, vec!["a".repeat(55), format!(" {}", "b".repeat(30))]);
}
