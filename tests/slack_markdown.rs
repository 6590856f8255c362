use moltis::slack::markdown::{chunk_message, markdown_to_slack, strip_mentions, SLACK_MAX_MESSAGE_LEN};

#[test]
fn test_bold_conversion() {
    assert_eq!(markdown_to_slack("**bold**"), "*bold*");
    assert_eq!(markdown_to_slack("__bold__"), "*bold*");
}

#[test]
fn test_strikethrough_conversion() {
    assert_eq!(markdown_to_slack("~~strike~~"), "~strike~");
}

#[test]
fn test_link_conversion() {
    assert_eq!(
        markdown_to_slack("[click here](https://example.com)"),
        "<https://example.com|click here>"
    );
}

#[test]
fn test_header_conversion() {
    assert_eq!(markdown_to_slack("# Header"), "*Header*");
    assert_eq!(markdown_to_slack("## Header"), "*Header*");
    assert_eq!(markdown_to_slack("### Header"), "*Header*");
}

#[test]
fn malformed_links_are_kept() {
    assert_eq!(markdown_to_slack("[a] b"), "[a] b");
    assert_eq!(markdown_to_slack("[open"), "[open");
    assert_eq!(markdown_to_slack("[t](u"), "[t](u");
    assert_eq!(markdown_to_slack("x [a](b) y [c](d)"), "x <b|a> y <d|c>");
}

#[test]
fn headers_on_several_lines() {
    assert_eq!(
        markdown_to_slack("  ####### Deep\ntext\r\n## Two\n"),
        "*# Deep*\ntext\n*Two*"
    );
}

#[test]
fn test_chunk_message() {
    let text = "a".repeat(100);
    let chunks = chunk_message(&text, 50);
    assert_eq!(chunks.len(), 2);
    assert_eq!(chunks[0].len(), 50);
    assert_eq!(chunks[1].len(), 50);
}

#[test]
fn chunk_message_joins_short_lines() {
    let chunks = chunk_message("ab\ncd\nef", 5);
    assert_eq!(chunks, vec!["ab\ncd", "ef"]);
    assert_eq!(chunk_message("short", SLACK_MAX_MESSAGE_LEN), vec!["short"]);
}

#[test]
fn test_strip_mentions() {
    let text = "<@U12345678> hello there";
    assert_eq!(strip_mentions(text, Some("U12345678")), "hello there");
}

#[test]
fn strip_mentions_named_form() {
    assert_eq!(strip_mentions("<@U1|bot> hi", Some("U1")), "bot> hi");
    assert_eq!(strip_mentions("  <@U1> hi ", None), "<@U1> hi");
}
