use moltis::agent_defs::{split_frontmatter, FrontmatterError};

#[test]
fn frontmatter_and_body() {
    let (front, body) = split_frontmatter("---\nname: test\n---\nThis is the system prompt.").unwrap();
    assert_eq!(front, "\nname: test");
    assert_eq!(body, "\nThis is the system prompt.");
}

#[test]
fn frontmatter_with_empty_body() {
    let (front, body) = split_frontmatter("  \n---\nname: minimal\n---\n").unwrap();
    assert_eq!(front, "\nname: minimal");
    assert_eq!(body, "\n");
}

#[test]
fn frontmatter_missing_delimiters() {
    let err = split_frontmatter("name: test\nno delimiters here").unwrap_err();
    assert_eq!(err, FrontmatterError::MissingOpening);
    assert!(err.message().contains("must start with '---'"));
}

#[test]
fn frontmatter_missing_closing() {
    let err = split_frontmatter("---\nname: test\nno closing").unwrap_err();
    assert_eq!(err, FrontmatterError::MissingClosing);
    assert!(err.message().contains("missing closing '---'"));
}
