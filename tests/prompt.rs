use moltis::prompt::{build_system_prompt, ToolSummary, PROMPT_GUIDELINES, PROMPT_INTRO};

#[test]
fn prompt_without_tools() {
    let p = build_system_prompt(&Vec::new());
    assert_eq!(p, format!("{PROMPT_INTRO}{PROMPT_GUIDELINES}"));
    assert!(!p.contains("## Available Tools"));
}

#[test]
fn prompt_lists_tools() {
    let tools = vec![
        ToolSummary {
            name: Some("exec".into()),
            description: Some("Run a command".into()),
        },
        ToolSummary { name: None, description: None },
    ];
    let p = build_system_prompt(&tools);
    assert!(p.starts_with(
        "You are a helpful assistant with access to tools for executing shell commands.\n\n"
    ));
    assert!(p.contains("## Available Tools\n\n- **exec**: Run a command\n- **unknown**: \n\n## Guidelines"));
    assert!(p.ends_with("confirm with the user first.\n"));
}
