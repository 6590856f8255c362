use moltis::shell_hook::{response_modifies, HookOutcome, ShellHookHandler};

fn handler(name: &str) -> ShellHookHandler<String> {
    ShellHookHandler::new(
        name.to_string(),
        "exit 0".to_string(),
        vec!["SessionStart".to_string()],
        100,
        Vec::new(),
    )
}

#[test]
fn hook_continue_on_exit_zero() {
    let h = handler("test-continue");
    assert_eq!(h.name(), "test-continue");
    assert_eq!(h.events(), &vec!["SessionStart".to_string()]);
    assert_eq!(h.outcome(0, "", ""), HookOutcome::Continue);
    assert_eq!(h.outcome(0, "  \n", ""), HookOutcome::Continue);
}

#[test]
fn hook_block_on_exit_one() {
    let h = handler("test-block");
    assert_eq!(
        h.outcome(1, "", "blocked by policy\n"),
        HookOutcome::Block("blocked by policy".to_string())
    );
    assert_eq!(
        h.outcome(1, "", ""),
        HookOutcome::Block("hook 'test-block' blocked the action".to_string())
    );
}

#[test]
fn hook_other_exit_fails() {
    let h = handler("h");
    assert_eq!(
        h.outcome(2, "", " boom "),
        HookOutcome::Failed("hook 'h' exited with code 2: boom".to_string())
    );
    assert_eq!(
        h.outcome(-1, "", ""),
        HookOutcome::Failed("hook 'h' exited with code -1: ".to_string())
    );
}

#[test]
fn hook_response_on_stdout() {
    let h = handler("h");
    assert_eq!(
        h.outcome(0, " {\"action\":\"modify\"} \n", ""),
        HookOutcome::Respond("{\"action\":\"modify\"}".to_string())
    );
    assert!(response_modifies("modify", true));
    assert!(!response_modifies("modify", false));
    assert!(!response_modifies("continue", true));
}
