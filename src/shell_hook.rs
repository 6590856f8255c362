//! Hooks that run an external shell command.
//!
//! The command gets the event's payload as JSON on stdin. Exit 0 with empty
//! stdout continues; exit 0 with a JSON response `{"action": "modify",
//! "data": ...}` replaces the payload; exit 1 blocks, with stderr as the
//! reason; any other exit is an error. Running the command is the
//! caller's; this module decides what its result means.

use vstd::prelude::*;
use vstd::string::*;

use crate::numbers::{signed_decimal, signed_decimal_string};
use crate::text::{str_eq, trim, trimmed};

verus! {

/// A hook handler that executes an external shell command.
#[derive(Debug)]
pub struct ShellHookHandler<E> {
    pub hook_name: String,
    pub command: String,
    pub subscribed_events: Vec<E>,
    /// How long the command may run, in milliseconds.
    pub timeout_ms: u64,
    /// Extra environment variables for the command.
    pub env: Vec<(String, String)>,
}

/// What a finished hook command means.
#[derive(Debug, Clone, PartialEq, Eq)]
pub enum HookOutcome {
    /// Go on unchanged.
    Continue,
    /// Stop the action, for this reason.
    Block(String),
    /// The command failed; the text says how.
    Failed(String),
    /// Exit 0 with this (trimmed) text on stdout, to be read as a JSON
    /// response.
    Respond(String),
}

/// An outcome as plain values.
pub enum HookOutcomeView {
    Continue,
    Block(Seq<char>),
    Failed(Seq<char>),
    Respond(Seq<char>),
}

impl View for HookOutcome {
    type V = HookOutcomeView;

    open spec fn view(&self) -> HookOutcomeView {
        match self {
            HookOutcome::Continue => HookOutcomeView::Continue,
            HookOutcome::Block(s) => HookOutcomeView::Block(s@),
            HookOutcome::Failed(s) => HookOutcomeView::Failed(s@),
            HookOutcome::Respond(s) => HookOutcomeView::Respond(s@),
        }
    }
}

/// The meaning of exit code `code` with this output, for hook `name`.
pub open spec fn hook_outcome(
    name: Seq<char>,
    code: i32,
    stdout: Seq<char>,
    stderr: Seq<char>,
) -> HookOutcomeView {
    if code == 1 {
        HookOutcomeView::Block(
            if stderr.len() == 0 {
                "hook '"@ + name + "' blocked the action"@
            } else {
                trimmed(stderr)
            },
        )
    } else if code != 0 {
        HookOutcomeView::Failed(
            "hook '"@ + name + "' exited with code "@ + signed_decimal(code as int) + ": "@
                + trimmed(stderr),
        )
    } else if trimmed(stdout).len() == 0 {
        HookOutcomeView::Continue
    } else {
        HookOutcomeView::Respond(trimmed(stdout))
    }
}

impl<E> ShellHookHandler<E> {
    pub fn new(
        name: String,
        command: String,
        events: Vec<E>,
        timeout_ms: u64,
        env: Vec<(String, String)>,
    ) -> (r: Self)
        ensures
            r.hook_name == name,
            r.command == command,
            r.subscribed_events == events,
            r.timeout_ms == timeout_ms,
            r.env == env,
    {
        ShellHookHandler { hook_name: name, command, subscribed_events: events, timeout_ms, env }
    }

    pub fn name(&self) -> (r: &str)
        ensures
            r@ == self.hook_name@,
    {
        self.hook_name.as_str()
    }

    pub fn events(&self) -> (r: &Vec<E>)
        ensures
            r == &self.subscribed_events,
    {
        &self.subscribed_events
    }

    /// What the command's exit code and output mean.
    pub fn outcome(&self, exit_code: i32, stdout: &str, stderr: &str) -> (r: HookOutcome)
        ensures
            r@ == hook_outcome(self.hook_name@, exit_code, stdout@, stderr@),
    {
        if exit_code == 1 {
            if stderr.unicode_len() == 0 {
                let mut s = String::from_str("hook '");
                s.append(self.hook_name.as_str());
                s.append("' blocked the action");
                return HookOutcome::Block(s);
            }
            return HookOutcome::Block(String::from_str(trim(stderr)));
        }
        if exit_code != 0 {
            let mut s = String::from_str("hook '");
            s.append(self.hook_name.as_str());
            s.append("' exited with code ");
            let code = signed_decimal_string(exit_code);
            s.append(code.as_str());
            s.append(": ");
            s.append(trim(stderr));
            return HookOutcome::Failed(s);
        }
        let out = trim(stdout);
        if out.unicode_len() == 0 {
            HookOutcome::Continue
        } else {
            HookOutcome::Respond(String::from_str(out))
        }
    }
}

/// Whether a hook's JSON response replaces the payload: its action is
/// `modify` and it carries data. Any other response continues.
pub fn response_modifies(action: &str, has_data: bool) -> (r: bool)
    ensures
        r == (action@ == "modify"@ && has_data),
{
    str_eq(action, "modify") && has_data
}

} // verus!
