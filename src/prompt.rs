//! The system prompt for an agent run.

use vstd::prelude::*;
use vstd::string::*;

verus! {

/// What the prompt reads of a tool's schema.
#[derive(Debug, Clone)]
pub struct ToolSummary {
    pub name: Option<String>,
    pub description: Option<String>,
}

pub open spec fn or_text(o: Option<String>, dflt: Seq<char>) -> Seq<char> {
    match o {
        Some(s) => s@,
        None => dflt,
    }
}

/// The line that lists one tool.
pub open spec fn tool_line(t: ToolSummary) -> Seq<char> {
    "- **"@ + or_text(t.name, "unknown"@) + "**: "@ + or_text(t.description, ""@) + "\n"@
}

/// The lines of the first `n` tools.
pub open spec fn tool_lines(tools: Seq<ToolSummary>, n: int) -> Seq<char>
    decreases n,
{
    if n <= 0 {
        Seq::empty()
    } else {
        tool_lines(tools, n - 1) + tool_line(tools[n - 1])
    }
}

pub open spec fn prompt_spec(tools: Seq<ToolSummary>) -> Seq<char> {
    PROMPT_INTRO@ + (if tools.len() == 0 {
        Seq::empty()
    } else {
        "## Available Tools\n\n"@ + tool_lines(tools, tools.len() as int) + "\n"@
    }) + PROMPT_GUIDELINES@
}

pub const PROMPT_INTRO: &'static str =
    "You are a helpful assistant with access to tools for executing shell commands.\n\n";

pub const PROMPT_GUIDELINES: &'static str = "## Guidelines\n\n- Use the exec tool to run shell commands when the user asks you to perform tasks that require system interaction (file operations, running programs, checking status, etc.).\n- Always explain what you're doing before executing commands.\n- If a command fails, analyze the error and suggest fixes.\n- For multi-step tasks, execute commands one at a time and check results before proceeding.\n- Be careful with destructive operations \u{e2}\u{20ac}\u{201d} confirm with the user first.\n";

/// Build the system prompt: the introduction, a list of the tools if there
/// are any, and the guidelines.
pub fn build_system_prompt(tools: &Vec<ToolSummary>) -> (r: String)
    ensures
        r@ == prompt_spec(tools@),
{
    let mut prompt = String::from_str(PROMPT_INTRO);
    let ghost intro = prompt@;
    if tools.len() > 0 {
        prompt.append("## Available Tools\n\n");
        let ghost head = prompt@;
        let mut i: usize = 0;
        while i < tools.len()
            invariant
                i <= tools.len(),
                prompt@ == head + tool_lines(tools@, i as int),
            decreases tools.len() - i,
        {
            let t = &tools[i];
            prompt.append("- **");
            match &t.name {
                Some(n) => prompt.append(n.as_str()),
                None => prompt.append("unknown"),
            }
            prompt.append("**: ");
            match &t.description {
                Some(d) => prompt.append(d.as_str()),
                None => prompt.append(""),
            }
            prompt.append("\n");
            i = i + 1;
        }
        prompt.append("\n");
    }
    prompt.append(PROMPT_GUIDELINES);
    prompt
}

} // verus!
