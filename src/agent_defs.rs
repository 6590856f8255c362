//! Agent definitions written as Markdown with a frontmatter block.
//!
//! ```text
//! ---
//! name: scout
//! tools: Read, Grep
//! ---
//! System prompt body here...
//! ```

use vstd::prelude::*;
use vstd::string::*;

use crate::text::{
    find_str, has_prefix, next_occurrence, occurs_at, starts_with, trim_start, trim_start_seq,
};

verus! {

/// Why a definition has no frontmatter block.
#[derive(Debug, Clone, Copy, PartialEq, Eq, Structural)]
pub enum FrontmatterError {
    MissingOpening,
    MissingClosing,
}

pub open spec fn frontmatter_error_text(e: FrontmatterError) -> Seq<char> {
    match e {
        FrontmatterError::MissingOpening => "agent definition must start with '---' frontmatter delimiter"@,
        FrontmatterError::MissingClosing => "missing closing '---' frontmatter delimiter"@,
    }
}

impl FrontmatterError {
    pub fn message(&self) -> (r: &'static str)
        ensures
            r@ == frontmatter_error_text(*self),
    {
        match self {
            FrontmatterError::MissingOpening => "agent definition must start with '---' frontmatter delimiter",
            FrontmatterError::MissingClosing => "missing closing '---' frontmatter delimiter",
        }
    }
}

/// The frontmatter and the body of a definition: after leading whitespace,
/// `---` opens the block, and the first `\n---` after it closes it.
pub open spec fn frontmatter_parts(content: Seq<char>) -> Result<(Seq<char>, Seq<char>), FrontmatterError> {
    let t = trim_start_seq(content);
    if !has_prefix(t, "---"@) {
        Err(FrontmatterError::MissingOpening)
    } else {
        let after = t.skip(3);
        let p = next_occurrence(after, "\n---"@, 0);
        if p < 0 {
            Err(FrontmatterError::MissingClosing)
        } else {
            Ok((after.take(p), after.skip(p + 4)))
        }
    }
}

/// Split the frontmatter from the body.
pub fn split_frontmatter(content: &str) -> (r: Result<(String, String), FrontmatterError>)
    ensures
        match frontmatter_parts(content@) {
            Ok((f, b)) => r is Ok && r->Ok_0.0@ == f && r->Ok_0.1@ == b,
            Err(e) => r == Err::<(String, String), FrontmatterError>(e),
        },
{
    proof {
        reveal_strlit("---");
        reveal_strlit("\n---");
    }
    let trimmed = trim_start(content);
    if !starts_with(trimmed, "---") {
        return Err(FrontmatterError::MissingOpening);
    }
    let n = trimmed.unicode_len();
    let after = trimmed.substring_char(3, n);
    assert(after@ =~= trimmed@.skip(3));
    match find_str(after, "\n---") {
        None => Err(FrontmatterError::MissingClosing),
        Some(p) => {
            proof {
                let s = after@;
                let pat = "\n---"@;
                assert(occurs_at(s, pat, p as int)) by {
                    lemma_next_occurrence_found(s, pat, 0);
                }
            }
            let m = after.unicode_len();
            let front = String::from_str(after.substring_char(0, p));
            let body = String::from_str(after.substring_char(p + 4, m));
            assert(after@.subrange(0, p as int) =~= after@.take(p as int));
            assert(after@.subrange(p + 4, m as int) =~= after@.skip(p + 4));
            Ok((front, body))
        },
    }
}

/// A position the search returns is an occurrence.
proof fn lemma_next_occurrence_found(s: Seq<char>, pat: Seq<char>, from: int)
    requires
        next_occurrence(s, pat, from) >= 0,
    ensures
        occurs_at(s, pat, next_occurrence(s, pat, from)),
    decreases s.len() - from,
{
    if from >= 0 && from + pat.len() <= s.len() && !occurs_at(s, pat, from) && from < s.len() {
        lemma_next_occurrence_found(s, pat, from + 1);
    }
}

} // verus!
