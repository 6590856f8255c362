//! Which files a memory write may target.
//!
//! Allowed targets, relative to the data directory: `MEMORY.md`,
//! `memory.md`, and `memory/<name>.md` one level down.

use vstd::prelude::*;
use vstd::string::*;

use crate::text::{
    contains_char, ends_with, has_prefix, has_suffix, has_whitespace, is_ws, starts_with, str_eq,
    trim, trimmed,
};

verus! {

/// Why a memory path was refused.
#[derive(Debug, Clone, PartialEq, Eq)]
pub enum MemoryPathError {
    Empty,
    NotRelative,
    BackslashSeparator,
    NotAllowed { path: String },
}

/// An error as plain values.
pub enum MemoryPathErrorView {
    Empty,
    NotRelative,
    BackslashSeparator,
    NotAllowed { path: Seq<char> },
}

impl View for MemoryPathError {
    type V = MemoryPathErrorView;

    open spec fn view(&self) -> MemoryPathErrorView {
        match self {
            MemoryPathError::Empty => MemoryPathErrorView::Empty,
            MemoryPathError::NotRelative => MemoryPathErrorView::NotRelative,
            MemoryPathError::BackslashSeparator => MemoryPathErrorView::BackslashSeparator,
            MemoryPathError::NotAllowed { path } => MemoryPathErrorView::NotAllowed { path: path@ },
        }
    }
}

impl MemoryPathError {
    /// The descriptive text of the error.
    pub fn message(&self) -> (r: String)
        ensures
            r@ == memory_error_message(self@),
    {
        match self {
            MemoryPathError::Empty => String::from_str("memory path cannot be empty"),
            MemoryPathError::NotRelative => String::from_str("memory path must be relative"),
            MemoryPathError::BackslashSeparator => String::from_str(
                "memory path must use '/' separators",
            ),
            MemoryPathError::NotAllowed { path } => {
                let mut s = String::from_str("invalid memory path '");
                s.append(path.as_str());
                s.append(
                    "': allowed targets are MEMORY.md, memory.md, or memory/<name>.md",
                );
                s
            },
        }
    }
}

/// The text a caller sees for an error.
pub open spec fn memory_error_message(e: MemoryPathErrorView) -> Seq<char> {
    match e {
        MemoryPathErrorView::Empty => "memory path cannot be empty"@,
        MemoryPathErrorView::NotRelative => "memory path must be relative"@,
        MemoryPathErrorView::BackslashSeparator => "memory path must use '/' separators"@,
        MemoryPathErrorView::NotAllowed { path } => "invalid memory path '"@ + path
            + "': allowed targets are MEMORY.md, memory.md, or memory/<name>.md"@,
    }
}

/// A file name allowed under `memory/`: one segment, ending in `.md`, no
/// whitespace, and a stem that is neither empty nor starts with a dot.
pub open spec fn valid_memory_file_name(name: Seq<char>) -> bool {
    &&& name.len() > 0
    &&& !name.contains('/')
    &&& has_suffix(name, ".md"@)
    &&& !(exists|i: int| 0 <= i < name.len() && is_ws(#[trigger] name[i]))
    &&& name.len() - ".md"@.len() > 0
    &&& name[0] != '.'
}

/// What a memory write to `file` targets, relative to the data directory.
pub open spec fn memory_target(file: Seq<char>) -> Result<Seq<char>, MemoryPathErrorView> {
    let path = trimmed(file);
    if path.len() == 0 {
        Err(MemoryPathErrorView::Empty)
    } else if path[0] == '/' {
        Err(MemoryPathErrorView::NotRelative)
    } else if path.contains('\\') {
        Err(MemoryPathErrorView::BackslashSeparator)
    } else if path == "MEMORY.md"@ || path == "memory.md"@ {
        Ok(path)
    } else if has_prefix(path, "memory/"@) && valid_memory_file_name(
        path.skip("memory/"@.len() as int),
    ) {
        Ok(path)
    } else {
        Err(MemoryPathErrorView::NotAllowed { path })
    }
}

fn is_valid_memory_file_name(name: &str) -> (r: bool)
    ensures
        r == valid_memory_file_name(name@),
{
    proof {
        reveal_strlit(".md");
    }
    let n = name.unicode_len();
    if n == 0 {
        return false;
    }
    if contains_char(name, '/') {
        return false;
    }
    if !ends_with(name, ".md") {
        return false;
    }
    if has_whitespace(name) {
        return false;
    }
    if n - 3 == 0 || name.get_char(0) == '.' {
        return false;
    }
    true
}

/// Check a memory write target and give the path it names, relative to
/// the data directory (the caller joins the two).
pub fn validate_memory_path(file: &str) -> (r: Result<String, MemoryPathError>)
    ensures
        match memory_target(file@) {
            Ok(p) => r is Ok && r->Ok_0@ == p,
            Err(e) => r is Err && r->Err_0@ == e,
        },
{
    let path = trim(file);
    if path.unicode_len() == 0 {
        return Err(MemoryPathError::Empty);
    }
    if path.get_char(0) == '/' {
        return Err(MemoryPathError::NotRelative);
    }
    if contains_char(path, '\\') {
        return Err(MemoryPathError::BackslashSeparator);
    }
    if str_eq(path, "MEMORY.md") || str_eq(path, "memory.md") {
        return Ok(String::from_str(path));
    }
    if starts_with(path, "memory/") {
        proof {
            reveal_strlit("memory/");
        }
        let name = path.substring_char(7, path.unicode_len());
        assert(name@ =~= path@.skip("memory/"@.len() as int));
        if is_valid_memory_file_name(name) {
            return Ok(String::from_str(path));
        }
    }
    Err(MemoryPathError::NotAllowed { path: String::from_str(path) })
}

} // verus!
