use std::path::Path;

use moltis::memory::{validate_memory_path, MemoryPathError};

#[test]
fn allows_root_memory_files() {
    let root = Path::new("/tmp/moltis");

    assert_eq!(
        root.join(validate_memory_path("MEMORY.md").unwrap()),
        root.join("MEMORY.md")
    );
    assert_eq!(
        root.join(validate_memory_path("memory.md").unwrap()),
        root.join("memory.md")
    );
}

#[test]
fn allows_single_level_memory_files() {
    let root = Path::new("/tmp/moltis");

    assert_eq!(
        root.join(validate_memory_path("memory/notes.md").unwrap()),
        root.join("memory").join("notes.md")
    );
    assert_eq!(
        root.join(validate_memory_path("memory/2026-02-14.md").unwrap()),
        root.join("memory").join("2026-02-14.md")
    );
}

#[test]
fn rejects_invalid_paths() {
    let invalid = [
        "",
        " ",
        "/etc/passwd",
        "../etc/passwd",
        "memory/../../secret.md",
        "memory/a/b.md",
        "memory/.md",
        "memory/.hidden.md",
        "memory/notes.txt",
        "memory/a b.md",
        "random.md",
        "foo/bar.md",
        "memory\\notes.md",
    ];

    for item in invalid {
        assert!(
            validate_memory_path(item).is_err(),
            "expected invalid path: {item}"
        );
    }
}

#[test]
fn memory_path_errors_and_trimming() {
    assert_eq!(validate_memory_path("  MEMORY.md \n").unwrap(), "MEMORY.md");
    assert_eq!(validate_memory_path(" \t").unwrap_err(), MemoryPathError::Empty);
    assert_eq!(validate_memory_path("/abs.md").unwrap_err(), MemoryPathError::NotRelative);
    assert_eq!(
        validate_memory_path("memory\\a.md").unwrap_err(),
        MemoryPathError::BackslashSeparator
    );
    let e = validate_memory_path("random.md").unwrap_err();
    assert_eq!(
        e.message(),
        "invalid memory path 'random.md': allowed targets are MEMORY.md, memory.md, or memory/<name>.md"
    );
    assert_eq!(MemoryPathError::Empty.message(), "memory path cannot be empty");
}
