use fdrs::DirChild;
use fdrs::DirectoryEntry;
use fdrs::FindError;
use fdrs::FsNode;
use fdrs::Matcher;
use fdrs::descends_into;
use fdrs::find;
use fdrs::find_glob;
use fdrs::find_recursive;

fn file(path: &str) -> DirChild {
    DirChild::Present(FsNode::File { path: path.to_string() })
}

/// A directory `root/` holding `a.txt`, a subdirectory `sub/` with
/// `b.txt`, and a permission-denied subdirectory `locked/`.
fn sample_root() -> FsNode {
    FsNode::Dir {
        path: "root".to_string(),
        children: vec![
            file("root/a.txt"),
            DirChild::Present(FsNode::Dir {
                path: "root/sub".to_string(),
                children: vec![file("root/sub/b.txt")],
            }),
            DirChild::Present(FsNode::UnlistableDir {
                path: "root/locked".to_string(),
                error: "permission denied: root/locked".to_string(),
            }),
        ],
    }
}

#[test]
fn filtered_traversal_surfaces_errors() {
    let root = sample_root();
    let entries = find_glob(&root, "*.txt", false).unwrap();
    assert_eq!(
        entries,
        vec![
            DirectoryEntry::Found("root/a.txt".to_string()),
            DirectoryEntry::Found("root/sub/b.txt".to_string()),
            DirectoryEntry::Failed("I/O Error: permission denied: root/locked".to_string()),
        ]
    );
}

#[test]
fn filtered_traversal_skips_errors() {
    let root = sample_root();
    let entries = find_glob(&root, "*.txt", true).unwrap();
    assert_eq!(
        entries,
        vec![
            DirectoryEntry::Found("root/a.txt".to_string()),
            DirectoryEntry::Found("root/sub/b.txt".to_string()),
        ]
    );
}

#[test]
fn empty_directory_yields_no_entries() {
    let empty = FsNode::Dir { path: "empty".to_string(), children: vec![] };
    let entries = find(&empty, false).unwrap();
    assert!(entries.is_empty());
}

#[test]
fn unfiltered_traversal_returns_everything() {
    let root = sample_root();
    let entries = find(&root, false).unwrap();
    assert_eq!(
        entries,
        vec![
            DirectoryEntry::Found("root/a.txt".to_string()),
            DirectoryEntry::Found("root/sub".to_string()),
            DirectoryEntry::Found("root/sub/b.txt".to_string()),
            DirectoryEntry::Found("root/locked".to_string()),
            DirectoryEntry::Failed("I/O Error: permission denied: root/locked".to_string()),
        ]
    );
}

#[test]
fn file_base_is_not_a_directory() {
    let base = FsNode::File { path: "plain.txt".to_string() };
    let err = find(&base, false).unwrap_err();
    assert_eq!(err, FindError::NotADirectory("plain.txt".to_string()));
    assert_eq!(err.to_text(), "The path plain.txt is not a directory.");
}

#[test]
fn symlink_base_is_not_a_directory() {
    let base = FsNode::Symlink { path: "link".to_string() };
    let err = find(&base, true).unwrap_err();
    assert_eq!(err, FindError::NotADirectory("link".to_string()));
}

#[test]
fn unlistable_base_is_an_io_error() {
    let base = FsNode::UnlistableDir {
        path: "sealed".to_string(),
        error: "permission denied: sealed".to_string(),
    };
    let err = find(&base, false).unwrap_err();
    assert_eq!(err, FindError::IoError("permission denied: sealed".to_string()));
    assert_eq!(err.to_text(), "I/O Error: permission denied: sealed");
}

#[test]
fn bad_pattern_fails_to_compile() {
    let root = sample_root();
    let err = find_glob(&root, "a[", false).unwrap_err();
    match err {
        FindError::GlobCompile(cause) => {
            assert!(!cause.is_empty());
            assert_eq!(
                FindError::GlobCompile(cause.clone()).to_text(),
                format!("Glob compilation error: {}", cause)
            );
        }
        other => panic!("expected a pattern compilation failure, got {:?}", other),
    }
}

#[test]
fn symlinked_directories_are_never_descended() {
    // The snapshot records a symbolic link that, on disk, points at a
    // directory full of files; the traversal reports the link itself
    // and nothing beneath it.
    let root = FsNode::Dir {
        path: "root".to_string(),
        children: vec![
            DirChild::Present(FsNode::Symlink { path: "root/link".to_string() }),
            file("root/c.txt"),
        ],
    };
    let entries = find_glob(&root, "*", false).unwrap();
    assert_eq!(
        entries,
        vec![
            DirectoryEntry::Found("root/link".to_string()),
            DirectoryEntry::Found("root/c.txt".to_string()),
        ]
    );
    assert!(!descends_into(true, true));
    assert!(!descends_into(false, true));
    assert!(!descends_into(false, false));
    assert!(descends_into(true, false));
}

#[test]
fn repeated_traversals_agree() {
    let root = sample_root();
    let first = find_glob(&root, "*.txt", false).unwrap();
    let second = find_glob(&root, "*.txt", false).unwrap();
    assert_eq!(first, second);
}

#[test]
fn every_found_entry_matches_the_pattern() {
    let root = sample_root();
    let matcher = Matcher::new("*.txt").unwrap();
    let entries = find_glob(&root, "*.txt", false).unwrap();
    for entry in entries {
        match entry {
            DirectoryEntry::Found(path) => assert!(matcher.is_match(&path)),
            DirectoryEntry::Failed(message) => assert!(!message.is_empty()),
        }
    }
}

#[test]
fn skipping_errors_keeps_exactly_the_found_entries() {
    let root = sample_root();
    let skipped = find_glob(&root, "*", true).unwrap();
    let full = find_glob(&root, "*", false).unwrap();
    let found: Vec<DirectoryEntry> = full
        .into_iter()
        .filter(|e| matches!(e, DirectoryEntry::Found(_)))
        .collect();
    assert_eq!(skipped, found);
}

#[test]
fn matcher_distinguishes_paths() {
    let matcher = Matcher::new("*.txt").unwrap();
    assert!(matcher.is_match("root/a.txt"));
    assert!(matcher.is_match("b.txt"));
    assert!(!matcher.is_match("root/a.png"));
    assert!(!matcher.is_match("root/locked"));
    assert!(Matcher::new("a[").is_err());
}

#[test]
fn matching_is_against_the_whole_path() {
    let root = FsNode::Dir {
        path: "root".to_string(),
        children: vec![file("root/sub-a.txt"), file("root/other.txt")],
    };
    // A separator-anchored pattern selects by the full path text, not
    // by the file name alone.
    let entries = find_glob(&root, "root/sub*", false).unwrap();
    assert_eq!(entries, vec![DirectoryEntry::Found("root/sub-a.txt".to_string())]);
}

#[test]
fn unresolved_listing_slots_surface_or_vanish() {
    let root = FsNode::Dir {
        path: "root".to_string(),
        children: vec![
            DirChild::Unreadable { error: "entry vanished".to_string() },
            file("root/kept.txt"),
        ],
    };
    let with_errors = find_recursive(&root, &None, false).unwrap();
    assert_eq!(
        with_errors,
        vec![
            DirectoryEntry::Failed("entry vanished".to_string()),
            DirectoryEntry::Found("root/kept.txt".to_string()),
        ]
    );
    let without_errors = find_recursive(&root, &None, true).unwrap();
    assert_eq!(without_errors, vec![DirectoryEntry::Found("root/kept.txt".to_string())]);
}

#[test]
fn entries_render_verbatim() {
    let found = DirectoryEntry::Found("root/a.txt".to_string());
    assert_eq!(found.to_text(), "root/a.txt");
    let failed = DirectoryEntry::Failed("permission denied".to_string());
    assert_eq!(failed.to_text(), "permission denied");
}

#[test]
fn deep_nesting_is_walked_depth_first() {
    let root = FsNode::Dir {
        path: "a".to_string(),
        children: vec![
            DirChild::Present(FsNode::Dir {
                path: "a/b".to_string(),
                children: vec![
                    DirChild::Present(FsNode::Dir {
                        path: "a/b/c".to_string(),
                        children: vec![file("a/b/c/leaf")],
                    }),
                    file("a/b/next"),
                ],
            }),
            file("a/last"),
        ],
    };
    let entries = find_glob(&root, "*", false).unwrap();
    assert_eq!(
        entries,
        vec![
            DirectoryEntry::Found("a/b".to_string()),
            DirectoryEntry::Found("a/b/c".to_string()),
            DirectoryEntry::Found("a/b/c/leaf".to_string()),
            DirectoryEntry::Found("a/b/next".to_string()),
            DirectoryEntry::Found("a/last".to_string()),
        ]
    );
}

#[test]
fn failed_directory_still_appears_when_skipping() {
    let root = sample_root();
    let entries = find_glob(&root, "*", true).unwrap();
    assert_eq!(
        entries,
        vec![
            DirectoryEntry::Found("root/a.txt".to_string()),
            DirectoryEntry::Found("root/sub".to_string()),
            DirectoryEntry::Found("root/sub/b.txt".to_string()),
            DirectoryEntry::Found("root/locked".to_string()),
        ]
    );
}

#[test]
fn compile_failure_carries_the_compiler_description() {
    let root = sample_root();
    let direct = match Matcher::new("a[") {
        Err(cause) => cause,
        Ok(_) => panic!("the pattern must fail to compile"),
    };
    let err = find_glob(&root, "a[", false).unwrap_err();
    assert_eq!(err, FindError::GlobCompile(direct));
}
