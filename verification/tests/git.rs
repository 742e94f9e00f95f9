use difiko::git::{
    build_file_changes, is_working_tree, parse_branches, parse_commits, parse_name_status_z,
};
use difiko::model::{FileStatus};
use difiko::parse::split_diff_into_sections;

#[test]
fn parses_two_commits() {
    let input = "abc\u{1f}abc\u{1f}Alice\u{1f}2026-01-02\u{1f}Subject one\u{1f}body line\n\u{1e}def\u{1f}def\u{1f}Bob\u{1f}2026-01-03\u{1f}Subject two\u{1f}\u{1e}";
    let commits = parse_commits(input);
    assert_eq!(commits.len(), 2);
    assert_eq!(commits[0].author, "Alice");
    assert_eq!(commits[0].body, "body line");
    assert_eq!(commits[1].subject, "Subject two");
    assert_eq!(commits[1].body, "");
}

#[test]
fn parses_modified_z() {
    let entries = parse_name_status_z("M\0src/foo.rs\0A\0src/bar.rs\0");
    assert_eq!(entries.len(), 2);
    assert_eq!(entries[0].new_path, "src/foo.rs");
    assert!(matches!(entries[0].status, FileStatus::Modified));
    assert!(matches!(entries[1].status, FileStatus::Added));
}

#[test]
fn parses_rename_z() {
    let entries = parse_name_status_z("R100\0old.rs\0new.rs\0");
    assert_eq!(entries.len(), 1);
    assert_eq!(entries[0].new_path, "new.rs");
    assert_eq!(entries[0].old_path.as_deref(), Some("old.rs"));
}

#[test]
fn parses_path_with_spaces_z() {
    let entries = parse_name_status_z("M\0path with spaces.rs\0");
    assert_eq!(entries.len(), 1);
    assert_eq!(entries[0].new_path, "path with spaces.rs");
}

#[test]
fn branches_are_trimmed_sorted_and_deduplicated() {
    let b = parse_branches("  main\nfeature\norigin/HEAD -> origin/main\n\norigin/main\nmain\n");
    assert_eq!(b, vec!["feature".to_string(), "main".to_string(), "origin/main".to_string()]);
}

#[test]
fn working_tree_ref_is_recognised() {
    assert!(is_working_tree("[working tree]"));
    assert!(!is_working_tree("main"));
}

#[test]
fn file_changes_pair_entries_with_sections_and_sort() {
    let entries = parse_name_status_z("M\0src/b.rs\0A\0a.rs\0");
    let diff = "diff --git a/src/b.rs b/src/b.rs\n@@ -1 +1 @@\n-x\n+y\ndiff --git a/a.rs b/a.rs\n@@ -0,0 +1 @@\n+z\n";
    let sections = split_diff_into_sections(diff);
    let files = build_file_changes(&entries, &sections);
    assert_eq!(files.len(), 2);
    assert_eq!(files[0].path, "a.rs");
    assert_eq!(files[0].additions, 1);
    assert_eq!(files[0].deletions, 0);
    assert_eq!(files[1].path, "src/b.rs");
    assert_eq!(files[1].additions, 1);
    assert_eq!(files[1].deletions, 1);
}
