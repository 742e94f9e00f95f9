use difiko::model::DiffLine;
use difiko::parse::{count_changes, parse_hunk_header, split_diff_into_sections};

#[test]
fn splits_multi_file_diff_in_order() {
    let diff = "diff --git a/foo.rs b/foo.rs\nindex 1..2 100644\n--- a/foo.rs\n+++ b/foo.rs\n@@ -1,2 +1,2 @@\n-old\n+new\n context\ndiff --git a/bar.rs b/bar.rs\nnew file mode 100644\nindex 0..3 100644\n--- /dev/null\n+++ b/bar.rs\n@@ -0,0 +1,1 @@\n+hello\n";
    let sections = split_diff_into_sections(diff);
    assert_eq!(sections.len(), 2);
    let (a0, d0, _) = count_changes(&sections[0]);
    assert_eq!((a0, d0), (1, 1));
    let (a1, d1, _) = count_changes(&sections[1]);
    assert_eq!((a1, d1), (1, 0));
}

#[test]
fn counts_changes() {
    let diff = "diff --git a/foo.rs b/foo.rs\nindex 1..2 100644\n--- a/foo.rs\n+++ b/foo.rs\n@@ -1,3 +1,3 @@\n-a\n+b\n+c\n d\n-e\n";
    let sections = split_diff_into_sections(diff);
    let (adds, dels, _) = count_changes(&sections[0]);
    assert_eq!(adds, 2);
    assert_eq!(dels, 2);
}

#[test]
fn handles_path_with_whitespace_positionally() {
    let diff = "diff --git \"a/foo bar.rs\" \"b/foo bar.rs\"\nindex 1..2 100644\n--- \"a/foo bar.rs\"\n+++ \"b/foo bar.rs\"\n@@ -1,1 +1,1 @@\n-old\n+new\n";
    let sections = split_diff_into_sections(diff);
    assert_eq!(sections.len(), 1);
    let (a, d, _) = count_changes(&sections[0]);
    assert_eq!((a, d), (1, 1));
}

#[test]
fn classifies_header_and_body_lines() {
    let diff = "diff --git a/x b/x\nindex 1..2\n--- a/x\n+++ b/x\n@@ -3,2 +4 @@ fn f\n-gone\n+here\n same\n\\ No newline at end of file\nBinary files a/x and b/x differ\n";
    let s = split_diff_into_sections(diff);
    assert_eq!(s.len(), 1);
    let lines = &s[0];
    assert!(matches!(lines[0], DiffLine::GitHeader(_)));
    assert!(matches!(lines[1], DiffLine::IndexHeader(_)));
    assert!(matches!(lines[2], DiffLine::OldFile(_)));
    assert!(matches!(lines[3], DiffLine::NewFile(_)));
    match &lines[4] {
        DiffLine::Hunk { old_start, old_count, new_start, new_count, .. } => {
            assert_eq!((*old_start, *old_count, *new_start, *new_count), (3, 2, 4, 1));
        }
        other => panic!("expected a hunk, got {other:?}"),
    }
    assert!(matches!(&lines[5], DiffLine::Del(t) if t == "gone"));
    assert!(matches!(&lines[6], DiffLine::Add(t) if t == "here"));
    assert!(matches!(&lines[7], DiffLine::Context(t) if t == "same"));
    assert!(matches!(lines[8], DiffLine::NoNewline(_)));
    let (_, _, binary) = count_changes(lines);
    assert!(binary);
}

#[test]
fn hunk_header_defaults_count_to_one() {
    let v: Vec<char> = "@@ -7 +9,0 @@".chars().collect();
    assert_eq!(parse_hunk_header(&v), (7, 1, 9, 0));
}

#[test]
fn empty_diff_has_no_sections() {
    assert!(split_diff_into_sections("").is_empty());
}
