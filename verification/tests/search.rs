use difiko::app::search::{find_all_substr, rendered_row_for_match, total_rendered_rows};
use difiko::app::DiffMode;
use difiko::model::{DiffLine, FileChange, FileStatus};

fn hunk() -> DiffLine {
    DiffLine::Hunk { header: "@@".into(), old_start: 1, old_count: 1, new_start: 1, new_count: 1 }
}

fn unified_file() -> FileChange {
    FileChange {
        path: "a".into(),
        old_path: None,
        status: FileStatus::Modified,
        diff_lines: vec![
            DiffLine::GitHeader("diff --git ...".into()),
            DiffLine::IndexHeader("index ...".into()),
            hunk(),
            DiffLine::Context("x".into()),
        ],
        additions: 0,
        deletions: 0,
        binary: false,
    }
}

fn split_file() -> FileChange {
    FileChange {
        path: "a".into(),
        old_path: None,
        status: FileStatus::Modified,
        diff_lines: vec![
            hunk(),
            DiffLine::Del("a".into()),
            DiffLine::Del("b".into()),
            DiffLine::Add("c".into()),
            DiffLine::Add("d".into()),
            DiffLine::Context("e".into()),
        ],
        additions: 2,
        deletions: 2,
        binary: false,
    }
}

fn ci_overlapping() {
    let hits = find_all_substr("Foo foo FOO", b"foo", false);
    assert_eq!(hits, vec![(0, 3), (4, 7), (8, 11)]);
}

fn case_sensitive() {
    let hits = find_all_substr("Foo foo FOO", b"foo", true);
    assert_eq!(hits, vec![(4, 7)]);
}

fn char_boundaries() {
    let hits = find_all_substr("café bar", b"bar", false);
    assert_eq!(hits, vec![(6, 9)]);
    assert_eq!(&"café bar"[6..9], "bar");
}

fn empty_needle() {
    let hits = find_all_substr("anything", b"", false);
    assert!(hits.is_empty());
}

fn unified_rows() {
    let file = unified_file();
    assert_eq!(rendered_row_for_match(&file, DiffMode::Unified, 2), 0);
    assert_eq!(rendered_row_for_match(&file, DiffMode::Unified, 3), 1);
}

fn split_rows() {
    let file = split_file();
    assert_eq!(rendered_row_for_match(&file, DiffMode::Split, 1), 1);
    assert_eq!(rendered_row_for_match(&file, DiffMode::Split, 2), 2);
    assert_eq!(rendered_row_for_match(&file, DiffMode::Split, 3), 1);
    assert_eq!(rendered_row_for_match(&file, DiffMode::Split, 4), 2);
    assert_eq!(rendered_row_for_match(&file, DiffMode::Split, 5), 3);
}

#[test]
fn search_find_all_substr_ci_finds_overlapping_and_case_insensitive() {
    ci_overlapping();
}

#[test]
fn app_find_all_substr_ci_finds_overlapping_and_case_insensitive() {
    ci_overlapping();
}

#[test]
fn search_find_all_substr_case_sensitive_filters() {
    case_sensitive();
}

#[test]
fn app_find_all_substr_case_sensitive_filters() {
    case_sensitive();
}

#[test]
fn search_find_all_substr_returns_char_boundary_offsets() {
    char_boundaries();
}

#[test]
fn app_find_all_substr_returns_char_boundary_offsets() {
    char_boundaries();
}

#[test]
fn search_find_all_substr_empty_needle_returns_nothing() {
    empty_needle();
}

#[test]
fn app_find_all_substr_empty_needle_returns_nothing() {
    empty_needle();
}

#[test]
fn search_rendered_row_skips_unrendered_headers_in_unified() {
    unified_rows();
}

#[test]
fn app_rendered_row_skips_unrendered_headers_in_unified() {
    unified_rows();
}

#[test]
fn search_rendered_row_pairs_del_and_add_in_split() {
    split_rows();
}

#[test]
fn app_rendered_row_pairs_del_and_add_in_split() {
    split_rows();
}

#[test]
fn overlapping_hits_are_all_reported() {
    assert_eq!(find_all_substr("aaaa", b"aa", true), vec![(0, 2), (1, 3), (2, 4)]);
}

#[test]
fn needle_longer_than_haystack_finds_nothing() {
    assert!(find_all_substr("ab", b"abc", false).is_empty());
}

#[test]
fn non_ascii_matches_only_exactly() {
    assert_eq!(find_all_substr("É é", "é".as_bytes(), false), vec![(3, 5)]);
}

#[test]
fn total_rows_in_both_modes() {
    let u = unified_file();
    assert_eq!(total_rendered_rows(&u, DiffMode::Unified), 2);
    let s = split_file();
    assert_eq!(total_rendered_rows(&s, DiffMode::Unified), 6);
    assert_eq!(total_rendered_rows(&s, DiffMode::Split), 4);
}

#[test]
fn row_past_the_end_is_total() {
    let s = split_file();
    assert_eq!(rendered_row_for_match(&s, DiffMode::Split, 99), 4);
}

#[test]
fn rendered_rows_never_pass_the_total() {
    let file = unified_file();
    for mode in [DiffMode::Unified, DiffMode::Split] {
        let total = total_rendered_rows(&file, mode);
        for target in 0..file.diff_lines.len() + 2 {
            assert!(rendered_row_for_match(&file, mode, target) <= total);
        }
    }
}
