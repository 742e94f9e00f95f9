use difiko::paths::{completion_parent, gitdir_of, head_branch_of, inside_work_tree, same_path, ParentDir};
use difiko::shell::{applescript_escape, quote_posix, shell_quote};

#[test]
fn safe_words_are_left_alone() {
    assert_eq!(shell_quote("abc-1.2/x@y"), "abc-1.2/x@y");
}

#[test]
fn other_words_are_single_quoted() {
    assert_eq!(shell_quote(""), "''");
    assert_eq!(shell_quote("a b"), "'a b'");
    assert_eq!(shell_quote("it's"), "'it'\\''s'");
}

#[test]
fn command_line_quotes_each_word() {
    let args = vec!["a b".to_string(), "c".to_string()];
    assert_eq!(quote_posix("/bin/x", &args), "/bin/x 'a b' c");
}

#[test]
fn applescript_escapes_backslashes_and_quotes() {
    assert_eq!(applescript_escape("a\"b\\c"), "a\\\"b\\\\c");
}

#[test]
fn completion_parent_follows_the_typed_path() {
    assert_eq!(completion_parent(""), ParentDir::Cwd);
    assert_eq!(completion_parent("~"), ParentDir::Home);
    assert_eq!(completion_parent("foo"), ParentDir::Cwd);
    assert_eq!(completion_parent("/"), ParentDir::Root);
    assert_eq!(completion_parent("/usr/lo"), ParentDir::Dir("/usr".into()));
    assert_eq!(completion_parent("~/"), ParentDir::Home);
    assert_eq!(completion_parent("~/code/x"), ParentDir::UnderHome("code".into()));
    assert_eq!(completion_parent("a//b"), ParentDir::Dir("a".into()));
}

#[test]
fn worktree_gitdir_and_head_are_read() {
    assert_eq!(gitdir_of("x\ngitdir: /r/.git/worktrees/w \n").as_deref(), Some("/r/.git/worktrees/w"));
    assert_eq!(gitdir_of("nothing here\n"), None);
    assert_eq!(head_branch_of("ref: refs/heads/feat/x\n").as_deref(), Some("feat/x"));
    assert_eq!(head_branch_of("0123456789abcdef\n"), None);
}

#[test]
fn work_tree_answer_must_be_true() {
    assert!(inside_work_tree("true\n"));
    assert!(!inside_work_tree("false\n"));
    assert!(!inside_work_tree("truex"));
}

#[test]
fn paths_compare_by_components() {
    assert!(same_path("/repo", "/repo/"));
    assert!(same_path("a//b/./c", "a/b/c"));
    assert!(same_path("./a", "./a/"));
    assert!(!same_path("./a", "a"));
    assert!(!same_path("/a", "a"));
    assert!(!same_path("/a/b", "/a/c"));
}
