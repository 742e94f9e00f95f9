use difiko::collections::StrSet;
use difiko::model::{FileChange, FileStatus};
use difiko::persistence::{make_key, snapshot_for, Store, SCHEMA_VERSION};

fn fc(path: &str) -> FileChange {
    FileChange {
        path: path.into(),
        old_path: None,
        status: FileStatus::Modified,
        diff_lines: Vec::new(),
        additions: 0,
        deletions: 0,
        binary: false,
    }
}

fn set_of(items: &[&str]) -> StrSet {
    StrSet::from_vec(items.iter().map(|s| s.to_string()).collect())
}

#[test]
fn save_and_load_roundtrip() {
    let mut store = Store::fresh("state.json".to_string());
    let files = vec![fc("a.rs"), fc("b.rs")];
    let reviewed = set_of(&["a.rs"]);
    store.save_reviewed("/r", "main", "feat", &files, &reviewed);
    let entry = store.state.entries.get("/r::main::feat").unwrap();
    assert_eq!(entry.reviewed_files, vec!["a.rs"]);
}

#[test]
fn snapshot_mismatch_returns_empty() {
    let mut store = Store::fresh("state.json".to_string());
    let original = vec![fc("a.rs"), fc("b.rs")];
    let reviewed = set_of(&["a.rs"]);
    store.save_reviewed("/r", "main", "feat", &original, &reviewed);
    let changed = vec![fc("a.rs"), fc("c.rs")];
    let loaded = store.load_reviewed("/r", "main", "feat", &changed);
    assert!(loaded.is_empty(), "snapshot mismatch should return empty set");
}

#[test]
fn snapshot_match_returns_reviewed() {
    let mut store = Store::fresh("state.json".to_string());
    let files = vec![fc("a.rs"), fc("b.rs")];
    let reviewed = set_of(&["b.rs"]);
    store.save_reviewed("/r", "main", "feat", &files, &reviewed);
    let loaded = store.load_reviewed("/r", "main", "feat", &files);
    assert_eq!(loaded.len(), 1);
    assert!(loaded.contains("b.rs"));
}

#[test]
fn snapshot_invariant_to_path_order() {
    let a = vec![fc("a.rs"), fc("b.rs")];
    let b = vec![fc("b.rs"), fc("a.rs")];
    assert_eq!(snapshot_for(&a), snapshot_for(&b));
}

#[test]
fn snapshot_is_sha256_of_sorted_nul_terminated_paths() {
    // sha256("a.rs\0b.rs\0")
    let s = snapshot_for(&[fc("b.rs"), fc("a.rs")]);
    assert_eq!(s.len(), 64);
    assert!(s.chars().all(|c| c.is_ascii_hexdigit() && !c.is_ascii_uppercase()));
    assert_ne!(s, snapshot_for(&[fc("a.rs")]));
    // The empty list hashes the empty input.
    assert_eq!(
        snapshot_for(&[]),
        "e3b0c44298fc1c149afbf4c8996fb92427ae41e4649b934ca495991b7852b855"
    );
}

#[test]
fn key_joins_repo_base_and_compare() {
    assert_eq!(make_key("/r", "main", "feat"), "/r::main::feat");
}

#[test]
fn load_after_save_with_reordered_files_gives_the_set_back() {
    let mut store = Store::fresh("state.json".to_string());
    let files = vec![fc("x/1.rs"), fc("y.rs"), fc("a.rs")];
    store.save_reviewed("/r", "b", "c", &files, &set_of(&["y.rs", "a.rs"]));
    let reordered = vec![fc("a.rs"), fc("x/1.rs"), fc("y.rs")];
    let loaded = store.load_reviewed("/r", "b", "c", &reordered);
    assert_eq!(loaded.len(), 2);
    assert!(loaded.contains("y.rs") && loaded.contains("a.rs"));
}

#[test]
fn saving_one_key_leaves_other_keys() {
    let mut store = Store::fresh("state.json".to_string());
    let files = vec![fc("a.rs")];
    store.save_reviewed("/r", "main", "one", &files, &set_of(&["a.rs"]));
    store.save_reviewed("/r", "main", "two", &files, &set_of(&[]));
    assert_eq!(store.load_reviewed("/r", "main", "one", &files).len(), 1);
    assert_eq!(store.load_reviewed("/r", "main", "two", &files).len(), 0);
    assert_eq!(store.state.entries.len(), 2);
}

#[test]
fn unknown_key_loads_nothing() {
    let store = Store::fresh("state.json".to_string());
    assert!(store.load_reviewed("/r", "x", "y", &[fc("a.rs")]).is_empty());
    assert_eq!(store.state.version, SCHEMA_VERSION);
}
