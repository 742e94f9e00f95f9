use difiko::collections::StrSet;
use difiko::tree::{flatten, DirNode, TreeRow};

#[test]
fn builds_tree() {
    let paths = vec!["src/foo.rs", "src/bar/baz.rs", "README.md"];
    let root = DirNode::from_paths(paths);
    let rows = flatten(&root, &StrSet::new());
    assert!(rows
        .iter()
        .any(|r| matches!(r, TreeRow::Dir { path, .. } if path == "src")));
    assert!(rows
        .iter()
        .any(|r| matches!(r, TreeRow::File { label, .. } if label == "README.md")));
}

#[test]
fn rows_list_dirs_before_files_at_each_level() {
    let root = DirNode::from_paths(vec!["src/foo.rs", "src/bar/baz.rs", "README.md"]);
    let rows = flatten(&root, &StrSet::new());
    let labels: Vec<String> = rows
        .iter()
        .map(|r| match r {
            TreeRow::Dir { path, .. } => format!("d:{path}"),
            TreeRow::File { path, .. } => format!("f:{path}"),
        })
        .collect();
    assert_eq!(
        labels,
        vec!["d:src", "d:src/bar", "f:src/bar/baz.rs", "f:src/foo.rs", "f:README.md"]
    );
}

#[test]
fn collapsed_folder_hides_its_contents() {
    let root = DirNode::from_paths(vec!["src/foo.rs", "src/bar/baz.rs", "README.md"]);
    let mut collapsed = StrSet::new();
    collapsed.insert("src".to_string());
    let rows = flatten(&root, &collapsed);
    assert_eq!(rows.len(), 2);
    assert!(matches!(&rows[0], TreeRow::Dir { path, collapsed: true, .. } if path == "src"));
}
