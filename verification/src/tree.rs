//! The sidebar's directory tree: built from file paths, flattened into rows.

use crate::collections::StrSet;
use crate::text::{
    append_chars, chars_of, compare_from, lemma_seq_lt_irrefl, lemma_seq_lt_total, push_char,
    seq_eq, seq_lt, split_chars, split_on, string_of_all, views_of,
};
use vstd::prelude::*;

verus! {

broadcast use vstd::string::group_string_axioms;

/// A directory: subdirectories ordered by name (each name once), then files
/// in insertion order.
#[derive(Debug)]
pub struct DirNode {
    pub dirs: Vec<(String, DirNode)>,
    pub files: Vec<String>,
}

/// The mathematical value of a [`DirNode`].
pub ghost struct Tree {
    pub dirs: Seq<(Seq<char>, Tree)>,
    pub files: Seq<Seq<char>>,
}

pub open spec fn empty_tree() -> Tree {
    Tree { dirs: Seq::empty(), files: Seq::empty() }
}

impl DirNode {
    pub open spec fn tree(self) -> Tree
        decreases self,
    {
        Tree {
            dirs: Seq::new(
                self.dirs@.len(),
                |i: int|
                    {
                        if 0 <= i < self.dirs@.len() {
                            (self.dirs@[i].0@, self.dirs@[i].1.tree())
                        } else {
                            (Seq::empty(), empty_tree())
                        }
                    },
            ),
            files: self.files@.map_values(|s: String| s@),
        }
    }
}

impl Default for DirNode {
    fn default() -> (r: DirNode)
        ensures
            r.tree() == empty_tree(),
    {
        let r = DirNode { dirs: Vec::new(), files: Vec::new() };
        assert(r.tree().dirs =~= Seq::<(Seq<char>, Tree)>::empty());
        assert(r.tree().files =~= Seq::<Seq<char>>::empty());
        r
    }
}

/// The position where `name` belongs among names in increasing order.
pub open spec fn lower_bound(ds: Seq<(Seq<char>, Tree)>, name: Seq<char>) -> int
    decreases ds.len(),
{
    if ds.len() == 0 {
        0
    } else if seq_lt(ds[0].0, name) {
        1 + lower_bound(ds.drop_first(), name)
    } else {
        0
    }
}

/// The tree with one more path, given as its components: every component
/// but the last names a directory (created where missing, at its place in
/// name order), the last one is added as a file.
pub open spec fn tree_insert(t: Tree, comps: Seq<Seq<char>>) -> Tree
    decreases comps.len(),
{
    if comps.len() <= 1 {
        Tree {
            dirs: t.dirs,
            files: t.files.push(
                if comps.len() == 1 {
                    comps[0]
                } else {
                    Seq::empty()
                },
            ),
        }
    } else {
        let name = comps[0];
        let j = lower_bound(t.dirs, name);
        if 0 <= j < t.dirs.len() && t.dirs[j].0 == name {
            Tree {
                dirs: t.dirs.update(j, (name, tree_insert(t.dirs[j].1, comps.drop_first()))),
                files: t.files,
            }
        } else {
            Tree {
                dirs: t.dirs.insert(j, (name, tree_insert(empty_tree(), comps.drop_first()))),
                files: t.files,
            }
        }
    }
}

/// The tree of a list of paths, inserted in order, each split at `'/'`.
pub open spec fn tree_of_paths(paths: Seq<Seq<char>>) -> Tree
    decreases paths.len(),
{
    if paths.len() == 0 {
        empty_tree()
    } else {
        tree_insert(tree_of_paths(paths.drop_last()), split_on(paths.last(), '/'))
    }
}

/// The length of the longest chain of subdirectories below `t`.
pub open spec fn height(t: Tree) -> nat
    decreases t, 0int,
{
    dirs_height(t.dirs, t.dirs.len() as int)
}

/// The height contributed by the first `n` subdirectories.
pub open spec fn dirs_height(ds: Seq<(Seq<char>, Tree)>, n: int) -> nat
    decreases ds, n,
{
    if n <= 0 || n > ds.len() {
        0
    } else {
        let a = dirs_height(ds, n - 1);
        let b = 1 + height(ds[n - 1].1);
        if a >= b {
            a
        } else {
            b
        }
    }
}

/// The height of a tree is at most `h` exactly when every child is at most `h - 1`.
pub proof fn lemma_height_le(t: Tree, h: nat)
    ensures
        height(t) <= h <==> forall|i: int| 0 <= i < t.dirs.len() ==> 1 + height(
            #[trigger] t.dirs[i].1,
        ) <= h,
{
    lemma_dirs_height_le(t.dirs, t.dirs.len() as int, h);
}

proof fn lemma_dirs_height_le(ds: Seq<(Seq<char>, Tree)>, n: int, h: nat)
    requires
        0 <= n <= ds.len(),
    ensures
        dirs_height(ds, n) <= h <==> forall|i: int| 0 <= i < n ==> 1 + height(
            #[trigger] ds[i].1,
        ) <= h,
    decreases n,
{
    if n > 0 {
        lemma_dirs_height_le(ds, n - 1, h);
    }
}

proof fn lemma_height_insert(t: Tree, comps: Seq<Seq<char>>, h: nat)
    requires
        height(t) <= h,
        comps.len() <= h + 1,
    ensures
        height(tree_insert(t, comps)) <= h,
    decreases comps.len(),
{
    lemma_height_le(t, h);
    let r = tree_insert(t, comps);
    if comps.len() > 1 {
        let name = comps[0];
        let j = lower_bound(t.dirs, name);
        assert(height(empty_tree()) == 0);
        lemma_lower_bound_range(t.dirs, name);
        if 0 <= j < t.dirs.len() && t.dirs[j].0 == name {
            lemma_height_le(t.dirs[j].1, (h - 1) as nat);
            lemma_height_insert(t.dirs[j].1, comps.drop_first(), (h - 1) as nat);
            assert forall|i: int| 0 <= i < r.dirs.len() implies 1 + height(#[trigger] r.dirs[i].1)
                <= h by {
                if i != j {
                    assert(r.dirs[i] == t.dirs[i]);
                }
            }
        } else {
            lemma_height_insert(empty_tree(), comps.drop_first(), (h - 1) as nat);
            assert forall|i: int| 0 <= i < r.dirs.len() implies 1 + height(#[trigger] r.dirs[i].1)
                <= h by {
                if i < j {
                    assert(r.dirs[i] == t.dirs[i]);
                } else if i > j {
                    assert(r.dirs[i] == t.dirs[i - 1]);
                }
            }
        }
        lemma_height_le(r, h);
    } else {
        assert(r.dirs == t.dirs);
        lemma_height_le(r, h);
    }
}

proof fn lemma_lower_bound_range(ds: Seq<(Seq<char>, Tree)>, name: Seq<char>)
    ensures
        0 <= lower_bound(ds, name) <= ds.len(),
        forall|i: int| 0 <= i < lower_bound(ds, name) ==> seq_lt(#[trigger] ds[i].0, name),
        lower_bound(ds, name) < ds.len() ==> !seq_lt(ds[lower_bound(ds, name)].0, name),
    decreases ds.len(),
{
    if ds.len() > 0 && seq_lt(ds[0].0, name) {
        lemma_lower_bound_range(ds.drop_first(), name);
        assert forall|i: int| 0 <= i < lower_bound(ds, name) implies seq_lt(
            #[trigger] ds[i].0,
            name,
        ) by {
            if i > 0 {
                assert(ds[i] == ds.drop_first()[i - 1]);
            }
        }
    }
}

proof fn lemma_split_len(s: Seq<char>, sep: char)
    ensures
        split_on(s, sep).len() <= s.len() + 1,
    decreases s.len(),
{
    if s.len() > 0 {
        lemma_split_len(s.drop_last(), sep);
        crate::text::lemma_split_on_nonempty(s.drop_last(), sep);
    }
}

fn lower_bound_exec(dirs: &Vec<(String, DirNode)>, name: &Vec<char>, Ghost(t): Ghost<Tree>) -> (r:
    usize)
    requires
        t.dirs.len() == dirs@.len(),
        forall|i: int| 0 <= i < dirs@.len() ==> (#[trigger] t.dirs[i]).0 == dirs@[i].0@,
    ensures
        r == lower_bound(t.dirs, name@),
{
    let mut i: usize = 0;
    assert(t.dirs.skip(0) =~= t.dirs);
    while i < dirs.len()
        invariant
            i <= dirs@.len(),
            t.dirs.len() == dirs@.len(),
            forall|k: int| 0 <= k < dirs@.len() ==> (#[trigger] t.dirs[k]).0 == dirs@[k].0@,
            lower_bound(t.dirs, name@) == i + lower_bound(t.dirs.skip(i as int), name@),
        decreases dirs@.len() - i,
    {
        let d = chars_of(dirs[i].0.as_str());
        let ghost rest = t.dirs.skip(i as int);
        assert(rest[0] == t.dirs[i as int]);
        if compare_from(&d, name) != -1 {
            return i;
        }
        assert(rest.drop_first() =~= t.dirs.skip(i + 1));
        i += 1;
    }
    i
}

/// The node with one more path, given as its components from `k` on.
fn insert_comps(node: DirNode, comps: &Vec<Vec<char>>, k: usize) -> (r: DirNode)
    requires
        k < comps@.len(),
    ensures
        r.tree() == tree_insert(node.tree(), views_of(comps@).skip(k as int)),
    decreases comps@.len() - k,
{
    let ghost cs = views_of(comps@).skip(k as int);
    let ghost t = node.tree();
    let mut node = node;
    let nc = comps.len();
    if k + 1 >= nc {
        let ghost before = node.files@;
        node.files.push(string_of_all(&comps[k]));
        assert(cs.len() == 1);
        assert(cs[0] == comps@[k as int]@);
        assert(node.tree().files =~= t.files.push(cs[0]));
        assert(node.tree().dirs =~= t.dirs);
        return node;
    }
    let name = &comps[k];
    assert(cs[0] == name@);
    assert(cs.drop_first() =~= views_of(comps@).skip(k + 1));
    let j = lower_bound_exec(&node.dirs, name, Ghost(t));
    proof {
        lemma_lower_bound_range(t.dirs, name@);
    }
    let found = j < node.dirs.len() && seq_eq(&chars_of(node.dirs[j].0.as_str()), name);
    if found {
        let ghost old_dirs = node.dirs@;
        let (n, child) = node.dirs.remove(j);
        let child2 = insert_comps(child, comps, k + 1);
        node.dirs.insert(j, (n, child2));
        assert(node.tree().dirs =~= t.dirs.update(
            j as int,
            (name@, tree_insert(t.dirs[j as int].1, cs.drop_first())),
        )) by {
            assert forall|i: int| 0 <= i < node.dirs@.len() implies node.tree().dirs[i] == t.dirs.update(
                j as int,
                (name@, tree_insert(t.dirs[j as int].1, cs.drop_first())),
            )[i] by {
                if i != j {
                    assert(node.dirs@[i] == old_dirs[i]);
                }
            }
        }
        assert(node.tree().files =~= t.files);
        node
    } else {
        let ghost old_dirs = node.dirs@;
        let child2 = insert_comps(DirNode::default(), comps, k + 1);
        node.dirs.insert(j, (string_of_all(name), child2));
        assert(node.tree().dirs =~= t.dirs.insert(
            j as int,
            (name@, tree_insert(empty_tree(), cs.drop_first())),
        )) by {
            assert forall|i: int| 0 <= i < node.dirs@.len() implies node.tree().dirs[i] == t.dirs.insert(
                j as int,
                (name@, tree_insert(empty_tree(), cs.drop_first())),
            )[i] by {
                if i < j {
                    assert(node.dirs@[i] == old_dirs[i]);
                } else if i > j {
                    assert(node.dirs@[i] == old_dirs[i - 1]);
                }
            }
        }
        assert(node.tree().files =~= t.files);
        node
    }
}

impl DirNode {
    /// The tree of the given paths, each split at `'/'`.
    pub fn from_paths(paths: Vec<&str>) -> (r: DirNode)
        ensures
            r.tree() == tree_of_paths(paths@.map_values(|p: &str| p@)),
            height(r.tree()) <= usize::MAX,
    {
        let ghost ps = paths@.map_values(|p: &str| p@);
        let mut root = DirNode::default();
        let mut i: usize = 0;
        while i < paths.len()
            invariant
                i <= paths@.len(),
                ps == paths@.map_values(|p: &str| p@),
                root.tree() == tree_of_paths(ps.take(i as int)),
                height(root.tree()) <= usize::MAX,
            decreases paths@.len() - i,
        {
            let v = chars_of(paths[i]);
            let comps = split_chars(&v, 0, v.len(), '/');
            assert(v@.subrange(0, v@.len() as int) =~= v@);
            proof {
                crate::text::lemma_split_on_nonempty(v@, '/');
                lemma_split_len(v@, '/');
                lemma_height_insert(root.tree(), views_of(comps@), usize::MAX as nat);
                assert(ps.take(i + 1).drop_last() =~= ps.take(i as int));
                assert(views_of(comps@).skip(0) =~= views_of(comps@));
            }
            root = insert_comps(root, &comps, 0);
            i += 1;
        }
        assert(ps.take(i as int) =~= ps);
        root
    }
}

// ---------------------------------------------------------------------------
// Rows
// ---------------------------------------------------------------------------

#[derive(Debug, Clone)]
pub enum TreeRow {
    Dir { path: String, label: String, depth: usize, collapsed: bool },
    File { path: String, label: String, depth: usize },
}

pub ghost enum TreeRowV {
    Dir { path: Seq<char>, label: Seq<char>, depth: int, collapsed: bool },
    File { path: Seq<char>, label: Seq<char>, depth: int },
}

impl View for TreeRow {
    type V = TreeRowV;

    open spec fn view(&self) -> TreeRowV {
        match self {
            TreeRow::Dir { path, label, depth, collapsed } => TreeRowV::Dir {
                path: path@,
                label: label@,
                depth: *depth as int,
                collapsed: *collapsed,
            },
            TreeRow::File { path, label, depth } => TreeRowV::File {
                path: path@,
                label: label@,
                depth: *depth as int,
            },
        }
    }
}

pub open spec fn rows_view(v: Seq<TreeRow>) -> Seq<TreeRowV> {
    v.map_values(|r: TreeRow| r@)
}

/// `prefix/name`, or `name` at the top.
pub open spec fn join_path(prefix: Seq<char>, name: Seq<char>) -> Seq<char> {
    if prefix.len() == 0 {
        name
    } else {
        prefix + seq!['/'] + name
    }
}

/// The rows of the first `n` subdirectories: each directory's row, then
/// (unless its path is collapsed) the rows of its contents one level deeper.
pub open spec fn dir_rows(
    ds: Seq<(Seq<char>, Tree)>,
    n: int,
    prefix: Seq<char>,
    depth: int,
    collapsed: Set<Seq<char>>,
) -> Seq<TreeRowV>
    decreases ds, n,
{
    if n <= 0 || n > ds.len() {
        Seq::empty()
    } else {
        let name = ds[n - 1].0;
        let p = join_path(prefix, name);
        let c = collapsed.contains(p);
        dir_rows(ds, n - 1, prefix, depth, collapsed) + seq![
            TreeRowV::Dir { path: p, label: name, depth, collapsed: c },
        ] + if c {
            Seq::empty()
        } else {
            rows_of(ds[n - 1].1, p, depth + 1, collapsed)
        }
    }
}

/// The rows of a directory's contents: subdirectories first, then files.
pub open spec fn rows_of(t: Tree, prefix: Seq<char>, depth: int, collapsed: Set<Seq<char>>) -> Seq<
    TreeRowV,
>
    decreases t, 0int,
{
    dir_rows(t.dirs, t.dirs.len() as int, prefix, depth, collapsed) + t.files.map_values(
        |f: Seq<char>| TreeRowV::File { path: join_path(prefix, f), label: f, depth },
    )
}

fn join_exec(prefix: &str, name: &str) -> (r: String)
    ensures
        r@ == join_path(prefix@, name@),
{
    if prefix.is_empty() {
        String::from_str(name)
    } else {
        let mut r = String::from_str(prefix);
        push_char(&mut r, '/');
        append_chars(&mut r, name);
        r
    }
}

fn walk(node: &DirNode, prefix: &str, depth: usize, out: &mut Vec<TreeRow>, collapsed: &StrSet)
    requires
        depth + height(node.tree()) <= usize::MAX,
    ensures
        rows_view(final(out)@) == rows_view(old(out)@) + rows_of(
            node.tree(),
            prefix@,
            depth as int,
            collapsed@,
        ),
    decreases node,
{
    let ghost t = node.tree();
    let ghost start = rows_view(out@);
    let n = node.dirs.len();
    let mut i: usize = 0;
    while i < n
        invariant
            n == node.dirs@.len(),
            t == node.tree(),
            i <= n,
            depth + height(t) <= usize::MAX,
            rows_view(out@) == start + dir_rows(t.dirs, i as int, prefix@, depth as int, collapsed@),
        decreases n - i,
    {
        let name = &node.dirs[i].0;
        let child = &node.dirs[i].1;
        assert(t.dirs[i as int] == (name@, child.tree()));
        proof {
            lemma_height_le(t, height(t));
            assert(1 + height(t.dirs[i as int].1) <= height(t));
        }
        let dir_path = join_exec(prefix, name.as_str());
        let is_collapsed = collapsed.contains(dir_path.as_str());
        let ghost before = rows_view(out@);
        out.push(
            TreeRow::Dir {
                path: dir_path.clone(),
                label: name.clone(),
                depth,
                collapsed: is_collapsed,
            },
        );
        let ghost mid = rows_view(out@);
        assert(mid =~= before + seq![
            TreeRowV::Dir {
                path: dir_path@,
                label: name@,
                depth: depth as int,
                collapsed: is_collapsed,
            },
        ]);
        if !is_collapsed {
            walk(child, dir_path.as_str(), depth + 1, out, collapsed);
        }
        assert(rows_view(out@) =~= start + dir_rows(
            t.dirs,
            i + 1,
            prefix@,
            depth as int,
            collapsed@,
        ));
        i += 1;
    }
    let ghost after_dirs = rows_view(out@);
    let m = node.files.len();
    let mut k: usize = 0;
    while k < m
        invariant
            m == node.files@.len(),
            t == node.tree(),
            k <= m,
            rows_view(out@) == after_dirs + t.files.take(k as int).map_values(
                |f: Seq<char>| TreeRowV::File { path: join_path(prefix@, f), label: f, depth: depth as int },
            ),
        decreases m - k,
    {
        let file = &node.files[k];
        let path = join_exec(prefix, file.as_str());
        let ghost before = rows_view(out@);
        out.push(TreeRow::File { path, label: file.clone(), depth });
        assert(t.files.take(k + 1) =~= t.files.take(k as int).push(file@));
        assert(rows_view(out@) =~= before.push(
            TreeRowV::File { path: join_path(prefix@, file@), label: file@, depth: depth as int },
        ));
        k += 1;
        assert(rows_view(out@) =~= after_dirs + t.files.take(k as int).map_values(
            |f: Seq<char>| TreeRowV::File { path: join_path(prefix@, f), label: f, depth: depth as int },
        ));
    }
    assert(t.files.take(m as int) =~= t.files);
    assert(rows_view(out@) =~= start + rows_of(t, prefix@, depth as int, collapsed@));
}

/// The rows of the whole tree, directories first at each level; a collapsed
/// directory shows its own row but not its contents.
pub fn flatten(root: &DirNode, collapsed: &StrSet) -> (r: Vec<TreeRow>)
    requires
        height(root.tree()) <= usize::MAX,
    ensures
        rows_view(r@) == rows_of(root.tree(), Seq::empty(), 0, collapsed@),
{
    let mut out: Vec<TreeRow> = Vec::new();
    let top = "";
    proof {
        reveal_strlit("");
    }
    assert(top@ =~= Seq::<char>::empty());
    walk(root, top, 0, &mut out, collapsed);
    assert(rows_view(out@) =~= rows_of(root.tree(), Seq::empty(), 0, collapsed@));
    out
}

// ---------------------------------------------------------------------------
// Laws of the rows
// ---------------------------------------------------------------------------

pub open spec fn row_depth(r: TreeRowV) -> int {
    match r {
        TreeRowV::Dir { depth, .. } => depth,
        TreeRowV::File { depth, .. } => depth,
    }
}

/// A directory row shown collapsed.
pub open spec fn closed_dir(r: TreeRowV) -> bool {
    r matches TreeRowV::Dir { collapsed: true, .. }
}

/// Every directory row is marked collapsed exactly when its path is in
/// `collapsed`.
pub open spec fn flags_follow_paths(rows: Seq<TreeRowV>, collapsed: Set<Seq<char>>) -> bool {
    forall|k: int|
        0 <= k < rows.len() ==> (#[trigger] rows[k] matches TreeRowV::Dir { path, collapsed: c, .. }
            ==> c == collapsed.contains(path))
}

/// A collapsed directory row is never followed by a deeper row: its contents
/// are left out.
pub open spec fn closed_dirs_hide_contents(rows: Seq<TreeRowV>) -> bool {
    forall|k: int|
        0 <= k < rows.len() - 1 && #[trigger] closed_dir(rows[k]) ==> row_depth(rows[k + 1])
            <= row_depth(rows[k])
}

spec fn rows_ok(rows: Seq<TreeRowV>, lo: int, collapsed: Set<Seq<char>>) -> bool {
    &&& flags_follow_paths(rows, collapsed)
    &&& closed_dirs_hide_contents(rows)
    &&& forall|k: int| 0 <= k < rows.len() ==> row_depth(#[trigger] rows[k]) >= lo
}

proof fn lemma_rows_ok_concat(a: Seq<TreeRowV>, b: Seq<TreeRowV>, lo: int, collapsed: Set<Seq<char>>)
    requires
        rows_ok(a, lo, collapsed),
        rows_ok(b, lo, collapsed),
        a.len() > 0 && b.len() > 0 && closed_dir(a.last()) ==> row_depth(b[0]) <= row_depth(a.last()),
    ensures
        rows_ok(a + b, lo, collapsed),
{
    let c = a + b;
    assert forall|k: int| 0 <= k < c.len() implies row_depth(#[trigger] c[k]) >= lo by {
        if k < a.len() {
            assert(c[k] == a[k]);
        } else {
            assert(c[k] == b[k - a.len()]);
        }
    }
    assert forall|k: int| 0 <= k < c.len() implies (#[trigger] c[k] matches TreeRowV::Dir {
        path,
        collapsed: f,
        ..
    } ==> f == collapsed.contains(path)) by {
        if k < a.len() {
            assert(c[k] == a[k]);
        } else {
            assert(c[k] == b[k - a.len()]);
        }
    }
    assert forall|k: int|
        0 <= k < c.len() - 1 && #[trigger] closed_dir(c[k]) implies row_depth(c[k + 1]) <= row_depth(
        c[k],
    ) by {
        if k < a.len() - 1 {
            assert(c[k] == a[k] && c[k + 1] == a[k + 1]);
            assert(closed_dir(a[k]));
        } else if k == a.len() - 1 {
            assert(c[k] == a.last() && c[k + 1] == b[0]);
        } else {
            assert(c[k] == b[k - a.len()] && c[k + 1] == b[k + 1 - a.len()]);
            assert(closed_dir(b[k - a.len()]));
        }
    }
}

proof fn lemma_files_rows_ok(files: Seq<Seq<char>>, prefix: Seq<char>, depth: int, collapsed: Set<Seq<char>>)
    ensures
        rows_ok(
            files.map_values(|f: Seq<char>| TreeRowV::File { path: join_path(prefix, f), label: f, depth }),
            depth,
            collapsed,
        ),
{
    let r = files.map_values(|f: Seq<char>| TreeRowV::File { path: join_path(prefix, f), label: f, depth });
    assert forall|k: int| 0 <= k < r.len() implies row_depth(#[trigger] r[k]) >= depth by {
        assert(r[k] == TreeRowV::File { path: join_path(prefix, files[k]), label: files[k], depth });
    }
    assert forall|k: int| 0 <= k < r.len() implies (#[trigger] r[k] matches TreeRowV::Dir {
        path,
        collapsed: f,
        ..
    } ==> f == collapsed.contains(path)) by {
        assert(r[k] == TreeRowV::File { path: join_path(prefix, files[k]), label: files[k], depth });
    }
    assert forall|k: int| 0 <= k < r.len() - 1 && #[trigger] closed_dir(r[k]) implies row_depth(r[k + 1])
        <= row_depth(r[k]) by {
        assert(r[k] == TreeRowV::File { path: join_path(prefix, files[k]), label: files[k], depth });
    }
}

proof fn lemma_dir_rows_ok(
    ds: Seq<(Seq<char>, Tree)>,
    n: int,
    prefix: Seq<char>,
    depth: int,
    collapsed: Set<Seq<char>>,
)
    ensures
        rows_ok(dir_rows(ds, n, prefix, depth, collapsed), depth, collapsed),
        dir_rows(ds, n, prefix, depth, collapsed).len() > 0 ==> row_depth(
            dir_rows(ds, n, prefix, depth, collapsed)[0],
        ) == depth,
    decreases ds, n,
{
    if n <= 0 || n > ds.len() {
    } else {
        let name = ds[n - 1].0;
        let p = join_path(prefix, name);
        let c = collapsed.contains(p);
        let before = dir_rows(ds, n - 1, prefix, depth, collapsed);
        let row = seq![TreeRowV::Dir { path: p, label: name, depth, collapsed: c }];
        lemma_dir_rows_ok(ds, n - 1, prefix, depth, collapsed);
        assert(rows_ok(row, depth, collapsed)) by {
            assert forall|k: int| 0 <= k < row.len() implies row_depth(#[trigger] row[k]) >= depth by {
                assert(row[k] == row[0]);
            }
            assert forall|k: int| 0 <= k < row.len() implies (#[trigger] row[k] matches TreeRowV::Dir {
                path,
                collapsed: f,
                ..
            } ==> f == collapsed.contains(path)) by {
                assert(row[k] == row[0]);
            }
        }
        let inner = if c {
            Seq::<TreeRowV>::empty()
        } else {
            rows_of(ds[n - 1].1, p, depth + 1, collapsed)
        };
        if !c {
            lemma_rows_of_ok(ds[n - 1].1, p, depth + 1, collapsed);
        }
        assert(rows_ok(inner, depth, collapsed)) by {
            assert forall|k: int| 0 <= k < inner.len() implies row_depth(#[trigger] inner[k]) >= depth by {
            }
        }
        lemma_rows_ok_concat(row, inner, depth, collapsed);
        assert((row + inner)[0] == row[0]);
        if before.len() > 0 {
            assert(before[0] == (before + (row + inner))[0]);
            assert(row_depth(before.last()) >= depth) by {
                assert(before.last() == before[before.len() - 1]);
            }
        }
        lemma_rows_ok_concat(before, row + inner, depth, collapsed);
        assert(dir_rows(ds, n, prefix, depth, collapsed) =~= before + (row + inner));
    }
}

proof fn lemma_rows_of_ok(t: Tree, prefix: Seq<char>, depth: int, collapsed: Set<Seq<char>>)
    ensures
        rows_ok(rows_of(t, prefix, depth, collapsed), depth, collapsed),
        rows_of(t, prefix, depth, collapsed).len() > 0 ==> row_depth(
            rows_of(t, prefix, depth, collapsed)[0],
        ) == depth,
    decreases t, 0int,
{
    let a = dir_rows(t.dirs, t.dirs.len() as int, prefix, depth, collapsed);
    let b = t.files.map_values(
        |f: Seq<char>| TreeRowV::File { path: join_path(prefix, f), label: f, depth },
    );
    lemma_dir_rows_ok(t.dirs, t.dirs.len() as int, prefix, depth, collapsed);
    lemma_files_rows_ok(t.files, prefix, depth, collapsed);
    if a.len() > 0 {
        assert(row_depth(a.last()) >= depth) by {
            assert(a.last() == a[a.len() - 1]);
        }
    }
    if b.len() > 0 {
        assert(row_depth(b[0]) == depth);
    }
    lemma_rows_ok_concat(a, b, depth, collapsed);
    if a.len() == 0 {
        assert((a + b) =~= b);
    } else {
        assert((a + b)[0] == a[0]);
    }
}

/// The rows of a tree honour the collapsed set by full path: a directory row
/// is marked collapsed exactly when its path (`prefix/name`, the same string
/// the row carries) is in the set, and a collapsed directory's row is never
/// followed by a deeper row, so its contents are not shown.
pub proof fn lemma_collapsed_by_path(t: Tree, collapsed: Set<Seq<char>>)
    ensures
        flags_follow_paths(rows_of(t, Seq::empty(), 0, collapsed), collapsed),
        closed_dirs_hide_contents(rows_of(t, Seq::empty(), 0, collapsed)),
{
    lemma_rows_of_ok(t, Seq::empty(), 0, collapsed);
}

} // verus!
