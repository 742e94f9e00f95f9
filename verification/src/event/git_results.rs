//! Folding the results of git loads into the state. A result whose request
//! id is no longer current is stale and changes nothing.

use crate::app::state::{
    current_index, review_loaded, selected_for_path, toasted, tree_rebuilt,
};
use crate::app::{App, CommitDiffState, PendingOps, Screen, ToastKind};
use crate::blame::Blame;
use crate::collections::StrMap;
use crate::event::loaders::{blame_ensured, ensure_blame_for_visible, pairs_of, pending_pairs, remove_pending};
use crate::event::{GitResult, GitResultKind};
use crate::app::state::{first_match, lemma_first_match, lemma_no_match};
use crate::model::{duplicate_files, files_view, FileChange};
use crate::text::{append_chars, str_eq};
use vstd::prelude::*;

verus! {

broadcast use vstd::string::group_string_axioms;

/// The blame cache as a map from (ref, file).
pub open spec fn blame_map(m: Map<Seq<char>, StrMap<Blame>>) -> Map<(Seq<char>, Seq<char>), Blame> {
    Map::new(|p: (Seq<char>, Seq<char>)| pairs_of(m).contains(p), |p: (Seq<char>, Seq<char>)| m[p.0]@[p.1])
}

/// Whether branch `i` is `main` or `master`.
pub open spec fn is_default_branch(bs: Seq<String>) -> spec_fn(int) -> bool {
    |i: int| bs[i]@ == "main"@ || bs[i]@ == "master"@
}

/// The base ref picked from a branch list: `main` or `master` (the first
/// such), else the first branch.
pub open spec fn preselected_base(bs: Seq<String>) -> Option<String> {
    match first_match(bs.len() as int, is_default_branch(bs)) {
        Some(i) => Some(bs[i]),
        None => if bs.len() > 0 {
            Some(bs[0])
        } else {
            None
        },
    }
}

/// The compare ref after branches load: HEAD's branch when compare is
/// unset and HEAD differs from the base.
pub open spec fn preselected_compare(
    base: Option<String>,
    compare: Option<String>,
    head: Option<String>,
) -> Option<String> {
    if compare is None && head is Some && !(base is Some && base->0@ == head->0@) {
        head
    } else {
        compare
    }
}

/// `b` is `a` after applying the file given with `--file` once the diff is
/// in: select it, put fullscreen on it, and enter fullscreen when asked.
pub open spec fn initial_applied(a: App, b: App) -> bool {
    match a.initial_file {
        None => b == a,
        Some(t) => {
            let s1 = App { initial_file: None, sidebar_selected: selected_for_path(a, t@), ..a };
            let s2 = match current_index(s1) {
                Some(i) => App { fullscreen_idx: i as usize, ..s1 },
                None => s1,
            };
            if s2.initial_fullscreen {
                b == (App { screen: Screen::Fullscreen, initial_fullscreen: false, ..s2 })
            } else {
                b == s2
            }
        },
    }
}

/// `b` is `a` after a fresh diff arrived with files `fs`: the files and a
/// copy of them as the full list, the tree rebuilt, selections at the top,
/// the reviewed set loaded, the Review screen, the `--file` applied and the
/// blame requested.
pub open spec fn diff_loaded(a: App, b: App, fs: Seq<FileChange>) -> bool {
    exists|m1: App, m2: App, m4: App, m6: App|
        #![trigger tree_rebuilt(m1, m2), review_loaded(App { sidebar_selected: 0, fullscreen_idx: 0, ..m2 }, m4), initial_applied(App { screen: Screen::Review, ..m4 }, m6)]
        m1.files@ == fs && m1.all_files_backup is Some && files_view(m1.all_files_backup->0@)
            == files_view(fs) && m1 == (App {
            pending: PendingOps { diff: false, ..a.pending },
            files: m1.files,
            all_files_backup: m1.all_files_backup,
            ..a
        }) && tree_rebuilt(m1, m2) && review_loaded(
            App { sidebar_selected: 0, fullscreen_idx: 0, ..m2 },
            m4,
        ) && initial_applied(App { screen: Screen::Review, ..m4 }, m6) && blame_ensured(m6, b)
}

/// `b` is `a` after a commit's diff arrived with files `fs`: cached under
/// the hash, the full list kept aside once, the files replaced, the tree
/// rebuilt and the selections at the top.
pub open spec fn commit_diff_loaded(a: App, b: App, hash: Seq<char>, fs: Seq<FileChange>) -> bool {
    exists|m1: App, m2: App|
        #![trigger tree_rebuilt(m1, m2)]
        m1.commit_diff_cache@.dom() == a.commit_diff_cache@.dom().insert(hash)
            && (forall|k: Seq<char>| k != hash && #[trigger] a.commit_diff_cache@.contains_key(k)
            ==> m1.commit_diff_cache@[k] == a.commit_diff_cache@[k]) && files_view(
            m1.commit_diff_cache@[hash]@,
        ) == files_view(fs) && (if a.all_files_backup is None {
            m1.all_files_backup is Some && files_view(m1.all_files_backup->0@) == files_view(
                a.files@,
            )
        } else {
            m1.all_files_backup == a.all_files_backup
        }) && m1.files@ == fs && m1 == (App {
            pending: PendingOps { commit_diff: CommitDiffState::Idle, ..a.pending },
            commit_diff_cache: m1.commit_diff_cache,
            all_files_backup: m1.all_files_backup,
            files: m1.files,
            ..a
        }) && tree_rebuilt(m1, m2) && b == (App { sidebar_selected: 0, fullscreen_idx: 0, ..m2 })
}

/// `b` is `a` after the branch list (or its error) arrived for request `req_id`.
pub open spec fn branches_applied(a: App, b: App, req_id: u64, res: Result<Vec<String>, String>, head: Option<String>) -> bool {
if req_id != a.req_ids.branches {
            b == a
        } else {
            let m = App { pending: PendingOps { branches: false, ..a.pending }, ..a };
            match res {
                Ok(bs) => {
                    let base = if m.base_branch is None {
                        preselected_base(bs@)
                    } else {
                        m.base_branch
                    };
                    let compare = preselected_compare(base, m.compare_branch, head);
                    b == (App { branches: bs, base_branch: base, compare_branch: compare, ..m })
                },
                Err(e) => toasted(m, b, "Failed to load branches: "@ + e@, ToastKind::Error),
            }
        }
}

/// `b` is `a` after the git result `r` arrived; `head` is the repository's
/// checked-out branch, used to preselect the compare ref.
pub open spec fn git_result_applied(a: App, b: App, r: GitResult, head: Option<String>) -> bool {
    match r.kind {
        GitResultKind::Branches(res) => branches_applied(a, b, r.req_id, res, head),
        GitResultKind::Diff(res) => if r.req_id != a.req_ids.diff {
            b == a
        } else {
            match res {
                Ok(fs) => diff_loaded(a, b, fs@),
                Err(e) => toasted(
                    App { pending: PendingOps { diff: false, ..a.pending }, ..a },
                    b,
                    "Failed to load diff: "@ + e@,
                    ToastKind::Error,
                ),
            }
        },
        GitResultKind::Commits(res) => if r.req_id != a.req_ids.commits {
            b == a
        } else {
            let m = App { pending: PendingOps { commits: false, ..a.pending }, ..a };
            match res {
                Ok(cs) => b == (App { commits: cs, ..m }),
                Err(e) => toasted(m, b, "Failed to load commits: "@ + e@, ToastKind::Error),
            }
        },
        GitResultKind::Blame { git_ref, file, result } => {
            let t = (git_ref@, file@);
            &&& pending_pairs(b.blame_pending@) == pending_pairs(a.blame_pending@).remove(t)
            &&& match result {
                Ok(bl) => blame_map(b.blame_cache@) == blame_map(a.blame_cache@).insert(t, bl),
                Err(_) => b.blame_cache == a.blame_cache,
            }
            &&& b == (App { blame_pending: b.blame_pending, blame_cache: b.blame_cache, ..a })
        },
        GitResultKind::CommitDiff { hash, result } => if !(a.pending.commit_diff matches CommitDiffState::Loading(h) && h@ == hash@) || r.req_id != a.req_ids.commit_diff {
            b == a
        } else {
            match result {
                Ok(fs) => commit_diff_loaded(a, b, hash@, fs@),
                Err(e) => toasted(
                    App {
                        pending: PendingOps { commit_diff: CommitDiffState::Idle, ..a.pending },
                        selected_commit: None,
                        ..a
                    },
                    b,
                    "Failed to load commit diff: "@ + e@,
                    ToastKind::Error,
                ),
            }
        },
    }
}

/// `prefix` followed by `e`.
fn message(prefix: &str, e: &str) -> (r: String)
    ensures
        r@ == prefix@ + e@,
{
    let mut s = String::from_str(prefix);
    append_chars(&mut s, e);
    s
}

/// The base ref picked from a branch list.
fn pick_base(bs: &Vec<String>) -> (r: Option<String>)
    ensures
        r == preselected_base(bs@),
{
    let ghost pred = is_default_branch(bs@);
    let mut i: usize = 0;
    while i < bs.len()
        invariant
            i <= bs@.len(),
            pred == is_default_branch(bs@),
            forall|j: int| 0 <= j < i ==> !#[trigger] pred(j),
        decreases bs@.len() - i,
    {
        if str_eq(bs[i].as_str(), "main") || str_eq(bs[i].as_str(), "master") {
            proof {
                lemma_first_match(bs@.len() as int, pred, i as int);
            }
            return Some(bs[i].clone());
        }
        i += 1;
    }
    proof {
        lemma_no_match(bs@.len() as int, pred);
    }
    if bs.len() > 0 {
        Some(bs[0].clone())
    } else {
        None
    }
}

/// Caches the blame of (ref, file).
fn cache_blame(cache: &mut StrMap<StrMap<Blame>>, git_ref: String, file: String, bl: Blame)
    ensures
        blame_map(final(cache)@) == blame_map(old(cache)@).insert((git_ref@, file@), bl),
{
    let ghost before = cache@;
    let ghost t = (git_ref@, file@);
    let mut inner = match cache.remove(git_ref.as_str()) {
        Some(m) => m,
        None => StrMap::new(),
    };
    inner.insert(file, bl);
    cache.insert(git_ref, inner);
    assert(blame_map(cache@) =~= blame_map(before).insert(t, bl));
}

/// Applies `--file` after the diff is in.
#[verifier::rlimit(40)]
fn apply_initial_file(app: &mut App)
    ensures
        initial_applied(*old(app), *final(app)),
{
    let ghost a = *app;
    let mut init: Option<String> = None;
    std::mem::swap(&mut init, &mut app.initial_file);
    if let Some(target) = init {
        let ghost s0 = *app;
        assert(selected_for_path(s0, target@) == selected_for_path(a, target@)) by {
            reveal(selected_for_path);
        }
        app.select_file_by_path(target.as_str());
        let ghost s1 = *app;
        assert(s1 == (App { initial_file: None, sidebar_selected: selected_for_path(a, target@), ..a }));
        if let Some(idx) = app.current_file_index() {
            app.fullscreen_idx = idx;
        }
        let ghost s2 = *app;
        assert(current_index(s1) == current_index(App { sidebar_selected: s1.sidebar_selected, ..a })) by {
            reveal(current_index);
        }
        assert(s2 == match current_index(s1) {
            Some(i) => App { fullscreen_idx: i as usize, ..s1 },
            None => s1,
        });
        if app.initial_fullscreen {
            app.screen = Screen::Fullscreen;
            app.initial_fullscreen = false;
        }
    }
}

fn on_diff_loaded(app: &mut App, files: Vec<FileChange>)
    ensures
        diff_loaded(*old(app), *final(app), files@),
{
    app.pending.diff = false;
    let backup = duplicate_files(&files);
    app.files = files;
    app.all_files_backup = Some(backup);
    let ghost m1 = *app;
    app.rebuild_tree();
    let ghost m2 = *app;
    app.sidebar_selected = 0;
    app.fullscreen_idx = 0;
    app.load_review();
    let ghost m4 = *app;
    app.screen = Screen::Review;
    apply_initial_file(app);
    let ghost m6 = *app;
    ensure_blame_for_visible(app);
    assert(tree_rebuilt(m1, m2));
    assert(review_loaded(App { sidebar_selected: 0, fullscreen_idx: 0, ..m2 }, m4));
    assert(initial_applied(App { screen: Screen::Review, ..m4 }, m6));
}

fn on_commit_diff_loaded(app: &mut App, hash: String, files: Vec<FileChange>)
    ensures
        commit_diff_loaded(*old(app), *final(app), hash@, files@),
{
    app.pending.commit_diff = CommitDiffState::Idle;
    let copy = duplicate_files(&files);
    app.commit_diff_cache.insert(hash, copy);
    if app.all_files_backup.is_none() {
        let backup = duplicate_files(&app.files);
        app.all_files_backup = Some(backup);
    }
    app.files = files;
    let ghost m1 = *app;
    app.rebuild_tree();
    let ghost m2 = *app;
    app.sidebar_selected = 0;
    app.fullscreen_idx = 0;
    assert(tree_rebuilt(m1, m2));
}

fn on_branches(app: &mut App, req_id: u64, res: Result<Vec<String>, String>, head: Option<String>)
    ensures
        branches_applied(*old(app), *final(app), req_id, res, head),
{
    if req_id != app.req_ids.branches {
        return;
    }
    app.pending.branches = false;
    let ghost m = *app;
    match res {
        Ok(bs) => {
            let base = if app.base_branch.is_none() {
                pick_base(&bs)
            } else {
                crate::app::state::clone_opt(&app.base_branch)
            };
            let ghost hd = head;
            let compare = if app.compare_branch.is_none() {
                match head {
                    Some(h) => {
                        let same = match &base {
                            Some(b) => str_eq(b.as_str(), h.as_str()),
                            None => false,
                        };
                        if !same {
                            Some(h)
                        } else {
                            None
                        }
                    },
                    None => None,
                }
            } else {
                crate::app::state::clone_opt(&app.compare_branch)
            };
            assert(compare == preselected_compare(base, m.compare_branch, hd));
            app.base_branch = base;
            app.compare_branch = compare;
            app.branches = bs;
        },
        Err(e) => {
            app.toast_string(message("Failed to load branches: ", e.as_str()), ToastKind::Error);
        },
    }
}

fn on_diff(app: &mut App, req_id: u64, res: Result<Vec<FileChange>, String>)
    ensures
        git_result_applied(*old(app), *final(app), GitResult { req_id, kind: GitResultKind::Diff(res) }, None),
{
    if req_id != app.req_ids.diff {
        return;
    }
    match res {
        Ok(files) => on_diff_loaded(app, files),
        Err(e) => {
            app.pending.diff = false;
            app.toast_string(message("Failed to load diff: ", e.as_str()), ToastKind::Error);
        },
    }
}

fn on_commits(app: &mut App, req_id: u64, res: Result<Vec<crate::model::Commit>, String>)
    ensures
        git_result_applied(*old(app), *final(app), GitResult { req_id, kind: GitResultKind::Commits(res) }, None),
{
    if req_id != app.req_ids.commits {
        return;
    }
    app.pending.commits = false;
    match res {
        Ok(c) => app.commits = c,
        Err(e) => {
            app.toast_string(message("Failed to load commits: ", e.as_str()), ToastKind::Error);
        },
    }
}

fn on_blame(app: &mut App, req_id: u64, git_ref: String, file: String, res: Result<Blame, String>)
    ensures
        git_result_applied(
            *old(app),
            *final(app),
            GitResult { req_id, kind: GitResultKind::Blame { git_ref, file, result: res } },
            None,
        ),
{
    remove_pending(&mut app.blame_pending, git_ref.as_str(), file.as_str());
    match res {
        Ok(b) => cache_blame(&mut app.blame_cache, git_ref, file, b),
        Err(_) => {},
    }
}

fn on_commit_diff(app: &mut App, req_id: u64, hash: String, res: Result<Vec<FileChange>, String>)
    ensures
        git_result_applied(
            *old(app),
            *final(app),
            GitResult { req_id, kind: GitResultKind::CommitDiff { hash, result: res } },
            None,
        ),
{
    if !app.pending.commit_diff.is_loading(hash.as_str()) || req_id != app.req_ids.commit_diff {
        return;
    }
    match res {
        Ok(files) => on_commit_diff_loaded(app, hash, files),
        Err(e) => {
            app.pending.commit_diff = CommitDiffState::Idle;
            app.selected_commit = None;
            app.toast_string(message("Failed to load commit diff: ", e.as_str()), ToastKind::Error);
        },
    }
}

/// Folds a git result into the state, dropping stale ones.
pub fn handle_git_result(app: &mut App, result: GitResult, head: Option<String>)
    ensures
        git_result_applied(*old(app), *final(app), result, head),
{
    let req_id = result.req_id;
    match result.kind {
        GitResultKind::Branches(res) => on_branches(app, req_id, res, head),
        GitResultKind::Diff(res) => on_diff(app, req_id, res),
        GitResultKind::Commits(res) => on_commits(app, req_id, res),
        GitResultKind::Blame { git_ref, file, result: res } => on_blame(app, req_id, git_ref, file, res),
        GitResultKind::CommitDiff { hash, result: res } => on_commit_diff(app, req_id, hash, res),
    }
}


/// A result whose request id is no longer the current one for its kind
/// changes nothing: late answers to superseded requests are dropped.
pub proof fn lemma_stale_result_ignored(a: App, b: App, r: GitResult, head: Option<String>)
    requires
        git_result_applied(a, b, r, head),
        match r.kind {
            GitResultKind::Branches(_) => r.req_id != a.req_ids.branches,
            GitResultKind::Diff(_) => r.req_id != a.req_ids.diff,
            GitResultKind::Commits(_) => r.req_id != a.req_ids.commits,
            GitResultKind::CommitDiff { .. } => r.req_id != a.req_ids.commit_diff,
            GitResultKind::Blame { .. } => false,
        },
    ensures
        b == a,
{
}

/// A blame result is no longer pending afterwards, and when it succeeded
/// it is cached for its (ref, file).
pub proof fn lemma_blame_result_settles(a: App, b: App, r: GitResult, head: Option<String>)
    requires
        git_result_applied(a, b, r, head),
        r.kind is Blame,
    ensures
        !pending_pairs(b.blame_pending@).contains((r.kind->git_ref@, r.kind->file@)),
        r.kind->Blame_result is Ok ==> blame_map(b.blame_cache@).contains_key(
            (r.kind->git_ref@, r.kind->file@),
        ),
{
}

} // verus!
