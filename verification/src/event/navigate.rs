//! The file, folder, commit and reviewed-set actions.

use crate::app::state::{current_index, review_saved, selected_for_path, tree_rebuilt};
use crate::app::{App, Effect, ToastKind};
use crate::event::actions::{commit_toggled, file_step, moved_to_file, reviewed_cleared, CLEAR_REVIEWED_CONFIRM_MS};
use crate::input::KeyAction;
use crate::model::duplicate_files;
use crate::tree::TreeRow;
use vstd::prelude::*;

verus! {

broadcast use vstd::string::group_string_axioms;

pub fn toggle_reviewed(app: &mut App)
    ensures
        file_step(*old(app), *final(app), KeyAction::ToggleReviewed),
{
    if let Some(p) = app.diff_visible_path() {
        if app.reviewed.contains(p.as_str()) {
            app.reviewed.remove(p.as_str());
        } else {
            app.reviewed.insert(p);
        }
        let ghost m = *app;
        app.save_review();
        assert(review_saved(m, *app));
    }
}

pub fn clear_reviewed(app: &mut App)
    ensures
        reviewed_cleared(*old(app), *final(app)),
{
    let now = app.now_ms;
    let confirmed = match app.pending_clear_reviewed {
        Some(t) => now <= t || now - t <= CLEAR_REVIEWED_CONFIRM_MS,
        None => false,
    };
    if confirmed {
        app.pending_clear_reviewed = None;
        app.reviewed.clear();
        let ghost m1 = *app;
        app.save_review();
        let ghost m2 = *app;
        app.toast_str("Cleared reviewed set", ToastKind::Info);
        assert(review_saved(m1, m2));
    } else {
        app.pending_clear_reviewed = Some(now);
        app.toast_str("Press R again within 2s to clear reviewed", ToastKind::Info);
    }
}

pub fn scroll_to_edge(app: &mut App, top: bool)
    ensures
        file_step(
            *old(app),
            *final(app),
            if top {
                KeyAction::ScrollDiffTop
            } else {
                KeyAction::ScrollDiffBottom
            },
        ),
{
    if let Some(key) = app.diff_visible_path() {
        app.diff_scroll.insert(key, if top {
            0
        } else {
            u16::MAX
        });
    }
}

#[verifier::rlimit(80)]
pub fn toggle_folder(app: &mut App)
    ensures
        file_step(*old(app), *final(app), KeyAction::SidebarToggleFolder),
{
    if app.sidebar_selected < app.tree_rows.len() {
        let path = match &app.tree_rows[app.sidebar_selected] {
            TreeRow::Dir { path, .. } => path.clone(),
            TreeRow::File { .. } => {
                return;
            },
        };
        if app.sidebar_collapsed.contains(path.as_str()) {
            app.sidebar_collapsed.remove(path.as_str());
        } else {
            app.sidebar_collapsed.insert(path);
        }
        let ghost m = *app;
        app.rebuild_tree();
        assert(tree_rebuilt(m, *app));
    }
}

/// The index one step from `idx` among `n` files, staying in range.
fn step_target(idx: usize, n: usize, next: bool) -> (t: usize)
    requires
        idx < n,
    ensures
        t == (if next {
            if idx + 1 < n {
                idx + 1
            } else {
                n - 1
            }
        } else {
            if idx > 0 {
                idx - 1
            } else {
                0
            }
        }),
        t < n,
{
    if next {
        if idx < n - 1 {
            idx + 1
        } else {
            n - 1
        }
    } else {
        if idx > 0 {
            idx - 1
        } else {
            0
        }
    }
}

#[verifier::rlimit(80)]
pub fn step_file(app: &mut App, next: bool)
    ensures
        moved_to_file(*old(app), *final(app), next),
{
    let ghost a = *app;
    if app.files.len() == 0 {
        return;
    }
    let n = app.files.len();
    let idx = match app.current_file_index() {
        Some(i) => i,
        None => 0,
    };
    let ghost here: int = match current_index(a) {
        Some(i) => i,
        None => 0,
    };
    assert(idx as int == here);
    let target = step_target(idx, n, next);
    let path = app.files[target].path.clone();
    let ghost sel = selected_for_path(a, a.files@[target as int].path@);
    app.select_file_by_path(path.as_str());
    assert(app.sidebar_selected == sel);
    app.fullscreen_idx = target;
    assert(*app == (App { sidebar_selected: sel, fullscreen_idx: target, ..a }));
}

fn unselect_commit(app: &mut App)
    requires
        old(app).commits_selected < old(app).commits@.len(),
        old(app).selected_commit is Some,
        old(app).selected_commit->0@ == old(app).commits@[old(app).commits_selected as int].hash@,
    ensures
        commit_toggled(*old(app), *final(app)),
{
    let ghost a = *app;
    app.selected_commit = None;
    match &app.all_files_backup {
        Some(b) => {
            let files = duplicate_files(b);
            app.files = files;
        },
        None => {},
    }
    let ghost m = *app;
    app.rebuild_tree();
    let ghost r = *app;
    app.sidebar_selected = 0;
    assert(tree_rebuilt(m, r));
    assert(*app == (App { sidebar_selected: 0, ..r }));
}

fn select_commit(app: &mut App, hash: String)
    requires
        old(app).commits_selected < old(app).commits@.len(),
        !(old(app).selected_commit is Some && old(app).selected_commit->0@
            == old(app).commits@[old(app).commits_selected as int].hash@),
        hash == old(app).commits@[old(app).commits_selected as int].hash,
    ensures
        commit_toggled(*old(app), *final(app)),
{
    let ghost a = *app;
    app.selected_commit = Some(hash.clone());
    let ghost m = *app;
    let cached = match app.commit_diff_cache.get(hash.as_str()) {
        Some(fs) => Some(duplicate_files(fs)),
        None => None,
    };
    match cached {
        Some(files) => {
            app.files = files;
            let ghost m2 = *app;
            app.rebuild_tree();
            let ghost r = *app;
            app.sidebar_selected = 0;
            assert(tree_rebuilt(m2, r));
            assert(m2 == (App { files: m2.files, ..m }));
        },
        None => {
            match &app.repo_path {
                Some(repo) => {
                    let repo = repo.clone();
                    let req_id = app.start_commit_diff_load(hash.clone());
                    app.effects.push(Effect::LoadCommitDiff { req_id, repo, hash });
                },
                None => {},
            }
        },
    }
}

pub fn toggle_commit(app: &mut App)
    ensures
        commit_toggled(*old(app), *final(app)),
{
    if app.commits_selected >= app.commits.len() {
        return;
    }
    let hash = app.commits[app.commits_selected].hash.clone();
    let same = match &app.selected_commit {
        Some(s) => crate::text::str_eq(s.as_str(), hash.as_str()),
        None => false,
    };
    if same {
        unselect_commit(app);
    } else {
        select_commit(app, hash);
    }
}

pub fn toggle_expand(app: &mut App)
    ensures
        file_step(*old(app), *final(app), KeyAction::CommitsToggleExpand),
{
    if app.commits_selected >= app.commits.len() {
        return;
    }
    let hash = app.commits[app.commits_selected].hash.clone();
    let same = match &app.expanded_commit {
        Some(s) => crate::text::str_eq(s.as_str(), hash.as_str()),
        None => false,
    };
    if same {
        app.expanded_commit = None;
    } else {
        app.expanded_commit = Some(hash);
    }
}

} // verus!
