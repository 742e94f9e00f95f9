//! Starting git loads and keeping track of blame requests.

use crate::app::state::{blame_ref, visible_index};
use crate::app::{next_id, App, BranchSlot, Effect, PendingOps, ReqIds};
use crate::blame::Blame;
use crate::collections::{StrMap, StrSet};
use crate::git::{strings_view, working_tree_ref, working_tree_ref_string};
use crate::model::FileStatus;
use vstd::prelude::*;

verus! {

broadcast use vstd::string::group_string_axioms;

/// The branch-picker items for a slot: the compare slot gets the
/// working-tree pseudo-ref first.
pub open spec fn picker_items(branches: Seq<Seq<char>>, slot: BranchSlot) -> Seq<Seq<char>> {
    match slot {
        BranchSlot::Compare => seq![working_tree_ref()] + branches,
        BranchSlot::Base => branches,
    }
}

/// The (ref, file) pairs of a two-level map.
pub open spec fn pairs_of<V>(m: Map<Seq<char>, StrMap<V>>) -> Set<(Seq<char>, Seq<char>)> {
    Set::new(|p: (Seq<char>, Seq<char>)| m.contains_key(p.0) && m[p.0]@.contains_key(p.1))
}

/// The (ref, file) pairs of a map of sets.
pub open spec fn pending_pairs(m: Map<Seq<char>, StrSet>) -> Set<(Seq<char>, Seq<char>)> {
    Set::new(|p: (Seq<char>, Seq<char>)| m.contains_key(p.0) && m[p.0]@.contains(p.1))
}

/// `b` is `a` after a branches load started (when there is a repository).
pub open spec fn kicked_branches(a: App, b: App) -> bool {
    if a.repo_path is None {
        b == a
    } else {
        let id = next_id(a.req_ids.branches);
        &&& b.effects@ == a.effects@.push(
            Effect::LoadBranches {
                req_id: id,
                repo: a.repo_path->0,
                include_remote: a.include_remote_branches,
            },
        )
        &&& b == (App {
            req_ids: ReqIds { branches: id, ..a.req_ids },
            pending: PendingOps { branches: true, ..a.pending },
            effects: b.effects,
            ..a
        })
    }
}

/// Whether the repository, base and compare ref are all known.
pub open spec fn has_range(a: App) -> bool {
    a.repo_path is Some && a.base_branch is Some && a.compare_branch is Some
}

/// `b` is `a` after a diff load started (when the range is known).
pub open spec fn kicked_diff(a: App, b: App) -> bool {
    if !has_range(a) {
        b == a
    } else {
        let id = next_id(a.req_ids.diff);
        &&& b.effects@ == a.effects@.push(
            Effect::LoadDiff {
                req_id: id,
                repo: a.repo_path->0,
                base: a.base_branch->0,
                compare: a.compare_branch->0,
            },
        )
        &&& b == (App {
            req_ids: ReqIds { diff: id, ..a.req_ids },
            pending: PendingOps { diff: true, ..a.pending },
            effects: b.effects,
            ..a
        })
    }
}

/// `b` is `a` after a commits load started (when the range is known).
pub open spec fn kicked_commits(a: App, b: App) -> bool {
    if !has_range(a) {
        b == a
    } else {
        let id = next_id(a.req_ids.commits);
        &&& b.effects@ == a.effects@.push(
            Effect::LoadCommits {
                req_id: id,
                repo: a.repo_path->0,
                base: a.base_branch->0,
                compare: a.compare_branch->0,
            },
        )
        &&& b == (App {
            req_ids: ReqIds { commits: id, ..a.req_ids },
            pending: PendingOps { commits: true, ..a.pending },
            effects: b.effects,
            ..a
        })
    }
}

/// `b` is `a` after both the diff and the commits loads started.
pub open spec fn kicked_range(a: App, b: App) -> bool {
    exists|m: App| kicked_diff(a, m) && kicked_commits(m, b)
}

/// The blame that the diff panel needs and does not have yet, if any: the
/// visible file's (ref, path) when blame is on and there is a repository.
pub open spec fn wanted_blame(a: App) -> Option<(Seq<char>, Seq<char>)> {
    if a.blame_enabled && a.repo_path is Some && visible_index(a) is Some {
        let f = a.files@[visible_index(a)->0];
        if f.status != FileStatus::Deleted && a.compare_branch is Some {
            let t = (blame_ref(a.compare_branch->0@), f.path@);
            if pairs_of(a.blame_cache@).contains(t) || pending_pairs(a.blame_pending@).contains(t) {
                None
            } else {
                Some(t)
            }
        } else {
            None
        }
    } else {
        None
    }
}

/// `b` is `a` after requesting the blame the diff panel is missing.
pub open spec fn blame_ensured(a: App, b: App) -> bool {
    match wanted_blame(a) {
        None => b == a,
        Some(t) => {
            &&& pending_pairs(b.blame_pending@) == pending_pairs(a.blame_pending@).insert(t)
            &&& b.effects@.len() == a.effects@.len() + 1
            &&& b.effects@.take(a.effects@.len() as int) == a.effects@
            &&& b.effects@.last() matches Effect::LoadBlame { repo, git_ref, file }
            &&& repo == a.repo_path->0 && git_ref@ == t.0 && file@ == t.1
            &&& b == (App { blame_pending: b.blame_pending, effects: b.effects, ..a })
        },
    }
}

/// The items of the branch picker for `slot`.
pub fn picker_items_for(app: &App, slot: BranchSlot) -> (r: Vec<String>)
    ensures
        strings_view(r@) == picker_items(strings_view(app.branches@), slot),
{
    match slot {
        BranchSlot::Compare => {
            let mut items: Vec<String> = Vec::new();
            items.push(working_tree_ref_string());
            let mut i: usize = 0;
            while i < app.branches.len()
                invariant
                    i <= app.branches@.len(),
                    strings_view(items@) == seq![working_tree_ref()] + strings_view(
                        app.branches@,
                    ).take(i as int),
                decreases app.branches@.len() - i,
            {
                let ghost before = items@;
                items.push(app.branches[i].clone());
                assert(strings_view(items@) =~= strings_view(before).push(
                    app.branches@[i as int]@,
                ));
                i += 1;
                assert(strings_view(items@) =~= seq![working_tree_ref()] + strings_view(
                    app.branches@,
                ).take(i as int));
            }
            assert(strings_view(app.branches@).take(i as int) =~= strings_view(app.branches@));
            items
        },
        BranchSlot::Base => crate::persistence::copy_strings(&app.branches),
    }
}

/// Starts a branches load when there is a repository.
pub fn kick_off_load_branches(app: &mut App)
    ensures
        kicked_branches(*old(app), *final(app)),
{
    let repo = match &app.repo_path {
        Some(r) => r.clone(),
        None => {
            return;
        },
    };
    let include_remote = app.include_remote_branches;
    let req_id = app.start_branches_load();
    app.effects.push(Effect::LoadBranches { req_id, repo, include_remote });
}

/// Starts a diff load when the repository and both refs are known.
pub fn kick_off_load_diff(app: &mut App)
    ensures
        kicked_diff(*old(app), *final(app)),
{
    let (repo, base, compare) = match (&app.repo_path, &app.base_branch, &app.compare_branch) {
        (Some(r), Some(b), Some(c)) => (r.clone(), b.clone(), c.clone()),
        _ => {
            return;
        },
    };
    let req_id = app.start_diff_load();
    app.effects.push(Effect::LoadDiff { req_id, repo, base, compare });
}

/// Starts a commits load when the repository and both refs are known.
pub fn kick_off_load_commits(app: &mut App)
    ensures
        kicked_commits(*old(app), *final(app)),
{
    let (repo, base, compare) = match (&app.repo_path, &app.base_branch, &app.compare_branch) {
        (Some(r), Some(b), Some(c)) => (r.clone(), b.clone(), c.clone()),
        _ => {
            return;
        },
    };
    let req_id = app.start_commits_load();
    app.effects.push(Effect::LoadCommits { req_id, repo, base, compare });
}

/// Starts the diff and the commits loads.
pub fn kick_off_load_range(app: &mut App)
    ensures
        kicked_range(*old(app), *final(app)),
{
    kick_off_load_diff(app);
    let ghost mid = *app;
    kick_off_load_commits(app);
    assert(kicked_diff(*old(app), mid) && kicked_commits(mid, *app));
}

/// Whether (ref, file) has a cached blame.
fn blame_cached(cache: &StrMap<StrMap<Blame>>, git_ref: &str, file: &str) -> (r: bool)
    ensures
        r == pairs_of(cache@).contains((git_ref@, file@)),
{
    match cache.get(git_ref) {
        Some(inner) => inner.contains_key(file),
        None => false,
    }
}

/// Whether (ref, file) is being loaded.
fn blame_is_pending(pending: &StrMap<StrSet>, git_ref: &str, file: &str) -> (r: bool)
    ensures
        r == pending_pairs(pending@).contains((git_ref@, file@)),
{
    match pending.get(git_ref) {
        Some(inner) => inner.contains(file),
        None => false,
    }
}

/// Marks (ref, file) as being loaded.
pub fn add_pending(pending: &mut StrMap<StrSet>, git_ref: String, file: String)
    ensures
        pending_pairs(final(pending)@) == pending_pairs(old(pending)@).insert((git_ref@, file@)),
{
    let ghost before = pending@;
    let ghost t = (git_ref@, file@);
    let mut inner = match pending.remove(git_ref.as_str()) {
        Some(s) => s,
        None => StrSet::new(),
    };
    inner.insert(file);
    pending.insert(git_ref, inner);
    assert(pending_pairs(pending@) =~= pending_pairs(before).insert(t));
}

/// Drops (ref, file) from the loads in flight.
pub fn remove_pending(pending: &mut StrMap<StrSet>, git_ref: &str, file: &str)
    ensures
        pending_pairs(final(pending)@) == pending_pairs(old(pending)@).remove((git_ref@, file@)),
{
    let ghost before = pending@;
    let ghost t = (git_ref@, file@);
    match pending.remove(git_ref) {
        Some(mut inner) => {
            inner.remove(file);
            pending.insert(String::from_str(git_ref), inner);
            assert(pending_pairs(pending@) =~= pending_pairs(before).remove(t));
        },
        None => {
            assert(pending_pairs(pending@) =~= pending_pairs(before).remove(t));
        },
    }
}

/// Requests the blame of the file in the diff panel when blame is on and
/// it is neither cached nor already requested.
pub fn ensure_blame_for_visible(app: &mut App)
    ensures
        blame_ensured(*old(app), *final(app)),
{
    let ghost a0 = *app;
    if !app.blame_enabled {
        return;
    }
    let repo = match &app.repo_path {
        Some(r) => r.clone(),
        None => {
            return;
        },
    };
    let target = match app.diff_visible_file() {
        Some(f) => app.blame_target_for(f),
        None => None,
    };
    let (git_ref, file) = match target {
        Some(t) => t,
        None => {
            return;
        },
    };
    if blame_cached(&app.blame_cache, git_ref.as_str(), file.as_str()) || blame_is_pending(
        &app.blame_pending,
        git_ref.as_str(),
        file.as_str(),
    ) {
        return;
    }
    proof {
        let i = visible_index(a0)->0;
        assert(wanted_blame(a0) == Some((git_ref@, file@)));
    }
    add_pending(&mut app.blame_pending, git_ref.clone(), file.clone());
    app.effects.push(Effect::LoadBlame { repo, git_ref, file });
    assert(app.effects@.take(a0.effects@.len() as int) =~= a0.effects@);
}

} // verus!
