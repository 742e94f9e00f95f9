//! The Setup screen: what launch does with the given refs, and Enter on
//! each field.

use crate::app::state::toasted;
use crate::app::{App, SetupField, ToastKind};
use crate::event::loaders::{
    has_range, kick_off_load_branches, kick_off_load_range, kicked_branches, kicked_range,
};
use crate::paths::{same_path, same_path_spec};
use crate::text::{chars_of, string_of, trim, trim_bounds};
use vstd::prelude::*;

verus! {

broadcast use vstd::string::group_string_axioms;

/// The compare ref after launch: HEAD's branch fills a missing compare ref
/// when a base ref was given and HEAD is on a different branch.
pub open spec fn filled_compare(
    base: Option<String>,
    compare: Option<String>,
    head: Option<String>,
) -> Option<String> {
    if base is Some && compare is None && head is Some && head->0@ != base->0@ {
        head
    } else {
        compare
    }
}

/// `b` is `a` after launch: with a repository that has a `.git`, branches
/// start loading; compare is filled from HEAD when possible; then the diff
/// and commits start loading when both refs are known, or focus goes to
/// the first missing ref.
pub open spec fn bootstrapped(a: App, b: App, has_git_dir: bool, head: Option<String>) -> bool {
    if a.repo_path is None || !has_git_dir {
        b == a
    } else {
        exists|m1: App, m2: App|
            #![trigger kicked_branches(a, m1), m2.compare_branch]
            kicked_branches(a, m1) && m2 == (App {
                compare_branch: filled_compare(m1.base_branch, m1.compare_branch, head),
                ..m1
            }) && if m2.base_branch is Some && m2.compare_branch is Some {
                kicked_range(m2, b)
            } else if m2.base_branch is Some {
                b == (App { setup_field: SetupField::Compare, ..m2 })
            } else {
                b == (App { setup_field: SetupField::Base, ..m2 })
            }
    }
}

/// `b` is `a` after Enter on the current Setup field.
pub open spec fn setup_submitted(a: App, b: App) -> bool {
    match a.setup_field {
        SetupField::Repo => {
            let p = trim(a.repo_input.buffer@);
            if p.len() == 0 {
                toasted(a, b, "Repo path is empty"@, ToastKind::Error)
            } else {
                let changed = !(a.repo_path is Some && same_path_spec(a.repo_path->0@, p));
                exists|m: App, k: App|
                    #![trigger kicked_branches(m, k)]
                    m.repo_path is Some && m.repo_path->0@ == p && (if changed {
                        m.base_branch is None && m.compare_branch is None && m.branches@.len() == 0
                    } else {
                        m.base_branch == a.base_branch && m.compare_branch == a.compare_branch
                            && m.branches == a.branches
                    }) && m == (App {
                        repo_path: m.repo_path,
                        base_branch: m.base_branch,
                        compare_branch: m.compare_branch,
                        branches: m.branches,
                        ..a
                    }) && kicked_branches(m, k) && b == (App { setup_field: SetupField::Base, ..k })
            }
        },
        SetupField::Base => b == (App { setup_field: SetupField::Compare, ..a }),
        SetupField::Compare => b == (App { setup_field: SetupField::Remote, ..a }),
        SetupField::Remote => exists|k: App|
            #![trigger k.setup_field]
            kicked_branches(App { include_remote_branches: !a.include_remote_branches, ..a }, k)
                && b == (App { setup_field: SetupField::Submit, ..k }),
        SetupField::Submit => if has_range(a) {
            kicked_range(a, b)
        } else {
            toasted(a, b, "Pick repo, base, and compare first"@, ToastKind::Error)
        },
    }
}

/// Tab on the Setup screen.
pub open spec fn next_field_of(f: SetupField) -> SetupField {
    match f {
        SetupField::Repo => SetupField::Base,
        SetupField::Base => SetupField::Compare,
        SetupField::Compare => SetupField::Remote,
        SetupField::Remote => SetupField::Submit,
        SetupField::Submit => SetupField::Repo,
    }
}

/// Shift-Tab on the Setup screen.
pub open spec fn prev_field_of(f: SetupField) -> SetupField {
    match f {
        SetupField::Repo => SetupField::Submit,
        SetupField::Base => SetupField::Repo,
        SetupField::Compare => SetupField::Base,
        SetupField::Remote => SetupField::Compare,
        SetupField::Submit => SetupField::Remote,
    }
}

/// Launch: kicks off the loads that the given repository and refs allow
/// and picks the Setup field to focus. `has_git_dir` says whether the
/// repository path holds a `.git`; `head` is its checked-out branch, if any.
pub fn bootstrap(app: &mut App, has_git_dir: bool, head: Option<String>)
    ensures
        bootstrapped(*old(app), *final(app), has_git_dir, head),
{
    if app.repo_path.is_none() || !has_git_dir {
        return;
    }
    kick_off_load_branches(app);
    let ghost m1 = *app;
    let ghost h = head;
    if app.base_branch.is_some() && app.compare_branch.is_none() {
        if let Some(hd) = head {
            let differs = match &app.base_branch {
                Some(b) => !crate::text::str_eq(hd.as_str(), b.as_str()),
                None => false,
            };
            if differs {
                app.compare_branch = Some(hd);
            }
        }
    }
    let ghost m2 = *app;
    assert(m2 == (App { compare_branch: filled_compare(m1.base_branch, m1.compare_branch, h), ..m1 }));
    if app.base_branch.is_some() && app.compare_branch.is_some() {
        kick_off_load_range(app);
    } else if app.base_branch.is_some() {
        app.setup_field = SetupField::Compare;
    } else {
        app.setup_field = SetupField::Base;
    }
    assert(kicked_branches(*old(app), m1));
}

/// Enter on the Setup screen: Repo sets the repository (dropping the refs
/// and branches when it names another path) and loads its branches; Base and Compare
/// move on; Remote flips remote branches and reloads them; Submit loads the
/// diff, or says what is missing.
pub fn handle_setup_submit(app: &mut App)
    ensures
        setup_submitted(*old(app), *final(app)),
{
    let ghost a = *app;
    match app.setup_field {
        SetupField::Repo => {
            let v = chars_of(app.repo_input.buffer.as_str());
            let (lo, hi) = trim_bounds(&v, 0, v.len());
            assert(v@.subrange(0, v@.len() as int) =~= v@);
            if lo == hi {
                app.toast_str("Repo path is empty", ToastKind::Error);
                return;
            }
            let path = string_of(&v, lo, hi);
            let same = match &app.repo_path {
                Some(r) => same_path(r.as_str(), path.as_str()),
                None => false,
            };
            app.repo_path = Some(path);
            if !same {
                app.base_branch = None;
                app.compare_branch = None;
                app.branches.clear();
            }
            let ghost m = *app;
            kick_off_load_branches(app);
            let ghost k = *app;
            app.setup_field = SetupField::Base;
            assert(kicked_branches(m, k));
        },
        SetupField::Base => app.setup_field = SetupField::Compare,
        SetupField::Compare => app.setup_field = SetupField::Remote,
        SetupField::Remote => {
            app.include_remote_branches = !app.include_remote_branches;
            kick_off_load_branches(app);
            let ghost k = *app;
            app.setup_field = SetupField::Submit;
            assert(kicked_branches(App { include_remote_branches: !a.include_remote_branches, ..a }, k));
        },
        SetupField::Submit => {
            if app.repo_path.is_some() && app.base_branch.is_some() && app.compare_branch.is_some() {
                kick_off_load_range(app);
            } else {
                app.toast_str("Pick repo, base, and compare first", ToastKind::Error);
            }
        },
    }
}

/// Tab on the Setup screen.
pub fn next_field(f: SetupField) -> (r: SetupField)
    ensures
        r == next_field_of(f),
{
    match f {
        SetupField::Repo => SetupField::Base,
        SetupField::Base => SetupField::Compare,
        SetupField::Compare => SetupField::Remote,
        SetupField::Remote => SetupField::Submit,
        SetupField::Submit => SetupField::Repo,
    }
}

/// Shift-Tab on the Setup screen.
pub fn prev_field(f: SetupField) -> (r: SetupField)
    ensures
        r == prev_field_of(f),
{
    match f {
        SetupField::Repo => SetupField::Submit,
        SetupField::Base => SetupField::Repo,
        SetupField::Compare => SetupField::Base,
        SetupField::Remote => SetupField::Compare,
        SetupField::Submit => SetupField::Remote,
    }
}


/// Shift-Tab undoes Tab on the Setup screen and vice versa, and five Tabs
/// come back to the same field.
pub proof fn lemma_setup_fields_cycle(f: SetupField)
    ensures
        prev_field_of(next_field_of(f)) == f,
        next_field_of(prev_field_of(f)) == f,
        next_field_of(next_field_of(next_field_of(next_field_of(next_field_of(f))))) == f,
{
}

} // verus!
