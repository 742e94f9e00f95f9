//! What happens on each event: keys turned into actions and applied, git
//! results folded into the state, ticks and mouse wheels. The host runs the
//! loop and carries out the effects the state asks for.

pub mod actions;
pub mod git_results;
pub mod loaders;
pub mod modal;
pub mod mouse;
pub mod navigate;
pub mod setup;

use crate::app::App;
use crate::blame::Blame;
use crate::event::actions::{action_applied, action_ok, apply_action};
use crate::event::git_results::{git_result_applied, handle_git_result};
use crate::event::loaders::{blame_ensured, ensure_blame_for_visible};
use crate::event::mouse::{expire_toasts, handle_mouse, mouse_handled, toasts_expired, MouseKind};
use crate::input::keys::dispatch_of;
use crate::input::{dispatch_key, KeyEvent};
use crate::model::{Commit, FileChange};
use vstd::prelude::*;

verus! {

/// The outcome of a git load, tagged with the request id it answers
/// (blame loads carry none). Errors are their messages.
#[derive(Debug)]
pub struct GitResult {
    pub req_id: u64,
    pub kind: GitResultKind,
}

#[derive(Debug)]
#[allow(inconsistent_fields)]
pub enum GitResultKind {
    Branches(Result<Vec<String>, String>),
    Diff(Result<Vec<FileChange>, String>),
    Commits(Result<Vec<Commit>, String>),
    CommitDiff { hash: String, result: Result<Vec<FileChange>, String> },
    Blame { git_ref: String, file: String, result: Result<Blame, String> },
}


/// What the host feeds the state.
#[derive(Debug)]
pub enum AppEvent {
    /// A key press (or repeat).
    Key(KeyEvent),
    /// A key release; ignored.
    KeyRelease,
    Mouse(MouseKind),
    Resize,
    /// The spinner's clock.
    Tick,
    Git(GitResult),
}

/// The event can be handled without overflow: a key's action is allowed.
pub open spec fn event_ok(a: App, ev: AppEvent) -> bool {
    match ev {
        AppEvent::Key(k) => match dispatch_of(a, k) {
            Some(act) => action_ok(a, act),
            None => true,
        },
        _ => true,
    }
}

/// `b` is `a` after the event: expired toasts go first, then the tick
/// advances the spinner, a key's action is applied (and the visible file's
/// blame requested), the mouse wheel scrolls, or the git result is folded in.
pub open spec fn event_handled(a: App, b: App, ev: AppEvent, head: Option<String>) -> bool {
    exists|m: App|
        #![trigger toasts_expired(a, m)]
        toasts_expired(a, m) && match ev {
            AppEvent::Tick => b == (App {
                spinner_tick: if m.spinner_tick == u64::MAX {
                    0
                } else {
                    (m.spinner_tick + 1) as u64
                },
                ..m
            }),
            AppEvent::Key(k) => match dispatch_of(m, k) {
                Some(act) => exists|m2: App|
                    #![trigger action_applied(m, m2, act)]
                    action_applied(m, m2, act) && blame_ensured(m2, b),
                None => b == m,
            },
            AppEvent::KeyRelease => b == m,
            AppEvent::Mouse(kind) => mouse_handled(m, b, kind),
            AppEvent::Resize => b == m,
            AppEvent::Git(r) => git_result_applied(m, b, r, head),
        }
}

/// Handles one event. `head` is the repository's checked-out branch, which
/// a branches result uses to preselect the compare ref.
pub fn handle_event(app: &mut App, ev: AppEvent, head: Option<String>)
    requires
        event_ok(*old(app), ev),
    ensures
        event_handled(*old(app), *final(app), ev, head),
{
    let ghost a = *app;
    expire_toasts(app);
    let ghost m = *app;
    match ev {
        AppEvent::Tick => {
            app.spinner_tick = app.spinner_tick.wrapping_add(1);
        },
        AppEvent::Key(key) => {
            assert(dispatch_of(m, key) == dispatch_of(a, key));
            if let Some(action) = dispatch_key(app, key) {
                assert(action_ok(m, action) == action_ok(a, action));
                apply_action(app, action);
                let ghost m2 = *app;
                ensure_blame_for_visible(app);
                assert(action_applied(m, m2, action));
            }
        },
        AppEvent::KeyRelease => {},
        AppEvent::Mouse(kind) => handle_mouse(app, kind),
        AppEvent::Resize => {},
        AppEvent::Git(result) => handle_git_result(app, result, head),
    }
    assert(toasts_expired(a, m));
}

} // verus!
