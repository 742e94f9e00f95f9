//! Moving selections, scrolling the diff, the mouse wheel and toast expiry.

use crate::app::state::{visible_path, visible_index};
use crate::app::{App, FocusedPane, SidebarMode, Toast};
use vstd::prelude::*;

verus! {

broadcast use vstd::string::group_string_axioms;

/// How long a toast stays, in milliseconds.
pub const TOAST_LIFETIME_MS: u64 = 4000;

/// Mouse-wheel step for the diff body.
pub const MOUSE_SCROLL_DIFF: i32 = 3;

/// Mouse-wheel step for the sidebar.
pub const MOUSE_SCROLL_SIDEBAR: i32 = 3;

/// Mouse-wheel step for the commits panel.
pub const MOUSE_SCROLL_COMMITS: i32 = 1;

/// The mouse events the panes react to.
#[derive(Debug, Clone, Copy, PartialEq, Eq, Structural)]
pub enum MouseKind {
    ScrollDown,
    ScrollUp,
    Other,
}

/// `x` kept within `0..=hi`.
pub open spec fn clamp_to(x: int, hi: int) -> int {
    if x < 0 {
        0
    } else if x > hi {
        hi
    } else {
        x
    }
}

/// The number of rows the sidebar shows.
pub open spec fn sidebar_len(a: App) -> int {
    match a.sidebar_mode {
        SidebarMode::Flat => a.files@.len() as int,
        SidebarMode::Tree => a.tree_rows@.len() as int,
    }
}

/// `b` is `a` with the sidebar selection moved by `by` within the rows.
pub open spec fn sidebar_moved(a: App, b: App, by: int) -> bool {
    if sidebar_len(a) == 0 {
        b == a
    } else {
        b == (App {
            sidebar_selected: clamp_to(a.sidebar_selected + by, sidebar_len(a) - 1) as usize,
            ..a
        })
    }
}

/// `b` is `a` with the commit selection moved by `by` within the commits.
pub open spec fn commits_moved(a: App, b: App, by: int) -> bool {
    if a.commits@.len() == 0 {
        b == a
    } else {
        b == (App {
            commits_selected: clamp_to(a.commits_selected + by, a.commits@.len() - 1) as usize,
            ..a
        })
    }
}

/// A scroll offset moved by `by`, not below zero, as the `u16` it is kept in.
pub open spec fn scrolled(m: Map<Seq<char>, u16>, key: Seq<char>, by: int) -> u16 {
    let cur: int = if m.contains_key(key) {
        m[key] as int
    } else {
        0
    };
    (if cur + by > 0 {
        cur + by
    } else {
        0
    }) as u16
}

/// `b` is `a` with the visible file's vertical offset moved by `by`.
pub open spec fn diff_scrolled(a: App, b: App, by: int) -> bool {
    match visible_path(a) {
        None => b == a,
        Some(p) => {
            &&& b.diff_scroll@ == a.diff_scroll@.insert(p, scrolled(a.diff_scroll@, p, by))
            &&& b == (App { diff_scroll: b.diff_scroll, ..a })
        },
    }
}

/// `b` is `a` with the visible file's horizontal offset moved by `by`.
pub open spec fn diff_scrolled_h(a: App, b: App, by: int) -> bool {
    match visible_path(a) {
        None => b == a,
        Some(p) => {
            &&& b.diff_scroll_h@ == a.diff_scroll_h@.insert(p, scrolled(a.diff_scroll_h@, p, by))
            &&& b == (App { diff_scroll_h: b.diff_scroll_h, ..a })
        },
    }
}

/// A toast has outlived its time at `now`.
pub open spec fn expired(t: Toast, now: u64) -> bool {
    now > t.created && now - t.created > TOAST_LIFETIME_MS
}

/// How many toasts at the front have expired.
pub open spec fn leading_expired(ts: Seq<Toast>, now: u64) -> nat
    decreases ts.len(),
{
    if ts.len() > 0 && expired(ts[0], now) {
        1 + leading_expired(ts.drop_first(), now)
    } else {
        0
    }
}

/// `b` is `a` with the expired toasts at the front dropped.
pub open spec fn toasts_expired(a: App, b: App) -> bool {
    &&& b.toasts@ == a.toasts@.skip(leading_expired(a.toasts@, a.now_ms) as int)
    &&& b == (App { toasts: b.toasts, ..a })
}

/// `b` is `a` after the mouse event: the wheel scrolls the focused pane.
pub open spec fn mouse_handled(a: App, b: App, kind: MouseKind) -> bool {
    match kind {
        MouseKind::ScrollDown => match a.focused {
            FocusedPane::Diff => diff_scrolled(a, b, MOUSE_SCROLL_DIFF as int),
            FocusedPane::Sidebar => sidebar_moved(a, b, MOUSE_SCROLL_SIDEBAR as int),
            FocusedPane::Commits => commits_moved(a, b, MOUSE_SCROLL_COMMITS as int),
        },
        MouseKind::ScrollUp => match a.focused {
            FocusedPane::Diff => diff_scrolled(a, b, -(MOUSE_SCROLL_DIFF as int)),
            FocusedPane::Sidebar => sidebar_moved(a, b, -(MOUSE_SCROLL_SIDEBAR as int)),
            FocusedPane::Commits => commits_moved(a, b, -(MOUSE_SCROLL_COMMITS as int)),
        },
        MouseKind::Other => b == a,
    }
}

/// Moves the sidebar selection by `by`, clamped to the rows.
pub fn move_sidebar(app: &mut App, by: i32)
    ensures
        sidebar_moved(*old(app), *final(app), by as int),
{
    let len = match app.sidebar_mode {
        SidebarMode::Flat => app.files.len(),
        SidebarMode::Tree => app.tree_rows.len(),
    };
    if len == 0 {
        return;
    }
    let x = app.sidebar_selected as i128 + by as i128;
    let hi = len as i128 - 1;
    let new = if x < 0 {
        0
    } else if x > hi {
        hi
    } else {
        x
    };
    app.sidebar_selected = new as usize;
}

/// Moves the commit selection by `by`, clamped to the commits.
pub fn move_commits(app: &mut App, by: i32)
    ensures
        commits_moved(*old(app), *final(app), by as int),
{
    if app.commits.len() == 0 {
        return;
    }
    let x = app.commits_selected as i128 + by as i128;
    let hi = app.commits.len() as i128 - 1;
    let new = if x < 0 {
        0
    } else if x > hi {
        hi
    } else {
        x
    };
    app.commits_selected = new as usize;
}

/// Scrolls the visible file vertically by `by` rows.
pub fn scroll_diff(app: &mut App, by: i32)
    ensures
        diff_scrolled(*old(app), *final(app), by as int),
{
    let key = match app.diff_visible_path() {
        Some(k) => k,
        None => {
            return;
        },
    };
    let cur: i128 = match app.diff_scroll.get(key.as_str()) {
        Some(v) => *v as i128,
        None => 0,
    };
    let x = cur + by as i128;
    let new = if x > 0 {
        x
    } else {
        0
    };
    app.diff_scroll.insert(key, #[verifier::truncate] (new as u16));
}

/// Scrolls the visible file horizontally by `by` columns.
pub fn scroll_diff_h(app: &mut App, by: i32)
    ensures
        diff_scrolled_h(*old(app), *final(app), by as int),
{
    let key = match app.diff_visible_path() {
        Some(k) => k,
        None => {
            return;
        },
    };
    let cur: i128 = match app.diff_scroll_h.get(key.as_str()) {
        Some(v) => *v as i128,
        None => 0,
    };
    let x = cur + by as i128;
    let new = if x > 0 {
        x
    } else {
        0
    };
    app.diff_scroll_h.insert(key, #[verifier::truncate] (new as u16));
}

/// Drops the toasts at the front that are older than their lifetime at the
/// current clock.
pub fn expire_toasts(app: &mut App)
    ensures
        toasts_expired(*old(app), *final(app)),
{
    let now = app.now_ms;
    let ghost a0 = *app;
    let ghost orig = app.toasts@;
    let ghost mut dropped: int = 0;
    proof {
        assert(orig.skip(0) =~= orig);
    }
    while app.toasts.len() > 0 && now > app.toasts[0].created && now - app.toasts[0].created
        > TOAST_LIFETIME_MS
        invariant
            0 <= dropped <= orig.len(),
            app.toasts@ == orig.skip(dropped),
            leading_expired(orig, now) == dropped + leading_expired(orig.skip(dropped), now),
            now == app.now_ms,
            *app == (App { toasts: app.toasts, ..a0 }),
        decreases app.toasts@.len(),
    {
        proof {
            assert(orig.skip(dropped).drop_first() =~= orig.skip(dropped + 1));
        }
        app.toasts.remove(0);
        proof {
            dropped = dropped + 1;
        }
    }
}

/// The mouse wheel scrolls the focused pane.
pub fn handle_mouse(app: &mut App, kind: MouseKind)
    ensures
        mouse_handled(*old(app), *final(app), kind),
{
    match kind {
        MouseKind::ScrollDown => match app.focused {
            FocusedPane::Diff => scroll_diff(app, MOUSE_SCROLL_DIFF),
            FocusedPane::Sidebar => move_sidebar(app, MOUSE_SCROLL_SIDEBAR),
            FocusedPane::Commits => move_commits(app, MOUSE_SCROLL_COMMITS),
        },
        MouseKind::ScrollUp => match app.focused {
            FocusedPane::Diff => scroll_diff(app, -MOUSE_SCROLL_DIFF),
            FocusedPane::Sidebar => move_sidebar(app, -MOUSE_SCROLL_SIDEBAR),
            FocusedPane::Commits => move_commits(app, -MOUSE_SCROLL_COMMITS),
        },
        MouseKind::Other => {},
    }
}

} // verus!
