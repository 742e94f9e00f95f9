//! Applying a key action to the state.

use crate::app::completion::{completion_accepted, completion_cycled};
use crate::app::picker::{all_indices, items_scorable};
use crate::app::search::{scrolled_to_match, search_recomputed};
use crate::app::state::{
    current_index, hard_reset_done, next_pane, prev_pane, review_saved, selected_for_path,
    soft_backed, toasted, tree_rebuilt, visible_path,
};
use crate::app::{
    next_id, App, BranchSlot, CommitDiffState, DiffMode, DiffSearch, Effect, FocusedPane, Modal,
    PendingOps, Picker, ReqIds, Screen, SetupField, SidebarMode, ToastKind,
};
use crate::event::loaders::{
    ensure_blame_for_visible, blame_ensured, kick_off_load_branches, kick_off_load_range,
    kicked_branches, kicked_range,
};
use crate::event::modal::{
    clear_reviewed_and_report, fresh_branch_picker, handle_modal_accept, modal_accepted,
    edited_text, modal_input, modal_input_ok, modal_input_post, picker_edit_ok, modal_move, modal_moved, open_branch_picker,
    query_edited, syntax_toggled, toggle_syntax_and_report, toggle_word_diff_and_report,
    word_diff_toggled, ModalInputOp,
};
use crate::event::navigate::{
    clear_reviewed, scroll_to_edge, step_file, toggle_commit, toggle_expand, toggle_folder,
    toggle_reviewed,
};
use crate::event::mouse::{
    commits_moved, diff_scrolled, diff_scrolled_h, move_commits, move_sidebar, scroll_diff,
    scroll_diff_h, sidebar_len, sidebar_moved,
};
use crate::event::setup::{handle_setup_submit, next_field, next_field_of, prev_field, prev_field_of, setup_submitted};
use crate::git::strings_view;
use crate::input::KeyAction;
use crate::model::{duplicate_files, files_view, paths_of};
use crate::tree::{TreeRow, TreeRowV};
use vstd::prelude::*;

verus! {

broadcast use vstd::string::group_string_axioms;

/// A second `R` within this many milliseconds clears the reviewed set.
pub const CLEAR_REVIEWED_CONFIRM_MS: u64 = 2000;

/// The commands of the palette, in order.
pub open spec fn palette_items() -> Seq<Seq<char>> {
    seq![
        "branches"@,
        "reload"@,
        "tree"@,
        "flat"@,
        "fullscreen"@,
        "clear-reviewed"@,
        "toggle-commits"@,
        "split-diff"@,
        "unified-diff"@,
        "toggle-word-diff"@,
        "toggle-syntax"@,
        "quit"@,
    ]
}

/// `m` is a fresh picker modal over the given items, with nothing typed.
pub open spec fn fresh_picker(p: Picker, items: Seq<Seq<char>>) -> bool {
    &&& strings_view(p.items@) == items
    &&& p.query.buffer@.len() == 0
    &&& p.filtered@ == all_indices(p.items@.len())
    &&& p.selected == 0
}

/// The path of a directory row.
pub open spec fn dir_path(r: TreeRowV) -> Option<Seq<char>> {
    match r {
        TreeRowV::Dir { path, .. } => Some(path),
        _ => None,
    }
}

/// `s` with `x` added when absent and removed when present.
pub open spec fn toggled(s: Set<Seq<char>>, x: Seq<char>) -> Set<Seq<char>> {
    if s.contains(x) {
        s.remove(x)
    } else {
        s.insert(x)
    }
}

/// What the action needs of the state so that nothing overflows or panics:
/// room for one more character where one is typed, a highlighted completion
/// that exists, and a picker nucleo can score.
pub open spec fn action_ok(a: App, act: KeyAction) -> bool {
    match act {
        KeyAction::SetupTextInput(_) => a.setup_field == SetupField::Repo ==> a.repo_input.cursor
            < usize::MAX,
        KeyAction::RepoCompleteAccept => a.repo_completions@.len() > 0 ==> a.repo_completion_index
            < a.repo_completions@.len(),
        KeyAction::ModalInputChar(c) => modal_input_ok(a, ModalInputOp::Insert(c)),
        KeyAction::ModalInputBackspace => modal_input_ok(a, ModalInputOp::Backspace),
        KeyAction::DiffSearchInput(_) => a.diff_search is Some ==> a.diff_search->0.query.cursor
            < usize::MAX,
        _ => true,
    }
}

/// Actions that leave before the final search refresh when there is nothing
/// to act on.
pub open spec fn step_continues(a: App, act: KeyAction) -> bool {
    match act {
        KeyAction::FullscreenNext | KeyAction::FullscreenPrev | KeyAction::NextFile
        | KeyAction::PrevFile => a.files@.len() > 0,
        KeyAction::CommitsToggleSelect | KeyAction::CommitsToggleExpand => a.commits_selected
            < a.commits@.len(),
        _ => true,
    }
}

/// Views and panes.
pub open spec fn view_step(a: App, b: App, act: KeyAction) -> bool {
    match act {
        KeyAction::Quit => b == (App { should_quit: true, ..a }),
        KeyAction::FocusNextPane => b == (App {
            focused: next_pane(a.focused, a.commits_panel_visible),
            ..a
        }),
        KeyAction::FocusPrevPane => b == (App {
            focused: prev_pane(a.focused, a.commits_panel_visible),
            ..a
        }),
        KeyAction::FocusSidebar => b == (App { focused: FocusedPane::Sidebar, ..a }),
        KeyAction::FocusDiff => b == (App { focused: FocusedPane::Diff, ..a }),
        KeyAction::FocusCommits => if a.commits_panel_visible {
            b == (App { focused: FocusedPane::Commits, ..a })
        } else {
            b == a
        },
        KeyAction::ToggleHelp => b == (App {
            modal: if a.modal matches Some(Modal::HelpOverlay) {
                None
            } else {
                Some(Modal::HelpOverlay)
            },
            ..a
        }),
        KeyAction::OpenCommandPalette => {
            &&& b.modal matches Some(Modal::CommandPalette { picker }) && fresh_picker(picker, palette_items())
            &&& b == (App { modal: b.modal, ..a })
        },
        KeyAction::OpenFileFilter => {
            &&& b.modal matches Some(Modal::FileFilter { picker }) && fresh_picker(picker, paths_of(a.files@))
            &&& b == (App { modal: b.modal, ..a })
        },
        KeyAction::OpenBranchPicker(slot) => {
            &&& b.modal is Some
            &&& fresh_branch_picker(
                b.modal->0,
                a.branches@,
                slot,
                match slot {
                    BranchSlot::Base => a.base_branch,
                    BranchSlot::Compare => a.compare_branch,
                },
            )
            &&& b == (App { modal: b.modal, ..a })
        },
        KeyAction::ToggleSidebarMode => tree_rebuilt(
            App {
                sidebar_mode: match a.sidebar_mode {
                    SidebarMode::Flat => SidebarMode::Tree,
                    SidebarMode::Tree => SidebarMode::Flat,
                },
                sidebar_selected: 0,
                ..a
            },
            b,
        ),
        KeyAction::ToggleCommitsPanel => b == (App {
            commits_panel_visible: !a.commits_panel_visible,
            focused: if a.commits_panel_visible && a.focused == FocusedPane::Commits {
                FocusedPane::Diff
            } else {
                a.focused
            },
            ..a
        }),
        KeyAction::ToggleDiffMode => b == (App {
            diff_mode: match a.diff_mode {
                DiffMode::Unified => DiffMode::Split,
                DiffMode::Split => DiffMode::Unified,
            },
            ..a
        }),
        KeyAction::ToggleBlame => {
            let m = App { blame_enabled: !a.blame_enabled, ..a };
            if m.blame_enabled {
                blame_ensured(m, b)
            } else {
                b == m
            }
        },
        KeyAction::ToggleWordDiff => word_diff_toggled(a, b),
        KeyAction::ToggleSyntaxHighlight => syntax_toggled(a, b),
        KeyAction::EnterFullscreen => match current_index(a) {
            Some(i) => b == (App { fullscreen_idx: i as usize, screen: Screen::Fullscreen, ..a }),
            None => b == a,
        },
        KeyAction::ExitFullscreen => b == (App { screen: Screen::Review, ..a }),
        _ => false,
    }
}

/// Files, scrolling, the reviewed set and commits.
pub open spec fn file_step(a: App, b: App, act: KeyAction) -> bool {
    let n = a.files@.len();
    let here = match current_index(a) {
        Some(i) => i,
        None => 0,
    };
    match act {
        KeyAction::FullscreenNext => if n == 0 {
            b == a
        } else {
            b == (App { fullscreen_idx: ((a.fullscreen_idx + 1) % (n as int)) as usize, ..a })
        },
        KeyAction::FullscreenPrev => if n == 0 {
            b == a
        } else {
            b == (App {
                fullscreen_idx: if a.fullscreen_idx == 0 {
                    (n - 1) as usize
                } else {
                    (a.fullscreen_idx - 1) as usize
                },
                ..a
            })
        },
        KeyAction::ToggleReviewed => match visible_path(a) {
            None => b == a,
            Some(p) => exists|m: App|
                #![trigger review_saved(m, b)]
                m.reviewed@ == toggled(a.reviewed@, p) && m == (App { reviewed: m.reviewed, ..a })
                    && review_saved(m, b),
        },
        KeyAction::ClearReviewed => reviewed_cleared(a, b),
        KeyAction::ReloadDiff => kicked_range(a, b),
        KeyAction::ScrollDiff(d) => diff_scrolled(a, b, d as int),
        KeyAction::ScrollDiffH(d) => diff_scrolled_h(a, b, d as int),
        KeyAction::ScrollDiffTop => match visible_path(a) {
            Some(p) => b.diff_scroll@ == a.diff_scroll@.insert(p, 0) && b == (App {
                diff_scroll: b.diff_scroll,
                ..a
            }),
            None => b == a,
        },
        KeyAction::ScrollDiffBottom => match visible_path(a) {
            Some(p) => b.diff_scroll@ == a.diff_scroll@.insert(p, u16::MAX) && b == (App {
                diff_scroll: b.diff_scroll,
                ..a
            }),
            None => b == a,
        },
        KeyAction::SidebarMove(d) => sidebar_moved(a, b, d as int),
        KeyAction::SidebarTop => b == (App { sidebar_selected: 0, ..a }),
        KeyAction::SidebarBottom => if sidebar_len(a) > 0 {
            b == (App { sidebar_selected: (sidebar_len(a) - 1) as usize, ..a })
        } else {
            b == a
        },
        KeyAction::SidebarOpenFile => b == (App {
            focused: FocusedPane::Diff,
            fullscreen_idx: match current_index(a) {
                Some(i) => i as usize,
                None => a.fullscreen_idx,
            },
            ..a
        }),
        KeyAction::SidebarToggleFolder => if a.sidebar_selected < a.tree_rows@.len() && dir_path(
            a.tree_rows@[a.sidebar_selected as int]@,
        ) is Some {
            let p = dir_path(a.tree_rows@[a.sidebar_selected as int]@)->0;
            exists|m: App|
                #![trigger tree_rebuilt(m, b)]
                m.sidebar_collapsed@ == toggled(a.sidebar_collapsed@, p) && m == (App {
                    sidebar_collapsed: m.sidebar_collapsed,
                    ..a
                }) && tree_rebuilt(m, b)
        } else {
            b == a
        },
        KeyAction::NextFile => moved_to_file(a, b, true),
        KeyAction::PrevFile => moved_to_file(a, b, false),
        KeyAction::CommitsMove(d) => commits_moved(a, b, d as int),
        KeyAction::CommitsToggleSelect => commit_toggled(a, b),
        KeyAction::CommitsToggleExpand => if a.commits_selected >= a.commits@.len() {
            b == a
        } else {
            let h = a.commits@[a.commits_selected as int].hash;
            if a.expanded_commit is Some && a.expanded_commit->0@ == h@ {
                b == (App { expanded_commit: None, ..a })
            } else {
                b == (App { expanded_commit: Some(h), ..a })
            }
        },
        _ => false,
    }
}

/// `R`: a second press within the confirmation window clears the reviewed
/// set, saves it and says so; a first press arms the window and says how
/// to confirm.
pub open spec fn reviewed_cleared(a: App, b: App) -> bool {
    if a.pending_clear_reviewed matches Some(t) && (a.now_ms <= t
        || a.now_ms - t <= CLEAR_REVIEWED_CONFIRM_MS) {
        exists|m1: App, m2: App|
            #![trigger review_saved(m1, m2)]
            m1.reviewed@ == Set::<Seq<char>>::empty() && m1 == (App {
                pending_clear_reviewed: None,
                reviewed: m1.reviewed,
                ..a
            }) && review_saved(m1, m2) && toasted(
                m2,
                b,
                "Cleared reviewed set"@,
                ToastKind::Info,
            )
    } else {
        toasted(
            App { pending_clear_reviewed: Some(a.now_ms), ..a },
            b,
            "Press R again within 2s to clear reviewed"@,
            ToastKind::Info,
        )
    }
}

/// `J`/`K`: select the next (or previous) file, staying at the ends, and
/// put fullscreen on it.
pub open spec fn moved_to_file(a: App, b: App, next: bool) -> bool {
    let n = a.files@.len();
    let here = match current_index(a) {
        Some(i) => i,
        None => 0,
    };
    if n == 0 {
        b == a
    } else {
        let target = if next {
            if here + 1 < n {
                here + 1
            } else {
                n - 1
            }
        } else {
            if here > 0 {
                here - 1
            } else {
                0
            }
        };
        b == (App {
            sidebar_selected: selected_for_path(a, a.files@[target].path@),
            fullscreen_idx: target as usize,
            ..a
        })
    }
}

/// Enter on a commit: filter the files to that commit (loading its diff
/// when not cached), or, on the filtered commit, go back to all files.
pub open spec fn commit_toggled(a: App, b: App) -> bool {
    if a.commits_selected >= a.commits@.len() {
        b == a
    } else {
        let h = a.commits@[a.commits_selected as int].hash;
        if a.selected_commit is Some && a.selected_commit->0@ == h@ {
            exists|m: App, r: App|
                #![trigger tree_rebuilt(m, r)]
                (if a.all_files_backup is Some {
                    files_view(m.files@) == files_view(a.all_files_backup->0@)
                } else {
                    m.files == a.files
                }) && m == (App { selected_commit: None, files: m.files, ..a }) && tree_rebuilt(m, r)
                    && b == (App { sidebar_selected: 0, ..r })
        } else {
            let m = App { selected_commit: Some(h), ..a };
            if a.commit_diff_cache@.contains_key(h@) {
                exists|m2: App, r: App|
                    #![trigger tree_rebuilt(m2, r)]
                    files_view(m2.files@) == files_view(a.commit_diff_cache@[h@]@) && m2 == (App {
                        files: m2.files,
                        ..m
                    }) && tree_rebuilt(m2, r) && b == (App { sidebar_selected: 0, ..r })
            } else if a.repo_path is Some {
                let id = next_id(a.req_ids.commit_diff);
                &&& b.effects@ == a.effects@.push(
                    Effect::LoadCommitDiff { req_id: id, repo: a.repo_path->0, hash: h },
                )
                &&& b == (App {
                    req_ids: ReqIds { commit_diff: id, ..a.req_ids },
                    pending: PendingOps { commit_diff: CommitDiffState::Loading(h), ..a.pending },
                    effects: b.effects,
                    ..m
                })
            } else {
                b == m
            }
        }
    }
}

/// The Setup screen and the way back to it.
pub open spec fn setup_step(a: App, b: App, act: KeyAction) -> bool {
    let on_repo = a.setup_field == SetupField::Repo;
    match act {
        KeyAction::SetupNextField => b == (App { setup_field: next_field_of(a.setup_field), ..a }),
        KeyAction::SetupPrevField => b == (App { setup_field: prev_field_of(a.setup_field), ..a }),
        KeyAction::SetupToggleRemote => kicked_branches(
            App { include_remote_branches: !a.include_remote_branches, ..a },
            b,
        ),
        KeyAction::SetupSubmit => setup_submitted(a, b),
        KeyAction::BackToSetupSoft => soft_backed(a, b),
        KeyAction::SetupReset => hard_reset_done(a, b),
        KeyAction::SetupTextInput(c) => if on_repo {
            &&& query_edited(a.repo_input, b.repo_input, ModalInputOp::Insert(c))
            &&& b.effects@ == a.effects@.push(Effect::ScanRepoDir)
            &&& b == (App {
                repo_input: b.repo_input,
                repo_dropdown_hidden: false,
                effects: b.effects,
                ..a
            })
        } else {
            b == a
        },
        KeyAction::SetupBackspace => if on_repo {
            &&& query_edited(a.repo_input, b.repo_input, ModalInputOp::Backspace)
            &&& b.effects@ == a.effects@.push(Effect::ScanRepoDir)
            &&& b == (App {
                repo_input: b.repo_input,
                repo_dropdown_hidden: false,
                effects: b.effects,
                ..a
            })
        } else {
            b == a
        },
        KeyAction::SetupCursorLeft => if on_repo {
            &&& b.repo_input.buffer == a.repo_input.buffer
            &&& b.repo_input.cursor == (if a.repo_input.cursor > 0 {
                a.repo_input.cursor - 1
            } else {
                0
            })
            &&& b == (App { repo_input: b.repo_input, ..a })
        } else {
            b == a
        },
        KeyAction::SetupCursorRight => if on_repo {
            &&& b.repo_input.buffer == a.repo_input.buffer
            &&& b.repo_input.cursor == (if a.repo_input.cursor < a.repo_input.buffer@.len() {
                a.repo_input.cursor + 1
            } else {
                a.repo_input.cursor as int
            })
            &&& b == (App { repo_input: b.repo_input, ..a })
        } else {
            b == a
        },
        KeyAction::RepoCompleteAccept => completion_accepted(a, b),
        KeyAction::RepoCompleteCyclePrev => completion_cycled(
            App { repo_dropdown_hidden: false, ..a },
            b,
            -1,
        ),
        KeyAction::RepoCompleteCycleNext => completion_cycled(
            App { repo_dropdown_hidden: false, ..a },
            b,
            1,
        ),
        _ => false,
    }
}

/// Modals and the search bar.
pub open spec fn modal_step(a: App, b: App, act: KeyAction) -> bool {
    match act {
        KeyAction::ModalClose => b == (App { modal: None, ..a }),
        KeyAction::ModalAccept => match a.modal {
            Some(m) => modal_accepted(App { modal: None, ..a }, b, m),
            None => b == a,
        },
        KeyAction::ModalMoveUp => modal_moved(a, b, true),
        KeyAction::ModalMoveDown => modal_moved(a, b, false),
        KeyAction::ModalInputChar(c) => modal_input_post(a, b, ModalInputOp::Insert(c)),
        KeyAction::ModalInputBackspace => modal_input_post(a, b, ModalInputOp::Backspace),
        KeyAction::DiffSearchOpen => {
            &&& b.diff_search is Some
            &&& a.diff_search is Some ==> b.diff_search == a.diff_search
            &&& a.diff_search is None ==> {
                let s = b.diff_search->0;
                s.query.buffer@.len() == 0 && s.query.cursor == 0 && s.matches@.len() == 0
                    && s.current == 0 && !s.case_sensitive
            }
            &&& b == (App { diff_search: b.diff_search, focused: FocusedPane::Diff, ..a })
        },
        KeyAction::DiffSearchClose => b == (App { diff_search: None, ..a }),
        KeyAction::DiffSearchInput(c) => query_then_refresh(a, b, ModalInputOp::Insert(c)),
        KeyAction::DiffSearchBackspace => query_then_refresh(a, b, ModalInputOp::Backspace),
        KeyAction::DiffSearchNext => match a.diff_search {
            Some(s) => if s.matches@.len() > 0 {
                scrolled_to_match(
                    App {
                        diff_search: Some(
                            DiffSearch {
                                current: ((s.current + 1) % (s.matches@.len() as int)) as usize,
                                ..s
                            },
                        ),
                        ..a
                    },
                    b,
                )
            } else {
                scrolled_to_match(a, b)
            },
            None => b == a,
        },
        KeyAction::DiffSearchPrev => match a.diff_search {
            Some(s) => if s.matches@.len() > 0 {
                scrolled_to_match(
                    App {
                        diff_search: Some(
                            DiffSearch {
                                current: if s.current == 0 {
                                    (s.matches@.len() - 1) as usize
                                } else {
                                    (s.current - 1) as usize
                                },
                                ..s
                            },
                        ),
                        ..a
                    },
                    b,
                )
            } else {
                scrolled_to_match(a, b)
            },
            None => b == a,
        },
        KeyAction::DiffSearchToggleCase => match a.diff_search {
            Some(s) => exists|m: App|
                #![trigger scrolled_to_match(m, b)]
                search_recomputed(
                    App {
                        diff_search: Some(DiffSearch { case_sensitive: !s.case_sensitive, ..s }),
                        ..a
                    },
                    m,
                ) && scrolled_to_match(m, b),
            None => b == a,
        },
        _ => false,
    }
}

/// The search query edited, then the matches recomputed and the diff
/// scrolled to the current one.
pub open spec fn query_then_refresh(a: App, b: App, op: ModalInputOp) -> bool {
    match a.diff_search {
        Some(s) => exists|m1: App, m2: App|
            #![trigger search_recomputed(m1, m2)]
            query_edited(s.query, m1.diff_search->0.query, op) && m1.diff_search is Some
                && m1 == (App {
                diff_search: Some(DiffSearch { query: m1.diff_search->0.query, ..s }),
                ..a
            }) && search_recomputed(m1, m2) && scrolled_to_match(m2, b),
        None => b == a,
    }
}

/// `b` is `a` after the action itself, before the final search refresh.
pub open spec fn step_post(a: App, b: App, act: KeyAction) -> bool {
    match act {
        KeyAction::Quit | KeyAction::FocusNextPane | KeyAction::FocusPrevPane
        | KeyAction::FocusSidebar | KeyAction::FocusDiff | KeyAction::FocusCommits
        | KeyAction::ToggleHelp | KeyAction::OpenCommandPalette | KeyAction::OpenFileFilter
        | KeyAction::OpenBranchPicker(_) | KeyAction::ToggleSidebarMode
        | KeyAction::ToggleCommitsPanel | KeyAction::ToggleDiffMode | KeyAction::ToggleBlame
        | KeyAction::ToggleWordDiff | KeyAction::ToggleSyntaxHighlight | KeyAction::EnterFullscreen
        | KeyAction::ExitFullscreen => view_step(a, b, act),
        KeyAction::SetupNextField | KeyAction::SetupPrevField | KeyAction::SetupToggleRemote
        | KeyAction::SetupSubmit | KeyAction::BackToSetupSoft | KeyAction::SetupReset
        | KeyAction::SetupTextInput(_) | KeyAction::SetupBackspace | KeyAction::SetupCursorLeft
        | KeyAction::SetupCursorRight | KeyAction::RepoCompleteAccept
        | KeyAction::RepoCompleteCyclePrev | KeyAction::RepoCompleteCycleNext => setup_step(
            a,
            b,
            act,
        ),
        KeyAction::ModalClose | KeyAction::ModalAccept | KeyAction::ModalMoveUp
        | KeyAction::ModalMoveDown | KeyAction::ModalInputChar(_) | KeyAction::ModalInputBackspace
        | KeyAction::DiffSearchOpen | KeyAction::DiffSearchClose | KeyAction::DiffSearchInput(_)
        | KeyAction::DiffSearchBackspace | KeyAction::DiffSearchNext | KeyAction::DiffSearchPrev
        | KeyAction::DiffSearchToggleCase => modal_step(a, b, act),
        _ => file_step(a, b, act),
    }
}

/// `b` is `a` after applying the action: the action itself, then, unless it
/// had nothing to act on, the search matches refreshed when the bar is open.
pub open spec fn action_applied(a: App, b: App, act: KeyAction) -> bool {
    exists|m: App|
        #![trigger step_post(a, m, act)]
        step_post(a, m, act) && if step_continues(a, act) && m.diff_search is Some {
            search_recomputed(m, b)
        } else {
            b == m
        }
}


fn palette_strings() -> (r: Vec<String>)
    ensures
        strings_view(r@) == palette_items(),
{
    let mut v: Vec<String> = Vec::new();
    v.push(String::from_str("branches"));
    v.push(String::from_str("reload"));
    v.push(String::from_str("tree"));
    v.push(String::from_str("flat"));
    v.push(String::from_str("fullscreen"));
    v.push(String::from_str("clear-reviewed"));
    v.push(String::from_str("toggle-commits"));
    v.push(String::from_str("split-diff"));
    v.push(String::from_str("unified-diff"));
    v.push(String::from_str("toggle-word-diff"));
    v.push(String::from_str("toggle-syntax"));
    v.push(String::from_str("quit"));
    assert(strings_view(v@) =~= palette_items());
    v
}

fn file_paths(app: &App) -> (r: Vec<String>)
    ensures
        strings_view(r@) == paths_of(app.files@),
{
    let mut v: Vec<String> = Vec::new();
    let mut i: usize = 0;
    while i < app.files.len()
        invariant
            i <= app.files@.len(),
            strings_view(v@) == paths_of(app.files@).take(i as int),
        decreases app.files@.len() - i,
    {
        let ghost before = v@;
        v.push(app.files[i].path.clone());
        assert(strings_view(v@) =~= strings_view(before).push(app.files@[i as int].path@));
        i += 1;
        assert(strings_view(v@) =~= paths_of(app.files@).take(i as int));
    }
    assert(paths_of(app.files@).take(i as int) =~= paths_of(app.files@));
    v
}

fn view_action(app: &mut App, act: KeyAction)
    requires
        match act {
            KeyAction::Quit | KeyAction::FocusNextPane | KeyAction::FocusPrevPane
            | KeyAction::FocusSidebar | KeyAction::FocusDiff | KeyAction::FocusCommits
            | KeyAction::ToggleHelp | KeyAction::OpenCommandPalette | KeyAction::OpenFileFilter
            | KeyAction::OpenBranchPicker(_) | KeyAction::ToggleSidebarMode
            | KeyAction::ToggleCommitsPanel | KeyAction::ToggleDiffMode | KeyAction::ToggleBlame
            | KeyAction::ToggleWordDiff | KeyAction::ToggleSyntaxHighlight
            | KeyAction::EnterFullscreen | KeyAction::ExitFullscreen => true,
            _ => false,
        },
    ensures
        view_step(*old(app), *final(app), act),
{
    match act {
        KeyAction::Quit => app.should_quit = true,
        KeyAction::FocusNextPane => app.focus_next_pane(),
        KeyAction::FocusPrevPane => app.focus_prev_pane(),
        KeyAction::FocusSidebar => app.focused = FocusedPane::Sidebar,
        KeyAction::FocusDiff => app.focused = FocusedPane::Diff,
        KeyAction::FocusCommits => {
            if app.commits_panel_visible {
                app.focused = FocusedPane::Commits;
            }
        },
        KeyAction::ToggleHelp => {
            let is_help = match &app.modal {
                Some(Modal::HelpOverlay) => true,
                _ => false,
            };
            app.modal = if is_help {
                None
            } else {
                Some(Modal::HelpOverlay)
            };
        },
        KeyAction::OpenCommandPalette => {
            let items = palette_strings();
            let picker = Picker::new(items);
            app.modal = Some(Modal::CommandPalette { picker });
        },
        KeyAction::OpenFileFilter => {
            let items = file_paths(app);
            let picker = Picker::new(items);
            app.modal = Some(Modal::FileFilter { picker });
        },
        KeyAction::OpenBranchPicker(slot) => open_branch_picker(app, slot),
        KeyAction::ToggleSidebarMode => {
            app.sidebar_mode = match app.sidebar_mode {
                SidebarMode::Flat => SidebarMode::Tree,
                SidebarMode::Tree => SidebarMode::Flat,
            };
            app.sidebar_selected = 0;
            app.rebuild_tree();
        },
        KeyAction::ToggleCommitsPanel => {
            app.commits_panel_visible = !app.commits_panel_visible;
            if !app.commits_panel_visible && matches!(app.focused, FocusedPane::Commits) {
                app.focused = FocusedPane::Diff;
            }
        },
        KeyAction::ToggleDiffMode => {
            app.diff_mode = match app.diff_mode {
                DiffMode::Unified => DiffMode::Split,
                DiffMode::Split => DiffMode::Unified,
            };
        },
        KeyAction::ToggleBlame => {
            app.blame_enabled = !app.blame_enabled;
            if app.blame_enabled {
                ensure_blame_for_visible(app);
            }
        },
        KeyAction::ToggleWordDiff => toggle_word_diff_and_report(app),
        KeyAction::ToggleSyntaxHighlight => toggle_syntax_and_report(app),
        KeyAction::EnterFullscreen => {
            if let Some(idx) = app.current_file_index() {
                app.fullscreen_idx = idx;
                app.screen = Screen::Fullscreen;
            }
        },
        KeyAction::ExitFullscreen => app.screen = Screen::Review,
        _ => {},
    }
}

fn file_action(app: &mut App, act: KeyAction)
    requires
        match act {
            KeyAction::FullscreenNext | KeyAction::FullscreenPrev | KeyAction::ToggleReviewed
            | KeyAction::ClearReviewed | KeyAction::ReloadDiff | KeyAction::ScrollDiff(_)
            | KeyAction::ScrollDiffH(_) | KeyAction::ScrollDiffTop | KeyAction::ScrollDiffBottom
            | KeyAction::SidebarMove(_) | KeyAction::SidebarTop | KeyAction::SidebarBottom
            | KeyAction::SidebarOpenFile | KeyAction::SidebarToggleFolder | KeyAction::NextFile
            | KeyAction::PrevFile | KeyAction::CommitsMove(_) | KeyAction::CommitsToggleSelect
            | KeyAction::CommitsToggleExpand => true,
            _ => false,
        },
    ensures
        file_step(*old(app), *final(app), act),
{
    match act {
        KeyAction::FullscreenNext => {
            if app.files.len() > 0 {
                app.fullscreen_idx = ((app.fullscreen_idx as u128 + 1) % (app.files.len() as u128)) as usize;
            }
        },
        KeyAction::FullscreenPrev => {
            if app.files.len() > 0 {
                if app.fullscreen_idx == 0 {
                    app.fullscreen_idx = app.files.len() - 1;
                } else {
                    app.fullscreen_idx = app.fullscreen_idx - 1;
                }
            }
        },
        KeyAction::ToggleReviewed => toggle_reviewed(app),
        KeyAction::ClearReviewed => clear_reviewed(app),
        KeyAction::ReloadDiff => kick_off_load_range(app),
        KeyAction::ScrollDiff(d) => scroll_diff(app, d),
        KeyAction::ScrollDiffH(d) => scroll_diff_h(app, d),
        KeyAction::ScrollDiffTop => scroll_to_edge(app, true),
        KeyAction::ScrollDiffBottom => scroll_to_edge(app, false),
        KeyAction::SidebarMove(d) => move_sidebar(app, d),
        KeyAction::SidebarTop => app.sidebar_selected = 0,
        KeyAction::SidebarBottom => {
            let len = match app.sidebar_mode {
                SidebarMode::Flat => app.files.len(),
                SidebarMode::Tree => app.tree_rows.len(),
            };
            if len > 0 {
                app.sidebar_selected = len - 1;
            }
        },
        KeyAction::SidebarOpenFile => {
            let cur = app.current_file_index();
            app.focused = FocusedPane::Diff;
            if let Some(idx) = cur {
                app.fullscreen_idx = idx;
            }
        },
        KeyAction::SidebarToggleFolder => toggle_folder(app),
        KeyAction::NextFile => step_file(app, true),
        KeyAction::PrevFile => step_file(app, false),
        KeyAction::CommitsMove(d) => move_commits(app, d),
        KeyAction::CommitsToggleSelect => toggle_commit(app),
        KeyAction::CommitsToggleExpand => toggle_expand(app),
        _ => {},
    }
}


fn setup_action(app: &mut App, act: KeyAction)
    requires
        match act {
            KeyAction::SetupNextField | KeyAction::SetupPrevField | KeyAction::SetupToggleRemote
            | KeyAction::SetupSubmit | KeyAction::BackToSetupSoft | KeyAction::SetupReset
            | KeyAction::SetupTextInput(_) | KeyAction::SetupBackspace
            | KeyAction::SetupCursorLeft | KeyAction::SetupCursorRight
            | KeyAction::RepoCompleteAccept | KeyAction::RepoCompleteCyclePrev
            | KeyAction::RepoCompleteCycleNext => true,
            _ => false,
        },
        action_ok(*old(app), act),
    ensures
        setup_step(*old(app), *final(app), act),
{
    match act {
        KeyAction::SetupNextField => app.setup_field = next_field(app.setup_field),
        KeyAction::SetupPrevField => app.setup_field = prev_field(app.setup_field),
        KeyAction::SetupToggleRemote => {
            app.include_remote_branches = !app.include_remote_branches;
            kick_off_load_branches(app);
        },
        KeyAction::SetupSubmit => handle_setup_submit(app),
        KeyAction::BackToSetupSoft => app.soft_back_to_setup(),
        KeyAction::SetupReset => app.hard_reset(),
        KeyAction::SetupTextInput(c) => {
            if matches!(app.setup_field, SetupField::Repo) {
                app.repo_input.insert(c);
                app.repo_dropdown_hidden = false;
                app.update_repo_completions();
            }
        },
        KeyAction::SetupBackspace => {
            if matches!(app.setup_field, SetupField::Repo) {
                app.repo_input.backspace();
                app.repo_dropdown_hidden = false;
                app.update_repo_completions();
            }
        },
        KeyAction::SetupCursorLeft => {
            if matches!(app.setup_field, SetupField::Repo) {
                app.repo_input.move_left();
            }
        },
        KeyAction::SetupCursorRight => {
            if matches!(app.setup_field, SetupField::Repo) {
                app.repo_input.move_right();
            }
        },
        KeyAction::RepoCompleteAccept => app.accept_repo_completion(),
        KeyAction::RepoCompleteCyclePrev => {
            app.repo_dropdown_hidden = false;
            app.cycle_repo_completion(-1);
        },
        KeyAction::RepoCompleteCycleNext => {
            app.repo_dropdown_hidden = false;
            app.cycle_repo_completion(1);
        },
        _ => {},
    }
}

fn search_edit(app: &mut App, op: ModalInputOp)
    requires
        op is Insert ==> (old(app).diff_search is Some ==> old(app).diff_search->0.query.cursor < usize::MAX),
    ensures
        query_then_refresh(*old(app), *final(app), op),
{
    if app.diff_search.is_none() {
        return;
    }
    let mut ds: Option<DiffSearch> = None;
    std::mem::swap(&mut ds, &mut app.diff_search);
    if let Some(mut search) = ds {
        match op {
            ModalInputOp::Insert(c) => search.query.insert(c),
            ModalInputOp::Backspace => search.query.backspace(),
        }
        app.diff_search = Some(search);
    }
    let ghost m1 = *app;
    app.recompute_diff_search();
    let ghost m2 = *app;
    app.scroll_to_current_match();
    assert(search_recomputed(m1, m2));
}

fn search_step(app: &mut App, forward: bool)
    ensures
        modal_step(
            *old(app),
            *final(app),
            if forward {
                KeyAction::DiffSearchNext
            } else {
                KeyAction::DiffSearchPrev
            },
        ),
{
    if app.diff_search.is_none() {
        return;
    }
    let mut ds: Option<DiffSearch> = None;
    std::mem::swap(&mut ds, &mut app.diff_search);
    if let Some(mut search) = ds {
        let n = search.matches.len();
        if n > 0 {
            if forward {
                search.current = ((search.current as u128 + 1) % (n as u128)) as usize;
            } else if search.current == 0 {
                search.current = n - 1;
            } else {
                search.current = search.current - 1;
            }
        }
        app.diff_search = Some(search);
    }
    app.scroll_to_current_match();
}

fn search_toggle_case(app: &mut App)
    ensures
        modal_step(*old(app), *final(app), KeyAction::DiffSearchToggleCase),
{
    if app.diff_search.is_none() {
        return;
    }
    let mut ds: Option<DiffSearch> = None;
    std::mem::swap(&mut ds, &mut app.diff_search);
    if let Some(mut search) = ds {
        search.case_sensitive = !search.case_sensitive;
        app.diff_search = Some(search);
    }
    app.recompute_diff_search();
    let ghost m = *app;
    app.scroll_to_current_match();
    assert(scrolled_to_match(m, *app));
}

fn accept_modal(app: &mut App)
    ensures
        modal_step(*old(app), *final(app), KeyAction::ModalAccept),
{
    let ghost a = *app;
    let mut m: Option<Modal> = None;
    std::mem::swap(&mut m, &mut app.modal);
    if let Some(modal) = m {
        assert(*app == (App { modal: None, ..a }));
        handle_modal_accept(app, modal);
    }
}

fn open_search(app: &mut App)
    ensures
        modal_step(*old(app), *final(app), KeyAction::DiffSearchOpen),
{
    if app.diff_search.is_none() {
        app.diff_search = Some(DiffSearch::empty());
    }
    app.focused = FocusedPane::Diff;
}

fn modal_action(app: &mut App, act: KeyAction)
    requires
        match act {
            KeyAction::ModalClose | KeyAction::ModalAccept | KeyAction::ModalMoveUp
            | KeyAction::ModalMoveDown | KeyAction::ModalInputChar(_)
            | KeyAction::ModalInputBackspace | KeyAction::DiffSearchOpen
            | KeyAction::DiffSearchClose | KeyAction::DiffSearchInput(_)
            | KeyAction::DiffSearchBackspace | KeyAction::DiffSearchNext
            | KeyAction::DiffSearchPrev | KeyAction::DiffSearchToggleCase => true,
            _ => false,
        },
        action_ok(*old(app), act),
    ensures
        modal_step(*old(app), *final(app), act),
{
    match act {
        KeyAction::ModalClose => app.modal = None,
        KeyAction::ModalAccept => accept_modal(app),
        KeyAction::ModalMoveUp => modal_move(app, -1),
        KeyAction::ModalMoveDown => modal_move(app, 1),
        KeyAction::ModalInputChar(c) => modal_input(app, ModalInputOp::Insert(c)),
        KeyAction::ModalInputBackspace => modal_input(app, ModalInputOp::Backspace),
        KeyAction::DiffSearchOpen => open_search(app),
        KeyAction::DiffSearchClose => app.diff_search = None,
        KeyAction::DiffSearchInput(c) => search_edit(app, ModalInputOp::Insert(c)),
        KeyAction::DiffSearchBackspace => search_edit(app, ModalInputOp::Backspace),
        KeyAction::DiffSearchNext => search_step(app, true),
        KeyAction::DiffSearchPrev => search_step(app, false),
        KeyAction::DiffSearchToggleCase => search_toggle_case(app),
        _ => {},
    }
}

/// Applies a key action: the action itself, then, unless it had nothing to
/// act on, the search matches are refreshed when the search bar is open
/// (the visible file may have changed).
pub fn apply_action(app: &mut App, act: KeyAction)
    requires
        action_ok(*old(app), act),
    ensures
        action_applied(*old(app), *final(app), act),
{
    let go_on = match act {
        KeyAction::FullscreenNext | KeyAction::FullscreenPrev | KeyAction::NextFile
        | KeyAction::PrevFile => app.files.len() > 0,
        KeyAction::CommitsToggleSelect | KeyAction::CommitsToggleExpand => app.commits_selected
            < app.commits.len(),
        _ => true,
    };
    match act {
        KeyAction::Quit | KeyAction::FocusNextPane | KeyAction::FocusPrevPane
        | KeyAction::FocusSidebar | KeyAction::FocusDiff | KeyAction::FocusCommits
        | KeyAction::ToggleHelp | KeyAction::OpenCommandPalette | KeyAction::OpenFileFilter
        | KeyAction::OpenBranchPicker(_) | KeyAction::ToggleSidebarMode
        | KeyAction::ToggleCommitsPanel | KeyAction::ToggleDiffMode | KeyAction::ToggleBlame
        | KeyAction::ToggleWordDiff | KeyAction::ToggleSyntaxHighlight | KeyAction::EnterFullscreen
        | KeyAction::ExitFullscreen => view_action(app, act),
        KeyAction::SetupNextField | KeyAction::SetupPrevField | KeyAction::SetupToggleRemote
        | KeyAction::SetupSubmit | KeyAction::BackToSetupSoft | KeyAction::SetupReset
        | KeyAction::SetupTextInput(_) | KeyAction::SetupBackspace | KeyAction::SetupCursorLeft
        | KeyAction::SetupCursorRight | KeyAction::RepoCompleteAccept
        | KeyAction::RepoCompleteCyclePrev | KeyAction::RepoCompleteCycleNext => setup_action(
            app,
            act,
        ),
        KeyAction::ModalClose | KeyAction::ModalAccept | KeyAction::ModalMoveUp
        | KeyAction::ModalMoveDown | KeyAction::ModalInputChar(_) | KeyAction::ModalInputBackspace
        | KeyAction::DiffSearchOpen | KeyAction::DiffSearchClose | KeyAction::DiffSearchInput(_)
        | KeyAction::DiffSearchBackspace | KeyAction::DiffSearchNext | KeyAction::DiffSearchPrev
        | KeyAction::DiffSearchToggleCase => modal_action(app, act),
        _ => file_action(app, act),
    }
    let ghost m = *app;
    if go_on && app.diff_search.is_some() {
        app.recompute_diff_search();
    }
    assert(step_post(*old(app), m, act));
}

/// Whether the state allows the action (see `action_ok`).
pub fn action_allowed(app: &App, act: KeyAction) -> (r: bool)
    ensures
        r == action_ok(*app, act),
{
    match act {
        KeyAction::SetupTextInput(_) => !matches!(app.setup_field, SetupField::Repo)
            || app.repo_input.cursor < usize::MAX,
        KeyAction::RepoCompleteAccept => app.repo_completions.len() == 0
            || app.repo_completion_index < app.repo_completions.len(),
        KeyAction::ModalInputChar(c) => modal_input_allowed(app, ModalInputOp::Insert(c)),
        KeyAction::ModalInputBackspace => modal_input_allowed(app, ModalInputOp::Backspace),
        KeyAction::DiffSearchInput(_) => match &app.diff_search {
            Some(s) => s.query.cursor < usize::MAX,
            None => true,
        },
        _ => true,
    }
}

fn picker_scorable(p: &Picker, op: ModalInputOp) -> (r: bool)
    ensures
        r == picker_edit_ok(*p, op),
{
    let mut q = p.query.duplicate();
    match op {
        ModalInputOp::Insert(c) => {
            if q.cursor == usize::MAX {
                return false;
            }
            q.insert(c);
        },
        ModalInputOp::Backspace => q.backspace(),
    }
    assert(q.buffer@ == edited_text(p.query, op));
    if crate::app::picker::count_words(q.buffer.as_str()) > 65537 {
        return false;
    }
    let mut i: usize = 0;
    while i < p.items.len()
        invariant
            i <= p.items@.len(),
            forall|j: int| 0 <= j < i ==> (#[trigger] p.items@[j])@.len() <= u32::MAX,
        decreases p.items@.len() - i,
    {
        let v = crate::text::chars_of(p.items[i].as_str());
        if v.len() > u32::MAX as usize {
            return false;
        }
        i += 1;
    }
    true
}

fn modal_input_allowed(app: &App, op: ModalInputOp) -> (r: bool)
    ensures
        r == modal_input_ok(*app, op),
{
    match &app.modal {
        Some(Modal::BranchPicker { picker, .. }) => picker_scorable(picker, op),
        Some(Modal::FileFilter { picker }) => picker_scorable(picker, op),
        Some(Modal::CommandPalette { picker }) => picker_scorable(picker, op),
        _ => true,
    }
}

/// In fullscreen, the next file wraps from the last to the first and the
/// previous one from the first to the last, so Next followed by Prev comes
/// back to the same file; with no files both leave the state as it was.
pub proof fn lemma_fullscreen_next_then_prev(a: App, b: App, c: App)
    requires
        a.files@.len() <= usize::MAX,
        a.fullscreen_idx < a.files@.len() || a.files@.len() == 0,
        action_applied(a, b, KeyAction::FullscreenNext),
        action_applied(b, c, KeyAction::FullscreenPrev),
    ensures
        a.files@.len() == 0 ==> b == a && c == a,
        a.files@.len() > 0 ==> {
            &&& b.fullscreen_idx == (a.fullscreen_idx + 1) % (a.files@.len() as int)
            &&& c.fullscreen_idx == a.fullscreen_idx
            &&& b.files == a.files
            &&& c.files == a.files
        },
{
    let n = a.files@.len() as int;
    let m1 = choose|m: App| #[trigger]
        step_post(a, m, KeyAction::FullscreenNext) && if step_continues(
            a,
            KeyAction::FullscreenNext,
        ) && m.diff_search is Some {
            search_recomputed(m, b)
        } else {
            b == m
        };
    assert(b.fullscreen_idx == m1.fullscreen_idx && b.files == m1.files);
    let m2 = choose|m: App| #[trigger]
        step_post(b, m, KeyAction::FullscreenPrev) && if step_continues(
            b,
            KeyAction::FullscreenPrev,
        ) && m.diff_search is Some {
            search_recomputed(m, c)
        } else {
            c == m
        };
    assert(c.fullscreen_idx == m2.fullscreen_idx && c.files == m2.files);
    if n > 0 {
        let i = a.fullscreen_idx as int;
        if i + 1 < n {
            assert((i + 1) % n == i + 1) by {
                vstd::arithmetic::div_mod::lemma_small_mod((i + 1) as nat, n as nat);
            }
        } else {
            assert((i + 1) % n == 0) by {
                vstd::arithmetic::div_mod::lemma_mod_self_0(n);
            }
        }
    }
}

} // verus!
