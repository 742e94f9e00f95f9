use difiko::app::{
    App, DiffMode, DiffSearch, Effect, FocusedPane, Modal, Screen, SetupField, SidebarMode,
    ToastKind,
};
use difiko::cli::Cli;
use difiko::config::Config;
use difiko::event::actions::{action_allowed, apply_action};
use difiko::event::git_results::handle_git_result;
use difiko::event::loaders::picker_items_for;
use difiko::event::modal::run_command;
use difiko::event::mouse::{expire_toasts, handle_mouse, MouseKind};
use difiko::event::setup::{bootstrap, handle_setup_submit, next_field, prev_field};
use difiko::event::{handle_event, AppEvent, GitResult, GitResultKind};
use difiko::input::{KeyAction, KeyCode, KeyEvent, KeyModifiers};
use difiko::model::{Commit, DiffLine, FileChange, FileStatus};
use difiko::persistence::{OpenResult, Store};

fn cli() -> Cli {
    Cli {
        repo: Some("/repo".into()),
        base: Some("main".into()),
        compare: Some("feat".into()),
        file: None,
        fullscreen: false,
        no_remote_branches: false,
        new_window: false,
        no_word_diff: false,
        no_syntax: false,
    }
}

fn app() -> App {
    let opened = OpenResult { store: Store::fresh("state.json".into()), recovered_backup: None };
    App::new(&cli(), None, Some(opened), Config::default(), 1_000)
}

fn fc(path: &str, lines: Vec<DiffLine>) -> FileChange {
    FileChange {
        path: path.into(),
        old_path: None,
        status: FileStatus::Modified,
        diff_lines: lines,
        additions: 1,
        deletions: 2,
        binary: false,
    }
}

fn commit(hash: &str) -> Commit {
    Commit {
        hash: hash.into(),
        short_hash: hash.into(),
        author: "A".into(),
        date: "2026-01-01".into(),
        subject: "s".into(),
        body: String::new(),
    }
}

fn loaded_app() -> App {
    let mut a = app();
    let id = a.start_diff_load();
    let files = vec![
        fc("b.rs", vec![DiffLine::Context("foo bar".into())]),
        fc("a.rs", vec![DiffLine::Add("Foo".into()), DiffLine::Del("nothing".into())]),
    ];
    handle_git_result(&mut a, GitResult { req_id: id, kind: GitResultKind::Diff(Ok(files)) }, None);
    a
}

#[test]
fn new_app_takes_cli_values_and_asks_for_completions() {
    let a = app();
    assert_eq!(a.repo_path.as_deref(), Some("/repo"));
    assert_eq!(a.repo_input.buffer, "/repo");
    assert_eq!(a.base_branch.as_deref(), Some("main"));
    assert!(matches!(a.screen, Screen::Setup));
    assert!(a.config.word_diff && a.config.syntax_highlight);
    assert_eq!(a.effects.len(), 1);
    assert!(matches!(a.effects[0], Effect::ScanRepoDir));
}

#[test]
fn recovered_backup_is_reported() {
    let opened = OpenResult {
        store: Store::fresh("s.json".into()),
        recovered_backup: Some("s.json.broken-1".into()),
    };
    let mut c = cli();
    c.no_word_diff = true;
    let a = App::new(&c, None, Some(opened), Config::default(), 0);
    assert_eq!(a.toasts.len(), 1);
    assert_eq!(
        a.toasts[0].message,
        "State file was unreadable; backed up to s.json.broken-1 and started fresh"
    );
    assert!(!a.config.word_diff);
}

#[test]
fn toasts_keep_the_newest_five() {
    let mut a = app();
    for i in 0..7 {
        a.toast(format!("t{i}"), ToastKind::Info);
    }
    assert_eq!(a.toasts.len(), 5);
    assert_eq!(a.toasts[0].message, "t2");
    assert_eq!(a.toasts[4].message, "t6");
}

#[test]
fn toasts_expire_after_four_seconds() {
    let mut a = app();
    a.toast("old".into(), ToastKind::Info);
    a.now_ms = 3_000;
    a.toast("new".into(), ToastKind::Info);
    a.now_ms = 5_001;
    expire_toasts(&mut a);
    assert_eq!(a.toasts.len(), 1);
    assert_eq!(a.toasts[0].message, "new");
}

#[test]
fn diff_result_opens_review_and_keeps_full_list() {
    let a = loaded_app();
    assert!(matches!(a.screen, Screen::Review));
    assert_eq!(a.files.len(), 2);
    assert_eq!(a.all_files_backup.as_ref().map(|v| v.len()), Some(2));
    assert!(!a.pending.diff);
    assert_eq!(a.total_additions(), 2);
    assert_eq!(a.total_deletions(), 4);
}

#[test]
fn stale_results_are_dropped() {
    let mut a = app();
    let _old = a.start_diff_load();
    let current = a.start_diff_load();
    handle_git_result(
        &mut a,
        GitResult { req_id: current - 1, kind: GitResultKind::Diff(Ok(vec![fc("x", vec![])])) },
        None,
    );
    assert!(a.files.is_empty());
    assert!(a.pending.diff);
}

#[test]
fn branch_result_preselects_main_and_head() {
    let mut c = cli();
    c.base = None;
    c.compare = None;
    let mut a = App::new(&c, None, None, Config::default(), 0);
    let id = a.start_branches_load();
    handle_git_result(
        &mut a,
        GitResult {
            req_id: id,
            kind: GitResultKind::Branches(Ok(vec!["dev".into(), "master".into(), "x".into()])),
        },
        Some("dev".into()),
    );
    assert_eq!(a.base_branch.as_deref(), Some("master"));
    assert_eq!(a.compare_branch.as_deref(), Some("dev"));
    assert!(!a.pending.branches);
}

#[test]
fn branch_error_is_toasted() {
    let mut a = app();
    let id = a.start_branches_load();
    handle_git_result(
        &mut a,
        GitResult { req_id: id, kind: GitResultKind::Branches(Err("boom".into())) },
        None,
    );
    assert_eq!(a.toasts.last().unwrap().message, "Failed to load branches: boom");
}

#[test]
fn review_round_trips_through_the_store() {
    let mut a = loaded_app();
    a.reviewed.insert("a.rs".to_string());
    a.save_review();
    assert!(matches!(a.effects.last(), Some(Effect::FlushStore)));
    a.reviewed.clear();
    a.load_review();
    assert!(a.reviewed.contains("a.rs"));
    assert_eq!(a.reviewed.len(), 1);
}

#[test]
fn clear_reviewed_needs_a_second_press_within_two_seconds() {
    let mut a = loaded_app();
    a.reviewed.insert("a.rs".to_string());
    a.now_ms = 10_000;
    apply_action(&mut a, KeyAction::ClearReviewed);
    assert_eq!(a.reviewed.len(), 1);
    assert_eq!(a.toasts.last().unwrap().message, "Press R again within 2s to clear reviewed");
    a.now_ms = 11_500;
    apply_action(&mut a, KeyAction::ClearReviewed);
    assert!(a.reviewed.is_empty());
    assert_eq!(a.toasts.last().unwrap().message, "Cleared reviewed set");
    assert!(a.pending_clear_reviewed.is_none());
}

#[test]
fn clear_reviewed_rearms_after_the_window() {
    let mut a = loaded_app();
    a.reviewed.insert("a.rs".to_string());
    a.now_ms = 10_000;
    apply_action(&mut a, KeyAction::ClearReviewed);
    a.now_ms = 12_001;
    apply_action(&mut a, KeyAction::ClearReviewed);
    assert_eq!(a.reviewed.len(), 1);
    assert_eq!(a.pending_clear_reviewed, Some(12_001));
}

#[test]
fn toggle_reviewed_marks_and_unmarks_visible_file() {
    let mut a = loaded_app();
    apply_action(&mut a, KeyAction::ToggleReviewed);
    assert!(a.reviewed.contains("b.rs"));
    apply_action(&mut a, KeyAction::ToggleReviewed);
    assert!(!a.reviewed.contains("b.rs"));
}

#[test]
fn focus_cycles_and_skips_hidden_commits() {
    let mut a = app();
    a.focus_next_pane();
    assert!(matches!(a.focused, FocusedPane::Diff));
    a.focus_next_pane();
    assert!(matches!(a.focused, FocusedPane::Commits));
    a.focus_prev_pane();
    assert!(matches!(a.focused, FocusedPane::Diff));
    a.commits_panel_visible = false;
    a.focus_next_pane();
    assert!(matches!(a.focused, FocusedPane::Sidebar));
    a.focus_prev_pane();
    assert!(matches!(a.focused, FocusedPane::Diff));
}

#[test]
fn setup_fields_cycle() {
    let mut f = SetupField::Repo;
    for _ in 0..5 {
        f = next_field(f);
    }
    assert!(matches!(f, SetupField::Repo));
    assert!(matches!(prev_field(SetupField::Repo), SetupField::Submit));
}

#[test]
fn completions_put_prefix_matches_first_and_hide_dot_dirs() {
    let mut a = app();
    a.repo_input = difiko::app::TextInput::new("/home/Pro");
    a.set_repo_completions(vec![
        "myproj".into(),
        ".profile".into(),
        "Projects".into(),
        "apro".into(),
        "zzz".into(),
        "programs".into(),
    ]);
    assert_eq!(a.repo_completions, vec!["programs", "Projects", "apro", "myproj"]);
    a.repo_completion_index = 1;
    a.accept_repo_completion();
    assert_eq!(a.repo_input.buffer, "/home/Projects/");
    assert_eq!(a.repo_input.cursor, 15);
    assert!(a.repo_dropdown_hidden);
    assert_eq!(a.repo_completion_index, 0);
}

#[test]
fn completion_of_bare_tilde_goes_below_home() {
    let mut a = app();
    a.repo_input = difiko::app::TextInput::new("~");
    a.set_repo_completions(vec!["code".into()]);
    a.accept_repo_completion();
    assert_eq!(a.repo_input.buffer, "~/code/");
}

#[test]
fn completion_cycle_wraps_both_ways() {
    let mut a = app();
    a.repo_input = difiko::app::TextInput::new("");
    a.set_repo_completions(vec!["a".into(), "b".into(), "c".into()]);
    a.cycle_repo_completion(-1);
    assert_eq!(a.repo_completion_index, 2);
    a.cycle_repo_completion(1);
    assert_eq!(a.repo_completion_index, 0);
    a.cycle_repo_completion(7);
    assert_eq!(a.repo_completion_index, 1);
}

#[test]
fn soft_back_keeps_files_and_hard_reset_drops_them() {
    let mut a = loaded_app();
    a.soft_back_to_setup();
    assert!(matches!(a.screen, Screen::Setup));
    assert!(matches!(a.setup_field, SetupField::Compare));
    assert_eq!(a.files.len(), 2);
    let ids = a.req_ids;
    a.hard_reset();
    assert!(a.files.is_empty());
    assert!(a.base_branch.is_none());
    assert!(matches!(a.setup_field, SetupField::Repo));
    assert_eq!(a.req_ids.diff, ids.diff + 1);
}

#[test]
fn setup_submit_on_repo_field_loads_branches() {
    let mut a = app();
    a.repo_input = difiko::app::TextInput::new("  /other  ");
    handle_setup_submit(&mut a);
    assert_eq!(a.repo_path.as_deref(), Some("/other"));
    assert!(a.base_branch.is_none());
    assert!(matches!(a.setup_field, SetupField::Base));
    assert!(matches!(a.effects.last(), Some(Effect::LoadBranches { .. })));
}

#[test]
fn setup_submit_on_empty_repo_field_complains() {
    let mut a = app();
    a.repo_input = difiko::app::TextInput::new("   ");
    handle_setup_submit(&mut a);
    assert_eq!(a.toasts.last().unwrap().message, "Repo path is empty");
}

#[test]
fn bootstrap_with_both_refs_loads_the_diff() {
    let mut a = app();
    bootstrap(&mut a, true, Some("feat".into()));
    let kinds: Vec<&str> = a
        .effects
        .iter()
        .map(|e| match e {
            Effect::LoadBranches { .. } => "branches",
            Effect::LoadDiff { .. } => "diff",
            Effect::LoadCommits { .. } => "commits",
            _ => "other",
        })
        .collect();
    assert_eq!(kinds, vec!["other", "branches", "diff", "commits"]);
}

#[test]
fn bootstrap_fills_compare_from_head_or_focuses_it() {
    let mut c = cli();
    c.compare = None;
    let mut a = App::new(&c, None, None, Config::default(), 0);
    bootstrap(&mut a, true, Some("main".into()));
    assert!(a.compare_branch.is_none());
    assert!(matches!(a.setup_field, SetupField::Compare));
    let mut b = App::new(&c, None, None, Config::default(), 0);
    bootstrap(&mut b, true, Some("topic".into()));
    assert_eq!(b.compare_branch.as_deref(), Some("topic"));
}

#[test]
fn compare_picker_starts_with_working_tree() {
    let mut a = app();
    a.branches = vec!["main".into(), "feat".into()];
    let items = picker_items_for(&a, difiko::app::BranchSlot::Compare);
    assert_eq!(items, vec!["[working tree]", "main", "feat"]);
    apply_action(&mut a, KeyAction::OpenBranchPicker(difiko::app::BranchSlot::Compare));
    match &a.modal {
        Some(Modal::BranchPicker { picker, .. }) => assert_eq!(picker.selected, 2),
        _ => panic!("expected a branch picker"),
    }
}

#[test]
fn palette_commands_change_modes() {
    let mut a = loaded_app();
    run_command(&mut a, "split-diff");
    assert!(matches!(a.diff_mode, DiffMode::Split));
    run_command(&mut a, "tree");
    assert!(matches!(a.sidebar_mode, SidebarMode::Tree));
    assert_eq!(a.tree_rows.len(), 2);
    let toasts_before = a.toasts.len();
    let effects_before = a.effects.len();
    run_command(&mut a, "toggle-word-diff");
    assert!(!a.config.word_diff);
    assert_eq!(a.toasts.len(), toasts_before);
    assert_eq!(a.effects.len(), effects_before + 2);
    assert!(matches!(a.effects[effects_before], Effect::SaveConfig));
    match &a.effects[effects_before + 1] {
        Effect::Notify { message, kind } => {
            assert_eq!(message, "Word diff: off");
            assert_eq!(*kind, ToastKind::Info);
        }
        other => panic!("expected a notice, got {other:?}"),
    }
    run_command(&mut a, "quit");
    assert!(a.should_quit);
}

#[test]
fn config_failure_is_reported_once() {
    let mut a = app();
    a.config_save_failed();
    a.config_save_failed();
    assert_eq!(a.toasts.len(), 1);
    assert_eq!(
        a.toasts[0].message,
        "Could not save config; preferences won't persist this session"
    );
}

#[test]
fn search_finds_matches_and_wraps() {
    let mut a = loaded_app();
    apply_action(&mut a, KeyAction::DiffSearchOpen);
    assert!(matches!(a.focused, FocusedPane::Diff));
    for c in "o".chars() {
        assert!(action_allowed(&a, KeyAction::DiffSearchInput(c)));
        apply_action(&mut a, KeyAction::DiffSearchInput(c));
    }
    let s = a.diff_search.as_ref().unwrap();
    assert_eq!(s.matches.len(), 2);
    assert_eq!(s.current, 0);
    apply_action(&mut a, KeyAction::DiffSearchPrev);
    assert_eq!(a.diff_search.as_ref().unwrap().current, 1);
    apply_action(&mut a, KeyAction::DiffSearchNext);
    assert_eq!(a.diff_search.as_ref().unwrap().current, 0);
    apply_action(&mut a, KeyAction::DiffSearchToggleCase);
    assert!(a.diff_search.as_ref().unwrap().case_sensitive);
}

#[test]
fn search_on_next_file_recomputes() {
    let mut a = loaded_app();
    a.diff_search = Some(DiffSearch { case_sensitive: true, ..DiffSearch::empty() });
    apply_action(&mut a, KeyAction::DiffSearchInput('F'));
    assert_eq!(a.diff_search.as_ref().unwrap().matches.len(), 0);
    apply_action(&mut a, KeyAction::NextFile);
    assert_eq!(a.fullscreen_idx, 1);
    assert_eq!(a.diff_search.as_ref().unwrap().matches.len(), 1);
}

#[test]
fn scrolling_stays_non_negative() {
    let mut a = loaded_app();
    apply_action(&mut a, KeyAction::ScrollDiff(5));
    apply_action(&mut a, KeyAction::ScrollDiff(-8));
    assert_eq!(a.diff_scroll.get("b.rs"), Some(&0));
    apply_action(&mut a, KeyAction::ScrollDiffBottom);
    assert_eq!(a.diff_scroll.get("b.rs"), Some(&u16::MAX));
}

#[test]
fn mouse_wheel_moves_the_focused_pane() {
    let mut a = loaded_app();
    handle_mouse(&mut a, MouseKind::ScrollDown);
    assert_eq!(a.sidebar_selected, 1);
    handle_mouse(&mut a, MouseKind::ScrollUp);
    assert_eq!(a.sidebar_selected, 0);
}

#[test]
fn commit_filter_uses_the_cache_and_restores() {
    let mut a = loaded_app();
    a.commits = vec![commit("c1")];
    apply_action(&mut a, KeyAction::CommitsToggleSelect);
    assert_eq!(a.selected_commit.as_deref(), Some("c1"));
    assert!(matches!(a.effects.last(), Some(Effect::LoadCommitDiff { .. })));
    let id = a.req_ids.commit_diff;
    handle_git_result(
        &mut a,
        GitResult {
            req_id: id,
            kind: GitResultKind::CommitDiff { hash: "c1".into(), result: Ok(vec![fc("only.rs", vec![])]) },
        },
        None,
    );
    assert_eq!(a.files.len(), 1);
    apply_action(&mut a, KeyAction::CommitsToggleSelect);
    assert!(a.selected_commit.is_none());
    assert_eq!(a.files.len(), 2);
    apply_action(&mut a, KeyAction::CommitsToggleSelect);
    assert_eq!(a.files.len(), 1);
    assert_eq!(a.files[0].path, "only.rs");
}

#[test]
fn blame_is_requested_once_for_the_visible_file() {
    let mut a = loaded_app();
    apply_action(&mut a, KeyAction::ToggleBlame);
    let n = a.effects.iter().filter(|e| matches!(e, Effect::LoadBlame { .. })).count();
    assert_eq!(n, 1);
    difiko::event::loaders::ensure_blame_for_visible(&mut a);
    let n2 = a.effects.iter().filter(|e| matches!(e, Effect::LoadBlame { .. })).count();
    assert_eq!(n2, 1);
    match a.effects.iter().rev().find(|e| matches!(e, Effect::LoadBlame { .. })) {
        Some(Effect::LoadBlame { git_ref, file, .. }) => {
            assert_eq!(git_ref, "feat");
            assert_eq!(file, "b.rs");
        }
        _ => panic!("expected a blame request"),
    }
}

#[test]
fn tick_advances_the_spinner() {
    let mut a = app();
    handle_event(&mut a, AppEvent::Tick, None);
    assert_eq!(a.spinner_tick, 1);
    handle_event(
        &mut a,
        AppEvent::Key(KeyEvent::new(KeyCode::Char('c'), KeyModifiers::control_only())),
        None,
    );
    assert!(a.should_quit);
}

#[test]
fn fullscreen_next_and_prev_wrap() {
    let mut a = loaded_app();
    apply_action(&mut a, KeyAction::EnterFullscreen);
    assert!(matches!(a.screen, Screen::Fullscreen));
    apply_action(&mut a, KeyAction::FullscreenPrev);
    assert_eq!(a.fullscreen_idx, 1);
    apply_action(&mut a, KeyAction::FullscreenNext);
    assert_eq!(a.fullscreen_idx, 0);
}

#[test]
fn setup_submit_with_the_same_path_keeps_the_refs() {
    let mut a = app();
    a.branches = vec!["main".into()];
    a.repo_input = difiko::app::TextInput::new("/repo/");
    handle_setup_submit(&mut a);
    assert_eq!(a.repo_path.as_deref(), Some("/repo/"));
    assert_eq!(a.base_branch.as_deref(), Some("main"));
    assert_eq!(a.branches.len(), 1);
}

#[test]
fn search_position_is_clamped_when_matches_shrink() {
    let mut a = app();
    let id = a.start_diff_load();
    let files = vec![fc("x.rs", vec![DiffLine::Context("oo oo o".into())])];
    handle_git_result(&mut a, GitResult { req_id: id, kind: GitResultKind::Diff(Ok(files)) }, None);
    apply_action(&mut a, KeyAction::DiffSearchOpen);
    apply_action(&mut a, KeyAction::DiffSearchInput('o'));
    assert_eq!(a.diff_search.as_ref().unwrap().matches.len(), 5);
    apply_action(&mut a, KeyAction::DiffSearchPrev);
    assert_eq!(a.diff_search.as_ref().unwrap().current, 4);
    apply_action(&mut a, KeyAction::DiffSearchInput('o'));
    let s = a.diff_search.as_ref().unwrap();
    assert_eq!(s.matches.len(), 2);
    assert_eq!(s.current, 1);
    apply_action(&mut a, KeyAction::DiffSearchInput('x'));
    let s = a.diff_search.as_ref().unwrap();
    assert!(s.matches.is_empty());
    assert_eq!(s.current, 0);
}

#[test]
fn completion_cycle_round_trip() {
    let mut a = app();
    a.repo_input = difiko::app::TextInput::new("");
    a.set_repo_completions(vec!["a".into(), "b".into(), "c".into(), "d".into()]);
    a.cycle_repo_completion(1);
    let start = a.repo_completion_index;
    for d in [-9, -1, 0, 2, 13] {
        a.cycle_repo_completion(d);
        a.cycle_repo_completion(-d);
        assert_eq!(a.repo_completion_index, start);
    }
}

#[test]
fn select_by_path_takes_the_first_match_or_stays() {
    let mut a = app();
    let id = a.start_diff_load();
    let files = vec![fc("a.rs", vec![]), fc("b.rs", vec![]), fc("c.rs", vec![])];
    handle_git_result(&mut a, GitResult { req_id: id, kind: GitResultKind::Diff(Ok(files)) }, None);
    a.select_file_by_path("c.rs");
    assert_eq!(a.sidebar_selected, 2);
    assert_eq!(a.current_file().map(|f| f.path.as_str()), Some("c.rs"));
    a.select_file_by_path("missing.rs");
    assert_eq!(a.sidebar_selected, 2);
}

#[test]
fn picker_query_bound_counts_words_not_characters() {
    assert_eq!(difiko::app::picker::count_words(""), 0);
    assert_eq!(difiko::app::picker::count_words("  ab c  d"), 3);
    let mut a = loaded_app();
    apply_action(&mut a, KeyAction::OpenCommandPalette);
    let set_query = |a: &mut App, q: String| match &mut a.modal {
        Some(Modal::CommandPalette { picker }) => {
            picker.query = difiko::app::TextInput::new(&q);
        }
        _ => panic!("expected the command palette"),
    };
    set_query(&mut a, "x".repeat(200_000));
    assert!(action_allowed(&a, KeyAction::ModalInputChar('y')));
    let many = vec!["a"; 65537].join(" ");
    set_query(&mut a, many);
    assert!(action_allowed(&a, KeyAction::ModalInputChar(' ')));
    assert!(action_allowed(&a, KeyAction::ModalInputChar('b')));
    assert!(action_allowed(&a, KeyAction::ModalInputBackspace));
    apply_action(&mut a, KeyAction::ModalInputChar(' '));
    assert!(!action_allowed(&a, KeyAction::ModalInputChar('b')));
}
