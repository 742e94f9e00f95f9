use difiko::app::{App, Modal, Picker, Screen, SetupField};
use difiko::cli::Cli;
use difiko::config::Config;
use difiko::input::{dispatch_key, KeyAction, KeyCode, KeyEvent, KeyModifiers};

fn key(code: KeyCode) -> KeyEvent {
    KeyEvent::new(code, KeyModifiers::none())
}

fn key_mod(code: KeyCode, m: KeyModifiers) -> KeyEvent {
    KeyEvent::new(code, m)
}

fn empty_app() -> App {
    let cli = Cli {
        repo: None,
        base: None,
        compare: None,
        file: None,
        fullscreen: false,
        no_remote_branches: false,
        new_window: false,
        no_word_diff: false,
        no_syntax: false,
    };
    App::new(&cli, None, None, Config::default(), 0)
}

fn fullscreen_q_exits() {
    let mut app = empty_app();
    app.screen = Screen::Fullscreen;
    let action = dispatch_key(&app, key(KeyCode::Char('q'))).expect("action");
    assert!(matches!(action, KeyAction::ExitFullscreen));
}

fn fullscreen_esc() {
    let mut app = empty_app();
    app.screen = Screen::Fullscreen;
    let action = dispatch_key(&app, key(KeyCode::Esc)).expect("action");
    assert!(matches!(action, KeyAction::ExitFullscreen));
}

fn review_q() {
    let mut app = empty_app();
    app.screen = Screen::Review;
    let action = dispatch_key(&app, key(KeyCode::Char('q'))).expect("action");
    assert!(matches!(action, KeyAction::Quit));
}

fn ctrl_c_everywhere() {
    let mut app = empty_app();
    for screen in [Screen::Setup, Screen::Review, Screen::Fullscreen] {
        app.screen = screen;
        let action = dispatch_key(&app, key_mod(KeyCode::Char('c'), KeyModifiers::control_only()))
            .expect("action");
        assert!(matches!(action, KeyAction::Quit), "expected Quit on {:?}", screen);
    }
}

fn modal_traps() {
    let mut app = empty_app();
    app.screen = Screen::Review;
    app.modal = Some(Modal::FileFilter { picker: Picker::new(vec!["a".into()]) });
    let action = dispatch_key(&app, key(KeyCode::Char('q'))).expect("action");
    assert!(matches!(action, KeyAction::ModalInputChar('q')));
}

fn setup_repo_q() {
    let mut app = empty_app();
    app.screen = Screen::Setup;
    app.setup_field = SetupField::Repo;
    let action = dispatch_key(&app, key(KeyCode::Char('q'))).expect("action");
    assert!(matches!(action, KeyAction::SetupTextInput('q')));
}

fn setup_remote_q() {
    let mut app = empty_app();
    app.screen = Screen::Setup;
    app.setup_field = SetupField::Remote;
    let action = dispatch_key(&app, key(KeyCode::Char('q'))).expect("action");
    assert!(matches!(action, KeyAction::Quit));
}

fn help_overlay_q() {
    let mut app = empty_app();
    app.screen = Screen::Review;
    app.modal = Some(Modal::HelpOverlay);
    let action = dispatch_key(&app, key(KeyCode::Char('q'))).expect("action");
    assert!(matches!(action, KeyAction::ModalClose));
}

#[test]
fn bindings_fullscreen_q_exits_not_quits() {
    fullscreen_q_exits();
}

#[test]
fn mod_fullscreen_q_exits_not_quits() {
    fullscreen_q_exits();
}

#[test]
fn bindings_fullscreen_esc_exits() {
    fullscreen_esc();
}

#[test]
fn mod_fullscreen_esc_exits() {
    fullscreen_esc();
}

#[test]
fn bindings_review_q_quits() {
    review_q();
}

#[test]
fn mod_review_q_quits() {
    review_q();
}

#[test]
fn bindings_ctrl_c_quits_everywhere() {
    ctrl_c_everywhere();
}

#[test]
fn mod_ctrl_c_quits_everywhere() {
    ctrl_c_everywhere();
}

#[test]
fn bindings_modal_traps_keys_before_screen() {
    modal_traps();
}

#[test]
fn mod_modal_traps_keys_before_screen() {
    modal_traps();
}

#[test]
fn bindings_setup_repo_field_q_is_typeable() {
    setup_repo_q();
}

#[test]
fn mod_setup_repo_field_q_is_typeable() {
    setup_repo_q();
}

#[test]
fn bindings_setup_remote_field_q_quits() {
    setup_remote_q();
}

#[test]
fn mod_setup_remote_field_q_quits() {
    setup_remote_q();
}

#[test]
fn bindings_modal_help_overlay_q_closes() {
    help_overlay_q();
}

#[test]
fn mod_modal_help_overlay_q_closes() {
    help_overlay_q();
}

#[test]
fn ctrl_f_and_ctrl_b_page_scroll_in_review() {
    let mut app = empty_app();
    app.screen = Screen::Review;
    let ctrl = KeyModifiers::control_only();
    app.focused = difiko::app::FocusedPane::Diff;
    assert_eq!(dispatch_key(&app, key_mod(KeyCode::Char('f'), ctrl)), Some(KeyAction::ScrollDiff(20)));
    assert_eq!(dispatch_key(&app, key_mod(KeyCode::Char('b'), ctrl)), Some(KeyAction::ScrollDiff(-20)));
    app.focused = difiko::app::FocusedPane::Sidebar;
    assert_eq!(dispatch_key(&app, key_mod(KeyCode::Char('f'), ctrl)), Some(KeyAction::ScrollDiff(20)));
    app.screen = Screen::Fullscreen;
    assert_eq!(dispatch_key(&app, key_mod(KeyCode::Char('f'), ctrl)), Some(KeyAction::DiffSearchOpen));
}

#[test]
fn ctrl_letters_ignore_case() {
    let mut app = empty_app();
    app.screen = Screen::Review;
    let mut ctrl_shift = KeyModifiers::control_only();
    ctrl_shift.shift = true;
    assert_eq!(dispatch_key(&app, key_mod(KeyCode::Char('C'), ctrl_shift)), Some(KeyAction::Quit));
    assert_eq!(dispatch_key(&app, key_mod(KeyCode::Char('D'), ctrl_shift)), Some(KeyAction::ScrollDiff(10)));
}

#[test]
fn search_bar_captures_typing() {
    let mut app = empty_app();
    app.screen = Screen::Fullscreen;
    app.diff_search = Some(difiko::app::DiffSearch::empty());
    assert_eq!(dispatch_key(&app, key(KeyCode::Char('j'))), Some(KeyAction::DiffSearchInput('j')));
    assert_eq!(
        dispatch_key(&app, key_mod(KeyCode::Enter, KeyModifiers::shift_only())),
        Some(KeyAction::DiffSearchPrev)
    );
    assert_eq!(
        dispatch_key(&app, key_mod(KeyCode::Char('c'), KeyModifiers::alt_only())),
        Some(KeyAction::DiffSearchToggleCase)
    );
}

#[test]
fn setup_base_field_opens_picker_on_printable_keys() {
    let mut app = empty_app();
    app.setup_field = SetupField::Base;
    assert_eq!(
        dispatch_key(&app, key(KeyCode::Char('x'))),
        Some(KeyAction::OpenBranchPicker(difiko::app::BranchSlot::Base))
    );
    assert_eq!(dispatch_key(&app, key_mod(KeyCode::Char('x'), KeyModifiers::alt_only())), None);
}

#[test]
fn review_sidebar_and_commit_keys() {
    let mut app = empty_app();
    app.screen = Screen::Review;
    assert_eq!(dispatch_key(&app, key(KeyCode::Char('j'))), Some(KeyAction::SidebarMove(1)));
    app.focused = difiko::app::FocusedPane::Commits;
    assert_eq!(dispatch_key(&app, key(KeyCode::Enter)), Some(KeyAction::CommitsToggleSelect));
    assert_eq!(dispatch_key(&app, key(KeyCode::Char('R'))), Some(KeyAction::ClearReviewed));
    assert_eq!(dispatch_key(&app, key(KeyCode::Esc)), Some(KeyAction::BackToSetupSoft));
}
