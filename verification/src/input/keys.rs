//! The key tables of each screen.

use crate::app::{App, BranchSlot, FocusedPane, Modal, Screen, SetupField};
use crate::text::{ascii_upper, to_ascii_upper};
use vstd::prelude::*;

verus! {

/// Half-page diff scroll for Ctrl+D / Ctrl+U.
pub const DIFF_SCROLL_HALF: i32 = 10;

/// Full page diff scroll for Ctrl+F/B/J/K and PgUp/PgDn.
pub const DIFF_SCROLL_PAGE: i32 = 20;

/// Horizontal scroll step for h/l and the arrow keys in the diff pane.
pub const DIFF_SCROLL_H_STEP: i32 = 8;

/// The keys the bindings tell apart; every other key is `Other`.
#[derive(Debug, Clone, Copy, PartialEq, Eq, Structural)]
pub enum KeyCode {
    Char(char),
    F(u8),
    Esc,
    Enter,
    Tab,
    BackTab,
    Backspace,
    Up,
    Down,
    Left,
    Right,
    PageUp,
    PageDown,
    Other,
}

/// The modifier keys held.
#[derive(Debug, Clone, Copy, PartialEq, Eq, Structural)]
pub struct KeyModifiers {
    pub shift: bool,
    pub control: bool,
    pub alt: bool,
    pub super_key: bool,
    pub hyper: bool,
    pub meta: bool,
}

#[derive(Debug, Clone, Copy, PartialEq, Eq, Structural)]
pub struct KeyEvent {
    pub code: KeyCode,
    pub modifiers: KeyModifiers,
}

#[derive(Debug, Clone, Copy, PartialEq, Eq, Structural)]
pub enum KeyAction {
    Quit,
    ToggleHelp,
    OpenCommandPalette,
    FocusNextPane,
    FocusPrevPane,
    FocusSidebar,
    FocusDiff,
    FocusCommits,
    ToggleSidebarMode,
    ToggleCommitsPanel,
    ToggleDiffMode,
    ToggleReviewed,
    ToggleBlame,
    ToggleWordDiff,
    ToggleSyntaxHighlight,
    ClearReviewed,
    EnterFullscreen,
    ExitFullscreen,
    FullscreenNext,
    FullscreenPrev,
    OpenFileFilter,
    OpenBranchPicker(BranchSlot),
    ReloadDiff,
    ScrollDiff(i32),
    ScrollDiffH(i32),
    ScrollDiffTop,
    ScrollDiffBottom,
    SidebarMove(i32),
    SidebarTop,
    SidebarBottom,
    SidebarOpenFile,
    SidebarToggleFolder,
    NextFile,
    PrevFile,
    CommitsMove(i32),
    CommitsToggleSelect,
    CommitsToggleExpand,
    SetupNextField,
    SetupPrevField,
    SetupToggleRemote,
    SetupSubmit,
    SetupReset,
    /// Back to Setup from Review, keeping branches, files and the reviewed
    /// set; a second Esc on Setup performs the full reset.
    BackToSetupSoft,
    SetupTextInput(char),
    SetupBackspace,
    SetupCursorLeft,
    SetupCursorRight,
    RepoCompleteAccept,
    RepoCompleteCyclePrev,
    RepoCompleteCycleNext,
    ModalClose,
    ModalAccept,
    ModalMoveUp,
    ModalMoveDown,
    ModalInputChar(char),
    ModalInputBackspace,
    DiffSearchOpen,
    DiffSearchClose,
    DiffSearchInput(char),
    DiffSearchBackspace,
    DiffSearchNext,
    DiffSearchPrev,
    DiffSearchToggleCase,
}

impl KeyModifiers {
    /// No modifier held.
    pub fn none() -> (r: KeyModifiers)
        ensures
            r.is_none(),
    {
        KeyModifiers { shift: false, control: false, alt: false, super_key: false, hyper: false, meta: false }
    }

    /// Control alone.
    pub fn control_only() -> (r: KeyModifiers)
        ensures
            r.control && !r.shift && !r.alt && !r.super_key && !r.hyper && !r.meta,
    {
        KeyModifiers { shift: false, control: true, alt: false, super_key: false, hyper: false, meta: false }
    }

    /// Shift alone.
    pub fn shift_only() -> (r: KeyModifiers)
        ensures
            r.is_shift_only(),
    {
        KeyModifiers { shift: true, control: false, alt: false, super_key: false, hyper: false, meta: false }
    }

    /// Alt alone.
    pub fn alt_only() -> (r: KeyModifiers)
        ensures
            r.alt && !r.shift && !r.control && !r.super_key && !r.hyper && !r.meta,
    {
        KeyModifiers { shift: false, control: false, alt: true, super_key: false, hyper: false, meta: false }
    }

    pub open spec fn is_none(self) -> bool {
        !self.shift && !self.control && !self.alt && !self.super_key && !self.hyper && !self.meta
    }

    pub open spec fn is_shift_only(self) -> bool {
        self.shift && !self.control && !self.alt && !self.super_key && !self.hyper && !self.meta
    }

    /// Whether no modifier is held.
    pub fn is_empty(&self) -> (r: bool)
        ensures
            r == self.is_none(),
    {
        !self.shift && !self.control && !self.alt && !self.super_key && !self.hyper && !self.meta
    }
}

impl KeyEvent {
    pub fn new(code: KeyCode, modifiers: KeyModifiers) -> (r: KeyEvent)
        ensures
            r.code == code,
            r.modifiers == modifiers,
    {
        KeyEvent { code, modifiers }
    }
}

/// The key is Control plus the character `c`, in either case.
pub open spec fn is_ctrl(key: KeyEvent, c: char) -> bool {
    key.modifiers.control && match key.code {
        KeyCode::Char(k) => ascii_upper(k) == ascii_upper(c),
        _ => false,
    }
}

/// Keys shared by Review and Fullscreen: `q` quits, `?`/F1 toggles help,
/// `:` opens the command palette.
pub open spec fn global_of(key: KeyEvent) -> Option<KeyAction> {
    match key.code {
        KeyCode::Char('q') => if key.modifiers.is_none() {
            Some(KeyAction::Quit)
        } else {
            None
        },
        KeyCode::F(1) => Some(KeyAction::ToggleHelp),
        KeyCode::Char('?') => Some(KeyAction::ToggleHelp),
        KeyCode::Char(':') => Some(KeyAction::OpenCommandPalette),
        _ => None,
    }
}

/// Keys while a modal is open; `overlay` is the help overlay or an error.
pub open spec fn modal_of(overlay: bool, key: KeyEvent) -> Option<KeyAction> {
    match key.code {
        KeyCode::Esc => Some(KeyAction::ModalClose),
        KeyCode::Char('q') if overlay => Some(KeyAction::ModalClose),
        KeyCode::Char('?') if overlay => Some(KeyAction::ModalClose),
        KeyCode::Enter if !overlay => Some(KeyAction::ModalAccept),
        KeyCode::Up => Some(KeyAction::ModalMoveUp),
        KeyCode::Down => Some(KeyAction::ModalMoveDown),
        KeyCode::Backspace if !overlay => Some(KeyAction::ModalInputBackspace),
        KeyCode::Char(c) if !overlay => if c == 'c' && key.modifiers.control {
            Some(KeyAction::Quit)
        } else {
            Some(KeyAction::ModalInputChar(c))
        },
        _ => None,
    }
}

/// Keys while the diff search bar is open.
pub open spec fn search_of(key: KeyEvent) -> Option<KeyAction> {
    if is_ctrl(key, 'c') {
        Some(KeyAction::Quit)
    } else if key.modifiers.alt && key.code == KeyCode::Char('c') {
        Some(KeyAction::DiffSearchToggleCase)
    } else if is_ctrl(key, 'f') || is_ctrl(key, 'g') || is_ctrl(key, 'n') {
        Some(KeyAction::DiffSearchNext)
    } else if is_ctrl(key, 'p') {
        Some(KeyAction::DiffSearchPrev)
    } else {
        match key.code {
            KeyCode::Esc => Some(KeyAction::DiffSearchClose),
            KeyCode::Enter => if key.modifiers.shift {
                Some(KeyAction::DiffSearchPrev)
            } else {
                Some(KeyAction::DiffSearchNext)
            },
            KeyCode::F(3) => if key.modifiers.shift {
                Some(KeyAction::DiffSearchPrev)
            } else {
                Some(KeyAction::DiffSearchNext)
            },
            KeyCode::Backspace => Some(KeyAction::DiffSearchBackspace),
            KeyCode::Char(c) => Some(KeyAction::DiffSearchInput(c)),
            _ => None,
        }
    }
}

/// `c` is a printable ASCII character other than space.
pub open spec fn is_ascii_graphic(c: char) -> bool {
    '!' <= c <= '~'
}

/// Keys on the Setup screen.
pub open spec fn setup_of(field: SetupField, dropdown_open: bool, key: KeyEvent) -> Option<KeyAction> {
    let typing = key.modifiers.is_none() || key.modifiers.is_shift_only();
    if is_ctrl(key, 'c') {
        Some(KeyAction::Quit)
    } else if key.code == KeyCode::F(1) {
        Some(KeyAction::ToggleHelp)
    } else if key.code == KeyCode::Esc {
        Some(KeyAction::SetupReset)
    } else if key.code == KeyCode::Tab {
        Some(KeyAction::SetupNextField)
    } else if key.code == KeyCode::BackTab {
        Some(KeyAction::SetupPrevField)
    } else if field != SetupField::Repo && key.code == KeyCode::Char('?') {
        Some(KeyAction::ToggleHelp)
    } else if field != SetupField::Repo && key.code == KeyCode::Char('q') && key.modifiers.is_none() {
        Some(KeyAction::Quit)
    } else {
        match field {
            SetupField::Repo => match key.code {
                KeyCode::Enter => if dropdown_open {
                    Some(KeyAction::RepoCompleteAccept)
                } else {
                    Some(KeyAction::SetupSubmit)
                },
                KeyCode::Right if key.modifiers.shift => Some(KeyAction::RepoCompleteAccept),
                KeyCode::Up => Some(KeyAction::RepoCompleteCyclePrev),
                KeyCode::Down => Some(KeyAction::RepoCompleteCycleNext),
                KeyCode::Left => Some(KeyAction::SetupCursorLeft),
                KeyCode::Right => Some(KeyAction::SetupCursorRight),
                KeyCode::Backspace => Some(KeyAction::SetupBackspace),
                KeyCode::Char(c) if typing => Some(KeyAction::SetupTextInput(c)),
                _ => None,
            },
            SetupField::Base | SetupField::Compare => if typing {
                let slot = if field == SetupField::Base {
                    BranchSlot::Base
                } else {
                    BranchSlot::Compare
                };
                match key.code {
                    KeyCode::Enter | KeyCode::Down | KeyCode::Up => Some(KeyAction::OpenBranchPicker(slot)),
                    KeyCode::Char(c) => if c == ' ' || c == 'j' || c == 'k' || is_ascii_graphic(c) {
                        Some(KeyAction::OpenBranchPicker(slot))
                    } else {
                        None
                    },
                    _ => None,
                }
            } else {
                None
            },
            SetupField::Remote => if typing {
                match key.code {
                    KeyCode::Enter => Some(KeyAction::SetupToggleRemote),
                    KeyCode::Char(c) => if c == ' ' || c == 'r' {
                        Some(KeyAction::SetupToggleRemote)
                    } else {
                        None
                    },
                    _ => None,
                }
            } else {
                None
            },
            SetupField::Submit => if typing {
                match key.code {
                    KeyCode::Enter => Some(KeyAction::SetupSubmit),
                    KeyCode::Char(' ') => Some(KeyAction::SetupSubmit),
                    _ => None,
                }
            } else {
                None
            },
        }
    }
}

/// Page and half-page scrolling with Control, shared by Review and
/// Fullscreen; `ctrl_f` is what Control-F stands for.
pub open spec fn ctrl_scroll_of(key: KeyEvent, ctrl_f: KeyAction, with_ctrl_b: bool) -> Option<KeyAction> {
    if is_ctrl(key, 'd') {
        Some(KeyAction::ScrollDiff(DIFF_SCROLL_HALF))
    } else if is_ctrl(key, 'u') {
        Some(KeyAction::ScrollDiff((-DIFF_SCROLL_HALF) as i32))
    } else if is_ctrl(key, 'f') {
        Some(ctrl_f)
    } else if with_ctrl_b && is_ctrl(key, 'b') {
        Some(KeyAction::ScrollDiff((-DIFF_SCROLL_PAGE) as i32))
    } else if is_ctrl(key, 'j') {
        Some(KeyAction::ScrollDiff(DIFF_SCROLL_PAGE))
    } else if is_ctrl(key, 'k') {
        Some(KeyAction::ScrollDiff((-DIFF_SCROLL_PAGE) as i32))
    } else if key.modifiers.control && key.code == KeyCode::Down {
        Some(KeyAction::ScrollDiff(DIFF_SCROLL_PAGE))
    } else if key.modifiers.control && key.code == KeyCode::Up {
        Some(KeyAction::ScrollDiff((-DIFF_SCROLL_PAGE) as i32))
    } else {
        None
    }
}

/// The Review pane table, after the shared keys.
pub open spec fn review_table_of(focused: FocusedPane, key: KeyEvent) -> Option<KeyAction> {
    let plain = key.modifiers.is_none();
    let code = key.code;
    if code == KeyCode::Esc {
        Some(KeyAction::BackToSetupSoft)
    } else if code == KeyCode::Tab {
        Some(KeyAction::FocusNextPane)
    } else if code == KeyCode::BackTab {
        Some(KeyAction::FocusPrevPane)
    } else if code == KeyCode::Char('1') && plain {
        Some(KeyAction::FocusSidebar)
    } else if code == KeyCode::Char('2') && plain {
        Some(KeyAction::FocusDiff)
    } else if code == KeyCode::Char('3') && plain {
        Some(KeyAction::FocusCommits)
    } else if code == KeyCode::Char('m') && plain {
        Some(KeyAction::ToggleReviewed)
    } else if code == KeyCode::Char('R') {
        Some(KeyAction::ClearReviewed)
    } else if code == KeyCode::Char('r') && plain {
        Some(KeyAction::ReloadDiff)
    } else if code == KeyCode::Char('B') {
        Some(KeyAction::OpenBranchPicker(BranchSlot::Compare))
    } else if code == KeyCode::Char('t') && plain {
        Some(KeyAction::ToggleSidebarMode)
    } else if code == KeyCode::Char('c') && plain {
        Some(KeyAction::ToggleCommitsPanel)
    } else if code == KeyCode::Char('u') && plain {
        Some(KeyAction::ToggleDiffMode)
    } else if code == KeyCode::Char('b') && plain {
        Some(KeyAction::ToggleBlame)
    } else if code == KeyCode::Char('W') {
        Some(KeyAction::ToggleWordDiff)
    } else if code == KeyCode::Char('S') {
        Some(KeyAction::ToggleSyntaxHighlight)
    } else if code == KeyCode::Char('F') {
        Some(KeyAction::EnterFullscreen)
    } else if code == KeyCode::Char('/') && plain {
        Some(KeyAction::OpenFileFilter)
    } else if code == KeyCode::Char('J') {
        Some(KeyAction::NextFile)
    } else if code == KeyCode::Char('K') {
        Some(KeyAction::PrevFile)
    } else {
        match focused {
            FocusedPane::Sidebar => match code {
                KeyCode::Char('j') | KeyCode::Down => Some(KeyAction::SidebarMove(1)),
                KeyCode::Char('k') | KeyCode::Up => Some(KeyAction::SidebarMove(-1i32)),
                KeyCode::Char('g') => Some(KeyAction::SidebarTop),
                KeyCode::Char('G') => Some(KeyAction::SidebarBottom),
                KeyCode::Enter | KeyCode::Char('l') => Some(KeyAction::SidebarOpenFile),
                KeyCode::Char(' ') => Some(KeyAction::SidebarToggleFolder),
                _ => None,
            },
            FocusedPane::Diff => match code {
                KeyCode::Char('j') | KeyCode::Down => Some(KeyAction::ScrollDiff(1)),
                KeyCode::Char('k') | KeyCode::Up => Some(KeyAction::ScrollDiff(-1i32)),
                KeyCode::Char('h') | KeyCode::Left => Some(KeyAction::ScrollDiffH((-DIFF_SCROLL_H_STEP) as i32)),
                KeyCode::Char('l') | KeyCode::Right => Some(KeyAction::ScrollDiffH(DIFF_SCROLL_H_STEP)),
                KeyCode::PageDown => Some(KeyAction::ScrollDiff(DIFF_SCROLL_PAGE)),
                KeyCode::PageUp => Some(KeyAction::ScrollDiff((-DIFF_SCROLL_PAGE) as i32)),
                KeyCode::Char('g') => Some(KeyAction::ScrollDiffTop),
                KeyCode::Char('G') => Some(KeyAction::ScrollDiffBottom),
                _ => None,
            },
            FocusedPane::Commits => match code {
                KeyCode::Char('j') | KeyCode::Down => Some(KeyAction::CommitsMove(1)),
                KeyCode::Char('k') | KeyCode::Up => Some(KeyAction::CommitsMove(-1i32)),
                KeyCode::Enter => Some(KeyAction::CommitsToggleSelect),
                KeyCode::Char(' ') => Some(KeyAction::CommitsToggleExpand),
                _ => None,
            },
        }
    }
}

/// Keys on the Review screen.
pub open spec fn review_of(focused: FocusedPane, key: KeyEvent) -> Option<KeyAction> {
    let ctrl_f = KeyAction::ScrollDiff(DIFF_SCROLL_PAGE);
    if is_ctrl(key, 'c') {
        Some(KeyAction::Quit)
    } else if global_of(key) is Some {
        global_of(key)
    } else if ctrl_scroll_of(key, ctrl_f, true) is Some {
        ctrl_scroll_of(key, ctrl_f, true)
    } else {
        review_table_of(focused, key)
    }
}

/// The Fullscreen table, after the shared keys.
pub open spec fn fullscreen_table_of(key: KeyEvent) -> Option<KeyAction> {
    match key.code {
        KeyCode::Char('j') | KeyCode::Down => Some(KeyAction::ScrollDiff(1)),
        KeyCode::Char('k') | KeyCode::Up => Some(KeyAction::ScrollDiff(-1i32)),
        KeyCode::Char('h') | KeyCode::Left => Some(KeyAction::ScrollDiffH((-DIFF_SCROLL_H_STEP) as i32)),
        KeyCode::Char('l') | KeyCode::Right => Some(KeyAction::ScrollDiffH(DIFF_SCROLL_H_STEP)),
        KeyCode::PageDown => Some(KeyAction::ScrollDiff(DIFF_SCROLL_PAGE)),
        KeyCode::PageUp => Some(KeyAction::ScrollDiff((-DIFF_SCROLL_PAGE) as i32)),
        KeyCode::Char('g') => Some(KeyAction::ScrollDiffTop),
        KeyCode::Char('G') => Some(KeyAction::ScrollDiffBottom),
        KeyCode::Char('J') | KeyCode::Char(' ') => Some(KeyAction::FullscreenNext),
        KeyCode::Char('K') => Some(KeyAction::FullscreenPrev),
        KeyCode::Char('m') => Some(KeyAction::ToggleReviewed),
        KeyCode::Char('u') => Some(KeyAction::ToggleDiffMode),
        KeyCode::Char('b') => Some(KeyAction::ToggleBlame),
        KeyCode::Char('W') => Some(KeyAction::ToggleWordDiff),
        KeyCode::Char('S') => Some(KeyAction::ToggleSyntaxHighlight),
        _ => None,
    }
}

/// Keys on the Fullscreen screen: `q` and Esc leave fullscreen.
pub open spec fn fullscreen_of(key: KeyEvent) -> Option<KeyAction> {
    if is_ctrl(key, 'c') {
        Some(KeyAction::Quit)
    } else if key.code == KeyCode::Esc || (key.code == KeyCode::Char('q') && key.modifiers.is_none()) {
        Some(KeyAction::ExitFullscreen)
    } else if global_of(key) is Some {
        global_of(key)
    } else if ctrl_scroll_of(key, KeyAction::DiffSearchOpen, false) is Some {
        ctrl_scroll_of(key, KeyAction::DiffSearchOpen, false)
    } else {
        fullscreen_table_of(key)
    }
}

/// The modal is an overlay (help or error) rather than a picker.
pub open spec fn is_overlay(m: Option<Modal>) -> bool {
    match m {
        Some(Modal::HelpOverlay) => true,
        Some(Modal::Error { .. }) => true,
        _ => false,
    }
}

/// The action a key stands for in state `a`: an open modal takes the key
/// first, then the search bar (on Review with the diff focused, or on
/// Fullscreen), then the screen's table.
pub open spec fn dispatch_of(a: App, key: KeyEvent) -> Option<KeyAction> {
    if a.modal is Some {
        modal_of(is_overlay(a.modal), key)
    } else if a.diff_search is Some && a.screen != Screen::Setup && (a.screen == Screen::Fullscreen
        || a.focused == FocusedPane::Diff) && search_of(key) is Some {
        search_of(key)
    } else {
        match a.screen {
            Screen::Setup => setup_of(
                a.setup_field,
                !a.repo_dropdown_hidden && a.repo_completions@.len() > 0,
                key,
            ),
            Screen::Review => review_of(a.focused, key),
            Screen::Fullscreen => fullscreen_of(key),
        }
    }
}

/// Whether `key` is Control plus `c`, ignoring the letter's case.
pub fn ctrl(key: &KeyEvent, c: char) -> (r: bool)
    ensures
        r == is_ctrl(*key, c),
{
    key.modifiers.control && match key.code {
        KeyCode::Char(k) => to_ascii_upper(k) == to_ascii_upper(c),
        _ => false,
    }
}

/// The keys shared by Review and Fullscreen.
pub fn global_key(key: KeyEvent) -> (r: Option<KeyAction>)
    ensures
        r == global_of(key),
{
    match key.code {
        KeyCode::Char('q') => if key.modifiers.is_empty() {
            Some(KeyAction::Quit)
        } else {
            None
        },
        KeyCode::F(1) => Some(KeyAction::ToggleHelp),
        KeyCode::Char('?') => Some(KeyAction::ToggleHelp),
        KeyCode::Char(':') => Some(KeyAction::OpenCommandPalette),
        _ => None,
    }
}

/// Keys while a modal is open.
pub fn modal_key(app: &App, key: KeyEvent) -> (r: Option<KeyAction>)
    ensures
        r == modal_of(is_overlay(app.modal), key),
{
    let overlay = match &app.modal {
        Some(Modal::HelpOverlay) => true,
        Some(Modal::Error { .. }) => true,
        _ => false,
    };
    match key.code {
        KeyCode::Esc => Some(KeyAction::ModalClose),
        KeyCode::Char('q') if overlay => Some(KeyAction::ModalClose),
        KeyCode::Char('?') if overlay => Some(KeyAction::ModalClose),
        KeyCode::Enter if !overlay => Some(KeyAction::ModalAccept),
        KeyCode::Up => Some(KeyAction::ModalMoveUp),
        KeyCode::Down => Some(KeyAction::ModalMoveDown),
        KeyCode::Backspace if !overlay => Some(KeyAction::ModalInputBackspace),
        KeyCode::Char(c) if !overlay => {
            if c == 'c' && key.modifiers.control {
                Some(KeyAction::Quit)
            } else {
                Some(KeyAction::ModalInputChar(c))
            }
        },
        _ => None,
    }
}

/// Keys while the diff search bar is open.
pub fn diff_search_key(key: KeyEvent) -> (r: Option<KeyAction>)
    ensures
        r == search_of(key),
{
    if ctrl(&key, 'c') {
        return Some(KeyAction::Quit);
    }
    if key.modifiers.alt && key.code == KeyCode::Char('c') {
        return Some(KeyAction::DiffSearchToggleCase);
    }
    if ctrl(&key, 'f') || ctrl(&key, 'g') || ctrl(&key, 'n') {
        return Some(KeyAction::DiffSearchNext);
    }
    if ctrl(&key, 'p') {
        return Some(KeyAction::DiffSearchPrev);
    }
    match key.code {
        KeyCode::Esc => Some(KeyAction::DiffSearchClose),
        KeyCode::Enter => {
            if key.modifiers.shift {
                Some(KeyAction::DiffSearchPrev)
            } else {
                Some(KeyAction::DiffSearchNext)
            }
        },
        KeyCode::F(3) => {
            if key.modifiers.shift {
                Some(KeyAction::DiffSearchPrev)
            } else {
                Some(KeyAction::DiffSearchNext)
            }
        },
        KeyCode::Backspace => Some(KeyAction::DiffSearchBackspace),
        KeyCode::Char(c) => Some(KeyAction::DiffSearchInput(c)),
        _ => None,
    }
}

/// Keys on the Setup screen.
pub fn setup_key(app: &App, key: KeyEvent) -> (r: Option<KeyAction>)
    ensures
        r == setup_of(
            app.setup_field,
            !app.repo_dropdown_hidden && app.repo_completions@.len() > 0,
            key,
        ),
{
    if ctrl(&key, 'c') {
        return Some(KeyAction::Quit);
    }
    let typing = key.modifiers.is_empty() || (key.modifiers.shift && !key.modifiers.control
        && !key.modifiers.alt && !key.modifiers.super_key && !key.modifiers.hyper
        && !key.modifiers.meta);
    let field = app.setup_field;
    let editing_repo = matches!(field, SetupField::Repo);
    match key.code {
        KeyCode::F(1) => {
            return Some(KeyAction::ToggleHelp);
        },
        KeyCode::Esc => {
            return Some(KeyAction::SetupReset);
        },
        KeyCode::Tab => {
            return Some(KeyAction::SetupNextField);
        },
        KeyCode::BackTab => {
            return Some(KeyAction::SetupPrevField);
        },
        _ => {},
    }
    if !editing_repo {
        if key.code == KeyCode::Char('?') {
            return Some(KeyAction::ToggleHelp);
        }
        if key.code == KeyCode::Char('q') && key.modifiers.is_empty() {
            return Some(KeyAction::Quit);
        }
    }
    match field {
        SetupField::Repo => match key.code {
            KeyCode::Enter => {
                if !app.repo_dropdown_hidden && app.repo_completions.len() > 0 {
                    Some(KeyAction::RepoCompleteAccept)
                } else {
                    Some(KeyAction::SetupSubmit)
                }
            },
            KeyCode::Right if key.modifiers.shift => Some(KeyAction::RepoCompleteAccept),
            KeyCode::Up => Some(KeyAction::RepoCompleteCyclePrev),
            KeyCode::Down => Some(KeyAction::RepoCompleteCycleNext),
            KeyCode::Left => Some(KeyAction::SetupCursorLeft),
            KeyCode::Right => Some(KeyAction::SetupCursorRight),
            KeyCode::Backspace => Some(KeyAction::SetupBackspace),
            KeyCode::Char(c) if typing => Some(KeyAction::SetupTextInput(c)),
            _ => None,
        },
        SetupField::Base | SetupField::Compare => {
            if !typing {
                return None;
            }
            let slot = if matches!(field, SetupField::Base) {
                BranchSlot::Base
            } else {
                BranchSlot::Compare
            };
            match key.code {
                KeyCode::Enter | KeyCode::Down | KeyCode::Up => Some(KeyAction::OpenBranchPicker(slot)),
                KeyCode::Char(c) => {
                    if c == ' ' || c == 'j' || c == 'k' || ('!' <= c && c <= '~') {
                        Some(KeyAction::OpenBranchPicker(slot))
                    } else {
                        None
                    }
                },
                _ => None,
            }
        },
        SetupField::Remote => {
            if !typing {
                return None;
            }
            match key.code {
                KeyCode::Enter => Some(KeyAction::SetupToggleRemote),
                KeyCode::Char(c) => {
                    if c == ' ' || c == 'r' {
                        Some(KeyAction::SetupToggleRemote)
                    } else {
                        None
                    }
                },
                _ => None,
            }
        },
        SetupField::Submit => {
            if !typing {
                return None;
            }
            match key.code {
                KeyCode::Enter => Some(KeyAction::SetupSubmit),
                KeyCode::Char(' ') => Some(KeyAction::SetupSubmit),
                _ => None,
            }
        },
    }
}

fn ctrl_scroll_key(key: KeyEvent, ctrl_f: KeyAction, with_ctrl_b: bool) -> (r: Option<KeyAction>)
    ensures
        r == ctrl_scroll_of(key, ctrl_f, with_ctrl_b),
{
    if ctrl(&key, 'd') {
        Some(KeyAction::ScrollDiff(DIFF_SCROLL_HALF))
    } else if ctrl(&key, 'u') {
        Some(KeyAction::ScrollDiff(-DIFF_SCROLL_HALF))
    } else if ctrl(&key, 'f') {
        Some(ctrl_f)
    } else if with_ctrl_b && ctrl(&key, 'b') {
        Some(KeyAction::ScrollDiff(-DIFF_SCROLL_PAGE))
    } else if ctrl(&key, 'j') {
        Some(KeyAction::ScrollDiff(DIFF_SCROLL_PAGE))
    } else if ctrl(&key, 'k') {
        Some(KeyAction::ScrollDiff(-DIFF_SCROLL_PAGE))
    } else if key.modifiers.control && key.code == KeyCode::Down {
        Some(KeyAction::ScrollDiff(DIFF_SCROLL_PAGE))
    } else if key.modifiers.control && key.code == KeyCode::Up {
        Some(KeyAction::ScrollDiff(-DIFF_SCROLL_PAGE))
    } else {
        None
    }
}

fn review_table(focused: FocusedPane, key: KeyEvent) -> (r: Option<KeyAction>)
    ensures
        r == review_table_of(focused, key),
{
    let plain = key.modifiers.is_empty();
    let code = key.code;
    if code == KeyCode::Esc {
        Some(KeyAction::BackToSetupSoft)
    } else if code == KeyCode::Tab {
        Some(KeyAction::FocusNextPane)
    } else if code == KeyCode::BackTab {
        Some(KeyAction::FocusPrevPane)
    } else if code == KeyCode::Char('1') && plain {
        Some(KeyAction::FocusSidebar)
    } else if code == KeyCode::Char('2') && plain {
        Some(KeyAction::FocusDiff)
    } else if code == KeyCode::Char('3') && plain {
        Some(KeyAction::FocusCommits)
    } else if code == KeyCode::Char('m') && plain {
        Some(KeyAction::ToggleReviewed)
    } else if code == KeyCode::Char('R') {
        Some(KeyAction::ClearReviewed)
    } else if code == KeyCode::Char('r') && plain {
        Some(KeyAction::ReloadDiff)
    } else if code == KeyCode::Char('B') {
        Some(KeyAction::OpenBranchPicker(BranchSlot::Compare))
    } else if code == KeyCode::Char('t') && plain {
        Some(KeyAction::ToggleSidebarMode)
    } else if code == KeyCode::Char('c') && plain {
        Some(KeyAction::ToggleCommitsPanel)
    } else if code == KeyCode::Char('u') && plain {
        Some(KeyAction::ToggleDiffMode)
    } else if code == KeyCode::Char('b') && plain {
        Some(KeyAction::ToggleBlame)
    } else if code == KeyCode::Char('W') {
        Some(KeyAction::ToggleWordDiff)
    } else if code == KeyCode::Char('S') {
        Some(KeyAction::ToggleSyntaxHighlight)
    } else if code == KeyCode::Char('F') {
        Some(KeyAction::EnterFullscreen)
    } else if code == KeyCode::Char('/') && plain {
        Some(KeyAction::OpenFileFilter)
    } else if code == KeyCode::Char('J') {
        Some(KeyAction::NextFile)
    } else if code == KeyCode::Char('K') {
        Some(KeyAction::PrevFile)
    } else {
        match focused {
            FocusedPane::Sidebar => match code {
                KeyCode::Char('j') | KeyCode::Down => Some(KeyAction::SidebarMove(1)),
                KeyCode::Char('k') | KeyCode::Up => Some(KeyAction::SidebarMove(-1)),
                KeyCode::Char('g') => Some(KeyAction::SidebarTop),
                KeyCode::Char('G') => Some(KeyAction::SidebarBottom),
                KeyCode::Enter | KeyCode::Char('l') => Some(KeyAction::SidebarOpenFile),
                KeyCode::Char(' ') => Some(KeyAction::SidebarToggleFolder),
                _ => None,
            },
            FocusedPane::Diff => match code {
                KeyCode::Char('j') | KeyCode::Down => Some(KeyAction::ScrollDiff(1)),
                KeyCode::Char('k') | KeyCode::Up => Some(KeyAction::ScrollDiff(-1)),
                KeyCode::Char('h') | KeyCode::Left => Some(KeyAction::ScrollDiffH(-DIFF_SCROLL_H_STEP)),
                KeyCode::Char('l') | KeyCode::Right => Some(KeyAction::ScrollDiffH(DIFF_SCROLL_H_STEP)),
                KeyCode::PageDown => Some(KeyAction::ScrollDiff(DIFF_SCROLL_PAGE)),
                KeyCode::PageUp => Some(KeyAction::ScrollDiff(-DIFF_SCROLL_PAGE)),
                KeyCode::Char('g') => Some(KeyAction::ScrollDiffTop),
                KeyCode::Char('G') => Some(KeyAction::ScrollDiffBottom),
                _ => None,
            },
            FocusedPane::Commits => match code {
                KeyCode::Char('j') | KeyCode::Down => Some(KeyAction::CommitsMove(1)),
                KeyCode::Char('k') | KeyCode::Up => Some(KeyAction::CommitsMove(-1)),
                KeyCode::Enter => Some(KeyAction::CommitsToggleSelect),
                KeyCode::Char(' ') => Some(KeyAction::CommitsToggleExpand),
                _ => None,
            },
        }
    }
}

/// Keys on the Review screen.
pub fn review_key(app: &App, key: KeyEvent) -> (r: Option<KeyAction>)
    ensures
        r == review_of(app.focused, key),
{
    if ctrl(&key, 'c') {
        return Some(KeyAction::Quit);
    }
    let common = global_key(key);
    if common.is_some() {
        return common;
    }
    let scroll = ctrl_scroll_key(key, KeyAction::ScrollDiff(DIFF_SCROLL_PAGE), true);
    if scroll.is_some() {
        return scroll;
    }
    review_table(app.focused, key)
}

fn fullscreen_table(key: KeyEvent) -> (r: Option<KeyAction>)
    ensures
        r == fullscreen_table_of(key),
{
    match key.code {
        KeyCode::Char('j') | KeyCode::Down => Some(KeyAction::ScrollDiff(1)),
        KeyCode::Char('k') | KeyCode::Up => Some(KeyAction::ScrollDiff(-1)),
        KeyCode::Char('h') | KeyCode::Left => Some(KeyAction::ScrollDiffH(-DIFF_SCROLL_H_STEP)),
        KeyCode::Char('l') | KeyCode::Right => Some(KeyAction::ScrollDiffH(DIFF_SCROLL_H_STEP)),
        KeyCode::PageDown => Some(KeyAction::ScrollDiff(DIFF_SCROLL_PAGE)),
        KeyCode::PageUp => Some(KeyAction::ScrollDiff(-DIFF_SCROLL_PAGE)),
        KeyCode::Char('g') => Some(KeyAction::ScrollDiffTop),
        KeyCode::Char('G') => Some(KeyAction::ScrollDiffBottom),
        KeyCode::Char('J') | KeyCode::Char(' ') => Some(KeyAction::FullscreenNext),
        KeyCode::Char('K') => Some(KeyAction::FullscreenPrev),
        KeyCode::Char('m') => Some(KeyAction::ToggleReviewed),
        KeyCode::Char('u') => Some(KeyAction::ToggleDiffMode),
        KeyCode::Char('b') => Some(KeyAction::ToggleBlame),
        KeyCode::Char('W') => Some(KeyAction::ToggleWordDiff),
        KeyCode::Char('S') => Some(KeyAction::ToggleSyntaxHighlight),
        _ => None,
    }
}

/// Keys on the Fullscreen screen.
pub fn fullscreen_key(key: KeyEvent) -> (r: Option<KeyAction>)
    ensures
        r == fullscreen_of(key),
{
    if ctrl(&key, 'c') {
        return Some(KeyAction::Quit);
    }
    if key.code == KeyCode::Esc || (key.code == KeyCode::Char('q') && key.modifiers.is_empty()) {
        return Some(KeyAction::ExitFullscreen);
    }
    let common = global_key(key);
    if common.is_some() {
        return common;
    }
    let scroll = ctrl_scroll_key(key, KeyAction::DiffSearchOpen, false);
    if scroll.is_some() {
        return scroll;
    }
    fullscreen_table(key)
}

/// The action for a key press, if any.
pub fn dispatch_key(app: &App, key: KeyEvent) -> (r: Option<KeyAction>)
    ensures
        r == dispatch_of(*app, key),
{
    if app.modal.is_some() {
        return modal_key(app, key);
    }
    if app.diff_search.is_some() && !matches!(app.screen, Screen::Setup) && (matches!(
        app.screen,
        Screen::Fullscreen,
    ) || matches!(app.focused, FocusedPane::Diff)) {
        let a = diff_search_key(key);
        if a.is_some() {
            return a;
        }
    }
    match app.screen {
        Screen::Setup => setup_key(app, key),
        Screen::Review => review_key(app, key),
        Screen::Fullscreen => fullscreen_key(key),
    }
}

} // verus!
