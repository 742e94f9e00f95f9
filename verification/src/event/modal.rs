//! Input into an open picker, accepting its choice, and the command palette.

use crate::app::picker::{
    all_indices, clamp_selected, filtered_ok, first_index_of, items_scorable, query_scorable,
};
use crate::app::state::{current_index, review_saved, toasted, tree_rebuilt, selected_for_path};
use crate::app::text_input::{backspaced, clamp, insert_at, inserted, remove_at};
use crate::app::{
    App, BranchSlot, DiffMode, Effect, FocusedPane, Modal, Picker, Screen, SetupField, SidebarMode,
    TextInput, ToastKind,
};
use crate::event::loaders::{kick_off_load_range, kicked_range, picker_items, picker_items_for};
use crate::git::strings_view;
use crate::text::str_eq;
use vstd::prelude::*;

verus! {

broadcast use vstd::string::group_string_axioms;

/// An edit of a picker's query.
#[derive(Debug, Clone, Copy, PartialEq, Eq, Structural)]
pub enum ModalInputOp {
    Insert(char),
    Backspace,
}

/// The picker of a picker modal.
pub open spec fn picker_of(m: Modal) -> Option<Picker> {
    match m {
        Modal::BranchPicker { picker, .. } => Some(picker),
        Modal::FileFilter { picker } => Some(picker),
        Modal::CommandPalette { picker } => Some(picker),
        _ => None,
    }
}

/// The modal with its picker replaced.
pub open spec fn with_picker(m: Modal, p: Picker) -> Modal {
    match m {
        Modal::BranchPicker { which, .. } => Modal::BranchPicker { which, picker: p },
        Modal::FileFilter { .. } => Modal::FileFilter { picker: p },
        Modal::CommandPalette { .. } => Modal::CommandPalette { picker: p },
        _ => m,
    }
}

/// The query's text after the edit.
pub open spec fn edited_text(q: TextInput, op: ModalInputOp) -> Seq<char> {
    match op {
        ModalInputOp::Insert(c) => inserted(q.buffer@, q.cursor as nat, c).0,
        ModalInputOp::Backspace => backspaced(q.buffer@, q.cursor as nat).0,
    }
}

/// The picker can take the edit: a typed character leaves its cursor room
/// to move on, and nucleo can score its items against the edited query.
pub open spec fn picker_edit_ok(p: Picker, op: ModalInputOp) -> bool {
    &&& op is Insert ==> p.query.cursor < usize::MAX
    &&& items_scorable(p.items@)
    &&& query_scorable(edited_text(p.query, op))
}

/// The open picker, if any, can take the edit.
pub open spec fn modal_input_ok(a: App, op: ModalInputOp) -> bool {
    match a.modal {
        Some(m) => match picker_of(m) {
            Some(p) => picker_edit_ok(p, op),
            None => true,
        },
        None => true,
    }
}

/// `q2` is `q` after the edit.
pub open spec fn query_edited(q: TextInput, q2: TextInput, op: ModalInputOp) -> bool {
    match op {
        ModalInputOp::Insert(c) => q2.buffer@ == insert_at(
            q.buffer@,
            clamp(q.cursor, q.buffer@.len()),
            c,
        ) && q2.cursor == q.cursor + 1,
        ModalInputOp::Backspace => if q.cursor == 0 {
            q2 == q
        } else {
            let p = clamp(q.cursor, q.buffer@.len());
            &&& q2.buffer@ == (if p > 0 {
                remove_at(q.buffer@, p - 1)
            } else {
                q.buffer@
            })
            &&& q2.cursor == q.cursor - 1
        },
    }
}

/// `b` is `a` after editing the open picker's query and refiltering.
pub open spec fn modal_input_post(a: App, b: App, op: ModalInputOp) -> bool {
    if a.modal is Some && picker_of(a.modal->0) is Some {
        let p = picker_of(a.modal->0)->0;
        exists|p2: Picker|
            #![trigger with_picker(a.modal->0, p2)]
            query_edited(p.query, p2.query, op) && p2.items == p.items && filtered_ok(
                p2,
                p2.filtered@,
            ) && p2.selected == clamp_selected(p.selected, p2.filtered@.len()) && b == (App {
                modal: Some(with_picker(a.modal->0, p2)),
                ..a
            })
    } else {
        b == a
    }
}

/// The selection of the open picker moved by one row.
pub open spec fn modal_moved(a: App, b: App, up: bool) -> bool {
    if a.modal is Some && picker_of(a.modal->0) is Some {
        let p = picker_of(a.modal->0)->0;
        let sel = if up {
            if p.selected > 0 {
                (p.selected - 1) as usize
            } else {
                0
            }
        } else {
            if p.selected + 1 < p.filtered@.len() {
                (p.selected + 1) as usize
            } else {
                p.selected
            }
        };
        b == (App { modal: Some(with_picker(a.modal->0, Picker { selected: sel, ..p })), ..a })
    } else {
        b == a
    }
}

/// The item on the picker's selected row.
pub open spec fn picker_current(p: Picker) -> Option<String> {
    if p.selected < p.filtered@.len() && p.filtered@[p.selected as int] < p.items@.len() {
        Some(p.items@[p.filtered@[p.selected as int] as int])
    } else {
        None
    }
}

/// The selection `with_selected` lands on for `current`.
pub open spec fn selection_for(items: Seq<String>, current: Option<String>) -> usize {
    match current {
        Some(c) => match first_index_of(items, c@) {
            Some(i) => i as usize,
            None => 0,
        },
        None => 0,
    }
}

/// `m` is a fresh branch picker for `slot` over the branches, landing on
/// the slot's current ref.
pub open spec fn fresh_branch_picker(m: Modal, branches: Seq<String>, slot: BranchSlot, current: Option<String>) -> bool {
    &&& m matches Modal::BranchPicker { which, picker }
    &&& which == slot
    &&& strings_view(picker.items@) == picker_items(strings_view(branches), slot)
    &&& picker.query.buffer@.len() == 0
    &&& picker.filtered@ == all_indices(picker.items@.len())
    &&& picker.selected == selection_for(picker.items@, current)
}

/// `b` is `a` after accepting branch `s` for `which`.
pub open spec fn branch_accepted(a: App, b: App, which: BranchSlot, s: String) -> bool {
    let m = match which {
        BranchSlot::Base => App { base_branch: Some(s), ..a },
        BranchSlot::Compare => App { compare_branch: Some(s), ..a },
    };
    if a.screen == Screen::Setup && which == BranchSlot::Base {
        &&& b.modal is Some
        &&& fresh_branch_picker(b.modal->0, m.branches@, BranchSlot::Compare, m.compare_branch)
        &&& b == (App { setup_field: SetupField::Compare, modal: b.modal, ..m })
    } else if m.base_branch is Some && m.compare_branch is Some {
        kicked_range(m, b)
    } else {
        b == m
    }
}

/// The toast text for a toggled preference.
pub open spec fn on_off_text(label: Seq<char>, on: bool) -> Seq<char> {
    label + if on {
        "on"@
    } else {
        "off"@
    }
}

/// `b` is `a` after a command of the palette.
pub open spec fn command_run(a: App, b: App, cmd: Seq<char>) -> bool {
    if cmd == "branches"@ {
        &&& b.modal is Some
        &&& fresh_branch_picker(b.modal->0, a.branches@, BranchSlot::Compare, a.compare_branch)
        &&& b == (App { modal: b.modal, ..a })
    } else if cmd == "reload"@ {
        kicked_range(a, b)
    } else if cmd == "tree"@ {
        tree_rebuilt(App { sidebar_mode: SidebarMode::Tree, sidebar_selected: 0, ..a }, b)
    } else if cmd == "flat"@ {
        b == (App { sidebar_mode: SidebarMode::Flat, sidebar_selected: 0, ..a })
    } else if cmd == "fullscreen"@ {
        match current_index(a) {
            Some(i) => b == (App { fullscreen_idx: i as usize, screen: Screen::Fullscreen, ..a }),
            None => b == a,
        }
    } else if cmd == "clear-reviewed"@ {
        exists|m1: App, m2: App|
            #![trigger review_saved(m1, m2)]
            m1.reviewed@ == Set::<Seq<char>>::empty() && m1 == (App { reviewed: m1.reviewed, ..a })
                && review_saved(m1, m2) && toasted(m2, b, "Cleared reviewed set"@, ToastKind::Info)
    } else {
        command_run_rest(a, b, cmd)
    }
}

/// The rest of the palette's commands.
pub open spec fn command_run_rest(a: App, b: App, cmd: Seq<char>) -> bool {
    if cmd == "toggle-commits"@ {
        b == (App { commits_panel_visible: !a.commits_panel_visible, ..a })
    } else if cmd == "split-diff"@ {
        b == (App { diff_mode: DiffMode::Split, ..a })
    } else if cmd == "unified-diff"@ {
        b == (App { diff_mode: DiffMode::Unified, ..a })
    } else if cmd == "toggle-word-diff"@ {
        word_diff_toggled(a, b)
    } else if cmd == "toggle-syntax"@ {
        syntax_toggled(a, b)
    } else if cmd == "edit-theme"@ {
        b == (App { effects: b.effects, ..a }) && b.effects@ == a.effects@.push(Effect::EditTheme)
    } else if cmd == "quit"@ {
        b == (App { should_quit: true, ..a })
    } else {
        b == a
    }
}

/// `b` is `a` after flipping a preference: `config` is the new preferences,
/// which are saved, and then the notice `text` is shown.
pub open spec fn preference_flipped(a: App, b: App, config: crate::config::Config, text: Seq<char>) -> bool {
    &&& b.effects@.len() == a.effects@.len() + 2
    &&& b.effects@.take(a.effects@.len() + 1int) == a.effects@.push(Effect::SaveConfig)
    &&& b.effects@.last() matches Effect::Notify { message, kind } && message@ == text && kind
        == ToastKind::Info
    &&& b == (App { config, effects: b.effects, ..a })
}

/// `b` is `a` after flipping word diff, saving the preferences and then
/// saying so.
pub open spec fn word_diff_toggled(a: App, b: App) -> bool {
    let on = !a.config.word_diff;
    preference_flipped(
        a,
        b,
        crate::config::Config { word_diff: on, ..a.config },
        on_off_text("Word diff: "@, on),
    )
}

/// `b` is `a` after flipping syntax highlighting, saving and then saying so.
pub open spec fn syntax_toggled(a: App, b: App) -> bool {
    let on = !a.config.syntax_highlight;
    preference_flipped(
        a,
        b,
        crate::config::Config { syntax_highlight: on, ..a.config },
        on_off_text("Syntax highlight: "@, on),
    )
}

/// `b` is `a` after accepting the choice of `modal` (already closed in `a`).
pub open spec fn modal_accepted(a: App, b: App, modal: Modal) -> bool {
    match modal {
        Modal::BranchPicker { which, picker } => match picker_current(picker) {
            Some(s) => branch_accepted(a, b, which, s),
            None => b == a,
        },
        Modal::FileFilter { picker } => match picker_current(picker) {
            Some(p) => b == (App {
                sidebar_selected: selected_for_path(a, p@),
                focused: FocusedPane::Diff,
                ..a
            }),
            None => b == a,
        },
        Modal::CommandPalette { picker } => match picker_current(picker) {
            Some(c) => command_run(a, b, c@),
            None => b == a,
        },
        _ => b == a,
    }
}

fn edit_picker(picker: &mut Picker, op: ModalInputOp)
    requires
        picker_edit_ok(*old(picker), op),
    ensures
        query_edited(old(picker).query, final(picker).query, op),
        final(picker).items == old(picker).items,
        filtered_ok(*final(picker), final(picker).filtered@),
        final(picker).selected == clamp_selected(old(picker).selected, final(picker).filtered@.len()),
{
    match op {
        ModalInputOp::Insert(c) => picker.query.insert(c),
        ModalInputOp::Backspace => picker.query.backspace(),
    }
    picker.refilter();
}

/// The modal after editing its picker's query.
fn edit_modal(m: Option<Modal>, op: ModalInputOp) -> (r: Option<Modal>)
    requires
        m is Some && picker_of(m->0) is Some ==> picker_edit_ok(picker_of(m->0)->0, op),
    ensures
        m is Some && picker_of(m->0) is Some ==> {
            let p = picker_of(m->0)->0;
            exists|p2: Picker|
                #![trigger with_picker(m->0, p2)]
                query_edited(p.query, p2.query, op) && p2.items == p.items && filtered_ok(
                    p2,
                    p2.filtered@,
                ) && p2.selected == clamp_selected(p.selected, p2.filtered@.len()) && r == Some(
                    with_picker(m->0, p2),
                )
        },
        !(m is Some && picker_of(m->0) is Some) ==> r == m,
{
    match m {
        Some(Modal::BranchPicker { which, mut picker }) => {
            edit_picker(&mut picker, op);
            let ghost p2 = picker;
            let r = Some(Modal::BranchPicker { which, picker });
            assert(r == Some(with_picker(m->0, p2)));
            r
        },
        Some(Modal::FileFilter { mut picker }) => {
            edit_picker(&mut picker, op);
            let ghost p2 = picker;
            let r = Some(Modal::FileFilter { picker });
            assert(r == Some(with_picker(m->0, p2)));
            r
        },
        Some(Modal::CommandPalette { mut picker }) => {
            edit_picker(&mut picker, op);
            let ghost p2 = picker;
            let r = Some(Modal::CommandPalette { picker });
            assert(r == Some(with_picker(m->0, p2)));
            r
        },
        other => other,
    }
}

/// Types into, or deletes from, the open picker's query and refilters.
pub fn modal_input(app: &mut App, op: ModalInputOp)
    requires
        modal_input_ok(*old(app), op),
    ensures
        modal_input_post(*old(app), *final(app), op),
{
    let mut m: Option<Modal> = None;
    std::mem::swap(&mut m, &mut app.modal);
    let r = edit_modal(m, op);
    app.modal = r;
}

fn move_picker(picker: &mut Picker, up: bool)
    ensures
        *final(picker) == (Picker {
            selected: if up {
                if old(picker).selected > 0 {
                    (old(picker).selected - 1) as usize
                } else {
                    0
                }
            } else {
                if old(picker).selected + 1 < old(picker).filtered@.len() {
                    (old(picker).selected + 1) as usize
                } else {
                    old(picker).selected
                }
            },
            ..*old(picker)
        }),
{
    if up {
        picker.move_up();
    } else {
        picker.move_down();
    }
}

/// Moves the open picker's selection up (negative `delta`) or down.
pub fn modal_move(app: &mut App, delta: i32)
    ensures
        modal_moved(*old(app), *final(app), delta < 0),
{
    let up = delta < 0;
    let mut m: Option<Modal> = None;
    std::mem::swap(&mut m, &mut app.modal);
    match m {
        Some(Modal::BranchPicker { which, mut picker }) => {
            move_picker(&mut picker, up);
            app.modal = Some(Modal::BranchPicker { which, picker });
        },
        Some(Modal::FileFilter { mut picker }) => {
            move_picker(&mut picker, up);
            app.modal = Some(Modal::FileFilter { picker });
        },
        Some(Modal::CommandPalette { mut picker }) => {
            move_picker(&mut picker, up);
            app.modal = Some(Modal::CommandPalette { picker });
        },
        other => {
            app.modal = other;
        },
    }
}

fn current_cloned(picker: &Picker) -> (r: Option<String>)
    ensures
        r == picker_current(*picker),
{
    match picker.current() {
        Some(s) => Some(s.clone()),
        None => None,
    }
}

/// Opens a branch picker for `slot` that lands on the slot's current ref.
pub fn open_branch_picker(app: &mut App, slot: BranchSlot)
    ensures
        final(app).modal is Some,
        fresh_branch_picker(
            final(app).modal->0,
            old(app).branches@,
            slot,
            match slot {
                BranchSlot::Base => old(app).base_branch,
                BranchSlot::Compare => old(app).compare_branch,
            },
        ),
        *final(app) == (App { modal: final(app).modal, ..*old(app) }),
{
    let items = picker_items_for(app, slot);
    let current: Option<&str> = match slot {
        BranchSlot::Base => match &app.base_branch {
            Some(b) => Some(b.as_str()),
            None => None,
        },
        BranchSlot::Compare => match &app.compare_branch {
            Some(c) => Some(c.as_str()),
            None => None,
        },
    };
    let picker = Picker::with_selected(items, current);
    app.modal = Some(Modal::BranchPicker { which: slot, picker });
}

/// Accepts the choice of `modal`: sets the branch (and on Setup moves on to
/// the compare picker, else loads the diff), selects the filtered file, or
/// runs the palette command.
pub fn handle_modal_accept(app: &mut App, modal: Modal)
    ensures
        modal_accepted(*old(app), *final(app), modal),
{
    match modal {
        Modal::BranchPicker { which, picker } => {
            if let Some(b) = current_cloned(&picker) {
                match which {
                    BranchSlot::Base => app.base_branch = Some(b),
                    BranchSlot::Compare => app.compare_branch = Some(b),
                }
                let just_picked_base = matches!(which, BranchSlot::Base);
                if matches!(app.screen, Screen::Setup) && just_picked_base {
                    app.setup_field = SetupField::Compare;
                    open_branch_picker(app, BranchSlot::Compare);
                } else if app.base_branch.is_some() && app.compare_branch.is_some() {
                    kick_off_load_range(app);
                }
            }
        },
        Modal::FileFilter { picker } => {
            if let Some(p) = current_cloned(&picker) {
                app.select_file_by_path(p.as_str());
                app.focused = FocusedPane::Diff;
            }
        },
        Modal::CommandPalette { picker } => {
            if let Some(cmd) = current_cloned(&picker) {
                run_command(app, cmd.as_str());
            }
        },
        _ => {},
    }
}

/// The toast text `label` + "on"/"off".
fn on_off(label: &str, on: bool) -> (r: String)
    ensures
        r@ == on_off_text(label@, on),
{
    let mut s = String::from_str(label);
    if on {
        crate::text::append_chars(&mut s, "on");
    } else {
        crate::text::append_chars(&mut s, "off");
    }
    s
}

/// Flips word diff, saves the preferences and then says so.
pub fn toggle_word_diff_and_report(app: &mut App)
    ensures
        word_diff_toggled(*old(app), *final(app)),
{
    app.toggle_word_diff();
    let ghost m = app.effects@;
    let on = app.config.word_diff;
    app.effects.push(Effect::Notify { message: on_off("Word diff: ", on), kind: ToastKind::Info });
    assert(app.effects@.take(m.len() as int) =~= m);
}

/// Flips syntax highlighting, saves the preferences and then says so.
pub fn toggle_syntax_and_report(app: &mut App)
    ensures
        syntax_toggled(*old(app), *final(app)),
{
    app.toggle_syntax_highlight();
    let ghost m = app.effects@;
    let on = app.config.syntax_highlight;
    app.effects.push(
        Effect::Notify { message: on_off("Syntax highlight: ", on), kind: ToastKind::Info },
    );
    assert(app.effects@.take(m.len() as int) =~= m);
}

/// Clears the reviewed set, saves it and says so.
pub fn clear_reviewed_and_report(app: &mut App)
    ensures
        exists|m1: App, m2: App|
            #![trigger review_saved(m1, m2)]
            m1.reviewed@ == Set::<Seq<char>>::empty() && m1 == (App { reviewed: m1.reviewed, ..*old(app) })
                && review_saved(m1, m2) && toasted(m2, *final(app), "Cleared reviewed set"@, ToastKind::Info),
{
    app.reviewed.clear();
    let ghost m1 = *app;
    app.save_review();
    let ghost m2 = *app;
    app.toast_str("Cleared reviewed set", ToastKind::Info);
    assert(review_saved(m1, m2));
}

/// Runs a command of the palette; unknown commands do nothing.
#[verifier::rlimit(60)]
pub fn run_command(app: &mut App, cmd: &str)
    ensures
        command_run(*old(app), *final(app), cmd@),
{
    if str_eq(cmd, "branches") {
        open_branch_picker(app, BranchSlot::Compare);
    } else if str_eq(cmd, "reload") {
        kick_off_load_range(app);
    } else if str_eq(cmd, "tree") {
        app.sidebar_mode = SidebarMode::Tree;
        app.sidebar_selected = 0;
        app.rebuild_tree();
    } else if str_eq(cmd, "flat") {
        app.sidebar_mode = SidebarMode::Flat;
        app.sidebar_selected = 0;
    } else if str_eq(cmd, "fullscreen") {
        if let Some(idx) = app.current_file_index() {
            app.fullscreen_idx = idx;
            app.screen = Screen::Fullscreen;
        }
    } else if str_eq(cmd, "clear-reviewed") {
        clear_reviewed_and_report(app);
    } else {
        run_command_rest(app, cmd);
    }
}

fn run_command_rest(app: &mut App, cmd: &str)
    ensures
        command_run_rest(*old(app), *final(app), cmd@),
{
    if str_eq(cmd, "toggle-commits") {
        app.commits_panel_visible = !app.commits_panel_visible;
    } else if str_eq(cmd, "split-diff") {
        app.diff_mode = DiffMode::Split;
    } else if str_eq(cmd, "unified-diff") {
        app.diff_mode = DiffMode::Unified;
    } else if str_eq(cmd, "toggle-word-diff") {
        toggle_word_diff_and_report(app);
    } else if str_eq(cmd, "toggle-syntax") {
        toggle_syntax_and_report(app);
    } else if str_eq(cmd, "edit-theme") {
        app.effects.push(Effect::EditTheme);
    } else if str_eq(cmd, "quit") {
        app.should_quit = true;
    }
}

} // verus!
