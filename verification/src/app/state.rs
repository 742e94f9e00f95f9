//! The application state and the operations on it that do not wait on git.

use crate::app::{
    bump, next_id, CommitDiffState, DiffMode, DiffSearch, Effect, FocusedPane, Modal, PendingOps,
    ReqIds, Screen, SetupField, SidebarMode, TextInput, Toast, ToastKind,
};
use crate::blame::Blame;
use crate::cli::Cli;
use crate::collections::{StrMap, StrSet};
use crate::config::Config;
use crate::model::{paths_of, Commit, FileChange, FileStatus};
use crate::persistence::{key_of, loaded_set, saved_entry, snapshot_of, OpenResult, Store};
use crate::text::{append_chars, str_eq};
use crate::tree::{rows_of, rows_view, tree_of_paths, DirNode, TreeRow, TreeRowV};
use vstd::prelude::*;

verus! {

broadcast use vstd::string::group_string_axioms;

/// Toasts kept at once; the oldest goes first.
pub const MAX_TOASTS: usize = 5;

pub struct App {
    pub screen: Screen,
    pub focused: FocusedPane,
    pub modal: Option<Modal>,
    pub repo_input: TextInput,
    pub repo_path: Option<String>,
    pub setup_field: SetupField,
    pub repo_completions: Vec<String>,
    pub repo_completion_index: usize,
    pub repo_dropdown_hidden: bool,
    pub base_branch: Option<String>,
    pub compare_branch: Option<String>,
    pub include_remote_branches: bool,
    pub branches: Vec<String>,
    pub files: Vec<FileChange>,
    pub commits: Vec<Commit>,
    pub selected_commit: Option<String>,
    pub commit_diff_cache: StrMap<Vec<FileChange>>,
    pub all_files_backup: Option<Vec<FileChange>>,
    pub reviewed: StrSet,
    pub sidebar_mode: SidebarMode,
    pub sidebar_selected: usize,
    pub sidebar_collapsed: StrSet,
    pub tree_rows: Vec<TreeRow>,
    pub diff_scroll: StrMap<u16>,
    pub diff_scroll_h: StrMap<u16>,
    pub diff_mode: DiffMode,
    pub commits_collapsed: bool,
    pub commits_selected: usize,
    pub expanded_commit: Option<String>,
    pub commits_panel_visible: bool,
    /// When `R` was first pressed, in milliseconds.
    pub pending_clear_reviewed: Option<u64>,
    pub blame_enabled: bool,
    /// Blame per git ref, then per file.
    pub blame_cache: StrMap<StrMap<Blame>>,
    /// Files per git ref whose blame is being loaded.
    pub blame_pending: StrMap<StrSet>,
    pub fullscreen_idx: usize,
    /// Height of the diff body at the last frame, in rows.
    pub diff_view_height: u16,
    pub diff_search: Option<DiffSearch>,
    pub pending: PendingOps,
    pub req_ids: ReqIds,
    /// Set once a failed preferences write has been reported.
    pub config_save_warned: bool,
    pub spinner_tick: u64,
    pub toasts: Vec<Toast>,
    pub store: Option<Store>,
    pub initial_file: Option<String>,
    pub initial_fullscreen: bool,
    pub config: Config,
    pub should_quit: bool,
    /// The clock of the event being handled, in milliseconds.
    pub now_ms: u64,
    /// Work requested of the host, oldest first.
    pub effects: Vec<Effect>,
}

/// The first index below `n` where `pred` holds.
#[verifier::opaque]
pub open spec fn first_match(n: int, pred: spec_fn(int) -> bool) -> Option<int> {
    if exists|i: int| 0 <= i < n && #[trigger] pred(i) {
        Some(
            choose|i: int|
                0 <= i < n && #[trigger] pred(i) && forall|j: int| 0 <= j < i ==> !#[trigger] pred(j),
        )
    } else {
        None
    }
}

pub proof fn lemma_first_match(n: int, pred: spec_fn(int) -> bool, i: int)
    requires
        0 <= i < n,
        pred(i),
        forall|j: int| 0 <= j < i ==> !#[trigger] pred(j),
    ensures
        first_match(n, pred) == Some(i),
{
    reveal(first_match);
    let w = choose|w: int|
        0 <= w < n && #[trigger] pred(w) && forall|j: int| 0 <= j < w ==> !#[trigger] pred(j);
    assert(0 <= w < n && pred(w) && forall|j: int| 0 <= j < w ==> !#[trigger] pred(j));
    if w < i {
        assert(!pred(w));
    } else if w > i {
        assert(!pred(i));
    }
}

pub proof fn lemma_no_match(n: int, pred: spec_fn(int) -> bool)
    requires
        forall|j: int| 0 <= j < n ==> !#[trigger] pred(j),
    ensures
        first_match(n, pred) == None::<int>,
{
    reveal(first_match);
}

/// Whether `files[i]` has path `p`.
pub open spec fn has_path(files: Seq<FileChange>, p: Seq<char>) -> spec_fn(int) -> bool {
    |i: int| files[i].path@ == p
}

/// Whether row `i` is the file row of path `p`.
pub open spec fn is_file_row(rows: Seq<TreeRow>, p: Seq<char>) -> spec_fn(int) -> bool {
    |i: int| rows[i]@ matches TreeRowV::File { path, .. } && path == p
}

/// The index of the first file with path `p`.
pub open spec fn file_position(files: Seq<FileChange>, p: Seq<char>) -> Option<int> {
    first_match(files.len() as int, has_path(files, p))
}

/// The file the sidebar selection stands on.
#[verifier::opaque]
pub open spec fn current_index(a: App) -> Option<int> {
    match a.sidebar_mode {
        SidebarMode::Flat => if a.sidebar_selected < a.files@.len() {
            Some(a.sidebar_selected as int)
        } else {
            None
        },
        SidebarMode::Tree => if a.sidebar_selected < a.tree_rows@.len() {
            match a.tree_rows@[a.sidebar_selected as int]@ {
                TreeRowV::File { path, .. } => file_position(a.files@, path),
                TreeRowV::Dir { .. } => None,
            }
        } else {
            None
        },
    }
}

/// The file shown in the diff panel: the fullscreen one, else the selected one.
pub open spec fn visible_index(a: App) -> Option<int> {
    match a.screen {
        Screen::Fullscreen => if a.fullscreen_idx < a.files@.len() {
            Some(a.fullscreen_idx as int)
        } else {
            None
        },
        _ => current_index(a),
    }
}

/// The path of the file shown in the diff panel.
pub open spec fn visible_path(a: App) -> Option<Seq<char>> {
    match visible_index(a) {
        Some(i) => Some(a.files@[i].path@),
        None => None,
    }
}

/// The toast list after adding `t`: at most `MAX_TOASTS`, oldest dropped.
pub open spec fn toasts_after(ts: Seq<Toast>, t: Toast) -> Seq<Toast> {
    let all = ts.push(t);
    if all.len() > MAX_TOASTS {
        all.drop_first()
    } else {
        all
    }
}

/// The pane after Tab.
pub open spec fn next_pane(p: FocusedPane, commits_visible: bool) -> FocusedPane {
    match p {
        FocusedPane::Sidebar => FocusedPane::Diff,
        FocusedPane::Diff => if commits_visible {
            FocusedPane::Commits
        } else {
            FocusedPane::Sidebar
        },
        FocusedPane::Commits => FocusedPane::Sidebar,
    }
}

/// The pane after Shift-Tab.
pub open spec fn prev_pane(p: FocusedPane, commits_visible: bool) -> FocusedPane {
    match p {
        FocusedPane::Sidebar => if commits_visible {
            FocusedPane::Commits
        } else {
            FocusedPane::Diff
        },
        FocusedPane::Diff => FocusedPane::Sidebar,
        FocusedPane::Commits => FocusedPane::Diff,
    }
}

/// The sum of `f(file)` over the files.
pub open spec fn sum_adds(files: Seq<FileChange>) -> int
    decreases files.len(),
{
    if files.len() == 0 {
        0
    } else {
        sum_adds(files.drop_last()) + files.last().additions
    }
}

pub open spec fn sum_dels(files: Seq<FileChange>) -> int
    decreases files.len(),
{
    if files.len() == 0 {
        0
    } else {
        sum_dels(files.drop_last()) + files.last().deletions
    }
}

/// The rows the sidebar tree shows for the files and collapsed folders.
pub open spec fn tree_rows_for(files: Seq<FileChange>, collapsed: Set<Seq<char>>) -> Seq<TreeRowV> {
    rows_of(tree_of_paths(paths_of(files)), Seq::empty(), 0, collapsed)
}

/// The file list a review is saved against: the full list when a commit
/// filter has replaced it, else the current list.
pub open spec fn review_files(a: App) -> Seq<FileChange> {
    match a.all_files_backup {
        Some(b) => b@,
        None => a.files@,
    }
}

/// Saving is skipped before any diff has loaded and when the key or the
/// store is missing.
pub open spec fn save_applies(a: App) -> bool {
    &&& !(a.all_files_backup is None && a.files@.len() == 0)
    &&& a.repo_path is Some
    &&& a.base_branch is Some
    &&& a.compare_branch is Some
    &&& a.store is Some
}

/// The key of the current review.
pub open spec fn review_key(a: App) -> Seq<char> {
    key_of(a.repo_path->0@, a.base_branch->0@, a.compare_branch->0@)
}


/// The sidebar selection after selecting the file with path `t`: its row
/// when the current list shows it, else unchanged.
#[verifier::opaque]
pub open spec fn selected_for_path(a: App, t: Seq<char>) -> usize {
    match a.sidebar_mode {
        SidebarMode::Flat => match file_position(a.files@, t) {
            Some(i) => i as usize,
            None => a.sidebar_selected,
        },
        SidebarMode::Tree => match first_match(a.tree_rows@.len() as int, is_file_row(a.tree_rows@, t)) {
            Some(i) => i as usize,
            None => a.sidebar_selected,
        },
    }
}

/// `b` is `a` with the tree rows rebuilt from the files and collapsed folders.
pub open spec fn tree_rebuilt(a: App, b: App) -> bool {
    &&& rows_view(b.tree_rows@) == tree_rows_for(a.files@, a.sidebar_collapsed@)
    &&& b == (App { tree_rows: b.tree_rows, ..a })
}

/// `b` is `a` after saving the review: when saving applies, the store holds
/// the reviewed set under the current key with the snapshot of the full file
/// list, and a write-out is requested; otherwise nothing changes.
pub open spec fn review_saved(a: App, b: App) -> bool {
    if save_applies(a) {
        &&& b.store is Some
        &&& saved_entry(
            a.store->0.state.entries@,
            b.store->0.state.entries@,
            review_key(a),
            snapshot_of(review_files(a)),
            a.reviewed@,
        )
        &&& b.store->0.path == a.store->0.path
        &&& b.store->0.state.version == a.store->0.state.version
        &&& b.effects@ == a.effects@.push(Effect::FlushStore)
        &&& b == (App { store: b.store, effects: b.effects, ..a })
    } else {
        b == a
    }
}


/// `b` is `a` with the reviewed set loaded from the store for the current
/// key and files; unchanged without a key or a store.
pub open spec fn review_loaded(a: App, b: App) -> bool {
    if a.repo_path is Some && a.base_branch is Some && a.compare_branch is Some && a.store is Some {
        &&& b.reviewed@ == loaded_set(a.store->0.state.entries@, review_key(a), snapshot_of(a.files@))
        &&& b == (App { reviewed: b.reviewed, ..a })
    } else {
        b == a
    }
}

/// The request ids after dropping the in-flight diff, commits and
/// commit-diff loads.
pub open spec fn cancelled_ids(a: App) -> ReqIds {
    ReqIds {
        branches: a.req_ids.branches,
        diff: if a.pending.diff {
            next_id(a.req_ids.diff)
        } else {
            a.req_ids.diff
        },
        commits: if a.pending.commits {
            next_id(a.req_ids.commits)
        } else {
            a.req_ids.commits
        },
        commit_diff: if a.pending.commit_diff is Loading {
            next_id(a.req_ids.commit_diff)
        } else {
            a.req_ids.commit_diff
        },
    }
}

/// `b` is `a` after Esc from Review: back on Setup with the Compare field
/// focused and the diff, commits and commit-diff loads dropped.
pub open spec fn soft_backed(a: App, b: App) -> bool {
    &&& b.screen == Screen::Setup
    &&& b.setup_field == SetupField::Compare
    &&& b.focused == FocusedPane::Sidebar
    &&& b.modal is None
    &&& !b.pending.diff
    &&& !b.pending.commits
    &&& b.pending.commit_diff is Idle
    &&& b.pending.branches == a.pending.branches
    &&& b.req_ids == cancelled_ids(a)
    &&& b == (App {
            screen: Screen::Setup,
            setup_field: SetupField::Compare,
            focused: FocusedPane::Sidebar,
            modal: None,
            req_ids: b.req_ids,
            pending: b.pending,
            ..a
        })
}

/// `b` is `a` after the full reset: the review saved, then the refs,
/// branches, files, commits, reviewed set and caches dropped, every
/// request id moved on, and Setup shown on the Repository field.
pub open spec fn hard_reset_done(a: App, b: App) -> bool {
    &&& b.base_branch is None
    &&& b.compare_branch is None
    &&& b.branches@.len() == 0
    &&& b.files@.len() == 0
    &&& b.commits@.len() == 0
    &&& b.commit_diff_cache@ == Map::<Seq<char>, Vec<FileChange>>::empty()
    &&& b.all_files_backup is None
    &&& b.selected_commit is None
    &&& b.reviewed@ == Set::<Seq<char>>::empty()
    &&& b.diff_scroll@ == Map::<Seq<char>, u16>::empty()
    &&& b.tree_rows@.len() == 0
    &&& b.sidebar_selected == 0
    &&& b.fullscreen_idx == 0
    &&& !b.pending.branches && !b.pending.diff && !b.pending.commits
    &&& b.pending.commit_diff is Idle
    &&& b.req_ids == (ReqIds {
            branches: next_id(a.req_ids.branches),
            diff: next_id(a.req_ids.diff),
            commits: next_id(a.req_ids.commits),
            commit_diff: next_id(a.req_ids.commit_diff),
        })
    &&& b.screen == Screen::Setup
    &&& b.setup_field == SetupField::Repo
    &&& b.focused == FocusedPane::Sidebar
    &&& b.modal is None
    &&& exists|m: App| #[trigger] review_saved(a, m) && b.store == m.store && b.effects@ == m.effects@.push(
        Effect::ScanRepoDir,
    )
    &&& b == (App {
        base_branch: b.base_branch,
        compare_branch: b.compare_branch,
        branches: b.branches,
        files: b.files,
        commits: b.commits,
        commit_diff_cache: b.commit_diff_cache,
        all_files_backup: b.all_files_backup,
        selected_commit: b.selected_commit,
        reviewed: b.reviewed,
        diff_scroll: b.diff_scroll,
        tree_rows: b.tree_rows,
        sidebar_selected: b.sidebar_selected,
        fullscreen_idx: b.fullscreen_idx,
        pending: b.pending,
        req_ids: b.req_ids,
        screen: b.screen,
        setup_field: b.setup_field,
        focused: b.focused,
        modal: b.modal,
        store: b.store,
        effects: b.effects,
        ..a
    })
}

/// A copy of an optional string.
pub fn clone_opt(o: &Option<String>) -> (r: Option<String>)
    ensures
        r == *o,
{
    match o {
        Some(s) => Some(s.clone()),
        None => None,
    }
}

/// The index of the first file with path `p`.
pub fn position_of_path(files: &Vec<FileChange>, p: &str) -> (r: Option<usize>)
    ensures
        match r {
            Some(i) => i < files@.len() && file_position(files@, p@) == Some(i as int),
            None => file_position(files@, p@) == None::<int>,
        },
{
    let ghost pred = has_path(files@, p@);
    let mut i: usize = 0;
    while i < files.len()
        invariant
            i <= files@.len(),
            pred == has_path(files@, p@),
            forall|j: int| 0 <= j < i ==> !#[trigger] pred(j),
        decreases files@.len() - i,
    {
        if str_eq(files[i].path.as_str(), p) {
            proof {
                lemma_first_match(files@.len() as int, pred, i as int);
            }
            return Some(i);
        }
        i += 1;
    }
    proof {
        lemma_no_match(files@.len() as int, pred);
    }
    None
}

/// The index of the first file row of path `p`.
fn position_of_file_row(rows: &Vec<TreeRow>, p: &str) -> (r: Option<usize>)
    ensures
        match r {
            Some(i) => i < rows@.len() && first_match(rows@.len() as int, is_file_row(rows@, p@))
                == Some(i as int),
            None => first_match(rows@.len() as int, is_file_row(rows@, p@)) == None::<int>,
        },
{
    let ghost pred = is_file_row(rows@, p@);
    let mut i: usize = 0;
    while i < rows.len()
        invariant
            i <= rows@.len(),
            pred == is_file_row(rows@, p@),
            forall|j: int| 0 <= j < i ==> !#[trigger] pred(j),
        decreases rows@.len() - i,
    {
        match &rows[i] {
            TreeRow::File { path, .. } => {
                if str_eq(path.as_str(), p) {
                    proof {
                        lemma_first_match(rows@.len() as int, pred, i as int);
                    }
                    return Some(i);
                }
            },
            TreeRow::Dir { .. } => {},
        }
        i += 1;
    }
    proof {
        lemma_no_match(rows@.len() as int, pred);
    }
    None
}

impl App {
    /// The starting state. `cwd` stands in for a missing `--repo`; `opened`
    /// is the store as opened (absent when no data directory exists), and a
    /// recovered backup is reported as an error toast; `config` is the saved
    /// preferences, which the command line can switch off.
    pub fn new(cli: &Cli, cwd: Option<String>, opened: Option<OpenResult>, config: Config, now_ms: u64) -> (r: App)
        ensures
            r.screen == Screen::Setup,
            r.focused == FocusedPane::Sidebar,
            r.modal is None,
            r.repo_path == (if cli.repo is Some { cli.repo } else { cwd }),
            r.repo_input.buffer@ == (match r.repo_path {
                Some(p) => p@,
                None => Seq::<char>::empty(),
            }),
            r.setup_field == SetupField::Repo,
            r.base_branch == cli.base,
            r.compare_branch == cli.compare,
            r.include_remote_branches == !cli.no_remote_branches,
            r.files@.len() == 0,
            r.reviewed@ == Set::<Seq<char>>::empty(),
            r.initial_file == cli.file,
            r.initial_fullscreen == cli.fullscreen,
            r.config.word_diff == (config.word_diff && !cli.no_word_diff),
            r.config.syntax_highlight == (config.syntax_highlight && !cli.no_syntax),
            r.store is Some <==> opened is Some,
            r.toasts@.len() == (match opened {
                Some(o) => if o.recovered_backup is Some { 1int } else { 0 },
                None => 0,
            }),
            forall|i: int| 0 <= i < r.toasts@.len() ==> (#[trigger] r.toasts@[i]).kind == ToastKind::Error,
            r.effects@.len() == 1,
            r.effects@[0] is ScanRepoDir,
            !r.should_quit,
            r.now_ms == now_ms,
            r.repo_input.cursor == r.repo_input.buffer@.len(),
            r.repo_completions@.len() == 0,
            r.repo_completion_index == 0,
            !r.repo_dropdown_hidden,
            r.branches@.len() == 0,
            r.commits@.len() == 0,
            r.selected_commit is None,
            r.commit_diff_cache@ == Map::<Seq<char>, Vec<FileChange>>::empty(),
            r.all_files_backup is None,
            r.sidebar_mode == SidebarMode::Flat,
            r.sidebar_selected == 0,
            r.sidebar_collapsed@ == Set::<Seq<char>>::empty(),
            r.tree_rows@.len() == 0,
            r.diff_scroll@ == Map::<Seq<char>, u16>::empty(),
            r.diff_scroll_h@ == Map::<Seq<char>, u16>::empty(),
            r.diff_mode == DiffMode::Unified,
            !r.commits_collapsed,
            r.commits_selected == 0,
            r.expanded_commit is None,
            r.commits_panel_visible,
            r.pending_clear_reviewed is None,
            !r.blame_enabled,
            r.blame_cache@ == Map::<Seq<char>, StrMap<Blame>>::empty(),
            r.blame_pending@ == Map::<Seq<char>, StrSet>::empty(),
            r.fullscreen_idx == 0,
            r.diff_view_height == 0,
            r.diff_search is None,
            !r.pending.branches && !r.pending.diff && !r.pending.commits,
            r.pending.commit_diff is Idle,
            r.req_ids == (ReqIds { branches: 0, diff: 0, commits: 0, commit_diff: 0 }),
            !r.config_save_warned,
            r.spinner_tick == 0,
            match opened {
                Some(o) => r.store == Some(o.store),
                None => r.store is None,
            },
            match opened {
                Some(o) => match o.recovered_backup {
                    Some(p) => r.toasts@[0].message@ == "State file was unreadable; backed up to "@
                        + p@ + " and started fresh"@ && r.toasts@[0].created == now_ms,
                    None => true,
                },
                None => true,
            },
    {
        let repo_path = match &cli.repo {
            Some(p) => Some(p.clone()),
            None => cwd,
        };
        let repo_input = match &repo_path {
            Some(p) => TextInput::new(p.as_str()),
            None => {
                proof {
                    reveal_strlit("");
                }
                TextInput::new("")
            },
        };
        let ghost op = opened;
        let (store, store_warning) = match opened {
            Some(o) => {
                let w = match o.recovered_backup {
                    Some(p) => {
                        let mut m = String::new();
                        append_chars(&mut m, "State file was unreadable; backed up to ");
                        append_chars(&mut m, p.as_str());
                        append_chars(&mut m, " and started fresh");
                        assert(m@ == "State file was unreadable; backed up to "@ + p@
                            + " and started fresh"@);
                        Some(m)
                    },
                    None => None,
                };
                (Some(o.store), w)
            },
            None => (None, None),
        };
        let mut config = config;
        if cli.no_word_diff {
            config.word_diff = false;
        }
        if cli.no_syntax {
            config.syntax_highlight = false;
        }
        let mut app = App {
            screen: Screen::Setup,
            focused: FocusedPane::Sidebar,
            modal: None,
            repo_input,
            repo_path,
            setup_field: SetupField::Repo,
            repo_completions: Vec::new(),
            repo_completion_index: 0,
            repo_dropdown_hidden: false,
            base_branch: clone_opt(&cli.base),
            compare_branch: clone_opt(&cli.compare),
            include_remote_branches: !cli.no_remote_branches,
            branches: Vec::new(),
            files: Vec::new(),
            commits: Vec::new(),
            selected_commit: None,
            commit_diff_cache: StrMap::new(),
            all_files_backup: None,
            reviewed: StrSet::new(),
            sidebar_mode: SidebarMode::Flat,
            sidebar_selected: 0,
            sidebar_collapsed: StrSet::new(),
            tree_rows: Vec::new(),
            diff_scroll: StrMap::new(),
            diff_scroll_h: StrMap::new(),
            diff_mode: DiffMode::Unified,
            commits_collapsed: false,
            commits_selected: 0,
            expanded_commit: None,
            commits_panel_visible: true,
            pending_clear_reviewed: None,
            blame_enabled: false,
            blame_cache: StrMap::new(),
            blame_pending: StrMap::new(),
            fullscreen_idx: 0,
            diff_view_height: 0,
            diff_search: None,
            pending: PendingOps::idle(),
            req_ids: ReqIds { branches: 0, diff: 0, commits: 0, commit_diff: 0 },
            config_save_warned: false,
            spinner_tick: 0,
            toasts: Vec::new(),
            store,
            initial_file: clone_opt(&cli.file),
            initial_fullscreen: cli.fullscreen,
            config,
            should_quit: false,
            now_ms,
            effects: Vec::new(),
        };
        if let Some(msg) = store_warning {
            app.toast(msg, ToastKind::Error);
        }
        app.update_repo_completions();
        app
    }

    /// Asks the host to rescan the directories that complete the repository
    /// field; the host answers with `set_repo_completions`.
    pub fn update_repo_completions(&mut self)
        ensures
            final(self).effects@ == old(self).effects@.push(Effect::ScanRepoDir),
            *final(self) == (App { effects: final(self).effects, ..*old(self) }),
    {
        self.effects.push(Effect::ScanRepoDir);
    }

    /// Adds a toast stamped with the current clock, dropping the oldest
    /// beyond `MAX_TOASTS`.
    pub fn toast(&mut self, message: String, kind: ToastKind)
        ensures
            final(self).toasts@ == toasts_after(
                old(self).toasts@,
                Toast { message, created: old(self).now_ms, kind },
            ),
            *final(self) == (App { toasts: final(self).toasts, ..*old(self) }),
    {
        let t = Toast { message, created: self.now_ms, kind };
        self.toasts.push(t);
        if self.toasts.len() > MAX_TOASTS {
            self.toasts.remove(0);
        }
    }

    /// The index of the file the sidebar selection stands on: the selected
    /// row in the flat list, or the file of the selected tree row.
    pub fn current_file_index(&self) -> (r: Option<usize>)
        ensures
            match r {
                Some(i) => i < self.files@.len() && current_index(*self) == Some(i as int),
                None => current_index(*self) == None::<int>,
            },
    {
        reveal(current_index);
        match self.sidebar_mode {
            SidebarMode::Flat => {
                if self.sidebar_selected < self.files.len() {
                    Some(self.sidebar_selected)
                } else {
                    None
                }
            },
            SidebarMode::Tree => {
                if self.sidebar_selected < self.tree_rows.len() {
                    match &self.tree_rows[self.sidebar_selected] {
                        TreeRow::File { path, .. } => position_of_path(&self.files, path.as_str()),
                        TreeRow::Dir { .. } => None,
                    }
                } else {
                    None
                }
            },
        }
    }

    /// The file the sidebar selection stands on.
    pub fn current_file(&self) -> (r: Option<&FileChange>)
        ensures
            r == (match current_index(*self) {
                Some(i) => Some(&self.files@[i]),
                None => None,
            }),
            current_index(*self) matches Some(i) ==> 0 <= i < self.files@.len(),
    {
        match self.current_file_index() {
            Some(i) => Some(&self.files[i]),
            None => None,
        }
    }

    /// Moves the sidebar selection to the file with path `target`, when the
    /// current list shows it; otherwise leaves it.
    pub fn select_file_by_path(&mut self, target: &str)
        ensures
            *final(self) == (App { sidebar_selected: selected_for_path(*old(self), target@), ..*old(self) }),
    {
        reveal(selected_for_path);
        match self.sidebar_mode {
            SidebarMode::Flat => {
                if let Some(idx) = position_of_path(&self.files, target) {
                    self.sidebar_selected = idx;
                }
            },
            SidebarMode::Tree => {
                if let Some(idx) = position_of_file_row(&self.tree_rows, target) {
                    self.sidebar_selected = idx;
                }
            },
        }
    }

    /// Tab: sidebar → diff → commits (when shown) → sidebar.
    pub fn focus_next_pane(&mut self)
        ensures
            *final(self) == (App {
                focused: next_pane(old(self).focused, old(self).commits_panel_visible),
                ..*old(self)
            }),
    {
        self.focused = match self.focused {
            FocusedPane::Sidebar => FocusedPane::Diff,
            FocusedPane::Diff => {
                if self.commits_panel_visible {
                    FocusedPane::Commits
                } else {
                    FocusedPane::Sidebar
                }
            },
            FocusedPane::Commits => FocusedPane::Sidebar,
        };
    }

    /// Shift-Tab: the reverse of `focus_next_pane`.
    pub fn focus_prev_pane(&mut self)
        ensures
            *final(self) == (App {
                focused: prev_pane(old(self).focused, old(self).commits_panel_visible),
                ..*old(self)
            }),
    {
        self.focused = match self.focused {
            FocusedPane::Sidebar => {
                if self.commits_panel_visible {
                    FocusedPane::Commits
                } else {
                    FocusedPane::Diff
                }
            },
            FocusedPane::Diff => FocusedPane::Sidebar,
            FocusedPane::Commits => FocusedPane::Diff,
        };
    }
}


impl App {
    /// Rebuilds the sidebar tree rows from the file paths and the collapsed
    /// folders.
    pub fn rebuild_tree(&mut self)
        ensures
            tree_rebuilt(*old(self), *final(self)),
    {
        let mut paths: Vec<&str> = Vec::new();
        let mut i: usize = 0;
        while i < self.files.len()
            invariant
                i <= self.files@.len(),
                paths@.map_values(|p: &str| p@) == paths_of(self.files@).take(i as int),
            decreases self.files@.len() - i,
        {
            let ghost before = paths@;
            paths.push(self.files[i].path.as_str());
            assert(paths@.map_values(|p: &str| p@) =~= before.map_values(|p: &str| p@).push(
                self.files@[i as int].path@,
            ));
            i += 1;
            assert(paths@.map_values(|p: &str| p@) =~= paths_of(self.files@).take(i as int));
        }
        assert(paths_of(self.files@).take(i as int) =~= paths_of(self.files@));
        let root = DirNode::from_paths(paths);
        let rows = crate::tree::flatten(&root, &self.sidebar_collapsed);
        self.tree_rows = rows;
    }

    /// Records the reviewed set in the store under the current repository,
    /// base and compare, against the full file list, and asks the host to
    /// write the store out. Nothing happens before a diff has loaded, or
    /// without a key or a store.
    pub fn save_review(&mut self)
        ensures
            review_saved(*old(self), *final(self)),
    {
        if self.all_files_backup.is_none() && self.files.len() == 0 {
            return;
        }
        if self.repo_path.is_none() || self.base_branch.is_none() || self.compare_branch.is_none()
            || self.store.is_none() {
            return;
        }
        let mut st: Option<Store> = None;
        std::mem::swap(&mut st, &mut self.store);
        if let Some(mut store) = st {
            if let (Some(repo), Some(base), Some(compare)) = (
                &self.repo_path,
                &self.base_branch,
                &self.compare_branch,
            ) {
                match &self.all_files_backup {
                    Some(b) => store.save_reviewed(
                        repo.as_str(),
                        base.as_str(),
                        compare.as_str(),
                        b.as_slice(),
                        &self.reviewed,
                    ),
                    None => store.save_reviewed(
                        repo.as_str(),
                        base.as_str(),
                        compare.as_str(),
                        self.files.as_slice(),
                        &self.reviewed,
                    ),
                }
            }
            self.store = Some(store);
        }
        self.effects.push(Effect::FlushStore);
    }

    /// Replaces the reviewed set with what the store holds for the current
    /// key and file list (empty when the snapshot no longer matches).
    pub fn load_review(&mut self)
        ensures
            review_loaded(*old(self), *final(self)),
    {
        if let (Some(repo), Some(base), Some(compare), Some(store)) = (
            &self.repo_path,
            &self.base_branch,
            &self.compare_branch,
            &self.store,
        ) {
            let r = store.load_reviewed(
                repo.as_str(),
                base.as_str(),
                compare.as_str(),
                self.files.as_slice(),
            );
            self.reviewed = r;
        }
    }

    /// Asks the host to write the preferences out.
    fn save_config(&mut self)
        ensures
            final(self).effects@ == old(self).effects@.push(Effect::SaveConfig),
            *final(self) == (App { effects: final(self).effects, ..*old(self) }),
    {
        self.effects.push(Effect::SaveConfig);
    }

    /// Reports a failed preferences write, once per session.
    pub fn config_save_failed(&mut self)
        ensures
            final(self).config_save_warned,
            old(self).config_save_warned ==> *final(self) == *old(self),
            !old(self).config_save_warned ==> {
                &&& final(self).toasts@.len() > 0
                &&& final(self).toasts@.last().kind == ToastKind::Error
                &&& *final(self) == (App {
                    toasts: final(self).toasts,
                    config_save_warned: true,
                    ..*old(self)
                })
            },
    {
        if !self.config_save_warned {
            self.config_save_warned = true;
            self.toast(
                String::from_str("Could not save config; preferences won't persist this session"),
                ToastKind::Error,
            );
        }
    }

    /// Flips word-level diff highlighting and saves the preferences.
    pub fn toggle_word_diff(&mut self)
        ensures
            final(self).config.word_diff == !old(self).config.word_diff,
            final(self).effects@ == old(self).effects@.push(Effect::SaveConfig),
            *final(self) == (App {
                config: Config { word_diff: !old(self).config.word_diff, ..old(self).config },
                effects: final(self).effects,
                ..*old(self)
            }),
    {
        self.config.word_diff = !self.config.word_diff;
        self.save_config();
    }

    /// Flips syntax highlighting and saves the preferences.
    pub fn toggle_syntax_highlight(&mut self)
        ensures
            final(self).config.syntax_highlight == !old(self).config.syntax_highlight,
            final(self).effects@ == old(self).effects@.push(Effect::SaveConfig),
            *final(self) == (App {
                config: Config {
                    syntax_highlight: !old(self).config.syntax_highlight,
                    ..old(self).config
                },
                effects: final(self).effects,
                ..*old(self)
            }),
    {
        self.config.syntax_highlight = !self.config.syntax_highlight;
        self.save_config();
    }

    /// The added lines over all files, wrapping at the top of `u32`.
    pub fn total_additions(&self) -> (r: u32)
        ensures
            r as int == sum_adds(self.files@) % 0x1_0000_0000,
    {
        let mut t: u32 = 0;
        let mut i: usize = 0;
        while i < self.files.len()
            invariant
                i <= self.files@.len(),
                t as int == sum_adds(self.files@.take(i as int)) % 0x1_0000_0000,
            decreases self.files@.len() - i,
        {
            let ghost before = t;
            t = t.wrapping_add(self.files[i].additions);
            proof {
                assert(self.files@.take(i + 1).drop_last() =~= self.files@.take(i as int));
                let s = sum_adds(self.files@.take(i as int));
                vstd::arithmetic::div_mod::lemma_add_mod_noop(
                    s,
                    self.files@[i as int].additions as int,
                    0x1_0000_0000,
                );
                vstd::arithmetic::div_mod::lemma_mod_twice(
                    self.files@[i as int].additions as int,
                    0x1_0000_0000,
                );
                vstd::arithmetic::div_mod::lemma_small_mod(
                    self.files@[i as int].additions as nat,
                    0x1_0000_0000,
                );
                vstd::arithmetic::div_mod::lemma_add_mod_noop(
                    before as int,
                    self.files@[i as int].additions as int,
                    0x1_0000_0000,
                );
                vstd::arithmetic::div_mod::lemma_small_mod(before as nat, 0x1_0000_0000);
                if before as int + self.files@[i as int].additions as int >= 0x1_0000_0000 {
                    vstd::arithmetic::div_mod::lemma_mod_sub_multiples_vanish(
                        before as int + self.files@[i as int].additions as int - 0x1_0000_0000,
                        0x1_0000_0000,
                    );
                    vstd::arithmetic::div_mod::lemma_small_mod(
                        (before as int + self.files@[i as int].additions as int - 0x1_0000_0000) as nat,
                        0x1_0000_0000,
                    );
                } else {
                    vstd::arithmetic::div_mod::lemma_small_mod(
                        (before as int + self.files@[i as int].additions as int) as nat,
                        0x1_0000_0000,
                    );
                }
            }
            i += 1;
        }
        assert(self.files@.take(i as int) =~= self.files@);
        t
    }

    /// The deleted lines over all files, wrapping at the top of `u32`.
    pub fn total_deletions(&self) -> (r: u32)
        ensures
            r as int == sum_dels(self.files@) % 0x1_0000_0000,
    {
        let mut t: u32 = 0;
        let mut i: usize = 0;
        while i < self.files.len()
            invariant
                i <= self.files@.len(),
                t as int == sum_dels(self.files@.take(i as int)) % 0x1_0000_0000,
            decreases self.files@.len() - i,
        {
            let ghost before = t;
            t = t.wrapping_add(self.files[i].deletions);
            proof {
                assert(self.files@.take(i + 1).drop_last() =~= self.files@.take(i as int));
                let s = sum_dels(self.files@.take(i as int));
                vstd::arithmetic::div_mod::lemma_add_mod_noop(
                    s,
                    self.files@[i as int].deletions as int,
                    0x1_0000_0000,
                );
                vstd::arithmetic::div_mod::lemma_mod_twice(
                    self.files@[i as int].deletions as int,
                    0x1_0000_0000,
                );
                vstd::arithmetic::div_mod::lemma_small_mod(
                    self.files@[i as int].deletions as nat,
                    0x1_0000_0000,
                );
                vstd::arithmetic::div_mod::lemma_add_mod_noop(
                    before as int,
                    self.files@[i as int].deletions as int,
                    0x1_0000_0000,
                );
                vstd::arithmetic::div_mod::lemma_small_mod(before as nat, 0x1_0000_0000);
                if before as int + self.files@[i as int].deletions as int >= 0x1_0000_0000 {
                    vstd::arithmetic::div_mod::lemma_mod_sub_multiples_vanish(
                        before as int + self.files@[i as int].deletions as int - 0x1_0000_0000,
                        0x1_0000_0000,
                    );
                    vstd::arithmetic::div_mod::lemma_small_mod(
                        (before as int + self.files@[i as int].deletions as int - 0x1_0000_0000) as nat,
                        0x1_0000_0000,
                    );
                } else {
                    vstd::arithmetic::div_mod::lemma_small_mod(
                        (before as int + self.files@[i as int].deletions as int) as nat,
                        0x1_0000_0000,
                    );
                }
            }
            i += 1;
        }
        assert(self.files@.take(i as int) =~= self.files@);
        t
    }
}


impl App {
    /// The file shown in the diff panel: in fullscreen the fullscreen file,
    /// else the sidebar's.
    pub fn diff_visible_file(&self) -> (r: Option<&FileChange>)
        ensures
            r == (match visible_index(*self) {
                Some(i) => Some(&self.files@[i]),
                None => None,
            }),
            visible_index(*self) matches Some(i) ==> 0 <= i < self.files@.len(),
    {
        match self.screen {
            Screen::Fullscreen => {
                if self.fullscreen_idx < self.files.len() {
                    Some(&self.files[self.fullscreen_idx])
                } else {
                    None
                }
            },
            _ => self.current_file(),
        }
    }

    /// The path of the file shown in the diff panel.
    pub fn diff_visible_path(&self) -> (r: Option<String>)
        ensures
            r == (match visible_index(*self) {
                Some(i) => Some(self.files@[i].path),
                None => None,
            }),
    {
        match self.diff_visible_file() {
            Some(f) => Some(f.path.clone()),
            None => None,
        }
    }

    /// Starts a branches load: bumps its request id and marks it pending.
    pub fn start_branches_load(&mut self) -> (r: u64)
        ensures
            r == next_id(old(self).req_ids.branches),
            *final(self) == (App {
                req_ids: ReqIds { branches: r, ..old(self).req_ids },
                pending: PendingOps { branches: true, ..old(self).pending },
                ..*old(self)
            }),
    {
        self.req_ids.branches = bump(self.req_ids.branches);
        self.pending.branches = true;
        self.req_ids.branches
    }

    /// Starts a diff load.
    pub fn start_diff_load(&mut self) -> (r: u64)
        ensures
            r == next_id(old(self).req_ids.diff),
            *final(self) == (App {
                req_ids: ReqIds { diff: r, ..old(self).req_ids },
                pending: PendingOps { diff: true, ..old(self).pending },
                ..*old(self)
            }),
    {
        self.req_ids.diff = bump(self.req_ids.diff);
        self.pending.diff = true;
        self.req_ids.diff
    }

    /// Starts a commits load.
    pub fn start_commits_load(&mut self) -> (r: u64)
        ensures
            r == next_id(old(self).req_ids.commits),
            *final(self) == (App {
                req_ids: ReqIds { commits: r, ..old(self).req_ids },
                pending: PendingOps { commits: true, ..old(self).pending },
                ..*old(self)
            }),
    {
        self.req_ids.commits = bump(self.req_ids.commits);
        self.pending.commits = true;
        self.req_ids.commits
    }

    /// Starts the load of one commit's diff.
    pub fn start_commit_diff_load(&mut self, hash: String) -> (r: u64)
        ensures
            r == next_id(old(self).req_ids.commit_diff),
            *final(self) == (App {
                req_ids: ReqIds { commit_diff: r, ..old(self).req_ids },
                pending: PendingOps {
                    commit_diff: CommitDiffState::Loading(hash),
                    ..old(self).pending
                },
                ..*old(self)
            }),
    {
        self.req_ids.commit_diff = bump(self.req_ids.commit_diff);
        self.pending.commit_diff = CommitDiffState::Loading(hash);
        self.req_ids.commit_diff
    }

    /// Drops the in-flight diff, commits and commit-diff loads: their ids
    /// move on, so their results will be stale.
    pub fn cancel_inflight_loads(&mut self)
        ensures
            final(self).req_ids == (ReqIds {
                branches: old(self).req_ids.branches,
                diff: if old(self).pending.diff {
                    next_id(old(self).req_ids.diff)
                } else {
                    old(self).req_ids.diff
                },
                commits: if old(self).pending.commits {
                    next_id(old(self).req_ids.commits)
                } else {
                    old(self).req_ids.commits
                },
                commit_diff: if old(self).pending.commit_diff is Loading {
                    next_id(old(self).req_ids.commit_diff)
                } else {
                    old(self).req_ids.commit_diff
                },
            }),
            final(self).pending.branches == old(self).pending.branches,
            !final(self).pending.diff,
            !final(self).pending.commits,
            final(self).pending.commit_diff is Idle,
            *final(self) == (App {
                req_ids: final(self).req_ids,
                pending: final(self).pending,
                ..*old(self)
            }),
    {
        if self.pending.diff {
            self.req_ids.diff = bump(self.req_ids.diff);
            self.pending.diff = false;
        }
        if self.pending.commits {
            self.req_ids.commits = bump(self.req_ids.commits);
            self.pending.commits = false;
        }
        if self.pending.commit_diff.is_active() {
            self.req_ids.commit_diff = bump(self.req_ids.commit_diff);
            self.pending.commit_diff = CommitDiffState::Idle;
        }
    }

    /// Esc from Review: back to Setup with everything kept, focus on the
    /// Compare field, in-flight loads dropped.
    pub fn soft_back_to_setup(&mut self)
        ensures
            soft_backed(*old(self), *final(self)),
    {
        self.cancel_inflight_loads();
        self.screen = Screen::Setup;
        self.setup_field = SetupField::Compare;
        self.focused = FocusedPane::Sidebar;
        self.modal = None;
    }

    /// Full reset back to Setup: saves the reviewed set, then drops the
    /// branches, files, commits, reviewed set and caches; every request id
    /// moves on so late results are dropped.
    #[verifier::rlimit(80)]
    pub fn hard_reset(&mut self)
        ensures
            hard_reset_done(*old(self), *final(self)),
    {
        self.save_review();
        let ghost m = *self;
        self.base_branch = None;
        self.compare_branch = None;
        self.branches.clear();
        self.files.clear();
        self.commits.clear();
        self.commit_diff_cache.clear();
        self.all_files_backup = None;
        self.selected_commit = None;
        self.reviewed.clear();
        self.diff_scroll.clear();
        self.tree_rows.clear();
        self.sidebar_selected = 0;
        self.fullscreen_idx = 0;
        self.pending = PendingOps::idle();
        self.req_ids.branches = bump(self.req_ids.branches);
        self.req_ids.diff = bump(self.req_ids.diff);
        self.req_ids.commits = bump(self.req_ids.commits);
        self.req_ids.commit_diff = bump(self.req_ids.commit_diff);
        self.screen = Screen::Setup;
        self.setup_field = SetupField::Repo;
        self.focused = FocusedPane::Sidebar;
        self.modal = None;
        self.update_repo_completions();
        assert(review_saved(*old(self), m));
    }

    /// The (ref, path) to load blame for: the compare ref (HEAD for the
    /// working tree) and the file's path; none for a deleted file or without
    /// a compare ref.
    pub fn blame_target_for(&self, file: &FileChange) -> (r: Option<(String, String)>)
        ensures
            match r {
                Some((g, p)) => {
                    &&& file.status != FileStatus::Deleted
                    &&& self.compare_branch is Some
                    &&& g@ == blame_ref(self.compare_branch->0@)
                    &&& p@ == file.path@
                },
                None => file.status == FileStatus::Deleted || self.compare_branch is None,
            },
    {
        if matches!(file.status, FileStatus::Deleted) {
            return None;
        }
        match &self.compare_branch {
            None => None,
            Some(c) => {
                let g = if crate::git::is_working_tree(c.as_str()) {
                    proof {
                        reveal_strlit("HEAD");
                    }
                    String::from_str("HEAD")
                } else {
                    c.clone()
                };
                Some((g, file.path.clone()))
            },
        }
    }
}

/// The ref blame is loaded at for a compare ref: HEAD for the working tree.
pub open spec fn blame_ref(compare: Seq<char>) -> Seq<char> {
    if compare == crate::git::working_tree_ref() {
        seq!['H', 'E', 'A', 'D']
    } else {
        compare
    }
}


/// `b` is `a` with one more toast, of text `msg` and kind `kind`, stamped
/// with the current clock.
pub open spec fn toasted(a: App, b: App, msg: Seq<char>, kind: ToastKind) -> bool {
    &&& b.toasts@.len() > 0
    &&& b.toasts@ == toasts_after(a.toasts@, b.toasts@.last())
    &&& b.toasts@.last().message@ == msg
    &&& b.toasts@.last().kind == kind
    &&& b.toasts@.last().created == a.now_ms
    &&& b == (App { toasts: b.toasts, ..a })
}

impl App {
    /// Adds a toast with the text `msg`.
    pub fn toast_str(&mut self, msg: &str, kind: ToastKind)
        ensures
            toasted(*old(self), *final(self), msg@, kind),
    {
        self.toast(String::from_str(msg), kind);
    }

    /// Adds a toast with the text `msg`.
    pub fn toast_string(&mut self, msg: String, kind: ToastKind)
        ensures
            toasted(*old(self), *final(self), msg@, kind),
    {
        self.toast(msg, kind);
    }
}


/// The toast list never grows beyond `MAX_TOASTS`, and the newest toast is
/// always the last one kept.
pub proof fn lemma_toasts_bounded(ts: Seq<Toast>, t: Toast)
    requires
        ts.len() <= MAX_TOASTS,
    ensures
        toasts_after(ts, t).len() <= MAX_TOASTS,
        toasts_after(ts, t).last() == t,
        ts.len() < MAX_TOASTS ==> toasts_after(ts, t) == ts.push(t),
{
}

/// Selecting a file by path (`b` is what `select_file_by_path` leaves of `a`)
/// puts the selection on the first file with that path in the flat list,
/// which then is the current file, or on the first file row with that path
/// in the tree, whose file then is current; with no such file or row nothing
/// changes. No field but the selection ever changes.
pub proof fn lemma_select_first_match(a: App, b: App, t: Seq<char>)
    requires
        a.files@.len() <= usize::MAX,
        a.tree_rows@.len() <= usize::MAX,
        b == (App { sidebar_selected: selected_for_path(a, t), ..a }),
    ensures
        a.sidebar_mode == SidebarMode::Flat ==> forall|i: int|
            0 <= i < a.files@.len() && #[trigger] a.files@[i].path@ == t && (forall|j: int|
                0 <= j < i ==> a.files@[j].path@ != t) ==> b.sidebar_selected == i
                && current_index(b) == Some(i) && b.files@[i].path@ == t,
        a.sidebar_mode == SidebarMode::Flat && (forall|i: int|
            0 <= i < a.files@.len() ==> #[trigger] a.files@[i].path@ != t) ==> b == a,
        a.sidebar_mode == SidebarMode::Tree ==> forall|i: int|
            0 <= i < a.tree_rows@.len() && #[trigger] is_file_row(a.tree_rows@, t)(i) && (forall|j: int|
                0 <= j < i ==> !#[trigger] is_file_row(a.tree_rows@, t)(j)) ==> b.sidebar_selected == i
                && current_index(b) == file_position(a.files@, t),
        a.sidebar_mode == SidebarMode::Tree && (forall|i: int|
            0 <= i < a.tree_rows@.len() ==> !#[trigger] is_file_row(a.tree_rows@, t)(i)) ==> b == a,
        b == (App { sidebar_selected: b.sidebar_selected, ..a }),
{
    reveal(selected_for_path);
    reveal(current_index);
    let n = a.files@.len() as int;
    let pred = has_path(a.files@, t);
    assert forall|i: int|
        0 <= i < n && #[trigger] a.files@[i].path@ == t && (forall|j: int|
            0 <= j < i ==> a.files@[j].path@ != t) && a.sidebar_mode == SidebarMode::Flat implies
        b.sidebar_selected == i && current_index(b) == Some(i) by {
        assert(pred(i));
        assert forall|j: int| 0 <= j < i implies !#[trigger] pred(j) by {
            assert(a.files@[j].path@ != t);
        }
        lemma_first_match(n, pred, i);
        assert(file_position(a.files@, t) == Some(i));
    }
    if forall|i: int| 0 <= i < n ==> #[trigger] a.files@[i].path@ != t {
        assert forall|j: int| 0 <= j < n implies !#[trigger] pred(j) by {
            assert(a.files@[j].path@ != t);
        }
        lemma_no_match(n, pred);
    }
    let m = a.tree_rows@.len() as int;
    let rp = is_file_row(a.tree_rows@, t);
    assert forall|i: int|
        0 <= i < m && #[trigger] is_file_row(a.tree_rows@, t)(i) && (forall|j: int|
            0 <= j < i ==> !#[trigger] is_file_row(a.tree_rows@, t)(j)) && a.sidebar_mode
        == SidebarMode::Tree implies b.sidebar_selected == i && current_index(b) == file_position(
        a.files@,
        t,
    ) by {
        assert forall|j: int| 0 <= j < i implies !#[trigger] rp(j) by {
            assert(!is_file_row(a.tree_rows@, t)(j));
        }
        lemma_first_match(m, rp, i);
    }
    if forall|i: int| 0 <= i < m ==> !#[trigger] is_file_row(a.tree_rows@, t)(i) {
        assert forall|j: int| 0 <= j < m implies !#[trigger] rp(j) by {
            assert(!is_file_row(a.tree_rows@, t)(j));
        }
        lemma_no_match(m, rp);
    }
}

/// Shift-Tab undoes Tab, and Tab undoes Shift-Tab, whenever the pane
/// started from is one that Tab can reach (the commits pane only while
/// it is shown).
pub proof fn lemma_focus_round_trip(p: FocusedPane, commits_visible: bool)
    requires
        p == FocusedPane::Commits ==> commits_visible,
    ensures
        prev_pane(next_pane(p, commits_visible), commits_visible) == p,
        next_pane(prev_pane(p, commits_visible), commits_visible) == p,
{
}

} // verus!
