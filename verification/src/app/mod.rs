//! Application state and the small self-contained pieces it is made of.

pub mod completion;
pub mod effect;
pub mod modal;
pub mod pending;
pub mod picker;
pub mod search;
pub mod state;
pub mod text_input;
pub mod toast;

pub use effect::Effect;
pub use modal::Modal;
pub use pending::{bump, next_id, CommitDiffState, PendingOps, ReqIds};
pub use picker::Picker;
pub use search::{DiffMatch, DiffSearch};
pub use state::App;
pub use text_input::TextInput;
pub use toast::{Toast, ToastKind};

use vstd::prelude::*;

verus! {

#[derive(Debug, Clone, Copy, PartialEq, Eq, Structural)]
pub enum Screen {
    Setup,
    Review,
    Fullscreen,
}

#[derive(Debug, Clone, Copy, PartialEq, Eq, Structural)]
pub enum FocusedPane {
    Sidebar,
    Diff,
    Commits,
}

#[derive(Debug, Clone, Copy, PartialEq, Eq, Structural)]
pub enum SidebarMode {
    Flat,
    Tree,
}

#[derive(Debug, Clone, Copy, PartialEq, Eq, Structural)]
pub enum DiffMode {
    Unified,
    Split,
}

#[derive(Debug, Clone, Copy, PartialEq, Eq, Structural)]
pub enum SetupField {
    Repo,
    Base,
    Compare,
    Remote,
    Submit,
}

#[derive(Debug, Clone, Copy, PartialEq, Eq, Structural)]
pub enum BranchSlot {
    Base,
    Compare,
}

} // verus!
