//! The launch options, as plain values.

use vstd::prelude::*;

verus! {

/// What the command line asked for.
#[derive(Debug, Clone, Default)]
pub struct Cli {
    /// Path to a local git repository.
    pub repo: Option<String>,
    /// Base branch (or any git ref).
    pub base: Option<String>,
    /// Compare branch (or any git ref).
    pub compare: Option<String>,
    /// File path to focus when launching directly into the review screen.
    pub file: Option<String>,
    /// Open the focused file in fullscreen review mode.
    pub fullscreen: bool,
    /// Hide remote-tracking branches from the branch picker.
    pub no_remote_branches: bool,
    /// Relaunch in a new terminal window.
    pub new_window: bool,
    /// Start with word-level diff highlighting off.
    pub no_word_diff: bool,
    /// Start with syntax highlighting off.
    pub no_syntax: bool,
}

} // verus!
