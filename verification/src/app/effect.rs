//! Work the application state asks its host to carry out: git loads, disk
//! writes and directory scans. The host performs them in order and feeds
//! each outcome back as an event.

use crate::app::toast::ToastKind;
use vstd::prelude::*;

verus! {

#[derive(Debug, Clone)]
pub enum Effect {
    /// List the branches of `repo` (after checking it is a repository).
    LoadBranches { req_id: u64, repo: String, include_remote: bool },
    /// Load the diff `base..compare` of `repo`.
    LoadDiff { req_id: u64, repo: String, base: String, compare: String },
    /// Load the commits `base..compare` of `repo`.
    LoadCommits { req_id: u64, repo: String, base: String, compare: String },
    /// Load the diff of one commit.
    LoadCommitDiff { req_id: u64, repo: String, hash: String },
    /// Load the blame of `file` at `git_ref`.
    LoadBlame { repo: String, git_ref: String, file: String },
    /// List the directories that complete the repository field.
    ScanRepoDir,
    /// Write the reviewed-files store to disk.
    FlushStore,
    /// Write the preferences to disk.
    SaveConfig,
    /// Open the theme file in the desktop's default application.
    EditTheme,
    /// Show a notice once the effects queued before it are done, so that a
    /// failure they report comes first.
    Notify { message: String, kind: ToastKind },
}

} // verus!
