//! Request ids and loading flags for the asynchronous git operations.

use crate::text::str_eq;
use vstd::prelude::*;

verus! {

/// Monotonic request-id counters per git operation. Bumped before a load
/// starts; a result whose id is not the current one is stale and dropped.
#[derive(Debug, Clone, Copy, Default, PartialEq, Eq, Structural)]
pub struct ReqIds {
    pub branches: u64,
    pub diff: u64,
    pub commits: u64,
    pub commit_diff: u64,
}

/// Which loads are in flight; always paired with `ReqIds`.
#[derive(Debug, Clone, Default)]
pub struct PendingOps {
    pub branches: bool,
    pub diff: bool,
    pub commits: bool,
    pub commit_diff: CommitDiffState,
}

/// Loading state of the per-commit diff; `Loading` carries the hash whose
/// result is awaited.
#[derive(Debug, Clone, Default)]
pub enum CommitDiffState {
    #[default]
    Idle,
    Loading(String),
}

/// The id after `x`, wrapping at the top of the range.
pub open spec fn next_id(x: u64) -> u64 {
    if x == u64::MAX {
        0
    } else {
        (x + 1) as u64
    }
}

/// Bumps a request id.
pub fn bump(x: u64) -> (r: u64)
    ensures
        r == next_id(x),
{
    x.wrapping_add(1)
}

impl CommitDiffState {
    /// Whether the diff of `hash` is being loaded.
    pub fn is_loading(&self, hash: &str) -> (r: bool)
        ensures
            r == (match self {
                CommitDiffState::Loading(h) => h@ == hash@,
                CommitDiffState::Idle => false,
            }),
    {
        match self {
            CommitDiffState::Loading(h) => str_eq(h.as_str(), hash),
            CommitDiffState::Idle => false,
        }
    }

    /// Whether any commit diff is being loaded.
    pub fn is_active(&self) -> (r: bool)
        ensures
            r == (*self is Loading),
    {
        match self {
            CommitDiffState::Loading(_) => true,
            CommitDiffState::Idle => false,
        }
    }
}

impl PendingOps {
    /// Nothing in flight.
    pub fn idle() -> (r: PendingOps)
        ensures
            !r.branches,
            !r.diff,
            !r.commits,
            r.commit_diff is Idle,
    {
        PendingOps { branches: false, diff: false, commits: false, commit_diff: CommitDiffState::Idle }
    }
}

} // verus!
