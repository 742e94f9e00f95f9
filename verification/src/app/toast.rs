//! Short-lived status messages.

use vstd::prelude::*;

verus! {

#[derive(Debug, Clone, Copy, PartialEq, Eq, Structural)]
pub enum ToastKind {
    Info,
    Error,
}

/// A message shown for a few seconds; `created` is in milliseconds on the
/// clock the caller passes in.
#[derive(Debug, Clone)]
pub struct Toast {
    pub message: String,
    pub created: u64,
    pub kind: ToastKind,
}

} // verus!
