//! The overlay that takes input ahead of the screen underneath it.

use crate::app::{BranchSlot, Picker};
use vstd::prelude::*;

verus! {

#[derive(Debug, Clone)]
pub enum Modal {
    BranchPicker { which: BranchSlot, picker: Picker },
    FileFilter { picker: Picker },
    CommandPalette { picker: Picker },
    HelpOverlay,
    Error { message: String },
}

} // verus!
