//! User preferences that persist between sessions.

use vstd::prelude::*;

verus! {

/// User preferences that persist between sessions.
#[derive(Debug, Clone, Copy, PartialEq, Eq, Structural)]
pub struct Config {
    pub word_diff: bool,
    pub syntax_highlight: bool,
}

impl Default for Config {
    fn default() -> (r: Config)
        ensures
            r.word_diff,
            r.syntax_highlight,
    {
        Config { word_diff: true, syntax_highlight: true }
    }
}

} // verus!
