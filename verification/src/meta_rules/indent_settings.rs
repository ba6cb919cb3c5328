//! Indentation settings for reading lines.

use vstd::prelude::*;

verus! {

/// Stores indent settings.
#[derive(Clone, Copy, Debug, PartialEq, Eq)]
pub struct IndentSettings {
    /// The current indention.
    pub indent: u32,
    /// Whether the first line of an indented block sets the indention.
    pub align_first: bool,
    /// The number of spaces a tab counts for.
    pub tab_spaces: u32,
}

impl Default for IndentSettings {
    fn default() -> (s: IndentSettings)
        ensures
            s.indent == 0,
            s.align_first,
            s.tab_spaces == 4,
    {
        IndentSettings { indent: 0, align_first: true, tab_spaces: 4 }
    }
}

} // verus!
