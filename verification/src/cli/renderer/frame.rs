//! One screen of text.
use vstd::prelude::*;

verus! {

/// The lines of one screen, and whether the screen is cleared before they
/// are drawn.
#[derive(Debug, Clone)]
pub struct Frame {
    pub lines: Vec<String>,
    pub requires_clear: bool,
}

impl Frame {
    /// A frame of `lines` drawn on a cleared screen.
    pub fn new(lines: Vec<String>) -> (f: Self)
        ensures
            f.lines == lines,
            f.requires_clear,
    {
        Self { lines, requires_clear: true }
    }

    /// A frame of `lines`, cleared first when `requires_clear` holds.
    pub fn with_clear_flag(lines: Vec<String>, requires_clear: bool) -> (f: Self)
        ensures
            f.lines == lines,
            f.requires_clear == requires_clear,
    {
        Self { lines, requires_clear }
    }

    /// Sets whether the screen is cleared first.
    pub fn set_requires_clear(&mut self, requires_clear: bool)
        ensures
            final(self).lines == old(self).lines,
            final(self).requires_clear == requires_clear,
    {
        self.requires_clear = requires_clear;
    }
}

} // verus!
