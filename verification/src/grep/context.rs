//! How many lines around a hit are shown.

use vstd::prelude::*;

verus! {

/// The context flags of a search.
#[derive(Debug, Clone, Copy, PartialEq, Eq, Structural)]
pub struct Context {
    /// Lines shown after each hit.
    pub after_context: usize,
    /// Lines shown before each hit.
    pub before_context: usize,
    /// Lines shown on both sides; when positive it replaces the other two.
    pub context: usize,
}

impl Context {
    /// The number of lines shown before a hit.
    pub open spec fn before_lines(&self) -> usize {
        if self.context > 0 {
            self.context
        } else {
            self.before_context
        }
    }

    /// The number of lines shown after a hit.
    pub open spec fn after_lines(&self) -> usize {
        if self.context > 0 {
            self.context
        } else {
            self.after_context
        }
    }

    /// The window in force, as `(before, after)`.
    pub fn window(&self) -> (sides: (usize, usize))
        ensures
            sides.0 == self.before_lines(),
            sides.1 == self.after_lines(),
    {
        if self.context > 0 {
            (self.context, self.context)
        } else {
            (self.before_context, self.after_context)
        }
    }
}

} // verus!
