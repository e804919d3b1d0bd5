//! The flags that shape what a search prints.

use vstd::prelude::*;

verus! {

/// The output flags of a search. None of them goes together with a counter.
#[derive(Debug, Clone, Copy, PartialEq, Eq, Structural)]
pub struct Options {
    /// Print the paths of the files that match, not their lines.
    pub files_with_matches: bool,
    /// Prefix each printed line with its number.
    pub line_number: bool,
    /// Select the lines that do not match.
    pub invert_match: bool,
    /// Print only the matched parts of each selected line.
    pub only_matching: bool,
}

impl Options {
    /// Whether any flag of the group is set.
    pub open spec fn any_set(&self) -> bool {
        self.files_with_matches || self.line_number || self.invert_match || self.only_matching
    }

    /// Whether any flag of the group is set.
    pub fn is_set(&self) -> (set: bool)
        ensures
            set == self.any_set(),
    {
        self.files_with_matches || self.line_number || self.invert_match || self.only_matching
    }
}

} // verus!
