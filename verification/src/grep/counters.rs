//! The flags that replace a search's lines by a number.

use vstd::prelude::*;

verus! {

/// The counting flags of a search. None of them goes together with an option.
#[derive(Debug, Clone, Copy, PartialEq, Eq, Structural)]
pub struct Counters {
    /// Print the number of lines that match.
    pub count: bool,
    /// Print the number of matches.
    pub total_count: bool,
}

impl Counters {
    /// Whether any flag of the group is set.
    pub open spec fn any_set(&self) -> bool {
        self.count || self.total_count
    }

    /// Whether any flag of the group is set.
    pub fn is_set(&self) -> (set: bool)
        ensures
            set == self.any_set(),
    {
        self.count || self.total_count
    }
}

} // verus!
