//! The flags that say what a find looks at.

use vstd::prelude::*;

verus! {

/// The search criteria of a find.
#[derive(Debug, Clone, Copy, PartialEq, Eq, Structural)]
pub struct Options {
    /// Search by name.
    pub name: bool,
}

} // verus!
