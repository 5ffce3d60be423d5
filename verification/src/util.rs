//! Small shared items that fit no other module.

use vstd::prelude::*;

verus! {

/// Default number of terminal columns assumed when no real width is known.
pub const DEFAULT_MAX_TERM_COLS: usize = 80;

/// Order in which symbol listings are sorted.
#[derive(Copy, Clone, PartialEq, Eq, Structural, Debug)]
pub enum SortOrder {
    Ascending,
    Descending,
}

} // verus!
