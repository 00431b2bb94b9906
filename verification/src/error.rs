//! The errors the library reports.

use vstd::prelude::*;

verus! {

/// What can go wrong while a turn is processed.
#[derive(Clone, Copy, PartialEq, Eq, Structural, Debug)]
pub enum Error {
    /// The game transcript could not be rendered in contextual notation.
    Convert,
    /// A candidate text parses in neither notation.
    ParseMove,
    /// A candidate move is against the rules in the current position.
    IllegalMove,
    /// The latest post does not carry a readable post record.
    NotFeedPostRecord,
    /// The latest post's thread view is not navigable.
    NotThreadViewPost,
}

} // verus!
