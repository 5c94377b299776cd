//! Failures reported by the codecs and by the status words of a card.

use vstd::prelude::*;

verus! {

/// Why a decode or a card exchange did not produce a result.
#[derive(Debug, Clone, Copy, PartialEq, Eq, Structural)]
pub enum CardError {
    /// A reader needed a byte that the buffer does not hold.
    Eof,
    /// The card answered `6A 81`.
    UnsupportedFeature,
    /// The card answered `6A 82` or `6A 83`.
    FileNotFound,
    /// The card answered with any other status that is not `90 00`.
    UnknownError,
}

} // verus!
