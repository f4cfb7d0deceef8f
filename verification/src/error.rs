//! The library's error type.

use vstd::prelude::*;

verus! {

/// Errors reported by the board-representation core.
///
/// The `Invalid*` variants come from fallible conversions; `SearchExhausted`
/// is the fatal build-time outcome of the magic-number search exceeding its
/// trial cap.
#[derive(Debug, PartialEq, Eq, Clone, Copy, Structural)]
pub enum Error {
    InvalidColor,
    InvalidRank,
    InvalidFile,
    InvalidSquare,
    InvalidPieceType,
    SearchExhausted,
}

} // verus!
