use vstd::prelude::*;

verus! {

/// Failures reported by the board, the legality engine and the loader.
#[derive(Debug, Clone, PartialEq, Eq)]
pub enum Error {
    /// A coordinate lies outside the board.
    InvalidPosition,
    /// No piece stands where one was expected.
    PieceNotFound,
    /// The destination is not among the currently computed moves or captures.
    IllegalMove,
    /// The target space already holds a piece.
    Occupied,
    /// A movement line could not be read; holds the resource, the line number (from 1) and the line.
    MalformedMovementRule { resource: String, line: usize, text: String },
    /// The companion image of a piece definition could not be loaded.
    AssetLoadError { path: String },
}

} // verus!
