//! Why a request to the engine was turned down.

use vstd::prelude::*;

verus! {

/// A recoverable refusal. The game is left exactly as it was.
#[derive(Debug, Clone, Copy, PartialEq, Eq, Structural)]
pub enum GameError {
    /// The column does not exist; carries the board size.
    OutOfBound(usize),
    /// Every cell of the column is taken.
    MoveLimited,
    /// The requested board size is outside the supported range.
    BoardSizeLimit,
}

} // verus!
