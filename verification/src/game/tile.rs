//! Cells of the board.

use vstd::prelude::*;

verus! {

/// Who occupies a cell, if anyone.
#[derive(Debug, Clone, Copy, PartialEq, Eq, Structural)]
pub enum TileState {
    /// Nobody: the cell is free.
    Empty,
    /// A piece of the first player.
    P1,
    /// A piece of the second player.
    P2,
}

/// One cell of the board.
#[derive(Debug, Clone, Copy)]
pub struct Tile {
    /// The occupant of the cell.
    pub state: TileState,
}

impl Tile {
    /// An unoccupied cell.
    pub fn new() -> (tile: Self)
        ensures
            tile.state == TileState::Empty,
    {
        Tile { state: TileState::Empty }
    }

    /// Replaces the occupant of the cell.
    pub fn set_state(&mut self, state: TileState)
        ensures
            final(self).state == state,
    {
        self.state = state
    }
}

} // verus!
