//! The game engine: board, moves, turn order and win detection.

pub mod board;
pub mod detect;
pub mod error;
pub mod grid;
pub mod laws;
pub mod player;
pub mod render;
pub mod tile;
pub mod turn;

use vstd::prelude::*;
use crate::game::grid::{square, MAX_SIZE, MIN_SIZE};
use crate::game::player::Player;
use crate::game::tile::{Tile, TileState};

verus! {

/// A game in progress: who plays, the board, and whose turn it is.
///
/// A game starts without players and without a board; both are supplied
/// before the first move.
#[derive(Debug)]
pub struct Game {
    /// The player of `P1`, then the player of `P2`.
    pub players: (Option<Player>, Option<Player>),
    /// The rows of the board, top row first; each row from left to right.
    pub board: Option<Vec<Vec<Tile>>>,
    /// The number of rows, which is also the number of columns.
    pub board_size: Option<usize>,
    /// Whose turn it is: 0 for the first player, anything else for the
    /// second.
    pub next: u8,
}

impl Game {
    /// The board as rows of cell states, top row first. A game without a
    /// board has the empty grid.
    pub open spec fn grid(&self) -> Seq<Seq<TileState>> {
        match self.board {
            Some(rows) => Seq::new(
                rows@.len(),
                |r: int| Seq::new(rows@[r]@.len(), |c: int| rows@[r]@[c].state),
            ),
            None => Seq::empty(),
        }
    }

    /// The number of rows and of columns, or 0 before the board is set.
    pub open spec fn size(&self) -> int {
        match self.board_size {
            Some(n) => n as int,
            None => 0,
        }
    }

    /// The board is in place: square, of a supported size, and of the
    /// recorded size.
    pub open spec fn has_board(&self) -> bool {
        &&& self.board is Some
        &&& self.board_size is Some
        &&& MIN_SIZE <= self.size() <= MAX_SIZE
        &&& square(self.grid(), self.size())
    }

    /// Both players are seated.
    pub open spec fn has_players(&self) -> bool {
        self.players.0 is Some && self.players.1 is Some
    }

    /// The side whose turn it is.
    pub open spec fn side_to_move(&self) -> TileState {
        if self.next == 0 {
            TileState::P1
        } else {
            TileState::P2
        }
    }

    /// No row and no column of the board has an index beyond the largest
    /// machine integer.
    proof fn grid_fits_machine(&self)
        ensures
            self.grid().len() <= usize::MAX,
            forall|r: int|
                0 <= r < self.grid().len() ==> (#[trigger] self.grid()[r]).len() <= usize::MAX,
    {
        match self.board {
            Some(rows) => {
                vstd::std_specs::vec::axiom_spec_len(&rows);
                assert forall|r: int| 0 <= r < self.grid().len() implies (#[trigger] self.grid()[
                    r
                ]).len() <= usize::MAX by {
                    vstd::std_specs::vec::axiom_spec_len(&rows@[r]);
                }
            },
            None => {},
        }
    }

    /// A game with no players and no board; the first player moves first.
    pub fn new() -> (game: Self)
        ensures
            game.players.0 is None,
            game.players.1 is None,
            game.board is None,
            game.board_size is None,
            game.next == 0,
    {
        Game { players: (None, None), board: None, board_size: None, next: 0 }
    }
}

} // verus!
