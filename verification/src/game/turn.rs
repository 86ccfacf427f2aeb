//! Seating the players and taking turns.

use vstd::prelude::*;
use crate::game::Game;
use crate::game::error::GameError;
use crate::game::grid::{column_full, dropped, wins};
use crate::game::player::Player;
use crate::game::tile::TileState;

verus! {

/// The value of the turn marker after the turn passes to the other side.
pub open spec fn passed(next: u8) -> u8 {
    if next == 0 {
        1
    } else {
        0
    }
}

impl Game {
    /// Seats the two players. The first plays `P1`, the second `P2`.
    pub fn set_players(&mut self, first: String, second: String)
        ensures
            final(self).players.0 is Some,
            final(self).players.1 is Some,
            final(self).players.0->0.name == first,
            final(self).players.1->0.name == second,
            final(self).board == old(self).board,
            final(self).board_size == old(self).board_size,
            final(self).next == old(self).next,
    {
        self.players.0 = Some(Player::new(first));
        self.players.1 = Some(Player::new(second));
    }

    /// Passes the turn to the other side.
    pub fn switch(&mut self)
        ensures
            final(self).next == passed(old(self).next),
            final(self).players == old(self).players,
            final(self).board == old(self).board,
            final(self).board_size == old(self).board_size,
    {
        let next: u8 = if self.next == 0 {
            1
        } else {
            0
        };
        self.next = next;
    }

    /// The name and the side of the player whose turn it is.
    pub fn get_current_player(&self) -> (current: (&str, TileState))
        requires
            self.has_players(),
        ensures
            current.0@ == (if self.next == 0 {
                self.players.0->0.name@
            } else {
                self.players.1->0.name@
            }),
            current.1 == self.side_to_move(),
    {
        if self.next == 0 {
            (self.players.0.as_ref().unwrap().name.as_str(), TileState::P1)
        } else {
            (self.players.1.as_ref().unwrap().name.as_str(), TileState::P2)
        }
    }

    /// Plays one turn for the side to move. `entry` is the column as the
    /// player counts it, starting at 1.
    ///
    /// The piece is dropped into that column. If that completes four in a
    /// line the answer is `true` and the turn stays where it is: the game is
    /// over and the side to move has won. Otherwise the answer is `false` and
    /// the turn passes to the other side.
    ///
    /// An entry of 0 or beyond the last column is refused with `OutOfBound`,
    /// a column without an empty cell with `MoveLimited`. A refused turn
    /// changes nothing, and the same side is to move again.
    pub fn play(&mut self, entry: usize) -> (outcome: Result<bool, GameError>)
        requires
            old(self).has_board(),
        ensures
            final(self).has_board(),
            final(self).players == old(self).players,
            final(self).board_size == old(self).board_size,
            entry == 0 || entry > old(self).size() ==> outcome == Err::<bool, GameError>(
                GameError::OutOfBound(old(self).size() as usize),
            ),
            1 <= entry <= old(self).size() && column_full(old(self).grid(), entry - 1) ==> outcome
                == Err::<bool, GameError>(GameError::MoveLimited),
            1 <= entry <= old(self).size() && !column_full(old(self).grid(), entry - 1)
                ==> outcome is Ok,
            outcome is Ok ==> final(self).grid() == dropped(
                old(self).grid(),
                entry - 1,
                old(self).side_to_move(),
            ),
            outcome is Ok ==> outcome->Ok_0 == wins(final(self).grid(), old(self).side_to_move()),
            outcome == Ok::<bool, GameError>(true) ==> final(self).next == old(self).next,
            outcome == Ok::<bool, GameError>(false) ==> final(self).next == passed(old(self).next),
            outcome is Err ==> *final(self) == *old(self),
    {
        let size = self.board_size.unwrap_or(0);
        if entry == 0 {
            return Err(GameError::OutOfBound(size));
        }
        let state = if self.next == 0 {
            TileState::P1
        } else {
            TileState::P2
        };
        match self.select(entry - 1, state) {
            Ok(_) => {
                let win = self.validate();
                if !win {
                    self.switch();
                }
                Ok(win)
            },
            Err(refusal) => Err(refusal),
        }
    }
}

} // verus!
