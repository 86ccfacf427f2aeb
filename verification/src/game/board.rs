//! Setting up the board, reading cells and dropping pieces.

use vstd::prelude::*;
use crate::game::Game;
use crate::game::error::GameError;
use crate::game::grid::{
    blank, cell, column_full, dropped, full, landing_row, lands_at, lemma_landing_row_unique,
    placed, MAX_SIZE, MIN_SIZE,
};
use crate::game::tile::{Tile, TileState};

verus! {

impl Game {
    /// Lays out an empty board of `num` rows and `num` columns, replacing any
    /// board already there. Sizes outside the supported range are refused
    /// and leave the game untouched.
    pub fn set_board(&mut self, num: usize) -> (outcome: Result<(), GameError>)
        ensures
            MIN_SIZE <= num <= MAX_SIZE ==> outcome is Ok,
            num < MIN_SIZE || num > MAX_SIZE ==> outcome == Err::<(), GameError>(
                GameError::BoardSizeLimit,
            ),
            outcome is Ok ==> final(self).has_board(),
            outcome is Ok ==> final(self).size() == num,
            outcome is Ok ==> final(self).grid() == blank(num as nat),
            outcome is Ok ==> final(self).players == old(self).players,
            outcome is Ok ==> final(self).next == old(self).next,
            outcome is Err ==> *final(self) == *old(self),
    {
        if num < MIN_SIZE || num > MAX_SIZE {
            return Err(GameError::BoardSizeLimit);
        }
        let mut rows: Vec<Vec<Tile>> = Vec::new();
        let mut r: usize = 0;
        while r < num
            invariant
                r <= num,
                rows@.len() == r,
                forall|i: int| 0 <= i < r ==> (#[trigger] rows@[i])@.len() == num,
                forall|i: int, j: int|
                    0 <= i < r && 0 <= j < num ==> (#[trigger] rows@[i]@[j]).state
                        == TileState::Empty,
            decreases num - r,
        {
            let mut line: Vec<Tile> = Vec::new();
            let mut c: usize = 0;
            while c < num
                invariant
                    c <= num,
                    line@.len() == c,
                    forall|j: int| 0 <= j < c ==> (#[trigger] line@[j]).state == TileState::Empty,
                decreases num - c,
            {
                line.push(Tile::new());
                c += 1;
            }
            rows.push(line);
            r += 1;
        }
        self.board = Some(rows);
        self.board_size = Some(num);
        assert(self.grid() =~~= blank(num as nat));
        Ok(())
    }

    /// Reads the cell at (`row`, `column`). Positions off the board, and
    /// every position before the board is set, read as `Empty`.
    pub fn get_tile_state(&self, row: usize, column: usize) -> (state: TileState)
        ensures
            state == cell(self.grid(), row as int, column as int),
    {
        match &self.board {
            Some(rows) => {
                if row < rows.len() && column < rows[row].len() {
                    rows[row][column].state
                } else {
                    TileState::Empty
                }
            },
            None => TileState::Empty,
        }
    }

    /// Drops a piece of `state` into `column`. The piece comes to rest in the
    /// lowest empty cell of the column, and the row of that cell is returned.
    ///
    /// A column that does not exist is refused with `OutOfBound`, carrying
    /// the board size; a column without an empty cell is refused with
    /// `MoveLimited`. A refused drop changes nothing.
    pub fn select(&mut self, column: usize, state: TileState) -> (outcome: Result<
        usize,
        GameError,
    >)
        requires
            old(self).has_board(),
        ensures
            final(self).has_board(),
            final(self).players == old(self).players,
            final(self).board_size == old(self).board_size,
            final(self).next == old(self).next,
            column >= old(self).size() ==> outcome == Err::<usize, GameError>(
                GameError::OutOfBound(old(self).size() as usize),
            ),
            column < old(self).size() && column_full(old(self).grid(), column as int) ==> outcome
                == Err::<usize, GameError>(GameError::MoveLimited),
            column < old(self).size() && !column_full(old(self).grid(), column as int)
                ==> outcome is Ok,
            outcome is Ok ==> lands_at(old(self).grid(), column as int, outcome->Ok_0 as int),
            outcome is Ok ==> outcome->Ok_0 == landing_row(old(self).grid(), column as int),
            outcome is Ok ==> final(self).grid() == dropped(old(self).grid(), column as int, state),
            outcome is Err ==> *final(self) == *old(self),
    {
        let size = self.board_size.unwrap_or(0);
        if column >= size {
            return Err(GameError::OutOfBound(size));
        }
        let ghost before = self.grid();
        let mut row: usize = size;
        while row > 0
            invariant
                row <= size,
                column < size,
                size == self.size(),
                self.has_board(),
                *self == *old(self),
                before == self.grid(),
                forall|r: int|
                    row <= r < size ==> cell(before, r, column as int) != TileState::Empty,
            decreases row,
        {
            row -= 1;
            if self.get_tile_state(row, column) == TileState::Empty {
                assert(before[row as int].len() == size);
                match &mut self.board {
                    Some(rows) => {
                        rows[row][column].set_state(state);
                    },
                    None => {},
                }
                assert(self.grid() =~~= placed(before, row as int, column as int, state));
                proof {
                    lemma_landing_row_unique(before, column as int, row as int);
                }
                return Ok(row);
            }
        }
        Err(GameError::MoveLimited)
    }

    /// Whether every cell of the board is taken, so that no column accepts
    /// another piece.
    pub fn is_full(&self) -> (answer: bool)
        ensures
            answer == full(self.grid()),
    {
        let size = match &self.board {
            Some(rows) => rows.len(),
            None => 0,
        };
        let mut column: usize = 0;
        while column < size
            invariant
                column <= size,
                size == self.grid().len(),
                forall|c: int| 0 <= c < column ==> column_full(self.grid(), c),
            decreases size - column,
        {
            let mut row: usize = 0;
            while row < size
                invariant
                    row <= size,
                    column < size,
                    size == self.grid().len(),
                    forall|r: int|
                        0 <= r < row ==> cell(self.grid(), r, column as int) != TileState::Empty,
                decreases size - row,
            {
                if self.get_tile_state(row, column) == TileState::Empty {
                    assert(!column_full(self.grid(), column as int));
                    return false;
                }
                row += 1;
            }
            column += 1;
        }
        true
    }
}

} // verus!
