//! Win detection: four of one side in a row, a column or a diagonal.

use vstd::prelude::*;
use crate::game::Game;
use crate::game::grid::{
    cell, column_line, diagonal_line, falling_line, four_from, rising_line, row_line,
    straight_line, wins,
};
use crate::game::tile::TileState;

verus! {

impl Game {
    /// Whether `state` holds four adjacent cells of some row or some column.
    ///
    /// Each row is scanned left to right, and each column top to bottom,
    /// counting the current run of `state`; a run never carries over from
    /// one row or column into the next.
    pub fn validate_straight(&self, state: TileState) -> (won: bool)
        requires
            self.has_board(),
        ensures
            won == straight_line(self.grid(), state),
    {
        let size = self.board_size.unwrap_or(0);
        let mut row: usize = 0;
        while row < size
            invariant
                row <= size,
                size == self.size(),
                self.has_board(),
                forall|r: int, c: int|
                    0 <= r < row && 0 <= c <= size - 4 ==> !#[trigger] four_from(
                        self.grid(),
                        state,
                        r,
                        c,
                        0,
                        1,
                    ),
            decreases size - row,
        {
            let mut hoz_counter: usize = 0;
            let mut column: usize = 0;
            while column < size
                invariant
                    column <= size,
                    row < size,
                    size == self.size(),
                    self.has_board(),
                    hoz_counter < 4,
                    hoz_counter <= column,
                    forall|k: int|
                        column - hoz_counter <= k < column ==> cell(self.grid(), row as int, k)
                            == state,
                    hoz_counter < column ==> cell(
                        self.grid(),
                        row as int,
                        column - hoz_counter - 1,
                    ) != state,
                    forall|c: int|
                        0 <= c && c + 4 <= column ==> !#[trigger] four_from(
                            self.grid(),
                            state,
                            row as int,
                            c,
                            0,
                            1,
                        ),
                decreases size - column,
            {
                if self.get_tile_state(row, column) == state {
                    hoz_counter += 1;
                } else {
                    hoz_counter = 0;
                }
                if hoz_counter == 4 {
                    assert(four_from(self.grid(), state, row as int, column - 3, 0, 1));
                    return true;
                }
                assert(column >= 3 ==> !four_from(
                    self.grid(),
                    state,
                    row as int,
                    column - 3,
                    0,
                    1,
                ));
                column += 1;
            }
            row += 1;
        }
        assert(!row_line(self.grid(), state));

        let mut column: usize = 0;
        while column < size
            invariant
                column <= size,
                size == self.size(),
                self.has_board(),
                forall|r: int, c: int|
                    0 <= r <= size - 4 && 0 <= c < column ==> !#[trigger] four_from(
                        self.grid(),
                        state,
                        r,
                        c,
                        1,
                        0,
                    ),
            decreases size - column,
        {
            let mut ver_counter: usize = 0;
            let mut row: usize = 0;
            while row < size
                invariant
                    row <= size,
                    column < size,
                    size == self.size(),
                    self.has_board(),
                    ver_counter < 4,
                    ver_counter <= row,
                    forall|k: int|
                        row - ver_counter <= k < row ==> cell(self.grid(), k, column as int)
                            == state,
                    ver_counter < row ==> cell(self.grid(), row - ver_counter - 1, column as int)
                        != state,
                    forall|r: int|
                        0 <= r && r + 4 <= row ==> !#[trigger] four_from(
                            self.grid(),
                            state,
                            r,
                            column as int,
                            1,
                            0,
                        ),
                decreases size - row,
            {
                if self.get_tile_state(row, column) == state {
                    ver_counter += 1;
                } else {
                    ver_counter = 0;
                }
                if ver_counter == 4 {
                    assert(four_from(self.grid(), state, row - 3, column as int, 1, 0));
                    return true;
                }
                assert(row >= 3 ==> !four_from(self.grid(), state, row - 3, column as int, 1, 0));
                row += 1;
            }
            column += 1;
        }
        assert(!column_line(self.grid(), state));
        false
    }

    /// Whether `state` holds four adjacent cells of some diagonal.
    ///
    /// Every cell that can start a diagonal of four inside the board is
    /// tried, first for diagonals that run down to the right, then for those
    /// that run up to the right.
    pub fn validate_diagonal(&self, state: TileState) -> (won: bool)
        requires
            self.has_board(),
        ensures
            won == diagonal_line(self.grid(), state),
    {
        let size = self.board_size.unwrap_or(0);
        let mut row: usize = 0;
        while row < size - 3
            invariant
                row <= size - 3,
                size == self.size(),
                self.has_board(),
                forall|r: int, c: int|
                    0 <= r < row && 0 <= c <= size - 4 ==> !#[trigger] four_from(
                        self.grid(),
                        state,
                        r,
                        c,
                        1,
                        1,
                    ),
            decreases size - row,
        {
            let mut column: usize = 0;
            while column < size - 3
                invariant
                    column <= size - 3,
                    row < size - 3,
                    size == self.size(),
                    self.has_board(),
                    forall|c: int|
                        0 <= c < column ==> !#[trigger] four_from(
                            self.grid(),
                            state,
                            row as int,
                            c,
                            1,
                            1,
                        ),
                decreases size - column,
            {
                let check = self.check_diagonal_win(true, state, row, column);
                if check {
                    return true;
                }
                column += 1;
            }
            row += 1;
        }
        assert(!falling_line(self.grid(), state));

        let mut row: usize = 3;
        while row < size
            invariant
                3 <= row <= size,
                size == self.size(),
                self.has_board(),
                forall|r: int, c: int|
                    3 <= r < row && 0 <= c <= size - 4 ==> !#[trigger] four_from(
                        self.grid(),
                        state,
                        r,
                        c,
                        -1,
                        1,
                    ),
            decreases size - row,
        {
            let mut column: usize = 0;
            while column < size - 3
                invariant
                    column <= size - 3,
                    3 <= row < size,
                    size == self.size(),
                    self.has_board(),
                    forall|c: int|
                        0 <= c < column ==> !#[trigger] four_from(
                            self.grid(),
                            state,
                            row as int,
                            c,
                            -1,
                            1,
                        ),
                decreases size - column,
            {
                let check = self.check_diagonal_win(false, state, row, column);
                if check {
                    return true;
                }
                column += 1;
            }
            row += 1;
        }
        assert(!rising_line(self.grid(), state));
        false
    }

    /// Whether the side to move has four in a line in any direction.
    pub fn validate(&self) -> (won: bool)
        requires
            self.has_board(),
        ensures
            won == wins(self.grid(), self.side_to_move()),
    {
        let state = if self.next == 0 {
            TileState::P1
        } else {
            TileState::P2
        };
        let straight_check = self.validate_straight(state);
        let diagonal_check = self.validate_diagonal(state);
        straight_check || diagonal_check
    }

    /// Whether the four cells of the diagonal that starts at (`r_start`,
    /// `c_start`) all hold `state`. The diagonal advances one column to the
    /// right per step, and one row down when `downward` is set, one row up
    /// otherwise. Cells off the board count as `Empty`.
    pub fn check_diagonal_win(
        &self,
        downward: bool,
        state: TileState,
        r_start: usize,
        c_start: usize,
    ) -> (won: bool)
        ensures
            won == four_from(
                self.grid(),
                state,
                r_start as int,
                c_start as int,
                if downward {
                    1
                } else {
                    -1
                },
                1,
            ),
    {
        proof {
            self.grid_fits_machine();
        }
        let t1: TileState = self.get_tile_state(r_start, c_start);
        let t2: TileState;
        let t3: TileState;
        let t4: TileState;
        if downward {
            t2 = self.probe(r_start.checked_add(1), c_start.checked_add(1));
            t3 = self.probe(r_start.checked_add(2), c_start.checked_add(2));
            t4 = self.probe(r_start.checked_add(3), c_start.checked_add(3));
        } else {
            t2 = self.probe(r_start.checked_sub(1), c_start.checked_add(1));
            t3 = self.probe(r_start.checked_sub(2), c_start.checked_add(2));
            t4 = self.probe(r_start.checked_sub(3), c_start.checked_add(3));
        }
        t1 == state && t2 == state && t3 == state && t4 == state
    }

    /// Reads a cell whose coordinates come out of checked arithmetic: a
    /// coordinate that left the range of the machine integer is off the
    /// board.
    fn probe(&self, row: Option<usize>, column: Option<usize>) -> (state: TileState)
        ensures
            state == (match (row, column) {
                (Some(r), Some(c)) => cell(self.grid(), r as int, c as int),
                _ => TileState::Empty,
            }),
    {
        match (row, column) {
            (Some(r), Some(c)) => self.get_tile_state(r, c),
            _ => TileState::Empty,
        }
    }
}

} // verus!
