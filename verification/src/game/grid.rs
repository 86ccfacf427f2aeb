//! The mathematical model of the board.
//!
//! A board is a sequence of rows, top row first; a row is a sequence of
//! cells, leftmost first. All contracts of the engine are stated over this
//! model.

use vstd::prelude::*;
use crate::game::tile::TileState;

verus! {

/// The smallest supported board size.
pub const MIN_SIZE: usize = 6;

/// The largest supported board size.
pub const MAX_SIZE: usize = 12;

/// `grid` has `n` rows of `n` cells each.
pub open spec fn square(grid: Seq<Seq<TileState>>, n: int) -> bool {
    &&& grid.len() == n
    &&& forall|r: int| 0 <= r < n ==> (#[trigger] grid[r]).len() == n
}

/// The occupant of the cell at (`row`, `column`); positions off the board
/// read as `Empty`.
pub open spec fn cell(grid: Seq<Seq<TileState>>, row: int, column: int) -> TileState {
    if 0 <= row < grid.len() && 0 <= column < grid[row].len() {
        grid[row][column]
    } else {
        TileState::Empty
    }
}

/// The `n` by `n` board with no piece on it.
pub open spec fn blank(n: nat) -> Seq<Seq<TileState>> {
    Seq::new(n, |r: int| Seq::new(n, |c: int| TileState::Empty))
}

/// `grid` with the cell at (`row`, `column`) replaced by `side`.
pub open spec fn placed(
    grid: Seq<Seq<TileState>>,
    row: int,
    column: int,
    side: TileState,
) -> Seq<Seq<TileState>> {
    grid.update(row, grid[row].update(column, side))
}

/// No cell of `column` is empty.
pub open spec fn column_full(grid: Seq<Seq<TileState>>, column: int) -> bool {
    forall|r: int| 0 <= r < grid.len() ==> cell(grid, r, column) != TileState::Empty
}

/// `row` is where a piece dropped into `column` comes to rest: the lowest
/// empty cell of that column.
pub open spec fn lands_at(grid: Seq<Seq<TileState>>, column: int, row: int) -> bool {
    &&& 0 <= row < grid.len()
    &&& 0 <= column < grid[row].len()
    &&& grid[row][column] == TileState::Empty
    &&& forall|r: int| row < r < grid.len() ==> cell(grid, r, column) != TileState::Empty
}

/// The row in which a piece dropped into `column` comes to rest. Meaningful
/// only while the column has an empty cell.
pub open spec fn landing_row(grid: Seq<Seq<TileState>>, column: int) -> int {
    choose|row: int| lands_at(grid, column, row)
}

/// `grid` after a piece of `side` was dropped into `column`.
pub open spec fn dropped(grid: Seq<Seq<TileState>>, column: int, side: TileState) -> Seq<
    Seq<TileState>,
> {
    placed(grid, landing_row(grid, column), column, side)
}

/// A column has at most one resting place.
pub proof fn lemma_landing_row_unique(grid: Seq<Seq<TileState>>, column: int, row: int)
    requires
        lands_at(grid, column, row),
    ensures
        landing_row(grid, column) == row,
{
    let other = landing_row(grid, column);
    assert(lands_at(grid, column, other));
    if other < row {
        assert(cell(grid, row, column) != TileState::Empty);
    } else if row < other {
        assert(cell(grid, other, column) != TileState::Empty);
    }
}

/// No cell of the board is empty.
pub open spec fn full(grid: Seq<Seq<TileState>>) -> bool {
    forall|c: int| 0 <= c < grid.len() ==> column_full(grid, c)
}

/// The cell reached from (`row`, `column`) after `steps` steps, each of
/// `down` rows and `right` columns.
pub open spec fn line_cell(
    grid: Seq<Seq<TileState>>,
    row: int,
    column: int,
    down: int,
    right: int,
    steps: int,
) -> TileState {
    cell(grid, row + steps * down, column + steps * right)
}

/// The four cells that start at (`row`, `column`) and advance by `down` rows
/// and `right` columns per step all hold `side`.
pub open spec fn four_from(
    grid: Seq<Seq<TileState>>,
    side: TileState,
    row: int,
    column: int,
    down: int,
    right: int,
) -> bool {
    &&& line_cell(grid, row, column, down, right, 0) == side
    &&& line_cell(grid, row, column, down, right, 1) == side
    &&& line_cell(grid, row, column, down, right, 2) == side
    &&& line_cell(grid, row, column, down, right, 3) == side
}

/// Some row holds four adjacent cells of `side`.
pub open spec fn row_line(grid: Seq<Seq<TileState>>, side: TileState) -> bool {
    exists|r: int, c: int|
        0 <= r < grid.len() && 0 <= c <= grid.len() - 4 && #[trigger] four_from(
            grid,
            side,
            r,
            c,
            0,
            1,
        )
}

/// Some column holds four adjacent cells of `side`.
pub open spec fn column_line(grid: Seq<Seq<TileState>>, side: TileState) -> bool {
    exists|r: int, c: int|
        0 <= r <= grid.len() - 4 && 0 <= c < grid.len() && #[trigger] four_from(
            grid,
            side,
            r,
            c,
            1,
            0,
        )
}

/// Some diagonal running down and to the right holds four adjacent cells of
/// `side`.
pub open spec fn falling_line(grid: Seq<Seq<TileState>>, side: TileState) -> bool {
    exists|r: int, c: int|
        0 <= r <= grid.len() - 4 && 0 <= c <= grid.len() - 4 && #[trigger] four_from(
            grid,
            side,
            r,
            c,
            1,
            1,
        )
}

/// Some diagonal running up and to the right holds four adjacent cells of
/// `side`.
pub open spec fn rising_line(grid: Seq<Seq<TileState>>, side: TileState) -> bool {
    exists|r: int, c: int|
        3 <= r < grid.len() && 0 <= c <= grid.len() - 4 && #[trigger] four_from(
            grid,
            side,
            r,
            c,
            -1,
            1,
        )
}

/// `side` has four in a line along a row or a column.
pub open spec fn straight_line(grid: Seq<Seq<TileState>>, side: TileState) -> bool {
    row_line(grid, side) || column_line(grid, side)
}

/// `side` has four in a line along a diagonal.
pub open spec fn diagonal_line(grid: Seq<Seq<TileState>>, side: TileState) -> bool {
    falling_line(grid, side) || rising_line(grid, side)
}

/// `side` has four in a line in some direction.
pub open spec fn wins(grid: Seq<Seq<TileState>>, side: TileState) -> bool {
    straight_line(grid, side) || diagonal_line(grid, side)
}

} // verus!
