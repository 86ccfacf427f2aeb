//! Laws of the game, proved over the model of the board.
//!
//! The contracts of the engine say what a single call does. The laws here
//! say what follows for whole games: how a column fills up, what a drop can
//! and cannot change, and which boards are won.

use vstd::prelude::*;
use crate::game::grid::{
    blank, cell, column_full, column_line, dropped, falling_line, four_from, full, landing_row,
    lands_at, lemma_landing_row_unique, line_cell, placed, rising_line, row_line, square, wins,
};
use crate::game::tile::TileState;

verus! {

/// A fresh board of any size from 1 up is square, every cell of it is empty,
/// and it is not full.
pub proof fn lemma_fresh_board_is_empty(n: nat)
    requires
        1 <= n,
    ensures
        square(blank(n), n as int),
        forall|r: int, c: int| cell(blank(n), r, c) == TileState::Empty,
        forall|c: int| 0 <= c < n ==> !column_full(blank(n), c),
        !full(blank(n)),
{
    assert forall|c: int| 0 <= c < n implies !column_full(blank(n), c) by {
        assert(cell(blank(n), 0, c) == TileState::Empty);
    }
    assert(!column_full(blank(n), 0));
}

/// The lowest `height` cells of `column` are taken and all cells above them
/// are empty.
pub open spec fn stacked(grid: Seq<Seq<TileState>>, column: int, height: int) -> bool {
    &&& 0 <= height <= grid.len()
    &&& forall|r: int| 0 <= r < grid.len() - height ==> cell(grid, r, column) == TileState::Empty
    &&& forall|r: int|
        grid.len() - height <= r < grid.len() ==> cell(grid, r, column) != TileState::Empty
}

/// `grid` after one piece for each entry of `sides` was dropped into
/// `column`, in order.
pub open spec fn drops(grid: Seq<Seq<TileState>>, column: int, sides: Seq<TileState>) -> Seq<
    Seq<TileState>,
>
    decreases sides.len(),
{
    if sides.len() == 0 {
        grid
    } else {
        dropped(drops(grid, column, sides.drop_last()), column, sides.last())
    }
}

/// A drop changes exactly one cell: the resting place, which was empty and
/// now holds the piece. The board keeps its shape.
pub proof fn lemma_drop_changes_one_cell(
    grid: Seq<Seq<TileState>>,
    n: int,
    column: int,
    side: TileState,
)
    requires
        square(grid, n),
        0 <= column < n,
        !column_full(grid, column),
    ensures
        square(dropped(grid, column, side), n),
        lands_at(grid, column, landing_row(grid, column)),
        cell(grid, landing_row(grid, column), column) == TileState::Empty,
        cell(dropped(grid, column, side), landing_row(grid, column), column) == side,
        forall|r: int, c: int|
            !(r == landing_row(grid, column) && c == column) ==> #[trigger] cell(
                dropped(grid, column, side),
                r,
                c,
            ) == cell(grid, r, c),
{
    lemma_open_column_has_resting_place(grid, n, column, n);
    let row = landing_row(grid, column);
    let after = dropped(grid, column, side);
    assert(after == placed(grid, row, column, side));
    assert(grid[row].len() == n);
    assert forall|r: int| 0 <= r < n implies (#[trigger] after[r]).len() == n by {
        assert(grid[r].len() == n);
    }
}

/// A column of which some cell among the first `below` rows is empty has a
/// resting place.
proof fn lemma_open_column_has_resting_place(
    grid: Seq<Seq<TileState>>,
    n: int,
    column: int,
    below: int,
)
    requires
        square(grid, n),
        0 <= column < n,
        0 <= below <= n,
        exists|r: int| 0 <= r < below && cell(grid, r, column) == TileState::Empty,
        forall|r: int| below <= r < n ==> cell(grid, r, column) != TileState::Empty,
    ensures
        lands_at(grid, column, landing_row(grid, column)),
    decreases below,
{
    let row = below - 1;
    assert(grid[row].len() == n);
    if cell(grid, row, column) == TileState::Empty {
        assert(lands_at(grid, column, row));
    } else {
        let witness = choose|r: int| 0 <= r < below && cell(grid, r, column) == TileState::Empty;
        assert(0 <= witness < below - 1 && cell(grid, witness, column) == TileState::Empty);
        lemma_open_column_has_resting_place(grid, n, column, below - 1);
    }
}

/// A piece dropped on a stack of `height` pieces comes to rest right on top
/// of it: in the bottom row when the column is empty, one row higher with
/// every piece below. The stack is then one piece higher. A stack that
/// reaches the top row leaves the column full.
pub proof fn lemma_drop_lands_on_stack(
    grid: Seq<Seq<TileState>>,
    n: int,
    column: int,
    height: int,
    side: TileState,
)
    requires
        square(grid, n),
        0 <= column < n,
        stacked(grid, column, height),
    ensures
        height == n <==> column_full(grid, column),
        height < n ==> landing_row(grid, column) == n - 1 - height,
        height < n ==> square(dropped(grid, column, side), n),
        height < n && side != TileState::Empty ==> stacked(
            dropped(grid, column, side),
            column,
            height + 1,
        ),
{
    if height < n {
        let row = n - 1 - height;
        assert(grid[row].len() == n);
        assert(cell(grid, row, column) == TileState::Empty);
        assert(lands_at(grid, column, row));
        lemma_landing_row_unique(grid, column, row);
        lemma_drop_changes_one_cell(grid, n, column, side);
    }
}

/// Dropping a piece into one column leaves the stack of every other column
/// as it is.
pub proof fn lemma_drop_elsewhere_keeps_stack(
    grid: Seq<Seq<TileState>>,
    n: int,
    column: int,
    height: int,
    other: int,
    side: TileState,
)
    requires
        square(grid, n),
        0 <= column < n,
        0 <= other < n,
        other != column,
        stacked(grid, column, height),
        !column_full(grid, other),
    ensures
        stacked(dropped(grid, other, side), column, height),
{
    lemma_drop_changes_one_cell(grid, n, other, side);
}

/// A column fills from the bottom up. On a fresh board of size `n`, after
/// pieces were dropped into one column, the stack is as high as the number
/// of pieces. So the first piece rests in row `n - 1`, the second in row
/// `n - 2`, and so on; after `n` pieces the column is full.
pub proof fn lemma_column_fills_bottom_up(n: nat, column: int, sides: Seq<TileState>)
    requires
        1 <= n,
        0 <= column < n,
        sides.len() <= n,
        forall|i: int| 0 <= i < sides.len() ==> sides[i] != TileState::Empty,
    ensures
        square(drops(blank(n), column, sides), n as int),
        stacked(drops(blank(n), column, sides), column, sides.len() as int),
        sides.len() < n ==> landing_row(drops(blank(n), column, sides), column) == n - 1
            - sides.len(),
        sides.len() == n <==> column_full(drops(blank(n), column, sides), column),
    decreases sides.len(),
{
    if sides.len() == 0 {
        lemma_fresh_board_is_empty(n);
    } else {
        let earlier = sides.drop_last();
        lemma_column_fills_bottom_up(n, column, earlier);
        lemma_drop_lands_on_stack(
            drops(blank(n), column, earlier),
            n as int,
            column,
            earlier.len() as int,
            sides.last(),
        );
    }
    lemma_drop_lands_on_stack(
        drops(blank(n), column, sides),
        n as int,
        column,
        sides.len() as int,
        TileState::Empty,
    );
}

/// Every column is a stack of pieces resting on the bottom row, with nothing
/// but empty cells above: no piece floats.
pub open spec fn settled(grid: Seq<Seq<TileState>>) -> bool {
    forall|c: int| 0 <= c < grid.len() ==> #[trigger] column_settled(grid, c)
}

/// The pieces of `column` form a stack that rests on the bottom row.
pub open spec fn column_settled(grid: Seq<Seq<TileState>>, column: int) -> bool {
    exists|height: int| stacked(grid, column, height)
}

/// A fresh board is settled.
pub proof fn lemma_fresh_board_is_settled(n: nat)
    requires
        1 <= n,
    ensures
        settled(blank(n)),
{
    lemma_fresh_board_is_empty(n);
    assert forall|c: int| 0 <= c < blank(n).len() implies #[trigger] column_settled(
        blank(n),
        c,
    ) by {
        assert(stacked(blank(n), c, 0));
    }
}

/// Dropping a piece of a player keeps the board settled: no sequence of
/// drops makes a piece float.
pub proof fn lemma_drop_keeps_settled(
    grid: Seq<Seq<TileState>>,
    n: int,
    column: int,
    side: TileState,
)
    requires
        square(grid, n),
        settled(grid),
        0 <= column < n,
        !column_full(grid, column),
        side != TileState::Empty,
    ensures
        settled(dropped(grid, column, side)),
{
    let after = dropped(grid, column, side);
    lemma_drop_changes_one_cell(grid, n, column, side);
    assert forall|c: int| 0 <= c < after.len() implies #[trigger] column_settled(after, c) by {
        assert(column_settled(grid, c));
        let height = choose|height: int| stacked(grid, c, height);
        if c == column {
            lemma_drop_lands_on_stack(grid, n, column, height, side);
            assert(stacked(after, c, height + 1));
        } else {
            lemma_drop_elsewhere_keeps_stack(grid, n, c, height, column, side);
            assert(stacked(after, c, height));
        }
    }
}

/// A piece, once placed, stays where it is and what it is: a drop never
/// empties a cell and never hands a cell from one player to the other.
pub proof fn lemma_pieces_stay(grid: Seq<Seq<TileState>>, n: int, column: int, side: TileState)
    requires
        square(grid, n),
        0 <= column < n,
        !column_full(grid, column),
    ensures
        forall|r: int, c: int|
            cell(grid, r, c) != TileState::Empty ==> #[trigger] cell(
                dropped(grid, column, side),
                r,
                c,
            ) == cell(grid, r, c),
{
    lemma_drop_changes_one_cell(grid, n, column, side);
}

/// A line of four pieces survives every later drop: a board that a player
/// has won stays won by that player.
pub proof fn lemma_win_survives_drop(
    grid: Seq<Seq<TileState>>,
    n: int,
    winner: TileState,
    column: int,
    side: TileState,
)
    requires
        square(grid, n),
        winner != TileState::Empty,
        wins(grid, winner),
        0 <= column < n,
        !column_full(grid, column),
    ensures
        wins(dropped(grid, column, side), winner),
{
    let after = dropped(grid, column, side);
    lemma_drop_changes_one_cell(grid, n, column, side);
    lemma_pieces_stay(grid, n, column, side);
    if row_line(grid, winner) {
        let (r, c) = choose|r: int, c: int|
            0 <= r < grid.len() && 0 <= c <= grid.len() - 4 && #[trigger] four_from(
                grid,
                winner,
                r,
                c,
                0,
                1,
            );
        assert(four_from(after, winner, r, c, 0, 1));
        assert(row_line(after, winner));
    } else if column_line(grid, winner) {
        let (r, c) = choose|r: int, c: int|
            0 <= r <= grid.len() - 4 && 0 <= c < grid.len() && #[trigger] four_from(
                grid,
                winner,
                r,
                c,
                1,
                0,
            );
        assert(four_from(after, winner, r, c, 1, 0));
        assert(column_line(after, winner));
    } else if falling_line(grid, winner) {
        let (r, c) = choose|r: int, c: int|
            0 <= r <= grid.len() - 4 && 0 <= c <= grid.len() - 4 && #[trigger] four_from(
                grid,
                winner,
                r,
                c,
                1,
                1,
            );
        assert(four_from(after, winner, r, c, 1, 1));
        assert(falling_line(after, winner));
    } else {
        let (r, c) = choose|r: int, c: int|
            3 <= r < grid.len() && 0 <= c <= grid.len() - 4 && #[trigger] four_from(
                grid,
                winner,
                r,
                c,
                -1,
                1,
            );
        assert(four_from(after, winner, r, c, -1, 1));
        assert(rising_line(after, winner));
    }
}

/// The number of cells in a row that hold `side`, counted from (`row`,
/// `column`) onwards in steps of `down` rows and `right` columns, looking at
/// no more than `reach` cells.
pub open spec fn run_length(
    grid: Seq<Seq<TileState>>,
    side: TileState,
    row: int,
    column: int,
    down: int,
    right: int,
    reach: nat,
) -> nat
    decreases reach,
{
    if reach == 0 || cell(grid, row, column) != side {
        0
    } else {
        1 + run_length(grid, side, row + down, column + right, down, right, (reach - 1) as nat)
    }
}

/// From (`row`, `column`) no run of `side` is longer than `limit`, to the
/// right, downwards, or along either diagonal.
pub open spec fn runs_within(
    grid: Seq<Seq<TileState>>,
    side: TileState,
    row: int,
    column: int,
    limit: nat,
) -> bool {
    &&& run_length(grid, side, row, column, 0, 1, grid.len()) <= limit
    &&& run_length(grid, side, row, column, 1, 0, grid.len()) <= limit
    &&& run_length(grid, side, row, column, 1, 1, grid.len()) <= limit
    &&& run_length(grid, side, row, column, -1, 1, grid.len()) <= limit
}

/// Nowhere on the board does `side` have more than `limit` cells in a row,
/// in any direction.
pub open spec fn longest_run_within(
    grid: Seq<Seq<TileState>>,
    side: TileState,
    limit: nat,
) -> bool {
    forall|r: int, c: int|
        0 <= r < grid.len() && 0 <= c < grid.len() ==> #[trigger] runs_within(
            grid,
            side,
            r,
            c,
            limit,
        )
}

/// Four cells of one side in a line are a run of four, and a run of four is
/// four cells of one side in a line.
pub proof fn lemma_four_is_run_of_four(
    grid: Seq<Seq<TileState>>,
    side: TileState,
    row: int,
    column: int,
    down: int,
    right: int,
    reach: nat,
)
    requires
        4 <= reach,
    ensures
        four_from(grid, side, row, column, down, right) <==> run_length(
            grid,
            side,
            row,
            column,
            down,
            right,
            reach,
        ) >= 4,
{
    reveal_with_fuel(run_length, 5);
    assert(row + down + down == row + 2 * down);
    assert(row + down + down + down == row + 3 * down);
    assert(column + right + right == column + 2 * right);
    assert(column + right + right + right == column + 3 * right);
}

/// No false win: a board on which `side` never has more than three cells in
/// a row, in any direction, is not won by `side`.
pub proof fn lemma_short_runs_never_win(grid: Seq<Seq<TileState>>, side: TileState)
    requires
        longest_run_within(grid, side, 3),
    ensures
        !wins(grid, side),
{
    let n = grid.len();
    if row_line(grid, side) {
        let (r, c) = choose|r: int, c: int|
            0 <= r < grid.len() && 0 <= c <= grid.len() - 4 && #[trigger] four_from(
                grid,
                side,
                r,
                c,
                0,
                1,
            );
        lemma_four_is_run_of_four(grid, side, r, c, 0, 1, n);
        assert(runs_within(grid, side, r, c, 3));
    }
    if column_line(grid, side) {
        let (r, c) = choose|r: int, c: int|
            0 <= r <= grid.len() - 4 && 0 <= c < grid.len() && #[trigger] four_from(
                grid,
                side,
                r,
                c,
                1,
                0,
            );
        lemma_four_is_run_of_four(grid, side, r, c, 1, 0, n);
        assert(runs_within(grid, side, r, c, 3));
    }
    if falling_line(grid, side) {
        let (r, c) = choose|r: int, c: int|
            0 <= r <= grid.len() - 4 && 0 <= c <= grid.len() - 4 && #[trigger] four_from(
                grid,
                side,
                r,
                c,
                1,
                1,
            );
        lemma_four_is_run_of_four(grid, side, r, c, 1, 1, n);
        assert(runs_within(grid, side, r, c, 3));
    }
    if rising_line(grid, side) {
        let (r, c) = choose|r: int, c: int|
            3 <= r < grid.len() && 0 <= c <= grid.len() - 4 && #[trigger] four_from(
                grid,
                side,
                r,
                c,
                -1,
                1,
            );
        lemma_four_is_run_of_four(grid, side, r, c, -1, 1, n);
        assert(runs_within(grid, side, r, c, 3));
    }
}

/// No missed win: a run of four or more pieces of a player, starting
/// anywhere on the board and going right, down, or along either diagonal,
/// wins the board for that player.
pub proof fn lemma_run_of_four_wins(
    grid: Seq<Seq<TileState>>,
    n: int,
    side: TileState,
    row: int,
    column: int,
)
    requires
        square(grid, n),
        side != TileState::Empty,
        0 <= row < n,
        0 <= column < n,
        !runs_within(grid, side, row, column, 3),
    ensures
        wins(grid, side),
{
    let reach = grid.len();
    if reach < 4 {
        lemma_run_length_within_reach(grid, side, row, column, 0, 1, reach);
        lemma_run_length_within_reach(grid, side, row, column, 1, 0, reach);
        lemma_run_length_within_reach(grid, side, row, column, 1, 1, reach);
        lemma_run_length_within_reach(grid, side, row, column, -1, 1, reach);
    } else {
        lemma_four_is_run_of_four(grid, side, row, column, 0, 1, reach);
        lemma_four_is_run_of_four(grid, side, row, column, 1, 0, reach);
        lemma_four_is_run_of_four(grid, side, row, column, 1, 1, reach);
        lemma_four_is_run_of_four(grid, side, row, column, -1, 1, reach);
        if four_from(grid, side, row, column, 0, 1) {
            assert(line_cell(grid, row, column, 0, 1, 3) == side);
            assert(row_line(grid, side));
        } else if four_from(grid, side, row, column, 1, 0) {
            assert(line_cell(grid, row, column, 1, 0, 3) == side);
            assert(column_line(grid, side));
        } else if four_from(grid, side, row, column, 1, 1) {
            assert(line_cell(grid, row, column, 1, 1, 3) == side);
            assert(falling_line(grid, side));
        } else {
            assert(four_from(grid, side, row, column, -1, 1));
            assert(line_cell(grid, row, column, -1, 1, 3) == side);
            assert(rising_line(grid, side));
        }
    }
}

/// A run is never longer than the number of cells looked at.
proof fn lemma_run_length_within_reach(
    grid: Seq<Seq<TileState>>,
    side: TileState,
    row: int,
    column: int,
    down: int,
    right: int,
    reach: nat,
)
    ensures
        run_length(grid, side, row, column, down, right, reach) <= reach,
    decreases reach,
{
    if reach > 0 {
        lemma_run_length_within_reach(
            grid,
            side,
            row + down,
            column + right,
            down,
            right,
            (reach - 1) as nat,
        );
    }
}

/// Some cell among the four of the line from (`row`, `column`) holds
/// `side`.
pub open spec fn line_holds(
    grid: Seq<Seq<TileState>>,
    side: TileState,
    row: int,
    column: int,
    down: int,
    right: int,
) -> bool {
    exists|steps: int|
        0 <= steps < 4 && #[trigger] line_cell(grid, row, column, down, right, steps) == side
}

/// A line of four that holds pieces of both players is a winning line for
/// neither of them, nor for anyone else.
pub proof fn lemma_mixed_line_never_wins(
    grid: Seq<Seq<TileState>>,
    row: int,
    column: int,
    down: int,
    right: int,
)
    requires
        line_holds(grid, TileState::P1, row, column, down, right),
        line_holds(grid, TileState::P2, row, column, down, right),
    ensures
        forall|side: TileState| !#[trigger] four_from(grid, side, row, column, down, right),
{
    let first = choose|steps: int|
        0 <= steps < 4 && #[trigger] line_cell(grid, row, column, down, right, steps)
            == TileState::P1;
    let second = choose|steps: int|
        0 <= steps < 4 && #[trigger] line_cell(grid, row, column, down, right, steps)
            == TileState::P2;
    assert forall|side: TileState| !#[trigger] four_from(
        grid,
        side,
        row,
        column,
        down,
        right,
    ) by {
        if four_from(grid, side, row, column, down, right) {
            assert(first == 0 || first == 1 || first == 2 || first == 3);
            assert(second == 0 || second == 1 || second == 2 || second == 3);
            assert(line_cell(grid, row, column, down, right, first) == side);
            assert(line_cell(grid, row, column, down, right, second) == side);
        }
    }
}

} // verus!
