//! Drawing the board as text.
//!
//! The picture is a grid of boxed cells, three characters wide, with a
//! horizontal rule above and below every row and the column numbers, counted
//! from 1, underneath.

use vstd::prelude::*;
use colored::Colorize;
use crate::game::Game;
use crate::game::grid::{cell, MAX_SIZE};
use crate::game::tile::TileState;

verus! {

/// The width of a cell of the picture, in characters.
pub const TILE_WIDTH: usize = 3;

/// The character `c`, `n` times.
pub open spec fn repeated(c: char, n: nat) -> Seq<char> {
    Seq::new(n, |i: int| c)
}

/// `text` in the middle of a field of `width` characters, padded with
/// spaces. When the padding cannot be split evenly the extra space goes to
/// the right. Text that is already as wide as the field is left alone.
pub open spec fn centered(text: Seq<char>, width: nat) -> Seq<char> {
    if text.len() >= width {
        text
    } else {
        let padding = (width - text.len()) as nat;
        repeated(' ', padding / 2) + text + repeated(' ', (padding - padding / 2) as nat)
    }
}

/// The character for a single decimal digit.
pub open spec fn digit(d: nat) -> char {
    if d == 0 {
        '0'
    } else if d == 1 {
        '1'
    } else if d == 2 {
        '2'
    } else if d == 3 {
        '3'
    } else if d == 4 {
        '4'
    } else if d == 5 {
        '5'
    } else if d == 6 {
        '6'
    } else if d == 7 {
        '7'
    } else if d == 8 {
        '8'
    } else {
        '9'
    }
}

/// `n` written in decimal, most significant digit first, without leading
/// zeros.
pub open spec fn decimal(n: nat) -> Seq<char>
    decreases n,
{
    if n < 10 {
        seq![digit(n)]
    } else {
        decimal(n / 10).push(digit(n % 10))
    }
}

/// The text of a single decimal digit.
fn digit_text(d: usize) -> (text: &'static str)
    requires
        d < 10,
    ensures
        text@ == seq![digit(d as nat)],
{
    proof {
        reveal_strlit("0");
        reveal_strlit("1");
        reveal_strlit("2");
        reveal_strlit("3");
        reveal_strlit("4");
        reveal_strlit("5");
        reveal_strlit("6");
        reveal_strlit("7");
        reveal_strlit("8");
        reveal_strlit("9");
    }
    let text = if d == 0 {
        "0"
    } else if d == 1 {
        "1"
    } else if d == 2 {
        "2"
    } else if d == 3 {
        "3"
    } else if d == 4 {
        "4"
    } else if d == 5 {
        "5"
    } else if d == 6 {
        "6"
    } else if d == 7 {
        "7"
    } else if d == 8 {
        "8"
    } else {
        "9"
    };
    assert(text@ =~= seq![digit(d as nat)]);
    text
}

/// Writes `n` in decimal.
pub fn number(n: usize) -> (text: String)
    ensures
        text@ == decimal(n as nat),
    decreases n,
{
    if n < 10 {
        String::from_str(digit_text(n))
    } else {
        let mut text = number(n / 10);
        text.append(digit_text(n % 10));
        text
    }
}

/// Appends the character of `unit`, a text of one character, `count` times.
fn pad(buffer: &mut String, unit: &str, count: usize)
    requires
        unit@.len() == 1,
    ensures
        final(buffer)@ == old(buffer)@ + repeated(unit@[0], count as nat),
{
    let mut done: usize = 0;
    while done < count
        invariant
            done <= count,
            unit@.len() == 1,
            buffer@ == old(buffer)@ + repeated(unit@[0], done as nat),
        decreases count - done,
    {
        buffer.append(unit);
        done += 1;
        assert(buffer@ =~= old(buffer)@ + repeated(unit@[0], done as nat));
    }
}

/// Centres `text` in a field of `width` characters.
pub fn center(text: &str, width: usize) -> (field: String)
    ensures
        field@ == centered(text@, width as nat),
{
    let length = text.unicode_len();
    if length >= width {
        return String::from_str(text);
    }
    let padding = width - length;
    let left = padding / 2;
    let mut field = String::new();
    proof {
        reveal_strlit(" ");
    }
    pad(&mut field, " ", left);
    field.append(text);
    pad(&mut field, " ", padding - left);
    assert(field@ =~= centered(text@, width as nat));
    field
}

/// The horizontal rule of a board of `n` columns: one dash for the left
/// border, and for every column as many as the cell is wide and one more
/// for its right border; then a line break.
pub open spec fn rule(n: nat) -> Seq<char> {
    repeated('-', ((TILE_WIDTH + 1) * n + 1) as nat).push('\n')
}

/// How a cell is shown: `first` for `P1`, `second` for `P2`, `vacant` for an
/// empty cell.
pub open spec fn shown(
    state: TileState,
    first: Seq<char>,
    second: Seq<char>,
    vacant: Seq<char>,
) -> Seq<char> {
    match state {
        TileState::P1 => first,
        TileState::P2 => second,
        TileState::Empty => vacant,
    }
}

/// The cells of `row`, each behind its left border.
pub open spec fn cells_text(
    row: Seq<TileState>,
    first: Seq<char>,
    second: Seq<char>,
    vacant: Seq<char>,
) -> Seq<char>
    decreases row.len(),
{
    if row.len() == 0 {
        Seq::empty()
    } else {
        cells_text(row.drop_last(), first, second, vacant) + seq!['|'] + shown(
            row.last(),
            first,
            second,
            vacant,
        )
    }
}

/// The rows of `grid`, top row first: the cells of each row, its right
/// border and a line break, and the rule for `n` columns underneath.
pub open spec fn rows_text(
    grid: Seq<Seq<TileState>>,
    n: nat,
    first: Seq<char>,
    second: Seq<char>,
    vacant: Seq<char>,
) -> Seq<char>
    decreases grid.len(),
{
    if grid.len() == 0 {
        Seq::empty()
    } else {
        rows_text(grid.drop_last(), n, first, second, vacant) + cells_text(
            grid.last(),
            first,
            second,
            vacant,
        ) + seq!['|', '\n'] + rule(n)
    }
}

/// The numbers 1 to `n`, each centred in a cell behind one space.
pub open spec fn footer(n: nat) -> Seq<char>
    decreases n,
{
    if n == 0 {
        Seq::empty()
    } else {
        footer((n - 1) as nat) + seq![' '] + centered(decimal(n), TILE_WIDTH as nat)
    }
}

/// The whole picture of `grid`: the top rule, the rows, and the column
/// numbers.
pub open spec fn board_text(
    grid: Seq<Seq<TileState>>,
    first: Seq<char>,
    second: Seq<char>,
    vacant: Seq<char>,
) -> Seq<char> {
    rule(grid.len()) + rows_text(grid, grid.len(), first, second, vacant) + footer(grid.len())
}

/// Appends the horizontal rule of a board of `size` columns.
fn push_rule(buffer: &mut String, size: usize)
    requires
        size <= MAX_SIZE,
    ensures
        final(buffer)@ == old(buffer)@ + rule(size as nat),
{
    proof {
        reveal_strlit("-");
        reveal_strlit("\n");
    }
    let step: usize = TILE_WIDTH + 1;
    assert(step * size == 4 * size) by (nonlinear_arith)
        requires
            step == 4,
    ;
    pad(buffer, "-", step * size + 1);
    buffer.append("\n");
    assert(buffer@ =~= old(buffer)@ + rule(size as nat));
}

/// The character that starts a terminal escape sequence.
pub const ESCAPE: char = '\u{1b}';

/// `painted` is `text` with something, possibly nothing, before and after
/// it.
pub open spec fn decorates(painted: Seq<char>, text: Seq<char>) -> bool {
    exists|before: Seq<char>, after: Seq<char>| painted == #[trigger] (before + text).add(after)
}

/// `text` as `colored::Colorize::red` and the `Display` of the resulting
/// `ColoredString` print it.
///
/// Whether colour is used depends on the terminal and the environment.
/// Without colour the result is `text`; with colour it is the escape
/// sequence for red, then `text`, then the sequence that resets the
/// terminal. Only a text that itself holds reset sequences is changed
/// inside, and those start with the escape character.
#[verifier::external_body]
fn red(text: &str) -> (painted: String)
    ensures
        !text@.contains(ESCAPE) ==> decorates(painted@, text@),
{
    text.red().to_string()
}

/// `text` as `colored::Colorize::green` and the `Display` of the resulting
/// `ColoredString` print it.
///
/// Whether colour is used depends on the terminal and the environment.
/// Without colour the result is `text`; with colour it is the escape
/// sequence for green, then `text`, then the sequence that resets the
/// terminal. Only a text that itself holds reset sequences is changed
/// inside, and those start with the escape character.
#[verifier::external_body]
fn green(text: &str) -> (painted: String)
    ensures
        !text@.contains(ESCAPE) ==> decorates(painted@, text@),
{
    text.green().to_string()
}

/// `text` as `colored::Colorize::normal` and the `Display` of the resulting
/// `ColoredString` print it. A string without colour or style is printed as
/// it is, whatever the environment: the result is `text` itself.
#[verifier::external_body]
fn normal(text: &str) -> (painted: String)
    ensures
        painted@ == text@,
{
    text.normal().to_string()
}

/// The text that stands for a piece before it is coloured: an `o` in the
/// middle of a cell.
pub open spec fn piece_text() -> Seq<char> {
    centered(seq!['o'], TILE_WIDTH as nat)
}

/// The text that stands for an empty cell: a cell of spaces.
pub open spec fn vacant_text() -> Seq<char> {
    repeated(' ', TILE_WIDTH as nat)
}

impl Game {
    /// Draws the board with the given texts for the cells: `first` for the
    /// pieces of `P1`, `second` for those of `P2`, `vacant` for empty cells.
    pub fn render(&self, first: &str, second: &str, vacant: &str) -> (picture: String)
        requires
            self.has_board(),
        ensures
            picture@ == board_text(self.grid(), first@, second@, vacant@),
    {
        let size = self.board_size.unwrap_or(0);
        let ghost grid = self.grid();
        let mut buffer = String::new();
        push_rule(&mut buffer, size);
        proof {
            reveal_strlit("|");
            reveal_strlit("|\n");
            reveal_strlit(" ");
        }
        let mut row: usize = 0;
        while row < size
            invariant
                row <= size,
                size == self.size(),
                self.has_board(),
                grid == self.grid(),
                "|"@ == seq!['|'],
                "|\n"@ == seq!['|', '\n'],
                buffer@ == rule(size as nat) + rows_text(
                    grid.take(row as int),
                    size as nat,
                    first@,
                    second@,
                    vacant@,
                ),
            decreases size - row,
        {
            let ghost above = buffer@;
            let mut column: usize = 0;
            while column < size
                invariant
                    column <= size,
                    row < size,
                    size == self.size(),
                    self.has_board(),
                    grid == self.grid(),
                    "|"@ == seq!['|'],
                    buffer@ == above + cells_text(
                        grid[row as int].take(column as int),
                        first@,
                        second@,
                        vacant@,
                    ),
                decreases size - column,
            {
                buffer.append("|");
                match self.get_tile_state(row, column) {
                    TileState::P1 => buffer.append(first),
                    TileState::P2 => buffer.append(second),
                    TileState::Empty => buffer.append(vacant),
                }
                column += 1;
                proof {
                    let cells = grid[row as int].take(column as int);
                    assert(cells.drop_last() =~= grid[row as int].take(column - 1));
                    assert(cells.last() == cell(grid, row as int, column - 1));
                    assert(buffer@ =~= above + cells_text(cells, first@, second@, vacant@));
                }
            }
            buffer.append("|\n");
            push_rule(&mut buffer, size);
            row += 1;
            proof {
                let rows = grid.take(row as int);
                assert(rows.drop_last() =~= grid.take(row - 1));
                assert(rows.last() == grid[row - 1]);
                assert(grid[row - 1].take(size as int) =~= grid[row - 1]);
                assert(buffer@ =~= rule(size as nat) + rows_text(
                    rows,
                    size as nat,
                    first@,
                    second@,
                    vacant@,
                ));
            }
        }
        assert(grid.take(size as int) =~= grid);
        let ghost body = buffer@;
        let mut label: usize = 0;
        while label < size
            invariant
                label <= size,
                " "@ == seq![' '],
                buffer@ == body + footer(label as nat),
            decreases size - label,
        {
            label += 1;
            buffer.append(" ");
            let field = center(number(label).as_str(), TILE_WIDTH);
            buffer.append(field.as_str());
            assert(buffer@ =~= body + footer(label as nat));
        }
        buffer
    }

    /// Draws the board for a terminal: a piece is an `o` in the middle of its
    /// cell, red for `P1` and green for `P2`; an empty cell is blank.
    ///
    /// The colouring adapts to the terminal, so the texts that stand for the
    /// pieces are fixed only up to what the colouring puts around them; the
    /// layout is fixed altogether.
    pub fn draw(&self) -> (picture: String)
        requires
            self.has_board(),
        ensures
            exists|first: Seq<char>, second: Seq<char>|
                decorates(first, piece_text()) && decorates(second, piece_text()) && picture@
                    == #[trigger] board_text(self.grid(), first, second, vacant_text()),
    {
        let piece = center("o", TILE_WIDTH);
        let gap = center("", TILE_WIDTH);
        proof {
            reveal_strlit("o");
            reveal_strlit("");
            assert(piece@ =~= seq![' ', 'o', ' ']);
            assert(piece@ == piece_text());
            assert(gap@ =~= vacant_text());
        }
        let first = red(piece.as_str());
        let second = green(piece.as_str());
        let vacant = normal(gap.as_str());
        self.render(first.as_str(), second.as_str(), vacant.as_str())
    }
}

} // verus!
