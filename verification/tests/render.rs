use connect_four::game::render::{center, number};
use connect_four::game::tile::TileState;
use connect_four::game::Game;

fn fresh_board(size: usize) -> Game {
    let mut game = Game::new();
    assert_eq!(game.set_board(size), Ok(()));
    game
}

#[test]
fn numbers_are_written_in_decimal() {
    assert_eq!(number(0), "0");
    assert_eq!(number(7), "7");
    assert_eq!(number(10), "10");
    assert_eq!(number(12), "12");
    assert_eq!(number(109), "109");
    assert_eq!(number(9_876_543_210), "9876543210");
    for n in 0..2000 {
        assert_eq!(number(n), n.to_string());
    }
    assert_eq!(number(usize::MAX), usize::MAX.to_string());
}

#[test]
fn text_is_centred_with_the_odd_space_on_the_right() {
    assert_eq!(center("o", 3), " o ");
    assert_eq!(center("", 3), "   ");
    assert_eq!(center("10", 3), "10 ");
    assert_eq!(center("1", 4), " 1  ");
    assert_eq!(center("ab", 7), "  ab   ");
    assert_eq!(center("abc", 3), "abc");
    assert_eq!(center("abcd", 3), "abcd");
    assert_eq!(center("x", 0), "x");
    assert_eq!(center("é", 3), " é ");
}

#[test]
fn centring_agrees_with_the_standard_formatter() {
    for text in ["", "o", "10", "abc", "abcd", "héllo", "a b"] {
        for width in 0..9 {
            assert_eq!(center(text, width), format!("{:^width$}", text));
        }
    }
}

#[test]
fn an_empty_board_is_drawn_as_a_grid_with_numbers() {
    let game = fresh_board(6);
    let rule = "-------------------------\n";
    let row = "|   |   |   |   |   |   |\n";
    let expected = [
        rule, row, rule, row, rule, row, rule, row, rule, row, rule, row, rule,
        "  1   2   3   4   5   6 ",
    ]
    .concat();
    assert_eq!(game.render("(1)", "(2)", "   "), expected);
}

#[test]
fn pieces_are_drawn_where_they_lie() {
    let mut game = fresh_board(6);
    assert_eq!(game.select(0, TileState::P1), Ok(5));
    assert_eq!(game.select(0, TileState::P2), Ok(4));
    assert_eq!(game.select(4, TileState::P2), Ok(5));
    let rule = "-------------------------\n";
    let row = "|   |   |   |   |   |   |\n";
    let expected = [
        rule,
        row,
        rule,
        row,
        rule,
        row,
        rule,
        row,
        rule,
        "| x |   |   |   |   |   |\n",
        rule,
        "| o |   |   |   | x |   |\n",
        rule,
        "  1   2   3   4   5   6 ",
    ]
    .concat();
    assert_eq!(game.render(" o ", " x ", "   "), expected);
}

#[test]
fn cell_texts_are_used_as_they_are() {
    let mut game = fresh_board(6);
    assert_eq!(game.select(1, TileState::P1), Ok(5));
    assert_eq!(game.select(2, TileState::P2), Ok(5));
    let picture = game.render("A", "BB", "");
    let lines: Vec<&str> = picture.split('\n').collect();
    assert_eq!(lines.len(), 14);
    assert_eq!(lines[1], "|||||||");
    assert_eq!(lines[11], "||A|BB||||");
}

#[test]
fn two_digit_columns_are_numbered_flush_left() {
    let game = fresh_board(12);
    let picture = game.render("o", "x", " ");
    let lines: Vec<&str> = picture.split('\n').collect();
    assert_eq!(lines.len(), 26);
    assert_eq!(lines[0], "-".repeat(49));
    assert_eq!(lines[24], "-".repeat(49));
    assert_eq!(lines[25], "  1   2   3   4   5   6   7   8   9  10  11  12 ");
}

#[test]
fn the_terminal_picture_follows_the_colour_setting() {
    colored::control::set_override(false);
    let mut game = fresh_board(6);
    assert_eq!(game.select(3, TileState::P1), Ok(5));
    assert_eq!(game.select(3, TileState::P2), Ok(4));
    assert_eq!(game.draw(), game.render(" o ", " o ", "   "));
    colored::control::set_override(true);
    assert_eq!(
        game.draw(),
        game.render("\u{1b}[31m o \u{1b}[0m", "\u{1b}[32m o \u{1b}[0m", "   ")
    );
    let picture = game.draw();
    let lines: Vec<&str> = picture.split('\n').collect();
    assert_eq!(lines[9], "|   |   |   |\u{1b}[32m o \u{1b}[0m|   |   |");
    assert_eq!(lines[11], "|   |   |   |\u{1b}[31m o \u{1b}[0m|   |   |");
    colored::control::unset_override();
}
