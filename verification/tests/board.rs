use connect_four::game::error::GameError;
use connect_four::game::player::Player;
use connect_four::game::tile::{Tile, TileState};
use connect_four::game::Game;

fn board_of(size: usize) -> Game {
    let mut game = Game::new();
    assert_eq!(game.set_board(size), Ok(()));
    game
}

fn states(game: &Game) -> Vec<Vec<TileState>> {
    let size = game.board_size.unwrap();
    (0..size)
        .map(|row| (0..size).map(|column| game.get_tile_state(row, column)).collect())
        .collect()
}

#[test]
fn new_game_has_nothing_set() {
    let game = Game::new();
    assert!(game.players.0.is_none());
    assert!(game.players.1.is_none());
    assert!(game.board.is_none());
    assert!(game.board_size.is_none());
    assert_eq!(game.next, 0);
}

#[test]
fn new_tile_is_empty() {
    assert_eq!(Tile::new().state, TileState::Empty);
}

#[test]
fn set_state_replaces_the_occupant() {
    let mut tile = Tile::new();
    tile.set_state(TileState::P2);
    assert_eq!(tile.state, TileState::P2);
    tile.set_state(TileState::P1);
    assert_eq!(tile.state, TileState::P1);
}

#[test]
fn player_keeps_its_name() {
    assert_eq!(Player::new(String::from("Ada")).name, "Ada");
}

#[test]
fn every_supported_size_gives_an_empty_board() {
    for size in 6..=12 {
        let game = board_of(size);
        assert_eq!(game.board_size, Some(size));
        let rows = game.board.as_ref().unwrap();
        assert_eq!(rows.len(), size);
        for row in rows {
            assert_eq!(row.len(), size);
            for tile in row {
                assert_eq!(tile.state, TileState::Empty);
            }
        }
        assert!(!game.is_full());
    }
}

#[test]
fn unsupported_sizes_are_refused() {
    for size in [0, 1, 5, 13, 100, usize::MAX] {
        let mut game = Game::new();
        assert_eq!(game.set_board(size), Err(GameError::BoardSizeLimit));
        assert!(game.board.is_none());
        assert!(game.board_size.is_none());
    }
}

#[test]
fn a_refused_size_keeps_the_board_in_place() {
    let mut game = board_of(7);
    assert_eq!(game.select(3, TileState::P1), Ok(6));
    let before = states(&game);
    assert_eq!(game.set_board(13), Err(GameError::BoardSizeLimit));
    assert_eq!(game.board_size, Some(7));
    assert_eq!(states(&game), before);
}

#[test]
fn a_column_fills_from_the_bottom_up() {
    for size in 6..=12 {
        let mut game = board_of(size);
        for dropped in 0..size {
            let side = if dropped % 2 == 0 { TileState::P1 } else { TileState::P2 };
            assert_eq!(game.select(2, side), Ok(size - 1 - dropped));
            assert_eq!(game.get_tile_state(size - 1 - dropped, 2), side);
        }
        assert_eq!(game.select(2, TileState::P1), Err(GameError::MoveLimited));
        assert!(!game.is_full());
    }
}

#[test]
fn first_and_second_drop_land_in_the_two_bottom_rows() {
    let mut game = board_of(6);
    assert_eq!(game.select(0, TileState::P1), Ok(5));
    assert_eq!(game.select(0, TileState::P2), Ok(4));
    assert_eq!(game.select(5, TileState::P2), Ok(5));
    assert_eq!(game.get_tile_state(5, 0), TileState::P1);
    assert_eq!(game.get_tile_state(4, 0), TileState::P2);
    assert_eq!(game.get_tile_state(3, 0), TileState::Empty);
    assert_eq!(game.get_tile_state(5, 5), TileState::P2);
}

#[test]
fn a_drop_changes_one_cell_only() {
    let mut game = board_of(8);
    assert_eq!(game.select(4, TileState::P1), Ok(7));
    let before = states(&game);
    assert_eq!(game.select(4, TileState::P2), Ok(6));
    let after = states(&game);
    for row in 0..8 {
        for column in 0..8 {
            if (row, column) == (6, 4) {
                assert_eq!(before[row][column], TileState::Empty);
                assert_eq!(after[row][column], TileState::P2);
            } else {
                assert_eq!(before[row][column], after[row][column]);
            }
        }
    }
}

#[test]
fn a_column_beyond_the_board_is_out_of_bounds() {
    let mut game = board_of(6);
    assert_eq!(game.select(1, TileState::P1), Ok(5));
    let before = states(&game);
    assert_eq!(game.select(6, TileState::P2), Err(GameError::OutOfBound(6)));
    assert_eq!(game.select(7, TileState::P2), Err(GameError::OutOfBound(6)));
    assert_eq!(game.select(usize::MAX, TileState::P2), Err(GameError::OutOfBound(6)));
    assert_eq!(states(&game), before);
    assert_eq!(game.next, 0);
}

#[test]
fn out_of_bounds_reports_the_board_size() {
    let mut game = board_of(12);
    assert_eq!(game.select(12, TileState::P1), Err(GameError::OutOfBound(12)));
    assert_eq!(game.select(11, TileState::P1), Ok(11));
}

#[test]
fn a_full_column_is_refused_and_nothing_changes() {
    let mut game = board_of(6);
    for _ in 0..6 {
        assert!(game.select(3, TileState::P1).is_ok());
    }
    let before = states(&game);
    assert_eq!(game.select(3, TileState::P2), Err(GameError::MoveLimited));
    assert_eq!(states(&game), before);
}

#[test]
fn cells_off_the_board_read_as_empty() {
    let mut game = board_of(6);
    assert_eq!(game.select(5, TileState::P1), Ok(5));
    assert_eq!(game.get_tile_state(5, 5), TileState::P1);
    assert_eq!(game.get_tile_state(6, 5), TileState::Empty);
    assert_eq!(game.get_tile_state(5, 6), TileState::Empty);
    assert_eq!(game.get_tile_state(usize::MAX, 0), TileState::Empty);
    assert_eq!(game.get_tile_state(0, usize::MAX), TileState::Empty);
}

#[test]
fn a_game_without_a_board_reads_as_empty() {
    let game = Game::new();
    assert_eq!(game.get_tile_state(0, 0), TileState::Empty);
    assert!(game.is_full());
}

#[test]
fn the_board_is_full_once_every_column_is() {
    let mut game = board_of(6);
    for column in 0..6 {
        for _ in 0..6 {
            assert!(!game.is_full());
            assert!(game.select(column, TileState::P2).is_ok());
        }
    }
    assert!(game.is_full());
    for column in 0..6 {
        assert_eq!(game.select(column, TileState::P1), Err(GameError::MoveLimited));
    }
}
