use connect_four::game::error::GameError;
use connect_four::game::tile::TileState;
use connect_four::game::Game;

fn seated(size: usize) -> Game {
    let mut game = Game::new();
    game.set_players(String::from("Ada"), String::from("Grace"));
    assert_eq!(game.set_board(size), Ok(()));
    game
}

#[test]
fn players_are_seated_in_order() {
    let game = seated(6);
    assert_eq!(game.players.0.as_ref().unwrap().name, "Ada");
    assert_eq!(game.players.1.as_ref().unwrap().name, "Grace");
    assert_eq!(game.next, 0);
}

#[test]
fn the_first_player_moves_first() {
    let game = seated(6);
    assert_eq!(game.get_current_player(), ("Ada", TileState::P1));
}

#[test]
fn switch_passes_the_turn_back_and_forth() {
    let mut game = seated(6);
    game.switch();
    assert_eq!(game.next, 1);
    assert_eq!(game.get_current_player(), ("Grace", TileState::P2));
    game.switch();
    assert_eq!(game.next, 0);
    assert_eq!(game.get_current_player(), ("Ada", TileState::P1));
}

#[test]
fn any_other_marker_means_the_second_player() {
    let mut game = seated(6);
    game.next = 7;
    assert_eq!(game.get_current_player(), ("Grace", TileState::P2));
    game.switch();
    assert_eq!(game.next, 0);
}

#[test]
fn a_turn_drops_the_piece_and_passes_on() {
    let mut game = seated(6);
    assert_eq!(game.play(1), Ok(false));
    assert_eq!(game.get_tile_state(5, 0), TileState::P1);
    assert_eq!(game.next, 1);
    assert_eq!(game.play(1), Ok(false));
    assert_eq!(game.get_tile_state(4, 0), TileState::P2);
    assert_eq!(game.next, 0);
    assert_eq!(game.play(6), Ok(false));
    assert_eq!(game.get_tile_state(5, 5), TileState::P1);
    assert_eq!(game.next, 1);
}

#[test]
fn entry_zero_is_out_of_bounds() {
    let mut game = seated(8);
    assert_eq!(game.play(0), Err(GameError::OutOfBound(8)));
    assert_eq!(game.next, 0);
    assert!((0..8).all(|column| game.get_tile_state(7, column) == TileState::Empty));
}

#[test]
fn an_entry_beyond_the_last_column_is_out_of_bounds() {
    let mut game = seated(8);
    assert_eq!(game.play(9), Err(GameError::OutOfBound(8)));
    assert_eq!(game.play(usize::MAX), Err(GameError::OutOfBound(8)));
    assert_eq!(game.next, 0);
    assert_eq!(game.play(8), Ok(false));
    assert_eq!(game.get_tile_state(7, 7), TileState::P1);
}

#[test]
fn a_refused_turn_keeps_the_side_to_move() {
    let mut game = seated(6);
    for _ in 0..6 {
        assert_eq!(game.play(2), Ok(false));
    }
    assert_eq!(game.next, 0);
    assert_eq!(game.play(2), Err(GameError::MoveLimited));
    assert_eq!(game.next, 0);
    assert_eq!(game.get_current_player(), ("Ada", TileState::P1));
}

#[test]
fn the_fourth_piece_in_a_column_ends_the_game() {
    let mut game = seated(6);
    for _ in 0..3 {
        assert_eq!(game.play(1), Ok(false));
        assert_eq!(game.play(2), Ok(false));
    }
    assert_eq!(game.play(1), Ok(true));
    assert_eq!(game.next, 0);
    assert_eq!(game.get_current_player(), ("Ada", TileState::P1));
    assert!(game.validate());
}

#[test]
fn the_second_player_can_win_on_a_diagonal() {
    let mut game = seated(7);
    for entry in [2, 1, 3, 2, 4, 3, 4, 3, 4] {
        assert_eq!(game.play(entry), Ok(false));
    }
    assert_eq!(game.next, 1);
    assert_eq!(game.play(4), Ok(true));
    assert_eq!(game.next, 1);
    assert_eq!(game.get_current_player(), ("Grace", TileState::P2));
    for (row, column) in [(6, 0), (5, 1), (4, 2), (3, 3)] {
        assert_eq!(game.get_tile_state(row, column), TileState::P2);
    }
    assert!(game.validate_diagonal(TileState::P2));
    assert!(!game.validate_straight(TileState::P2));
    assert!(!game.validate_straight(TileState::P1));
    assert!(!game.validate_diagonal(TileState::P1));
}
