use ttt::agent::minimax_player::MinimaxPlayer;
use ttt::agent::random_player::RandomPlayer;
use ttt::agent::Player;
use ttt::game::{Game, GameError, Mark, Move};

fn play_all(game: &mut Game, moves: &[(usize, usize)]) {
    for &(x, y) in moves {
        assert_eq!(game.make_move(Move::new(x, y)), Ok(()));
    }
}

fn played(game: &Game) -> usize {
    game.state.iter().map(|r| r.iter().filter(|m| **m != Mark::Empty).count()).sum()
}

#[test]
fn new_game_is_empty_and_active() {
    for dim in 1..6 {
        let game = Game::new(dim).unwrap();
        assert_eq!(game.dim, dim);
        assert_eq!(game.state.len(), dim);
        for row in &game.state {
            assert_eq!(row.len(), dim);
            assert!(row.iter().all(|m| *m == Mark::Empty));
        }
        assert!(game.is_active());
        assert!(!game.is_over);
        assert_eq!(game.winner, Mark::Empty);
        assert_eq!(game.current_player, Mark::X);
        assert_eq!(game.get_moves().len(), dim * dim);
    }
}

#[test]
fn zero_dimension_is_rejected() {
    assert!(matches!(Game::new(0), Err(GameError::InvalidDimension)));
}

#[test]
fn moves_listed_in_row_major_order() {
    let mut game = Game::new(2).unwrap();
    play_all(&mut game, &[(0, 1)]);
    assert_eq!(game.get_moves(), vec![Move::new(0, 0), Move::new(1, 0), Move::new(1, 1)]);
}

#[test]
fn moves_and_played_cells_cover_board() {
    let mut game = Game::new(4).unwrap();
    let seq = [(0, 0), (1, 1), (2, 3), (3, 0), (0, 2)];
    assert_eq!(game.get_moves().len() + played(&game), 16);
    for &(x, y) in &seq {
        game.make_move(Move::new(x, y)).unwrap();
        assert_eq!(game.get_moves().len() + played(&game), 16);
    }
    assert_eq!(game.get_moves().len(), 11);
}

#[test]
fn undo_restores_board_and_player() {
    let mut game = Game::new(3).unwrap();
    play_all(&mut game, &[(0, 0), (1, 1)]);
    let before = game.state.clone();
    let player = game.current_player;
    let m = Move::new(2, 1);
    game.make_move(m).unwrap();
    assert_eq!(game.state[2][1], Mark::X);
    assert_eq!(game.current_player, Mark::O);
    game.undo_move(m);
    assert_eq!(game.state, before);
    assert_eq!(game.current_player, player);
}

#[test]
fn undo_keeps_end_of_game_flags() {
    let mut game = Game::new(3).unwrap();
    play_all(&mut game, &[(0, 0), (1, 1), (0, 1), (2, 2)]);
    let m = Move::new(0, 2);
    game.make_move(m).unwrap();
    assert!(game.is_over);
    game.undo_move(m);
    assert_eq!(game.state[0][2], Mark::Empty);
    assert!(game.is_over);
    assert_eq!(game.winner, Mark::X);
}

#[test]
fn row_wins() {
    let mut game = Game::new(3).unwrap();
    play_all(&mut game, &[(1, 0), (0, 0), (1, 1), (0, 1), (1, 2)]);
    assert!(game.is_over);
    assert_eq!(game.winner, Mark::X);
}

#[test]
fn column_wins() {
    let mut game = Game::new(3).unwrap();
    play_all(&mut game, &[(0, 0), (0, 2), (1, 1), (1, 2), (0, 1), (2, 2)]);
    assert!(game.is_over);
    assert_eq!(game.winner, Mark::O);
}

#[test]
fn diagonal_wins() {
    let mut game = Game::new(3).unwrap();
    play_all(&mut game, &[(0, 0), (0, 1), (1, 1), (0, 2), (2, 2)]);
    assert!(game.is_over);
    assert_eq!(game.winner, Mark::X);
}

#[test]
fn anti_diagonal_wins() {
    let mut game = Game::new(3).unwrap();
    play_all(&mut game, &[(0, 0), (0, 2), (0, 1), (1, 1), (2, 2), (2, 0)]);
    assert!(game.is_over);
    assert_eq!(game.winner, Mark::O);
}

#[test]
fn no_line_keeps_game_going() {
    let mut game = Game::new(3).unwrap();
    play_all(&mut game, &[(0, 0), (0, 1), (1, 1)]);
    assert!(game.is_active());
    assert_eq!(game.winner, Mark::Empty);
}

#[test]
fn one_cell_board_is_won_at_once() {
    let mut game = Game::new(1).unwrap();
    play_all(&mut game, &[(0, 0)]);
    assert!(game.is_over);
    assert_eq!(game.winner, Mark::X);
}

#[test]
fn top_row_win_scenario() {
    let mut game = Game::new(3).unwrap();
    play_all(&mut game, &[(0, 0), (1, 1), (0, 1), (2, 2), (0, 2)]);
    assert!(game.is_over);
    assert_eq!(game.winner, Mark::X);
    assert_eq!(game.render(), "\nX X X \n- O - \n- - O \nGame over!\n X wins!\n");
}

#[test]
fn full_board_draw_scenario() {
    let mut game = Game::new(3).unwrap();
    play_all(
        &mut game,
        &[(0, 0), (0, 1), (0, 2), (1, 1), (1, 0), (1, 2), (2, 1), (2, 0), (2, 2)],
    );
    assert!(game.is_over);
    assert_eq!(game.winner, Mark::Empty);
    assert!(game.get_moves().is_empty());
    assert_eq!(game.get_random_move(), None);
    assert_eq!(game.render(), "\nX O X \nX O O \nO X X \nGame over!\nIt's a draw!\n\n");
}

#[test]
fn render_of_game_in_progress() {
    let mut game = Game::new(2).unwrap();
    play_all(&mut game, &[(1, 0)]);
    assert_eq!(game.render(), "\n- - \nX - \n");
}

#[test]
fn occupied_cell_is_illegal() {
    let mut game = Game::new(3).unwrap();
    play_all(&mut game, &[(1, 1)]);
    let before = game.state.clone();
    assert!(!game.is_valid_move(Move::new(1, 1)));
    assert_eq!(game.make_move(Move::new(1, 1)), Err(GameError::IllegalMove));
    assert_eq!(game.state, before);
    assert_eq!(game.current_player, Mark::O);
    assert!(game.is_active());
}

#[test]
fn out_of_range_is_illegal() {
    let mut game = Game::new(3).unwrap();
    assert!(!game.is_valid_move(Move::new(3, 0)));
    assert_eq!(game.make_move(Move::new(3, 0)), Err(GameError::IllegalMove));
    assert_eq!(game.make_move(Move::new(0, 7)), Err(GameError::IllegalMove));
    assert_eq!(game.get_moves().len(), 9);
    assert_eq!(game.current_player, Mark::X);
}

#[test]
fn move_after_end_is_illegal() {
    let mut game = Game::new(3).unwrap();
    play_all(&mut game, &[(0, 0), (1, 1), (0, 1), (2, 2), (0, 2)]);
    let before = game.state.clone();
    assert!(!game.is_valid_move(Move::new(2, 0)));
    assert_eq!(game.make_move(Move::new(2, 0)), Err(GameError::IllegalMove));
    assert_eq!(game.state, before);
    assert_eq!(game.current_player, Mark::O);
    assert_eq!(game.winner, Mark::X);
}

#[test]
fn toggle_and_set() {
    let mut game = Game::new(2).unwrap();
    game.toggle_player();
    assert_eq!(game.current_player, Mark::O);
    game.toggle_player();
    assert_eq!(game.current_player, Mark::X);
    game.set(Move::new(1, 1), Mark::O);
    assert_eq!(game.state[1][1], Mark::O);
    assert_eq!(game.get_moves().len(), 3);
    assert!(game.is_active());
}

#[test]
fn evaluate_is_neutral() {
    let game = Game::new(3).unwrap();
    assert_eq!(game.evaluate(), 0);
}

#[test]
fn move_new_keeps_coordinates() {
    let m = Move::new(4, 7);
    assert_eq!(m.x, 4);
    assert_eq!(m.y, 7);
}

#[test]
fn random_move_is_legal() {
    let mut game = Game::new(3).unwrap();
    play_all(&mut game, &[(0, 0), (1, 1), (2, 2)]);
    for _ in 0..50 {
        let m = game.get_random_move().unwrap();
        assert!(game.is_valid_move(m));
    }
    let mut last = Game::new(2).unwrap();
    play_all(&mut last, &[(0, 0), (0, 1), (1, 1)]);
    assert!(last.is_over);
    let mut one = Game::new(3).unwrap();
    play_all(&mut one, &[(0, 0), (0, 1), (0, 2), (1, 1), (1, 0), (1, 2), (2, 1), (2, 0)]);
    assert_eq!(one.get_random_move(), Some(Move::new(2, 2)));
}

#[test]
fn random_player_picks_legal_move() {
    let player = RandomPlayer::new();
    let mut game = Game::new(4).unwrap();
    play_all(&mut game, &[(0, 0), (3, 3)]);
    let before = game.state.clone();
    let m = player.get_move(&mut game).unwrap();
    assert!(game.is_valid_move(m));
    assert_eq!(game.state, before);
}

#[test]
fn minimax_depth_zero_takes_win() {
    let mut game = Game::new(3).unwrap();
    play_all(&mut game, &[(0, 0), (0, 1), (1, 0), (1, 1)]);
    let player = MinimaxPlayer::new(0, true);
    let before = game.state.clone();
    assert_eq!(player.get_move(&mut game), Some(Move::new(2, 0)));
    assert_eq!(game.state, before);
    assert!(game.is_active());
    assert_eq!(game.current_player, Mark::X);
}

#[test]
fn minimax_prefers_first_move_on_ties() {
    let mut game = Game::new(3).unwrap();
    let player = MinimaxPlayer::new(0, true);
    assert_eq!(player.get_move(&mut game), Some(Move::new(0, 0)));
    let player = MinimaxPlayer::new(0, false);
    assert_eq!(player.get_move(&mut game), Some(Move::new(0, 0)));
}

#[test]
fn minimax_scores_finished_games() {
    let mut game = Game::new(3).unwrap();
    play_all(&mut game, &[(0, 0), (1, 1), (0, 1), (2, 2), (0, 2)]);
    assert_eq!(MinimaxPlayer::new(2, true).minimax(&mut game, 0), i32::MAX);
    assert_eq!(MinimaxPlayer::new(2, false).minimax(&mut game, 0), i32::MIN);
    let mut draw = Game::new(3).unwrap();
    play_all(
        &mut draw,
        &[(0, 0), (0, 1), (0, 2), (1, 1), (1, 0), (1, 2), (2, 1), (2, 0), (2, 2)],
    );
    assert_eq!(MinimaxPlayer::new(2, true).minimax(&mut draw, 0), 0);
}

#[test]
fn minimax_stops_at_depth() {
    let mut game = Game::new(3).unwrap();
    play_all(&mut game, &[(0, 0)]);
    assert_eq!(MinimaxPlayer::new(1, true).minimax(&mut game, 1), 0);
}

#[test]
fn minimax_searches_last_move() {
    let seq = [(0, 0), (0, 1), (0, 2), (1, 0), (1, 1), (1, 2), (2, 1), (2, 0)];
    let mut game = Game::new(3).unwrap();
    play_all(&mut game, &seq);
    let before = game.state.clone();
    assert_eq!(MinimaxPlayer::new(3, true).minimax(&mut game, 0), i32::MAX);
    assert_eq!(MinimaxPlayer::new(3, false).minimax(&mut game, 0), i32::MIN);
    assert_eq!(game.state, before);
    assert!(game.is_active());
    assert_eq!(game.winner, Mark::Empty);
    let draw_seq = [(0, 0), (0, 1), (0, 2), (1, 1), (1, 0), (1, 2), (2, 1), (2, 0)];
    let mut nearly = Game::new(3).unwrap();
    play_all(&mut nearly, &draw_seq);
    assert_eq!(MinimaxPlayer::new(3, true).minimax(&mut nearly, 0), 0);
}
