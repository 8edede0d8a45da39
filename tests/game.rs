use connect4::board::MoveSuccess;
use connect4::board_column::{move_to_col_num, num_to_col_num, str_to_col_num, BoardColumn};
use connect4::connect4::{
    ai_round, check_win, move_error_to_string, player_round, Connect4, PlayerMoveError,
};
use connect4::difficulty::{difficulty_to_depth, Difficulty};
use connect4::minimax::{play_for_ai, select_move};
use connect4::player::{player_to_str, Player};

#[test]
fn ai_should_play_col_3() {
    let mut game = Connect4::init_vs_ai(Difficulty::Test);

    game.drop_token_in_col(3);
    game.drop_token_in_col(3);
    game.drop_token_in_col(3);

    assert_eq!(play_for_ai(&game), 3);
}

#[test]
fn ai_should_play_col_1_or_5() {
    let mut game = Connect4::init_vs_ai(Difficulty::Test);

    game.drop_token_in_col(2);
    game.drop_token_in_col(3);
    game.drop_token_in_col(4);

    let played = play_for_ai(&game);
    assert_eq!(played == 1 || played == 5, true);
}

#[test]
fn ai_should_play_col_4() {
    let mut game = Connect4::init_vs_ai(Difficulty::Test);

    game.drop_token_in_col(5);
    game.drop_token_in_col(6);
    game.drop_token_in_col(7);

    assert_eq!(play_for_ai(&game), 4);
}

#[test]
fn ties_are_broken_among_the_winning_columns() {
    let mut seen_2 = false;
    let mut seen_6 = false;
    for _ in 0..40 {
        let mut game = Connect4::init_vs_ai(Difficulty::Test);
        game.drop_token_in_col(3);
        game.drop_token_in_col(4);
        game.drop_token_in_col(5);
        let played = play_for_ai(&game);
        assert!(played == 2 || played == 6);
        seen_2 |= played == 2;
        seen_6 |= played == 6;
    }
    assert!(seen_2 && seen_6);
}

#[test]
fn four_in_a_column_wins_only_on_the_fourth() {
    let mut game = Connect4::init_vs_ai(Difficulty::Normal);
    for i in 1..=4 {
        assert_eq!(game.drop_token_in_col(1), MoveSuccess::Placed(i - 1));
        assert_eq!(game.is_current_player_winner(), i == 4);
    }
}

#[test]
fn full_board_gives_column_one() {
    let labels = vec![vec!["player".to_string(); 6]; 7];
    for difficulty in ["easy", "medium", "hard", "other"] {
        let game = Connect4::init_from_input_for(
            Player::AI,
            Player::One,
            difficulty.to_string(),
            labels.clone(),
        );
        for col in 1..=7 {
            assert!(game.is_column_full(col));
        }
        assert_eq!(play_for_ai(&game), 1);
    }
}

#[test]
fn chosen_column_is_never_full() {
    let mut game = Connect4::init_vs_ai(Difficulty::Easy);
    for _ in 0..6 {
        game.drop_token_in_col(1);
        game.drop_token_in_col(2);
    }
    for _ in 0..6 {
        game.drop_token_in_col(4);
    }
    for _ in 0..10 {
        let col = play_for_ai(&game);
        assert!(!game.is_column_full(col));
        assert!(col != 1 && col != 2 && col != 4);
    }
}

#[test]
fn ai_blocks_or_wins_at_deeper_levels() {
    let mut game = Connect4::init_vs_ai(Difficulty::Easy);
    game.drop_token_in_col(1);
    game.drop_token_in_col(1);
    game.drop_token_in_col(1);
    game.switch_players();
    let (col, won) = game.get_ai_move();
    assert_eq!(col, 1);
    assert!(!won);
}

#[test]
fn get_ai_move_reports_a_win() {
    let mut game = Connect4::init_vs_ai(Difficulty::Test);
    game.drop_token_in_col(6);
    game.drop_token_in_col(6);
    game.drop_token_in_col(6);
    let (col, won) = game.get_ai_move();
    assert_eq!(col, 6);
    assert!(won);
    assert_eq!(game.is_column_full(6), false);
}

#[test]
fn switching_twice_restores_roles() {
    let mut game = Connect4::init();
    game.drop_token_in_col(2);
    game.switch_players();
    assert_eq!(game.drop_token_in_col(2), MoveSuccess::Placed(1));
    game.switch_players();
    assert_eq!(game.current, Player::One);
    assert_eq!(game.next, Player::Two);
    game.switch_players();
    game.switch_players();
    assert_eq!(game.current, Player::One);
    assert_eq!(game.next, Player::Two);
}

#[test]
fn out_of_range_columns() {
    let mut game = Connect4::init();
    assert_eq!(game.drop_token_in_col(0), MoveSuccess::UnknownColumn);
    assert_eq!(game.drop_token_in_col(8), MoveSuccess::UnknownColumn);
    assert!(!game.is_column_full(0));
    assert!(!game.is_column_full(9));
    for _ in 0..6 {
        game.drop_token_in_col(7);
    }
    assert_eq!(game.drop_token_in_col(7), MoveSuccess::ColumnFull);
    assert!(game.is_column_full(7));
}

#[test]
fn difficulty_labels_and_depths() {
    let board = vec![vec![]];
    let g = Connect4::init_from_input_for(Player::One, Player::AI, "hard".to_string(), board.clone());
    assert_eq!(g.difficulty, Difficulty::Hard);
    let g = Connect4::init_from_input_for(Player::One, Player::AI, "medium".to_string(), board.clone());
    assert_eq!(g.difficulty, Difficulty::Normal);
    let g = Connect4::init_from_input_for(Player::One, Player::AI, "nope".to_string(), board);
    assert_eq!(g.difficulty, Difficulty::Test);
    assert_eq!(difficulty_to_depth(Difficulty::Test), 1);
    assert_eq!(difficulty_to_depth(Difficulty::Easy), 2);
    assert_eq!(difficulty_to_depth(Difficulty::Normal), 3);
    assert_eq!(difficulty_to_depth(Difficulty::Hard), 5);
    assert_eq!(difficulty_to_depth(Difficulty::VeryHard), 6);
    assert_eq!(difficulty_to_depth(Difficulty::NoChance), 10);
}

#[test]
fn column_numbers_and_names() {
    assert_eq!(num_to_col_num(1), Some(BoardColumn::Col1));
    assert_eq!(num_to_col_num(7), Some(BoardColumn::Col7));
    assert_eq!(num_to_col_num(0), None);
    assert_eq!(num_to_col_num(8), None);
    assert_eq!(str_to_col_num("3"), Some(BoardColumn::Col3));
    assert_eq!(str_to_col_num("7"), Some(BoardColumn::Col7));
    assert_eq!(str_to_col_num("8"), None);
    assert_eq!(str_to_col_num(" 1"), None);
    assert_eq!(move_to_col_num(BoardColumn::Col1), 0);
    assert_eq!(move_to_col_num(BoardColumn::Col5), 4);
    assert_eq!(player_to_str(&Player::One), "one");
    assert_eq!(player_to_str(&Player::Two), "two");
    assert_eq!(player_to_str(&Player::AI), "AI");
}

#[test]
fn select_move_picks_by_draw() {
    let moves = vec![(2u8, 3i8), (6u8, 3i8)];
    assert_eq!(select_move(&moves, 0), (2, 3));
    assert_eq!(select_move(&moves, 1), (6, 3));
    assert_eq!(select_move(&moves, 2), (1, 0));
    assert_eq!(select_move(&vec![], 0), (1, 0));
}

#[test]
fn turns_of_a_session() {
    let mut game = Connect4::init_vs_ai(Difficulty::Test);
    assert_eq!(player_round(&mut game, None), PlayerMoveError::UnknownColumn);
    assert_eq!(game.current, Player::One);
    assert_eq!(player_round(&mut game, Some(BoardColumn::Col2)), PlayerMoveError::NoError);
    assert!(!check_win(&mut game));
    assert_eq!(game.current, Player::AI);
    assert!(!ai_round(&mut game));
    assert_eq!(game.current, Player::One);
    for _ in 0..6 {
        game.drop_token_in_col(5);
    }
    let before = game.clone().get_board().get_board_state();
    assert_eq!(player_round(&mut game, Some(BoardColumn::Col5)), PlayerMoveError::ColumnFull);
    assert_eq!(game.clone().get_board().get_board_state(), before);
    assert_eq!(move_error_to_string(&PlayerMoveError::NoError), None);
    assert_eq!(
        move_error_to_string(&PlayerMoveError::ColumnFull),
        Some("Cannot place the token, column is full!".to_string())
    );
    assert_eq!(
        move_error_to_string(&PlayerMoveError::UnknownColumn),
        Some("You've specified unknown column.".to_string())
    );
}
