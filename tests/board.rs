use connect4::board::{is_successful_move, Board, MovePlayed, MoveSuccess};
use connect4::board_column::BoardColumn;
use connect4::player::Player;

#[test]
fn can_drop_tokens() {
    let mut board = Board::init();
    let success = board.drop_token(&Player::One, BoardColumn::Col1);

    // Test placing first token by player one, on row index 0
    assert_eq!(success, MoveSuccess::Placed(0));
    assert_eq!(board.can_drop_token_in_col(BoardColumn::Col1), true);
    assert_eq!(
        *board.board_state.get(0).unwrap(),
        vec![
            MovePlayed::Played(Player::One),
            MovePlayed::NotPlayed,
            MovePlayed::NotPlayed,
            MovePlayed::NotPlayed,
            MovePlayed::NotPlayed,
            MovePlayed::NotPlayed,
        ]
    );

    // Test placing second token by player two, on row index 1
    let success = board.drop_token(&Player::Two, BoardColumn::Col1);
    assert_eq!(success, MoveSuccess::Placed(1));
    assert_eq!(board.can_drop_token_in_col(BoardColumn::Col1), true);
    assert_eq!(
        *board.board_state.get(0).unwrap(),
        vec![
            MovePlayed::Played(Player::One),
            MovePlayed::Played(Player::Two),
            MovePlayed::NotPlayed,
            MovePlayed::NotPlayed,
            MovePlayed::NotPlayed,
            MovePlayed::NotPlayed,
        ]
    );

    // Drop more tokens to fill the first column
    board.drop_token(&Player::One, BoardColumn::Col1);
    board.drop_token(&Player::Two, BoardColumn::Col1);
    board.drop_token(&Player::One, BoardColumn::Col1);
    board.drop_token(&Player::Two, BoardColumn::Col1);

    // Try to drop one more!
    let success = board.drop_token(&Player::One, BoardColumn::Col1);
    assert_eq!(success, MoveSuccess::ColumnFull);
    assert_eq!(board.can_drop_token_in_col(BoardColumn::Col1), false);
}

#[test]
fn can_calc_correct_player_status() {
    let mut board = Board::init();
    board.drop_token(&Player::One, BoardColumn::Col1);
    board.drop_token(&Player::One, BoardColumn::Col1);
    board.drop_token(&Player::One, BoardColumn::Col1);
    board.drop_token(&Player::One, BoardColumn::Col1);

    // First column should be a win for player one
    assert_eq!(board.get_status_num_for_player(&Player::One), 2113665);

    let mut board = Board::init();
    board.drop_token(&Player::One, BoardColumn::Col1);
    board.drop_token(&Player::Two, BoardColumn::Col2);
    board.drop_token(&Player::One, BoardColumn::Col2);
    board.drop_token(&Player::Two, BoardColumn::Col3);
    board.drop_token(&Player::One, BoardColumn::Col4);
    board.drop_token(&Player::Two, BoardColumn::Col3);
    board.drop_token(&Player::One, BoardColumn::Col3);
    board.drop_token(&Player::Two, BoardColumn::Col4);
    board.drop_token(&Player::One, BoardColumn::Col5);
    board.drop_token(&Player::Two, BoardColumn::Col4);
    board.drop_token(&Player::One, BoardColumn::Col4);

    assert_eq!(board.get_status_num_for_player(&Player::One), 16843033);
}

#[test]
fn column_fills_bottom_up_then_reports_full() {
    let mut board = Board::init();
    for row in 0..6 {
        assert!(board.can_drop_token_in_col(BoardColumn::Col4));
        assert_eq!(
            board.drop_token(&Player::AI, BoardColumn::Col4),
            MoveSuccess::Placed(row)
        );
    }
    assert!(!board.can_drop_token_in_col(BoardColumn::Col4));
    assert_eq!(
        board.drop_token(&Player::AI, BoardColumn::Col4),
        MoveSuccess::ColumnFull
    );
    assert_eq!(board.board_state[3], vec![MovePlayed::Played(Player::AI); 6]);
}

#[test]
fn masks_of_two_players_share_no_bit() {
    let mut board = Board::init();
    let players = [Player::One, Player::Two, Player::AI];
    for i in 0..20usize {
        let col = [
            BoardColumn::Col1,
            BoardColumn::Col2,
            BoardColumn::Col3,
            BoardColumn::Col4,
            BoardColumn::Col5,
            BoardColumn::Col6,
            BoardColumn::Col7,
        ][i % 7];
        board.drop_token(&players[i % 3], col);
    }
    let one = board.get_status_num_for_player(&Player::One);
    let two = board.get_status_num_for_player(&Player::Two);
    let ai = board.get_status_num_for_player(&Player::AI);
    assert_eq!(one & two, 0);
    assert_eq!(one & ai, 0);
    assert_eq!(two & ai, 0);
    assert_eq!((one | two | ai).count_ones(), 20);
}

#[test]
fn mask_bit_is_row_times_seven_plus_column() {
    let mut board = Board::init();
    board.drop_token(&Player::Two, BoardColumn::Col7);
    board.drop_token(&Player::Two, BoardColumn::Col7);
    assert_eq!(board.get_status_num_for_player(&Player::Two), (1 << 6) | (1 << 13));
    assert_eq!(board.get_status_num_for_player(&Player::One), 0);
}

#[test]
fn init_from_reads_labels() {
    let labels = vec![
        vec!["player".to_string(), "ai".to_string()],
        vec![],
        vec!["ai".to_string(), "x".to_string(), "player".to_string()],
    ];
    let board = Board::init_from(labels);
    let state = board.get_board_state();
    assert_eq!(state.len(), 7);
    assert_eq!(state[0][0], MovePlayed::Played(Player::One));
    assert_eq!(state[0][1], MovePlayed::Played(Player::AI));
    assert_eq!(state[0][2], MovePlayed::NotPlayed);
    assert_eq!(state[1], vec![MovePlayed::NotPlayed; 6]);
    assert_eq!(state[2][1], MovePlayed::NotPlayed);
    assert_eq!(state[2][2], MovePlayed::Played(Player::One));
    assert_eq!(state[6], vec![MovePlayed::NotPlayed; 6]);
}

#[test]
fn only_placed_counts_as_successful() {
    assert!(is_successful_move(&MoveSuccess::Placed(3)));
    assert!(!is_successful_move(&MoveSuccess::ColumnFull));
    assert!(!is_successful_move(&MoveSuccess::UnknownColumn));
}
