use vstd::prelude::*;

use crate::board::{
    cells_after_drop, drop_outcome, empty_cells, has_room, label_cell, occupancy, settled, Board,
    MovePlayed, MoveSuccess,
};
use crate::board_column::{column_index, num_to_col_num, BoardColumn};
use crate::difficulty::{depth_of, Difficulty};
use crate::minimax::{is_best_move, play_for_ai, Procedure};
use crate::masks::{cached_masks, get_cached_win_masks};
use crate::player::Player;

verus! {

/// Player `p` holds every cell of some winning line.
pub open spec fn is_winner(cells: Seq<Seq<MovePlayed>>, p: Player) -> bool {
    exists|i: int|
        0 <= i < cached_masks().len() && #[trigger] (occupancy(cells, p) & cached_masks()[i])
            == cached_masks()[i]
}

/// The difficulty that an input label names; an unknown label is the shallowest.
pub open spec fn difficulty_of_label(s: Seq<char>) -> Difficulty {
    if s == "easy"@ {
        Difficulty::Easy
    } else if s == "medium"@ {
        Difficulty::Normal
    } else if s == "hard"@ {
        Difficulty::Hard
    } else {
        Difficulty::Test
    }
}

/// A game: the board, who moves now, who moves next, and how hard the
/// automated player plays.
#[derive(Debug)]
pub struct Connect4 {
    pub current: Player,
    pub next: Player,
    pub board: Board,
    pub difficulty: Difficulty,
}

impl Clone for Connect4 {
    fn clone(&self) -> (r: Self)
        ensures
            r.current == self.current,
            r.next == self.next,
            r.board@ == self.board@,
            r.difficulty == self.difficulty,
    {
        Connect4 {
            current: self.current,
            next: self.next,
            board: self.board.clone(),
            difficulty: self.difficulty,
        }
    }
}

impl Connect4 {
    /// The board is well formed and the two roles differ.
    pub open spec fn wf(&self) -> bool {
        self.board.wf() && self.current != self.next
    }

    /// The same game with the two roles exchanged.
    pub open spec fn switched(self) -> Connect4 {
        Connect4 { current: self.next, next: self.current, ..self }
    }

    /// Whether the player to move holds a complete winning line.
    pub fn is_current_player_winner(&self) -> (r: bool)
        requires
            self.wf(),
        ensures
            r == is_winner(self.board@, self.current),
    {
        let player_status = self.board.get_status_num_for_player(&self.current);
        let masks = get_cached_win_masks();
        let mut i: usize = 0;
        while i < masks.len()
            invariant
                masks@ == cached_masks(),
                player_status == occupancy(self.board@, self.current),
                i <= masks@.len(),
                forall|j: int| 0 <= j < i ==> #[trigger] (player_status & masks@[j]) != masks@[j],
            decreases masks@.len() - i,
        {
            let m = masks[i];
            if player_status & m == m {
                assert(player_status & masks@[i as int] == masks@[i as int]);
                return true;
            }
            i += 1;
        }
        false
    }

    /// Exchanges the player to move and the one after.
    pub fn switch_players(&mut self)
        ensures
            *final(self) == old(self).switched(),
    {
        let new_next = self.current;
        self.current = self.next;
        self.next = new_next;
    }

    /// Drops the current player's token into the column numbered `col_num` (1 to 7).
    pub fn drop_token_in_col(&mut self, col_num: u8) -> (r: MoveSuccess)
        requires
            old(self).wf(),
        ensures
            final(self).wf(),
            settled(old(self).board@) ==> settled(final(self).board@),
            r == drop_outcome(old(self).board@, col_num - 1),
            final(self).board@ == cells_after_drop(old(self).board@, old(self).current, col_num - 1),
            final(self).current == old(self).current,
            final(self).next == old(self).next,
            final(self).difficulty == old(self).difficulty,
    {
        if let Option::Some(col) = num_to_col_num(col_num) {
            self.board.drop_token(&self.current, col)
        } else {
            MoveSuccess::UnknownColumn
        }
    }

    /// Whether the column numbered `col_num` is full; a number outside 1 to 7
    /// counts as not full.
    pub fn is_column_full(&self, col_num: u8) -> (r: bool)
        requires
            self.wf(),
        ensures
            r == (1 <= col_num <= 7 && !has_room(self.board@[col_num - 1])),
    {
        if let Option::Some(col) = num_to_col_num(col_num) {
            !self.board.can_drop_token_in_col(col)
        } else {
            false
        }
    }

    /// Lets the automated player move for the player to move: returns the
    /// column played and whether that move won.
    pub fn get_ai_move(&mut self) -> (r: (u8, bool))
        requires
            old(self).wf(),
        ensures
            final(self).wf(),
            1 <= r.0 <= 7,
            is_best_move(
                old(self).board@,
                old(self).current,
                old(self).next,
                Procedure::Maximising,
                depth_of(old(self).difficulty) as nat,
                r.0 as int,
            ),
            final(self).board@ == cells_after_drop(old(self).board@, old(self).current, r.0 - 1),
            r.1 == is_winner(final(self).board@, old(self).current),
            final(self).current == old(self).current,
            final(self).next == old(self).next,
            final(self).difficulty == old(self).difficulty,
    {
        let col: u8 = play_for_ai(self);
        self.drop_token_in_col(col);
        (col, self.is_current_player_winner())
    }

    /// Hands out the board.
    pub fn get_board(self) -> (r: Board)
        ensures
            r == self.board,
    {
        self.board
    }

    /// A game from labelled input: the roles, a difficulty label ("easy",
    /// "medium", "hard"; anything else is the shallowest), and the board's
    /// labels column by column.
    pub fn init_from_input_for(
        current: Player,
        next: Player,
        difficulty: String,
        str_board: Vec<Vec<String>>,
    ) -> (r: Connect4)
        requires
            current != next,
            str_board@.len() <= 7,
            forall|c: int| 0 <= c < str_board@.len() ==> #[trigger] str_board@[c]@.len() <= 6,
        ensures
            r.wf(),
            r.current == current,
            r.next == next,
            r.difficulty == difficulty_of_label(difficulty@),
            forall|c: int, w: int|
                0 <= c < 7 && 0 <= w < 6 ==> #[trigger] r.board@[c][w] == label_cell(
                    str_board@,
                    c,
                    w,
                ),
    {
        let board = Board::init_from(str_board);
        let d = difficulty.as_str();
        let level = if d.to_owned() == "easy".to_owned() {
            Difficulty::Easy
        } else if d.to_owned() == "medium".to_owned() {
            Difficulty::Normal
        } else if d.to_owned() == "hard".to_owned() {
            Difficulty::Hard
        } else {
            Difficulty::Test
        };
        Connect4 { current, next, board, difficulty: level }
    }

    /// A new game of player one against the automated player, player one first.
    pub fn init_vs_ai(difficulty: Difficulty) -> (r: Connect4)
        ensures
            r.wf(),
            r.current == Player::One,
            r.next == Player::AI,
            r.board@ == empty_cells(),
            r.difficulty == difficulty,
    {
        Connect4 { current: Player::One, next: Player::AI, board: Board::init(), difficulty }
    }

    /// A new game between players one and two, player one first, at normal difficulty.
    pub fn init() -> (r: Connect4)
        ensures
            r.wf(),
            r.current == Player::One,
            r.next == Player::Two,
            r.board@ == empty_cells(),
            r.difficulty == Difficulty::Normal,
    {
        Connect4 {
            current: Player::One,
            next: Player::Two,
            board: Board::init(),
            difficulty: Difficulty::Normal,
        }
    }
}

/// Why a player's move was not taken.
#[derive(Debug, Clone, Copy, PartialEq, Eq, Structural)]
pub enum PlayerMoveError {
    NoError,
    UnknownColumn,
    ColumnFull,
}

/// The message shown for a refused move.
pub open spec fn move_error_message(err: PlayerMoveError) -> Option<Seq<char>> {
    match err {
        PlayerMoveError::ColumnFull => Some("Cannot place the token, column is full!"@),
        PlayerMoveError::UnknownColumn => Some("You've specified unknown column."@),
        PlayerMoveError::NoError => None,
    }
}

/// The message to show for a refused move, if any.
pub fn move_error_to_string(err: &PlayerMoveError) -> (r: Option<String>)
    ensures
        r is Some == move_error_message(*err) is Some,
        r is Some ==> r->0@ == move_error_message(*err)->0,
{
    match err {
        PlayerMoveError::ColumnFull => Option::Some(
            String::from_str("Cannot place the token, column is full!"),
        ),
        PlayerMoveError::UnknownColumn => Option::Some(
            String::from_str("You've specified unknown column."),
        ),
        PlayerMoveError::NoError => Option::None,
    }
}

/// Ends a turn: reports whether the player to move has won; if not, the
/// other player is to move.
pub fn check_win(game: &mut Connect4) -> (won: bool)
    requires
        old(game).wf(),
    ensures
        won == is_winner(old(game).board@, old(game).current),
        won ==> *final(game) == *old(game),
        !won ==> *final(game) == old(game).switched(),
        final(game).wf(),
{
    if game.is_current_player_winner() {
        true
    } else {
        game.switch_players();
        false
    }
}

/// Plays a human move given as the column the player picked (`None` for an
/// unreadable choice). The move is taken only when the column has room.
pub fn player_round(game: &mut Connect4, choice: Option<BoardColumn>) -> (r: PlayerMoveError)
    requires
        old(game).wf(),
    ensures
        final(game).wf(),
        final(game).current == old(game).current,
        final(game).next == old(game).next,
        final(game).difficulty == old(game).difficulty,
        choice is None ==> r == PlayerMoveError::UnknownColumn && final(game).board@ == old(
            game,
        ).board@,
        choice is Some ==> {
            let c = column_index(choice->0);
            &&& r == if has_room(old(game).board@[c]) {
                PlayerMoveError::NoError
            } else {
                PlayerMoveError::ColumnFull
            }
            &&& final(game).board@ == cells_after_drop(old(game).board@, old(game).current, c)
        },
{
    match choice {
        Option::Some(col) => {
            let current = game.current;
            let success = game.board.drop_token(&current, col);
            match success {
                MoveSuccess::ColumnFull => PlayerMoveError::ColumnFull,
                MoveSuccess::UnknownColumn => PlayerMoveError::UnknownColumn,
                _ => PlayerMoveError::NoError,
            }
        },
        Option::None => PlayerMoveError::UnknownColumn,
    }
}

/// Plays the automated player's turn and ends it: the chosen column is
/// played for the player to move; returns whether that won, and if not the
/// turn passes to the other player.
pub fn ai_round(game: &mut Connect4) -> (won: bool)
    requires
        old(game).wf(),
    ensures
        final(game).wf(),
        exists|col: int|
            1 <= col <= 7 && is_best_move(
                old(game).board@,
                old(game).current,
                old(game).next,
                Procedure::Maximising,
                depth_of(old(game).difficulty) as nat,
                col,
            ) && final(game).board@ == #[trigger] cells_after_drop(
                old(game).board@,
                old(game).current,
                col - 1,
            ) && won == is_winner(final(game).board@, old(game).current),
        won ==> final(game).current == old(game).current && final(game).next == old(game).next,
        !won ==> final(game).current == old(game).next && final(game).next == old(game).current,
        final(game).difficulty == old(game).difficulty,
{
    let col = play_for_ai(game);
    game.drop_token_in_col(col);
    let won = check_win(game);
    assert(1 <= col <= 7 && game.board@ == cells_after_drop(
        old(game).board@,
        old(game).current,
        col - 1,
    ));
    won
}

/// Exchanging the roles twice gives back the same game.
pub proof fn lemma_switch_players_twice(game: Connect4)
    ensures
        game.switched().switched() == game,
{
}

} // verus!
