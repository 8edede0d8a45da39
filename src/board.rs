use vstd::prelude::*;

use crate::board_column::{column_index, move_to_col_num, BoardColumn};
use crate::player::Player;

verus! {

/// Number of rows of the grid.
pub const ROW_NUM: i8 = 6;

/// Number of columns of the grid.
pub const COL_NUM: i8 = 7;

/// The state of one cell: taken by a player, or still free.
#[derive(Debug, Clone, Copy, PartialEq, Eq, Structural)]
pub enum MovePlayed {
    Played(Player),
    NotPlayed,
}

/// The outcome of dropping a token.
#[derive(Debug, Clone, Copy, PartialEq, Eq, Structural)]
pub enum MoveSuccess {
    Placed(usize),
    ColumnFull,
    UnknownColumn,
}

/// Whether a drop put a token on the board.
pub fn is_successful_move(m: &MoveSuccess) -> (r: bool)
    ensures
        r == (*m is Placed),
{
    match m {
        MoveSuccess::Placed(_) => true,
        _ => false,
    }
}

/// The grid has seven columns of six cells each.
pub open spec fn well_formed(cells: Seq<Seq<MovePlayed>>) -> bool {
    &&& cells.len() == 7
    &&& forall|c: int| 0 <= c < 7 ==> #[trigger] cells[c].len() == 6
}

/// No token floats: in every column the taken cells form a prefix from row 0.
pub open spec fn settled(cells: Seq<Seq<MovePlayed>>) -> bool {
    forall|c: int, i: int, j: int|
        0 <= c < cells.len() && 0 <= i < j < cells[c].len() && #[trigger] cells[c][j]
            != MovePlayed::NotPlayed ==> #[trigger] cells[c][i] != MovePlayed::NotPlayed
}

/// Row `i` is the lowest free cell of the column.
pub open spec fn is_lowest_empty(col: Seq<MovePlayed>, i: int) -> bool {
    &&& 0 <= i < col.len()
    &&& col[i] == MovePlayed::NotPlayed
    &&& forall|j: int| 0 <= j < i ==> col[j] != MovePlayed::NotPlayed
}

/// The column still has a free cell.
pub open spec fn has_room(col: Seq<MovePlayed>) -> bool {
    exists|i: int| 0 <= i < col.len() && col[i] == MovePlayed::NotPlayed
}

/// The row at which the next token of a column lands.
pub open spec fn lowest_empty(col: Seq<MovePlayed>) -> int {
    choose|i: int| is_lowest_empty(col, i)
}

/// What dropping into column `c` reports.
pub open spec fn drop_outcome(cells: Seq<Seq<MovePlayed>>, c: int) -> MoveSuccess {
    if !(0 <= c < cells.len()) {
        MoveSuccess::UnknownColumn
    } else if has_room(cells[c]) {
        MoveSuccess::Placed(lowest_empty(cells[c]) as usize)
    } else {
        MoveSuccess::ColumnFull
    }
}

/// The grid after player `p` drops a token into column `c`.
pub open spec fn cells_after_drop(cells: Seq<Seq<MovePlayed>>, p: Player, c: int) -> Seq<
    Seq<MovePlayed>,
> {
    if drop_outcome(cells, c) is Placed {
        cells.update(c, cells[c].update(lowest_empty(cells[c]), MovePlayed::Played(p)))
    } else {
        cells
    }
}

/// The cell of linear index `k`, counted row by row from the bottom left.
pub open spec fn cell_at(cells: Seq<Seq<MovePlayed>>, k: int) -> MovePlayed {
    cells[k % 7][k / 7]
}

/// The bit that cell `k` adds to player `p`'s mask.
pub open spec fn cell_bit(cells: Seq<Seq<MovePlayed>>, p: Player, k: nat) -> u64 {
    if cell_at(cells, k as int) == MovePlayed::Played(p) {
        1u64 << (k as u64)
    } else {
        0u64
    }
}

/// The mask of player `p` over the first `k` cells.
pub open spec fn occupancy_upto(cells: Seq<Seq<MovePlayed>>, p: Player, k: nat) -> u64
    decreases k,
{
    if k == 0 {
        0u64
    } else {
        occupancy_upto(cells, p, (k - 1) as nat) | cell_bit(cells, p, (k - 1) as nat)
    }
}

/// Player `p`'s mask: bit `row * 7 + col` is set iff that cell holds `p`'s token.
pub open spec fn occupancy(cells: Seq<Seq<MovePlayed>>, p: Player) -> u64 {
    occupancy_upto(cells, p, 42)
}

/// A grid of free cells.
pub open spec fn empty_cells() -> Seq<Seq<MovePlayed>> {
    Seq::new(7, |c: int| Seq::new(6, |r: int| MovePlayed::NotPlayed))
}

/// The cell that an input label stands for.
pub open spec fn cell_of_label(s: Seq<char>) -> MovePlayed {
    if s == "player"@ {
        MovePlayed::Played(Player::One)
    } else if s == "ai"@ {
        MovePlayed::Played(Player::AI)
    } else {
        MovePlayed::NotPlayed
    }
}

/// The cell that labelled input gives at column `c`, row `w`: a missing label is a free cell.
pub open spec fn label_cell(labels: Seq<Vec<String>>, c: int, w: int) -> MovePlayed {
    if c < labels.len() && w < labels[c]@.len() {
        cell_of_label(labels[c]@[w]@)
    } else {
        MovePlayed::NotPlayed
    }
}

pub proof fn lemma_lowest_empty_unique(col: Seq<MovePlayed>, i: int)
    requires
        is_lowest_empty(col, i),
    ensures
        lowest_empty(col) == i,
        has_room(col),
{
    let j = lowest_empty(col);
    assert(is_lowest_empty(col, j));
    if j < i {
        assert(col[j] != MovePlayed::NotPlayed);
    } else if i < j {
        assert(col[i] != MovePlayed::NotPlayed);
    }
}

proof fn lemma_drop_keeps_settled(cells: Seq<Seq<MovePlayed>>, p: Player, c: int, low: int)
    requires
        well_formed(cells),
        settled(cells),
        0 <= c < 7,
        is_lowest_empty(cells[c], low),
    ensures
        settled(cells_after_drop(cells, p, c)),
{
    lemma_lowest_empty_unique(cells[c], low);
    let after = cells_after_drop(cells, p, c);
    assert forall|d: int, i: int, j: int|
        0 <= d < after.len() && 0 <= i < j < after[d].len() && #[trigger] after[d][j]
            != MovePlayed::NotPlayed implies #[trigger] after[d][i] != MovePlayed::NotPlayed by {
        if d == c {
            if j != low {
                assert(cells[c][j] != MovePlayed::NotPlayed);
                if i != low {
                    assert(cells[c][i] != MovePlayed::NotPlayed);
                }
            } else {
                assert(cells[c][i] != MovePlayed::NotPlayed);
            }
        } else {
            assert(cells[d][j] != MovePlayed::NotPlayed);
        }
    }
}

/// A grid of tokens, stored column by column with row 0 at the bottom.
#[derive(Debug)]
pub struct Board {
    pub board_state: Vec<Vec<MovePlayed>>,
}

impl View for Board {
    type V = Seq<Seq<MovePlayed>>;

    open spec fn view(&self) -> Seq<Seq<MovePlayed>> {
        self.board_state@.map_values(|col: Vec<MovePlayed>| col@)
    }
}

fn copy_column(col: &Vec<MovePlayed>) -> (r: Vec<MovePlayed>)
    ensures
        r@ == col@,
{
    let mut r: Vec<MovePlayed> = Vec::new();
    let mut i: usize = 0;
    while i < col.len()
        invariant
            i <= col@.len(),
            r@ == col@.subrange(0, i as int),
        decreases col@.len() - i,
    {
        r.push(col[i]);
        i += 1;
    }
    assert(r@ =~= col@);
    r
}

impl Clone for Board {
    fn clone(&self) -> (r: Self)
        ensures
            r@ == self@,
    {
        let mut cols: Vec<Vec<MovePlayed>> = Vec::new();
        let mut i: usize = 0;
        while i < self.board_state.len()
            invariant
                i <= self.board_state@.len(),
                cols@.len() == i,
                forall|j: int| 0 <= j < i ==> #[trigger] cols@[j]@ == self.board_state@[j]@,
            decreases self.board_state@.len() - i,
        {
            let col = copy_column(&self.board_state[i]);
            cols.push(col);
            i += 1;
        }
        let r = Board { board_state: cols };
        assert(r@ =~= self@);
        r
    }
}

impl Board {
    pub open spec fn wf(&self) -> bool {
        well_formed(self@)
    }

    /// An empty board.
    pub fn init() -> (r: Board)
        ensures
            r.wf(),
            r@ == empty_cells(),
            settled(r@),
    {
        let mut cols: Vec<Vec<MovePlayed>> = Vec::new();
        let mut c: usize = 0;
        while c < 7
            invariant
                c <= 7,
                cols@.len() == c,
                forall|j: int| 0 <= j < c ==> #[trigger] cols@[j]@ == empty_cells()[j],
            decreases 7 - c,
        {
            let mut col: Vec<MovePlayed> = Vec::new();
            let mut r: usize = 0;
            while r < 6
                invariant
                    r <= 6,
                    col@.len() == r,
                    forall|j: int| 0 <= j < r ==> col@[j] == MovePlayed::NotPlayed,
                decreases 6 - r,
            {
                col.push(MovePlayed::NotPlayed);
                r += 1;
            }
            assert(col@ =~= empty_cells()[c as int]);
            cols.push(col);
            c += 1;
        }
        let b = Board { board_state: cols };
        assert(b@ =~= empty_cells());
        b
    }

    /// A board from labels given column by column: "player" is player one,
    /// "ai" the automated player, anything else a free cell.
    pub fn init_from(str_board: Vec<Vec<String>>) -> (r: Board)
        requires
            str_board@.len() <= 7,
            forall|c: int| 0 <= c < str_board@.len() ==> #[trigger] str_board@[c]@.len() <= 6,
        ensures
            r.wf(),
            forall|c: int, w: int|
                0 <= c < 7 && 0 <= w < 6 ==> #[trigger] r@[c][w] == label_cell(str_board@, c, w),
    {
        let mut board = Board::init();
        let mut i: usize = 0;
        while i < str_board.len()
            invariant
                i <= str_board@.len(),
                str_board@.len() <= 7,
                forall|c: int| 0 <= c < str_board@.len() ==> #[trigger] str_board@[c]@.len() <= 6,
                board.wf(),
                forall|c: int, w: int|
                    0 <= c < 7 && 0 <= w < 6 ==> #[trigger] board@[c][w] == if c < i && w
                        < str_board@[c]@.len() {
                        cell_of_label(str_board@[c]@[w]@)
                    } else {
                        MovePlayed::NotPlayed
                    },
            decreases str_board@.len() - i,
        {
            let labels = &str_board[i];
            let mut col = copy_column(&board.board_state[i]);
            assert(board@[i as int] == board.board_state@[i as int]@);
            assert(col@ == board@[i as int]);
            assert(col@.len() == 6);
            let ghost before = board@;
            let mut j: usize = 0;
            while j < labels.len()
                invariant
                    i < str_board@.len() <= 7,
                    labels@ == str_board@[i as int]@,
                    labels@.len() <= 6,
                    j <= labels@.len(),
                    col@.len() == 6,
                    forall|w: int|
                        0 <= w < 6 ==> #[trigger] col@[w] == if w < j {
                            cell_of_label(labels@[w]@)
                        } else {
                            MovePlayed::NotPlayed
                        },
                decreases labels@.len() - j,
            {
                let label = labels[j].as_str();
                let cell = if label.to_owned() == "player".to_owned() {
                    MovePlayed::Played(Player::One)
                } else if label.to_owned() == "ai".to_owned() {
                    MovePlayed::Played(Player::AI)
                } else {
                    MovePlayed::NotPlayed
                };
                col.set(j, cell);
                j += 1;
            }
            board.board_state.set(i, col);
            assert(board@ =~= before.update(i as int, col@));
            i += 1;
        }
        board
    }

    /// Hands out the grid.
    pub fn get_board_state(self) -> (r: Vec<Vec<MovePlayed>>)
        ensures
            r@.map_values(|col: Vec<MovePlayed>| col@) == self@,
    {
        self.board_state
    }

    /// Whether column `column` still has a free cell.
    pub fn can_drop_token_in_col(&self, column: BoardColumn) -> (r: bool)
        requires
            self.wf(),
        ensures
            r == has_room(self@[column_index(column)]),
    {
        let col_num: usize = move_to_col_num(column);
        let col = &self.board_state[col_num];
        let mut i: usize = 0;
        while i < col.len()
            invariant
                self.wf(),
                col_num < 7,
                col_num == column_index(column),
                col@ == self@[col_num as int],
                i <= col@.len(),
                forall|j: int| 0 <= j < i ==> col@[j] != MovePlayed::NotPlayed,
            decreases col@.len() - i,
        {
            if col[i] == MovePlayed::NotPlayed {
                assert(col@[i as int] == MovePlayed::NotPlayed);
                assert(has_room(self@[col_num as int]));
                return true;
            }
            i += 1;
        }
        false
    }

    /// Player's mask: bit `row * 7 + col` is set iff that cell holds the player's token.
    pub fn get_status_num_for_player(&self, player: &Player) -> (r: u64)
        requires
            self.wf(),
        ensures
            r == occupancy(self@, *player),
    {
        let mut acc: u64 = 0;
        let mut k: usize = 0;
        while k < 42
            invariant
                self.wf(),
                k <= 42,
                acc == occupancy_upto(self@, *player, k as nat),
            decreases 42 - k,
        {
            let col = k % 7;
            let row = k / 7;
            assert(col < 7 && row < 6);
            assert(self@[col as int] == self.board_state@[col as int]@);
            assert(self@[col as int].len() == 6);
            if self.board_state[col][row] == MovePlayed::Played(*player) {
                acc = acc | (1u64 << (k as u64));
            } else {
                assert(acc | 0u64 == acc) by (bit_vector);
            }
            assert(occupancy_upto(self@, *player, (k + 1) as nat) == occupancy_upto(
                self@,
                *player,
                k as nat,
            ) | cell_bit(self@, *player, k as nat));
            k += 1;
        }
        acc
    }

    /// Drops `player`'s token into `column`: it lands on the lowest free cell.
    pub fn drop_token(&mut self, player: &Player, column: BoardColumn) -> (r: MoveSuccess)
        requires
            old(self).wf(),
        ensures
            final(self).wf(),
            settled(old(self)@) ==> settled(final(self)@),
            r == drop_outcome(old(self)@, column_index(column)),
            final(self)@ == cells_after_drop(old(self)@, *player, column_index(column)),
    {
        let col_num: usize = move_to_col_num(column);
        let mut col = copy_column(&self.board_state[col_num]);
        let mut i: usize = 0;
        while i < col.len()
            invariant
                self.wf(),
                col_num < 7,
                col_num == column_index(column),
                *self == *old(self),
                col@ == self@[col_num as int],
                i <= col@.len(),
                forall|j: int| 0 <= j < i ==> col@[j] != MovePlayed::NotPlayed,
            decreases col@.len() - i,
        {
            if col[i] == MovePlayed::NotPlayed {
                proof {
                    lemma_lowest_empty_unique(col@, i as int);
                    if settled(old(self)@) {
                        lemma_drop_keeps_settled(old(self)@, *player, col_num as int, i as int);
                    }
                }
                col.set(i, MovePlayed::Played(*player));
                self.board_state.set(col_num, col);
                assert(self@ =~= cells_after_drop(old(self)@, *player, col_num as int));
                return MoveSuccess::Placed(i);
            }
            i += 1;
        }
        MoveSuccess::ColumnFull
    }
}

proof fn lemma_disjoint_bits_step(x: u64, y: u64, bx: u64, by_: u64, j: u64, j1: u64)
    by (bit_vector)
    requires
        j < 42,
        j1 == j + 1,
        x < (1u64 << j),
        y < (1u64 << j),
        x & y == 0,
        bx == 0 || bx == (1u64 << j),
        by_ == 0 || by_ == (1u64 << j),
        bx == 0 || by_ == 0,
    ensures
        (x | bx) & (y | by_) == 0,
        (x | bx) < (1u64 << j1),
        (y | by_) < (1u64 << j1),
{
}

proof fn lemma_occupancy_upto_disjoint(cells: Seq<Seq<MovePlayed>>, a: Player, b: Player, k: nat)
    requires
        a != b,
        k <= 42,
    ensures
        occupancy_upto(cells, a, k) & occupancy_upto(cells, b, k) == 0,
        occupancy_upto(cells, a, k) < (1u64 << (k as u64)),
        occupancy_upto(cells, b, k) < (1u64 << (k as u64)),
    decreases k,
{
    if k == 0 {
        assert(0u64 & 0u64 == 0u64 && 0u64 < (1u64 << 0u64)) by (bit_vector);
    } else {
        let j = (k - 1) as nat;
        lemma_occupancy_upto_disjoint(cells, a, b, j);
        lemma_disjoint_bits_step(
            occupancy_upto(cells, a, j),
            occupancy_upto(cells, b, j),
            cell_bit(cells, a, j),
            cell_bit(cells, b, j),
            j as u64,
            k as u64,
        );
    }
}

/// No cell counts for two players: the masks of two different players share no bit.
pub proof fn lemma_occupancy_disjoint(cells: Seq<Seq<MovePlayed>>, a: Player, b: Player)
    requires
        a != b,
    ensures
        occupancy(cells, a) & occupancy(cells, b) == 0,
{
    lemma_occupancy_upto_disjoint(cells, a, b, 42);
}

/// Column `c` holds exactly `k` tokens, stacked from the bottom.
pub open spec fn column_height_is(cells: Seq<Seq<MovePlayed>>, c: int, k: int) -> bool {
    &&& forall|j: int| 0 <= j < k ==> #[trigger] cells[c][j] != MovePlayed::NotPlayed
    &&& forall|j: int| k <= j < 6 ==> #[trigger] cells[c][j] == MovePlayed::NotPlayed
}

/// Tokens stack upward: in a column holding `k < 6` tokens the next one lands
/// on row `k`, leaving `k + 1`; a column holding 6 reports full and stays as it is.
pub proof fn lemma_column_fills_upward(cells: Seq<Seq<MovePlayed>>, p: Player, c: int, k: int)
    requires
        well_formed(cells),
        0 <= c < 7,
        0 <= k <= 6,
        column_height_is(cells, c, k),
    ensures
        k < 6 ==> has_room(cells[c]) && drop_outcome(cells, c) == MoveSuccess::Placed(k as usize)
            && well_formed(cells_after_drop(cells, p, c)) && column_height_is(
            cells_after_drop(cells, p, c),
            c,
            k + 1,
        ),
        k == 6 ==> !has_room(cells[c]) && drop_outcome(cells, c) == MoveSuccess::ColumnFull
            && cells_after_drop(cells, p, c) == cells,
{
    if k < 6 {
        lemma_lowest_empty_unique(cells[c], k);
        let after = cells_after_drop(cells, p, c);
        assert forall|j: int| 0 <= j < k + 1 implies #[trigger] after[c][j]
            != MovePlayed::NotPlayed by {
            if j < k {
                assert(cells[c][j] != MovePlayed::NotPlayed);
            }
        }
        assert forall|j: int| k + 1 <= j < 6 implies #[trigger] after[c][j]
            == MovePlayed::NotPlayed by {
            assert(cells[c][j] == MovePlayed::NotPlayed);
        }
    }
}

} // verus!
