use vstd::prelude::*;

use rand::Rng;

use crate::board::{cells_after_drop, has_room, is_successful_move, well_formed, MovePlayed};
use crate::connect4::{is_winner, Connect4};
use crate::difficulty::{depth_of, difficulty_to_depth};
use crate::player::Player;

verus! {

/// Whose advantage a search node looks for.
#[derive(Debug, Clone, Copy, PartialEq, Eq, Structural)]
pub enum Procedure {
    Maximising,
    Minimising,
}

/// The other role.
pub open spec fn flipped(p: Procedure) -> Procedure {
    match p {
        Procedure::Maximising => Procedure::Minimising,
        Procedure::Minimising => Procedure::Maximising,
    }
}

fn switch_procedure(current: &Procedure) -> (r: Procedure)
    ensures
        r == flipped(*current),
{
    if *current == Procedure::Maximising {
        Procedure::Minimising
    } else {
        Procedure::Maximising
    }
}

/// The weight of a finished branch: `depth + 1`, signed by the role, for a
/// win of the player who just moved, else 0.
pub open spec fn leaf_weight(
    cells: Seq<Seq<MovePlayed>>,
    mover: Player,
    procedure: Procedure,
    depth: int,
) -> int {
    if is_winner(cells, mover) {
        match procedure {
            Procedure::Maximising => depth + 1,
            Procedure::Minimising => -(depth + 1),
        }
    } else {
        0
    }
}

/// The better of two weights for a role.
pub open spec fn better(procedure: Procedure, a: int, b: int) -> int {
    match procedure {
        Procedure::Maximising => if a >= b { a } else { b },
        Procedure::Minimising => if a <= b { a } else { b },
    }
}

/// The best weight among candidates (0 when there are none).
pub open spec fn best_weight(ws: Seq<(int, int)>, procedure: Procedure) -> int
    decreases ws.len(),
{
    if ws.len() == 0 {
        0
    } else if ws.len() == 1 {
        ws[0].1
    } else {
        better(procedure, best_weight(ws.drop_last(), procedure), ws.last().1)
    }
}

/// The weight of column `col` once `mover` has dropped into it, leaving `cells`.
pub open spec fn weight_after_drop(
    cells: Seq<Seq<MovePlayed>>,
    mover: Player,
    other: Player,
    procedure: Procedure,
    depth: nat,
    col: int,
) -> int
    decreases depth, 0nat, 0nat,
{
    if !has_room(cells[col - 1]) || is_winner(cells, mover) || depth == 0 {
        leaf_weight(cells, mover, procedure, depth as int)
    } else {
        node_value(cells, other, mover, flipped(procedure), (depth - 1) as nat)
    }
}

/// The (column, weight) pairs of the columns `1..=n` that take a token.
pub open spec fn candidates(
    cells: Seq<Seq<MovePlayed>>,
    mover: Player,
    other: Player,
    procedure: Procedure,
    depth: nat,
    n: nat,
) -> Seq<(int, int)>
    decreases depth, 1nat, n,
{
    if n == 0 {
        Seq::empty()
    } else {
        let prev = candidates(cells, mover, other, procedure, depth, (n - 1) as nat);
        if has_room(cells[n - 1]) {
            prev.push(
                (
                    n as int,
                    weight_after_drop(
                        cells_after_drop(cells, mover, n - 1),
                        mover,
                        other,
                        procedure,
                        depth,
                        n as int,
                    ),
                ),
            )
        } else {
            prev
        }
    }
}

/// The value of a search node: the best weight among its moves, 0 if it has none.
pub open spec fn node_value(
    cells: Seq<Seq<MovePlayed>>,
    mover: Player,
    other: Player,
    procedure: Procedure,
    depth: nat,
) -> int
    decreases depth, 2nat, 0nat,
{
    best_weight(candidates(cells, mover, other, procedure, depth, 7), procedure)
}

/// Column `col` is one the search may answer: a move of best weight, or
/// column 1 when no column takes a token.
pub open spec fn is_best_move(
    cells: Seq<Seq<MovePlayed>>,
    mover: Player,
    other: Player,
    procedure: Procedure,
    depth: nat,
    col: int,
) -> bool {
    let cs = candidates(cells, mover, other, procedure, depth, 7);
    if cs.len() == 0 {
        col == 1
    } else {
        exists|i: int|
            0 <= i < cs.len() && #[trigger] cs[i] == (col, best_weight(cs, procedure))
    }
}

pub open spec fn weights_view(v: Seq<(u8, i8)>) -> Seq<(int, int)> {
    v.map_values(|p: (u8, i8)| (p.0 as int, p.1 as int))
}

proof fn lemma_candidates_legal(
    cells: Seq<Seq<MovePlayed>>,
    mover: Player,
    other: Player,
    procedure: Procedure,
    depth: nat,
    n: nat,
)
    requires
        n <= 7,
        well_formed(cells),
    ensures
        forall|i: int|
            0 <= i < candidates(cells, mover, other, procedure, depth, n).len() ==> {
                let c = #[trigger] candidates(cells, mover, other, procedure, depth, n)[i].0;
                1 <= c <= n && has_room(cells[c - 1])
            },
        candidates(cells, mover, other, procedure, depth, n).len() == 0 <==> forall|m: int|
            1 <= m <= n ==> !has_room(#[trigger] cells[m - 1]),
    decreases n,
{
    if n > 0 {
        lemma_candidates_legal(cells, mover, other, procedure, depth, (n - 1) as nat);
        let prev = candidates(cells, mover, other, procedure, depth, (n - 1) as nat);
        let cs = candidates(cells, mover, other, procedure, depth, n);
        if has_room(cells[n - 1]) {
            assert(cs.len() > 0);
            assert forall|i: int| 0 <= i < cs.len() implies {
                let c = #[trigger] cs[i].0;
                1 <= c <= n && has_room(cells[c - 1])
            } by {
                if i < prev.len() {
                    assert(cs[i] == prev[i]);
                }
            }
        } else {
            assert(cs == prev);
        }
    }
}

proof fn lemma_best_attained(ws: Seq<(int, int)>, procedure: Procedure)
    requires
        ws.len() > 0,
    ensures
        exists|i: int| 0 <= i < ws.len() && #[trigger] ws[i].1 == best_weight(ws, procedure),
    decreases ws.len(),
{
    if ws.len() == 1 {
        assert(ws[0].1 == best_weight(ws, procedure));
    } else {
        lemma_best_attained(ws.drop_last(), procedure);
        let i = choose|i: int|
            0 <= i < ws.drop_last().len() && #[trigger] ws.drop_last()[i].1 == best_weight(
                ws.drop_last(),
                procedure,
            );
        if best_weight(ws, procedure) == ws.last().1 {
            assert(ws[ws.len() - 1].1 == best_weight(ws, procedure));
        } else {
            assert(ws[i].1 == best_weight(ws, procedure));
        }
    }
}

proof fn lemma_candidates_shape(
    cells: Seq<Seq<MovePlayed>>,
    mover: Player,
    other: Player,
    procedure: Procedure,
    depth: nat,
    n: nat,
)
    ensures
        forall|i: int|
            0 <= i < candidates(cells, mover, other, procedure, depth, n).len() ==> {
                let e = #[trigger] candidates(cells, mover, other, procedure, depth, n)[i];
                e.1 == weight_after_drop(
                    cells_after_drop(cells, mover, e.0 - 1),
                    mover,
                    other,
                    procedure,
                    depth,
                    e.0,
                )
            },
        forall|m: int|
            1 <= m <= n && has_room(#[trigger] cells[m - 1]) ==> exists|i: int|
                0 <= i < candidates(cells, mover, other, procedure, depth, n).len()
                    && #[trigger] candidates(cells, mover, other, procedure, depth, n)[i].0 == m,
    decreases n,
{
    if n > 0 {
        lemma_candidates_shape(cells, mover, other, procedure, depth, (n - 1) as nat);
        let prev = candidates(cells, mover, other, procedure, depth, (n - 1) as nat);
        let cs = candidates(cells, mover, other, procedure, depth, n);
        if has_room(cells[n - 1]) {
            assert forall|i: int| 0 <= i < prev.len() implies cs[i] == prev[i] by {}
            assert(cs[prev.len() as int].0 == n);
            assert forall|m: int| 1 <= m <= n && has_room(#[trigger] cells[m - 1]) implies exists|
                i: int,
            | 0 <= i < cs.len() && #[trigger] cs[i].0 == m by {
                if m < n {
                    let i = choose|i: int| 0 <= i < prev.len() && #[trigger] prev[i].0 == m;
                    assert(cs[i] == prev[i]);
                }
            }
        }
    }
}

proof fn lemma_best_max_ge(ws: Seq<(int, int)>)
    ensures
        forall|i: int| 0 <= i < ws.len() ==> #[trigger] ws[i].1 <= best_weight(
            ws,
            Procedure::Maximising,
        ),
    decreases ws.len(),
{
    if ws.len() > 1 {
        lemma_best_max_ge(ws.drop_last());
        assert forall|i: int| 0 <= i < ws.len() implies #[trigger] ws[i].1 <= best_weight(
            ws,
            Procedure::Maximising,
        ) by {
            if i < ws.len() - 1 {
                assert(ws[i] == ws.drop_last()[i]);
            }
        }
    }
}

proof fn lemma_reply_at_depth_zero(cells: Seq<Seq<MovePlayed>>, mover: Player, other: Player)
    ensures
        node_value(cells, mover, other, Procedure::Minimising, 0) <= 0,
{
    let cs = candidates(cells, mover, other, Procedure::Minimising, 0, 7);
    if cs.len() > 0 {
        lemma_best_attained(cs, Procedure::Minimising);
        lemma_candidates_shape(cells, mover, other, Procedure::Minimising, 0, 7);
        let i = choose|i: int|
            0 <= i < cs.len() && #[trigger] cs[i].1 == best_weight(cs, Procedure::Minimising);
        assert(cs[i].1 <= 0);
    }
}

/// One ply deep, a move that wins at once is taken whenever one exists: if
/// some column with room completes a line for the player to move, every
/// column the search may answer does too.
pub proof fn lemma_immediate_win_chosen(
    cells: Seq<Seq<MovePlayed>>,
    mover: Player,
    other: Player,
    c: int,
    col: int,
)
    requires
        well_formed(cells),
        1 <= c <= 7,
        has_room(cells[c - 1]),
        is_winner(cells_after_drop(cells, mover, c - 1), mover),
        is_best_move(cells, mover, other, Procedure::Maximising, 1, col),
    ensures
        1 <= col <= 7,
        has_room(cells[col - 1]),
        is_winner(cells_after_drop(cells, mover, col - 1), mover),
{
    let cs = candidates(cells, mover, other, Procedure::Maximising, 1, 7);
    lemma_candidates_legal(cells, mover, other, Procedure::Maximising, 1, 7);
    lemma_candidates_shape(cells, mover, other, Procedure::Maximising, 1, 7);
    lemma_best_max_ge(cs);
    let k = choose|k: int| 0 <= k < cs.len() && #[trigger] cs[k].0 == c;
    assert(cs[k].1 == 2);
    let best = best_weight(cs, Procedure::Maximising);
    let j = choose|j: int| 0 <= j < cs.len() && #[trigger] cs[j] == (col, best);
    assert(cs[j].0 == col);
    let after = cells_after_drop(cells, mover, col - 1);
    if !is_winner(after, mover) {
        lemma_reply_at_depth_zero(after, other, mover);
        assert(cs[j].1 <= 0);
    }
}

/// Relies on rand::thread_rng and rand::Rng::gen_range(low, high): a value in
/// `[low, high)`, which panics when `low >= high`.
#[verifier::external_body]
fn random_index(n: usize) -> (r: usize)
    requires
        n > 0,
    ensures
        r < n,
{
    rand::thread_rng().gen_range(0, n)
}

/// Picks the move at position `draw` among equally good moves; column 1 with
/// weight 0 if `draw` is out of range.
pub fn select_move(possible: &Vec<(u8, i8)>, draw: usize) -> (r: (u8, i8))
    ensures
        r == if draw < possible@.len() {
            possible@[draw as int]
        } else {
            (1u8, 0i8)
        },
{
    if draw < possible.len() {
        possible[draw]
    } else {
        (1, 0)
    }
}

fn best_of(ws: &Vec<(u8, i8)>, procedure: Procedure) -> (r: i8)
    requires
        ws@.len() > 0,
    ensures
        r == best_weight(weights_view(ws@), procedure),
{
    let mut best: i8 = ws[0].1;
    let mut i: usize = 1;
    assert(weights_view(ws@).take(1).len() == 1);
    while i < ws.len()
        invariant
            1 <= i <= ws@.len(),
            best == best_weight(weights_view(ws@).take(i as int), procedure),
        decreases ws@.len() - i,
    {
        let w = ws[i].1;
        assert(weights_view(ws@).take(i + 1).drop_last() =~= weights_view(ws@).take(i as int));
        best = match procedure {
            Procedure::Maximising => if best >= w { best } else { w },
            Procedure::Minimising => if best <= w { best } else { w },
        };
        i += 1;
    }
    assert(weights_view(ws@).take(i as int) =~= weights_view(ws@));
    best
}

fn moves_with_weight(ws: &Vec<(u8, i8)>, target: i8) -> (r: Vec<(u8, i8)>)
    ensures
        forall|k: int| 0 <= k < r@.len() ==> ws@.contains(#[trigger] r@[k]) && r@[k].1 == target,
        (exists|j: int| 0 <= j < ws@.len() && #[trigger] ws@[j].1 == target) ==> r@.len() > 0,
{
    let mut r: Vec<(u8, i8)> = Vec::new();
    let mut i: usize = 0;
    while i < ws.len()
        invariant
            i <= ws@.len(),
            forall|k: int| 0 <= k < r@.len() ==> ws@.contains(#[trigger] r@[k]) && r@[k].1 == target,
            (exists|j: int| 0 <= j < i && #[trigger] ws@[j].1 == target) ==> r@.len() > 0,
        decreases ws@.len() - i,
    {
        if ws[i].1 == target {
            assert(ws@.contains(ws@[i as int]));
            r.push(ws[i]);
        }
        i += 1;
    }
    r
}

fn get_current_move_weight(game: &Connect4, procedure: &Procedure, depth: &u8) -> (r: i8)
    requires
        game.wf(),
        *depth < 127,
    ensures
        r == leaf_weight(game.board@, game.current, *procedure, *depth as int),
{
    let win = game.is_current_player_winner();
    if win {
        (*depth as i8 + 1) * match procedure {
            Procedure::Maximising => 1,
            Procedure::Minimising => -1,
        }
    } else {
        0
    }
}

fn on_successful_token_drop(
    game: &mut Connect4,
    procedure: &Procedure,
    depth: &u8,
    col: &u8,
) -> (r: (u8, i8))
    requires
        old(game).wf(),
        1 <= *col <= 7,
        *depth < 127,
    ensures
        r.0 == *col,
        r.1 == weight_after_drop(
            old(game).board@,
            old(game).current,
            old(game).next,
            *procedure,
            *depth as nat,
            *col as int,
        ),
        (!has_room(old(game).board@[*col - 1]) || is_winner(old(game).board@, old(game).current)
            || *depth == 0) ==> *final(game) == *old(game),
        !(!has_room(old(game).board@[*col - 1]) || is_winner(old(game).board@, old(game).current)
            || *depth == 0) ==> *final(game) == old(game).switched(),
    decreases *depth, 0nat,
{
    let is_column_full = game.is_column_full(*col);
    let is_game_finished = game.is_current_player_winner();
    let w = if is_column_full || is_game_finished || *depth == 0 {
        get_current_move_weight(game, procedure, depth)
    } else {
        game.switch_players();
        minimax_run(game, switch_procedure(procedure), *depth - 1).1
    };
    (*col, w)
}

fn minimax_run(game: &Connect4, procedure: Procedure, depth: u8) -> (r: (u8, i8))
    requires
        game.wf(),
        depth < 127,
    ensures
        r.1 == node_value(game.board@, game.current, game.next, procedure, depth as nat),
        is_best_move(game.board@, game.current, game.next, procedure, depth as nat, r.0 as int),
    decreases depth, 1nat,
{
    let ghost cells = game.board@;
    let mut column_weights: Vec<(u8, i8)> = Vec::new();
    let mut col_idx: u8 = 1;
    while col_idx <= 7
        invariant
            game.wf(),
            cells == game.board@,
            depth < 127,
            1 <= col_idx <= 8,
            weights_view(column_weights@) == candidates(
                cells,
                game.current,
                game.next,
                procedure,
                depth as nat,
                (col_idx - 1) as nat,
            ),
        decreases 8 - col_idx,
    {
        let mut game_copy = game.clone();
        let success = game_copy.drop_token_in_col(col_idx);
        let ghost before = column_weights@;
        if is_successful_move(&success) {
            let w = on_successful_token_drop(&mut game_copy, &procedure, &depth, &col_idx);
            column_weights.push(w);
            assert(weights_view(column_weights@) =~= weights_view(before).push(
                (w.0 as int, w.1 as int),
            ));
        }
        col_idx += 1;
    }
    let ghost cs = candidates(cells, game.current, game.next, procedure, depth as nat, 7);
    if column_weights.len() == 0 {
        return (1, 0);
    }
    let weight = best_of(&column_weights, procedure);
    proof {
        lemma_best_attained(cs, procedure);
        let j = choose|j: int| 0 <= j < cs.len() && #[trigger] cs[j].1 == best_weight(cs, procedure);
        assert(column_weights@[j].1 == weight);
    }
    let possible_moves = moves_with_weight(&column_weights, weight);
    let draw: usize = if possible_moves.len() > 1 {
        random_index(possible_moves.len())
    } else {
        0
    };
    let r = select_move(&possible_moves, draw);
    proof {
        assert(column_weights@.contains(r));
        let k = choose|k: int| 0 <= k < column_weights@.len() && column_weights@[k] == r;
        assert(cs[k] == (r.0 as int, best_weight(cs, procedure)));
    }
    r
}

/// The column (1 to 7) the automated player chooses for the player to move,
/// searching as deep as the game's difficulty says.
pub fn play_for_ai(game: &Connect4) -> (r: u8)
    requires
        game.wf(),
    ensures
        is_best_move(
            game.board@,
            game.current,
            game.next,
            Procedure::Maximising,
            depth_of(game.difficulty) as nat,
            r as int,
        ),
        1 <= r <= 7,
        (exists|c: int| 0 <= c < 7 && has_room(#[trigger] game.board@[c])) ==> has_room(
            game.board@[r - 1],
        ),
        (forall|c: int| 0 <= c < 7 ==> !has_room(#[trigger] game.board@[c])) ==> r == 1,
{
    let depth = difficulty_to_depth(game.difficulty);
    let r = minimax_run(game, Procedure::Maximising, depth).0;
    proof {
        lemma_candidates_legal(
            game.board@,
            game.current,
            game.next,
            Procedure::Maximising,
            depth as nat,
            7,
        );
        let cs = candidates(
            game.board@,
            game.current,
            game.next,
            Procedure::Maximising,
            depth as nat,
            7,
        );
        if cs.len() > 0 {
            let i = choose|i: int|
                0 <= i < cs.len() && #[trigger] cs[i] == (r as int, best_weight(cs, Procedure::Maximising));
            assert(cs[i].0 == r);
        } else {
            assert forall|c: int| 0 <= c < 7 implies !has_room(#[trigger] game.board@[c]) by {
                assert(!has_room(game.board@[(c + 1) - 1]));
            }
        }
    }
    r
}

} // verus!
