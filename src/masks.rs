use vstd::prelude::*;

use vstd::arithmetic::power2::pow2;

use crate::board::{COL_NUM, ROW_NUM};

verus! {

/// A cell given as (column, row).
pub type BoardPoint = (i8, i8);

/// Linear indices (`row * 7 + col`) of the cells of one line.
pub type BoardPoints = Vec<i8>;

/// A 42-bit mask with a bit set for each cell of one winning line.
pub type WinMask = u64;

/// The table of winning lines: one mask per four-in-a-row line of the grid.
pub open spec fn cached_masks() -> Seq<u64> {
    seq![
        15u64, 30u64, 60u64, 120u64, 1920u64, 3840u64, 7680u64, 15360u64, 245760u64,
        491520u64, 983040u64, 1966080u64, 2130440u64, 2113665u64, 4227330u64, 4260880u64,
        8454660u64, 8521760u64, 16843009u64, 16909320u64, 17043520u64, 31457280u64,
        33686018u64, 33818640u64, 62914560u64, 67372036u64, 67637280u64, 125829120u64,
        134744072u64, 135274560u64, 251658240u64, 270549120u64, 272696320u64, 541098240u64,
        545392640u64, 1082196480u64, 1090785280u64, 2155905152u64, 2181570560u64,
        2164392960u64, 4026531840u64, 4311810304u64, 4328785920u64, 8053063680u64,
        8623620608u64, 8657571840u64, 16106127360u64, 17247241216u64, 17315143680u64,
        32212254720u64, 34630287360u64, 34905128960u64, 69260574720u64, 69810257920u64,
        138521149440u64, 139620515840u64, 275955859456u64, 277042298880u64, 279241031680u64,
        515396075520u64, 551911718912u64, 554084597760u64, 1030792151040u64, 1103823437824u64,
        1108169195520u64, 2061584302080u64, 2207646875648u64, 2216338391040u64,
        4123168604160u64,
    ]
}

/// The table of winning lines, as a literal.
pub fn get_cached_win_masks() -> (r: Vec<WinMask>)
    ensures
        r@ == cached_masks(),
{
    let r: Vec<u64> = vec![
        15u64, 30u64, 60u64, 120u64, 1920u64, 3840u64, 7680u64, 15360u64, 245760u64,
        491520u64, 983040u64, 1966080u64, 2130440u64, 2113665u64, 4227330u64, 4260880u64,
        8454660u64, 8521760u64, 16843009u64, 16909320u64, 17043520u64, 31457280u64,
        33686018u64, 33818640u64, 62914560u64, 67372036u64, 67637280u64, 125829120u64,
        134744072u64, 135274560u64, 251658240u64, 270549120u64, 272696320u64, 541098240u64,
        545392640u64, 1082196480u64, 1090785280u64, 2155905152u64, 2181570560u64,
        2164392960u64, 4026531840u64, 4311810304u64, 4328785920u64, 8053063680u64,
        8623620608u64, 8657571840u64, 16106127360u64, 17247241216u64, 17315143680u64,
        32212254720u64, 34630287360u64, 34905128960u64, 69260574720u64, 69810257920u64,
        138521149440u64, 139620515840u64, 275955859456u64, 277042298880u64, 279241031680u64,
        515396075520u64, 551911718912u64, 554084597760u64, 1030792151040u64, 1103823437824u64,
        1108169195520u64, 2061584302080u64, 2207646875648u64, 2216338391040u64,
        4123168604160u64,
    ];
    assert(r@ =~= cached_masks());
    r
}


/// Sum of `2^n` over the indices `n` of a line.
pub open spec fn sum_pow2(s: Seq<i8>) -> nat
    decreases s.len(),
{
    if s.len() == 0 {
        0
    } else {
        sum_pow2(s.drop_last()) + pow2(s.last() as nat)
    }
}

proof fn lemma_sum_pow2_prefix(s: Seq<i8>, i: int)
    requires
        0 <= i <= s.len(),
        forall|j: int| 0 <= j < s.len() ==> 0 <= #[trigger] s[j],
    ensures
        sum_pow2(s.take(i)) <= sum_pow2(s),
    decreases s.len(),
{
    if i < s.len() {
        assert(s.drop_last().take(i) =~= s.take(i));
        lemma_sum_pow2_prefix(s.drop_last(), i);
    } else {
        assert(s.take(i) =~= s);
    }
}

/// Turns cell indices into a mask by summing `2^n` over them.
pub fn get_mask(wp: BoardPoints) -> (r: WinMask)
    requires
        forall|j: int| 0 <= j < wp@.len() ==> 0 <= #[trigger] wp@[j] < 64,
        sum_pow2(wp@) <= u64::MAX,
    ensures
        r == sum_pow2(wp@),
{
    let mut acc: u64 = 0;
    let mut i: usize = 0;
    while i < wp.len()
        invariant
            i <= wp@.len(),
            forall|j: int| 0 <= j < wp@.len() ==> 0 <= #[trigger] wp@[j] < 64,
            sum_pow2(wp@) <= u64::MAX,
            acc == sum_pow2(wp@.take(i as int)),
        decreases wp@.len() - i,
    {
        let n = wp[i];
        proof {
            lemma_sum_pow2_prefix(wp@, i + 1);
            assert(wp@.take(i + 1).drop_last() =~= wp@.take(i as int));
            vstd::bits::lemma_u64_pow2_no_overflow(n as nat);
            vstd::bits::lemma_u64_shl_is_mul(1u64, n as u64);
        }
        acc = acc + (1u64 << (n as u64));
        i += 1;
    }
    assert(wp@.take(i as int) =~= wp@);
    acc
}

/// A count of columns, kept apart from other numbers.
pub enum Cols {
    Cols(i8),
}

/// The number held by a column count.
pub fn get_cols_val(cols: &Cols) -> (r: i8)
    ensures
        r == cols->Cols_0,
{
    match cols {
        Cols::Cols(val) => *val,
    }
}

/// The cell (column, row) of linear index `i` in the order that
/// `get_board_points` lists them: column by column, rows upward.
pub open spec fn board_point(i: int) -> BoardPoint {
    ((i / 6) as i8, (i % 6) as i8)
}

/// Every cell of the grid, column by column.
pub fn get_board_points() -> (r: Vec<BoardPoint>)
    ensures
        r@.len() == 42,
        forall|i: int| 0 <= i < 42 ==> #[trigger] r@[i] == board_point(i),
{
    let mut r: Vec<BoardPoint> = Vec::new();
    let mut x: i8 = 0;
    while x < COL_NUM
        invariant
            0 <= x <= 7,
            r@.len() == 6 * x,
            forall|i: int| 0 <= i < 6 * x ==> #[trigger] r@[i] == board_point(i),
        decreases 7 - x,
    {
        let mut y: i8 = 0;
        while y < ROW_NUM
            invariant
                0 <= x < 7,
                0 <= y <= 6,
                r@.len() == 6 * x + y,
                forall|i: int| 0 <= i < 6 * x + y ==> #[trigger] r@[i] == board_point(i),
            decreases 6 - y,
        {
            assert(board_point(6 * x + y) == (x, y));
            r.push((x, y));
            y += 1;
        }
        x += 1;
    }
    r
}

/// The four linear indices of the line that starts at (col, row) and steps by (dc, dr).
pub open spec fn line_points(col: int, row: int, dc: int, dr: int) -> Seq<i8> {
    Seq::new(4, |t: int| ((row + t * dr) * 7 + col + t * dc) as i8)
}

/// The cell (col, row) lies on the grid.
pub open spec fn on_grid(col: int, row: int) -> bool {
    0 <= col < 7 && 0 <= row < 6
}

/// The linear indices of the four cells from (col, row) in steps of (dc, dr).
fn calc_range(cols: Cols, col: i8, row: i8, dc: i8, dr: i8) -> (r: BoardPoints)
    requires
        cols->Cols_0 == 7,
        -1 <= dc <= 1,
        -1 <= dr <= 1,
        on_grid(col as int, row as int),
        on_grid(col + 3 * dc, row + 3 * dr),
    ensures
        r@ == line_points(col as int, row as int, dc as int, dr as int),
{
    let width = get_cols_val(&cols);
    let mut r: Vec<i8> = Vec::new();
    let mut t: i8 = 0;
    while t < 4
        invariant
            width == 7,
            -1 <= dc <= 1,
            -1 <= dr <= 1,
            on_grid(col as int, row as int),
            on_grid(col + 3 * dc, row + 3 * dr),
            0 <= t <= 4,
            r@ == line_points(col as int, row as int, dc as int, dr as int).take(t as int),
        decreases 4 - t,
    {
        assert(0 <= row + t * dr < 6 && 0 <= col + t * dc < 7) by (nonlinear_arith)
            requires
                0 <= t < 4,
                -1 <= dc <= 1,
                -1 <= dr <= 1,
                on_grid(col as int, row as int),
                on_grid(col + 3 * dc, row + 3 * dr),
        ;
        let c = col + t * dc;
        let w = row + t * dr;
        r.push(w * width + c);
        assert(r@ =~= line_points(col as int, row as int, dc as int, dr as int).take(t + 1));
        t += 1;
    }
    assert(r@ =~= line_points(col as int, row as int, dc as int, dr as int));
    r
}

/// The vertical line starting at (col, row), if it fits on the grid.
pub open spec fn up_points(col: int, row: int) -> Seq<i8> {
    if row < 3 {
        line_points(col, row, 0, 1)
    } else {
        Seq::empty()
    }
}

/// The horizontal line starting at (col, row), if it fits on the grid.
pub open spec fn right_points(col: int, row: int) -> Seq<i8> {
    if col < 4 {
        line_points(col, row, 1, 0)
    } else {
        Seq::empty()
    }
}

/// The diagonal starting at (col, row): upward from the lower rows, downward
/// from the upper rows, if there is room to the right.
pub open spec fn diagonal_points(col: int, row: int) -> Seq<i8> {
    if col < 4 {
        if row < 3 {
            line_points(col, row, 1, 1)
        } else {
            line_points(col, row, 1, -1)
        }
    } else {
        Seq::empty()
    }
}

/// The vertical winning line from a cell, or nothing if it runs off the grid.
pub fn get_up_win_points(col: i8, row: i8) -> (r: BoardPoints)
    requires
        on_grid(col as int, row as int),
    ensures
        r@ == up_points(col as int, row as int),
{
    if row < ROW_NUM - 3 {
        calc_range(Cols::Cols(COL_NUM), col, row, 0, 1)
    } else {
        Vec::new()
    }
}

/// The horizontal winning line from a cell, or nothing if it runs off the grid.
pub fn get_right_win_points(col: i8, row: i8) -> (r: BoardPoints)
    requires
        on_grid(col as int, row as int),
    ensures
        r@ == right_points(col as int, row as int),
{
    if col < COL_NUM - 3 {
        calc_range(Cols::Cols(COL_NUM), col, row, 1, 0)
    } else {
        Vec::new()
    }
}

/// The diagonal winning line from a cell, or nothing if it runs off the grid.
pub fn get_diagonal_win_points(col: i8, row: i8) -> (r: BoardPoints)
    requires
        on_grid(col as int, row as int),
    ensures
        r@ == diagonal_points(col as int, row as int),
{
    if col < COL_NUM - 3 {
        if row < ROW_NUM - 3 {
            calc_range(Cols::Cols(COL_NUM), col, row, 1, 1)
        } else {
            calc_range(Cols::Cols(COL_NUM), col, row, 1, -1)
        }
    } else {
        Vec::new()
    }
}

/// The three candidate lines from a cell: up, right, diagonal.
pub fn get_win_points(point: BoardPoint) -> (r: Vec<BoardPoints>)
    requires
        on_grid(point.0 as int, point.1 as int),
    ensures
        r@.len() == 3,
        r@[0]@ == up_points(point.0 as int, point.1 as int),
        r@[1]@ == right_points(point.0 as int, point.1 as int),
        r@[2]@ == diagonal_points(point.0 as int, point.1 as int),
{
    let (col, row) = point;
    let mut r: Vec<BoardPoints> = Vec::new();
    r.push(get_up_win_points(col, row));
    r.push(get_right_win_points(col, row));
    r.push(get_diagonal_win_points(col, row));
    r
}

/// The mask of one line.
pub open spec fn line_mask(s: Seq<i8>) -> u64 {
    sum_pow2(s) as u64
}

/// The mask of a candidate line, or nothing if the line ran off the grid.
pub open spec fn mask_if_line(s: Seq<i8>) -> Seq<u64> {
    if s.len() > 0 {
        seq![line_mask(s)]
    } else {
        Seq::empty()
    }
}

/// The masks of the lines that start at a cell: up, right, diagonal.
pub open spec fn point_masks(p: BoardPoint) -> Seq<u64> {
    let col = p.0 as int;
    let row = p.1 as int;
    mask_if_line(up_points(col, row)) + mask_if_line(right_points(col, row)) + mask_if_line(
        diagonal_points(col, row),
    )
}

/// The masks generated from the first `k` cells of `get_board_points`.
pub open spec fn generated_upto(k: nat) -> Seq<u64>
    decreases k,
{
    if k == 0 {
        Seq::empty()
    } else {
        generated_upto((k - 1) as nat) + point_masks(board_point(k - 1))
    }
}

/// The masks generated from every cell.
pub open spec fn generated_masks() -> Seq<u64> {
    generated_upto(42)
}

proof fn lemma_sum_pow2_bound(s: Seq<i8>)
    requires
        forall|j: int| 0 <= j < s.len() ==> 0 <= #[trigger] s[j] < 42,
    ensures
        sum_pow2(s) <= s.len() * pow2(41),
    decreases s.len(),
{
    if s.len() > 0 {
        lemma_sum_pow2_bound(s.drop_last());
        if s.last() < 41 {
            vstd::arithmetic::power2::lemma_pow2_strictly_increases(s.last() as nat, 41);
        }
        let n = s.len();
        assert(n * pow2(41) == (n - 1) * pow2(41) + pow2(41)) by (nonlinear_arith);
    }
}

proof fn lemma_line_fits(col: int, row: int, dc: int, dr: int)
    requires
        -1 <= dc <= 1,
        -1 <= dr <= 1,
        on_grid(col, row),
        on_grid(col + 3 * dc, row + 3 * dr),
    ensures
        forall|j: int| 0 <= j < 4 ==> 0 <= #[trigger] line_points(col, row, dc, dr)[j] < 42,
        sum_pow2(line_points(col, row, dc, dr)) <= u64::MAX,
{
    assert forall|j: int| 0 <= j < 4 implies 0 <= #[trigger] line_points(col, row, dc, dr)[j]
        < 42 by {
        assert(0 <= row + j * dr < 6 && 0 <= col + j * dc < 7) by (nonlinear_arith)
            requires
                0 <= j < 4,
                -1 <= dc <= 1,
                -1 <= dr <= 1,
                on_grid(col, row),
                on_grid(col + 3 * dc, row + 3 * dr),
        ;
    }
    lemma_sum_pow2_bound(line_points(col, row, dc, dr));
    vstd::arithmetic::power2::lemma2_to64();
    vstd::arithmetic::power2::lemma2_to64_rest();
}

proof fn lemma_candidate_lines_fit(col: int, row: int)
    requires
        on_grid(col, row),
    ensures
        forall|j: int|
            0 <= j < up_points(col, row).len() ==> 0 <= #[trigger] up_points(col, row)[j] < 42,
        forall|j: int|
            0 <= j < right_points(col, row).len() ==> 0 <= #[trigger] right_points(col, row)[j]
                < 42,
        forall|j: int|
            0 <= j < diagonal_points(col, row).len() ==> 0 <= #[trigger] diagonal_points(
                col,
                row,
            )[j] < 42,
        sum_pow2(up_points(col, row)) <= u64::MAX,
        sum_pow2(right_points(col, row)) <= u64::MAX,
        sum_pow2(diagonal_points(col, row)) <= u64::MAX,
{
    if row < 3 {
        lemma_line_fits(col, row, 0, 1);
    }
    if col < 4 {
        lemma_line_fits(col, row, 1, 0);
        if row < 3 {
            lemma_line_fits(col, row, 1, 1);
        } else {
            lemma_line_fits(col, row, 1, -1);
        }
    }
}

/// Generates the table of winning lines from the grid's geometry: for each
/// cell, the lines that start there going up, right and diagonally.
pub fn get_win_masks() -> (r: Vec<WinMask>)
    ensures
        r@ == generated_masks(),
{
    let points = get_board_points();
    let mut r: Vec<u64> = Vec::new();
    let mut i: usize = 0;
    while i < 42
        invariant
            i <= 42,
            points@.len() == 42,
            forall|k: int| 0 <= k < 42 ==> #[trigger] points@[k] == board_point(k),
            r@ == generated_upto(i as nat),
        decreases 42 - i,
    {
        let p = points[i];
        assert(p == board_point(i as int));
        let lines = get_win_points(p);
        proof {
            lemma_candidate_lines_fit(p.0 as int, p.1 as int);
        }
        let ghost before = r@;
        let mut j: usize = 0;
        while j < 3
            invariant
                j <= 3,
                lines@.len() == 3,
                lines@[0]@ == up_points(p.0 as int, p.1 as int),
                lines@[1]@ == right_points(p.0 as int, p.1 as int),
                lines@[2]@ == diagonal_points(p.0 as int, p.1 as int),
                forall|n: int, k: int|
                    0 <= n < 3 && 0 <= k < lines@[n]@.len() ==> 0 <= #[trigger] lines@[n]@[k] < 42,
                forall|n: int| 0 <= n < 3 ==> sum_pow2(#[trigger] lines@[n]@) <= u64::MAX,
                r@ == before + (if j == 0 {
                    Seq::empty()
                } else if j == 1 {
                    mask_if_line(lines@[0]@)
                } else if j == 2 {
                    mask_if_line(lines@[0]@) + mask_if_line(lines@[1]@)
                } else {
                    mask_if_line(lines@[0]@) + mask_if_line(lines@[1]@) + mask_if_line(lines@[2]@)
                }),
            decreases 3 - j,
        {
            if lines[j].len() > 0 {
                let line = lines[j].clone();
                assert(line@ =~= lines@[j as int]@);
                let m = get_mask(line);
                r.push(m);
            }
            assert(r@ =~= before + (if j + 1 == 1 {
                mask_if_line(lines@[0]@)
            } else if j + 1 == 2 {
                mask_if_line(lines@[0]@) + mask_if_line(lines@[1]@)
            } else {
                mask_if_line(lines@[0]@) + mask_if_line(lines@[1]@) + mask_if_line(lines@[2]@)
            }));
            j += 1;
        }
        i += 1;
    }
    r
}

/// `x` with its lowest set bit cleared.
pub open spec fn clear_lowest_bit(x: u64) -> u64 {
    x & ((x - 1) as u64)
}

/// Exactly four bits of `x` are set: clearing the lowest set bit three times
/// leaves something, four times leaves nothing.
pub open spec fn has_four_bits(x: u64) -> bool {
    &&& clear_lowest_bit(clear_lowest_bit(clear_lowest_bit(x))) != 0
    &&& clear_lowest_bit(clear_lowest_bit(clear_lowest_bit(clear_lowest_bit(x)))) == 0
}

proof fn lemma_table_entries_have_four_bits()
    by (bit_vector)
    ensures
        has_four_bits(15u64),
        has_four_bits(30u64),
        has_four_bits(60u64),
        has_four_bits(120u64),
        has_four_bits(1920u64),
        has_four_bits(3840u64),
        has_four_bits(7680u64),
        has_four_bits(15360u64),
        has_four_bits(245760u64),
        has_four_bits(491520u64),
        has_four_bits(983040u64),
        has_four_bits(1966080u64),
        has_four_bits(2130440u64),
        has_four_bits(2113665u64),
        has_four_bits(4227330u64),
        has_four_bits(4260880u64),
        has_four_bits(8454660u64),
        has_four_bits(8521760u64),
        has_four_bits(16843009u64),
        has_four_bits(16909320u64),
        has_four_bits(17043520u64),
        has_four_bits(31457280u64),
        has_four_bits(33686018u64),
        has_four_bits(33818640u64),
        has_four_bits(62914560u64),
        has_four_bits(67372036u64),
        has_four_bits(67637280u64),
        has_four_bits(125829120u64),
        has_four_bits(134744072u64),
        has_four_bits(135274560u64),
        has_four_bits(251658240u64),
        has_four_bits(270549120u64),
        has_four_bits(272696320u64),
        has_four_bits(541098240u64),
        has_four_bits(545392640u64),
        has_four_bits(1082196480u64),
        has_four_bits(1090785280u64),
        has_four_bits(2155905152u64),
        has_four_bits(2181570560u64),
        has_four_bits(2164392960u64),
        has_four_bits(4026531840u64),
        has_four_bits(4311810304u64),
        has_four_bits(4328785920u64),
        has_four_bits(8053063680u64),
        has_four_bits(8623620608u64),
        has_four_bits(8657571840u64),
        has_four_bits(16106127360u64),
        has_four_bits(17247241216u64),
        has_four_bits(17315143680u64),
        has_four_bits(32212254720u64),
        has_four_bits(34630287360u64),
        has_four_bits(34905128960u64),
        has_four_bits(69260574720u64),
        has_four_bits(69810257920u64),
        has_four_bits(138521149440u64),
        has_four_bits(139620515840u64),
        has_four_bits(275955859456u64),
        has_four_bits(277042298880u64),
        has_four_bits(279241031680u64),
        has_four_bits(515396075520u64),
        has_four_bits(551911718912u64),
        has_four_bits(554084597760u64),
        has_four_bits(1030792151040u64),
        has_four_bits(1103823437824u64),
        has_four_bits(1108169195520u64),
        has_four_bits(2061584302080u64),
        has_four_bits(2207646875648u64),
        has_four_bits(2216338391040u64),
        has_four_bits(4123168604160u64),
{
}

/// The table holds 69 lines, each marking exactly four cells; `get_cached_win_masks`
/// returns this same table on every call.
pub proof fn lemma_win_mask_table()
    ensures
        cached_masks().len() == 69,
        forall|i: int| 0 <= i < 69 ==> has_four_bits(#[trigger] cached_masks()[i]),
{
    lemma_table_entries_have_four_bits();
}

proof fn lemma_sum_pow2_of_four(s: Seq<i8>)
    requires
        s.len() == 4,
    ensures
        sum_pow2(s) == pow2(s[0] as nat) + pow2(s[1] as nat) + pow2(s[2] as nat) + pow2(
            s[3] as nat,
        ),
{
    let s3 = s.drop_last();
    let s2 = s3.drop_last();
    let s1 = s2.drop_last();
    let s0 = s1.drop_last();
    assert(s0.len() == 0);
    assert(sum_pow2(s0) == 0);
    assert(s1.last() == s[0] && s2.last() == s[1] && s3.last() == s[2] && s.last() == s[3]);
    assert(sum_pow2(s1) == pow2(s[0] as nat));
    assert(sum_pow2(s2) == sum_pow2(s1) + pow2(s[1] as nat));
    assert(sum_pow2(s3) == sum_pow2(s2) + pow2(s[2] as nat));
}


proof fn lemma_point_masks_of_column_0()
    ensures
        point_masks(board_point(0)) == seq![2113665u64, 15u64, 16843009u64],
        point_masks(board_point(1)) == seq![270549120u64, 1920u64, 2155905152u64],
        point_masks(board_point(2)) == seq![34630287360u64, 245760u64, 275955859456u64],
        point_masks(board_point(3)) == seq![31457280u64, 2130440u64],
        point_masks(board_point(4)) == seq![4026531840u64, 272696320u64],
        point_masks(board_point(5)) == seq![515396075520u64, 34905128960u64],
{
    vstd::arithmetic::power2::lemma2_to64();
    vstd::arithmetic::power2::lemma2_to64_rest();
    lemma_sum_pow2_of_four(line_points(0, 0, 0, 1));
    lemma_sum_pow2_of_four(line_points(0, 0, 1, 0));
    lemma_sum_pow2_of_four(line_points(0, 0, 1, 1));
    assert(point_masks(board_point(0)) =~= seq![2113665u64, 15u64, 16843009u64]);
    lemma_sum_pow2_of_four(line_points(0, 1, 0, 1));
    lemma_sum_pow2_of_four(line_points(0, 1, 1, 0));
    lemma_sum_pow2_of_four(line_points(0, 1, 1, 1));
    assert(point_masks(board_point(1)) =~= seq![270549120u64, 1920u64, 2155905152u64]);
    lemma_sum_pow2_of_four(line_points(0, 2, 0, 1));
    lemma_sum_pow2_of_four(line_points(0, 2, 1, 0));
    lemma_sum_pow2_of_four(line_points(0, 2, 1, 1));
    assert(point_masks(board_point(2)) =~= seq![34630287360u64, 245760u64, 275955859456u64]);
    lemma_sum_pow2_of_four(line_points(0, 3, 1, 0));
    lemma_sum_pow2_of_four(line_points(0, 3, 1, -1));
    assert(point_masks(board_point(3)) =~= seq![31457280u64, 2130440u64]);
    lemma_sum_pow2_of_four(line_points(0, 4, 1, 0));
    lemma_sum_pow2_of_four(line_points(0, 4, 1, -1));
    assert(point_masks(board_point(4)) =~= seq![4026531840u64, 272696320u64]);
    lemma_sum_pow2_of_four(line_points(0, 5, 1, 0));
    lemma_sum_pow2_of_four(line_points(0, 5, 1, -1));
    assert(point_masks(board_point(5)) =~= seq![515396075520u64, 34905128960u64]);
}

proof fn lemma_point_masks_of_column_1()
    ensures
        point_masks(board_point(6)) == seq![4227330u64, 30u64, 33686018u64],
        point_masks(board_point(7)) == seq![541098240u64, 3840u64, 4311810304u64],
        point_masks(board_point(8)) == seq![69260574720u64, 491520u64, 551911718912u64],
        point_masks(board_point(9)) == seq![62914560u64, 4260880u64],
        point_masks(board_point(10)) == seq![8053063680u64, 545392640u64],
        point_masks(board_point(11)) == seq![1030792151040u64, 69810257920u64],
{
    vstd::arithmetic::power2::lemma2_to64();
    vstd::arithmetic::power2::lemma2_to64_rest();
    lemma_sum_pow2_of_four(line_points(1, 0, 0, 1));
    lemma_sum_pow2_of_four(line_points(1, 0, 1, 0));
    lemma_sum_pow2_of_four(line_points(1, 0, 1, 1));
    assert(point_masks(board_point(6)) =~= seq![4227330u64, 30u64, 33686018u64]);
    lemma_sum_pow2_of_four(line_points(1, 1, 0, 1));
    lemma_sum_pow2_of_four(line_points(1, 1, 1, 0));
    lemma_sum_pow2_of_four(line_points(1, 1, 1, 1));
    assert(point_masks(board_point(7)) =~= seq![541098240u64, 3840u64, 4311810304u64]);
    lemma_sum_pow2_of_four(line_points(1, 2, 0, 1));
    lemma_sum_pow2_of_four(line_points(1, 2, 1, 0));
    lemma_sum_pow2_of_four(line_points(1, 2, 1, 1));
    assert(point_masks(board_point(8)) =~= seq![69260574720u64, 491520u64, 551911718912u64]);
    lemma_sum_pow2_of_four(line_points(1, 3, 1, 0));
    lemma_sum_pow2_of_four(line_points(1, 3, 1, -1));
    assert(point_masks(board_point(9)) =~= seq![62914560u64, 4260880u64]);
    lemma_sum_pow2_of_four(line_points(1, 4, 1, 0));
    lemma_sum_pow2_of_four(line_points(1, 4, 1, -1));
    assert(point_masks(board_point(10)) =~= seq![8053063680u64, 545392640u64]);
    lemma_sum_pow2_of_four(line_points(1, 5, 1, 0));
    lemma_sum_pow2_of_four(line_points(1, 5, 1, -1));
    assert(point_masks(board_point(11)) =~= seq![1030792151040u64, 69810257920u64]);
}

proof fn lemma_point_masks_of_column_2()
    ensures
        point_masks(board_point(12)) == seq![8454660u64, 60u64, 67372036u64],
        point_masks(board_point(13)) == seq![1082196480u64, 7680u64, 8623620608u64],
        point_masks(board_point(14)) == seq![138521149440u64, 983040u64, 1103823437824u64],
        point_masks(board_point(15)) == seq![125829120u64, 8521760u64],
        point_masks(board_point(16)) == seq![16106127360u64, 1090785280u64],
        point_masks(board_point(17)) == seq![2061584302080u64, 139620515840u64],
{
    vstd::arithmetic::power2::lemma2_to64();
    vstd::arithmetic::power2::lemma2_to64_rest();
    lemma_sum_pow2_of_four(line_points(2, 0, 0, 1));
    lemma_sum_pow2_of_four(line_points(2, 0, 1, 0));
    lemma_sum_pow2_of_four(line_points(2, 0, 1, 1));
    assert(point_masks(board_point(12)) =~= seq![8454660u64, 60u64, 67372036u64]);
    lemma_sum_pow2_of_four(line_points(2, 1, 0, 1));
    lemma_sum_pow2_of_four(line_points(2, 1, 1, 0));
    lemma_sum_pow2_of_four(line_points(2, 1, 1, 1));
    assert(point_masks(board_point(13)) =~= seq![1082196480u64, 7680u64, 8623620608u64]);
    lemma_sum_pow2_of_four(line_points(2, 2, 0, 1));
    lemma_sum_pow2_of_four(line_points(2, 2, 1, 0));
    lemma_sum_pow2_of_four(line_points(2, 2, 1, 1));
    assert(point_masks(board_point(14)) =~= seq![138521149440u64, 983040u64, 1103823437824u64]);
    lemma_sum_pow2_of_four(line_points(2, 3, 1, 0));
    lemma_sum_pow2_of_four(line_points(2, 3, 1, -1));
    assert(point_masks(board_point(15)) =~= seq![125829120u64, 8521760u64]);
    lemma_sum_pow2_of_four(line_points(2, 4, 1, 0));
    lemma_sum_pow2_of_four(line_points(2, 4, 1, -1));
    assert(point_masks(board_point(16)) =~= seq![16106127360u64, 1090785280u64]);
    lemma_sum_pow2_of_four(line_points(2, 5, 1, 0));
    lemma_sum_pow2_of_four(line_points(2, 5, 1, -1));
    assert(point_masks(board_point(17)) =~= seq![2061584302080u64, 139620515840u64]);
}

proof fn lemma_point_masks_of_column_3()
    ensures
        point_masks(board_point(18)) == seq![16909320u64, 120u64, 134744072u64],
        point_masks(board_point(19)) == seq![2164392960u64, 15360u64, 17247241216u64],
        point_masks(board_point(20)) == seq![277042298880u64, 1966080u64, 2207646875648u64],
        point_masks(board_point(21)) == seq![251658240u64, 17043520u64],
        point_masks(board_point(22)) == seq![32212254720u64, 2181570560u64],
        point_masks(board_point(23)) == seq![4123168604160u64, 279241031680u64],
{
    vstd::arithmetic::power2::lemma2_to64();
    vstd::arithmetic::power2::lemma2_to64_rest();
    lemma_sum_pow2_of_four(line_points(3, 0, 0, 1));
    lemma_sum_pow2_of_four(line_points(3, 0, 1, 0));
    lemma_sum_pow2_of_four(line_points(3, 0, 1, 1));
    assert(point_masks(board_point(18)) =~= seq![16909320u64, 120u64, 134744072u64]);
    lemma_sum_pow2_of_four(line_points(3, 1, 0, 1));
    lemma_sum_pow2_of_four(line_points(3, 1, 1, 0));
    lemma_sum_pow2_of_four(line_points(3, 1, 1, 1));
    assert(point_masks(board_point(19)) =~= seq![2164392960u64, 15360u64, 17247241216u64]);
    lemma_sum_pow2_of_four(line_points(3, 2, 0, 1));
    lemma_sum_pow2_of_four(line_points(3, 2, 1, 0));
    lemma_sum_pow2_of_four(line_points(3, 2, 1, 1));
    assert(point_masks(board_point(20)) =~= seq![277042298880u64, 1966080u64, 2207646875648u64]);
    lemma_sum_pow2_of_four(line_points(3, 3, 1, 0));
    lemma_sum_pow2_of_four(line_points(3, 3, 1, -1));
    assert(point_masks(board_point(21)) =~= seq![251658240u64, 17043520u64]);
    lemma_sum_pow2_of_four(line_points(3, 4, 1, 0));
    lemma_sum_pow2_of_four(line_points(3, 4, 1, -1));
    assert(point_masks(board_point(22)) =~= seq![32212254720u64, 2181570560u64]);
    lemma_sum_pow2_of_four(line_points(3, 5, 1, 0));
    lemma_sum_pow2_of_four(line_points(3, 5, 1, -1));
    assert(point_masks(board_point(23)) =~= seq![4123168604160u64, 279241031680u64]);
}

proof fn lemma_point_masks_of_column_4()
    ensures
        point_masks(board_point(24)) == seq![33818640u64],
        point_masks(board_point(25)) == seq![4328785920u64],
        point_masks(board_point(26)) == seq![554084597760u64],
        point_masks(board_point(27)) == Seq::<u64>::empty(),
        point_masks(board_point(28)) == Seq::<u64>::empty(),
        point_masks(board_point(29)) == Seq::<u64>::empty(),
{
    vstd::arithmetic::power2::lemma2_to64();
    vstd::arithmetic::power2::lemma2_to64_rest();
    lemma_sum_pow2_of_four(line_points(4, 0, 0, 1));
    assert(point_masks(board_point(24)) =~= seq![33818640u64]);
    lemma_sum_pow2_of_four(line_points(4, 1, 0, 1));
    assert(point_masks(board_point(25)) =~= seq![4328785920u64]);
    lemma_sum_pow2_of_four(line_points(4, 2, 0, 1));
    assert(point_masks(board_point(26)) =~= seq![554084597760u64]);
    assert(point_masks(board_point(27)) =~= Seq::<u64>::empty());
    assert(point_masks(board_point(28)) =~= Seq::<u64>::empty());
    assert(point_masks(board_point(29)) =~= Seq::<u64>::empty());
}

proof fn lemma_point_masks_of_column_5()
    ensures
        point_masks(board_point(30)) == seq![67637280u64],
        point_masks(board_point(31)) == seq![8657571840u64],
        point_masks(board_point(32)) == seq![1108169195520u64],
        point_masks(board_point(33)) == Seq::<u64>::empty(),
        point_masks(board_point(34)) == Seq::<u64>::empty(),
        point_masks(board_point(35)) == Seq::<u64>::empty(),
{
    vstd::arithmetic::power2::lemma2_to64();
    vstd::arithmetic::power2::lemma2_to64_rest();
    lemma_sum_pow2_of_four(line_points(5, 0, 0, 1));
    assert(point_masks(board_point(30)) =~= seq![67637280u64]);
    lemma_sum_pow2_of_four(line_points(5, 1, 0, 1));
    assert(point_masks(board_point(31)) =~= seq![8657571840u64]);
    lemma_sum_pow2_of_four(line_points(5, 2, 0, 1));
    assert(point_masks(board_point(32)) =~= seq![1108169195520u64]);
    assert(point_masks(board_point(33)) =~= Seq::<u64>::empty());
    assert(point_masks(board_point(34)) =~= Seq::<u64>::empty());
    assert(point_masks(board_point(35)) =~= Seq::<u64>::empty());
}

proof fn lemma_point_masks_of_column_6()
    ensures
        point_masks(board_point(36)) == seq![135274560u64],
        point_masks(board_point(37)) == seq![17315143680u64],
        point_masks(board_point(38)) == seq![2216338391040u64],
        point_masks(board_point(39)) == Seq::<u64>::empty(),
        point_masks(board_point(40)) == Seq::<u64>::empty(),
        point_masks(board_point(41)) == Seq::<u64>::empty(),
{
    vstd::arithmetic::power2::lemma2_to64();
    vstd::arithmetic::power2::lemma2_to64_rest();
    lemma_sum_pow2_of_four(line_points(6, 0, 0, 1));
    assert(point_masks(board_point(36)) =~= seq![135274560u64]);
    lemma_sum_pow2_of_four(line_points(6, 1, 0, 1));
    assert(point_masks(board_point(37)) =~= seq![17315143680u64]);
    lemma_sum_pow2_of_four(line_points(6, 2, 0, 1));
    assert(point_masks(board_point(38)) =~= seq![2216338391040u64]);
    assert(point_masks(board_point(39)) =~= Seq::<u64>::empty());
    assert(point_masks(board_point(40)) =~= Seq::<u64>::empty());
    assert(point_masks(board_point(41)) =~= Seq::<u64>::empty());
}

/// The generated masks, in the order the generator produces them.
pub open spec fn generated_listing() -> Seq<u64> {
    seq![
        2113665u64, 15u64, 16843009u64, 270549120u64, 1920u64, 2155905152u64, 34630287360u64,
        245760u64, 275955859456u64, 31457280u64, 2130440u64, 4026531840u64, 272696320u64,
        515396075520u64, 34905128960u64, 4227330u64, 30u64, 33686018u64, 541098240u64,
        3840u64, 4311810304u64, 69260574720u64, 491520u64, 551911718912u64, 62914560u64,
        4260880u64, 8053063680u64, 545392640u64, 1030792151040u64, 69810257920u64, 8454660u64,
        60u64, 67372036u64, 1082196480u64, 7680u64, 8623620608u64, 138521149440u64, 983040u64,
        1103823437824u64, 125829120u64, 8521760u64, 16106127360u64, 1090785280u64,
        2061584302080u64, 139620515840u64, 16909320u64, 120u64, 134744072u64, 2164392960u64,
        15360u64, 17247241216u64, 277042298880u64, 1966080u64, 2207646875648u64, 251658240u64,
        17043520u64, 32212254720u64, 2181570560u64, 4123168604160u64, 279241031680u64,
        33818640u64, 4328785920u64, 554084597760u64, 67637280u64, 8657571840u64,
        1108169195520u64, 135274560u64, 17315143680u64, 2216338391040u64,
    ]
}

proof fn lemma_generated_masks_listed()
    ensures
        generated_masks() == generated_listing(),
{
    lemma_point_masks_of_column_0();
    lemma_point_masks_of_column_1();
    lemma_point_masks_of_column_2();
    lemma_point_masks_of_column_3();
    lemma_point_masks_of_column_4();
    lemma_point_masks_of_column_5();
    lemma_point_masks_of_column_6();
    reveal_with_fuel(generated_upto, 43);
    assert(generated_masks() =~= generated_listing());
}

/// The generator and the literal table hold the same lines: every generated
/// mask is in the table and every table entry is generated.
pub proof fn lemma_generated_masks_match_table()
    ensures
        generated_masks().to_set() == cached_masks().to_set(),
{
    lemma_generated_masks_listed();
    let g = generated_listing();
    let c = cached_masks();
    assert forall|k: int| 0 <= k < 69 implies c.contains(#[trigger] g[k]) by {
        if k == 0 {
            assert(c[13] == g[0]);
        } else if k == 1 {
            assert(c[0] == g[1]);
        } else if k == 2 {
            assert(c[18] == g[2]);
        } else if k == 3 {
            assert(c[31] == g[3]);
        } else if k == 4 {
            assert(c[4] == g[4]);
        } else if k == 5 {
            assert(c[37] == g[5]);
        } else if k == 6 {
            assert(c[50] == g[6]);
        } else if k == 7 {
            assert(c[8] == g[7]);
        } else if k == 8 {
            assert(c[56] == g[8]);
        } else if k == 9 {
            assert(c[21] == g[9]);
        } else if k == 10 {
            assert(c[12] == g[10]);
        } else if k == 11 {
            assert(c[40] == g[11]);
        } else if k == 12 {
            assert(c[32] == g[12]);
        } else if k == 13 {
            assert(c[59] == g[13]);
        } else if k == 14 {
            assert(c[51] == g[14]);
        } else if k == 15 {
            assert(c[14] == g[15]);
        } else if k == 16 {
            assert(c[1] == g[16]);
        } else if k == 17 {
            assert(c[22] == g[17]);
        } else if k == 18 {
            assert(c[33] == g[18]);
        } else if k == 19 {
            assert(c[5] == g[19]);
        } else if k == 20 {
            assert(c[41] == g[20]);
        } else if k == 21 {
            assert(c[52] == g[21]);
        } else if k == 22 {
            assert(c[9] == g[22]);
        } else if k == 23 {
            assert(c[60] == g[23]);
        } else if k == 24 {
            assert(c[24] == g[24]);
        } else if k == 25 {
            assert(c[15] == g[25]);
        } else if k == 26 {
            assert(c[43] == g[26]);
        } else if k == 27 {
            assert(c[34] == g[27]);
        } else if k == 28 {
            assert(c[62] == g[28]);
        } else if k == 29 {
            assert(c[53] == g[29]);
        } else if k == 30 {
            assert(c[16] == g[30]);
        } else if k == 31 {
            assert(c[2] == g[31]);
        } else if k == 32 {
            assert(c[25] == g[32]);
        } else if k == 33 {
            assert(c[35] == g[33]);
        } else if k == 34 {
            assert(c[6] == g[34]);
        } else if k == 35 {
            assert(c[44] == g[35]);
        } else if k == 36 {
            assert(c[54] == g[36]);
        } else if k == 37 {
            assert(c[10] == g[37]);
        } else if k == 38 {
            assert(c[63] == g[38]);
        } else if k == 39 {
            assert(c[27] == g[39]);
        } else if k == 40 {
            assert(c[17] == g[40]);
        } else if k == 41 {
            assert(c[46] == g[41]);
        } else if k == 42 {
            assert(c[36] == g[42]);
        } else if k == 43 {
            assert(c[65] == g[43]);
        } else if k == 44 {
            assert(c[55] == g[44]);
        } else if k == 45 {
            assert(c[19] == g[45]);
        } else if k == 46 {
            assert(c[3] == g[46]);
        } else if k == 47 {
            assert(c[28] == g[47]);
        } else if k == 48 {
            assert(c[39] == g[48]);
        } else if k == 49 {
            assert(c[7] == g[49]);
        } else if k == 50 {
            assert(c[47] == g[50]);
        } else if k == 51 {
            assert(c[57] == g[51]);
        } else if k == 52 {
            assert(c[11] == g[52]);
        } else if k == 53 {
            assert(c[66] == g[53]);
        } else if k == 54 {
            assert(c[30] == g[54]);
        } else if k == 55 {
            assert(c[20] == g[55]);
        } else if k == 56 {
            assert(c[49] == g[56]);
        } else if k == 57 {
            assert(c[38] == g[57]);
        } else if k == 58 {
            assert(c[68] == g[58]);
        } else if k == 59 {
            assert(c[58] == g[59]);
        } else if k == 60 {
            assert(c[23] == g[60]);
        } else if k == 61 {
            assert(c[42] == g[61]);
        } else if k == 62 {
            assert(c[61] == g[62]);
        } else if k == 63 {
            assert(c[26] == g[63]);
        } else if k == 64 {
            assert(c[45] == g[64]);
        } else if k == 65 {
            assert(c[64] == g[65]);
        } else if k == 66 {
            assert(c[29] == g[66]);
        } else if k == 67 {
            assert(c[48] == g[67]);
        } else {
            assert(c[67] == g[68]);
        }
    }
    assert forall|k: int| 0 <= k < 69 implies g.contains(#[trigger] c[k]) by {
        if k == 0 {
            assert(g[1] == c[0]);
        } else if k == 1 {
            assert(g[16] == c[1]);
        } else if k == 2 {
            assert(g[31] == c[2]);
        } else if k == 3 {
            assert(g[46] == c[3]);
        } else if k == 4 {
            assert(g[4] == c[4]);
        } else if k == 5 {
            assert(g[19] == c[5]);
        } else if k == 6 {
            assert(g[34] == c[6]);
        } else if k == 7 {
            assert(g[49] == c[7]);
        } else if k == 8 {
            assert(g[7] == c[8]);
        } else if k == 9 {
            assert(g[22] == c[9]);
        } else if k == 10 {
            assert(g[37] == c[10]);
        } else if k == 11 {
            assert(g[52] == c[11]);
        } else if k == 12 {
            assert(g[10] == c[12]);
        } else if k == 13 {
            assert(g[0] == c[13]);
        } else if k == 14 {
            assert(g[15] == c[14]);
        } else if k == 15 {
            assert(g[25] == c[15]);
        } else if k == 16 {
            assert(g[30] == c[16]);
        } else if k == 17 {
            assert(g[40] == c[17]);
        } else if k == 18 {
            assert(g[2] == c[18]);
        } else if k == 19 {
            assert(g[45] == c[19]);
        } else if k == 20 {
            assert(g[55] == c[20]);
        } else if k == 21 {
            assert(g[9] == c[21]);
        } else if k == 22 {
            assert(g[17] == c[22]);
        } else if k == 23 {
            assert(g[60] == c[23]);
        } else if k == 24 {
            assert(g[24] == c[24]);
        } else if k == 25 {
            assert(g[32] == c[25]);
        } else if k == 26 {
            assert(g[63] == c[26]);
        } else if k == 27 {
            assert(g[39] == c[27]);
        } else if k == 28 {
            assert(g[47] == c[28]);
        } else if k == 29 {
            assert(g[66] == c[29]);
        } else if k == 30 {
            assert(g[54] == c[30]);
        } else if k == 31 {
            assert(g[3] == c[31]);
        } else if k == 32 {
            assert(g[12] == c[32]);
        } else if k == 33 {
            assert(g[18] == c[33]);
        } else if k == 34 {
            assert(g[27] == c[34]);
        } else if k == 35 {
            assert(g[33] == c[35]);
        } else if k == 36 {
            assert(g[42] == c[36]);
        } else if k == 37 {
            assert(g[5] == c[37]);
        } else if k == 38 {
            assert(g[57] == c[38]);
        } else if k == 39 {
            assert(g[48] == c[39]);
        } else if k == 40 {
            assert(g[11] == c[40]);
        } else if k == 41 {
            assert(g[20] == c[41]);
        } else if k == 42 {
            assert(g[61] == c[42]);
        } else if k == 43 {
            assert(g[26] == c[43]);
        } else if k == 44 {
            assert(g[35] == c[44]);
        } else if k == 45 {
            assert(g[64] == c[45]);
        } else if k == 46 {
            assert(g[41] == c[46]);
        } else if k == 47 {
            assert(g[50] == c[47]);
        } else if k == 48 {
            assert(g[67] == c[48]);
        } else if k == 49 {
            assert(g[56] == c[49]);
        } else if k == 50 {
            assert(g[6] == c[50]);
        } else if k == 51 {
            assert(g[14] == c[51]);
        } else if k == 52 {
            assert(g[21] == c[52]);
        } else if k == 53 {
            assert(g[29] == c[53]);
        } else if k == 54 {
            assert(g[36] == c[54]);
        } else if k == 55 {
            assert(g[44] == c[55]);
        } else if k == 56 {
            assert(g[8] == c[56]);
        } else if k == 57 {
            assert(g[51] == c[57]);
        } else if k == 58 {
            assert(g[59] == c[58]);
        } else if k == 59 {
            assert(g[13] == c[59]);
        } else if k == 60 {
            assert(g[23] == c[60]);
        } else if k == 61 {
            assert(g[62] == c[61]);
        } else if k == 62 {
            assert(g[28] == c[62]);
        } else if k == 63 {
            assert(g[38] == c[63]);
        } else if k == 64 {
            assert(g[65] == c[64]);
        } else if k == 65 {
            assert(g[43] == c[65]);
        } else if k == 66 {
            assert(g[53] == c[66]);
        } else if k == 67 {
            assert(g[68] == c[67]);
        } else {
            assert(g[58] == c[68]);
        }
    }
    assert(generated_masks().to_set() =~= cached_masks().to_set());
}

} // verus!
