use vstd::prelude::*;

verus! {

/// One of the seven columns a token can be dropped into.
#[derive(Debug, Clone, Copy, PartialEq, Eq, Structural)]
pub enum BoardColumn {
    Col1,
    Col2,
    Col3,
    Col4,
    Col5,
    Col6,
    Col7,
}

/// The 0-based index of a column.
pub open spec fn column_index(c: BoardColumn) -> int {
    match c {
        BoardColumn::Col1 => 0,
        BoardColumn::Col2 => 1,
        BoardColumn::Col3 => 2,
        BoardColumn::Col4 => 3,
        BoardColumn::Col5 => 4,
        BoardColumn::Col6 => 5,
        BoardColumn::Col7 => 6,
    }
}

/// The column with a given 1-based number, if the number is in `1..=7`.
pub open spec fn column_of_number(n: int) -> Option<BoardColumn> {
    if n == 1 {
        Some(BoardColumn::Col1)
    } else if n == 2 {
        Some(BoardColumn::Col2)
    } else if n == 3 {
        Some(BoardColumn::Col3)
    } else if n == 4 {
        Some(BoardColumn::Col4)
    } else if n == 5 {
        Some(BoardColumn::Col5)
    } else if n == 6 {
        Some(BoardColumn::Col6)
    } else if n == 7 {
        Some(BoardColumn::Col7)
    } else {
        None
    }
}

/// Maps a column to its 0-based index.
pub fn move_to_col_num(board_move: BoardColumn) -> (r: usize)
    ensures
        r == column_index(board_move),
        r < 7,
{
    match board_move {
        BoardColumn::Col1 => 0,
        BoardColumn::Col2 => 1,
        BoardColumn::Col3 => 2,
        BoardColumn::Col4 => 3,
        BoardColumn::Col5 => 4,
        BoardColumn::Col6 => 5,
        BoardColumn::Col7 => 6,
    }
}

fn text_is(s: &str, lit: &str) -> (r: bool)
    ensures
        r == (s@ == lit@),
{
    s.to_owned() == lit.to_owned()
}

/// Reads a column from its 1-based number written as text ("1" to "7").
pub fn str_to_col_num(str_num: &str) -> (r: Option<BoardColumn>)
    ensures
        r == (if str_num@ == "1"@ {
            column_of_number(1)
        } else if str_num@ == "2"@ {
            column_of_number(2)
        } else if str_num@ == "3"@ {
            column_of_number(3)
        } else if str_num@ == "4"@ {
            column_of_number(4)
        } else if str_num@ == "5"@ {
            column_of_number(5)
        } else if str_num@ == "6"@ {
            column_of_number(6)
        } else if str_num@ == "7"@ {
            column_of_number(7)
        } else {
            None
        }),
{
    if text_is(str_num, "1") {
        Some(BoardColumn::Col1)
    } else if text_is(str_num, "2") {
        Some(BoardColumn::Col2)
    } else if text_is(str_num, "3") {
        Some(BoardColumn::Col3)
    } else if text_is(str_num, "4") {
        Some(BoardColumn::Col4)
    } else if text_is(str_num, "5") {
        Some(BoardColumn::Col5)
    } else if text_is(str_num, "6") {
        Some(BoardColumn::Col6)
    } else if text_is(str_num, "7") {
        Some(BoardColumn::Col7)
    } else {
        None
    }
}

/// Reads a column from its 1-based number.
pub fn num_to_col_num(num: u8) -> (r: Option<BoardColumn>)
    ensures
        r == column_of_number(num as int),
        r is Some <==> 1 <= num <= 7,
        r is Some ==> column_index(r->0) == num - 1,
{
    match num {
        1 => Some(BoardColumn::Col1),
        2 => Some(BoardColumn::Col2),
        3 => Some(BoardColumn::Col3),
        4 => Some(BoardColumn::Col4),
        5 => Some(BoardColumn::Col5),
        6 => Some(BoardColumn::Col6),
        7 => Some(BoardColumn::Col7),
        _ => None,
    }
}

} // verus!
