//! Geometry scans over a 10 x 40 board. Row 0 is the topmost row; cell
//! `(x, y)` is stored at index `x + 10 * y`.

use vstd::prelude::*;

verus! {

/// Number of columns of a board.
pub const COLS: usize = 10;

/// Number of rows of a board.
pub const ROWS: usize = 40;

/// Number of cells of a board.
pub const CELLS: usize = 400;

/// What occupies one cell of the board, or the shape of a piece.
#[derive(Clone, Copy, Debug, PartialEq, Eq, Structural)]
pub enum MinoType {
    Z,
    L,
    O,
    S,
    I,
    J,
    T,
    Garbage,
    Empty,
}

impl MinoType {
    /// Position of the kind in per-shape tables.
    pub open spec fn ordinal_spec(&self) -> usize {
        match self {
            MinoType::Z => 0,
            MinoType::L => 1,
            MinoType::O => 2,
            MinoType::S => 3,
            MinoType::I => 4,
            MinoType::J => 5,
            MinoType::T => 6,
            MinoType::Garbage => 7,
            MinoType::Empty => 8,
        }
    }

    /// Position of the kind in per-shape tables.
    pub fn ordinal(&self) -> (r: usize)
        ensures
            r == self.ordinal_spec(),
            r < 9,
    {
        match self {
            MinoType::Z => 0,
            MinoType::L => 1,
            MinoType::O => 2,
            MinoType::S => 3,
            MinoType::I => 4,
            MinoType::J => 5,
            MinoType::T => 6,
            MinoType::Garbage => 7,
            MinoType::Empty => 8,
        }
    }
}

/// The content of cell `(x, y)`.
pub open spec fn cell(b: Seq<MinoType>, x: int, y: int) -> MinoType {
    b[x + 10 * y]
}

/// Row `y` holds at least one non-empty cell.
pub open spec fn row_occupied(b: Seq<MinoType>, y: int) -> bool {
    exists|x: int| 0 <= x < 10 && cell(b, x, y) != MinoType::Empty
}

/// Row `y` holds at least one garbage cell.
pub open spec fn row_has_garbage(b: Seq<MinoType>, y: int) -> bool {
    exists|x: int| 0 <= x < 10 && cell(b, x, y) == MinoType::Garbage
}

/// Height of the stack as seen from row `y` downwards: `40 - y'` for the
/// first occupied row `y' >= y`, or 0 when there is none.
pub open spec fn height_from(b: Seq<MinoType>, y: int) -> nat
    decreases 40 - y,
{
    if y >= 40 {
        0
    } else if row_occupied(b, y) {
        (40 - y) as nat
    } else {
        height_from(b, y + 1)
    }
}

/// Height of the whole stack.
pub open spec fn stack_height(b: Seq<MinoType>) -> nat {
    height_from(b, 0)
}

/// Counting rows from the bottom, starting at the `k`-th one: the index of
/// the first row without garbage, or 0 when every row holds garbage.
pub open spec fn garbage_height_from(b: Seq<MinoType>, k: int) -> nat
    decreases 40 - k,
{
    if k >= 40 {
        0
    } else if !row_has_garbage(b, 39 - k) {
        if k >= 0 { k as nat } else { 0 }
    } else {
        garbage_height_from(b, k + 1)
    }
}

/// Number of garbage rows at the bottom of the board.
pub open spec fn garbage_height(b: Seq<MinoType>) -> nat {
    garbage_height_from(b, 0)
}

/// Height of column `x` as seen from row `y` downwards.
pub open spec fn column_height_from(b: Seq<MinoType>, x: int, y: int) -> nat
    decreases 40 - y,
{
    if y >= 40 {
        0
    } else if cell(b, x, y) != MinoType::Empty {
        (40 - y) as nat
    } else {
        column_height_from(b, x, y + 1)
    }
}

/// Height of column `x`.
pub open spec fn column_height(b: Seq<MinoType>, x: int) -> nat {
    column_height_from(b, x, 0)
}

/// Lowest height among columns `0 .. n` (column 0 alone when `n <= 1`).
pub open spec fn min_column_height(b: Seq<MinoType>, n: int) -> nat
    decreases n,
{
    if n <= 1 {
        column_height(b, 0)
    } else {
        let m = min_column_height(b, n - 1);
        let h = column_height(b, n - 1);
        if h < m { h } else { m }
    }
}

/// The well: the lowest column height of the board.
pub open spec fn well_height(b: Seq<MinoType>) -> nat {
    min_column_height(b, 10)
}

/// The last empty column among `0 .. n` of row `y`, or 10 when there is none.
pub open spec fn last_empty_col(b: Seq<MinoType>, y: int, n: int) -> int
    decreases n,
{
    if n <= 0 {
        10
    } else if cell(b, n - 1, y) == MinoType::Empty {
        n - 1
    } else {
        last_empty_col(b, y, n - 1)
    }
}

/// Walks up the garbage rows from the `k`-th row counted from the bottom.
/// `last` is the hole column of the row below and `count` the length of the
/// run of rows sharing it. The result is the length of the topmost run.
pub open spec fn cheese_run_from(b: Seq<MinoType>, k: int, last: int, count: nat) -> nat
    decreases 40 - k,
{
    if k >= 40 {
        count
    } else if !row_has_garbage(b, 39 - k) {
        count
    } else {
        let c = last_empty_col(b, 39 - k, 10);
        cheese_run_from(b, k + 1, c, if c == last { count + 1 } else { 1 })
    }
}

/// Length of the run of topmost garbage rows whose hole sits in one column.
pub open spec fn cheese_run(b: Seq<MinoType>) -> nat {
    cheese_run_from(b, 0, 10, 0)
}

/// A shallow overhang at the top of the garbage: a run of one to three rows.
pub open spec fn is_cheese(b: Seq<MinoType>) -> bool {
    1 <= cheese_run(b) <= 3
}

/// An all-empty board has height 0.
pub proof fn lemma_empty_board_height(b: Seq<MinoType>)
    requires
        b.len() == CELLS,
        forall|i: int| 0 <= i < CELLS ==> b[i] == MinoType::Empty,
    ensures
        stack_height(b) == 0,
{
    lemma_empty_rows_height(b, 0);
}

proof fn lemma_empty_rows_height(b: Seq<MinoType>, y: int)
    requires
        0 <= y <= 40,
        b.len() == CELLS,
        forall|i: int| 0 <= i < CELLS ==> b[i] == MinoType::Empty,
    ensures
        height_from(b, y) == 0,
    decreases 40 - y,
{
    if y < 40 {
        assert(!row_occupied(b, y)) by {
            assert forall|x: int| 0 <= x < 10 implies cell(b, x, y) == MinoType::Empty by {
                assert(0 <= x + 10 * y < 400);
            }
        }
        lemma_empty_rows_height(b, y + 1);
    }
}

/// A board whose topmost row is occupied has height 40.
pub proof fn lemma_full_top_row_height(b: Seq<MinoType>)
    requires
        b.len() == CELLS,
        row_occupied(b, 0),
    ensures
        stack_height(b) == 40,
{
}

proof fn lemma_height_at_least(b: Seq<MinoType>, y: int, y2: int)
    requires
        0 <= y <= y2 < 40,
        row_occupied(b, y2),
    ensures
        height_from(b, y) >= 40 - y2,
    decreases y2 - y,
{
    if y < y2 && !row_occupied(b, y) {
        lemma_height_at_least(b, y + 1, y2);
    }
}

proof fn lemma_garbage_from_within_stack(b: Seq<MinoType>, k: int)
    requires
        0 <= k <= 40,
        forall|y: int| 39 - k < y <= 39 ==> row_has_garbage(b, y),
    ensures
        garbage_height_from(b, k) <= stack_height(b),
    decreases 40 - k,
{
    if k < 40 {
        if !row_has_garbage(b, 39 - k) {
            if k > 0 {
                let y = 40 - k;
                assert(row_has_garbage(b, y));
                let x = choose|x: int| 0 <= x < 10 && #[trigger] cell(b, x, y) == MinoType::Garbage;
                assert(cell(b, x, y) != MinoType::Empty);
                lemma_height_at_least(b, 0, 40 - k);
            }
        } else {
            lemma_garbage_from_within_stack(b, k + 1);
        }
    }
}

/// The garbage at the bottom never rises above the stack.
pub proof fn lemma_garbage_within_stack(b: Seq<MinoType>)
    ensures
        garbage_height(b) <= stack_height(b),
{
    lemma_garbage_from_within_stack(b, 0);
}

/// Counting rows from the bottom, starting at the `k`-th one: the number of
/// consecutive rows holding garbage (40 when every row does).
pub open spec fn garbage_rows_from(b: Seq<MinoType>, k: int) -> int
    decreases 40 - k,
{
    if k >= 40 {
        40
    } else if !row_has_garbage(b, 39 - k) {
        k
    } else {
        garbage_rows_from(b, k + 1)
    }
}

/// The hole of row `y`: its last empty column, or 10 when there is none.
pub open spec fn hole(b: Seq<MinoType>, y: int) -> int {
    last_empty_col(b, y, 10)
}

/// Rows from `y` downwards whose hole is `h`, up to the first that differs.
pub open spec fn same_hole_down(b: Seq<MinoType>, y: int, h: int) -> nat
    decreases 40 - y,
{
    if y >= 40 || hole(b, y) != h {
        0
    } else {
        1 + same_hole_down(b, y + 1, h)
    }
}

/// The run at the top of the garbage: with `g` garbage rows at the bottom,
/// 0 when `g` is 0, else the rows from the topmost garbage row downwards
/// that share its hole.
pub open spec fn top_garbage_run(b: Seq<MinoType>) -> nat {
    let g = garbage_rows_from(b, 0);
    if g == 0 {
        0
    } else {
        same_hole_down(b, 40 - g, hole(b, 40 - g))
    }
}

proof fn lemma_garbage_rows_at_least(b: Seq<MinoType>, k: int)
    requires
        0 <= k <= 40,
    ensures
        k <= garbage_rows_from(b, k) <= 40,
    decreases 40 - k,
{
    if k < 40 && row_has_garbage(b, 39 - k) {
        lemma_garbage_rows_at_least(b, k + 1);
    }
}

proof fn lemma_garbage_rows_shape(b: Seq<MinoType>, k: int)
    requires
        0 <= k <= 40,
    ensures
        forall|y: int| 39 - garbage_rows_from(b, k) < y <= 39 - k ==> row_has_garbage(b, y),
        garbage_rows_from(b, k) < 40 ==> !row_has_garbage(b, 39 - garbage_rows_from(b, k)),
    decreases 40 - k,
{
    if k < 40 && row_has_garbage(b, 39 - k) {
        lemma_garbage_rows_shape(b, k + 1);
        lemma_garbage_rows_at_least(b, k + 1);
    }
}

proof fn lemma_cheese_scan(b: Seq<MinoType>, k: int, last: int, count: nat)
    requires
        1 <= k <= garbage_rows_from(b, 0),
        last == hole(b, 40 - k),
        count == same_hole_down(b, 40 - k, last),
    ensures
        cheese_run_from(b, k, last, count) == top_garbage_run(b),
    decreases 40 - k,
{
    lemma_garbage_rows_at_least(b, 0);
    lemma_garbage_rows_shape(b, 0);
    let g = garbage_rows_from(b, 0);
    if k < g {
        assert(row_has_garbage(b, 39 - k));
        let c = hole(b, 39 - k);
        let next = if c == last { count + 1 } else { 1 };
        assert(same_hole_down(b, 39 - k, c) == 1 + same_hole_down(b, 40 - k, c));
        if c != last {
            assert(same_hole_down(b, 40 - k, c) == 0);
        }
        assert(same_hole_down(b, 39 - k, c) == next);
        lemma_cheese_scan(b, k + 1, c, next);
    }
}

/// The cheese run is the run at the top of the garbage.
pub proof fn lemma_cheese_run_is_top_run(b: Seq<MinoType>)
    ensures
        cheese_run(b) == top_garbage_run(b),
{
    lemma_garbage_rows_at_least(b, 0);
    lemma_garbage_rows_shape(b, 0);
    let g = garbage_rows_from(b, 0);
    if g > 0 {
        assert(row_has_garbage(b, 39));
        let c = hole(b, 39);
        assert(same_hole_down(b, 40, c) == 0);
        assert(same_hole_down(b, 39, c) == 1);
        lemma_cheese_scan(b, 1, c, 1);
    }
}

/// Height of the stack: 40 minus the first occupied row, 0 on an empty board.
pub fn get_height(board: &Vec<MinoType>) -> (r: usize)
    requires
        board@.len() == CELLS,
    ensures
        r == stack_height(board@),
{
    let mut y: usize = 0;
    while y < ROWS
        invariant
            y <= ROWS,
            board@.len() == CELLS,
            stack_height(board@) == height_from(board@, y as int),
        decreases ROWS - y,
    {
        let mut x: usize = 0;
        while x < COLS
            invariant
                x <= COLS,
                y < ROWS,
                board@.len() == CELLS,
                stack_height(board@) == height_from(board@, y as int),
                forall|i: int| 0 <= i < x ==> cell(board@, i, y as int) == MinoType::Empty,
            decreases COLS - x,
        {
            if board[x + y * 10] != MinoType::Empty {
                assert(cell(board@, x as int, y as int) != MinoType::Empty);
                return ROWS - y;
            }
            x += 1;
        }
        y += 1;
    }
    0
}

/// Number of garbage rows at the bottom of the board: `39 - y` for the
/// lowest row `y` without garbage, 0 when every row holds garbage.
pub fn get_garbage_height(board: &Vec<MinoType>) -> (r: usize)
    requires
        board@.len() == CELLS,
    ensures
        r == garbage_height(board@),
{
    let mut k: usize = 0;
    while k < ROWS
        invariant
            k <= ROWS,
            board@.len() == CELLS,
            garbage_height(board@) == garbage_height_from(board@, k as int),
        decreases ROWS - k,
    {
        let y: usize = 39 - k;
        let mut garbage_found = false;
        let mut x: usize = 0;
        while x < COLS
            invariant
                x <= COLS,
                k < ROWS,
                y == 39 - k,
                board@.len() == CELLS,
                garbage_found == exists|i: int| 0 <= i < x && cell(board@, i, y as int) == MinoType::Garbage,
            decreases COLS - x,
        {
            if board[x + y * 10] == MinoType::Garbage {
                assert(cell(board@, x as int, y as int) == MinoType::Garbage);
                garbage_found = true;
            }
            x += 1;
        }
        if !garbage_found {
            return k;
        }
        k += 1;
    }
    0
}

/// The well: the lowest height among the ten columns.
pub fn get_well(board: &Vec<MinoType>) -> (r: usize)
    requires
        board@.len() == CELLS,
    ensures
        r == well_height(board@),
{
    let mut lowest: usize = column_height_of(board, 0);
    let mut x: usize = 1;
    while x < COLS
        invariant
            1 <= x <= COLS,
            board@.len() == CELLS,
            lowest == min_column_height(board@, x as int),
        decreases COLS - x,
    {
        let h = column_height_of(board, x);
        if h < lowest {
            lowest = h;
        }
        x += 1;
    }
    lowest
}

fn column_height_of(board: &Vec<MinoType>, x: usize) -> (r: usize)
    requires
        board@.len() == CELLS,
        x < COLS,
    ensures
        r == column_height(board@, x as int),
{
    let mut y: usize = 0;
    while y < ROWS
        invariant
            y <= ROWS,
            x < COLS,
            board@.len() == CELLS,
            column_height(board@, x as int) == column_height_from(board@, x as int, y as int),
        decreases ROWS - y,
    {
        if board[x + y * 10] != MinoType::Empty {
            return ROWS - y;
        }
        y += 1;
    }
    0
}

/// Whether the top of the garbage forms a cheese pattern: the topmost run of
/// garbage rows whose hole sits in one column is one to three rows long.
pub fn has_cheese(board: &Vec<MinoType>) -> (r: bool)
    requires
        board@.len() == CELLS,
    ensures
        r == is_cheese(board@),
        r == (1 <= top_garbage_run(board@) <= 3),
{
    proof {
        lemma_cheese_run_is_top_run(board@);
    }
    let mut last_garbage_col: usize = 10;
    let mut count: usize = 0;
    let mut k: usize = 0;
    let mut scanning = true;
    while scanning && k < ROWS
        invariant
            k <= ROWS,
            count <= k,
            last_garbage_col <= 10,
            board@.len() == CELLS,
            scanning ==> cheese_run(board@) == cheese_run_from(
                board@,
                k as int,
                last_garbage_col as int,
                count as nat,
            ),
            !scanning ==> cheese_run(board@) == count,
        decreases 2 * (ROWS - k) + if scanning { 1int } else { 0int },
    {
        let y: usize = 39 - k;
        let mut garbage_found = false;
        let mut new_col: usize = 10;
        let mut x: usize = 0;
        while x < COLS
            invariant
                x <= COLS,
                k < ROWS,
                y == 39 - k,
                board@.len() == CELLS,
                garbage_found == exists|i: int| 0 <= i < x && cell(board@, i, y as int) == MinoType::Garbage,
                new_col as int == last_empty_col(board@, y as int, x as int),
                new_col <= 10,
            decreases COLS - x,
        {
            let c = board[x + y * 10];
            if c == MinoType::Garbage {
                assert(cell(board@, x as int, y as int) == MinoType::Garbage);
                garbage_found = true;
            } else if c == MinoType::Empty {
                new_col = x;
            }
            x += 1;
        }
        if !garbage_found {
            scanning = false;
        } else {
            if last_garbage_col == new_col {
                count += 1;
            } else {
                count = 1;
            }
            last_garbage_col = new_col;
            k += 1;
        }
    }
    count > 0 && count < 4
}

} // verus!
