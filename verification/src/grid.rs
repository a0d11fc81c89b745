//! Cell matrices as mathematical sequences, and the operations the game
//! performs on them.

use vstd::prelude::*;

verus! {

/// Number of columns of the board.
pub const BOARD_WIDTH: usize = 10;

/// Number of rows of the board.
pub const BOARD_HEIGHT: usize = 20;

/// A matrix of cells, row by row. A cell is empty when it is 0.
pub type Cells = Seq<Seq<u8>>;

/// The cells held by a vector of rows.
pub open spec fn cells_of(rows: &Vec<Vec<u8>>) -> Cells {
    Seq::new(rows@.len(), |r: int| rows@[r]@)
}

/// `g` has exactly `rows` rows, each of `cols` cells.
pub open spec fn is_matrix(g: Cells, rows: int, cols: int) -> bool {
    &&& g.len() == rows
    &&& forall|r: int| 0 <= r < g.len() ==> (#[trigger] g[r]).len() == cols
}

/// `g` is a matrix with at least one row and one column.
pub open spec fn is_shape(g: Cells) -> bool {
    &&& g.len() > 0
    &&& g[0].len() > 0
    &&& is_matrix(g, g.len() as int, g[0].len() as int)
}

/// `shape` turned a quarter clockwise: the cell at row `r`, column `c` goes
/// to row `c`, column `rows - 1 - r`.
pub open spec fn rotated(shape: Cells) -> Cells {
    Seq::new(
        shape[0].len(),
        |j: int| Seq::new(shape.len(), |k: int| shape[shape.len() - 1 - k][j]),
    )
}

/// `shape` is the bounding box of its filled cells: its first and last row
/// and its first and last column each hold a filled cell. The seven
/// canonical shapes are so, and turning keeps a shape so.
pub open spec fn is_tight(shape: Cells) -> bool {
    &&& is_shape(shape)
    &&& row_occupied(shape, 0)
    &&& row_occupied(shape, shape.len() - 1)
    &&& column_occupied(shape, 0)
    &&& column_occupied(shape, shape[0].len() - 1)
}

/// Row `r` of `shape` holds a filled cell.
pub open spec fn row_occupied(shape: Cells, r: int) -> bool {
    exists|c: int| filled(shape, r, c)
}

/// Column `c` of `shape` holds a filled cell.
pub open spec fn column_occupied(shape: Cells, c: int) -> bool {
    exists|r: int| filled(shape, r, c)
}

/// A matrix of `rows` by `cols` empty cells.
pub open spec fn blank(rows: int, cols: int) -> Cells {
    Seq::new(rows as nat, |r: int| Seq::new(cols as nat, |c: int| 0u8))
}

/// Cell (`r`, `c`) exists in `shape` and is filled.
pub open spec fn filled(shape: Cells, r: int, c: int) -> bool {
    0 <= r < shape.len() && 0 <= c < shape[r].len() && shape[r][c] != 0
}

/// Position (`row`, `col`) lies on the board and the cell there is empty.
pub open spec fn free_at(board: Cells, row: int, col: int) -> bool {
    0 <= row < BOARD_HEIGHT && 0 <= col < BOARD_WIDTH && board[row][col] == 0
}

/// Every filled cell of `shape`, anchored at column `x` and row `y`, lands
/// on a free position of `board`.
pub open spec fn fits(board: Cells, shape: Cells, x: int, y: int) -> bool {
    forall|r: int, c: int| #[trigger] filled(shape, r, c) ==> free_at(board, y + r, x + c)
}

/// `board` with every filled cell of `shape`, anchored at column `x` and row
/// `y`, written over it with the cell's own value.
pub open spec fn placed(board: Cells, shape: Cells, x: int, y: int) -> Cells {
    Seq::new(
        board.len(),
        |r: int|
            Seq::new(
                board[r].len(),
                |c: int|
                    if filled(shape, r - y, c - x) {
                        shape[r - y][c - x]
                    } else {
                        board[r][c]
                    },
            ),
    )
}

/// No cell of `row` is empty.
pub open spec fn row_full(row: Seq<u8>) -> bool {
    forall|c: int| 0 <= c < row.len() ==> #[trigger] row[c] != 0
}

/// The rows of `board` that still have an empty cell, in their order.
pub open spec fn surviving(board: Cells) -> Cells {
    board.filter(|row: Seq<u8>| !row_full(row))
}

/// How many rows of `board` are full.
pub open spec fn full_rows(board: Cells) -> nat {
    (board.len() - surviving(board).len()) as nat
}

/// `board` after its full rows are removed and as many empty rows are put
/// on top.
pub open spec fn cleared(board: Cells) -> Cells {
    blank(full_rows(board) as int, BOARD_WIDTH as int) + surviving(board)
}

/// One change to a board: a shape locked in at a position, or a sweep of
/// the full rows.
pub enum Step {
    Place { shape: Cells, x: int, y: int },
    Clear,
}

/// `board` after `steps`, applied first to last.
pub open spec fn after(board: Cells, steps: Seq<Step>) -> Cells
    decreases steps.len(),
{
    if steps.len() == 0 {
        board
    } else {
        let earlier = after(board, steps.drop_last());
        match steps.last() {
            Step::Place { shape, x, y } => placed(earlier, shape, x, y),
            Step::Clear => cleared(earlier),
        }
    }
}

/// Four quarter turns give back the shape they started from, in size and
/// in every cell.
pub proof fn lemma_four_rotations(shape: Cells)
    requires
        is_shape(shape),
    ensures
        rotated(rotated(rotated(rotated(shape)))) == shape,
{
    // Two turns send the cell at (r, c) to (rows - 1 - r, cols - 1 - c).
    let twice = rotated(rotated(shape));
    let rows = shape.len() as int;
    let cols = shape[0].len() as int;
    assert forall|a: int, b: int| 0 <= a < rows && 0 <= b < cols implies twice[a][b] == shape[rows
        - 1 - a][cols - 1 - b] by {}
    assert(rotated(rotated(twice)) =~~= shape);
}

/// Turning a shape gives a shape, with rows and columns exchanged.
pub proof fn lemma_rotated_is_shape(shape: Cells)
    requires
        is_shape(shape),
    ensures
        is_shape(rotated(shape)),
        rotated(shape).len() == shape[0].len(),
        rotated(shape)[0].len() == shape.len(),
        forall|r: int, c: int| #[trigger]
            filled(shape, r, c) ==> filled(rotated(shape), c, shape.len() - 1 - r),
{
}

/// Turning a tight shape gives a tight shape.
pub proof fn lemma_rotated_is_tight(shape: Cells)
    requires
        is_tight(shape),
    ensures
        is_tight(rotated(shape)),
{
    // The first row turns into the last column, the last column into the
    // last row, the last row into the first column, the first column into
    // the first row.
    lemma_rotated_is_shape(shape);
}

/// A shape anchored so that its whole matrix lies on the board fits on an
/// empty board.
pub proof fn lemma_fits_blank(shape: Cells, x: int, y: int)
    requires
        is_shape(shape),
        0 <= x,
        x + shape[0].len() <= BOARD_WIDTH,
        0 <= y,
        y + shape.len() <= BOARD_HEIGHT,
    ensures
        fits(blank(BOARD_HEIGHT as int, BOARD_WIDTH as int), shape, x, y),
{
    assert forall|r: int, c: int| #[trigger] filled(shape, r, c) implies free_at(
        blank(BOARD_HEIGHT as int, BOARD_WIDTH as int),
        y + r,
        x + c,
    ) by {}
}

/// A sequence whose elements all pass a filter is left whole by it.
proof fn lemma_filter_keeps_all<A>(s: Seq<A>, pred: spec_fn(A) -> bool)
    requires
        forall|i: int| 0 <= i < s.len() ==> pred(#[trigger] s[i]),
    ensures
        s.filter(pred) == s,
    decreases s.len(),
{
    reveal(Seq::filter);
    if s.len() > 0 {
        lemma_filter_keeps_all(s.drop_last(), pred);
    }
}

/// No more rows are full than the board has.
pub proof fn lemma_full_rows_bounded(board: Cells)
    ensures
        full_rows(board) <= board.len(),
        full_rows(board) + surviving(board).len() == board.len(),
{
    board.lemma_filter_len(|row: Seq<u8>| !row_full(row));
}

/// After a sweep no full row is left, so a second sweep changes nothing.
pub proof fn lemma_clear_twice(board: Cells)
    ensures
        full_rows(cleared(board)) == 0,
        cleared(cleared(board)) == cleared(board),
{
    let keep = |row: Seq<u8>| !row_full(row);
    let top = blank(full_rows(board) as int, BOARD_WIDTH as int);
    let rest = surviving(board);
    assert forall|i: int| 0 <= i < top.len() implies keep(#[trigger] top[i]) by {
        assert(top[i][0] == 0);
    }
    assert forall|i: int| 0 <= i < rest.len() implies keep(#[trigger] rest[i]) by {
        board.lemma_filter_pred(keep, i);
    }
    lemma_filter_keeps_all(top + rest, keep);
}

/// A sweep gives a board of the height and width it was given.
pub proof fn lemma_cleared_is_matrix(board: Cells)
    requires
        is_matrix(board, BOARD_HEIGHT as int, BOARD_WIDTH as int),
    ensures
        is_matrix(cleared(board), BOARD_HEIGHT as int, BOARD_WIDTH as int),
{
    let keep = |row: Seq<u8>| !row_full(row);
    let rest = surviving(board);
    lemma_full_rows_bounded(board);
    assert forall|r: int| 0 <= r < cleared(board).len() implies (#[trigger] cleared(board)[r]).len()
        == BOARD_WIDTH by {
        if r >= full_rows(board) {
            board.lemma_filter_contains_rev(keep, rest[r - full_rows(board)]);
        }
    }
}

/// Whatever pieces are locked in and however often the rows are swept, the
/// board keeps its height and its width.
pub proof fn lemma_board_size_kept(board: Cells, steps: Seq<Step>)
    requires
        is_matrix(board, BOARD_HEIGHT as int, BOARD_WIDTH as int),
    ensures
        is_matrix(after(board, steps), BOARD_HEIGHT as int, BOARD_WIDTH as int),
        after(board, steps).len() == board.len(),
    decreases steps.len(),
{
    if steps.len() > 0 {
        lemma_board_size_kept(board, steps.drop_last());
        if steps.last() is Clear {
            lemma_cleared_is_matrix(after(board, steps.drop_last()));
        }
    }
}

/// Whether no cell of `row` is empty.
pub fn row_is_full(row: &Vec<u8>) -> (full: bool)
    ensures
        full == row_full(row@),
{
    let mut c: usize = 0;
    while c < row.len()
        invariant
            c <= row.len(),
            forall|j: int| 0 <= j < c ==> #[trigger] row@[j] != 0,
        decreases row.len() - c,
    {
        if row[c] == 0 {
            return false;
        }
        c += 1;
    }
    true
}

/// Whether `rows` holds exactly `height` rows of `width` cells each.
pub fn has_size(rows: &Vec<Vec<u8>>, height: usize, width: usize) -> (ok: bool)
    ensures
        ok == is_matrix(cells_of(rows), height as int, width as int),
{
    if rows.len() != height {
        return false;
    }
    let mut r: usize = 0;
    while r < rows.len()
        invariant
            r <= rows.len(),
            forall|i: int| 0 <= i < r ==> (#[trigger] cells_of(rows)[i]).len() == width,
        decreases rows.len() - r,
    {
        if rows[r].len() != width {
            assert(cells_of(rows)[r as int].len() != width);
            return false;
        }
        r += 1;
    }
    true
}

/// Whether row `r` of `shape` holds a filled cell.
pub fn row_is_occupied(shape: &Vec<Vec<u8>>, r: usize) -> (found: bool)
    requires
        r < shape@.len(),
    ensures
        found == row_occupied(cells_of(shape), r as int),
{
    let row = &shape[r];
    let mut c: usize = 0;
    while c < row.len()
        invariant
            r < shape@.len(),
            row@ == cells_of(shape)[r as int],
            c <= row.len(),
            forall|j: int| j < c ==> !#[trigger] filled(cells_of(shape), r as int, j),
        decreases row.len() - c,
    {
        if row[c] != 0 {
            assert(filled(cells_of(shape), r as int, c as int));
            return true;
        }
        c += 1;
    }
    false
}

/// Whether column `c` of `shape` holds a filled cell.
pub fn column_is_occupied(shape: &Vec<Vec<u8>>, c: usize) -> (found: bool)
    ensures
        found == column_occupied(cells_of(shape), c as int),
{
    let mut r: usize = 0;
    while r < shape.len()
        invariant
            r <= shape@.len(),
            forall|i: int| i < r ==> !#[trigger] filled(cells_of(shape), i, c as int),
        decreases shape.len() - r,
    {
        let row = &shape[r];
        if c < row.len() && row[c] != 0 {
            assert(filled(cells_of(shape), r as int, c as int));
            return true;
        }
        r += 1;
    }
    false
}

/// Whether `shape` is the bounding box of its filled cells.
pub fn is_tight_shape(shape: &Vec<Vec<u8>>) -> (tight: bool)
    ensures
        tight == is_tight(cells_of(shape)),
{
    let rows = shape.len();
    if rows == 0 {
        return false;
    }
    let cols = shape[0].len();
    if cols == 0 || !has_size(shape, rows, cols) {
        return false;
    }
    row_is_occupied(shape, 0) && row_is_occupied(shape, rows - 1) && column_is_occupied(shape, 0)
        && column_is_occupied(shape, cols - 1)
}

/// A row of `width` empty cells.
pub fn blank_row(width: usize) -> (row: Vec<u8>)
    ensures
        row@ == Seq::new(width as nat, |c: int| 0u8),
{
    let mut row: Vec<u8> = Vec::new();
    while row.len() < width
        invariant
            row.len() <= width,
            forall|j: int| 0 <= j < row.len() ==> #[trigger] row@[j] == 0,
        decreases width - row.len(),
    {
        row.push(0);
    }
    row
}

/// A copy of `row`.
pub fn copy_row(row: &Vec<u8>) -> (copy: Vec<u8>)
    ensures
        copy@ == row@,
{
    let mut copy: Vec<u8> = Vec::new();
    let mut c: usize = 0;
    while c < row.len()
        invariant
            c <= row.len(),
            copy@ == row@.take(c as int),
        decreases row.len() - c,
    {
        copy.push(row[c]);
        c += 1;
    }
    copy
}

/// A copy of `rows`.
pub fn copy_cells(rows: &Vec<Vec<u8>>) -> (copy: Vec<Vec<u8>>)
    ensures
        cells_of(&copy) == cells_of(rows),
{
    let mut copy: Vec<Vec<u8>> = Vec::new();
    let mut r: usize = 0;
    while r < rows.len()
        invariant
            r <= rows.len(),
            copy.len() == r,
            forall|i: int| 0 <= i < r ==> (#[trigger] copy@[i])@ == rows@[i]@,
        decreases rows.len() - r,
    {
        copy.push(copy_row(&rows[r]));
        r += 1;
    }
    copy
}

} // verus!
