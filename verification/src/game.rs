//! The game state and its rules: collision, lock-in, line clearing.

use vstd::prelude::*;
use crate::grid::{
    blank, blank_row, cells_of, cleared, copy_cells, copy_row, filled, fits, free_at, full_rows,
    is_matrix, is_tight, lemma_fits_blank, placed, row_full, row_is_full, surviving, Cells,
    BOARD_HEIGHT, BOARD_WIDTH,
};
use crate::piece::{
    canonical_shape, canonical_shapes, lemma_canonical_is_tight, spawned, Piece, Tetromino,
};
use crate::random::pick_one;

verus! {

/// One game: the board, the falling piece and the number of cleared lines.
#[derive(Debug, PartialEq, Eq)]
pub struct Tetris {
    pub board: Vec<Vec<u8>>,
    pub tetromino: Tetromino,
    pub score: usize,
}

/// The mathematical value of a game.
pub struct Game {
    pub board: Cells,
    pub piece: Piece,
    pub score: nat,
}

impl Game {
    /// A new game with a piece of the given shape: an empty board, the
    /// piece at the spawn position, no line cleared yet.
    pub open spec fn fresh(shape: Cells) -> Game {
        Game {
            board: blank(BOARD_HEIGHT as int, BOARD_WIDTH as int),
            piece: spawned(shape),
            score: 0,
        }
    }

    /// The falling piece, shifted by `dx` columns and `dy` rows, lies on the
    /// board over empty cells only.
    pub open spec fn fits(self, dx: int, dy: int) -> bool {
        fits(self.board, self.piece.shape, self.piece.x + dx, self.piece.y + dy)
    }

    /// The board has its size, the piece's shape is the bounding box of its
    /// filled cells, and the piece lies on the board over empty cells.
    pub open spec fn in_play(self) -> bool {
        &&& is_matrix(self.board, BOARD_HEIGHT as int, BOARD_WIDTH as int)
        &&& is_tight(self.piece.shape)
        &&& self.fits(0, 0)
    }

    /// The board with the falling piece written into it.
    pub open spec fn stamped(self) -> Cells {
        placed(self.board, self.piece.shape, self.piece.x, self.piece.y)
    }

    /// The game after the falling piece is locked in: its cells are written
    /// into the board, the full rows are cleared and counted, and a piece of
    /// shape `next` is spawned.
    pub open spec fn locked(self, next: Cells) -> Game {
        Game {
            board: cleared(self.stamped()),
            piece: spawned(next),
            score: self.score + full_rows(self.stamped()),
        }
    }
}

impl View for Tetris {
    type V = Game;

    open spec fn view(&self) -> Game {
        Game { board: cells_of(&self.board), piece: self.tetromino@, score: self.score as nat }
    }
}

impl Tetris {
    /// The board has its fixed height and width.
    pub open spec fn well_formed(&self) -> bool {
        is_matrix(self@.board, BOARD_HEIGHT as int, BOARD_WIDTH as int)
    }

    /// A new game whose first piece has the given shape.
    pub fn with_shape(shape: Vec<Vec<u8>>) -> (game: Tetris)
        ensures
            game@ == Game::fresh(cells_of(&shape)),
            game.tetromino.shape == shape,
            game.well_formed(),
    {
        let mut board: Vec<Vec<u8>> = Vec::new();
        while board.len() < BOARD_HEIGHT
            invariant
                board.len() <= BOARD_HEIGHT,
                forall|i: int| 0 <= i < board.len() ==> (#[trigger] board@[i])@ == Seq::new(
                    BOARD_WIDTH as nat,
                    |c: int| 0u8,
                ),
            decreases BOARD_HEIGHT - board.len(),
        {
            board.push(blank_row(BOARD_WIDTH));
        }
        assert(cells_of(&board) =~= blank(BOARD_HEIGHT as int, BOARD_WIDTH as int));
        Tetris { board, tetromino: Tetromino::new(shape), score: 0 }
    }

    /// A new game: an empty board, no line cleared, and a first piece whose
    /// shape is drawn at random from the seven canonical ones.
    pub fn new() -> (game: Tetris)
        ensures
            exists|kind: int|
                0 <= kind < 7 && game@ == Game::fresh(#[trigger] canonical_shape(kind)),
            game.well_formed(),
            game@.in_play(),
    {
        let mut rng = rand::thread_rng();
        let shapes = canonical_shapes();
        let picked = pick_one(&shapes, &mut rng);
        let ghost kind = choose|kind: int| 0 <= kind < 7 && picked == Some(&shapes@[kind]);
        let shape = copy_cells(picked.unwrap());
        proof {
            lemma_canonical_is_tight(kind);
            lemma_fits_blank(canonical_shape(kind), BOARD_WIDTH / 2 - 1, 0);
        }
        Tetris::with_shape(shape)
    }

    /// Whether `tetromino`, shifted by `dx` columns and `dy` rows, lies on
    /// the board over empty cells only.
    pub fn can_move(&self, dx: isize, dy: isize, tetromino: &Tetromino) -> (legal: bool)
        requires
            self.well_formed(),
        ensures
            legal == fits(self@.board, tetromino@.shape, tetromino@.x + dx, tetromino@.y + dy),
    {
        let ghost board = self@.board;
        let ghost shape = tetromino@.shape;
        let ghost x = tetromino@.x + dx;
        let ghost y = tetromino@.y + dy;
        let mut r: usize = 0;
        while r < tetromino.shape.len()
            invariant
                self.well_formed(),
                board == self@.board,
                shape == tetromino@.shape,
                x == tetromino@.x + dx,
                y == tetromino@.y + dy,
                r <= tetromino.shape.len(),
                forall|i: int, j: int|
                    i < r && #[trigger] filled(shape, i, j) ==> free_at(board, y + i, x + j),
            decreases tetromino.shape.len() - r,
        {
            let row = &tetromino.shape[r];
            let mut c: usize = 0;
            while c < row.len()
                invariant
                    self.well_formed(),
                    board == self@.board,
                    shape == tetromino@.shape,
                    x == tetromino@.x + dx,
                    y == tetromino@.y + dy,
                    r < tetromino.shape.len(),
                    row@ == shape[r as int],
                    c <= row.len(),
                    forall|i: int, j: int|
                        i < r && #[trigger] filled(shape, i, j) ==> free_at(board, y + i, x + j),
                    forall|j: int|
                        j < c && #[trigger] filled(shape, r as int, j) ==> free_at(
                            board,
                            y + r,
                            x + j,
                        ),
                decreases row.len() - c,
            {
                if row[c] != 0 {
                    let new_x: i128 = tetromino.x as i128 + c as i128 + dx as i128;
                    let new_y: i128 = tetromino.y as i128 + r as i128 + dy as i128;
                    if new_x < 0 || new_x >= BOARD_WIDTH as i128 || new_y < 0
                        || new_y >= BOARD_HEIGHT as i128 {
                        assert(filled(shape, r as int, c as int));
                        return false;
                    }
                    assert(board[new_y as int] == self.board@[new_y as int]@);
                    let occupant = self.board[new_y as usize][new_x as usize];
                    if occupant != 0 {
                        assert(filled(shape, r as int, c as int));
                        return false;
                    }
                }
                c += 1;
            }
            r += 1;
        }
        true
    }

    /// Writes every filled cell of the falling piece into the board, at the
    /// piece's position and with the cell's own value.
    pub fn place(&mut self)
        requires
            old(self).well_formed(),
            old(self)@.fits(0, 0),
        ensures
            final(self).well_formed(),
            final(self)@.board == old(self)@.stamped(),
            final(self)@.board.len() == old(self)@.board.len(),
            final(self).score == old(self).score,
            final(self).tetromino == old(self).tetromino,
    {
        let ghost before = self@.board;
        let ghost shape = self@.piece.shape;
        let ghost x = self@.piece.x;
        let ghost y = self@.piece.y;
        let mut r: usize = 0;
        while r < self.tetromino.shape.len()
            invariant
                self.well_formed(),
                is_matrix(before, BOARD_HEIGHT as int, BOARD_WIDTH as int),
                self.tetromino == old(self).tetromino,
                self.score == old(self).score,
                shape == self@.piece.shape,
                x == self@.piece.x,
                y == self@.piece.y,
                fits(before, shape, x, y),
                r <= self.tetromino.shape.len(),
                forall|i: int, j: int|
                    0 <= i < BOARD_HEIGHT && 0 <= j < BOARD_WIDTH ==> #[trigger] self@.board[i][j]
                        == if filled(shape, i - y, j - x) && i - y < r {
                        shape[i - y][j - x]
                    } else {
                        before[i][j]
                    },
            decreases self.tetromino.shape.len() - r,
        {
            let mut c: usize = 0;
            while c < self.tetromino.shape[r].len()
                invariant
                    self.well_formed(),
                    is_matrix(before, BOARD_HEIGHT as int, BOARD_WIDTH as int),
                    self.tetromino == old(self).tetromino,
                    self.score == old(self).score,
                    shape == self@.piece.shape,
                    x == self@.piece.x,
                    y == self@.piece.y,
                    fits(before, shape, x, y),
                    r < self.tetromino.shape.len(),
                    c <= self.tetromino.shape[r as int].len(),
                    forall|i: int, j: int|
                        0 <= i < BOARD_HEIGHT && 0 <= j < BOARD_WIDTH
                            ==> #[trigger] self@.board[i][j] == if filled(shape, i - y, j - x) && (i
                            - y < r || (i - y == r && j - x < c)) {
                            shape[i - y][j - x]
                        } else {
                            before[i][j]
                        },
                decreases self.tetromino.shape[r as int].len() - c,
            {
                let cell = self.tetromino.shape[r][c];
                if cell != 0 {
                    assert(filled(shape, r as int, c as int));
                    let row = self.tetromino.y + r;
                    let col = self.tetromino.x + c;
                    let ghost current = self@.board;
                    assert(current[row as int] == self.board@[row as int]@);
                    self.board[row][col] = cell;
                    let ghost written = self@.board;
                    assert forall|i: int, j: int|
                        0 <= i < BOARD_HEIGHT && 0 <= j < BOARD_WIDTH implies
                        #[trigger] written[i][j] == if i == row && j == col {
                        cell
                    } else {
                        current[i][j]
                    } by {}
                    assert forall|i: int| 0 <= i < BOARD_HEIGHT implies
                        (#[trigger] written[i]).len() == BOARD_WIDTH by {
                        assert(current[i].len() == BOARD_WIDTH);
                    }
                }
                c += 1;
            }
            r += 1;
        }
        assert(self@.board =~~= placed(before, shape, x, y));
    }

    /// Removes every full row, adds their number to the score and puts as
    /// many empty rows on top; the surviving rows keep their order.
    pub fn clear_lines(&mut self)
        requires
            old(self).well_formed(),
            old(self).score + full_rows(old(self)@.board) <= usize::MAX,
        ensures
            final(self).well_formed(),
            final(self)@.board == cleared(old(self)@.board),
            final(self)@.board.len() == old(self)@.board.len(),
            final(self)@.score == old(self)@.score + full_rows(old(self)@.board),
            final(self).score >= old(self).score,
            final(self).tetromino == old(self).tetromino,
    {
        let ghost before = self@.board;
        let ghost keep = |row: Seq<u8>| !row_full(row);
        let mut kept: Vec<Vec<u8>> = Vec::new();
        let mut r: usize = 0;
        while r < self.board.len()
            invariant
                r <= self.board.len(),
                before == self@.board,
                keep == |row: Seq<u8>| !row_full(row),
                is_matrix(before, BOARD_HEIGHT as int, BOARD_WIDTH as int),
                cells_of(&kept) == before.take(r as int).filter(keep),
                is_matrix(cells_of(&kept), kept.len() as int, BOARD_WIDTH as int),
                kept.len() <= r,
            decreases self.board.len() - r,
        {
            proof {
                reveal(Seq::filter);
                assert(before.take(r + 1).drop_last() =~= before.take(r as int));
            }
            if !row_is_full(&self.board[r]) {
                let ghost previous = cells_of(&kept);
                kept.push(copy_row(&self.board[r]));
                assert(cells_of(&kept) =~= previous.push(self.board@[r as int]@));
                assert(before[r as int].len() == BOARD_WIDTH);
            }
            r += 1;
        }
        assert(before.take(r as int) =~= before);
        let cleared_lines = BOARD_HEIGHT - kept.len();
        let mut board: Vec<Vec<u8>> = Vec::new();
        while board.len() < cleared_lines
            invariant
                board.len() <= cleared_lines,
                forall|i: int| 0 <= i < board.len() ==> (#[trigger] board@[i])@ == Seq::new(
                    BOARD_WIDTH as nat,
                    |c: int| 0u8,
                ),
            decreases cleared_lines - board.len(),
        {
            board.push(blank_row(BOARD_WIDTH));
        }
        let ghost bottom = cells_of(&kept);
        board.append(&mut kept);
        self.score += cleared_lines;
        self.board = board;
        assert forall|i: int| 0 <= i < self@.board.len() implies (#[trigger] self@.board[i]).len()
            == BOARD_WIDTH by {
            if i >= cleared_lines {
                assert(self@.board[i] == bottom[i - cleared_lines]);
            }
        }
    }

    /// Locks the falling piece in and spawns a piece of shape `next`: the
    /// piece's cells are written into the board, the full rows are cleared
    /// and counted, and the new piece stands at the spawn position. Whether
    /// the new piece fits there is for the caller to test.
    pub fn lock_in(&mut self, next: Vec<Vec<u8>>)
        requires
            old(self).well_formed(),
            old(self)@.fits(0, 0),
            old(self).score + full_rows(old(self)@.stamped()) <= usize::MAX,
        ensures
            final(self)@ == old(self)@.locked(cells_of(&next)),
            final(self).tetromino.shape == next,
            final(self).well_formed(),
            final(self).score >= old(self).score,
    {
        self.place();
        self.clear_lines();
        self.tetromino = Tetromino::new(next);
    }

    /// Locks the falling piece in and spawns a piece whose shape is drawn at
    /// random from the seven canonical ones.
    pub fn place_tetromino(&mut self)
        requires
            old(self).well_formed(),
            old(self)@.fits(0, 0),
            old(self).score + full_rows(old(self)@.stamped()) <= usize::MAX,
        ensures
            exists|kind: int|
                0 <= kind < 7 && final(self)@ == old(self)@.locked(
                    #[trigger] canonical_shape(kind),
                ),
            final(self).well_formed(),
            final(self).score >= old(self).score,
    {
        let mut rng = rand::thread_rng();
        let shapes = canonical_shapes();
        let picked = pick_one(&shapes, &mut rng);
        let shape = copy_cells(picked.unwrap());
        self.lock_in(shape);
    }
}

} // verus!
