//! The falling piece: a shape matrix anchored at a board position.

use vstd::prelude::*;
use crate::grid::{
    cells_of, copy_cells, filled, is_shape, is_tight, lemma_four_rotations, rotated, Cells,
    BOARD_WIDTH,
};

verus! {

/// A shape matrix with the board position of its top-left corner.
#[derive(Debug, PartialEq, Eq)]
pub struct Tetromino {
    pub shape: Vec<Vec<u8>>,
    pub x: usize,
    pub y: usize,
}

/// The mathematical value of a piece.
pub struct Piece {
    pub shape: Cells,
    pub x: int,
    pub y: int,
}

impl Piece {
    /// The piece turned a quarter clockwise about its anchor.
    pub open spec fn turned(self) -> Piece {
        Piece { shape: rotated(self.shape), x: self.x, y: self.y }
    }

    /// The piece shifted by `dx` columns and `dy` rows.
    pub open spec fn shifted(self, dx: int, dy: int) -> Piece {
        Piece { shape: self.shape, x: self.x + dx, y: self.y + dy }
    }
}

/// A piece of the given shape at the spawn position: horizontally centred,
/// on the top row.
pub open spec fn spawned(shape: Cells) -> Piece {
    Piece { shape, x: BOARD_WIDTH / 2 - 1, y: 0 }
}

impl View for Tetromino {
    type V = Piece;

    open spec fn view(&self) -> Piece {
        Piece { shape: cells_of(&self.shape), x: self.x as int, y: self.y as int }
    }
}

impl Clone for Tetromino {
    /// A piece of the same shape at the same position.
    fn clone(&self) -> (copy: Tetromino)
        ensures
            copy@ == self@,
    {
        Tetromino { shape: copy_cells(&self.shape), x: self.x, y: self.y }
    }
}

/// The seven shapes a piece can start with: I, O, T, S, Z, J, L.
pub open spec fn canonical_shape(kind: int) -> Cells {
    if kind == 0 {
        seq![seq![1u8, 1u8, 1u8, 1u8]]
    } else if kind == 1 {
        seq![seq![1u8, 1u8], seq![1u8, 1u8]]
    } else if kind == 2 {
        seq![seq![0u8, 1u8, 0u8], seq![1u8, 1u8, 1u8]]
    } else if kind == 3 {
        seq![seq![0u8, 1u8, 1u8], seq![1u8, 1u8, 0u8]]
    } else if kind == 4 {
        seq![seq![1u8, 1u8, 0u8], seq![0u8, 1u8, 1u8]]
    } else if kind == 5 {
        seq![seq![1u8, 0u8, 0u8], seq![1u8, 1u8, 1u8]]
    } else {
        seq![seq![0u8, 0u8, 1u8], seq![1u8, 1u8, 1u8]]
    }
}

/// `shape` is one of the seven canonical shapes.
pub open spec fn is_canonical(shape: Cells) -> bool {
    exists|kind: int| 0 <= kind < 7 && shape == canonical_shape(kind)
}

/// A piece turned four times is the piece it was: the same shape, cell by
/// cell, at the same position.
pub proof fn lemma_four_turns(piece: Piece)
    requires
        is_shape(piece.shape),
    ensures
        piece.turned().turned().turned().turned() == piece,
{
    lemma_four_rotations(piece.shape);
}

/// Each canonical shape is the bounding box of its filled cells, at most
/// two rows high and four columns wide.
pub proof fn lemma_canonical_is_tight(kind: int)
    requires
        0 <= kind < 7,
    ensures
        is_tight(canonical_shape(kind)),
        canonical_shape(kind).len() <= 2,
        canonical_shape(kind)[0].len() <= 4,
{
    let shape = canonical_shape(kind);
    if kind == 0 {
        assert(filled(shape, 0, 0) && filled(shape, 0, 3));
    } else if kind == 1 {
        assert(filled(shape, 0, 0) && filled(shape, 1, 0) && filled(shape, 0, 1));
    } else if kind == 2 {
        assert(filled(shape, 0, 1) && filled(shape, 1, 0) && filled(shape, 1, 2));
    } else if kind == 3 {
        assert(filled(shape, 0, 1) && filled(shape, 1, 0) && filled(shape, 0, 2));
    } else if kind == 4 {
        assert(filled(shape, 0, 0) && filled(shape, 1, 1) && filled(shape, 1, 2));
    } else if kind == 5 {
        assert(filled(shape, 0, 0) && filled(shape, 1, 0) && filled(shape, 1, 2));
    } else {
        assert(filled(shape, 0, 2) && filled(shape, 1, 0) && filled(shape, 1, 2));
    }
}

/// The seven canonical shapes, in the order I, O, T, S, Z, J, L.
pub fn canonical_shapes() -> (shapes: Vec<Vec<Vec<u8>>>)
    ensures
        shapes@.len() == 7,
        forall|kind: int|
            0 <= kind < 7 ==> cells_of(#[trigger] &shapes@[kind]) == canonical_shape(kind),
{
    let shapes = vec![
        vec![vec![1u8, 1u8, 1u8, 1u8]],
        vec![vec![1u8, 1u8], vec![1u8, 1u8]],
        vec![vec![0u8, 1u8, 0u8], vec![1u8, 1u8, 1u8]],
        vec![vec![0u8, 1u8, 1u8], vec![1u8, 1u8, 0u8]],
        vec![vec![1u8, 1u8, 0u8], vec![0u8, 1u8, 1u8]],
        vec![vec![1u8, 0u8, 0u8], vec![1u8, 1u8, 1u8]],
        vec![vec![0u8, 0u8, 1u8], vec![1u8, 1u8, 1u8]],
    ];
    shapes
}

impl Tetromino {
    /// The shape is a matrix with at least one row and one column.
    pub open spec fn well_formed(&self) -> bool {
        is_shape(self@.shape)
    }

    /// A piece of the given shape at the spawn position: horizontally
    /// centred, on the top row.
    pub fn new(shape: Vec<Vec<u8>>) -> (piece: Tetromino)
        ensures
            piece.shape == shape,
            piece@ == spawned(cells_of(&shape)),
    {
        Tetromino { shape, x: BOARD_WIDTH / 2 - 1, y: 0 }
    }

    /// The piece turned a quarter clockwise about its anchor. The receiver is
    /// unchanged; whether the turned piece fits on a board is for the caller
    /// to test.
    pub fn rotate(&self) -> (turned: Tetromino)
        requires
            self.well_formed(),
        ensures
            turned@ == self@.turned(),
            turned.well_formed(),
            turned@.shape.len() == self@.shape[0].len(),
            turned@.shape[0].len() == self@.shape.len(),
    {
        let ghost source = self@.shape;
        let rows = self.shape.len();
        let cols = self.shape[0].len();
        let mut shape: Vec<Vec<u8>> = Vec::new();
        let mut j: usize = 0;
        while j < cols
            invariant
                source == self@.shape,
                is_shape(source),
                rows == source.len(),
                cols == source[0].len(),
                j <= cols,
                shape.len() == j,
                forall|a: int| 0 <= a < j ==> (#[trigger] shape@[a])@ == rotated(source)[a],
            decreases cols - j,
        {
            let mut row: Vec<u8> = Vec::new();
            let mut k: usize = 0;
            while k < rows
                invariant
                    source == self@.shape,
                    is_shape(source),
                    rows == source.len(),
                    cols == source[0].len(),
                    j < cols,
                    k <= rows,
                    row.len() == k,
                    forall|b: int|
                        0 <= b < k ==> #[trigger] row@[b] == source[rows - 1 - b][j as int],
                decreases rows - k,
            {
                assert(source[rows - 1 - k] == self.shape@[rows - 1 - k]@);
                row.push(self.shape[rows - 1 - k][j]);
                k += 1;
            }
            shape.push(row);
            j += 1;
        }
        assert(cells_of(&shape) =~= rotated(source));
        Tetromino { shape, x: self.x, y: self.y }
    }
}

} // verus!
