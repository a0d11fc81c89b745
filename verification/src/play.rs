//! One step of play: what a tick of the clock and what a key do to a game.
//! The caller keeps the clock, reads the keys and draws; the rules are here.

use vstd::prelude::*;
use crate::game::{Game, Tetris};
use crate::grid::{
    cells_of, filled, fits, free_at, full_rows, has_size, is_tight, is_tight_shape,
    lemma_rotated_is_tight, rotated, Cells, BOARD_HEIGHT, BOARD_WIDTH,
};
use crate::piece::{canonical_shape, lemma_canonical_is_tight};

verus! {

/// Milliseconds between two ticks of the clock.
pub const TICK_MILLIS: u128 = 500;

/// Whether a tick is due, `elapsed_millis` after the last one.
pub fn tick_due(elapsed_millis: u128) -> (due: bool)
    ensures
        due == (elapsed_millis >= TICK_MILLIS),
{
    elapsed_millis >= TICK_MILLIS
}

/// What the player asked for.
#[derive(Clone, Copy, Debug, PartialEq, Eq, Structural)]
pub enum Key {
    Left,
    Right,
    Down,
    Rotate,
    Quit,
    Other,
}

/// How a game stands after a step.
#[derive(Clone, Copy, Debug, PartialEq, Eq, Structural)]
pub enum Status {
    /// A piece is falling: the game goes on.
    Falling,
    /// The piece that was spawned does not fit: the game has ended.
    GameOver,
    /// The player has left the game.
    Quit,
}

impl Key {
    /// The key bound to a character: `q` quits, a space turns the piece,
    /// every other character does nothing.
    pub fn from_char(c: char) -> (key: Key)
        ensures
            key == if c == 'q' {
                Key::Quit
            } else if c == ' ' {
                Key::Rotate
            } else {
                Key::Other
            },
    {
        if c == 'q' {
            Key::Quit
        } else if c == ' ' {
            Key::Rotate
        } else {
            Key::Other
        }
    }
}

impl Game {
    /// The game with its piece shifted by `dx` columns and `dy` rows.
    pub open spec fn moved(self, dx: int, dy: int) -> Game {
        Game { board: self.board, piece: self.piece.shifted(dx, dy), score: self.score }
    }

    /// The game after an attempt to shift the piece: shifted where that is
    /// legal, unchanged where it is not.
    pub open spec fn nudged(self, dx: int, dy: int) -> Game {
        if self.fits(dx, dy) {
            self.moved(dx, dy)
        } else {
            self
        }
    }

    /// The game after an attempt to turn the piece: turned where the turned
    /// piece fits at the same anchor, unchanged where it does not.
    pub open spec fn turned(self) -> Game {
        if fits(self.board, rotated(self.piece.shape), self.piece.x, self.piece.y) {
            Game { board: self.board, piece: self.piece.turned(), score: self.score }
        } else {
            self
        }
    }

    /// The game after a key.
    pub open spec fn keyed(self, key: Key) -> Game {
        match key {
            Key::Left => self.nudged(-1, 0),
            Key::Right => self.nudged(1, 0),
            Key::Down => self.nudged(0, 1),
            Key::Rotate => self.turned(),
            Key::Quit => self,
            Key::Other => self,
        }
    }

    /// The game after a tick: the piece one row lower where it can fall;
    /// otherwise locked in, with a piece of shape `next` spawned.
    pub open spec fn ticked(self, next: Cells) -> Game {
        if self.fits(0, 1) {
            self.moved(0, 1)
        } else {
            self.locked(next)
        }
    }

    /// How the game stands after a tick: over when the piece was locked in
    /// and the piece spawned after it does not fit.
    pub open spec fn tick_status(self, next: Cells) -> Status {
        if self.fits(0, 1) || self.locked(next).fits(0, 0) {
            Status::Falling
        } else {
            Status::GameOver
        }
    }
}

/// A piece in play that may shift by (`dx`, `dy`) has an anchor that stays
/// on the board.
proof fn lemma_anchor_stays(g: Game, dx: int, dy: int)
    requires
        g.in_play(),
        g.fits(dx, dy),
    ensures
        0 <= g.piece.x + dx < BOARD_WIDTH,
        0 <= g.piece.y + dy < BOARD_HEIGHT,
{
    // The shape holds a filled cell in its first column and one in its
    // first row; where they land is on the board.
    let shape = g.piece.shape;
    let r = choose|r: int| filled(shape, r, 0);
    let c = choose|c: int| filled(shape, 0, c);
    assert(free_at(g.board, g.piece.y + dy + r, g.piece.x + dx + 0));
    assert(free_at(g.board, g.piece.y + dy + 0, g.piece.x + dx + c));
}

impl Tetris {
    /// Whether the game is in play: the board has its size, the piece's shape
    /// is the bounding box of its filled cells, and the piece lies on the
    /// board over empty cells.
    pub fn is_in_play(&self) -> (ok: bool)
        ensures
            ok == self@.in_play(),
    {
        has_size(&self.board, BOARD_HEIGHT, BOARD_WIDTH) && is_tight_shape(&self.tetromino.shape)
            && self.can_move(0, 0, &self.tetromino)
    }

    /// One tick of the clock, with `next` the shape to spawn should the
    /// piece lock: the piece falls one row where it can; otherwise it is
    /// locked in, the full rows are cleared, and the new piece is spawned.
    /// The game is over when the new piece does not fit.
    pub fn tick_with(&mut self, next: Vec<Vec<u8>>) -> (status: Status)
        requires
            old(self)@.in_play(),
            !old(self)@.fits(0, 1) ==> old(self).score + full_rows(old(self)@.stamped())
                <= usize::MAX,
        ensures
            final(self)@ == old(self)@.ticked(cells_of(&next)),
            status == old(self)@.tick_status(cells_of(&next)),
            final(self).well_formed(),
            final(self).score >= old(self).score,
            status == Status::Falling && is_tight(cells_of(&next)) ==> final(self)@.in_play(),
    {
        if self.can_move(0, 1, &self.tetromino) {
            proof {
                lemma_anchor_stays(self@, 0, 1);
            }
            self.tetromino.y += 1;
            Status::Falling
        } else {
            self.lock_in(next);
            if self.can_move(0, 0, &self.tetromino) {
                Status::Falling
            } else {
                Status::GameOver
            }
        }
    }

    /// One tick of the clock: as `tick_with`, the shape to spawn drawn at
    /// random from the seven canonical ones.
    pub fn tick(&mut self) -> (status: Status)
        requires
            old(self)@.in_play(),
            !old(self)@.fits(0, 1) ==> old(self).score + full_rows(old(self)@.stamped())
                <= usize::MAX,
        ensures
            exists|kind: int|
                0 <= kind < 7 && final(self)@ == old(self)@.ticked(#[trigger] canonical_shape(kind))
                    && status == old(self)@.tick_status(canonical_shape(kind)),
            final(self).well_formed(),
            final(self).score >= old(self).score,
            status == Status::Falling ==> final(self)@.in_play(),
            status != Status::Quit,
    {
        if self.can_move(0, 1, &self.tetromino) {
            proof {
                lemma_anchor_stays(self@, 0, 1);
            }
            self.tetromino.y += 1;
            assert(self@ == old(self)@.ticked(canonical_shape(0)));
            Status::Falling
        } else {
            self.place_tetromino();
            let ghost kind = choose|kind: int|
                0 <= kind < 7 && self@ == old(self)@.locked(#[trigger] canonical_shape(kind));
            proof {
                lemma_canonical_is_tight(kind);
            }
            if self.can_move(0, 0, &self.tetromino) {
                Status::Falling
            } else {
                Status::GameOver
            }
        }
    }

    /// One key: left, right and down shift the piece by one cell where that
    /// is legal; rotate turns it where the turned piece fits; quit leaves
    /// the game; any other key does nothing.
    pub fn handle_key(&mut self, key: Key) -> (status: Status)
        requires
            old(self)@.in_play(),
        ensures
            final(self)@ == old(self)@.keyed(key),
            status == if key == Key::Quit {
                Status::Quit
            } else {
                Status::Falling
            },
            final(self)@.in_play(),
            final(self).score == old(self).score,
            final(self).board == old(self).board,
    {
        match key {
            Key::Left => {
                if self.can_move(-1, 0, &self.tetromino) {
                    proof {
                        lemma_anchor_stays(self@, -1, 0);
                    }
                    self.tetromino.x = self.tetromino.x - 1;
                }
                Status::Falling
            },
            Key::Right => {
                if self.can_move(1, 0, &self.tetromino) {
                    proof {
                        lemma_anchor_stays(self@, 1, 0);
                    }
                    self.tetromino.x = self.tetromino.x + 1;
                }
                Status::Falling
            },
            Key::Down => {
                if self.can_move(0, 1, &self.tetromino) {
                    proof {
                        lemma_anchor_stays(self@, 0, 1);
                    }
                    self.tetromino.y += 1;
                }
                Status::Falling
            },
            Key::Rotate => {
                let rotated_tetromino = self.tetromino.rotate();
                if self.can_move(0, 0, &rotated_tetromino) {
                    proof {
                        lemma_rotated_is_tight(self@.piece.shape);
                    }
                    self.tetromino = rotated_tetromino;
                }
                Status::Falling
            },
            Key::Quit => Status::Quit,
            Key::Other => Status::Falling,
        }
    }
}

} // verus!
