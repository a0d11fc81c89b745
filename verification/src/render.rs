//! What a frame shows: the occupied cells of the board, the cells of the
//! falling piece and the score, as the commands a text display needs.

use vstd::prelude::*;
use vstd::string::StringExecFns;
use crate::game::{Game, Tetris};
use crate::grid::{cells_of, filled, Cells, BOARD_WIDTH};
use crate::text::{decimal, decimal_text};

verus! {

/// One command to a text display.
#[derive(Debug, PartialEq, Eq)]
pub enum DrawCommand {
    /// Wipe the display.
    Clear,
    /// Write `text` at display row `row`, display column `col`.
    Text { row: i32, col: i32, text: String },
    /// Show what was written.
    Refresh,
}

/// The mathematical value of a command.
pub enum Drawn {
    Clear,
    Text { row: int, col: int, text: Seq<char> },
    Refresh,
}

impl View for DrawCommand {
    type V = Drawn;

    open spec fn view(&self) -> Drawn {
        match *self {
            DrawCommand::Clear => Drawn::Clear,
            DrawCommand::Text { row, col, text } => Drawn::Text {
                row: row as int,
                col: col as int,
                text: text@,
            },
            DrawCommand::Refresh => Drawn::Refresh,
        }
    }
}

/// The values of a list of commands.
pub open spec fn drawn(commands: &Vec<DrawCommand>) -> Seq<Drawn> {
    Seq::new(commands@.len(), |i: int| commands@[i]@)
}

/// The glyph of the cell at board row `row`, board column `col`: two
/// characters wide, so at display column `2 * col`.
pub open spec fn block(row: int, col: int) -> Drawn {
    Drawn::Text { row, col: 2 * col, text: "[]"@ }
}

/// The glyphs of the filled cells among the first `n` of `row`, left to
/// right, the row standing at board row `y` from board column `x` on.
pub open spec fn row_blocks(row: Seq<u8>, x: int, y: int, n: nat) -> Seq<Drawn>
    decreases n,
{
    if n == 0 {
        Seq::empty()
    } else if row[n - 1] != 0 {
        row_blocks(row, x, y, (n - 1) as nat).push(block(y, x + n - 1))
    } else {
        row_blocks(row, x, y, (n - 1) as nat)
    }
}

/// The glyphs of the filled cells in the first `n` rows of `cells`, row by
/// row, the matrix anchored at board column `x`, board row `y`.
pub open spec fn blocks(cells: Cells, x: int, y: int, n: nat) -> Seq<Drawn>
    decreases n,
{
    if n == 0 {
        Seq::empty()
    } else {
        blocks(cells, x, y, (n - 1) as nat) + row_blocks(
            cells[n - 1],
            x,
            y + n - 1,
            cells[n - 1].len(),
        )
    }
}

/// The score as shown: right of the board, on the top row.
pub open spec fn score_line(score: nat) -> Drawn {
    Drawn::Text { row: 0, col: BOARD_WIDTH * 2 + 2, text: "Score: "@ + decimal(score) }
}

/// Every filled cell of `cells`, anchored at (`x`, `y`), has a display
/// position that a command can hold.
pub open spec fn on_display(cells: Cells, x: int, y: int) -> bool {
    forall|r: int, c: int| #[trigger]
        filled(cells, r, c) ==> y + r <= i32::MAX && 2 * (x + c) <= i32::MAX
}

impl Game {
    /// What one frame draws, in order: a wipe, the occupied cells of the
    /// board, the cells of the falling piece, the score, and a refresh.
    pub open spec fn frame(self) -> Seq<Drawn> {
        seq![Drawn::Clear] + blocks(self.board, 0, 0, self.board.len()) + blocks(
            self.piece.shape,
            self.piece.x,
            self.piece.y,
            self.piece.shape.len(),
        ) + seq![score_line(self.score), Drawn::Refresh]
    }
}

/// Appends the glyphs of the filled cells of `cells`, anchored at board
/// column `x`, board row `y`.
fn push_blocks(commands: &mut Vec<DrawCommand>, cells: &Vec<Vec<u8>>, x: usize, y: usize)
    requires
        on_display(cells_of(cells), x as int, y as int),
    ensures
        drawn(final(commands)) == drawn(old(commands)) + blocks(
            cells_of(cells),
            x as int,
            y as int,
            cells@.len(),
        ),
{
    let ghost start = drawn(commands);
    let ghost grid = cells_of(cells);
    let mut r: usize = 0;
    while r < cells.len()
        invariant
            grid == cells_of(cells),
            on_display(grid, x as int, y as int),
            r <= cells@.len(),
            drawn(commands) == start + blocks(grid, x as int, y as int, r as nat),
        decreases cells.len() - r,
    {
        let row = &cells[r];
        let ghost before_row = drawn(commands);
        let mut c: usize = 0;
        while c < row.len()
            invariant
                grid == cells_of(cells),
                on_display(grid, x as int, y as int),
                r < cells@.len(),
                row@ == grid[r as int],
                c <= row@.len(),
                drawn(commands) == before_row + row_blocks(row@, x as int, y + r, c as nat),
            decreases row.len() - c,
        {
            if row[c] != 0 {
                assert(filled(grid, r as int, c as int));
                let ghost earlier = drawn(commands);
                commands.push(
                    DrawCommand::Text {
                        row: (y + r) as i32,
                        col: ((x + c) * 2) as i32,
                        text: String::from_str("[]"),
                    },
                );
                assert(drawn(commands) =~= earlier.push(block(y + r, x + c)));
            }
            c += 1;
        }
        r += 1;
    }
}

impl Tetris {
    /// The commands that draw the game: a wipe, a two-character glyph for
    /// every occupied cell of the board and for every filled cell of the
    /// falling piece, the score to the right of the board, and a refresh.
    pub fn draw_board(&self) -> (commands: Vec<DrawCommand>)
        requires
            self.well_formed(),
            on_display(self@.piece.shape, self@.piece.x, self@.piece.y),
        ensures
            drawn(&commands) == self@.frame(),
    {
        let mut commands: Vec<DrawCommand> = Vec::new();
        commands.push(DrawCommand::Clear);
        push_blocks(&mut commands, &self.board, 0, 0);
        push_blocks(&mut commands, &self.tetromino.shape, self.tetromino.x, self.tetromino.y);
        let ghost body = drawn(&commands);
        let mut text = String::from_str("Score: ");
        let number = decimal_text(self.score);
        text.append(number.as_str());
        commands.push(DrawCommand::Text { row: 0, col: (BOARD_WIDTH * 2 + 2) as i32, text });
        commands.push(DrawCommand::Refresh);
        assert(drawn(&commands) =~= body + seq![score_line(self@.score), Drawn::Refresh]);
        commands
    }
}

} // verus!
