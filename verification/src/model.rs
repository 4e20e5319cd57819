//! The mathematical model of a game: the rows of locked cells, the active
//! piece and its place, the score, the fall timer and the game-over flag,
//! and what every command makes of them.

use crate::block::BlockView;
use crate::colour::Colour;
use vstd::arithmetic::power2::pow2;
use vstd::prelude::*;

verus! {

/// How long the active piece rests on a row before gravity moves it, in
/// nanoseconds.
pub const FALL_INTERVAL_NANOS: u128 = 1_000_000_000;

/// A game as a value. `rows[y][x]` is the locked cell in column `x` of row
/// `y`, row 0 at the top. `(piece_x, piece_y)` is where the top left corner
/// of the box of the active piece lies on the board. `last_fall` is the
/// reading of the game's clock, in nanoseconds, at which the fall timer was
/// last reset.
pub struct GameView {
    pub width: int,
    pub height: int,
    pub rows: Seq<Seq<Colour>>,
    pub piece: BlockView,
    pub piece_x: int,
    pub piece_y: int,
    pub score: int,
    pub last_fall: int,
    pub game_over: bool,
}

/// A row of `width` empty cells.
pub open spec fn empty_row(width: int) -> Seq<Colour> {
    Seq::new(width as nat, |x: int| Colour::Empty)
}

/// What a merge that clears `lines` rows adds to the score: nothing for no
/// row, and two to the power of `lines` otherwise.
pub open spec fn line_bonus(lines: int) -> int {
    if lines > 0 {
        pow2(lines as nat) as int
    } else {
        0
    }
}

impl GameView {
    /// Whether `(x, y)` is a cell of the board.
    pub open spec fn in_range(self, x: int, y: int) -> bool {
        0 <= x < self.width && 0 <= y < self.height
    }

    /// The board is at least 4 by 4, every row has its width, and the box of
    /// the active piece is at most 4 by 4.
    pub open spec fn board_wf(self) -> bool {
        &&& self.width >= 4
        &&& self.height >= 4
        &&& self.rows.len() == self.height
        &&& forall|y: int| 0 <= y < self.height ==> (#[trigger] self.rows[y]).len() == self.width
        &&& self.piece.wf()
    }

    /// The board is well formed, the active piece is a tetromino and lies on
    /// the board, and the score is not negative.
    pub open spec fn wf(self) -> bool {
        &&& self.board_wf()
        &&& self.piece.is_tetromino()
        &&& !self.out_of_bounds_at(self.piece_x, self.piece_y)
        &&& self.score >= 0
    }

    /// The active piece is where it can be: on the board and on no locked
    /// block.
    pub open spec fn piece_fits(self) -> bool {
        self.fits_at(self.piece_x, self.piece_y)
    }

    /// The game is in one of its two states: in play, with the active piece
    /// where it can be, or over.
    pub open spec fn settled(self) -> bool {
        self.game_over || self.piece_fits()
    }

    /// The locked cell at `(x, y)`; empty outside the board.
    pub open spec fn get(self, x: int, y: int) -> Colour {
        if self.in_range(x, y) {
            self.rows[y][x]
        } else {
            Colour::Empty
        }
    }

    /// Whether a block is locked at `(x, y)`.
    pub open spec fn filled(self, x: int, y: int) -> bool {
        self.get(x, y) != Colour::Empty
    }

    /// What is to be drawn at `(x, y)`: the colour of the active piece where
    /// it covers the cell, the locked cell elsewhere, nothing outside the
    /// board.
    pub open spec fn display_get(self, x: int, y: int) -> Colour {
        if self.in_range(x, y) && self.piece.cell(x - self.piece_x, y - self.piece_y) {
            self.piece.colour
        } else {
            self.get(x, y)
        }
    }

    /// Whether the active piece, placed at `(x, y)`, would have a cell
    /// outside the board.
    pub open spec fn out_of_bounds_at(self, x: int, y: int) -> bool {
        exists|bx: int, by: int| #[trigger] self.piece.cell(bx, by) && !self.in_range(x + bx, y + by)
    }

    /// Whether the active piece, placed at `(x, y)`, would cover a locked
    /// block.
    pub open spec fn collision_at(self, x: int, y: int) -> bool {
        exists|bx: int, by: int| #[trigger] self.piece.cell(bx, by) && self.filled(x + bx, y + by)
    }

    /// Whether the active piece can be at `(x, y)`: on the board and on no
    /// locked block.
    pub open spec fn fits_at(self, x: int, y: int) -> bool {
        !self.collision_at(x, y) && !self.out_of_bounds_at(x, y)
    }

    /// The game with the locked cell at `(x, y)` changed to `colour`.
    pub open spec fn put(self, x: int, y: int, colour: Colour) -> GameView {
        GameView { rows: self.rows.update(y, self.rows[y].update(x, colour)), ..self }
    }

    /// The game after `colour` was written to `(x, y)`. Nothing is written
    /// outside the board, nor once the game is over.
    pub open spec fn with_cell(self, x: int, y: int, colour: Colour) -> GameView {
        if self.game_over || !self.in_range(x, y) {
            self
        } else {
            self.put(x, y, colour)
        }
    }

    /// Whether row `y` is a row of the board with a block in every column.
    pub open spec fn row_full(self, y: int) -> bool {
        &&& 0 <= y < self.height
        &&& forall|x: int| 0 <= x < self.width ==> #[trigger] self.filled(x, y)
    }

    /// The game with row `y` taken out: every row from 1 to `y` takes the
    /// cells of the row above it, and row 0 becomes empty. Nothing changes
    /// for a `y` outside the board, nor once the game is over.
    pub open spec fn clear_row(self, y: int) -> GameView {
        if self.game_over || !(0 <= y < self.height) {
            self
        } else {
            GameView {
                rows: Seq::new(
                    self.height as nat,
                    |r: int|
                        if r == 0 {
                            empty_row(self.width)
                        } else if r <= y {
                            self.rows[r - 1]
                        } else {
                            self.rows[r]
                        },
                ),
                ..self
            }
        }
    }

    /// The game after the rows `from..to` were looked at from the top down
    /// and each one found full was taken out at once.
    pub open spec fn sweep(self, from: int, to: int) -> GameView
        decreases to - from,
    {
        if from >= to {
            self
        } else if self.row_full(from) {
            self.clear_row(from).sweep(from + 1, to)
        } else {
            self.sweep(from + 1, to)
        }
    }

    /// How many rows that sweep takes out.
    pub open spec fn sweep_count(self, from: int, to: int) -> int
        decreases to - from,
    {
        if from >= to {
            0
        } else if self.row_full(from) {
            1 + self.clear_row(from).sweep_count(from + 1, to)
        } else {
            self.sweep_count(from + 1, to)
        }
    }

    /// How many of the rows `from..to` are full.
    pub open spec fn full_rows(self, from: int, to: int) -> int
        decreases to - from,
    {
        if from >= to {
            0
        } else if self.row_full(from) {
            1 + self.full_rows(from + 1, to)
        } else {
            self.full_rows(from + 1, to)
        }
    }

    /// Whether no row of the board is full.
    pub open spec fn no_full_row(self) -> bool {
        forall|y: int| !self.row_full(y)
    }

    /// The game after the rows that the box of the active piece spans were
    /// swept. Nothing changes once the game is over.
    pub open spec fn swept(self) -> GameView {
        if self.game_over {
            self
        } else {
            self.sweep(self.piece_y, self.piece_y + self.piece.h)
        }
    }

    /// How many rows that takes out.
    pub open spec fn swept_lines(self) -> int {
        if self.game_over {
            0
        } else {
            self.sweep_count(self.piece_y, self.piece_y + self.piece.h)
        }
    }

    /// The game with every cell that the active piece covers locked in the
    /// colour of the piece.
    pub open spec fn stamped(self) -> GameView {
        GameView {
            rows: Seq::new(
                self.height as nat,
                |r: int|
                    Seq::new(
                        self.width as nat,
                        |c: int|
                            if self.piece.cell(c - self.piece_x, r - self.piece_y) {
                                self.piece.colour
                            } else {
                                self.rows[r][c]
                            },
                    ),
            ),
            ..self
        }
    }

    /// How many rows a merge clears.
    pub open spec fn merged_lines(self) -> int {
        self.stamped().swept_lines()
    }

    /// The game after a merge: the active piece is locked, the rows that its
    /// box spans are swept, and the bonus for the cleared rows is added to
    /// the score. Nothing changes once the game is over.
    pub open spec fn merged(self) -> GameView {
        if self.game_over {
            self
        } else {
            GameView {
                score: self.score + line_bonus(self.merged_lines()),
                ..self.stamped().swept()
            }
        }
    }

    /// Whether the active piece can move `dx` columns sideways.
    pub open spec fn can_slide(self, dx: int) -> bool {
        !self.game_over && self.fits_at(self.piece_x + dx, self.piece_y)
    }

    /// The game after a try to move the active piece `dx` columns sideways.
    pub open spec fn slid(self, dx: int) -> GameView {
        if self.can_slide(dx) {
            GameView { piece_x: self.piece_x + dx, ..self }
        } else {
            self
        }
    }

    /// Whether the active piece can move one row down.
    pub open spec fn can_fall(self) -> bool {
        !self.game_over && self.fits_at(self.piece_x, self.piece_y + 1)
    }

    /// The game after a try, made when the clock reads `now`, to move the
    /// active piece one row down. A move resets the fall timer.
    pub open spec fn lowered(self, now: int) -> GameView {
        if self.can_fall() {
            GameView { piece_y: self.piece_y + 1, last_fall: now, ..self }
        } else {
            self
        }
    }

    /// The row at which a piece that falls from row `y` in its column comes
    /// to rest.
    pub open spec fn landing_row(self, y: int) -> int
        decreases self.height - y,
    {
        if y < self.height && self.fits_at(self.piece_x, y + 1) {
            self.landing_row(y + 1)
        } else {
            y
        }
    }

    /// The game after the active piece was moved down, when the clock reads
    /// `now`, as far as it goes. Nothing changes once the game is over.
    pub open spec fn dropped(self, now: int) -> GameView {
        if self.game_over {
            self
        } else {
            let row = self.landing_row(self.piece_y);
            GameView {
                piece_y: row,
                last_fall: if row > self.piece_y {
                    now
                } else {
                    self.last_fall
                },
                ..self
            }
        }
    }

    /// The game with `piece` as the active piece, where the old one stood.
    pub open spec fn with_piece(self, piece: BlockView) -> GameView {
        GameView { piece, ..self }
    }

    /// Whether the active piece can be turned clockwise where it stands.
    pub open spec fn can_rotate_clockwise(self) -> bool {
        !self.game_over && self.with_piece(self.piece.rotate_clockwise()).fits_at(
            self.piece_x,
            self.piece_y,
        )
    }

    /// The game after a try to turn the active piece clockwise.
    pub open spec fn rotated_clockwise(self) -> GameView {
        if self.can_rotate_clockwise() {
            self.with_piece(self.piece.rotate_clockwise())
        } else {
            self
        }
    }

    /// Whether the active piece can be turned anticlockwise where it stands.
    pub open spec fn can_rotate_anticlockwise(self) -> bool {
        !self.game_over && self.with_piece(self.piece.rotate_anticlockwise()).fits_at(
            self.piece_x,
            self.piece_y,
        )
    }

    /// The game after a try to turn the active piece anticlockwise.
    pub open spec fn rotated_anticlockwise(self) -> GameView {
        if self.can_rotate_anticlockwise() {
            self.with_piece(self.piece.rotate_anticlockwise())
        } else {
            self
        }
    }

    /// The game after a new piece was spawned when the clock reads `now`:
    /// the canonical shape `draw % 7`, centred at the top, with the fall
    /// timer reset. The game is over if the new piece covers a locked block.
    /// Nothing changes once the game is over.
    pub open spec fn spawned(self, draw: int, now: int) -> GameView {
        if self.game_over {
            self
        } else {
            let piece = BlockView::canonical(draw % 7);
            let placed = GameView {
                piece,
                piece_x: self.width / 2 + piece.spawn_offset().0,
                piece_y: piece.spawn_offset().1,
                last_fall: now,
                ..self
            };
            GameView { game_over: placed.collision_at(placed.piece_x, placed.piece_y), ..placed }
        }
    }

    /// A new game on a board of `width` by `height` cells, started when the
    /// clock reads `now`: an empty board, no score, and the canonical shape
    /// `draw % 7` centred at the top as the active piece.
    pub open spec fn initial(width: int, height: int, draw: int, now: int) -> GameView {
        let piece = BlockView::canonical(draw % 7);
        GameView {
            width,
            height,
            rows: Seq::new(height as nat, |r: int| empty_row(width)),
            piece,
            piece_x: width / 2 + piece.spawn_offset().0,
            piece_y: piece.spawn_offset().1,
            score: 0,
            last_fall: now,
            game_over: false,
        }
    }

    /// The game started anew on the same board.
    pub open spec fn restarted(self, draw: int, now: int) -> GameView {
        GameView::initial(self.width, self.height, draw, now)
    }

    /// Whether the fall interval has passed when the clock reads `now`.
    pub open spec fn fall_due(self, now: int) -> bool {
        now - self.last_fall >= FALL_INTERVAL_NANOS
    }

    /// The game after a tick when the clock reads `now`: unchanged before
    /// the fall interval has passed; after it, the active piece moves down
    /// one row, or, where it cannot, is merged and followed by the canonical
    /// shape `draw % 7`.
    pub open spec fn ticked(self, now: int, draw: int) -> GameView {
        if !self.fall_due(now) {
            self
        } else if self.can_fall() {
            self.lowered(now)
        } else {
            self.merged().spawned(draw, now)
        }
    }
}

} // verus!
