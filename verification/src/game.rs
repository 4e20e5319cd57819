//! The game: the board of locked cells, the active piece, and the commands
//! that move, turn, lock and replace it.

use crate::block::Block;
use crate::chance::draw;
use crate::clock::nanos_since;
use crate::colour::Colour;
use crate::laws::{
    lemma_dropped_settled, lemma_dropped_wf, lemma_empty_board_is_free, lemma_lowered_settled,
    lemma_on_board_position, lemma_piece_position, lemma_slid_settled, lemma_spawn_on_board,
    lemma_spawned_settled, lemma_sweep_frame,
};
use crate::model::{empty_row, line_bonus, GameView, FALL_INTERVAL_NANOS};
use crate::rotation::{
    lemma_anticlockwise_then_clockwise, lemma_clockwise_then_anticlockwise,
    lemma_rotation_keeps_tetromino,
};
use std::time::Instant;
use vstd::arithmetic::power2::lemma2_to64;
use vstd::prelude::*;

verus! {

/// A game in progress or over. The board is stored row by row: the cell
/// `(x, y)` is `board[y * w + x]`.
pub struct Game {
    x: isize,
    y: isize,
    block: Block,
    w: isize,
    h: isize,
    board: Vec<Colour>,
    score: isize,
    clock: Instant,
    last_fall: u128,
    game_over: bool,
}

/// The rows of a board of `w` by `h` cells that is stored row by row.
spec fn rows_of(board: Seq<Colour>, w: int, h: int) -> Seq<Seq<Colour>> {
    Seq::new(h as nat, |r: int| Seq::new(w as nat, |c: int| board[r * w + c]))
}

/// A cell of the board has an index in its storage.
proof fn lemma_index(x: int, y: int, w: int, h: int)
    requires
        0 <= x < w,
        0 <= y < h,
    ensures
        0 <= y * w + x < w * h,
{
    assert(y * w + x < w * h) by (nonlinear_arith)
        requires
            0 <= x < w,
            0 <= y < h,
    {
        assert((y + 1) * w <= h * w);
    }
    assert(0 <= y * w) by (nonlinear_arith)
        requires
            0 <= y,
            0 <= w,
    ;
}

/// Two cells of the board have different indices.
proof fn lemma_index_distinct(x1: int, y1: int, x2: int, y2: int, w: int)
    requires
        0 <= x1 < w,
        0 <= x2 < w,
        x1 != x2 || y1 != y2,
    ensures
        y1 * w + x1 != y2 * w + x2,
{
    if y1 < y2 {
        assert(y1 * w + x1 < y2 * w + x2) by (nonlinear_arith)
            requires
                0 <= x1 < w,
                0 <= x2 < w,
                y1 < y2,
        {
            assert((y1 + 1) * w <= y2 * w);
        }
    } else if y2 < y1 {
        assert(y2 * w + x2 < y1 * w + x1) by (nonlinear_arith)
            requires
                0 <= x1 < w,
                0 <= x2 < w,
                y2 < y1,
        {
            assert((y2 + 1) * w <= y1 * w);
        }
    }
}

impl View for Game {
    type V = GameView;

    closed spec fn view(&self) -> GameView {
        GameView {
            width: self.w as int,
            height: self.h as int,
            rows: rows_of(self.board@, self.w as int, self.h as int),
            piece: self.block@,
            piece_x: self.x as int,
            piece_y: self.y as int,
            score: self.score as int,
            last_fall: self.last_fall as int,
            game_over: self.game_over,
        }
    }
}

impl Game {
    /// The storage holds one cell for each cell of the board.
    pub closed spec fn storage_wf(&self) -> bool {
        &&& self.w >= 0
        &&& self.h >= 0
        &&& self.w * self.h <= isize::MAX
        &&& self.board@.len() == self.w * self.h
    }

    /// The board is stored as it should be and is well formed. This is what
    /// the queries need; it holds of every well-formed game.
    pub open spec fn board_wf(&self) -> bool {
        &&& self.storage_wf()
        &&& self@.board_wf()
    }

    /// The game is stored as it should be and is a well-formed game.
    pub open spec fn wf(&self) -> bool {
        &&& self.storage_wf()
        &&& self@.wf()
    }

    /// Neither side of the board is near the largest number.
    proof fn lemma_small_sides(&self)
        requires
            self.board_wf(),
        ensures
            self.w * 4 <= isize::MAX,
            self.h * 4 <= isize::MAX,
    {
        let w = self.w as int;
        let h = self.h as int;
        assert(w * 4 <= w * h && h * 4 <= w * h) by (nonlinear_arith)
            requires
                w >= 4,
                h >= 4,
        ;
    }

    /// Where the cell `(x, y)` is stored.
    fn index_of(&self, x: isize, y: isize) -> (i: usize)
        requires
            self.board_wf(),
            0 <= x < self.w,
            0 <= y < self.h,
        ensures
            i == y * self.w + x,
            i < self.board@.len(),
    {
        proof {
            lemma_index(x as int, y as int, self.w as int, self.h as int);
            assert(y * self.w <= y * self.w + x);
        }
        (y * self.w + x) as usize
    }

    /// The width and the height of the board.
    pub fn dims(&self) -> (d: (isize, isize))
        ensures
            d.0 == self@.width,
            d.1 == self@.height,
    {
        (self.w, self.h)
    }

    /// The score.
    pub fn get_score(&self) -> (score: isize)
        ensures
            score == self@.score,
    {
        self.score
    }

    /// Whether the game is over.
    pub fn is_game_over(&self) -> (over: bool)
        ensures
            over == self@.game_over,
    {
        self.game_over
    }

    /// The locked cell at `(x, y)`; empty outside the board.
    pub fn get(&self, x: isize, y: isize) -> (c: Colour)
        requires
            self.board_wf(),
        ensures
            c == self@.get(x as int, y as int),
    {
        if x < 0 || x >= self.w || y < 0 || y >= self.h {
            Colour::Empty
        } else {
            let index: usize = self.index_of(x, y);
            self.board[index]
        }
    }

    /// What is to be drawn at `(x, y)`: the colour of the active piece where
    /// it covers the cell, the locked cell elsewhere, nothing outside the
    /// board.
    pub fn display_get(&self, x: isize, y: isize) -> (c: Colour)
        requires
            self.wf(),
        ensures
            c == self@.display_get(x as int, y as int),
    {
        if x < 0 || x >= self.w || y < 0 || y >= self.h {
            Colour::Empty
        } else {
            proof {
                lemma_piece_position(self@);
                self.lemma_small_sides();
            }
            if self.block.get(x - self.x, y - self.y) {
                self.block.colour()
            } else {
                let index: usize = self.index_of(x, y);
                self.board[index]
            }
        }
    }

    /// Whether a block is locked at `(x, y)`.
    pub fn filled(&self, x: isize, y: isize) -> (f: bool)
        requires
            self.board_wf(),
        ensures
            f == self@.filled(x as int, y as int),
    {
        match self.get(x, y) {
            Colour::Empty => false,
            _ => true,
        }
    }

    /// Writes `colour` to the cell `(x, y)`. Nothing is written outside the
    /// board, nor once the game is over.
    pub fn set(&mut self, x: isize, y: isize, colour: Colour)
        requires
            old(self).wf(),
        ensures
            final(self).wf(),
            final(self)@ == old(self)@.with_cell(x as int, y as int, colour),
    {
        if self.game_over || x < 0 || x >= self.w || y < 0 || y >= self.h {
            return;
        }
        let index: usize = self.index_of(x, y);
        self.board[index] = colour;
        proof {
            let w = self.w as int;
            let before = old(self)@;
            let after = before.with_cell(x as int, y as int, colour);
            assert forall|r: int, c: int| 0 <= r < self.h && 0 <= c < w implies self@.rows[r][c]
                == after.rows[r][c] by {
                lemma_index(c, r, w, self.h as int);
                if r != y || c != x {
                    lemma_index_distinct(c, r, x as int, y as int, w);
                }
            }
            assert(self@.rows =~~= after.rows);
            assert(self@.out_of_bounds_at(self@.piece_x, self@.piece_y)
                == before.out_of_bounds_at(before.piece_x, before.piece_y));
        }
    }

    /// Whether the active piece, placed at `(x, y)`, would have a cell
    /// outside the board. Any `x` and `y` may be asked for.
    pub fn out_of_bounds(&self, x: isize, y: isize) -> (out: bool)
        requires
            self.board_wf(),
        ensures
            out == self@.out_of_bounds_at(x as int, y as int),
    {
        let (bw, bh) = self.block.dims();
        let mut by: isize = 0;
        while by < bh
            invariant
                self.board_wf(),
                bw == self@.piece.w,
                bh == self@.piece.h,
                0 <= by <= bh,
                forall|cx: int, cy: int|
                    cy < by ==> !(#[trigger] self@.piece.cell(cx, cy) && !self@.in_range(
                        x + cx,
                        y + cy,
                    )),
            decreases bh - by,
        {
            let mut bx: isize = 0;
            while bx < bw
                invariant
                    self.board_wf(),
                    bw == self@.piece.w,
                    bh == self@.piece.h,
                    0 <= by < bh,
                    0 <= bx <= bw,
                    forall|cx: int, cy: int|
                        (cy < by || (cy == by && cx < bx)) ==> !(#[trigger] self@.piece.cell(cx, cy)
                            && !self@.in_range(x + cx, y + cy)),
                decreases bw - bx,
            {
                if self.block.get(bx, by) {
                    let inside: bool = match (x.checked_add(bx), y.checked_add(by)) {
                        (Some(cx), Some(cy)) => 0 <= cx && cx < self.w && 0 <= cy && cy < self.h,
                        _ => false,
                    };
                    if !inside {
                        assert(self@.piece.cell(bx as int, by as int));
                        return true;
                    }
                }
                bx += 1;
            }
            by += 1;
        }
        false
    }

    /// Whether the active piece, placed at `(x, y)`, would cover a locked
    /// block. Any `x` and `y` may be asked for.
    pub fn collision(&self, x: isize, y: isize) -> (hit: bool)
        requires
            self.board_wf(),
        ensures
            hit == self@.collision_at(x as int, y as int),
    {
        let (bw, bh) = self.block.dims();
        let mut by: isize = 0;
        while by < bh
            invariant
                self.board_wf(),
                bw == self@.piece.w,
                bh == self@.piece.h,
                0 <= by <= bh,
                forall|cx: int, cy: int|
                    cy < by ==> !(#[trigger] self@.piece.cell(cx, cy) && self@.filled(
                        x + cx,
                        y + cy,
                    )),
            decreases bh - by,
        {
            let mut bx: isize = 0;
            while bx < bw
                invariant
                    self.board_wf(),
                    bw == self@.piece.w,
                    bh == self@.piece.h,
                    0 <= by < bh,
                    0 <= bx <= bw,
                    forall|cx: int, cy: int|
                        (cy < by || (cy == by && cx < bx)) ==> !(#[trigger] self@.piece.cell(cx, cy)
                            && self@.filled(x + cx, y + cy)),
                decreases bw - bx,
            {
                if self.block.get(bx, by) {
                    let locked: bool = match (x.checked_add(bx), y.checked_add(by)) {
                        (Some(cx), Some(cy)) => self.filled(cx, cy),
                        _ => false,
                    };
                    if locked {
                        assert(self@.piece.cell(bx as int, by as int));
                        return true;
                    }
                }
                bx += 1;
            }
            by += 1;
        }
        false
    }

    /// The reading of the game's clock, in nanoseconds.
    pub(crate) fn now(&self) -> (now: u128) {
        nanos_since(&self.clock)
    }

    /// Tries to move the active piece `dx` columns sideways, and says
    /// whether it moved. It stays where it is if it would leave the board
    /// or cover a locked block there, or if the game is over.
    pub fn slide(&mut self, dx: isize) -> (moved: bool)
        requires
            old(self).wf(),
        ensures
            final(self).wf(),
            moved == old(self)@.can_slide(dx as int),
            final(self)@ == old(self)@.slid(dx as int),
            old(self)@.settled() ==> final(self)@.settled(),
    {
        proof {
            if self@.settled() {
                lemma_slid_settled(self@, dx as int);
            }
        }
        if self.game_over {
            return false;
        }
        match self.x.checked_add(dx) {
            None => {
                proof {
                    if !self@.out_of_bounds_at(self.x + dx, self.y as int) {
                        lemma_on_board_position(self@, self.x + dx, self.y as int);
                    }
                }
                false
            },
            Some(x) => {
                if self.collision(x, self.y) || self.out_of_bounds(x, self.y) {
                    return false;
                }
                self.x = x;
                proof {
                    assert(self@.out_of_bounds_at(x as int, self.y as int) == old(
                        self,
                    )@.out_of_bounds_at(x as int, self.y as int));
                }
                true
            },
        }
    }

    /// Tries, when the clock reads `now`, to move the active piece one row
    /// down, and says whether it moved. It stays where it is if it would
    /// leave the board or cover a locked block there, or if the game is
    /// over. A move resets the fall timer.
    pub fn down_at(&mut self, now: u128) -> (moved: bool)
        requires
            old(self).wf(),
        ensures
            final(self).wf(),
            moved == old(self)@.can_fall(),
            final(self)@ == old(self)@.lowered(now as int),
            old(self)@.settled() ==> final(self)@.settled(),
    {
        proof {
            if self@.settled() {
                lemma_lowered_settled(self@, now as int);
            }
        }
        if self.game_over {
            return false;
        }
        proof {
            lemma_piece_position(self@);
        }
        if self.collision(self.x, self.y + 1) || self.out_of_bounds(self.x, self.y + 1) {
            return false;
        }
        self.last_fall = now;
        self.y += 1;
        proof {
            assert(self@.out_of_bounds_at(self.x as int, self.y as int) == old(
                self,
            )@.out_of_bounds_at(self.x as int, self.y as int));
        }
        true
    }

    /// Tries to move the active piece one row down, and says whether it
    /// moved. A move resets the fall timer to what the clock reads.
    pub fn down(&mut self) -> (moved: bool)
        requires
            old(self).wf(),
        ensures
            final(self).wf(),
            moved == old(self)@.can_fall(),
            final(self)@ == old(self)@.lowered(final(self)@.last_fall),
            old(self)@.settled() ==> final(self)@.settled(),
    {
        let now: u128 = self.now();
        self.down_at(now)
    }

    /// Moves the active piece down, when the clock reads `now`, until it
    /// would leave the board or cover a locked block. The piece is not
    /// merged. Nothing changes once the game is over.
    pub fn drop_at(&mut self, now: u128)
        requires
            old(self).wf(),
        ensures
            final(self).wf(),
            final(self)@ == old(self)@.dropped(now as int),
            final(self)@.piece_y >= old(self)@.piece_y,
            !final(self)@.can_fall(),
            old(self)@.settled() ==> final(self)@.settled(),
    {
        proof {
            lemma_dropped_wf(self@, now as int);
            if self@.settled() {
                lemma_dropped_settled(self@, now as int);
            }
        }
        if self.game_over {
            return;
        }
        let ghost start = self@;
        loop
            invariant
                self.wf(),
                !self.game_over,
                start.piece_y <= self.y,
                start.landing_row(start.piece_y) == start.landing_row(self.y as int),
                self@ == (GameView {
                    piece_y: self.y as int,
                    last_fall: if self.y > start.piece_y {
                        now as int
                    } else {
                        start.last_fall
                    },
                    ..start
                }),
            ensures
                self.wf(),
                self@ == start.dropped(now as int),
            decreases self.h - self.y,
        {
            proof {
                lemma_piece_position(self@);
                assert(start.fits_at(self.x as int, self.y + 1) == self@.fits_at(
                    self.x as int,
                    self.y + 1,
                ));
            }
            if !self.down_at(now) {
                break;
            }
        }
    }

    /// Moves the active piece down until it would leave the board or cover a
    /// locked block. The piece is not merged. If it moved, the fall timer is
    /// reset to what the clock reads.
    pub fn drop(&mut self)
        requires
            old(self).wf(),
        ensures
            final(self).wf(),
            final(self)@ == old(self)@.dropped(final(self)@.last_fall),
            final(self)@.piece_y >= old(self)@.piece_y,
            !final(self)@.can_fall(),
            old(self)@.settled() ==> final(self)@.settled(),
    {
        let now: u128 = self.now();
        self.drop_at(now)
    }

    /// Turns the active piece clockwise where it stands, and says whether
    /// it was turned. The turn is undone if the turned piece would leave the
    /// board or cover a locked block; nothing is tried once the game is
    /// over.
    pub fn rotate_clockwise(&mut self) -> (turned: bool)
        requires
            old(self).wf(),
        ensures
            final(self).wf(),
            turned == old(self)@.can_rotate_clockwise(),
            final(self)@ == old(self)@.rotated_clockwise(),
            old(self)@.settled() ==> final(self)@.settled(),
    {
        if self.game_over {
            return false;
        }
        let ghost before = self@;
        self.block.rotate_clockwise();
        if self.collision(self.x, self.y) || self.out_of_bounds(self.x, self.y) {
            self.block.rotate_anticlockwise();
            assert(self@ == before) by {
                lemma_clockwise_then_anticlockwise(before.piece);
            }
            return false;
        }
        assert(self@.piece.is_tetromino()) by {
            lemma_rotation_keeps_tetromino(before.piece);
        }
        true
    }

    /// Turns the active piece anticlockwise where it stands, and says
    /// whether it was turned. The turn is undone if the turned piece would
    /// leave the board or cover a locked block; nothing is tried once the
    /// game is over.
    pub fn rotate_anticlockwise(&mut self) -> (turned: bool)
        requires
            old(self).wf(),
        ensures
            final(self).wf(),
            turned == old(self)@.can_rotate_anticlockwise(),
            final(self)@ == old(self)@.rotated_anticlockwise(),
            old(self)@.settled() ==> final(self)@.settled(),
    {
        if self.game_over {
            return false;
        }
        let ghost before = self@;
        self.block.rotate_anticlockwise();
        if self.collision(self.x, self.y) || self.out_of_bounds(self.x, self.y) {
            self.block.rotate_clockwise();
            assert(self@ == before) by {
                lemma_anticlockwise_then_clockwise(before.piece);
            }
            return false;
        }
        assert(self@.piece.is_tetromino()) by {
            lemma_rotation_keeps_tetromino(before.piece);
        }
        true
    }

    /// Whether row `y` is a row of the board with a block in every column.
    pub fn is_full_line(&self, y: isize) -> (full: bool)
        requires
            self.board_wf(),
        ensures
            full == self@.row_full(y as int),
    {
        let mut x: isize = 0;
        while x < self.w
            invariant
                self.board_wf(),
                0 <= x <= self.w,
                forall|c: int| 0 <= c < x ==> #[trigger] self@.filled(c, y as int),
            decreases self.w - x,
        {
            if !self.filled(x, y) {
                return false;
            }
            x += 1;
        }
        assert(self@.filled(0, y as int));
        true
    }

    /// Takes row `y` out of the board: column by column, every cell from row
    /// `y` up to row 1 takes the value of the cell above it, and the cell in
    /// row 0 becomes empty. Nothing changes for a `y` outside the board, nor
    /// once the game is over.
    pub fn move_lines_down(&mut self, y: isize)
        requires
            old(self).wf(),
        ensures
            final(self).wf(),
            final(self)@ == old(self)@.clear_row(y as int),
    {
        if self.game_over || y < 0 || y >= self.h {
            return;
        }
        let ghost before = self@;
        let ghost after = before.clear_row(y as int);
        let mut x: isize = 0;
        while x < self.w
            invariant
                self.wf(),
                before.wf(),
                !self.game_over,
                0 <= y < self.h,
                0 <= x <= self.w,
                after == before.clear_row(y as int),
                self@ == (GameView { rows: self@.rows, ..before }),
                forall|r: int, c: int|
                    0 <= r < self.h && 0 <= c < self.w ==> #[trigger] self@.rows[r][c] == (if c
                        < x {
                        after.rows[r][c]
                    } else {
                        before.rows[r][c]
                    }),
            decreases self.w - x,
        {
            let mut r: isize = y;
            while r > 0
                invariant
                    self.wf(),
                    before.wf(),
                    !self.game_over,
                    0 <= y < self.h,
                    0 <= x < self.w,
                    0 <= r <= y,
                    after == before.clear_row(y as int),
                    self@ == (GameView { rows: self@.rows, ..before }),
                    forall|rr: int, c: int|
                        0 <= rr < self.h && 0 <= c < self.w ==> #[trigger] self@.rows[rr][c] == (
                        if c < x || (c == x && r < rr <= y) {
                            after.rows[rr][c]
                        } else {
                            before.rows[rr][c]
                        }),
                decreases r,
            {
                let above: Colour = self.get(x, r - 1);
                self.set(x, r, above);
                r -= 1;
            }
            self.set(x, 0, Colour::Empty);
            x += 1;
        }
        proof {
            assert(self@.rows =~~= after.rows);
        }
    }

    /// Looks at the rows that the box of the active piece spans, from the
    /// top down, takes each one that is full out of the board at once, and
    /// returns how many it took out. Nothing changes once the game is over.
    pub fn remove_lines(&mut self) -> (count: isize)
        requires
            old(self).wf(),
        ensures
            final(self).wf(),
            count == old(self)@.swept_lines(),
            final(self)@ == old(self)@.swept(),
            0 <= count <= 4,
    {
        if self.game_over {
            return 0;
        }
        let ghost before = self@;
        let ghost top = self.y as int;
        let (_, bh) = self.block.dims();
        let mut count: isize = 0;
        let mut by: isize = 0;
        while by < bh
            invariant
                self.wf(),
                !self.game_over,
                self@.piece_y == top,
                bh == self@.piece.h,
                0 <= by <= bh,
                0 <= count <= by,
                self@.sweep(top + by, top + bh) == before.sweep(top, top + bh),
                count + self@.sweep_count(top + by, top + bh) == before.sweep_count(top, top + bh),
            decreases bh - by,
        {
            proof {
                lemma_piece_position(self@);
                self.lemma_small_sides();
            }
            let y: isize = by + self.y;
            if self.is_full_line(y) {
                self.move_lines_down(y);
                count += 1;
            }
            by += 1;
        }
        count
    }

    /// Locks the active piece: writes each cell that it covers to the board
    /// in its colour, sweeps the rows that its box spans, adds the bonus for
    /// the rows that were cleared to the score, and returns how many were
    /// cleared. Nothing changes once the game is over.
    pub fn merge(&mut self) -> (lines: isize)
        requires
            old(self).wf(),
            old(self)@.score + 16 <= isize::MAX,
        ensures
            final(self).wf(),
            lines == old(self)@.merged_lines(),
            final(self)@ == old(self)@.merged(),
            final(self)@.score == old(self)@.score + line_bonus(lines as int),
            0 <= lines <= 4,
    {
        if self.game_over {
            return 0;
        }
        let ghost before = self@;
        let ghost after = before.stamped();
        let (bw, bh) = self.block.dims();
        proof {
            lemma_piece_position(self@);
            self.lemma_small_sides();
        }
        let mut by: isize = 0;
        while by < bh
            invariant
                self.wf(),
                before.wf(),
                !self.game_over,
                -4 < self.x < self.w,
                -4 < self.y < self.h,
                self.w * 4 <= isize::MAX,
                self.h * 4 <= isize::MAX,
                bw == before.piece.w,
                bh == before.piece.h,
                0 <= by <= bh,
                self@ == (GameView { rows: self@.rows, ..before }),
                forall|r: int, c: int|
                    0 <= r < self.h && 0 <= c < self.w ==> #[trigger] self@.rows[r][c] == (
                    if before.piece.cell(c - self.x, r - self.y) && r - self.y < by {
                        before.piece.colour
                    } else {
                        before.rows[r][c]
                    }),
            decreases bh - by,
        {
            let mut bx: isize = 0;
            while bx < bw
                invariant
                    self.wf(),
                    before.wf(),
                    !self.game_over,
                    -4 < self.x < self.w,
                    -4 < self.y < self.h,
                    self.w * 4 <= isize::MAX,
                    self.h * 4 <= isize::MAX,
                    bw == before.piece.w,
                    bh == before.piece.h,
                    0 <= by < bh,
                    0 <= bx <= bw,
                    self@ == (GameView { rows: self@.rows, ..before }),
                    forall|r: int, c: int|
                        0 <= r < self.h && 0 <= c < self.w ==> #[trigger] self@.rows[r][c] == (
                        if before.piece.cell(c - self.x, r - self.y) && (r - self.y < by || (r
                            - self.y == by && c - self.x < bx)) {
                            before.piece.colour
                        } else {
                            before.rows[r][c]
                        }),
                decreases bw - bx,
            {
                if self.block.get(bx, by) {
                    let colour: Colour = self.block.colour();
                    self.set(self.x + bx, self.y + by, colour);
                }
                bx += 1;
            }
            by += 1;
        }
        proof {
            assert(self@.rows =~~= after.rows);
            assert(self@ == after);
        }
        let count: isize = self.remove_lines();
        proof {
            lemma_sweep_frame(after, after.piece_y, after.piece_y + after.piece.h);
        }
        if count > 0 {
            proof {
                lemma2_to64();
                assert(1isize << 1isize == 2 && 1isize << 2isize == 4 && 1isize << 3isize == 8
                    && 1isize << 4isize == 16) by (bit_vector);
            }
            let bonus: isize = 1 << count;
            assert(bonus == line_bonus(count as int));
            self.score += bonus;
        }
        count
    }

    /// Makes the canonical shape `draw % 7` the active piece, centred at the
    /// top, resets the fall timer to `now`, and ends the game if the piece
    /// covers a locked block.
    fn place(&mut self, draw: usize, now: u128)
        requires
            old(self).board_wf(),
            old(self)@.score >= 0,
            !old(self)@.game_over,
        ensures
            final(self).wf(),
            final(self)@ == old(self)@.spawned(draw as int, now as int),
            final(self)@.settled(),
    {
        proof {
            lemma_spawned_settled(self@, draw as int, now as int);
        }
        let (dx, dy) = self.block.setup_block(draw);
        proof {
            self.lemma_small_sides();
        }
        self.x = self.w / 2 + dx;
        self.y = dy;
        self.last_fall = now;
        proof {
            lemma_spawn_on_board(self@, draw as int % 7);
        }
        if self.collision(self.x, self.y) {
            self.game_over = true;
        }
    }

    /// Replaces the active piece, when the clock reads `now`, by the
    /// canonical shape `draw % 7`, centred at the top, and resets the fall
    /// timer. The game is over if the new piece covers a locked block.
    /// Nothing changes once the game is over.
    pub fn spawn(&mut self, draw: usize, now: u128)
        requires
            old(self).wf(),
        ensures
            final(self).wf(),
            final(self)@ == old(self)@.spawned(draw as int, now as int),
            final(self)@.settled(),
    {
        if self.game_over {
            return;
        }
        self.place(draw, now);
    }

    /// Replaces the active piece by one of the seven canonical shapes, drawn
    /// at random, centred at the top, and resets the fall timer to what the
    /// clock reads. The game is over if the new piece covers a locked block.
    /// Nothing changes once the game is over.
    pub fn random(&mut self)
        requires
            old(self).wf(),
        ensures
            final(self).wf(),
            final(self)@.settled(),
            exists|draw: int|
                0 <= draw && final(self)@ == old(self)@.spawned(draw, final(self)@.last_fall),
    {
        let now: u128 = self.now();
        let n: usize = draw();
        self.spawn(n, now);
        assert(self@ == old(self)@.spawned(n as int, self@.last_fall));
    }

    /// Starts the game anew when the clock reads `now`: clears the board and
    /// the score, and makes the canonical shape `draw % 7` the active piece.
    pub fn restart(&mut self, draw: usize, now: u128)
        requires
            old(self).board_wf(),
        ensures
            final(self).wf(),
            final(self)@ == old(self)@.restarted(draw as int, now as int),
            final(self)@.piece_fits(),
    {
        let n: usize = self.board.len();
        let mut i: usize = 0;
        while i < n
            invariant
                self.board_wf(),
                self@.width == old(self)@.width,
                self@.height == old(self)@.height,
                n == self.board@.len(),
                i <= n,
                forall|j: int| 0 <= j < i ==> self.board@[j] == Colour::Empty,
            decreases n - i,
        {
            self.board[i] = Colour::Empty;
            i += 1;
        }
        self.score = 0;
        self.game_over = false;
        proof {
            let blank = Seq::new(self.h as nat, |r: int| empty_row(self.w as int));
            assert forall|r: int, c: int| 0 <= r < self.h && 0 <= c < self.w implies (
            #[trigger] self@.rows[r][c]) == Colour::Empty by {
                lemma_index(c, r, self.w as int, self.h as int);
            }
            assert(self@.rows =~~= blank);
            lemma_empty_board_is_free(
                self@.spawned(draw as int, now as int),
                self@.spawned(draw as int, now as int).piece_x,
                self@.spawned(draw as int, now as int).piece_y,
            );
        }
        self.place(draw, now);
    }

    /// Starts the game anew: clears the board and the score, and makes one
    /// of the seven canonical shapes, drawn at random, the active piece.
    pub fn new_game(&mut self)
        requires
            old(self).board_wf(),
        ensures
            final(self).wf(),
            final(self)@.piece_fits(),
            exists|draw: int|
                0 <= draw && final(self)@ == old(self)@.restarted(draw, final(self)@.last_fall),
    {
        let now: u128 = self.now();
        let n: usize = draw();
        self.restart(n, now);
        assert(self@ == old(self)@.restarted(n as int, self@.last_fall));
    }

    /// A new game on a board of `w` by `h` cells, with the canonical shape
    /// `draw % 7` as the active piece and the fall timer at `now`. A board
    /// with a side under 4 is refused.
    pub fn start(w: isize, h: isize, draw: usize, now: u128) -> (made: Result<Game, String>)
        requires
            w >= 4 && h >= 4 ==> w * h <= isize::MAX,
        ensures
            made is Err <==> w < 4 || h < 4,
            made matches Err(e) ==> e@ == "too small"@,
            made matches Ok(g) ==> g.wf() && g@.piece_fits() && g@ == GameView::initial(
                w as int,
                h as int,
                draw as int,
                now as int,
            ),
    {
        if w < 4 || h < 4 {
            Err("too small".to_owned())
        } else {
            let mut board: Vec<Colour> = Vec::new();
            board.resize((w * h) as usize, Colour::Empty);
            let mut g = Game {
                x: 0,
                y: 0,
                block: Block::new(),
                w,
                h,
                board,
                score: 0,
                clock: Instant::now(),
                last_fall: 0,
                game_over: false,
            };
            g.restart(draw, now);
            Ok(g)
        }
    }

    /// A new game on a board of `w` by `h` cells, with one of the seven
    /// canonical shapes, drawn at random, as the active piece, and the fall
    /// timer at the start of the game's clock. A board with a side under 4
    /// is refused.
    pub fn new(w: isize, h: isize) -> (made: Result<Game, String>)
        requires
            w >= 4 && h >= 4 ==> w * h <= isize::MAX,
        ensures
            made is Err <==> w < 4 || h < 4,
            made matches Err(e) ==> e@ == "too small"@,
            made matches Ok(g) ==> g.wf() && g@.piece_fits() && exists|draw: int|
                0 <= draw && g@ == GameView::initial(w as int, h as int, draw, 0),
    {
        if w < 4 || h < 4 {
            Err("too small".to_owned())
        } else {
            let n: usize = draw();
            let made = Game::start(w, h, n, 0);
            assert(made matches Ok(g) && g@ == GameView::initial(w as int, h as int, n as int, 0));
            made
        }
    }

    /// Whether the fall interval has passed when the clock reads `now`.
    pub fn fall_due(&self, now: u128) -> (due: bool)
        ensures
            due == self@.fall_due(now as int),
    {
        let elapsed: u128 = if now >= self.last_fall {
            now - self.last_fall
        } else {
            0
        };
        elapsed >= FALL_INTERVAL_NANOS
    }

    /// Lets gravity act when the clock reads `now`, and says whether the
    /// fall interval had passed. Before it has, nothing changes. After it,
    /// the active piece moves down one row, or, where it cannot, is merged
    /// and followed by the canonical shape `draw % 7`.
    pub fn tick_at(&mut self, now: u128, draw: usize) -> (changed: bool)
        requires
            old(self).wf(),
            old(self)@.score + 16 <= isize::MAX,
        ensures
            final(self).wf(),
            changed == old(self)@.fall_due(now as int),
            final(self)@ == old(self)@.ticked(now as int, draw as int),
            old(self)@.settled() ==> final(self)@.settled(),
    {
        if !self.fall_due(now) {
            return false;
        }
        if !self.down_at(now) {
            self.merge();
            self.spawn(draw, now);
        }
        true
    }

    /// Lets gravity act, and says whether the fall interval had passed.
    /// Before it has, nothing changes. After it, the active piece moves down
    /// one row, or, where it cannot, is merged and followed by one of the
    /// seven canonical shapes, drawn at random.
    pub fn tick(&mut self) -> (changed: bool)
        requires
            old(self).wf(),
            old(self)@.score + 16 <= isize::MAX,
        ensures
            final(self).wf(),
            old(self)@.settled() ==> final(self)@.settled(),
            exists|now: int, draw: int|
                0 <= now && 0 <= draw && changed == old(self)@.fall_due(now) && final(self)@
                    == old(self)@.ticked(now, draw),
    {
        let now: u128 = self.now();
        if !self.fall_due(now) {
            assert(!old(self)@.fall_due(now as int) && self@ == old(self)@.ticked(now as int, 0));
            return false;
        }
        if !self.down_at(now) {
            self.merge();
            let n: usize = draw();
            self.spawn(n, now);
            assert(self@ == old(self)@.ticked(now as int, n as int));
        } else {
            assert(self@ == old(self)@.ticked(now as int, 0));
        }
        true
    }
}

} // verus!
