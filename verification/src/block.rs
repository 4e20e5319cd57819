//! One tetromino: an occupancy mask over a box of at most 4 by 4 cells, a
//! colour, and the two quarter-turn rotations.

use crate::bits::{bit_at, grid_of, lemma_bit_set, lemma_bit_test, lemma_bit_zero};
use crate::chance::draw;
use crate::colour::Colour;
use crate::shapes::lemma_canonical_is_tetromino;
use vstd::prelude::*;

verus! {

/// The side of the logical grid that an occupancy mask is laid out on.
pub const BLOCK_SPAN: isize = 4;

/// How many canonical shapes there are.
pub const BLOCK_TYPE_COUNT: usize = 7;

/// A piece: bit `y * 4 + x` of `value` says whether the cell `(x, y)` of the
/// box of `w` by `h` cells is occupied.
pub struct Block {
    value: u16,
    w: isize,
    h: isize,
    colour: Colour,
}

/// The mathematical model of a piece: a grid of sixteen booleans laid out
/// row by row on four columns, the size of the box, and the colour.
pub struct BlockView {
    pub grid: Seq<bool>,
    pub w: int,
    pub h: int,
    pub colour: Colour,
}

impl BlockView {
    /// The grid has sixteen entries and the box fits in it.
    pub open spec fn wf(self) -> bool {
        &&& self.grid.len() == 16
        &&& 0 <= self.w <= 4
        &&& 0 <= self.h <= 4
    }

    /// Whether the cell `(x, y)` is occupied. Nothing is occupied outside
    /// the box.
    pub open spec fn cell(self, x: int, y: int) -> bool {
        0 <= x < self.w && 0 <= y < self.h && self.grid[y * 4 + x]
    }

    /// No entry of the grid is set outside the box.
    pub open spec fn confined(self) -> bool {
        forall|i: int| 0 <= i < 16 && #[trigger] self.grid[i] ==> i % 4 < self.w && i / 4 < self.h
    }

    /// The piece with no cell, no box and no colour.
    pub open spec fn empty() -> BlockView {
        BlockView { grid: Seq::new(16, |i: int| false), w: 0, h: 0, colour: Colour::Empty }
    }

    /// The piece that a mask, a box and a colour describe.
    pub open spec fn of_mask(value: u16, w: int, h: int, colour: Colour) -> BlockView {
        BlockView { grid: grid_of(value), w, h, colour }
    }

    /// Where a freshly set up piece is placed relative to the middle of the
    /// board: half its width to the left, at the top.
    pub open spec fn spawn_offset(self) -> (int, int) {
        (-(self.w / 2), 0)
    }

    /// A quarter turn clockwise: the cell `(x, y)` goes to `(h - 1 - y, x)`
    /// and the box is turned with it.
    pub open spec fn rotate_clockwise(self) -> BlockView {
        BlockView {
            grid: Seq::new(16, |i: int| self.cell(i / 4, self.h - 1 - i % 4)),
            w: self.h,
            h: self.w,
            colour: self.colour,
        }
    }

    /// A quarter turn anticlockwise: the cell `(x, y)` goes to
    /// `(y, w - 1 - x)` and the box is turned with it.
    pub open spec fn rotate_anticlockwise(self) -> BlockView {
        BlockView {
            grid: Seq::new(16, |i: int| self.cell(self.w - 1 - i / 4, i % 4)),
            w: self.h,
            h: self.w,
            colour: self.colour,
        }
    }

    /// One if the cell `(x, y)` is occupied, zero if not.
    pub open spec fn count_at(self, x: int, y: int) -> int {
        if self.cell(x, y) {
            1
        } else {
            0
        }
    }

    /// How many cells of row `y` are occupied.
    pub open spec fn row_count(self, y: int) -> int {
        self.count_at(0, y) + self.count_at(1, y) + self.count_at(2, y) + self.count_at(3, y)
    }

    /// How many cells are occupied.
    pub open spec fn cell_count(self) -> int {
        self.row_count(0) + self.row_count(1) + self.row_count(2) + self.row_count(3)
    }

    /// A piece of exactly four cells, all of them inside its box.
    pub open spec fn is_tetromino(self) -> bool {
        &&& self.wf()
        &&& self.confined()
        &&& self.cell_count() == 4
    }

    /// The occupancy mask of the canonical shape `shape`, for `shape` in
    /// `0..7`: T, two L shapes, the square, two Z shapes and the bar.
    pub open spec fn canonical_mask(shape: int) -> u16 {
        if shape == 0 {
            0x0072
        } else if shape == 1 {
            0x0017
        } else if shape == 2 {
            0x0047
        } else if shape == 3 {
            0x0033
        } else if shape == 4 {
            0x0063
        } else if shape == 5 {
            0x0036
        } else {
            0x000f
        }
    }

    /// The width of the box of the canonical shape `shape`.
    pub open spec fn canonical_width(shape: int) -> int {
        if shape == 3 {
            2
        } else if shape == 6 {
            4
        } else {
            3
        }
    }

    /// The height of the box of the canonical shape `shape`.
    pub open spec fn canonical_height(shape: int) -> int {
        if shape == 6 {
            1
        } else {
            2
        }
    }

    /// The canonical shape `shape`, for `shape` in `0..7`, in the colour of
    /// its own index.
    pub open spec fn canonical(shape: int) -> BlockView {
        BlockView::of_mask(
            Self::canonical_mask(shape),
            Self::canonical_width(shape),
            Self::canonical_height(shape),
            Colour::Value(shape as usize),
        )
    }
}

impl View for Block {
    type V = BlockView;

    closed spec fn view(&self) -> BlockView {
        BlockView { grid: grid_of(self.value), w: self.w as int, h: self.h as int, colour: self.colour }
    }
}

impl Block {
    /// The box is at most 4 by 4.
    pub open spec fn wf(&self) -> bool {
        self@.wf()
    }

    /// A piece without cells.
    pub fn new() -> (b: Block)
        ensures
            b.wf(),
            b@ == BlockView::empty(),
    {
        let b = Block { value: 0x0000, w: 0, h: 0, colour: Colour::Empty };
        proof {
            assert forall|i: int| 0 <= i < 16 implies !bit_at(0u16, i) by {
                lemma_bit_zero(i);
            }
            assert(b@.grid =~= BlockView::empty().grid);
        }
        b
    }

    /// Makes this the piece that `value`, the box and `colour` describe, and
    /// returns where to place it relative to the middle of the board.
    pub fn setup(&mut self, value: u16, w: isize, h: isize, colour: Colour) -> (offset: (
        isize,
        isize,
    ))
        requires
            0 <= w <= 4,
            0 <= h <= 4,
        ensures
            final(self).wf(),
            final(self)@ == BlockView::of_mask(value, w as int, h as int, colour),
            offset.0 == final(self)@.spawn_offset().0,
            offset.1 == final(self)@.spawn_offset().1,
    {
        self.value = value;
        self.w = w;
        self.h = h;
        self.colour = colour;
        (-(w / 2), 0)
    }

    /// Makes this the canonical shape `block_type % 7` and returns where to
    /// place it relative to the middle of the board.
    pub fn setup_block(&mut self, block_type: usize) -> (offset: (isize, isize))
        ensures
            final(self).wf(),
            final(self)@ == BlockView::canonical(block_type as int % 7),
            final(self)@.is_tetromino(),
            offset.0 == final(self)@.spawn_offset().0,
            offset.1 == final(self)@.spawn_offset().1,
    {
        let block_type: usize = block_type % BLOCK_TYPE_COUNT;
        proof {
            lemma_canonical_is_tetromino(block_type as int);
        }
        match block_type {
            0 => self.setup(0x0072, 3, 2, Colour::Value(block_type)),
            1 => self.setup(0x0017, 3, 2, Colour::Value(block_type)),
            2 => self.setup(0x0047, 3, 2, Colour::Value(block_type)),
            3 => self.setup(0x0033, 2, 2, Colour::Value(block_type)),
            4 => self.setup(0x0063, 3, 2, Colour::Value(block_type)),
            5 => self.setup(0x0036, 3, 2, Colour::Value(block_type)),
            _ => self.setup(0x000f, 4, 1, Colour::Value(block_type)),
        }
    }

    /// Makes this the first canonical shape, the T.
    pub fn test(&mut self) -> (offset: (isize, isize))
        ensures
            final(self).wf(),
            final(self)@ == BlockView::canonical(0),
            offset.0 == final(self)@.spawn_offset().0,
            offset.1 == final(self)@.spawn_offset().1,
    {
        self.setup_block(0)
    }

    /// Makes this one of the seven canonical shapes, drawn at random, and
    /// returns where to place it relative to the middle of the board.
    pub fn random(&mut self) -> (offset: (isize, isize))
        ensures
            final(self).wf(),
            exists|shape: int| 0 <= shape < 7 && final(self)@ == BlockView::canonical(shape),
            offset.0 == final(self)@.spawn_offset().0,
            offset.1 == final(self)@.spawn_offset().1,
    {
        let n: usize = draw();
        self.setup_block(n)
    }

    /// The occupancy mask: bit `y * 4 + x` stands for the cell `(x, y)`.
    pub fn value(&self) -> (value: u16)
        ensures
            grid_of(value) == self@.grid,
    {
        self.value
    }

    /// The colour of the piece.
    pub fn colour(&self) -> (c: Colour)
        ensures
            c == self@.colour,
    {
        self.colour
    }

    /// The width and the height of the box.
    pub fn dims(&self) -> (d: (isize, isize))
        ensures
            d.0 == self@.w,
            d.1 == self@.h,
    {
        (self.w, self.h)
    }

    /// Whether the cell `(x, y)` is occupied; `false` for any cell outside
    /// the box.
    pub fn get(&self, x: isize, y: isize) -> (occupied: bool)
        requires
            self.wf(),
        ensures
            occupied == self@.cell(x as int, y as int),
    {
        if x < 0 || x >= self.w || y < 0 || y >= self.h {
            false
        } else {
            let k: u16 = (y * BLOCK_SPAN + x) as u16;
            let m: u16 = 1u16 << k;
            proof {
                lemma_bit_test(self.value, k);
            }
            self.value & m == m
        }
    }

    /// Turns the piece a quarter turn clockwise within its box.
    pub fn rotate_clockwise(&mut self)
        requires
            old(self).wf(),
        ensures
            final(self).wf(),
            final(self)@ == old(self)@.rotate_clockwise(),
    {
        let ghost before = self@;
        let w: isize = self.w;
        let h: isize = self.h;
        let mut v: u16 = 0;
        proof {
            assert forall|i: int| 0 <= i < 16 implies !bit_at(0u16, i) by {
                lemma_bit_zero(i);
            }
        }
        let mut y: isize = 0;
        while y < h
            invariant
                self@ == before,
                before.wf(),
                w == before.w,
                h == before.h,
                0 <= y <= h,
                forall|i: int|
                    0 <= i < 16 ==> #[trigger] bit_at(v, i) == (before.cell(i / 4, h - 1 - i % 4)
                        && h - 1 - i % 4 < y),
            decreases h - y,
        {
            let mut x: isize = 0;
            while x < w
                invariant
                    self@ == before,
                    before.wf(),
                    w == before.w,
                    h == before.h,
                    0 <= y < h,
                    0 <= x <= w,
                    forall|i: int|
                        0 <= i < 16 ==> #[trigger] bit_at(v, i) == (before.cell(
                            i / 4,
                            h - 1 - i % 4,
                        ) && (h - 1 - i % 4 < y || (h - 1 - i % 4 == y && i / 4 < x))),
                decreases w - x,
            {
                let k: u16 = (y * BLOCK_SPAN + x) as u16;
                let m: u16 = 1u16 << k;
                proof {
                    lemma_bit_test(self.value, k);
                }
                if self.value & m == m {
                    let nx: isize = h - y - 1;
                    let ny: isize = x;
                    let nk: u16 = (ny * BLOCK_SPAN + nx) as u16;
                    let nm: u16 = 1u16 << nk;
                    proof {
                        assert forall|i: int| 0 <= i < 16 implies #[trigger] bit_at(v | nm, i) == (
                        before.cell(i / 4, h - 1 - i % 4) && (h - 1 - i % 4 < y || (h - 1 - i % 4
                            == y && i / 4 < x + 1))) by {
                            lemma_bit_set(v, nk, i);
                        }
                    }
                    v |= nm;
                }
                x += 1;
            }
            y += 1;
        }
        self.value = v;
        self.w = h;
        self.h = w;
        proof {
            assert(self@.grid =~= before.rotate_clockwise().grid);
        }
    }

    /// Turns the piece a quarter turn anticlockwise within its box.
    pub fn rotate_anticlockwise(&mut self)
        requires
            old(self).wf(),
        ensures
            final(self).wf(),
            final(self)@ == old(self)@.rotate_anticlockwise(),
    {
        let ghost before = self@;
        let w: isize = self.w;
        let h: isize = self.h;
        let mut v: u16 = 0;
        proof {
            assert forall|i: int| 0 <= i < 16 implies !bit_at(0u16, i) by {
                lemma_bit_zero(i);
            }
        }
        let mut y: isize = 0;
        while y < h
            invariant
                self@ == before,
                before.wf(),
                w == before.w,
                h == before.h,
                0 <= y <= h,
                forall|i: int|
                    0 <= i < 16 ==> #[trigger] bit_at(v, i) == (before.cell(w - 1 - i / 4, i % 4)
                        && i % 4 < y),
            decreases h - y,
        {
            let mut x: isize = 0;
            while x < w
                invariant
                    self@ == before,
                    before.wf(),
                    w == before.w,
                    h == before.h,
                    0 <= y < h,
                    0 <= x <= w,
                    forall|i: int|
                        0 <= i < 16 ==> #[trigger] bit_at(v, i) == (before.cell(
                            w - 1 - i / 4,
                            i % 4,
                        ) && (i % 4 < y || (i % 4 == y && w - 1 - i / 4 < x))),
                decreases w - x,
            {
                let k: u16 = (y * BLOCK_SPAN + x) as u16;
                let m: u16 = 1u16 << k;
                proof {
                    lemma_bit_test(self.value, k);
                }
                if self.value & m == m {
                    let nx: isize = y;
                    let ny: isize = w - x - 1;
                    let nk: u16 = (ny * BLOCK_SPAN + nx) as u16;
                    let nm: u16 = 1u16 << nk;
                    proof {
                        assert forall|i: int| 0 <= i < 16 implies #[trigger] bit_at(v | nm, i) == (
                        before.cell(w - 1 - i / 4, i % 4) && (i % 4 < y || (i % 4 == y && w - 1 - i
                            / 4 < x + 1))) by {
                            lemma_bit_set(v, nk, i);
                        }
                    }
                    v |= nm;
                }
                x += 1;
            }
            y += 1;
        }
        self.value = v;
        self.w = h;
        self.h = w;
        proof {
            assert(self@.grid =~= before.rotate_anticlockwise().grid);
        }
    }
}

} // verus!
