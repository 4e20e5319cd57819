//! What holds of the two rotations: they undo each other, four quarter
//! turns make a full turn, and no cell is gained or lost.

use crate::block::BlockView;
use vstd::prelude::*;

verus! {

/// After a clockwise turn the cell `(x, y)` holds what `(y, h - 1 - x)` held,
/// and nothing is set outside the turned box.
pub proof fn lemma_rotate_clockwise_cells(b: BlockView)
    requires
        b.wf(),
    ensures
        b.rotate_clockwise().wf(),
        b.rotate_clockwise().confined(),
        forall|x: int, y: int| #[trigger]
            b.rotate_clockwise().cell(x, y) == b.cell(y, b.h - 1 - x),
{
    let r = b.rotate_clockwise();
    assert forall|x: int, y: int| #[trigger] r.cell(x, y) == b.cell(y, b.h - 1 - x) by {
        if 0 <= x < r.w && 0 <= y < r.h {
            let i = y * 4 + x;
            assert(i / 4 == y && i % 4 == x);
            assert(r.grid[i] == b.cell(i / 4, b.h - 1 - i % 4));
        }
    }
}

/// After an anticlockwise turn the cell `(x, y)` holds what
/// `(w - 1 - y, x)` held, and nothing is set outside the turned box.
pub proof fn lemma_rotate_anticlockwise_cells(b: BlockView)
    requires
        b.wf(),
    ensures
        b.rotate_anticlockwise().wf(),
        b.rotate_anticlockwise().confined(),
        forall|x: int, y: int| #[trigger]
            b.rotate_anticlockwise().cell(x, y) == b.cell(b.w - 1 - y, x),
{
    let r = b.rotate_anticlockwise();
    assert forall|x: int, y: int| #[trigger] r.cell(x, y) == b.cell(b.w - 1 - y, x) by {
        if 0 <= x < r.w && 0 <= y < r.h {
            let i = y * 4 + x;
            assert(i / 4 == y && i % 4 == x);
            assert(r.grid[i] == b.cell(b.w - 1 - i / 4, i % 4));
        }
    }
}

/// A clockwise turn takes what the cell `(x, y)` holds to `(h - 1 - y, x)`.
pub proof fn lemma_rotate_clockwise_moves(b: BlockView, x: int, y: int)
    requires
        b.wf(),
    ensures
        b.rotate_clockwise().cell(b.h - 1 - y, x) == b.cell(x, y),
{
    lemma_rotate_clockwise_cells(b);
}

/// An anticlockwise turn takes what the cell `(x, y)` holds to
/// `(y, w - 1 - x)`.
pub proof fn lemma_rotate_anticlockwise_moves(b: BlockView, x: int, y: int)
    requires
        b.wf(),
    ensures
        b.rotate_anticlockwise().cell(y, b.w - 1 - x) == b.cell(x, y),
{
    lemma_rotate_anticlockwise_cells(b);
}

/// Two pieces with the same box, colour and cells, neither with anything
/// set outside its box, are the same piece.
pub proof fn lemma_same_cells(a: BlockView, b: BlockView)
    requires
        a.wf(),
        b.wf(),
        a.confined(),
        b.confined(),
        a.w == b.w,
        a.h == b.h,
        a.colour == b.colour,
        forall|x: int, y: int| #[trigger] a.cell(x, y) == b.cell(x, y),
    ensures
        a == b,
{
    assert forall|i: int| 0 <= i < 16 implies a.grid[i] == b.grid[i] by {
        let x = i % 4;
        let y = i / 4;
        assert(y * 4 + x == i);
        assert(a.cell(x, y) == b.cell(x, y));
    }
    assert(a.grid =~= b.grid);
}

/// A clockwise turn followed by an anticlockwise turn restores the
/// occupancy and the box of a piece that has nothing set outside its box.
pub proof fn lemma_clockwise_then_anticlockwise(b: BlockView)
    requires
        b.wf(),
        b.confined(),
    ensures
        b.rotate_clockwise().rotate_anticlockwise() == b,
{
    let r = b.rotate_clockwise();
    lemma_rotate_clockwise_cells(b);
    lemma_rotate_anticlockwise_cells(r);
    let rr = r.rotate_anticlockwise();
    assert forall|x: int, y: int| #[trigger] rr.cell(x, y) == b.cell(x, y) by {
        assert(rr.cell(x, y) == r.cell(r.w - 1 - y, x));
    }
    lemma_same_cells(rr, b);
}

/// An anticlockwise turn followed by a clockwise turn restores the
/// occupancy and the box of a piece that has nothing set outside its box.
pub proof fn lemma_anticlockwise_then_clockwise(b: BlockView)
    requires
        b.wf(),
        b.confined(),
    ensures
        b.rotate_anticlockwise().rotate_clockwise() == b,
{
    let r = b.rotate_anticlockwise();
    lemma_rotate_anticlockwise_cells(b);
    lemma_rotate_clockwise_cells(r);
    let rr = r.rotate_clockwise();
    assert forall|x: int, y: int| #[trigger] rr.cell(x, y) == b.cell(x, y) by {
        assert(rr.cell(x, y) == r.cell(y, r.h - 1 - x));
    }
    lemma_same_cells(rr, b);
}

/// Four clockwise turns restore the occupancy and the box of a piece that
/// has nothing set outside its box.
pub proof fn lemma_four_clockwise(b: BlockView)
    requires
        b.wf(),
        b.confined(),
    ensures
        b.rotate_clockwise().rotate_clockwise().rotate_clockwise().rotate_clockwise() == b,
{
    let r1 = b.rotate_clockwise();
    let r2 = r1.rotate_clockwise();
    let r3 = r2.rotate_clockwise();
    let r4 = r3.rotate_clockwise();
    lemma_rotate_clockwise_cells(b);
    lemma_rotate_clockwise_cells(r1);
    lemma_rotate_clockwise_cells(r2);
    lemma_rotate_clockwise_cells(r3);
    assert forall|x: int, y: int| #[trigger] r4.cell(x, y) == b.cell(x, y) by {
        assert(r4.cell(x, y) == r3.cell(y, r3.h - 1 - x));
        assert(r3.cell(y, r3.h - 1 - x) == r2.cell(r3.h - 1 - x, r2.h - 1 - y));
        assert(r2.cell(r3.h - 1 - x, r2.h - 1 - y) == r1.cell(r2.h - 1 - y, r1.h - 1 - (r3.h - 1
            - x)));
        assert(r1.cell(r2.h - 1 - y, r1.h - 1 - (r3.h - 1 - x)) == b.cell(
            r1.h - 1 - (r3.h - 1 - x),
            b.h - 1 - (r2.h - 1 - y),
        ));
    }
    lemma_same_cells(r4, b);
}

/// A clockwise turn keeps the number of occupied cells.
pub proof fn lemma_rotate_clockwise_count(b: BlockView)
    requires
        b.wf(),
    ensures
        b.rotate_clockwise().cell_count() == b.cell_count(),
{
    lemma_rotate_clockwise_cells(b);
    let r = b.rotate_clockwise();
    assert forall|y: int| 0 <= y < 4 implies #[trigger] r.row_count(y) == b.count_at(y, b.h - 1)
        + b.count_at(y, b.h - 2) + b.count_at(y, b.h - 3) + b.count_at(y, b.h - 4) by {
        assert(r.cell(0, y) == b.cell(y, b.h - 1 - 0));
        assert(r.cell(1, y) == b.cell(y, b.h - 1 - 1));
        assert(r.cell(2, y) == b.cell(y, b.h - 1 - 2));
        assert(r.cell(3, y) == b.cell(y, b.h - 1 - 3));
    }
    assert(r.row_count(0) + r.row_count(1) + r.row_count(2) + r.row_count(3) == b.row_count(0)
        + b.row_count(1) + b.row_count(2) + b.row_count(3));
}

/// An anticlockwise turn keeps the number of occupied cells.
pub proof fn lemma_rotate_anticlockwise_count(b: BlockView)
    requires
        b.wf(),
    ensures
        b.rotate_anticlockwise().cell_count() == b.cell_count(),
{
    lemma_rotate_anticlockwise_cells(b);
    let r = b.rotate_anticlockwise();
    assert forall|y: int| 0 <= y < 4 implies #[trigger] r.row_count(y) == b.count_at(b.w - 1 - y, 0)
        + b.count_at(b.w - 1 - y, 1) + b.count_at(b.w - 1 - y, 2) + b.count_at(b.w - 1 - y, 3) by {
        assert(r.cell(0, y) == b.cell(b.w - 1 - y, 0));
        assert(r.cell(1, y) == b.cell(b.w - 1 - y, 1));
        assert(r.cell(2, y) == b.cell(b.w - 1 - y, 2));
        assert(r.cell(3, y) == b.cell(b.w - 1 - y, 3));
    }
    assert(r.row_count(0) + r.row_count(1) + r.row_count(2) + r.row_count(3) == b.row_count(0)
        + b.row_count(1) + b.row_count(2) + b.row_count(3));
}

/// Either rotation of a tetromino is a tetromino: the four cells are
/// conserved and stay inside the turned box.
pub proof fn lemma_rotation_keeps_tetromino(b: BlockView)
    requires
        b.is_tetromino(),
    ensures
        b.rotate_clockwise().is_tetromino(),
        b.rotate_anticlockwise().is_tetromino(),
{
    lemma_rotate_clockwise_cells(b);
    lemma_rotate_anticlockwise_cells(b);
    lemma_rotate_clockwise_count(b);
    lemma_rotate_anticlockwise_count(b);
}

/// A piece with at least one occupied cell has one to show.
pub proof fn lemma_occupied_cell(b: BlockView) -> (c: (int, int))
    requires
        b.cell_count() > 0,
    ensures
        b.cell(c.0, c.1),
{
    if b.row_count(0) > 0 {
        lemma_occupied_in_row(b, 0)
    } else if b.row_count(1) > 0 {
        lemma_occupied_in_row(b, 1)
    } else if b.row_count(2) > 0 {
        lemma_occupied_in_row(b, 2)
    } else {
        lemma_occupied_in_row(b, 3)
    }
}

proof fn lemma_occupied_in_row(b: BlockView, y: int) -> (c: (int, int))
    requires
        b.row_count(y) > 0,
    ensures
        b.cell(c.0, c.1),
{
    if b.cell(0, y) {
        (0, y)
    } else if b.cell(1, y) {
        (1, y)
    } else if b.cell(2, y) {
        (2, y)
    } else {
        (3, y)
    }
}

} // verus!
