//! What holds of every well-formed game.

use crate::block::BlockView;
use crate::colour::Colour;
use crate::model::{empty_row, line_bonus, GameView};
use crate::rotation::lemma_occupied_cell;
use crate::shapes::lemma_canonical_is_tetromino;
use vstd::arithmetic::power2::lemma2_to64;
use vstd::prelude::*;

verus! {

/// The box of the active piece of a well-formed game starts less than four
/// cells off the board's top left corner and before its bottom right one.
pub proof fn lemma_piece_position(g: GameView)
    requires
        g.wf(),
    ensures
        -4 < g.piece_x < g.width,
        -4 < g.piece_y < g.height,
{
    let c = lemma_occupied_cell(g.piece);
    assert(g.piece.cell(c.0, c.1));
    assert(g.in_range(g.piece_x + c.0, g.piece_y + c.1));
}

/// Wherever the active piece of a well-formed game is on the board, the
/// top left corner of its box is less than four cells off the board.
pub proof fn lemma_on_board_position(g: GameView, x: int, y: int)
    requires
        g.piece.is_tetromino(),
        !g.out_of_bounds_at(x, y),
    ensures
        -4 < x < g.width,
        -4 < y < g.height,
{
    let c = lemma_occupied_cell(g.piece);
    assert(g.piece.cell(c.0, c.1));
    assert(g.in_range(x + c.0, y + c.1));
}

/// Sweeping rows changes nothing but the rows, and takes out no more rows
/// than it looks at.
pub proof fn lemma_sweep_frame(g: GameView, from: int, to: int)
    ensures
        g.sweep(from, to) == (GameView { rows: g.sweep(from, to).rows, ..g }),
        0 <= g.sweep_count(from, to),
        g.sweep_count(from, to) <= to - from || g.sweep_count(from, to) == 0,
    decreases to - from,
{
    if from < to {
        if g.row_full(from) {
            lemma_sweep_frame(g.clear_row(from), from + 1, to);
        } else {
            lemma_sweep_frame(g, from + 1, to);
        }
    }
}

/// A canonical shape, centred at the top of a board of at least 4 by 4
/// cells, lies on the board.
pub proof fn lemma_spawn_on_board(g: GameView, shape: int)
    requires
        g.width >= 4,
        g.height >= 4,
        0 <= shape < 7,
        g.piece == BlockView::canonical(shape),
    ensures
        !g.out_of_bounds_at(g.width / 2 + g.piece.spawn_offset().0, g.piece.spawn_offset().1),
{
    let x = g.width / 2 + g.piece.spawn_offset().0;
    assert forall|bx: int, by: int| #[trigger] g.piece.cell(bx, by) implies g.in_range(
        x + bx,
        by,
    ) by {}
}

/// No piece covers a locked block on an empty board.
pub proof fn lemma_empty_board_is_free(g: GameView, x: int, y: int)
    requires
        g.rows == Seq::new(g.height as nat, |r: int| empty_row(g.width)),
    ensures
        !g.collision_at(x, y),
{
    assert forall|cx: int, cy: int| !g.filled(cx, cy) by {}
}

/// Where the active piece fits does not depend on where it is now, on the
/// score, on the timer or on whether the game is over.
pub proof fn lemma_fits_frame(g: GameView, other: GameView, x: int, y: int)
    requires
        g.width == other.width,
        g.height == other.height,
        g.rows == other.rows,
        g.piece == other.piece,
    ensures
        g.collision_at(x, y) == other.collision_at(x, y),
        g.out_of_bounds_at(x, y) == other.out_of_bounds_at(x, y),
        g.fits_at(x, y) == other.fits_at(x, y),
{
    if g.collision_at(x, y) {
        let (bx, by) = choose|bx: int, by: int| #[trigger]
            g.piece.cell(bx, by) && g.filled(x + bx, y + by);
        assert(other.piece.cell(bx, by) && other.filled(x + bx, y + by));
    }
    if other.collision_at(x, y) {
        let (bx, by) = choose|bx: int, by: int| #[trigger]
            other.piece.cell(bx, by) && other.filled(x + bx, y + by);
        assert(g.piece.cell(bx, by) && g.filled(x + bx, y + by));
    }
    if g.out_of_bounds_at(x, y) {
        let (bx, by) = choose|bx: int, by: int| #[trigger]
            g.piece.cell(bx, by) && !g.in_range(x + bx, y + by);
        assert(other.piece.cell(bx, by) && !other.in_range(x + bx, y + by));
    }
    if other.out_of_bounds_at(x, y) {
        let (bx, by) = choose|bx: int, by: int| #[trigger]
            other.piece.cell(bx, by) && !other.in_range(x + bx, y + by);
        assert(g.piece.cell(bx, by) && !g.in_range(x + bx, y + by));
    }
}

/// Whether the active piece lies on the board depends on the board's size
/// and on the piece alone.
pub proof fn lemma_out_of_bounds_frame(g: GameView, other: GameView, x: int, y: int)
    requires
        g.width == other.width,
        g.height == other.height,
        g.piece == other.piece,
    ensures
        g.out_of_bounds_at(x, y) == other.out_of_bounds_at(x, y),
{
    if g.out_of_bounds_at(x, y) {
        let (bx, by) = choose|bx: int, by: int| #[trigger]
            g.piece.cell(bx, by) && !g.in_range(x + bx, y + by);
        assert(other.piece.cell(bx, by) && !other.in_range(x + bx, y + by));
    }
    if other.out_of_bounds_at(x, y) {
        let (bx, by) = choose|bx: int, by: int| #[trigger]
            other.piece.cell(bx, by) && !other.in_range(x + bx, y + by);
        assert(g.piece.cell(bx, by) && !g.in_range(x + bx, y + by));
    }
}

/// A full row stops being full when any one of its cells is emptied.
pub proof fn lemma_full_row_needs_every_cell(g: GameView, x: int, y: int)
    requires
        g.board_wf(),
        g.row_full(y),
        0 <= x < g.width,
    ensures
        !g.put(x, y, Colour::Empty).row_full(y),
{
    let h = g.put(x, y, Colour::Empty);
    assert(!h.filled(x, y));
}

/// A row is full exactly if it is a row of the board and none of its cells
/// is empty.
pub proof fn lemma_row_full_iff(g: GameView, y: int)
    requires
        g.board_wf(),
    ensures
        g.row_full(y) <==> 0 <= y < g.height && forall|x: int|
            0 <= x < g.width ==> #[trigger] g.rows[y][x] != Colour::Empty,
{
    if 0 <= y < g.height {
        if g.row_full(y) {
            assert forall|x: int| 0 <= x < g.width implies #[trigger] g.rows[y][x]
                != Colour::Empty by {
                assert(g.filled(x, y));
            }
        }
        if forall|x: int| 0 <= x < g.width ==> #[trigger] g.rows[y][x] != Colour::Empty {
            assert forall|x: int| 0 <= x < g.width implies #[trigger] g.filled(x, y) by {
                assert(g.rows[y][x] != Colour::Empty);
            }
        }
    }
}

/// What a merge adds to the score: 2 for one row, 4 for two, 8 for three,
/// 16 for four, and nothing for none.
pub proof fn lemma_line_bonus()
    ensures
        line_bonus(0) == 0,
        line_bonus(1) == 2,
        line_bonus(2) == 4,
        line_bonus(3) == 8,
        line_bonus(4) == 16,
{
    lemma2_to64();
}

/// A merge adds the bonus for the rows it clears to the score, and it
/// clears at most four.
pub proof fn lemma_merge_score(g: GameView)
    requires
        g.wf(),
        !g.game_over,
    ensures
        0 <= g.merged_lines() <= 4,
        g.merged().score == g.score + line_bonus(g.merged_lines()),
        g.merged_lines() == 0 ==> g.merged().score == g.score,
        g.merged_lines() == 1 ==> g.merged().score == g.score + 2,
        g.merged_lines() == 2 ==> g.merged().score == g.score + 4,
{
    lemma_line_bonus();
    let s = g.stamped();
    lemma_sweep_frame(s, s.piece_y, s.piece_y + s.piece.h);
}

/// Once the game is over, no command changes it.
pub proof fn lemma_game_over_is_final(g: GameView, dx: int, x: int, y: int, c: Colour, now: int, draw: int)
    requires
        g.game_over,
    ensures
        g.slid(dx) == g,
        g.lowered(now) == g,
        g.dropped(now) == g,
        g.rotated_clockwise() == g,
        g.rotated_anticlockwise() == g,
        g.merged() == g,
        g.merged_lines() == 0,
        g.swept() == g,
        g.clear_row(y) == g,
        g.with_cell(x, y, c) == g,
        g.spawned(draw, now) == g,
        g.ticked(now, draw) == g,
{
}

/// A slide keeps a game settled.
pub proof fn lemma_slid_settled(g: GameView, dx: int)
    requires
        g.settled(),
    ensures
        g.slid(dx).settled(),
{
    if g.can_slide(dx) {
        lemma_fits_frame(g, g.slid(dx), g.piece_x + dx, g.piece_y);
    }
}

/// A move down keeps a game settled.
pub proof fn lemma_lowered_settled(g: GameView, now: int)
    requires
        g.settled(),
    ensures
        g.lowered(now).settled(),
{
    if g.can_fall() {
        lemma_fits_frame(g, g.lowered(now), g.piece_x, g.piece_y + 1);
    }
}

/// Where a piece lands: not above where it started, through rows in which
/// it fits, and on a row from which it cannot go on.
pub proof fn lemma_landing_row(g: GameView, y: int)
    requires
        g.piece.is_tetromino(),
    ensures
        y <= g.landing_row(y),
        forall|r: int| y < r <= g.landing_row(y) ==> g.fits_at(g.piece_x, r),
        !g.fits_at(g.piece_x, g.landing_row(y) + 1),
    decreases g.height - y,
{
    if y < g.height && g.fits_at(g.piece_x, y + 1) {
        lemma_landing_row(g, y + 1);
    } else if g.fits_at(g.piece_x, y + 1) {
        lemma_on_board_position(g, g.piece_x, y + 1);
    }
}

/// A drop keeps a game settled.
pub proof fn lemma_dropped_settled(g: GameView, now: int)
    requires
        g.wf(),
        g.settled(),
    ensures
        g.dropped(now).settled(),
{
    if !g.game_over {
        let d = g.dropped(now);
        lemma_landing_row(g, g.piece_y);
        lemma_fits_frame(g, d, d.piece_x, d.piece_y);
        lemma_fits_frame(g, d, d.piece_x, d.piece_y + 1);
    }
}

/// A turn keeps a game settled.
pub proof fn lemma_rotated_settled(g: GameView)
    requires
        g.settled(),
    ensures
        g.rotated_clockwise().settled(),
        g.rotated_anticlockwise().settled(),
{
}

/// After a spawn the game is settled: the new piece is where it can be, or
/// the game is over.
pub proof fn lemma_spawned_settled(g: GameView, draw: int, now: int)
    requires
        g.board_wf(),
        draw >= 0,
    ensures
        g.spawned(draw, now).settled(),
{
    if !g.game_over {
        let piece = BlockView::canonical(draw % 7);
        let placed = GameView {
            piece,
            piece_x: g.width / 2 + piece.spawn_offset().0,
            piece_y: piece.spawn_offset().1,
            last_fall: now,
            ..g
        };
        let s = g.spawned(draw, now);
        lemma_spawn_on_board(placed, draw % 7);
        lemma_fits_frame(placed, s, s.piece_x, s.piece_y);
    }
}

/// A new game is in play, well formed and settled.
pub proof fn lemma_initial_settled(width: int, height: int, draw: int, now: int)
    requires
        width >= 4,
        height >= 4,
        draw >= 0,
    ensures
        GameView::initial(width, height, draw, now).wf(),
        GameView::initial(width, height, draw, now).piece_fits(),
        !GameView::initial(width, height, draw, now).game_over,
{
    let g = GameView::initial(width, height, draw, now);
    lemma_canonical_is_tetromino(draw % 7);
    lemma_spawn_on_board(g, draw % 7);
    lemma_empty_board_is_free(g, g.piece_x, g.piece_y);
}

/// A tick keeps a game settled.
pub proof fn lemma_ticked_settled(g: GameView, now: int, draw: int)
    requires
        g.wf(),
        g.settled(),
        draw >= 0,
    ensures
        g.ticked(now, draw).settled(),
{
    if g.fall_due(now) {
        if g.can_fall() {
            lemma_lowered_settled(g, now);
        } else {
            lemma_merged_wf(g);
            lemma_spawned_settled(g.merged(), draw, now);
        }
    }
}

/// A merge keeps a game well formed, and changes nothing but the rows and
/// the score.
pub proof fn lemma_merged_wf(g: GameView)
    requires
        g.wf(),
    ensures
        g.merged().wf(),
        g.merged() == (GameView { rows: g.merged().rows, score: g.merged().score, ..g }),
{
    if !g.game_over {
        let s = g.stamped();
        assert(s.board_wf());
        lemma_sweep_wf(s, s.piece_y, s.piece_y + s.piece.h);
        lemma_sweep_frame(s, s.piece_y, s.piece_y + s.piece.h);
        let m = g.merged();
        lemma_out_of_bounds_frame(g, m, g.piece_x, g.piece_y);
        lemma2_to64();
    }
}

/// Taking a row out keeps the board well formed.
pub proof fn lemma_clear_row_wf(g: GameView, y: int)
    requires
        g.board_wf(),
    ensures
        g.clear_row(y).board_wf(),
{
}

/// Sweeping rows keeps the board well formed.
pub proof fn lemma_sweep_wf(g: GameView, from: int, to: int)
    requires
        g.board_wf(),
    ensures
        g.sweep(from, to).board_wf(),
    decreases to - from,
{
    if from < to {
        if g.row_full(from) {
            lemma_clear_row_wf(g, from);
            lemma_sweep_wf(g.clear_row(from), from + 1, to);
        } else {
            lemma_sweep_wf(g, from + 1, to);
        }
    }
}

/// A drop keeps a game well formed, never moves the piece up, and leaves it
/// where it cannot move down.
pub proof fn lemma_dropped_wf(g: GameView, now: int)
    requires
        g.wf(),
    ensures
        g.dropped(now).wf(),
        g.dropped(now).piece_y >= g.piece_y,
        !g.dropped(now).can_fall(),
{
    if !g.game_over {
        let d = g.dropped(now);
        lemma_landing_row(g, g.piece_y);
        if d.piece_y > g.piece_y {
            assert(g.fits_at(g.piece_x, d.piece_y));
        }
        lemma_out_of_bounds_frame(g, d, d.piece_x, d.piece_y);
        lemma_fits_frame(g, d, d.piece_x, d.piece_y + 1);
    }
}

/// Taking a row out is removing it and putting an empty row on top.
pub proof fn lemma_clear_row_is_remove(g: GameView, y: int)
    requires
        g.board_wf(),
        !g.game_over,
        0 <= y < g.height,
    ensures
        g.clear_row(y).rows == seq![empty_row(g.width)] + g.rows.remove(y),
{
    assert(g.clear_row(y).rows =~= seq![empty_row(g.width)] + g.rows.remove(y));
}

/// How many of the rows `from..to` are full depends on those rows alone.
pub proof fn lemma_full_rows_frame(g: GameView, other: GameView, from: int, to: int)
    requires
        g.width == other.width,
        g.height == other.height,
        forall|r: int| from <= r < to && 0 <= r < g.height ==> g.rows[r] == other.rows[r],
    ensures
        g.full_rows(from, to) == other.full_rows(from, to),
    decreases to - from,
{
    if from < to {
        lemma_full_rows_frame(g, other, from + 1, to);
        if 0 <= from < g.height {
            assert(g.rows[from] == other.rows[from]);
            if g.row_full(from) {
                assert forall|x: int| 0 <= x < other.width implies #[trigger] other.filled(
                    x,
                    from,
                ) by {
                    assert(g.filled(x, from));
                }
            }
            if other.row_full(from) {
                assert forall|x: int| 0 <= x < g.width implies #[trigger] g.filled(x, from) by {
                    assert(other.filled(x, from));
                }
            }
        }
    }
}

/// A sweep takes out as many rows as were full among those it looks at.
pub proof fn lemma_sweep_count_is_full_rows(g: GameView, from: int, to: int)
    requires
        g.board_wf(),
    ensures
        g.sweep_count(from, to) == g.full_rows(from, to),
    decreases to - from,
{
    if from < to {
        if g.row_full(from) {
            let c = g.clear_row(from);
            lemma_clear_row_wf(g, from);
            lemma_sweep_count_is_full_rows(c, from + 1, to);
            lemma_full_rows_frame(c, g, from + 1, to);
        } else {
            lemma_sweep_count_is_full_rows(g, from + 1, to);
        }
    }
}

/// A sweep leaves the rows below those it looks at as they were.
pub proof fn lemma_sweep_keeps_rows_below(g: GameView, from: int, to: int)
    requires
        g.board_wf(),
    ensures
        forall|r: int|
            0 <= r < g.height && from <= r && to <= r ==> #[trigger] g.sweep(from, to).rows[r]
                == g.rows[r],
    decreases to - from,
{
    if from < to {
        if g.row_full(from) {
            let c = g.clear_row(from);
            lemma_clear_row_wf(g, from);
            lemma_sweep_keeps_rows_below(c, from + 1, to);
            assert forall|r: int| 0 <= r < g.height && from <= r && to <= r implies #[trigger] g.sweep(
                from,
                to,
            ).rows[r] == g.rows[r] by {
                assert(c.sweep(from + 1, to).rows[r] == c.rows[r]);
                assert(c.rows[r] == g.rows[r]);
            }
        } else {
            lemma_sweep_keeps_rows_below(g, from + 1, to);
        }
    }
}

/// Whether a row is full depends on the cells of that row alone.
pub proof fn lemma_row_full_frame(g: GameView, y: int, other: GameView, z: int)
    requires
        g.width == other.width,
        0 <= y < g.height,
        0 <= z < other.height,
        g.rows[y] == other.rows[z],
    ensures
        g.row_full(y) == other.row_full(z),
{
    if g.row_full(y) {
        assert forall|x: int| 0 <= x < other.width implies #[trigger] other.filled(x, z) by {
            assert(g.filled(x, y));
        }
    }
    if other.row_full(z) {
        assert forall|x: int| 0 <= x < g.width implies #[trigger] g.filled(x, y) by {
            assert(other.filled(x, z));
        }
    }
}

/// Where no row outside `from..to` is full, a sweep of `from..to` leaves no
/// full row on the board.
pub proof fn lemma_sweep_leaves_no_full_row(g: GameView, from: int, to: int)
    requires
        g.board_wf(),
        !g.game_over,
        forall|r: int| r < from || r >= to ==> !g.row_full(r),
    ensures
        g.sweep(from, to).no_full_row(),
    decreases to - from,
{
    if from < to {
        if g.row_full(from) {
            let c = g.clear_row(from);
            lemma_clear_row_wf(g, from);
            assert forall|r: int| r < from + 1 || r >= to implies !c.row_full(r) by {
                if 0 <= r < g.height {
                    if r == 0 {
                        assert(!c.filled(0, 0));
                    } else if r <= from {
                        lemma_row_full_frame(c, r, g, r - 1);
                    } else {
                        lemma_row_full_frame(c, r, g, r);
                    }
                }
            }
            lemma_sweep_leaves_no_full_row(c, from + 1, to);
        } else {
            lemma_sweep_leaves_no_full_row(g, from + 1, to);
        }
    }
}

/// A merge takes out as many rows as the locked piece has made full among
/// the rows of its box.
pub proof fn lemma_merged_lines_are_full_rows(g: GameView)
    requires
        g.wf(),
        !g.game_over,
    ensures
        g.merged_lines() == g.stamped().full_rows(g.piece_y, g.piece_y + g.piece.h),
{
    let s = g.stamped();
    assert(s.board_wf());
    lemma_sweep_count_is_full_rows(s, s.piece_y, s.piece_y + s.piece.h);
}

/// A merge on a board without a full row leaves a board without a full
/// row: a piece can fill rows only among those of its box, and those are
/// the rows that are swept.
pub proof fn lemma_merged_leaves_no_full_row(g: GameView)
    requires
        g.wf(),
        g.no_full_row(),
    ensures
        g.merged().no_full_row(),
{
    if !g.game_over {
        let s = g.stamped();
        let from = g.piece_y;
        let to = g.piece_y + g.piece.h;
        assert(s.board_wf());
        assert forall|r: int| r < from || r >= to implies !s.row_full(r) by {
            if 0 <= r < g.height {
                assert(s.rows[r] =~= g.rows[r]);
                lemma_row_full_frame(s, r, g, r);
            }
        }
        lemma_sweep_leaves_no_full_row(s, from, to);
        let m = g.merged();
        let w = s.sweep(from, to);
        assert forall|y: int| !m.row_full(y) by {
            if 0 <= y < m.height {
                lemma_sweep_frame(s, from, to);
                lemma_row_full_frame(m, y, w, y);
            }
        }
    }
}

} // verus!
