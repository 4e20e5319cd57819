//! The seven canonical shapes, cell by cell.

use crate::bits::bit_at;
use crate::block::BlockView;
use crate::rotation::{lemma_clockwise_then_anticlockwise, lemma_four_clockwise};
use vstd::prelude::*;

verus! {

/// Which bits the seven canonical masks have set.
pub proof fn lemma_canonical_bits(i: int)
    ensures
        bit_at(0x0072, i) == (i == 1 || i == 4 || i == 5 || i == 6),
        bit_at(0x0017, i) == (i == 0 || i == 1 || i == 2 || i == 4),
        bit_at(0x0047, i) == (i == 0 || i == 1 || i == 2 || i == 6),
        bit_at(0x0033, i) == (i == 0 || i == 1 || i == 4 || i == 5),
        bit_at(0x0063, i) == (i == 0 || i == 1 || i == 5 || i == 6),
        bit_at(0x0036, i) == (i == 1 || i == 2 || i == 4 || i == 5),
        bit_at(0x000f, i) == (i == 0 || i == 1 || i == 2 || i == 3),
{
    if 0 <= i < 16 {
        let j = i as u16;
        assert(((0x0072u16 >> j) & 1u16 == 1u16) == (j == 1 || j == 4 || j == 5 || j == 6))
            by (bit_vector)
            requires
                j < 16,
        ;
        assert(((0x0017u16 >> j) & 1u16 == 1u16) == (j == 0 || j == 1 || j == 2 || j == 4))
            by (bit_vector)
            requires
                j < 16,
        ;
        assert(((0x0047u16 >> j) & 1u16 == 1u16) == (j == 0 || j == 1 || j == 2 || j == 6))
            by (bit_vector)
            requires
                j < 16,
        ;
        assert(((0x0033u16 >> j) & 1u16 == 1u16) == (j == 0 || j == 1 || j == 4 || j == 5))
            by (bit_vector)
            requires
                j < 16,
        ;
        assert(((0x0063u16 >> j) & 1u16 == 1u16) == (j == 0 || j == 1 || j == 5 || j == 6))
            by (bit_vector)
            requires
                j < 16,
        ;
        assert(((0x0036u16 >> j) & 1u16 == 1u16) == (j == 1 || j == 2 || j == 4 || j == 5))
            by (bit_vector)
            requires
                j < 16,
        ;
        assert(((0x000fu16 >> j) & 1u16 == 1u16) == (j == 0 || j == 1 || j == 2 || j == 3))
            by (bit_vector)
            requires
                j < 16,
        ;
    }
}

/// Each canonical shape is a tetromino: four cells, all inside its box.
pub proof fn lemma_canonical_is_tetromino(shape: int)
    requires
        0 <= shape < 7,
    ensures
        BlockView::canonical(shape).is_tetromino(),
{
    let b = BlockView::canonical(shape);
    assert forall|i: int| 0 <= i < 16 implies #[trigger] b.grid[i] == bit_at(
        BlockView::canonical_mask(shape),
        i,
    ) by {}
    assert forall|i: int| 0 <= i < 16 && #[trigger] b.grid[i] implies i % 4 < b.w && i / 4
        < b.h by {
        lemma_canonical_bits(i);
    }
    lemma_canonical_bits(0);
    lemma_canonical_bits(1);
    lemma_canonical_bits(2);
    lemma_canonical_bits(3);
    lemma_canonical_bits(4);
    lemma_canonical_bits(5);
    lemma_canonical_bits(6);
    lemma_canonical_bits(7);
    lemma_canonical_bits(8);
    lemma_canonical_bits(9);
    lemma_canonical_bits(10);
    lemma_canonical_bits(11);
    lemma_canonical_bits(12);
    lemma_canonical_bits(13);
    lemma_canonical_bits(14);
    lemma_canonical_bits(15);
    assert(b.row_count(0) + b.row_count(1) == 4);
    assert(b.row_count(2) == 0);
    assert(b.row_count(3) == 0);
}

/// Four clockwise turns of a canonical shape restore its occupancy and its
/// box.
pub proof fn lemma_canonical_four_clockwise(shape: int)
    requires
        0 <= shape < 7,
    ensures
        BlockView::canonical(
            shape,
        ).rotate_clockwise().rotate_clockwise().rotate_clockwise().rotate_clockwise()
            == BlockView::canonical(shape),
{
    lemma_canonical_is_tetromino(shape);
    lemma_four_clockwise(BlockView::canonical(shape));
}

/// A clockwise turn of a canonical shape followed by an anticlockwise turn
/// restores its occupancy and its box.
pub proof fn lemma_canonical_clockwise_then_anticlockwise(shape: int)
    requires
        0 <= shape < 7,
    ensures
        BlockView::canonical(shape).rotate_clockwise().rotate_anticlockwise()
            == BlockView::canonical(shape),
{
    lemma_canonical_is_tetromino(shape);
    lemma_clockwise_then_anticlockwise(BlockView::canonical(shape));
}

} // verus!
