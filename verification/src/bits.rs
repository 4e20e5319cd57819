//! Reading a 16-bit occupancy mask as a grid of sixteen booleans.

use vstd::prelude::*;

verus! {

/// Whether bit `i` of `mask` is set. No bit is set outside `0..16`.
pub open spec fn bit_at(mask: u16, i: int) -> bool {
    0 <= i < 16 && (mask >> (i as u16)) & 1u16 == 1u16
}

/// The sixteen bits of `mask`, lowest first.
pub open spec fn grid_of(mask: u16) -> Seq<bool> {
    Seq::new(16, |i: int| bit_at(mask, i))
}

/// Testing a mask against a single-bit mask reads that bit.
pub proof fn lemma_bit_test(mask: u16, k: u16)
    requires
        k < 16,
    ensures
        (mask & (1u16 << k) == (1u16 << k)) == bit_at(mask, k as int),
{
    assert((mask & (1u16 << k) == (1u16 << k)) == ((mask >> k) & 1u16 == 1u16)) by (bit_vector)
        requires
            k < 16,
    ;
}

/// Or-ing a single-bit mask in sets that bit and leaves the others.
pub proof fn lemma_bit_set(mask: u16, k: u16, i: int)
    requires
        k < 16,
    ensures
        bit_at(mask | (1u16 << k), i) == (bit_at(mask, i) || i == k),
{
    if 0 <= i < 16 {
        let j = i as u16;
        assert((((mask | (1u16 << k)) >> j) & 1u16 == 1u16) == (((mask >> j) & 1u16 == 1u16) || j
            == k)) by (bit_vector)
            requires
                k < 16,
                j < 16,
        ;
    }
}

/// The zero mask has no bit set.
pub proof fn lemma_bit_zero(i: int)
    ensures
        !bit_at(0u16, i),
{
    if 0 <= i < 16 {
        let j = i as u16;
        assert((0u16 >> j) & 1u16 == 0u16) by (bit_vector);
    }
}

/// A mask is determined by its bits.
pub proof fn lemma_grid_of_injective(a: u16, b: u16)
    requires
        grid_of(a) == grid_of(b),
    ensures
        a == b,
{
    assert forall|i: int| 0 <= i < 16 implies bit_at(a, i) == bit_at(b, i) by {
        assert(grid_of(a)[i] == bit_at(a, i));
        assert(grid_of(b)[i] == bit_at(b, i));
    }
    assert(bit_at(a, 0) == bit_at(b, 0));
    assert(bit_at(a, 1) == bit_at(b, 1));
    assert(bit_at(a, 2) == bit_at(b, 2));
    assert(bit_at(a, 3) == bit_at(b, 3));
    assert(bit_at(a, 4) == bit_at(b, 4));
    assert(bit_at(a, 5) == bit_at(b, 5));
    assert(bit_at(a, 6) == bit_at(b, 6));
    assert(bit_at(a, 7) == bit_at(b, 7));
    assert(bit_at(a, 8) == bit_at(b, 8));
    assert(bit_at(a, 9) == bit_at(b, 9));
    assert(bit_at(a, 10) == bit_at(b, 10));
    assert(bit_at(a, 11) == bit_at(b, 11));
    assert(bit_at(a, 12) == bit_at(b, 12));
    assert(bit_at(a, 13) == bit_at(b, 13));
    assert(bit_at(a, 14) == bit_at(b, 14));
    assert(bit_at(a, 15) == bit_at(b, 15));
    assert(a == b) by (bit_vector)
        requires
            ((a >> 0u16) & 1u16 == 1u16) == ((b >> 0u16) & 1u16 == 1u16),
            ((a >> 1u16) & 1u16 == 1u16) == ((b >> 1u16) & 1u16 == 1u16),
            ((a >> 2u16) & 1u16 == 1u16) == ((b >> 2u16) & 1u16 == 1u16),
            ((a >> 3u16) & 1u16 == 1u16) == ((b >> 3u16) & 1u16 == 1u16),
            ((a >> 4u16) & 1u16 == 1u16) == ((b >> 4u16) & 1u16 == 1u16),
            ((a >> 5u16) & 1u16 == 1u16) == ((b >> 5u16) & 1u16 == 1u16),
            ((a >> 6u16) & 1u16 == 1u16) == ((b >> 6u16) & 1u16 == 1u16),
            ((a >> 7u16) & 1u16 == 1u16) == ((b >> 7u16) & 1u16 == 1u16),
            ((a >> 8u16) & 1u16 == 1u16) == ((b >> 8u16) & 1u16 == 1u16),
            ((a >> 9u16) & 1u16 == 1u16) == ((b >> 9u16) & 1u16 == 1u16),
            ((a >> 10u16) & 1u16 == 1u16) == ((b >> 10u16) & 1u16 == 1u16),
            ((a >> 11u16) & 1u16 == 1u16) == ((b >> 11u16) & 1u16 == 1u16),
            ((a >> 12u16) & 1u16 == 1u16) == ((b >> 12u16) & 1u16 == 1u16),
            ((a >> 13u16) & 1u16 == 1u16) == ((b >> 13u16) & 1u16 == 1u16),
            ((a >> 14u16) & 1u16 == 1u16) == ((b >> 14u16) & 1u16 == 1u16),
            ((a >> 15u16) & 1u16 == 1u16) == ((b >> 15u16) & 1u16 == 1u16),
    ;
}

} // verus!
