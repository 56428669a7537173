//! Bitboards: a `u64` whose bit `i` stands for square `i` (0..64).

use vstd::prelude::*;

verus! {

/// Bit `i` of `b` is set.
pub open spec fn bit(b: u64, i: u64) -> bool {
    (b >> i) & 1u64 == 1u64
}

/// The set of squares that a bitboard marks.
pub open spec fn squares(b: u64) -> Set<int> {
    Set::new(|i: int| 0 <= i < 64 && bit(b, i as u64))
}

/// File (column, 0..8) of a square.
pub open spec fn file(sq: int) -> int {
    sq % 8
}

/// Rank (row, 0..8) of a square.
pub open spec fn rank(sq: int) -> int {
    sq / 8
}

/// Distance between two integers.
pub open spec fn dist(a: int, b: int) -> int {
    if a >= b {
        a - b
    } else {
        b - a
    }
}

/// The masks `& 7` and `>> 3` give a square's file and rank.
pub proof fn lemma_file_rank(x: u64)
    by (bit_vector)
    ensures
        x & 7 == x % 8,
        x >> 3 == x / 8,
{
}

/// Bitwise operators act square by square.
pub proof fn lemma_bit_ops(a: u64, b: u64, i: u64)
    by (bit_vector)
    requires
        i < 64,
    ensures
        bit(a & b, i) == (bit(a, i) && bit(b, i)),
        bit(a | b, i) == (bit(a, i) || bit(b, i)),
        bit(!a, i) == !bit(a, i),
        bit(a & !b, i) == (bit(a, i) && !bit(b, i)),
        !bit(0u64, i),
        bit(0xffff_ffff_ffff_ffffu64, i),
{
}

/// A one-bit mask marks exactly its square.
pub proof fn lemma_bit_single(j: u64, i: u64)
    by (bit_vector)
    requires
        i < 64,
        j < 64,
    ensures
        bit(1u64 << j, i) == (i == j),
{
}

/// The two ways of testing one square of a bitboard agree with `bit`.
pub proof fn lemma_bit_test(b: u64, j: u64)
    by (bit_vector)
    requires
        j < 64,
    ensures
        ((b & (1u64 << j)) != 0u64) == bit(b, j),
        (((b >> j) & 1u64) != 0u64) == bit(b, j),
{
}

/// Shifting left moves every square up by `s`; squares pushed past 63 are lost.
pub proof fn lemma_bit_shl(a: u64, s: u64, i: u64)
    by (bit_vector)
    requires
        s < 64,
        i < 64,
    ensures
        i < s ==> !bit(a << s, i),
        i >= s ==> bit(a << s, i) == bit(a, (i - s) as u64),
{
}

/// Shifting right moves every square down by `s`; squares pushed below 0 are lost.
pub proof fn lemma_bit_shr(a: u64, s: u64, i: u64)
    by (bit_vector)
    requires
        s < 64,
        i < 64,
    ensures
        i + s < 64 ==> bit(a >> s, i) == bit(a, (i + s) as u64),
        i + s >= 64 ==> !bit(a >> s, i),
{
}

/// A bitboard is pinned down, as a set, by which squares it marks.
pub proof fn lemma_squares_by_bits(a: u64, s: Set<int>)
    requires
        forall|i: u64| i < 64 ==> (bit(a, i) <==> s.contains(i as int)),
        forall|x: int| #[trigger] s.contains(x) ==> 0 <= x < 64,
    ensures
        squares(a) == s,
{
    assert forall|x: int| squares(a).contains(x) <==> s.contains(x) by {
        if 0 <= x < 64 {
            assert(bit(a, x as u64) <==> s.contains((x as u64) as int));
        }
    }
    assert(squares(a) =~= s);
}

/// The empty bitboard marks no square.
pub proof fn lemma_squares_zero()
    ensures
        squares(0u64) == Set::<int>::empty(),
{
    assert forall|i: u64| i < 64 implies (bit(0u64, i) <==> Set::<int>::empty().contains(
        i as int,
    )) by {
        lemma_bit_ops(0u64, 0u64, i);
    }
    lemma_squares_by_bits(0u64, Set::empty());
}

/// Clearing one square removes it from the set.
pub proof fn lemma_squares_clear(b: u64, t: u64)
    requires
        t < 64,
    ensures
        squares(b & !(1u64 << t)) == squares(b).remove(t as int),
{
    assert forall|i: u64| i < 64 implies (bit(b & !(1u64 << t), i) <==> squares(b).remove(
        t as int,
    ).contains(i as int)) by {
        lemma_bit_ops(b, 1u64 << t, i);
        lemma_bit_single(t, i);
    }
    lemma_squares_by_bits(b & !(1u64 << t), squares(b).remove(t as int));
}

/// Clearing square `f` and then setting square `t` moves the mark from `f` to `t`.
pub proof fn lemma_squares_place(b: u64, f: u64, t: u64)
    requires
        f < 64,
        t < 64,
    ensures
        squares((b & !(1u64 << f)) | (1u64 << t)) == squares(b).remove(f as int).insert(t as int),
{
    let c = b & !(1u64 << f);
    lemma_squares_clear(b, f);
    assert forall|i: u64| i < 64 implies (bit(c | (1u64 << t), i) <==> squares(b).remove(
        f as int,
    ).insert(t as int).contains(i as int)) by {
        lemma_bit_ops(c, 1u64 << t, i);
        lemma_bit_single(t, i);
        assert(bit(c, i) <==> squares(c).contains(i as int));
    }
    lemma_squares_by_bits(c | (1u64 << t), squares(b).remove(f as int).insert(t as int));
}

/// Clearing the squares of a mask takes them out of the set.
pub proof fn lemma_squares_and_not(b: u64, m: u64)
    ensures
        squares(b & !m) == squares(b).difference(squares(m)),
{
    assert forall|i: u64| i < 64 implies (bit(b & !m, i) <==> squares(b).difference(
        squares(m),
    ).contains(i as int)) by {
        lemma_bit_ops(b, m, i);
    }
    lemma_squares_by_bits(b & !m, squares(b).difference(squares(m)));
}

/// The square one rank below `t` if `b` holds it, and the square one rank above `t`
/// if `w` holds it.
pub proof fn lemma_squares_beside(w: u64, b: u64, t: u64)
    requires
        t < 64,
    ensures
        squares(((1u64 << t) >> 8u64) & b) == squares(b).intersect(set![t - 8]),
        squares(((1u64 << t) << 8u64) & w) == squares(w).intersect(set![t + 8]),
{
    let below = (1u64 << t) >> 8u64;
    let above = (1u64 << t) << 8u64;
    assert forall|i: u64| i < 64 implies {
        &&& (bit(below & b, i) <==> squares(b).intersect(set![t - 8]).contains(i as int))
        &&& (bit(above & w, i) <==> squares(w).intersect(set![t + 8]).contains(i as int))
    } by {
        lemma_bit_ops(below, b, i);
        lemma_bit_ops(above, w, i);
        lemma_bit_shr(1u64 << t, 8, i);
        lemma_bit_shl(1u64 << t, 8, i);
        if i + 8 < 64 {
            lemma_bit_single(t, (i + 8) as u64);
        }
        if i >= 8 {
            lemma_bit_single(t, (i - 8) as u64);
        }
    }
    lemma_squares_by_bits(below & b, squares(b).intersect(set![t - 8]));
    lemma_squares_by_bits(above & w, squares(w).intersect(set![t + 8]));
}

} // verus!
