//! The computations behind the application's commands.

use vstd::prelude::*;

use crate::bits::{bit, lemma_bit_test, squares};
use crate::consts::RANK_STEP;
use crate::game_state::{GameState, Position};

verus! {

/// `list` names the squares of `s`, each once, in increasing order.
pub open spec fn lists_squares(list: Seq<u8>, s: Set<int>) -> bool {
    &&& forall|i: int, j: int| 0 <= i < j < list.len() ==> list[i] < list[j]
    &&& forall|i: int| 0 <= i < list.len() ==> s.contains(#[trigger] list[i] as int)
    &&& forall|sq: int| #[trigger]
        s.contains(sq) ==> exists|i: int| 0 <= i < list.len() && list[i] as int == sq
}

/// A set has one listing: two increasing lists of its squares are the same list.
pub proof fn law_listing_unique(a: Seq<u8>, b: Seq<u8>, s: Set<int>)
    requires
        lists_squares(a, s),
        lists_squares(b, s),
    ensures
        a == b,
{
    if a.len() <= b.len() {
        lemma_listings_agree(a, b, s, a.len() as int);
        if a.len() < b.len() {
            let x = b[a.len() as int] as int;
            assert(s.contains(x));
            let j = choose|j: int| 0 <= j < a.len() && a[j] as int == x;
            assert(b[j] == a[j]);
        }
    } else {
        lemma_listings_agree(a, b, s, b.len() as int);
        let x = a[b.len() as int] as int;
        assert(s.contains(x));
        let j = choose|j: int| 0 <= j < b.len() && b[j] as int == x;
        assert(b[j] == a[j]);
    }
    assert(a =~= b);
}

/// Two increasing listings of one set agree on their first `n` entries.
proof fn lemma_listings_agree(a: Seq<u8>, b: Seq<u8>, s: Set<int>, n: int)
    requires
        lists_squares(a, s),
        lists_squares(b, s),
        0 <= n <= a.len(),
        n <= b.len(),
    ensures
        forall|i: int| 0 <= i < n ==> a[i] == b[i],
    decreases n,
{
    if n > 0 {
        lemma_listings_agree(a, b, s, n - 1);
        let i = n - 1;
        if a[i] < b[i] {
            let x = a[i] as int;
            assert(s.contains(x));
            let j = choose|j: int| 0 <= j < b.len() && b[j] as int == x;
            if j >= i {
                assert(b[j] >= b[i]);
            }
            assert(a[j] == b[j]);
        } else if b[i] < a[i] {
            let x = b[i] as int;
            assert(s.contains(x));
            let j = choose|j: int| 0 <= j < a.len() && a[j] as int == x;
            if j >= i {
                assert(a[j] >= a[i]);
            }
            assert(a[j] == b[j]);
        }
    }
}

/// Clearing the lowest set bit of `x`, which is bit `t`.
proof fn lemma_clear_lowest(x: u64, t: u64, i: u64)
    by (bit_vector)
    requires
        x != 0,
        t < 64,
        i < 64,
        (x >> t) & 1u64 == 1u64,
        x << ((64 - t) as u64) == 0u64,
    ensures
        bit(x & ((x - 1u64) as u64), i) == (i != t && bit(x, i)),
        (x & ((x - 1u64) as u64)) < x,
{
}

/// The squares that `board` marks, in increasing order.
pub fn ret_loc(board: u64) -> (ret: Vec<u8>)
    ensures
        lists_squares(ret@, squares(board)),
{
    let ghost orig = board;
    let mut board = board;
    let mut ret: Vec<u8> = Vec::new();
    while board != 0
        invariant
            forall|i: int, j: int| 0 <= i < j < ret.len() ==> ret[i] < ret[j],
            forall|i: int| 0 <= i < ret.len() ==> squares(orig).contains(#[trigger] ret[i] as int),
            forall|sq: int| #[trigger]
                squares(board).contains(sq) ==> squares(orig).contains(sq) && forall|i: int|
                    0 <= i < ret.len() ==> ret[i] < sq,
            forall|sq: int| #[trigger]
                squares(orig).contains(sq) ==> squares(board).contains(sq) || exists|i: int|
                    0 <= i < ret.len() && ret[i] as int == sq,
        decreases board,
    {
        let tz = board.trailing_zeros();
        proof {
            vstd::std_specs::bits::axiom_u64_trailing_zeros(board);
            assert(board << ((64 - tz) as u64) == 0u64);
            assert(squares(board).contains(tz as int));
            lemma_clear_lowest(board, tz as u64, 0);
        }
        let ghost prev = board;
        let ghost prev_ret = ret@;
        ret.push(tz as u8);
        board &= board - 1;
        proof {
            assert forall|sq: int| #[trigger] squares(board).contains(sq) implies squares(
                orig,
            ).contains(sq) && forall|i: int| 0 <= i < ret.len() ==> ret[i] < sq by {
                lemma_clear_lowest(prev, tz as u64, sq as u64);
                if sq < tz {
                    assert((prev >> (sq as u64)) & 1u64 == 0u64);
                }
                assert(squares(prev).contains(sq));
                assert(ret[ret.len() - 1] == tz);
                assert forall|i: int| 0 <= i < ret.len() implies ret[i] < sq by {
                    if i < ret.len() - 1 {
                        assert(ret[i] == prev_ret[i]);
                    }
                }
            }
            assert forall|sq: int| #[trigger] squares(orig).contains(sq) implies squares(
                board,
            ).contains(sq) || exists|i: int| 0 <= i < ret.len() && ret[i] as int == sq by {
                if squares(prev).contains(sq) {
                    lemma_clear_lowest(prev, tz as u64, sq as u64);
                    if sq == tz {
                        assert(ret[ret.len() - 1] as int == sq);
                    }
                } else {
                    let i = choose|i: int| 0 <= i < prev_ret.len() && prev_ret[i] as int == sq;
                    assert(ret[i] as int == sq);
                }
            }
        }
    }
    proof {
        crate::bits::lemma_squares_zero();
    }
    ret
}

impl Position {
    /// The square of the pawn that a move from `from` to `to` takes en passant, as the
    /// interface reports it: when a pawn moves onto the en passant square (a nonzero
    /// en passant value), the square below `to` for a white mover and above it
    /// otherwise; no square otherwise.
    pub open spec fn en_passant_victim(self, from: int, to: int) -> Option<int> {
        if self.pawn.contains(from) && self.en_passant != 0 && self.en_passant == to {
            if self.white.contains(from) {
                Some(to - 8)
            } else {
                Some(to + 8)
            }
        } else {
            None
        }
    }
}

/// What the interface is told to clear matches what the engine does: with no square
/// reported, a move empties `from`, fills `to` and changes no other square's occupancy;
/// with a square reported that the mover's own side does not hold, that square ends up
/// empty as well.
pub proof fn law_victim_matches_engine(p: Position, from: int, to: int)
    requires
        p.consistent(),
        0 <= from < 64,
        0 <= to < 64,
        from != to,
        p.occupied().contains(from),
    ensures
        match p.en_passant_victim(from, to) {
            None => p.after_move(from, to).occupied() == p.occupied().remove(from).insert(to),
            Some(v) => !p.own_side(from).contains(v) ==> p.after_move(from, to).occupied()
                == p.occupied().remove(from).remove(v).insert(to),
        },
{
    let q = p.after_move(from, to);
    let e = if p.pawn.contains(from) {
        p.after_en_passant(from, to)
    } else {
        p
    };
    if p.en_passant_victim(from, to) is None {
        assert(e.occupied() =~= p.occupied());
        assert(q.occupied() =~= p.occupied().remove(from).insert(to));
    } else {
        let v = p.en_passant_victim(from, to)->0;
        if !p.own_side(from).contains(v) {
            let taken = p.en_passant_taken(from, to);
            assert(e.occupied() =~= p.occupied().difference(taken));
            assert(q.occupied() =~= p.occupied().remove(from).remove(v).insert(to));
        }
    }
}

/// Makes the move from `from` to `to` and reports the square of a pawn taken en passant,
/// for the interface to clear.
pub fn move_piece(state: &mut GameState, from: u8, to: u8) -> (captured: Option<i8>)
    requires
        from < 64,
        to < 64,
        old(state).move_count < u32::MAX,
    ensures
        final(state)@ == old(state)@.after_move(from as int, to as int),
        match old(state)@.en_passant_victim(from as int, to as int) {
            Some(sq) => captured == Some(sq as i8),
            None => captured is None,
        },
{
    // the pawn taken en passant
    proof {
        lemma_bit_test(state.white, from as u64);
        lemma_bit_test(state.pawn, from as u64);
    }
    let en = if state.pawn & (1u64 << from) != 0 && state.en_passant != 0 && state.en_passant
        == to {
        if state.white & (1u64 << from) == 0 {
            Some(state.en_passant as i8 + RANK_STEP)
        } else {
            Some(state.en_passant as i8 - RANK_STEP)
        }
    } else {
        None
    };

    // the move itself
    state.move_piece(from, to);

    en
}

/// The squares the piece on `loc` can move to, in increasing order.
pub fn get_valid_moves(state: &GameState, loc: u8) -> (moves: Vec<u8>)
    requires
        loc < 64,
        state@.pawn.contains(loc as int) && !state@.white.contains(loc as int) ==> state.en_passant
            < 64,
    ensures
        lists_squares(moves@, state@.valid_moves(loc as int)),
{
    ret_loc(state.get_valid_moves(loc))
}

/// Character `p` of the text of a bitboard: its 64 binary digits, highest square first,
/// in eight groups of eight separated by single spaces (71 characters in all).
pub open spec fn bitboard_char(b: u64, p: int) -> u8 {
    if p % 9 == 8 {
        32
    } else if bit(b, (63 - (8 * (p / 9) + p % 9)) as u64) {
        49
    } else {
        48
    }
}

/// Square `sq` of a bitboard is shown as '1' if marked and '0' otherwise, in group
/// `(63 - sq) / 8` at place `(63 - sq) % 8`; the seven characters between groups are
/// spaces.
pub proof fn law_bitboard_text(b: u64, sq: int, g: int)
    requires
        0 <= sq < 64,
        1 <= g < 8,
    ensures
        bitboard_char(b, 9 * ((63 - sq) / 8) + (63 - sq) % 8) == (if squares(b).contains(sq) {
            49u8
        } else {
            48u8
        }),
        bitboard_char(b, 9 * g - 1) == 32u8,
{
    let r = 63 - sq;
    let pos = 9 * (r / 8) + r % 8;
    assert(pos % 9 == r % 8 && pos / 9 == r / 8) by (nonlinear_arith)
        requires
            pos == 9 * (r / 8) + r % 8,
            0 <= r < 64,
    ;
    assert(8 * (pos / 9) + pos % 9 == r);
    assert((9 * g - 1) % 9 == 8) by (nonlinear_arith)
        requires
            1 <= g < 8,
    ;
}

/// The text of a bitboard, as ASCII bytes: binary digits, highest square first, in
/// groups of eight separated by spaces.
pub fn format_bitboard(val: u64) -> (text: Vec<u8>)
    ensures
        text.len() == 71,
        forall|p: int| 0 <= p < 71 ==> text[p] == bitboard_char(val, p),
{
    let mut text: Vec<u8> = Vec::new();
    let mut i: u64 = 0;
    while i < 64
        invariant
            i <= 64,
            i == 0 ==> text.len() == 0,
            i > 0 ==> text.len() == i + (i - 1) / 8,
            forall|p: int| 0 <= p < text.len() ==> text[p] == bitboard_char(val, p),
        decreases 64 - i,
    {
        if i > 0 && i % 8 == 0 {
            text.push(32u8);
        }
        let digit = if (val >> (63 - i)) & 1 == 1 {
            49u8
        } else {
            48u8
        };
        text.push(digit);
        i += 1;
    }
    text
}

} // verus!
