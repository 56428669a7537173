//! Knight moves.

use vstd::prelude::*;

use crate::bits::{bit, dist, file, lemma_bit_test, lemma_file_rank, rank, squares};
use crate::consts::KNIGHT_CENTER;
use crate::game_state::{GameState, Position};

verus! {

/// `a` and `b` are a knight's jump apart: one file and two ranks, or two files and one rank.
pub open spec fn knight_jump(a: int, b: int) -> bool {
    ||| dist(file(a), file(b)) == 1 && dist(rank(a), rank(b)) == 2
    ||| dist(file(a), file(b)) == 2 && dist(rank(a), rank(b)) == 1
}

/// The squares a knight on `loc` reaches on an empty board.
pub open spec fn knight_targets(loc: int) -> Set<int> {
    Set::new(|t: int| 0 <= t < 64 && knight_jump(loc, t))
}

impl Position {
    /// The pieces of the side whose piece stands on `loc`: white if `loc` is white,
    /// black otherwise.
    pub open spec fn own_side(self, loc: int) -> Set<int> {
        if self.white.contains(loc) {
            self.white
        } else {
            self.black
        }
    }

    /// Knight moves from `loc`: every jump target not held by the mover's own side.
    pub open spec fn knight_moves(self, loc: int) -> Set<int> {
        knight_targets(loc).difference(self.own_side(loc))
    }
}

/// Knight moves, whatever the knight's colour: exactly the squares of the board one
/// file and two ranks, or two files and one rank, away that the knight's own side does
/// not hold.
pub proof fn law_knight_moves(p: Position, loc: int)
    requires
        0 <= loc < 64,
    ensures
        forall|t: int| #[trigger]
            p.knight_moves(loc).contains(t) <==> {
                &&& 0 <= t < 64
                &&& {
                    let df = dist(loc % 8, t % 8);
                    let dr = dist(loc / 8, t / 8);
                    (df == 1 && dr == 2) || (df == 2 && dr == 1)
                }
                &&& !(if p.white.contains(loc) {
                    p.white
                } else {
                    p.black
                }).contains(t)
            },
{
}

/// The jump pattern, clipped to the files a knight on `l` can reach without wrapping.
pub open spec fn knight_pattern(l: u64) -> u64 {
    let side: u64 = if l & 7 < 4 {
        0xffff_ffff_ffff_ffffu64
    } else {
        0u64
    };
    ((side & 0x3f3f3f3f3f3f3f3fu64) | (!side & 0xfcfcfcfcfcfcfcfcu64)) & (if l < 18 {
        0xa1100110au64 >> ((18 - l) as u64)
    } else {
        0xa1100110au64 << ((l - 18) as u64)
    })
}

/// The knight jump, with file and rank taken by masks.
pub open spec fn knight_jump_bits(l: u64, t: u64) -> bool {
    let fl = l & 7;
    let ft = t & 7;
    let rl = l >> 3;
    let rt = t >> 3;
    ||| (fl + 1 == ft || ft + 1 == fl) && (rl + 2 == rt || rt + 2 == rl)
    ||| (fl + 2 == ft || ft + 2 == fl) && (rl + 1 == rt || rt + 1 == rl)
}

proof fn lemma_knight_pattern_bits(l: u64, t: u64)
    by (bit_vector)
    requires
        l < 64,
        t < 64,
    ensures
        bit(knight_pattern(l), t) == knight_jump_bits(l, t),
{
}

/// Keeping the squares of the pattern that the mover's own side does not hold.
proof fn lemma_side_filter(km: u64, w: u64, b: u64, side: u64, t: u64)
    by (bit_vector)
    requires
        t < 64,
        side == 0u64 || side == 0xffff_ffff_ffff_ffffu64,
    ensures
        bit(km & ((side & (!w & (b | km))) | (!side & (!b & (w | km)))), t) == (bit(km, t) && (
        if side == 0u64 {
            !bit(b, t)
        } else {
            !bit(w, t)
        })),
{
}

/// The knight pattern marks exactly the knight targets.
proof fn lemma_knight_pattern(l: u64, t: u64)
    requires
        l < 64,
        t < 64,
    ensures
        bit(knight_pattern(l), t) == knight_jump(l as int, t as int),
{
    lemma_knight_pattern_bits(l, t);
    lemma_file_rank(l);
    lemma_file_rank(t);
}

impl GameState {
    /// Knight moves from `loc`, as a bitboard.
    pub fn generate_knight_moves(&self, loc: u8) -> (moves: u64)
        requires
            loc < 64,
        ensures
            squares(moves) == self@.knight_moves(loc as int),
    {
        // keep the pattern from wrapping round the board edge
        let v1: u64 = 0u64.wrapping_sub((loc & 7 < 4) as u64);
        let mut knight_moves = (v1 & 0x3f3f3f3f3f3f3f3fu64) | (!v1 & 0xfcfcfcfcfcfcfcfcu64);

        // place the jump pattern on `loc`
        knight_moves &= if loc < KNIGHT_CENTER {
            0xa1100110au64 >> (KNIGHT_CENTER - loc)
        } else {
            0xa1100110au64 << (loc - KNIGHT_CENTER)
        };
        assert(knight_moves == knight_pattern(loc as u64));

        // drop the squares held by the mover's own side
        let v1 = 0u64.wrapping_sub((self.white >> loc) & 1);
        let v2 = !self.white & (self.black | knight_moves);
        let v3 = !self.black & (self.white | knight_moves);
        let ghost km = knight_moves;
        proof {
            lemma_bit_test(self.white, loc as u64);
        }
        knight_moves &= (v1 & v2) | (!v1 & v3);
        proof {
            assert forall|t: int| #![trigger squares(knight_moves).contains(t)]
                squares(knight_moves).contains(t) <==> self@.knight_moves(loc as int).contains(
                t,
            ) by {
                if 0 <= t < 64 {
                    lemma_side_filter(km, self.white, self.black, v1, t as u64);
                    lemma_knight_pattern(loc as u64, t as u64);
                }
            }
            assert(squares(knight_moves) =~= self@.knight_moves(loc as int));
        }
        knight_moves
    }
}

} // verus!
