//! Pawn moves of either colour, from one formula.

use vstd::prelude::*;

use crate::bits::{bit, file, lemma_bit_ops, lemma_file_rank, rank, squares};
use crate::game_state::{GameState, Position};

verus! {

/// `t` is the square the pawn formula reaches from `loc` with the step `k`: it goes `k`
/// squares up, which must stay below 64, and then `back` squares down.
pub open spec fn pawn_reach(loc: int, back: int, k: int, t: int) -> bool {
    loc + k < 64 && t == loc + k - back
}

impl Position {
    /// Pawn moves from `loc`.  A pawn on a black square moves down (towards square 0),
    /// any other pawn up: the formula lays its pattern out upwards from `loc` and, for
    /// black, shifts it two ranks down (`back` is 16), so a square is lost when its
    /// upward position passes square 63.  The moves are, on another rank than `loc`:
    /// the square one rank ahead if it is empty; from the starting rank (rank 1 for
    /// white, 6 for black) with the square ahead empty, also the square two ranks ahead
    /// (and, for black, the pawn's own square) if empty; and the diagonal squares that
    /// hold a piece of the other colour: the step 7 (towards the lower file) unless the
    /// pawn is on file 0, the step 9 (towards the higher file) unless it is on file 7.
    pub open spec fn pawn_moves(self, loc: int) -> Set<int> {
        let blk = self.black.contains(loc);
        let back = if blk {
            16int
        } else {
            0int
        };
        let occ = self.occupied();
        let start = if blk {
            rank(loc) == 6
        } else {
            rank(loc) == 1
        };
        let ahead_free = loc + 8 < 64 && loc + 8 - back >= 0 && !occ.contains(loc + 8 - back);
        let enemy = if blk {
            self.white
        } else {
            self.black
        };
        Set::new(
            |t: int|
                {
                    &&& 0 <= t < 64
                    &&& rank(t) != rank(loc)
                    &&& {
                        ||| pawn_reach(loc, back, 8, t) && !occ.contains(t)
                        ||| start && ahead_free && (pawn_reach(loc, back, 0, t) || pawn_reach(
                            loc,
                            back,
                            16,
                            t,
                        )) && !occ.contains(t)
                        ||| (file(loc) != 0 && pawn_reach(loc, back, 7, t) || file(loc) != 7
                            && pawn_reach(loc, back, 9, t)) && enemy.contains(t)
                    }
                },
        )
    }
}

/// The pawn bitboard formula.
pub open spec fn pawn_mask(loc: u8, w: u64, b: u64) -> u64 {
    let g1 = ((b >> loc) & 1) as u8;
    let g3 = loc & !7u8;
    let g2 = (!g1 & ((g3 == 8u8) as u8)) | (g1 & ((g3 == 48u8) as u8));
    let g4 = g1 << 4u8;
    let v1 = w | b;
    let v2 = 0x100u64 << loc >> g4;
    let v3 = (g2 * ((((v1 ^ v2) & v2) != 0u64) as u8)) as u8;
    let v2 = v2 | (((0x10001u64 * (v3 as u64)) as u64) << loc >> g4);
    let v1 = (v1 ^ v2) & v2;
    let d = (if g1 != 0u8 {
        w
    } else {
        b
    }) & ((((if loc & 7u8 != 0u8 {
        0x80u64
    } else {
        0u64
    }) | (if loc & 7u8 != 7u8 {
        0x200u64
    } else {
        0u64
    })) << loc) >> g4);
    (v1 | d) & !(0xffu64 << g3)
}

/// What the pawn formula marks, square by square.
pub open spec fn pawn_mask_marks(loc: u64, w: u64, b: u64, t: u64) -> bool {
    let blk = bit(b, loc);
    let back: u64 = if blk {
        16
    } else {
        0
    };
    let start = if blk {
        loc >> 3 == 6
    } else {
        loc >> 3 == 1
    };
    let ahead = (loc + 8 - back) as u64;
    let ahead_free = loc + 8 < 64 && loc + 8 >= back && !bit(w, ahead) && !bit(b, ahead);
    let free = !bit(w, t) && !bit(b, t);
    let enemy = if blk {
        bit(w, t)
    } else {
        bit(b, t)
    };
    &&& t >> 3 != loc >> 3
    &&& {
        ||| loc + 8 < 64 && t + back == loc + 8 && free
        ||| start && ahead_free && ((t + back == loc) || (loc + 16 < 64 && t + back == loc + 16))
            && free
        ||| ((loc & 7 != 0 && loc + 7 < 64 && t + back == loc + 7) || (loc & 7 != 7 && loc + 9
            < 64 && t + back == loc + 9)) && enemy
    }
}

proof fn lemma_pawn_mask(loc: u8, w: u64, b: u64, t: u64)
    by (bit_vector)
    requires
        loc < 64,
        t < 64,
    ensures
        bit(pawn_mask(loc, w, b), t) == pawn_mask_marks(loc as u64, w, b, t),
{
}

/// Pawn moves stay on the squares a pawn may reach: one or two ranks ahead on its own
/// file, or one rank ahead on a neighbouring file, where ahead is up for a pawn that is
/// not black and down for a black one.
pub proof fn law_pawn_moves_in_reach(p: Position, loc: int)
    requires
        0 <= loc < 64,
    ensures
        forall|t: int| #[trigger]
            p.pawn_moves(loc).contains(t) ==> {
                let ahead = if p.black.contains(loc) {
                    -8int
                } else {
                    8int
                };
                ||| t == loc + ahead || t == loc + 2 * ahead
                ||| file(loc) != 0 && t == loc + ahead - 1
                ||| file(loc) != 7 && t == loc + ahead + 1
            },
{
}

/// A pawn that is not on a black square moves up: one square ahead exactly when it is
/// empty; two squares ahead exactly from rank 1 with both squares empty; and onto each
/// forward diagonal exactly when that square holds a black piece and the step does not
/// cross the board edge.
pub proof fn law_white_pawn_moves(p: Position, loc: int)
    requires
        0 <= loc < 64,
        !p.black.contains(loc),
    ensures
        p.pawn_moves(loc).contains(loc + 8) <==> (loc + 8 < 64 && !p.occupied().contains(
            loc + 8,
        )),
        p.pawn_moves(loc).contains(loc + 16) <==> (rank(loc) == 1 && !p.occupied().contains(
            loc + 8,
        ) && !p.occupied().contains(loc + 16)),
        p.pawn_moves(loc).contains(loc + 7) <==> (file(loc) != 0 && loc + 7 < 64
            && p.black.contains(loc + 7)),
        p.pawn_moves(loc).contains(loc + 9) <==> (file(loc) != 7 && loc + 9 < 64
            && p.black.contains(loc + 9)),
{
}

/// A pawn on a black square moves down: one square ahead exactly when it is empty;
/// two squares ahead exactly from rank 6 with both squares empty; and onto each
/// forward diagonal exactly when that square holds a white piece, the step does not
/// cross the board edge, and the formula's upward pattern (step 7 or 9 above the pawn)
/// stays on the board.
pub proof fn law_black_pawn_moves(p: Position, loc: int)
    requires
        0 <= loc < 64,
        p.black.contains(loc),
    ensures
        p.pawn_moves(loc).contains(loc - 8) <==> (loc >= 8 && loc + 8 < 64
            && !p.occupied().contains(loc - 8)),
        p.pawn_moves(loc).contains(loc - 16) <==> (rank(loc) == 6 && !p.occupied().contains(
            loc - 8,
        ) && !p.occupied().contains(loc - 16)),
        p.pawn_moves(loc).contains(loc - 9) <==> (file(loc) != 0 && loc >= 9 && loc + 7 < 64
            && p.white.contains(loc - 9)),
        p.pawn_moves(loc).contains(loc - 7) <==> (file(loc) != 7 && loc >= 7 && loc + 9 < 64
            && p.white.contains(loc - 7)),
{
}

impl GameState {
    /// Pawn moves from `loc`, as a bitboard, for a pawn of either colour.
    pub fn generate_pawn_moves(&self, loc: u8) -> (moves: u64)
        requires
            loc < 64,
        ensures
            squares(moves) == self@.pawn_moves(loc as int),
    {
        // the pawn's colour, rank and direction
        let g1 = (self.black >> loc & 1) as u8;
        let g3 = loc & !7;
        let g2 = (!g1 & (g3 == 8) as u8) | (g1 & (g3 == 48) as u8);
        let g4 = g1 << 4;
        proof {
            lemma_pawn_flags(self.black, loc);
        }

        // one square ahead
        let mut v1 = self.white | self.black;
        let mut v2 = 0x100u64 << loc >> g4;

        // two squares ahead
        let v3 = g2 * ((v1 ^ v2) & v2 != 0) as u8;
        v2 |= 0x10001 * (v3 as u64) << loc >> g4;
        v1 ^= v2;
        v1 &= v2;

        // diagonals, not across the board edge
        let g5 = loc & 7;
        let mut v2 = if g1 != 0 {
            self.white
        } else {
            self.black
        };
        v2 &= ((((g5 != 0) as u64) << 7) | (((g5 != 7) as u64) << 9)) << loc >> g4;

        let moves = (v1 | v2) & !(0xff << g3);
        assert(moves == pawn_mask(loc, self.white, self.black));
        proof {
            let p = self@;
            assert forall|t: int| #![trigger squares(moves).contains(t)]
                squares(moves).contains(t) <==> p.pawn_moves(loc as int).contains(t) by {
                if 0 <= t < 64 {
                    lemma_pawn_mask(loc, self.white, self.black, t as u64);
                    lemma_file_rank(loc as u64);
                    lemma_file_rank(t as u64);
                }
            }
            assert(squares(moves) =~= p.pawn_moves(loc as int));
        }
        moves
    }
}

/// The colour flag is 0 or 1, and the double-step flag is 0 or 1.
proof fn lemma_pawn_flags(b: u64, loc: u8)
    by (bit_vector)
    requires
        loc < 64,
    ensures
        ((b >> loc) & 1) as u8 <= 1,
        ((((b >> loc) & 1) as u8) << 4u8) <= 16,
        (loc & !7u8) <= 56,
        (1u64 << 7u64) == 0x80u64,
        (0u64 << 7u64) == 0u64,
        (1u64 << 9u64) == 0x200u64,
        (0u64 << 9u64) == 0u64,
{
}

} // verus!
