//! Black pawn moves.

use vstd::prelude::*;

use crate::bits::{bit, file, lemma_bit_ops, lemma_file_rank, rank, squares};
use crate::consts::{FILE_STEP, RANK_SHIFT, RANK_STEP};
use crate::game_state::{GameState, Position};

verus! {

impl Position {
    /// A square that a black pawn may capture on: a white piece, or the en passant
    /// square when there is one (the value 0 means none) and the move counter is odd
    /// (black to move).
    pub open spec fn bpawn_capturable(self, t: int) -> bool {
        self.white.contains(t) || (self.move_count % 2 == 1 && self.en_passant != 0 && t
            == self.en_passant)
    }

    /// Black pawn moves from `loc` (black pawns move towards square 0):
    /// one square down if it is empty; two squares down from the seventh rank (rank 6)
    /// if both are empty; and a diagonal step down onto a capturable square, to the
    /// lower file unless on file 0, to the higher file unless on file 7 or on square 62.
    pub open spec fn bpawn_moves(self, loc: int) -> Set<int> {
        let occ = self.occupied();
        let one = loc >= 8 && !occ.contains(loc - 8);
        let two = one && rank(loc) == 6 && !occ.contains(loc - 16);
        Set::new(
            |t: int|
                {
                    ||| one && t == loc - 8
                    ||| two && t == loc - 16
                    ||| file(loc) != 0 && loc >= 9 && t == loc - 9 && self.bpawn_capturable(t)
                    ||| file(loc) != 7 && loc >= 7 && loc + 2 < 64 && t == loc - 7
                        && self.bpawn_capturable(t)
                },
        )
    }
}

/// The black pawn bitboard formula, on the occupied squares `occ` and the capturable
/// squares `tgt`.
pub open spec fn bpawn_mask(loc: u64, occ: u64, tgt: u64) -> u64 {
    let v2 = !occ & (1u64 << loc >> 8u64);
    let dbl: u64 = if loc >> 3 == 6 {
        8
    } else {
        0
    };
    let v2 = v2 | (!occ & (v2 >> dbl));
    let fl = loc & 7;
    let v4: u64 = (if fl != 7 {
        4u64
    } else {
        0u64
    }) | (if fl != 0 {
        1u64
    } else {
        0u64
    });
    v2 | ((v4 << loc >> 9u64) & tgt)
}

proof fn lemma_bpawn_mask(loc: u64, occ: u64, tgt: u64, t: u64)
    by (bit_vector)
    requires
        loc < 64,
        t < 64,
    ensures
        bit(bpawn_mask(loc, occ, tgt), t) == {
            ||| t + 8 == loc && !bit(occ, t)
            ||| t + 16 == loc && loc >> 3 == 6 && !bit(occ, (t + 8) as u64) && !bit(occ, t)
            ||| t + 9 == loc && loc & 7 != 0 && bit(tgt, t)
            ||| t + 7 == loc && loc & 7 != 7 && loc + 2 < 64 && bit(tgt, t)
        },
{
}

proof fn lemma_u8_masks(loc: u8)
    by (bit_vector)
    requires
        loc < 64,
    ensures
        (loc & !7u8 == 48u8) == ((loc as u64) >> 3 == 6),
        (loc & 7u8) as u64 == (loc as u64) & 7,
        (1u8 << 3u8) == 8u8,
        (0u8 << 3u8) == 0u8,
        (1u64 << 2u64) == 4u64,
        (0u64 << 2u64) == 0u64,
{
}

/// The en passant mask marks the en passant square exactly when the counter is odd.
proof fn lemma_en_passant_bit(mc: u32, ep: u8, t: u64)
    requires
        ep < 64,
        t < 64,
    ensures
        bit(((mc % 2) as u64) << ep, t) == (mc % 2 == 1 && t == ep),
{
    lemma_shift_one_or_zero((mc % 2) as u64, ep as u64, t);
}

proof fn lemma_shift_one_or_zero(x: u64, s: u64, t: u64)
    by (bit_vector)
    requires
        x == 0 || x == 1,
        s < 64,
        t < 64,
    ensures
        bit(x << s, t) == (x == 1 && t == s),
{
}

/// Black pawn moves go down: one square ahead exactly when it is empty; two squares
/// ahead exactly from rank 6 with both squares empty; and onto each forward diagonal
/// (not across the board edge) exactly when that square holds a white piece or is the
/// en passant square on black's turn (odd move counter, nonzero en passant value).
/// Nothing else is offered.
pub proof fn law_bpawn_moves(p: Position, loc: int)
    requires
        0 <= loc < 64,
    ensures
        p.bpawn_moves(loc).contains(loc - 8) <==> (loc >= 8 && !p.occupied().contains(loc - 8)),
        p.bpawn_moves(loc).contains(loc - 16) <==> (rank(loc) == 6 && !p.occupied().contains(
            loc - 8,
        ) && !p.occupied().contains(loc - 16)),
        p.bpawn_moves(loc).contains(loc - 9) <==> (file(loc) != 0 && loc >= 9 && (p.white.contains(
            loc - 9,
        ) || (p.move_count % 2 == 1 && p.en_passant != 0 && p.en_passant == loc - 9))),
        p.bpawn_moves(loc).contains(loc - 7) <==> (file(loc) != 7 && loc >= 7 && loc + 2 < 64 && (
        p.white.contains(loc - 7) || (p.move_count % 2 == 1 && p.en_passant != 0 && p.en_passant
            == loc - 7))),
        forall|t: int| #[trigger]
            p.bpawn_moves(loc).contains(t) ==> t == loc - 8 || t == loc - 16 || t == loc - 9 || t
                == loc - 7,
{
}

impl GameState {
    /// Black pawn moves from `loc`, as a bitboard.
    pub fn generate_bpawn_moves(&self, loc: u8) -> (moves: u64)
        requires
            loc < 64,
            self.en_passant < 64,
        ensures
            squares(moves) == self@.bpawn_moves(loc as int),
    {
        // one square forward
        let v1 = self.white | self.black;
        let mut v2 = !v1 & (0x1u64 << loc >> RANK_SHIFT);

        // two squares forward
        proof {
            lemma_u8_masks(loc);
        }
        v2 |= !v1 & (v2 >> (((loc & !7 == 48) as u8) << 3));

        // en passant
        let v3 = if self.en_passant != 0 {
            ((self.move_count % 2) as u64) << self.en_passant
        } else {
            0
        };

        // diagonals
        let g2 = loc & 7;
        let v4 = (((g2 != 7) as u64) << 2) | ((g2 != 0) as u64);

        let moves = v2 | (v4 << loc >> (RANK_STEP + FILE_STEP)) & (self.white | v3);
        assert(moves == bpawn_mask(loc as u64, v1, self.white | v3));
        proof {
            let p = self@;
            assert forall|t: int| #![trigger squares(moves).contains(t)]
                squares(moves).contains(t) <==> p.bpawn_moves(loc as int).contains(t) by {
                if 0 <= t < 64 {
                    let tt = t as u64;
                    lemma_bpawn_mask(loc as u64, v1, self.white | v3, tt);
                    lemma_bit_ops(self.white, self.black, tt);
                    lemma_bit_ops(self.white, v3, tt);
                    if t + 8 < 64 {
                        lemma_bit_ops(self.white, self.black, (t + 8) as u64);
                    }
                    if self.en_passant != 0 {
                        lemma_en_passant_bit(self.move_count, self.en_passant, tt);
                    }
                    lemma_file_rank(loc as u64);
                }
            }
            assert(squares(moves) =~= p.bpawn_moves(loc as int));
        }
        moves
    }
}

} // verus!
