//! Rook moves.

use vstd::prelude::*;

use crate::game_state::GameState;

verus! {

impl GameState {
    /// Rook moves from `loc`: none are generated, the bitboard is empty.
    pub fn generate_rook_moves(&self, loc: u8) -> (moves: u64)
        ensures
            moves == 0,
    {
        0x0
    }
}

} // verus!
