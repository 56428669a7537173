//! King moves.

use vstd::prelude::*;

use crate::game_state::GameState;

verus! {

impl GameState {
    /// King moves from `loc`: none are generated, the bitboard is empty.
    pub fn generate_king_moves(&self, loc: u8) -> (moves: u64)
        ensures
            moves == 0,
    {
        0x0
    }
}

} // verus!
