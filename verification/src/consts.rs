//! Board geometry constants.

use vstd::prelude::*;

verus! {

/// Distance, in squares, between two neighbouring ranks.
pub const RANK_SHIFT: u8 = 8;

/// Index of the first square of the second rank.
pub const RANK_INDEX: u8 = 8;

/// Step towards the last rank.
pub const RANK_UP: i8 = 8;

/// Step towards the first rank.
pub const RANK_DOWN: i8 = -8;

/// One rank, as a signed step.
pub const RANK_STEP: i8 = 8;

/// One file, as a signed step.
pub const FILE_STEP: i8 = 1;

/// Centre square of the pawn pattern.
pub const PAWN_CENTER: u8 = 1;

/// Shift that lines the pawn pattern up with its square.
pub const SHIFT_BASE: u32 = 9;

/// Square on which the knight pattern `0xa1100110a` is centred.
pub const KNIGHT_CENTER: u8 = 18;

} // verus!
