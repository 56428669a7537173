//! Bitboard chess engine: board state, piece movement and move generation.

pub mod bits;
pub mod consts;
pub mod game_state;
pub mod gen_moves;
pub mod commands;
pub mod piece_type;
