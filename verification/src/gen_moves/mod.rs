//! Move generation, one module per piece kind.

pub mod bishop;
pub mod bpawn;
pub mod king;
pub mod knight;
pub mod pawn;
pub mod queen;
pub mod rook;
