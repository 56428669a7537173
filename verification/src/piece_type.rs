//! Piece kinds, and a board that names the piece on every square.

use vstd::prelude::*;

use crate::game_state::Position;

verus! {

/// The kinds of piece, pawns split by colour.
#[derive(Debug, Clone, Copy, PartialEq, Eq, Structural)]
pub enum Piece {
    WPawn,
    BPawn,
    Knight,
    Bishop,
    Rook,
    Queen,
    King,
    Empty,
}

/// A board that names the piece on each of the 64 squares.
#[derive(Debug, Clone, Copy)]
pub struct PieceType(pub [Piece; 64]);

/// The back-rank piece on file `f`: rook, knight, bishop, queen, king, bishop,
/// knight, rook.
pub open spec fn back_rank_piece(f: int) -> Piece {
    if f == 0 || f == 7 {
        Piece::Rook
    } else if f == 1 || f == 6 {
        Piece::Knight
    } else if f == 2 || f == 5 {
        Piece::Bishop
    } else if f == 3 {
        Piece::Queen
    } else {
        Piece::King
    }
}

/// The piece on square `i` at the start: back ranks on squares 0..8 and 56..64, white
/// pawns on 8..16, black pawns on 48..56, nothing in between.
pub open spec fn start_piece(i: int) -> Piece {
    if i < 8 {
        back_rank_piece(i)
    } else if i < 16 {
        Piece::WPawn
    } else if i < 48 {
        Piece::Empty
    } else if i < 56 {
        Piece::BPawn
    } else {
        back_rank_piece(i - 56)
    }
}

/// The named starting board agrees with the starting bitboards square by square:
/// white and black pawns, rooks, knights, bishops and empty squares coincide, and the
/// royal pieces share the same squares (the named board puts the queen on file 3 and
/// the king on file 4, the bitboards the other way round).
pub proof fn law_start_matches_initial(i: int)
    requires
        0 <= i < 64,
    ensures
        (start_piece(i) == Piece::WPawn) <==> (Position::initial().pawn.contains(i)
            && Position::initial().white.contains(i)),
        (start_piece(i) == Piece::BPawn) <==> (Position::initial().pawn.contains(i)
            && Position::initial().black.contains(i)),
        (start_piece(i) == Piece::Rook) <==> Position::initial().rook.contains(i),
        (start_piece(i) == Piece::Knight) <==> Position::initial().knight.contains(i),
        (start_piece(i) == Piece::Bishop) <==> Position::initial().bishop.contains(i),
        (start_piece(i) == Piece::Queen || start_piece(i) == Piece::King) <==> (
        Position::initial().queen.contains(i) || Position::initial().king.contains(i)),
        (start_piece(i) == Piece::Empty) <==> !Position::initial().occupied().contains(i),
{
}

impl Default for PieceType {
    /// The starting position.
    fn default() -> (board: Self)
        ensures
            forall|i: int| 0 <= i < 64 ==> board.0[i] == start_piece(i),
    {
        let board = PieceType([
            // eighth rank
            Piece::Rook, Piece::Knight, Piece::Bishop, Piece::Queen,
            Piece::King, Piece::Bishop, Piece::Knight, Piece::Rook,
            // seventh rank
            Piece::WPawn, Piece::WPawn, Piece::WPawn, Piece::WPawn,
            Piece::WPawn, Piece::WPawn, Piece::WPawn, Piece::WPawn,
            // sixth to third ranks
            Piece::Empty, Piece::Empty, Piece::Empty, Piece::Empty,
            Piece::Empty, Piece::Empty, Piece::Empty, Piece::Empty,
            Piece::Empty, Piece::Empty, Piece::Empty, Piece::Empty,
            Piece::Empty, Piece::Empty, Piece::Empty, Piece::Empty,
            Piece::Empty, Piece::Empty, Piece::Empty, Piece::Empty,
            Piece::Empty, Piece::Empty, Piece::Empty, Piece::Empty,
            Piece::Empty, Piece::Empty, Piece::Empty, Piece::Empty,
            Piece::Empty, Piece::Empty, Piece::Empty, Piece::Empty,
            // second rank
            Piece::BPawn, Piece::BPawn, Piece::BPawn, Piece::BPawn,
            Piece::BPawn, Piece::BPawn, Piece::BPawn, Piece::BPawn,
            // first rank
            Piece::Rook, Piece::Knight, Piece::Bishop, Piece::Queen,
            Piece::King, Piece::Bishop, Piece::Knight, Piece::Rook,
        ]);
        assert(board.0@ =~= Seq::new(64, |i: int| start_piece(i)));
        board
    }
}

} // verus!
