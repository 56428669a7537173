//! The game state: one bitboard per colour and per piece kind.

use vstd::prelude::*;

use crate::bits::{
    bit, dist, lemma_bit_test, lemma_squares_and_not, lemma_squares_beside, lemma_squares_by_bits,
    lemma_squares_clear, lemma_squares_place, lemma_squares_zero, squares,
};
use crate::consts::RANK_SHIFT;

verus! {

/// The board as bitboards, together with the move counter and the en passant square
/// (0 when there is none).
#[derive(Debug)]
pub struct GameState {
    pub move_count: u32,
    pub en_passant: u8,
    pub white: u64,
    pub black: u64,
    pub pawn: u64,
    pub rook: u64,
    pub knight: u64,
    pub bishop: u64,
    pub queen: u64,
    pub king: u64,
    pub error: u64,
}

impl Default for GameState {
    /// An empty board: every bitboard and counter zero.
    fn default() -> (state: Self)
        ensures
            state.move_count == 0,
            state.en_passant == 0,
            state.white == 0,
            state.black == 0,
            state.pawn == 0,
            state.rook == 0,
            state.knight == 0,
            state.bishop == 0,
            state.queen == 0,
            state.king == 0,
            state.error == 0,
    {
        GameState {
            move_count: 0,
            en_passant: 0,
            white: 0,
            black: 0,
            pawn: 0,
            rook: 0,
            knight: 0,
            bishop: 0,
            queen: 0,
            king: 0,
            error: 0,
        }
    }
}

/// The state as sets of squares: what `GameState` means.
#[verifier::ext_equal]
pub struct Position {
    pub move_count: int,
    pub en_passant: int,
    pub white: Set<int>,
    pub black: Set<int>,
    pub pawn: Set<int>,
    pub rook: Set<int>,
    pub knight: Set<int>,
    pub bishop: Set<int>,
    pub queen: Set<int>,
    pub king: Set<int>,
    pub error: Set<int>,
}

impl View for GameState {
    type V = Position;

    open spec fn view(&self) -> Position {
        Position {
            move_count: self.move_count as int,
            en_passant: self.en_passant as int,
            white: squares(self.white),
            black: squares(self.black),
            pawn: squares(self.pawn),
            rook: squares(self.rook),
            knight: squares(self.knight),
            bishop: squares(self.bishop),
            queen: squares(self.queen),
            king: squares(self.king),
            error: squares(self.error),
        }
    }
}

/// The bitboard that a move carries along: the one holding the moving piece.
#[derive(PartialEq, Eq, Structural, Clone, Copy)]
pub enum Layer {
    Error,
    Pawn,
    Knight,
    Bishop,
    Rook,
    Queen,
    King,
}

/// The squares `lo..hi`.
pub open spec fn square_range(lo: int, hi: int) -> Set<int> {
    Set::new(|i: int| lo <= i < hi)
}

/// A piece-kind set after a move from `from` to `to`: the carrying set moves its mark,
/// a set that also held `from` (`held`) keeps it, and every other set loses `to`.
pub open spec fn layer_after(s: Set<int>, carries: bool, held: bool, from: int, to: int) -> Set<
    int,
> {
    if carries {
        s.remove(from).insert(to)
    } else if held {
        s
    } else {
        s.remove(to)
    }
}

impl Position {
    /// The starting position: white on the first two ranks, black on the last two.
    pub open spec fn initial() -> Position {
        Position {
            move_count: 0,
            en_passant: 0,
            white: square_range(0, 16),
            black: square_range(48, 64),
            pawn: square_range(8, 16) + square_range(48, 56),
            rook: set![0, 7, 56, 63],
            knight: set![1, 6, 57, 62],
            bishop: set![2, 5, 58, 61],
            queen: set![4, 60],
            king: set![3, 59],
            error: Set::empty(),
        }
    }

    /// Squares held by either colour.
    pub open spec fn occupied(self) -> Set<int> {
        self.white + self.black
    }

    /// Squares held by some piece kind.
    pub open spec fn pieces(self) -> Set<int> {
        self.pawn + self.knight + self.bishop + self.rook + self.queen + self.king
    }

    /// No square carries two piece kinds.
    pub open spec fn kinds_disjoint(self) -> bool {
        &&& self.pawn.disjoint(self.knight)
        &&& self.pawn.disjoint(self.bishop)
        &&& self.pawn.disjoint(self.rook)
        &&& self.pawn.disjoint(self.queen)
        &&& self.pawn.disjoint(self.king)
        &&& self.knight.disjoint(self.bishop)
        &&& self.knight.disjoint(self.rook)
        &&& self.knight.disjoint(self.queen)
        &&& self.knight.disjoint(self.king)
        &&& self.bishop.disjoint(self.rook)
        &&& self.bishop.disjoint(self.queen)
        &&& self.bishop.disjoint(self.king)
        &&& self.rook.disjoint(self.queen)
        &&& self.rook.disjoint(self.king)
        &&& self.queen.disjoint(self.king)
    }

    /// A consistent board: every occupied square has exactly one colour and one kind,
    /// and the error board is empty.
    pub open spec fn consistent(self) -> bool {
        &&& self.white.disjoint(self.black)
        &&& self.occupied() == self.pieces()
        &&& self.kinds_disjoint()
        &&& self.error.is_empty()
    }

    /// A consistent board whose en passant value lies on the board.
    pub open spec fn well_formed(self) -> bool {
        &&& self.consistent()
        &&& 0 <= self.en_passant < 64
    }

    /// The board that carries a piece leaving `from`: the last of pawn, knight, bishop,
    /// rook, queen and king that holds `from`, or the error board when none does.
    /// Whether the pawn board holds it is given as `pawn_held`.
    pub open spec fn carrier(self, from: int, pawn_held: bool) -> Layer {
        if self.king.contains(from) {
            Layer::King
        } else if self.queen.contains(from) {
            Layer::Queen
        } else if self.rook.contains(from) {
            Layer::Rook
        } else if self.bishop.contains(from) {
            Layer::Bishop
        } else if self.knight.contains(from) {
            Layer::Knight
        } else if pawn_held {
            Layer::Pawn
        } else {
            Layer::Error
        }
    }

    /// The piece a pawn move from `from` to `to` takes en passant, as a set of at most
    /// one square: the other side's piece beside `to` on the mover's side (the square
    /// below `to` for a white mover, above it otherwise).
    pub open spec fn en_passant_taken(self, from: int, to: int) -> Set<int> {
        if self.white.contains(from) {
            self.black.intersect(set![to - 8])
        } else {
            self.white.intersect(set![to + 8])
        }
    }

    /// The en passant bookkeeping of a pawn move from `from` to `to`.  The value 0
    /// means there is no en passant square.  Landing on the en passant square takes the
    /// piece `en_passant_taken` off every board and clears the en passant square.
    /// Otherwise a two-rank step records the square passed over, and any other step
    /// clears it.
    pub open spec fn after_en_passant(self, from: int, to: int) -> Position {
        if self.en_passant != 0 && self.en_passant == to {
            let taken = self.en_passant_taken(from, to);
            Position {
                white: self.white.difference(taken),
                black: self.black.difference(taken),
                pawn: self.pawn.difference(taken),
                knight: self.knight.difference(taken),
                bishop: self.bishop.difference(taken),
                rook: self.rook.difference(taken),
                queen: self.queen.difference(taken),
                king: self.king.difference(taken),
                en_passant: 0,
                ..self
            }
        } else if from - to == 16 || to - from == 16 {
            Position { en_passant: (from + to) / 2, ..self }
        } else {
            Position { en_passant: 0, ..self }
        }
    }

    /// The position after the piece on `from` moves to `to`: pawn moves first do the
    /// en passant bookkeeping, the carrying board moves its mark, every other kind is
    /// cleared on `to`, the mover's colour (white if `from` is white, else black) moves
    /// and the other colour is cleared on `to`, and the move counter goes up by one.
    pub open spec fn after_move(self, from: int, to: int) -> Position {
        let pawn_held = self.pawn.contains(from);
        let p = if pawn_held {
            self.after_en_passant(from, to)
        } else {
            self
        };
        let k = p.carrier(from, pawn_held);
        let mover_white = p.white.contains(from);
        Position {
            move_count: self.move_count + 1,
            en_passant: p.en_passant,
            white: if mover_white {
                p.white.remove(from).insert(to)
            } else {
                p.white.remove(to)
            },
            black: if mover_white {
                p.black.remove(to)
            } else {
                p.black.remove(from).insert(to)
            },
            pawn: layer_after(p.pawn, k == Layer::Pawn, pawn_held, from, to),
            knight: layer_after(p.knight, k == Layer::Knight, p.knight.contains(from), from, to),
            bishop: layer_after(p.bishop, k == Layer::Bishop, p.bishop.contains(from), from, to),
            rook: layer_after(p.rook, k == Layer::Rook, p.rook.contains(from), from, to),
            queen: layer_after(p.queen, k == Layer::Queen, p.queen.contains(from), from, to),
            king: layer_after(p.king, k == Layer::King, p.king.contains(from), from, to),
            error: if k == Layer::Error {
                p.error.remove(from).insert(to)
            } else {
                p.error
            },
        }
    }

    /// The moves of the piece on `loc`: pawn moves for a white pawn, black pawn moves
    /// for any other pawn, knight moves for a knight, and none otherwise.
    pub open spec fn valid_moves(self, loc: int) -> Set<int> {
        if self.pawn.contains(loc) {
            if self.white.contains(loc) {
                self.pawn_moves(loc)
            } else {
                self.bpawn_moves(loc)
            }
        } else if self.knight.contains(loc) {
            self.knight_moves(loc)
        } else {
            Set::empty()
        }
    }
}

impl GameState {
    /// Puts every piece on its starting square and clears the counters.
    pub fn reset(&mut self)
        ensures
            final(self)@ == Position::initial(),
            final(self)@.well_formed(),
    {
        self.move_count = 0;
        self.en_passant = 0;
        self.white = 0xffff;
        self.black = 0xffffu64 << 0x30u64;
        self.pawn = 0xffu64 << 0x30u64 | 0xff00;
        self.rook = 0x81u64 << 0x38u64 | 0x81;
        self.knight = 0x42u64 << 0x38u64 | 0x42;
        self.bishop = 0x24u64 << 0x38u64 | 0x24;
        self.queen = 0x10u64 << 0x38u64 | 0x10;
        self.king = 0x08u64 << 0x38u64 | 0x08;
        self.error = 0;
        proof {
            lemma_initial_boards();
            lemma_initial_well_formed();
            assert(self@ =~= Position::initial());
        }
    }

    /// Moves the piece on `from` to `to`, capturing whatever stands on `to`.
    pub fn move_piece(&mut self, from: u8, to: u8)
        requires
            from < 64,
            to < 64,
            old(self).move_count < u32::MAX,
        ensures
            final(self)@ == old(self)@.after_move(from as int, to as int),
    {
        let ghost pre = self@;
        let from_mask = 1u64 << from;
        let to_mask = 1u64 << to;
        let mut board = Layer::Error;
        proof {
            lemma_bit_test(self.pawn, from as u64);
            lemma_squares_clear(self.pawn, to as u64);
        }

        // pawn
        if self.pawn & from_mask != 0 {
            self.handle_en_passant(from, to);
            board = Layer::Pawn;
        } else {
            self.pawn &= !to_mask;
        }
        let ghost mid = self@;

        // knight
        proof {
            lemma_bit_test(self.knight, from as u64);
            lemma_squares_clear(self.knight, to as u64);
        }
        if self.knight & from_mask != 0 {
            board = Layer::Knight;
        } else {
            self.knight &= !to_mask;
        }

        // bishop
        proof {
            lemma_bit_test(self.bishop, from as u64);
            lemma_squares_clear(self.bishop, to as u64);
        }
        if self.bishop & from_mask != 0 {
            board = Layer::Bishop;
        } else {
            self.bishop &= !to_mask;
        }

        // rook
        proof {
            lemma_bit_test(self.rook, from as u64);
            lemma_squares_clear(self.rook, to as u64);
        }
        if self.rook & from_mask != 0 {
            board = Layer::Rook;
        } else {
            self.rook &= !to_mask;
        }

        // queen
        proof {
            lemma_bit_test(self.queen, from as u64);
            lemma_squares_clear(self.queen, to as u64);
        }
        if self.queen & from_mask != 0 {
            board = Layer::Queen;
        } else {
            self.queen &= !to_mask;
        }

        // king
        proof {
            lemma_bit_test(self.king, from as u64);
            lemma_squares_clear(self.king, to as u64);
        }
        if self.king & from_mask != 0 {
            board = Layer::King;
        } else {
            self.king &= !to_mask;
        }
        assert(board == mid.carrier(from as int, pre.pawn.contains(from as int)));

        // colours
        proof {
            lemma_bit_test(self.white, from as u64);
            lemma_squares_place(self.white, from as u64, to as u64);
            lemma_squares_place(self.black, from as u64, to as u64);
            lemma_squares_clear(self.white, to as u64);
            lemma_squares_clear(self.black, to as u64);
        }
        if (self.white >> from) & 0b1 != 0 {
            self.white &= !from_mask;
            self.white |= to_mask;
            self.black &= !to_mask;
        } else {
            self.black &= !from_mask;
            self.black |= to_mask;
            self.white &= !to_mask;
        }

        // the carrying board
        match board {
            Layer::Error => {
                proof { lemma_squares_place(self.error, from as u64, to as u64); }
                self.error &= !from_mask;
                self.error |= to_mask;
            },
            Layer::Pawn => {
                proof { lemma_squares_place(self.pawn, from as u64, to as u64); }
                self.pawn &= !from_mask;
                self.pawn |= to_mask;
            },
            Layer::Knight => {
                proof { lemma_squares_place(self.knight, from as u64, to as u64); }
                self.knight &= !from_mask;
                self.knight |= to_mask;
            },
            Layer::Bishop => {
                proof { lemma_squares_place(self.bishop, from as u64, to as u64); }
                self.bishop &= !from_mask;
                self.bishop |= to_mask;
            },
            Layer::Rook => {
                proof { lemma_squares_place(self.rook, from as u64, to as u64); }
                self.rook &= !from_mask;
                self.rook |= to_mask;
            },
            Layer::Queen => {
                proof { lemma_squares_place(self.queen, from as u64, to as u64); }
                self.queen &= !from_mask;
                self.queen |= to_mask;
            },
            Layer::King => {
                proof { lemma_squares_place(self.king, from as u64, to as u64); }
                self.king &= !from_mask;
                self.king |= to_mask;
            },
        }

        self.move_count += 1;
        assert(self@ =~= pre.after_move(from as int, to as int));
    }

    /// The moves of the piece on `loc`, as a bitboard: white pawns by the pawn formula,
    /// black pawns by the black pawn formula, knights by the knight pattern, and no
    /// moves for the other kinds or an empty square.
    pub fn get_valid_moves(&self, loc: u8) -> (moves: u64)
        requires
            loc < 64,
            self@.pawn.contains(loc as int) && !self@.white.contains(loc as int) ==> self.en_passant
                < 64,
        ensures
            squares(moves) == self@.valid_moves(loc as int),
            !squares(moves).contains(loc as int),
    {
        let bit_mask = 1u64 << loc;
        proof {
            lemma_bit_test(self.pawn, loc as u64);
            lemma_bit_test(self.white, loc as u64);
            lemma_bit_test(self.knight, loc as u64);
            lemma_bit_test(self.bishop, loc as u64);
            lemma_bit_test(self.queen, loc as u64);
            lemma_bit_test(self.rook, loc as u64);
            lemma_bit_test(self.king, loc as u64);
            lemma_squares_zero();
            lemma_valid_moves_avoid_origin(self@, loc as int);
        }

        // pawns are split by colour
        if self.pawn & bit_mask != 0 {
            if self.white & bit_mask != 0 {
                self.generate_pawn_moves(loc)
            } else {
                self.generate_bpawn_moves(loc)
            }
        } else if self.knight & bit_mask != 0 {
            self.generate_knight_moves(loc)
        } else if self.bishop & bit_mask != 0 {
            self.generate_bishop_moves(loc)
        } else if self.queen & bit_mask != 0 {
            self.generate_queen_moves(loc)
        } else if self.rook & bit_mask != 0 {
            self.generate_rook_moves(loc)
        } else if self.king & bit_mask != 0 {
            self.generate_king_moves(loc)
        } else {
            0x0
        }
    }

    /// En passant bookkeeping of a pawn move from `from` to `to`: an en passant capture
    /// takes the passed pawn off every board; a two-rank step records the square passed
    /// over; any other step clears the en passant square.
    pub fn handle_en_passant(&mut self, from: u8, to: u8)
        requires
            old(self).en_passant != 0 && old(self).en_passant == to ==> to < 64,
            !(old(self).en_passant != 0 && old(self).en_passant == to) && (from - to == 16 || to
                - from == 16) ==> from + to <= 255,
        ensures
            final(self)@ == old(self)@.after_en_passant(from as int, to as int),
            final(self).move_count == old(self).move_count,
            final(self).error == old(self).error,
    {
        // valid: take the pawn that was passed and clear the en passant square
        if self.en_passant != 0 && self.en_passant == to {
            let mover_white = from < 64 && (self.white >> from) & 1 != 0;
            let taken = if mover_white {
                (1u64 << to >> RANK_SHIFT) & self.black
            } else {
                (1u64 << to << RANK_SHIFT) & self.white
            };
            proof {
                if from < 64 {
                    lemma_bit_test(self.white, from as u64);
                }
                lemma_squares_beside(self.white, self.black, to as u64);
                assert(squares(taken) == self@.en_passant_taken(from as int, to as int));
                lemma_squares_and_not(self.white, taken);
                lemma_squares_and_not(self.black, taken);
                lemma_squares_and_not(self.pawn, taken);
                lemma_squares_and_not(self.knight, taken);
                lemma_squares_and_not(self.bishop, taken);
                lemma_squares_and_not(self.rook, taken);
                lemma_squares_and_not(self.queen, taken);
                lemma_squares_and_not(self.king, taken);
            }
            self.white &= !taken;
            self.black &= !taken;
            self.pawn &= !taken;
            self.knight &= !taken;
            self.bishop &= !taken;
            self.rook &= !taken;
            self.queen &= !taken;
            self.king &= !taken;
            self.en_passant = 0;
        // a two-rank step: record the square passed over
        } else if (if from > to { from - to } else { to - from }) == 2 * RANK_SHIFT {
            self.en_passant = (from + to) / 2;
        // otherwise: no en passant square
        } else {
            self.en_passant = 0;
        }
    }
}

/// The starting bitboards mark the starting squares.
proof fn lemma_initial_boards()
    ensures
        squares(0xffffu64) == Position::initial().white,
        squares(0xffffu64 << 0x30u64) == Position::initial().black,
        squares(0xffu64 << 0x30u64 | 0xff00) == Position::initial().pawn,
        squares(0x81u64 << 0x38u64 | 0x81) == Position::initial().rook,
        squares(0x42u64 << 0x38u64 | 0x42) == Position::initial().knight,
        squares(0x24u64 << 0x38u64 | 0x24) == Position::initial().bishop,
        squares(0x10u64 << 0x38u64 | 0x10) == Position::initial().queen,
        squares(0x08u64 << 0x38u64 | 0x08) == Position::initial().king,
        squares(0u64) == Position::initial().error,
{
    let p = Position::initial();
    assert forall|i: u64| i < 64 implies (bit(0xffffu64, i) <==> p.white.contains(i as int)) by {
        lemma_start_bits(i);
        assert(bit(0xffffu64, i) == (i < 16));
    }
    lemma_squares_by_bits(0xffffu64, p.white);
    assert forall|i: u64| i < 64 implies (bit(0xffffu64 << 0x30u64, i) <==> p.black.contains(i as int)) by {
        lemma_start_bits(i);
        assert(bit(0xffffu64 << 0x30u64, i) == (48 <= i));
    }
    lemma_squares_by_bits(0xffffu64 << 0x30u64, p.black);
    assert forall|i: u64| i < 64 implies (bit(0xffu64 << 0x30u64 | 0xff00, i) <==> p.pawn.contains(i as int)) by {
        lemma_start_bits(i);
        assert(bit(0xffu64 << 0x30u64 | 0xff00, i) == ((8 <= i < 16) || (48 <= i < 56)));
    }
    lemma_squares_by_bits(0xffu64 << 0x30u64 | 0xff00, p.pawn);
    assert forall|i: u64| i < 64 implies (bit(0x81u64 << 0x38u64 | 0x81, i) <==> p.rook.contains(i as int)) by {
        lemma_start_bits(i);
        assert(bit(0x81u64 << 0x38u64 | 0x81, i) == (i == 0 || i == 7 || i == 56 || i == 63));
    }
    lemma_squares_by_bits(0x81u64 << 0x38u64 | 0x81, p.rook);
    assert forall|i: u64| i < 64 implies (bit(0x42u64 << 0x38u64 | 0x42, i) <==> p.knight.contains(i as int)) by {
        lemma_start_bits(i);
        assert(bit(0x42u64 << 0x38u64 | 0x42, i) == (i == 1 || i == 6 || i == 57 || i == 62));
    }
    lemma_squares_by_bits(0x42u64 << 0x38u64 | 0x42, p.knight);
    assert forall|i: u64| i < 64 implies (bit(0x24u64 << 0x38u64 | 0x24, i) <==> p.bishop.contains(i as int)) by {
        lemma_start_bits(i);
        assert(bit(0x24u64 << 0x38u64 | 0x24, i) == (i == 2 || i == 5 || i == 58 || i == 61));
    }
    lemma_squares_by_bits(0x24u64 << 0x38u64 | 0x24, p.bishop);
    assert forall|i: u64| i < 64 implies (bit(0x10u64 << 0x38u64 | 0x10, i) <==> p.queen.contains(i as int)) by {
        lemma_start_bits(i);
        assert(bit(0x10u64 << 0x38u64 | 0x10, i) == (i == 4 || i == 60));
    }
    lemma_squares_by_bits(0x10u64 << 0x38u64 | 0x10, p.queen);
    assert forall|i: u64| i < 64 implies (bit(0x08u64 << 0x38u64 | 0x08, i) <==> p.king.contains(i as int)) by {
        lemma_start_bits(i);
        assert(bit(0x08u64 << 0x38u64 | 0x08, i) == (i == 3 || i == 59));
    }
    lemma_squares_by_bits(0x08u64 << 0x38u64 | 0x08, p.king);
    assert forall|i: u64| i < 64 implies (bit(0u64, i) <==> p.error.contains(i as int)) by {
        lemma_start_bits(i);
        assert(!bit(0u64, i));
    }
    lemma_squares_by_bits(0u64, p.error);
}

/// The starting position is consistent.
proof fn lemma_initial_well_formed()
    ensures
        Position::initial().well_formed(),
{
    let p = Position::initial();
    assert(p.occupied() =~= p.pieces());
    assert(p.white.disjoint(p.black));
}

proof fn lemma_start_bits(i: u64)
    by (bit_vector)
    requires
        i < 64,
    ensures
        bit(0xffffu64, i) == (i < 16),
        bit(0xffffu64 << 0x30u64, i) == (48 <= i),
        bit(0xffu64 << 0x30u64 | 0xff00, i) == ((8 <= i < 16) || (48 <= i < 56)),
        bit(0x81u64 << 0x38u64 | 0x81, i) == (i == 0 || i == 7 || i == 56 || i == 63),
        bit(0x42u64 << 0x38u64 | 0x42, i) == (i == 1 || i == 6 || i == 57 || i == 62),
        bit(0x24u64 << 0x38u64 | 0x24, i) == (i == 2 || i == 5 || i == 58 || i == 61),
        bit(0x10u64 << 0x38u64 | 0x10, i) == (i == 4 || i == 60),
        bit(0x08u64 << 0x38u64 | 0x08, i) == (i == 3 || i == 59),
        !bit(0u64, i),
{
}

/// The en passant bookkeeping keeps a consistent board consistent, and never takes the
/// moving piece.
proof fn lemma_en_passant_consistent(p: Position, from: int, to: int)
    requires
        p.consistent(),
        p.occupied().contains(from),
    ensures
        p.after_en_passant(from, to).consistent(),
        p.after_en_passant(from, to).occupied().contains(from),
        p.after_en_passant(from, to).white.contains(from) == p.white.contains(from),
        p.after_en_passant(from, to).pawn.contains(from) == p.pawn.contains(from),
        p.after_en_passant(from, to).knight.contains(from) == p.knight.contains(from),
        p.after_en_passant(from, to).bishop.contains(from) == p.bishop.contains(from),
        p.after_en_passant(from, to).rook.contains(from) == p.rook.contains(from),
        p.after_en_passant(from, to).queen.contains(from) == p.queen.contains(from),
        p.after_en_passant(from, to).king.contains(from) == p.king.contains(from),
{
    let e = p.after_en_passant(from, to);
    if p.en_passant != 0 && p.en_passant == to {
        let taken = p.en_passant_taken(from, to);
        assert(!taken.contains(from));
        assert(e.occupied() =~= p.occupied().difference(taken));
        assert(e.pieces() =~= p.pieces().difference(taken));
    } else {
        assert(e.occupied() =~= p.occupied());
    }
}

/// A move of a piece that stands on a consistent board leaves the board consistent,
/// en passant captures included; when the en passant value lies on the board, it
/// still does afterwards.
pub proof fn law_move_keeps_well_formed(p: Position, from: int, to: int)
    requires
        p.consistent(),
        0 <= from < 64,
        0 <= to < 64,
        p.occupied().contains(from),
    ensures
        p.after_move(from, to).consistent(),
        0 <= p.en_passant < 64 ==> p.after_move(from, to).well_formed(),
{
    let q = p.after_move(from, to);
    let e = if p.pawn.contains(from) {
        p.after_en_passant(from, to)
    } else {
        p
    };
    lemma_en_passant_consistent(p, from, to);
    assert(e.consistent());
    assert(e.occupied().contains(from));
    assert(q.white.disjoint(q.black));
    assert(q.occupied() =~= e.occupied().remove(from).insert(to));
    assert(e.pieces().contains(from));
    assert(q.pieces() =~= e.pieces().remove(from).insert(to));
    assert(q.error =~= Set::<int>::empty());
}

/// A move of a piece that stands on a consistent board puts that piece, with its kind
/// and colour, on `to` and leaves `from` empty, en passant captures included.
pub proof fn law_move_relocates_piece(p: Position, from: int, to: int)
    requires
        p.consistent(),
        0 <= from < 64,
        0 <= to < 64,
        from != to,
        p.occupied().contains(from),
    ensures
        p.after_move(from, to).occupied().contains(to),
        !p.after_move(from, to).occupied().contains(from),
        p.after_move(from, to).white.contains(to) == p.white.contains(from),
        p.after_move(from, to).pawn.contains(to) == p.pawn.contains(from),
        p.after_move(from, to).knight.contains(to) == p.knight.contains(from),
        p.after_move(from, to).bishop.contains(to) == p.bishop.contains(from),
        p.after_move(from, to).rook.contains(to) == p.rook.contains(from),
        p.after_move(from, to).queen.contains(to) == p.queen.contains(from),
        p.after_move(from, to).king.contains(to) == p.king.contains(from),
        p.after_move(from, to).move_count == p.move_count + 1,
{
    lemma_en_passant_consistent(p, from, to);
    assert(p.pieces().contains(from));
}

/// The starting position, rank by rank: white fills ranks 0 and 1, black ranks 6 and
/// 7, pawns stand on ranks 1 and 6, the other pieces on ranks 0 and 7 mirrored file for
/// file, and ranks 2 to 5 are empty.
pub proof fn law_initial_layout(sq: int)
    requires
        0 <= sq < 64,
    ensures
        Position::initial().white.contains(sq) <==> sq / 8 <= 1,
        Position::initial().black.contains(sq) <==> sq / 8 >= 6,
        Position::initial().pawn.contains(sq) <==> (sq / 8 == 1 || sq / 8 == 6),
        Position::initial().rook.contains(sq) <==> ((sq / 8 == 0 || sq / 8 == 7) && (sq % 8 == 0
            || sq % 8 == 7)),
        Position::initial().knight.contains(sq) <==> ((sq / 8 == 0 || sq / 8 == 7) && (sq % 8 == 1
            || sq % 8 == 6)),
        Position::initial().bishop.contains(sq) <==> ((sq / 8 == 0 || sq / 8 == 7) && (sq % 8 == 2
            || sq % 8 == 5)),
        Position::initial().king.contains(sq) <==> ((sq / 8 == 0 || sq / 8 == 7) && sq % 8 == 3),
        Position::initial().queen.contains(sq) <==> ((sq / 8 == 0 || sq / 8 == 7) && sq % 8 == 4),
        Position::initial().en_passant == 0 && Position::initial().move_count == 0,
        Position::initial().error.is_empty(),
{
}

/// The moves looked up on a square follow the piece standing there: a pawn on a white
/// square moves by the pawn rule, any other pawn by the black pawn rule, a knight of
/// either colour to every board square a knight's jump away that its own side does not
/// hold, and any other square has no moves.
pub proof fn law_valid_moves_by_piece(p: Position, loc: int)
    requires
        0 <= loc < 64,
    ensures
        p.pawn.contains(loc) && p.white.contains(loc) ==> p.valid_moves(loc) == p.pawn_moves(loc),
        p.pawn.contains(loc) && !p.white.contains(loc) ==> p.valid_moves(loc) == p.bpawn_moves(
            loc,
        ),
        !p.pawn.contains(loc) && p.knight.contains(loc) ==> forall|t: int| #[trigger]
            p.valid_moves(loc).contains(t) <==> {
                &&& 0 <= t < 64
                &&& {
                    let df = dist(loc % 8, t % 8);
                    let dr = dist(loc / 8, t / 8);
                    (df == 1 && dr == 2) || (df == 2 && dr == 1)
                }
                &&& !(if p.white.contains(loc) {
                    p.white
                } else {
                    p.black
                }).contains(t)
            },
        !p.pawn.contains(loc) && !p.knight.contains(loc) ==> p.valid_moves(loc).is_empty(),
{
    crate::gen_moves::knight::law_knight_moves(p, loc);
}

/// The en passant value after a pawn move from `from` to `to`: 0 after landing on a
/// nonzero en passant square; the square passed over after a two-rank step; 0 after
/// any other step.  Apart from an en passant capture, no board changes.
pub proof fn law_en_passant_square(p: Position, from: int, to: int)
    ensures
        p.en_passant != 0 && p.en_passant == to ==> p.after_en_passant(from, to).en_passant == 0,
        !(p.en_passant != 0 && p.en_passant == to) && dist(from, to) == 16 ==> p.after_en_passant(
            from,
            to,
        ).en_passant == (from + to) / 2,
        !(p.en_passant != 0 && p.en_passant == to) && dist(from, to) != 16 ==> p.after_en_passant(
            from,
            to,
        ).en_passant == 0,
        !(p.en_passant != 0 && p.en_passant == to) ==> {
            let q = p.after_en_passant(from, to);
            &&& q.white == p.white && q.black == p.black
            &&& q.pawn == p.pawn && q.knight == p.knight && q.bishop == p.bishop
            &&& q.rook == p.rook && q.queen == p.queen && q.king == p.king
            &&& q.error == p.error && q.move_count == p.move_count
        },
{
}

/// Only pawn moves touch the en passant value: a move of a piece off the pawn board
/// keeps it; a pawn's en passant capture clears it; a pawn's two-rank step records the
/// square passed over; any other pawn step clears it.  Every move counts one.
pub proof fn law_move_en_passant(p: Position, from: int, to: int)
    ensures
        !p.pawn.contains(from) ==> p.after_move(from, to).en_passant == p.en_passant,
        p.pawn.contains(from) && p.en_passant != 0 && p.en_passant == to ==> p.after_move(
            from,
            to,
        ).en_passant == 0,
        p.pawn.contains(from) && !(p.en_passant != 0 && p.en_passant == to) && dist(from, to)
            == 16 ==> p.after_move(from, to).en_passant == (from + to) / 2,
        p.pawn.contains(from) && !(p.en_passant != 0 && p.en_passant == to) && dist(from, to)
            != 16 ==> p.after_move(from, to).en_passant == 0,
        p.after_move(from, to).move_count == p.move_count + 1,
{
}

/// A move changes no square but `from` and `to`, and, for a pawn's en passant capture,
/// the squares one rank above and below `to`: on every other square every board keeps
/// what it had.
pub proof fn law_move_leaves_other_squares(p: Position, from: int, to: int, sq: int)
    requires
        sq != from,
        sq != to,
        p.pawn.contains(from) && p.en_passant != 0 && p.en_passant == to ==> sq != to - 8 && sq
            != to + 8,
    ensures
        p.after_move(from, to).white.contains(sq) == p.white.contains(sq),
        p.after_move(from, to).black.contains(sq) == p.black.contains(sq),
        p.after_move(from, to).pawn.contains(sq) == p.pawn.contains(sq),
        p.after_move(from, to).knight.contains(sq) == p.knight.contains(sq),
        p.after_move(from, to).bishop.contains(sq) == p.bishop.contains(sq),
        p.after_move(from, to).rook.contains(sq) == p.rook.contains(sq),
        p.after_move(from, to).queen.contains(sq) == p.queen.contains(sq),
        p.after_move(from, to).king.contains(sq) == p.king.contains(sq),
        p.after_move(from, to).error.contains(sq) == p.error.contains(sq),
{
}

/// No piece can move onto its own square.
pub proof fn lemma_valid_moves_avoid_origin(p: Position, loc: int)
    requires
        0 <= loc < 64,
    ensures
        !p.valid_moves(loc).contains(loc),
{
    if p.pawn.contains(loc) && p.white.contains(loc) {
        assert(!p.pawn_moves(loc).contains(loc));
    }
}

/// On a consistent board a piece's moves never land on a piece of its own side, except
/// that a black pawn may be offered the en passant square whatever stands there.
pub proof fn law_moves_avoid_own_side(p: Position, loc: int)
    requires
        p.consistent(),
        0 <= loc < 64,
        p.occupied().contains(loc),
    ensures
        p.valid_moves(loc).remove(p.en_passant).disjoint(p.own_side(loc)),
{
    assert forall|t: int| p.valid_moves(loc).remove(p.en_passant).contains(t) implies !p.own_side(
        loc,
    ).contains(t) by {
        if p.pawn.contains(loc) && p.white.contains(loc) {
            assert(!p.black.contains(loc));
        }
    }
}

} // verus!
