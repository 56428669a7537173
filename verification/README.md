# chessv2

A bitboard chess engine, verified with Verus.

- `src/bits.rs`: bitboards as sets of squares, and the bit-level lemmas.
- `src/game_state.rs`: the game state, its meaning as a `Position` of square sets,
  resetting, moving pieces, en passant bookkeeping and move lookup, with the laws on
  consistent boards.
- `src/gen_moves/`: move generation per piece kind (knight pattern, pawn formulas).
- `src/piece_type.rs`: piece kinds and the starting layout.
- `src/commands.rs`: what the application's commands compute (square lists, the pawn
  taken en passant, bitboard text).
- `app/`: the Tauri application around the library.
