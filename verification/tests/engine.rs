use chessv2::commands::{format_bitboard, get_valid_moves, move_piece, ret_loc};
use chessv2::game_state::GameState;
use chessv2::piece_type::{Piece, PieceType};

fn start() -> GameState {
    let mut g = GameState::default();
    g.reset();
    g
}

#[test]
fn default_board_is_empty() {
    let g = GameState::default();
    assert_eq!(g.move_count, 0);
    assert_eq!(g.en_passant, 0);
    assert_eq!(g.white | g.black | g.pawn | g.rook | g.knight | g.bishop | g.queen | g.king | g.error, 0);
}

#[test]
fn reset_sets_starting_position() {
    let g = start();
    assert_eq!(g.white, 0xffff);
    assert_eq!(g.black, 0xffff_0000_0000_0000);
    assert_eq!(g.pawn, 0x00ff_0000_0000_ff00);
    assert_eq!(g.rook, 0x8100_0000_0000_0081);
    assert_eq!(g.knight, 0x4200_0000_0000_0042);
    assert_eq!(g.bishop, 0x2400_0000_0000_0024);
    assert_eq!(g.queen, 0x1000_0000_0000_0010);
    assert_eq!(g.king, 0x0800_0000_0000_0008);
    assert_eq!(g.error, 0);
}

#[test]
fn knight_moves_from_start() {
    let g = start();
    assert_eq!(g.generate_knight_moves(1), (1 << 16) | (1 << 18));
    assert_eq!(ret_loc(g.generate_knight_moves(62)), vec![45, 47]);
}

#[test]
fn knight_moves_skip_own_pieces_and_take_enemies() {
    let mut g = GameState::default();
    g.white = (1 << 27) | (1 << 10);
    g.knight = 1 << 27;
    g.pawn = 1 << 10;
    g.black = (1 << 44) | (1 << 37);
    g.rook = (1 << 44) | (1 << 37);
    assert_eq!(ret_loc(g.generate_knight_moves(27)), vec![12, 17, 21, 33, 37, 42, 44]);
}

#[test]
fn knight_on_edge_does_not_wrap() {
    let mut g = GameState::default();
    g.white = 1 << 7;
    g.knight = 1 << 7;
    assert_eq!(ret_loc(g.generate_knight_moves(7)), vec![13, 22]);
}

#[test]
fn pawn_moves_from_start() {
    let g = start();
    assert_eq!(ret_loc(g.generate_pawn_moves(12)), vec![20, 28]);
    assert_eq!(ret_loc(g.generate_pawn_moves(52)), vec![36, 44]);
    assert_eq!(ret_loc(g.generate_bpawn_moves(52)), vec![36, 44]);
}

#[test]
fn pawn_captures_do_not_wrap() {
    // a white pawn on file 7 does not reach file 0 two ranks up
    let mut g = GameState::default();
    g.white = 1 << 15;
    g.pawn = 1 << 15;
    g.black = 1 << 24;
    g.knight = 1 << 24;
    assert_eq!(ret_loc(g.generate_pawn_moves(15)), vec![23, 31]);
    // nor does a black pawn on file 0 reach file 7 two ranks down
    let mut g = GameState::default();
    g.black = 1 << 48;
    g.pawn = 1 << 48;
    g.white = 1 << 39;
    g.knight = 1 << 39;
    assert_eq!(ret_loc(g.generate_pawn_moves(48)), vec![32, 40]);
}

#[test]
fn black_pawn_without_en_passant_square() {
    // en passant value 0 means none: square 0 is not offered
    let mut g = GameState::default();
    g.move_count = 1;
    g.black = 1 << 9;
    g.pawn = 1 << 9;
    assert_eq!(g.generate_bpawn_moves(9), 1 << 1);
}

#[test]
fn blocked_pawn_has_no_forward_move() {
    let mut g = start();
    g.black |= 1 << 20;
    g.rook |= 1 << 20;
    assert_eq!(g.generate_pawn_moves(12), 0);
}

#[test]
fn other_kinds_have_no_moves() {
    let g = start();
    assert_eq!(g.generate_bishop_moves(2), 0);
    assert_eq!(g.generate_rook_moves(0), 0);
    assert_eq!(g.generate_queen_moves(4), 0);
    assert_eq!(g.generate_king_moves(3), 0);
    assert_eq!(g.get_valid_moves(3), 0);
    assert_eq!(g.get_valid_moves(30), 0);
}

#[test]
fn en_passant_game() {
    let mut g = start();
    for (from, to) in [(8u8, 16u8), (51, 35), (16, 24), (35, 27), (12, 28)] {
        assert_eq!(move_piece(&mut g, from, to), None);
    }
    assert_eq!(g.move_count, 5);
    assert_eq!(g.en_passant, 20);
    assert_eq!(g.white, 0x1100eeff);
    assert_eq!(g.black, 0xfff7000008000000);
    assert_eq!(get_valid_moves(&g, 27), vec![19, 20]);
    assert_eq!(get_valid_moves(&g, 24), vec![32]);
    assert_eq!(get_valid_moves(&g, 28), vec![36]);
    // black takes en passant: the interface is told to clear square 28
    assert_eq!(move_piece(&mut g, 27, 20), Some(28));
    assert_eq!(g.move_count, 6);
    assert_eq!(g.en_passant, 0);
    assert_eq!(g.white, 0x100eeff);
    assert_eq!(g.black, 0xfff7000000100000);
    // the taken pawn is gone from every board
    assert_eq!(g.pawn, 0xf700000110ee00);
}

#[test]
fn double_step_records_en_passant_square() {
    let mut g = start();
    g.move_piece(11, 27);
    assert_eq!(g.en_passant, 19);
    g.move_piece(52, 44);
    assert_eq!(g.en_passant, 0);
    g.move_piece(1, 18);
    assert_eq!(g.en_passant, 0);
    assert_eq!(g.move_count, 3);
}

#[test]
fn capture_clears_target_from_other_boards() {
    let mut g = start();
    g.move_piece(1, 50);
    assert_eq!(g.knight, 0x4200_0000_0000_0040 | (1 << 50));
    assert_eq!(g.pawn, 0x00fb_0000_0000_ff00);
    assert_eq!(g.white, 0xfffd | (1 << 50));
    assert_eq!(g.black, 0xfffb_0000_0000_0000);
}

#[test]
fn moving_from_an_empty_square_uses_the_error_board() {
    let mut g = GameState::default();
    g.move_piece(5, 9);
    assert_eq!(g.error, 1 << 9);
    assert_eq!(g.black, 1 << 9);
    assert_eq!(g.white, 0);
    assert_eq!(g.move_count, 1);
}

#[test]
fn handle_en_passant_cases() {
    let mut g = start();
    g.en_passant = 40;
    g.handle_en_passant(49, 40);
    assert_eq!(g.en_passant, 0);
    assert_eq!(g.black, 0xffff_0000_0000_0000);
    g.handle_en_passant(50, 34);
    assert_eq!(g.en_passant, 42);
    g.handle_en_passant(10, 18);
    assert_eq!(g.en_passant, 0);
    // en passant value 0 means none: landing on square 0 takes nothing
    g.handle_en_passant(9, 0);
    assert_eq!(g.white, 0xffff);
    assert_eq!(g.black, 0xffff_0000_0000_0000);
}

#[test]
fn white_pawn_takes_en_passant() {
    let mut g = GameState::default();
    g.move_count = 2;
    g.en_passant = 40;
    g.white = 1 << 33;
    g.black = 1 << 32;
    g.pawn = (1 << 33) | (1 << 32);
    assert_eq!(move_piece(&mut g, 33, 40), Some(32));
    assert_eq!(g.white, 1 << 40);
    assert_eq!(g.black, 0);
    assert_eq!(g.pawn, 1 << 40);
    assert_eq!(g.en_passant, 0);
    assert_eq!(g.move_count, 3);
}

#[test]
fn only_pawns_take_en_passant() {
    // a knight landing on the en passant square takes nothing and reports nothing
    let mut g = start();
    g.move_piece(12, 28);
    assert_eq!(g.en_passant, 20);
    g.black |= 1 << 37;
    g.knight |= 1 << 37;
    assert_eq!(move_piece(&mut g, 37, 20), None);
    assert_eq!(g.white & (1 << 28), 1 << 28);
}

#[test]
fn ret_loc_lists_bits_in_order() {
    assert_eq!(ret_loc(0), Vec::<u8>::new());
    assert_eq!(ret_loc(1), vec![0]);
    assert_eq!(ret_loc(0x8000_0000_0000_0001), vec![0, 63]);
    assert_eq!(ret_loc(0b1011_0100), vec![2, 4, 5, 7]);
}

#[test]
fn format_bitboard_groups_bits() {
    let text = String::from_utf8(format_bitboard(0xffff)).unwrap();
    assert_eq!(
        text,
        "00000000 00000000 00000000 00000000 00000000 00000000 11111111 11111111"
    );
    let text = String::from_utf8(format_bitboard(0x8000_0000_0000_0005)).unwrap();
    assert_eq!(
        text,
        "10000000 00000000 00000000 00000000 00000000 00000000 00000000 00000101"
    );
}

#[test]
fn piece_type_default_is_start_position() {
    let board = PieceType::default();
    assert_eq!(board.0[0], Piece::Rook);
    assert_eq!(board.0[3], Piece::Queen);
    assert_eq!(board.0[4], Piece::King);
    assert_eq!(board.0[12], Piece::WPawn);
    assert_eq!(board.0[30], Piece::Empty);
    assert_eq!(board.0[52], Piece::BPawn);
    assert_eq!(board.0[62], Piece::Knight);
    assert_eq!(board.0[61], Piece::Bishop);
}
