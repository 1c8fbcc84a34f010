use chess_engine::board::{ChessPosition, Piece, Square};
use chess_engine::eval::{castle_rights_to_score, evaluate, piece_to_score};

const START: &str = "rnbqkbnr/pppppppp/8/8/8/8/PPPPPPPP/RNBQKBNR w KQkq - 0 1";

#[test]
fn from_fen_reads_the_start_position() {
    let p = ChessPosition::from_fen(START.to_string());
    assert_eq!(p.pieces[0], Piece::BlackRook);
    assert_eq!(p.pieces[4], Piece::BlackKing);
    assert_eq!(p.pieces[12], Piece::BlackPawn);
    assert_eq!(p.pieces[32], Piece::Empty);
    assert_eq!(p.pieces[52], Piece::WhitePawn);
    assert_eq!(p.pieces[59], Piece::WhiteQueen);
    assert_eq!(p.pieces[60], Piece::WhiteKing);
    assert_eq!(p.pieces[63], Piece::WhiteRook);
    assert!(p.is_white);
    assert_eq!(p.castling_availability, [true, true, true, true]);
    assert_eq!(p.en_passent, None);
    assert_eq!(p.half_moves, 0);
    assert_eq!(p.full_moves, 1);
}

#[test]
fn from_fen_reads_en_passant_and_counters() {
    let p = ChessPosition::from_fen(
        "rnbqkbnr/pppp1ppp/8/4p3/4P3/8/PPPP1PPP/RNBQKBNR w KQkq e6 0 2".to_string(),
    );
    assert_eq!(p.en_passent, Some(Square { x: 4, y: 6 }));
    assert_eq!(p.pieces[28], Piece::BlackPawn);
    assert_eq!(p.pieces[36], Piece::WhitePawn);
    assert_eq!(p.pieces[52], Piece::Empty);
    assert_eq!(p.full_moves, 2);
}

#[test]
fn from_fen_reads_side_and_partial_castling() {
    let p = ChessPosition::from_fen("8/8/8/8/8/8/8/8 b Kq - 3 40".to_string());
    assert!(!p.is_white);
    assert_eq!(p.castling_availability, [true, false, false, true]);
    assert_eq!(p.half_moves, 3);
    assert_eq!(p.full_moves, 40);
    assert!(p.pieces.iter().all(|q| *q == Piece::Empty));
}

#[test]
fn from_fen_of_empty_text_is_an_empty_board() {
    let p = ChessPosition::from_fen(String::new());
    assert!(p.pieces.iter().all(|q| *q == Piece::Empty));
    assert!(!p.is_white);
    assert_eq!(p.castling_availability, [false; 4]);
    assert_eq!(p.en_passent, None);
    assert_eq!(p.half_moves, 0);
    assert_eq!(p.full_moves, 0);
}

#[test]
fn piece_from_char() {
    assert_eq!(Piece::from('N'), Piece::WhiteKnight);
    assert_eq!(Piece::from('q'), Piece::BlackQueen);
    assert_eq!(Piece::from('x'), Piece::Empty);
}

#[test]
fn start_position_is_balanced() {
    let p = ChessPosition::from_fen(START.to_string());
    assert_eq!(evaluate(&p, true), 0);
    assert_eq!(evaluate(&p, false), 0);
}

#[test]
fn extra_queen_scores_material_and_square() {
    let p = ChessPosition::from_fen("4k3/8/8/8/8/8/8/3QK3 w - - 0 1".to_string());
    assert_eq!(evaluate(&p, true), 895);
    assert_eq!(evaluate(&p, false), -895);
}

#[test]
fn castling_rights_are_scored() {
    let p = ChessPosition::from_fen("r3k2r/8/8/8/8/8/8/R3K2R w KQk - 0 1".to_string());
    assert_eq!(evaluate(&p, true), 300);
    let q = ChessPosition::from_fen("r3k2r/8/8/8/8/8/8/R3K2R b KQk - 0 1".to_string());
    assert_eq!(evaluate(&q, true), -300);
}

#[test]
fn black_pieces_use_mirrored_tables() {
    // A black knight on b8 stands where a white knight on b1 does.
    let p = ChessPosition::from_fen("1n2k3/8/8/8/8/8/8/4K3 b - - 0 1".to_string());
    assert_eq!(evaluate(&p, true), 320 - 40);
}

#[test]
fn piece_and_castle_values() {
    assert_eq!(piece_to_score(Piece::BlackPawn), 100);
    assert_eq!(piece_to_score(Piece::WhiteKnight), 320);
    assert_eq!(piece_to_score(Piece::BlackBishop), 330);
    assert_eq!(piece_to_score(Piece::WhiteRook), 500);
    assert_eq!(piece_to_score(Piece::BlackQueen), 900);
    assert_eq!(piece_to_score(Piece::WhiteKing), 20000);
    assert_eq!(piece_to_score(Piece::Empty), 0);
    assert_eq!(castle_rights_to_score(true, true), 600);
    assert_eq!(castle_rights_to_score(true, false), 300);
    assert_eq!(castle_rights_to_score(false, true), 300);
    assert_eq!(castle_rights_to_score(false, false), 0);
}

#[test]
fn default_position_is_the_start() {
    let p = ChessPosition::default();
    let q = ChessPosition::from_fen(START.to_string());
    assert_eq!(p.pieces, q.pieces);
    assert!(p.is_white);
    assert_eq!(p.full_moves, 1);
}
