//! Static evaluation: material, piece-square bonuses and castling rights,
//! scored for one side against the other.
use vstd::prelude::*;
use crate::board::{ChessPosition, Piece, PositionView};

verus! {

pub open spec fn is_white_piece(p: Piece) -> bool {
    p == Piece::WhitePawn || p == Piece::WhiteRook || p == Piece::WhiteKnight || p
        == Piece::WhiteBishop || p == Piece::WhiteQueen || p == Piece::WhiteKing
}

pub open spec fn is_black_piece(p: Piece) -> bool {
    p == Piece::BlackPawn || p == Piece::BlackRook || p == Piece::BlackKnight || p
        == Piece::BlackBishop || p == Piece::BlackQueen || p == Piece::BlackKing
}

/// Whether `p` belongs to White (`white`) or to Black (`!white`).
pub open spec fn owned_by(p: Piece, white: bool) -> bool {
    if white {
        is_white_piece(p)
    } else {
        is_black_piece(p)
    }
}

/// Material value of a piece of either colour; 0 for an empty square.
pub open spec fn piece_value(p: Piece) -> int {
    match p {
        Piece::WhitePawn | Piece::BlackPawn => 100,
        Piece::WhiteKnight | Piece::BlackKnight => 320,
        Piece::WhiteBishop | Piece::BlackBishop => 330,
        Piece::WhiteRook | Piece::BlackRook => 500,
        Piece::WhiteQueen | Piece::BlackQueen => 900,
        Piece::WhiteKing | Piece::BlackKing => 20000,
        Piece::Empty => 0,
    }
}

/// Positional bonus of a pawn, from White's side: rank 8 first, a-file first.
pub open spec fn pawn_table() -> Seq<int> {
    seq![
        0, 0, 0, 0, 0, 0, 0, 0,
        50, 50, 50, 50, 50, 50, 50, 50,
        10, 10, 20, 30, 30, 20, 10, 10,
        5, 5, 10, 25, 25, 10, 5, 5,
        0, 0, 0, 20, 20, 0, 0, 0,
        5, -5, -10, 0, 0, -10, -5, 5,
        5, 10, 10, -20, -20, 10, 10, 5,
        0, 0, 0, 0, 0, 0, 0, 0,
    ]
}

/// Positional bonus of a knight, from White's side: rank 8 first, a-file first.
pub open spec fn knight_table() -> Seq<int> {
    seq![
        -50, -40, -30, -30, -30, -30, -40, -50,
        -40, -20, 0, 0, 0, 0, -20, -40,
        -30, 0, 10, 15, 15, 10, 0, -30,
        -30, 5, 15, 20, 20, 15, 5, -30,
        -30, 0, 15, 20, 20, 15, 0, -30,
        -30, 5, 10, 15, 15, 10, 5, -30,
        -40, -20, 0, 5, 5, 0, -20, -40,
        -50, -40, -30, -30, -30, -30, -40, -50,
    ]
}

/// Positional bonus of a bishop, from White's side: rank 8 first, a-file first.
pub open spec fn bishop_table() -> Seq<int> {
    seq![
        -20, -10, -10, -10, -10, -10, -10, -20,
        -10, 0, 0, 0, 0, 0, 0, -10,
        -10, 0, 5, 10, 10, 5, 0, -10,
        -10, 5, 5, 10, 10, 5, 5, -10,
        -10, 0, 10, 10, 10, 10, 0, -10,
        -10, 10, 10, 10, 10, 10, 10, -10,
        -10, 5, 0, 0, 0, 0, 5, -10,
        -20, -10, -10, -10, -10, -10, -10, -20,
    ]
}

/// Positional bonus of a rook, from White's side: rank 8 first, a-file first.
pub open spec fn rook_table() -> Seq<int> {
    seq![
        0, 0, 0, 0, 0, 0, 0, 0,
        5, 10, 10, 10, 10, 10, 10, 5,
        -5, 0, 0, 0, 0, 0, 0, -5,
        -5, 0, 0, 0, 0, 0, 0, -5,
        -5, 0, 0, 0, 0, 0, 0, -5,
        -5, 0, 0, 0, 0, 0, 0, -5,
        -5, 0, 0, 0, 0, 0, 0, -5,
        0, 0, 0, 5, 5, 0, 0, 0,
    ]
}

/// Positional bonus of a queen, from White's side: rank 8 first, a-file first.
pub open spec fn queen_table() -> Seq<int> {
    seq![
        -20, -10, -10, -5, -5, -10, -10, -20,
        -10, 0, 0, 0, 0, 0, 0, -10,
        -10, 0, 5, 5, 5, 5, 0, -10,
        -5, 0, 5, 5, 5, 5, 0, -5,
        0, 0, 5, 5, 5, 5, 0, -5,
        -10, 5, 5, 5, 5, 5, 0, -10,
        -10, 0, 5, 0, 0, 0, 0, -10,
        -20, -10, -10, -5, -5, -10, -10, -20,
    ]
}

/// Positional bonus of a king, from White's side: rank 8 first, a-file first.
pub open spec fn king_table() -> Seq<int> {
    seq![
        -30, -40, -40, -50, -50, -40, -40, -30,
        -30, -40, -40, -50, -50, -40, -40, -30,
        -30, -40, -40, -50, -50, -40, -40, -30,
        -30, -40, -40, -50, -50, -40, -40, -30,
        -20, -30, -30, -40, -40, -30, -30, -20,
        -10, -20, -20, -20, -20, -20, -20, -10,
        20, 20, 0, 0, 0, 0, 20, 20,
        20, 30, 10, 0, 0, 10, 30, 20,
    ]
}

/// The square of the table that applies to a piece on FEN square `i`: the
/// tables are written from White's side, so Black's ranks are mirrored.
pub open spec fn table_index(i: int, white: bool) -> int {
    if white {
        i
    } else {
        (7 - i / 8) * 8 + i % 8
    }
}

/// Positional bonus of piece `p` standing on FEN square `i`.
pub open spec fn table_bonus(p: Piece, i: int) -> int {
    let t = table_index(i, is_white_piece(p));
    match p {
        Piece::WhitePawn | Piece::BlackPawn => pawn_table()[t],
        Piece::WhiteKnight | Piece::BlackKnight => knight_table()[t],
        Piece::WhiteBishop | Piece::BlackBishop => bishop_table()[t],
        Piece::WhiteRook | Piece::BlackRook => rook_table()[t],
        Piece::WhiteQueen | Piece::BlackQueen => queen_table()[t],
        Piece::WhiteKing | Piece::BlackKing => king_table()[t],
        Piece::Empty => 0,
    }
}

/// The material and positional score of the first `k` squares of `pieces`
/// for the pieces of one colour.
pub open spec fn side_total(pieces: Seq<Piece>, white: bool, k: int) -> int
    decreases k,
{
    if k <= 0 {
        0
    } else {
        let p = pieces[k - 1];
        side_total(pieces, white, k - 1) + if owned_by(p, white) {
            piece_value(p) + table_bonus(p, k - 1)
        } else {
            0
        }
    }
}

/// Castling score: 300 for one right kept, 600 for both, 0 for none.
pub open spec fn castle_value(king_side: bool, queen_side: bool) -> int {
    if king_side && queen_side {
        600
    } else if king_side || queen_side {
        300
    } else {
        0
    }
}

pub open spec fn castle_total(castling: Seq<bool>, white: bool) -> int {
    if white {
        castle_value(castling[0], castling[1])
    } else {
        castle_value(castling[2], castling[3])
    }
}

/// The score of a position for the side to move (`maximizing`) or for the
/// other side (`!maximizing`): that side's material, positional and castling
/// terms minus those of its opponent.
pub open spec fn evaluation(v: PositionView, maximizing: bool) -> int {
    let w = v.is_white == maximizing;
    castle_total(v.castling, w) - castle_total(v.castling, !w) + side_total(v.pieces, w, 64)
        - side_total(v.pieces, !w, 64)
}

/// The largest size of a score that `evaluation` can give.
pub const EVAL_BOUND: i64 = 2_000_000;

proof fn lemma_side_total_bounds(pieces: Seq<Piece>, white: bool, k: int)
    requires
        0 <= k <= 64,
        pieces.len() == 64,
    ensures
        0 <= side_total(pieces, white, k) <= 20050 * k,
    decreases k,
{
    if k > 0 {
        lemma_side_total_bounds(pieces, white, k - 1);
        let p = pieces[k - 1];
        let t = table_index(k - 1, is_white_piece(p));
        assert(0 <= t < 64) by {
            assert(0 <= (k - 1) / 8 < 8);
        }
        lemma_tables_bounded(t);
    }
}

proof fn lemma_tables_bounded(t: int)
    requires
        0 <= t < 64,
    ensures
        -50 <= pawn_table()[t] <= 50,
        -50 <= knight_table()[t] <= 50,
        -50 <= bishop_table()[t] <= 50,
        -50 <= rook_table()[t] <= 50,
        -50 <= queen_table()[t] <= 50,
        -50 <= king_table()[t] <= 50,
{
    assert forall|i: int| 0 <= i < 64 implies -50 <= #[trigger] pawn_table()[i] <= 50 && -50
        <= knight_table()[i] <= 50 && -50 <= bishop_table()[i] <= 50 && -50 <= rook_table()[i]
        <= 50 && -50 <= queen_table()[i] <= 50 && -50 <= king_table()[i] <= 50 by {
    }
}

/// Every position scores within `EVAL_BOUND` for either side.
pub proof fn lemma_evaluation_bounded(v: PositionView, maximizing: bool)
    requires
        v.pieces.len() == 64,
        v.castling.len() == 4,
    ensures
        -EVAL_BOUND <= evaluation(v, maximizing) <= EVAL_BOUND,
{
    lemma_side_total_bounds(v.pieces, true, 64);
    lemma_side_total_bounds(v.pieces, false, 64);
}

fn pawn_bonus(i: usize) -> (r: i64)
    requires
        i < 64,
    ensures
        r as int == pawn_table()[i as int],
{
    let t: [i64; 64] = [
        0, 0, 0, 0, 0, 0, 0, 0,
        50, 50, 50, 50, 50, 50, 50, 50,
        10, 10, 20, 30, 30, 20, 10, 10,
        5, 5, 10, 25, 25, 10, 5, 5,
        0, 0, 0, 20, 20, 0, 0, 0,
        5, -5, -10, 0, 0, -10, -5, 5,
        5, 10, 10, -20, -20, 10, 10, 5,
        0, 0, 0, 0, 0, 0, 0, 0,
    ];
    assert(t@.map_values(|x: i64| x as int) =~= pawn_table());
    t[i]
}

fn knight_bonus(i: usize) -> (r: i64)
    requires
        i < 64,
    ensures
        r as int == knight_table()[i as int],
{
    let t: [i64; 64] = [
        -50, -40, -30, -30, -30, -30, -40, -50,
        -40, -20, 0, 0, 0, 0, -20, -40,
        -30, 0, 10, 15, 15, 10, 0, -30,
        -30, 5, 15, 20, 20, 15, 5, -30,
        -30, 0, 15, 20, 20, 15, 0, -30,
        -30, 5, 10, 15, 15, 10, 5, -30,
        -40, -20, 0, 5, 5, 0, -20, -40,
        -50, -40, -30, -30, -30, -30, -40, -50,
    ];
    assert(t@.map_values(|x: i64| x as int) =~= knight_table());
    t[i]
}

fn bishop_bonus(i: usize) -> (r: i64)
    requires
        i < 64,
    ensures
        r as int == bishop_table()[i as int],
{
    let t: [i64; 64] = [
        -20, -10, -10, -10, -10, -10, -10, -20,
        -10, 0, 0, 0, 0, 0, 0, -10,
        -10, 0, 5, 10, 10, 5, 0, -10,
        -10, 5, 5, 10, 10, 5, 5, -10,
        -10, 0, 10, 10, 10, 10, 0, -10,
        -10, 10, 10, 10, 10, 10, 10, -10,
        -10, 5, 0, 0, 0, 0, 5, -10,
        -20, -10, -10, -10, -10, -10, -10, -20,
    ];
    assert(t@.map_values(|x: i64| x as int) =~= bishop_table());
    t[i]
}

fn rook_bonus(i: usize) -> (r: i64)
    requires
        i < 64,
    ensures
        r as int == rook_table()[i as int],
{
    let t: [i64; 64] = [
        0, 0, 0, 0, 0, 0, 0, 0,
        5, 10, 10, 10, 10, 10, 10, 5,
        -5, 0, 0, 0, 0, 0, 0, -5,
        -5, 0, 0, 0, 0, 0, 0, -5,
        -5, 0, 0, 0, 0, 0, 0, -5,
        -5, 0, 0, 0, 0, 0, 0, -5,
        -5, 0, 0, 0, 0, 0, 0, -5,
        0, 0, 0, 5, 5, 0, 0, 0,
    ];
    assert(t@.map_values(|x: i64| x as int) =~= rook_table());
    t[i]
}

fn queen_bonus(i: usize) -> (r: i64)
    requires
        i < 64,
    ensures
        r as int == queen_table()[i as int],
{
    let t: [i64; 64] = [
        -20, -10, -10, -5, -5, -10, -10, -20,
        -10, 0, 0, 0, 0, 0, 0, -10,
        -10, 0, 5, 5, 5, 5, 0, -10,
        -5, 0, 5, 5, 5, 5, 0, -5,
        0, 0, 5, 5, 5, 5, 0, -5,
        -10, 5, 5, 5, 5, 5, 0, -10,
        -10, 0, 5, 0, 0, 0, 0, -10,
        -20, -10, -10, -5, -5, -10, -10, -20,
    ];
    assert(t@.map_values(|x: i64| x as int) =~= queen_table());
    t[i]
}

fn king_bonus(i: usize) -> (r: i64)
    requires
        i < 64,
    ensures
        r as int == king_table()[i as int],
{
    let t: [i64; 64] = [
        -30, -40, -40, -50, -50, -40, -40, -30,
        -30, -40, -40, -50, -50, -40, -40, -30,
        -30, -40, -40, -50, -50, -40, -40, -30,
        -30, -40, -40, -50, -50, -40, -40, -30,
        -20, -30, -30, -40, -40, -30, -30, -20,
        -10, -20, -20, -20, -20, -20, -20, -10,
        20, 20, 0, 0, 0, 0, 20, 20,
        20, 30, 10, 0, 0, 10, 30, 20,
    ];
    assert(t@.map_values(|x: i64| x as int) =~= king_table());
    t[i]
}

/// Material value of a piece; 0 for an empty square.
pub fn piece_to_score(piece: Piece) -> (r: i64)
    ensures
        r as int == piece_value(piece),
{
    match piece {
        Piece::WhitePawn | Piece::BlackPawn => 100,
        Piece::WhiteKnight | Piece::BlackKnight => 320,
        Piece::WhiteBishop | Piece::BlackBishop => 330,
        Piece::WhiteRook | Piece::BlackRook => 500,
        Piece::WhiteQueen | Piece::BlackQueen => 900,
        Piece::WhiteKing | Piece::BlackKing => 20000,
        Piece::Empty => 0,
    }
}

fn piece_is_white(p: Piece) -> (r: bool)
    ensures
        r == is_white_piece(p),
{
    match p {
        Piece::WhitePawn | Piece::WhiteRook | Piece::WhiteKnight | Piece::WhiteBishop
        | Piece::WhiteQueen | Piece::WhiteKing => true,
        _ => false,
    }
}

fn piece_is_black(p: Piece) -> (r: bool)
    ensures
        r == is_black_piece(p),
{
    match p {
        Piece::BlackPawn | Piece::BlackRook | Piece::BlackKnight | Piece::BlackBishop
        | Piece::BlackQueen | Piece::BlackKing => true,
        _ => false,
    }
}

fn square_bonus(p: Piece, i: usize) -> (r: i64)
    requires
        i < 64,
    ensures
        r as int == table_bonus(p, i as int),
{
    let t = if piece_is_white(p) {
        i
    } else {
        (7 - i / 8) * 8 + i % 8
    };
    match p {
        Piece::WhitePawn | Piece::BlackPawn => pawn_bonus(t),
        Piece::WhiteKnight | Piece::BlackKnight => knight_bonus(t),
        Piece::WhiteBishop | Piece::BlackBishop => bishop_bonus(t),
        Piece::WhiteRook | Piece::BlackRook => rook_bonus(t),
        Piece::WhiteQueen | Piece::BlackQueen => queen_bonus(t),
        Piece::WhiteKing | Piece::BlackKing => king_bonus(t),
        Piece::Empty => 0,
    }
}

/// Castling score of one side from its two rights.
pub fn castle_rights_to_score(king_side: bool, queen_side: bool) -> (r: i64)
    ensures
        r as int == castle_value(king_side, queen_side),
{
    if king_side && queen_side {
        600
    } else if king_side || queen_side {
        300
    } else {
        0
    }
}

/// Scores `position` for the side to move (`maximizing`) or for the other
/// side (`!maximizing`).
pub fn evaluate(position: &ChessPosition, maximizing: bool) -> (r: i64)
    ensures
        r as int == evaluation(position@, maximizing),
{
    let w = position.is_white == maximizing;
    let c = &position.castling_availability;
    let (own_castle, their_castle) = if w {
        (castle_rights_to_score(c[0], c[1]), castle_rights_to_score(c[2], c[3]))
    } else {
        (castle_rights_to_score(c[2], c[3]), castle_rights_to_score(c[0], c[1]))
    };
    let ghost pieces = position.pieces@;
    let mut own: i64 = 0;
    let mut theirs: i64 = 0;
    let mut i: usize = 0;
    while i < 64
        invariant
            i <= 64,
            pieces == position.pieces@,
            own as int == side_total(pieces, w, i as int),
            theirs as int == side_total(pieces, !w, i as int),
        decreases 64 - i,
    {
        proof {
            lemma_side_total_bounds(pieces, w, i + 1);
            lemma_side_total_bounds(pieces, !w, i + 1);
        }
        let p = position.pieces[i];
        let score = piece_to_score(p) + square_bonus(p, i);
        let white_piece = piece_is_white(p);
        let black_piece = piece_is_black(p);
        if (w && white_piece) || (!w && black_piece) {
            own = own + score;
        }
        if (!w && white_piece) || (w && black_piece) {
            theirs = theirs + score;
        }
        i = i + 1;
    }
    proof {
        lemma_side_total_bounds(pieces, w, 64);
        lemma_side_total_bounds(pieces, !w, 64);
    }
    own_castle - their_castle + own - theirs
}

} // verus!
