//! The library's own view of a chess position: what the evaluation reads,
//! decoded from the FEN text that the rules library writes.
use vstd::prelude::*;
use crate::text::{chars_of, digit_value, is_digit, parse_u64, split_words, text_contains, text_is, texts, unsigned_value, words};
use crate::rules::{parse_square, square_of};

verus! {

#[derive(Clone, Copy, Debug, Default, PartialEq, Eq, Structural)]
pub enum Piece {
    #[default]
    Empty,
    BlackPawn,
    BlackRook,
    BlackKnight,
    BlackBishop,
    BlackQueen,
    BlackKing,
    WhitePawn,
    WhiteRook,
    WhiteKnight,
    WhiteBishop,
    WhiteQueen,
    WhiteKing,
}

/// A square: `x` is the file (0 for `a` to 7 for `h`), `y` the rank as
/// written (1 to 8).
#[derive(Clone, Copy, Debug, Default, PartialEq, Eq, Structural)]
pub struct Square {
    pub x: u8,
    pub y: u8,
}

/// The piece that a pawn becomes on the last rank.
#[derive(Clone, Copy, Debug, PartialEq, Eq, Structural)]
pub enum Promotion {
    Queen,
    Knight,
    Rook,
    Bishop,
}

/// A move in long algebraic notation: source, destination, promotion.
#[derive(Clone, Copy, Debug, PartialEq, Eq, Structural)]
pub struct ChessMove {
    pub source: Square,
    pub dest: Square,
    pub promotion: Option<Promotion>,
}

/// A position decoded from FEN. `pieces` runs in FEN order: index 0 is a8,
/// index 7 is h8, index 63 is h1. `castling_availability` holds white
/// king-side, white queen-side, black king-side, black queen-side.
#[derive(Clone, Copy, Debug)]
pub struct ChessPosition {
    pub pieces: [Piece; 64],
    pub is_white: bool,
    pub castling_availability: [bool; 4],
    pub en_passent: Option<Square>,
    pub half_moves: usize,
    pub full_moves: usize,
}

/// A game: the moves played and the position they lead to.
#[derive(Debug)]
pub struct ChessMatch {
    pub move_history: Vec<ChessMove>,
    pub current_position: ChessPosition,
}

/// The standard starting position.
pub const START_FEN: &'static str = "rnbqkbnr/pppppppp/8/8/8/8/PPPPPPPP/RNBQKBNR w KQkq - 0 1";

/// What a `ChessPosition` holds, as sequences.
pub ghost struct PositionView {
    pub pieces: Seq<Piece>,
    pub is_white: bool,
    pub castling: Seq<bool>,
    pub en_passent: Option<Square>,
    pub half_moves: nat,
    pub full_moves: nat,
}

impl View for ChessPosition {
    type V = PositionView;

    open spec fn view(&self) -> PositionView {
        PositionView {
            pieces: self.pieces@,
            is_white: self.is_white,
            castling: self.castling_availability@,
            en_passent: self.en_passent,
            half_moves: self.half_moves as nat,
            full_moves: self.full_moves as nat,
        }
    }
}

/// The piece that a FEN letter names; any other character is an empty square.
pub open spec fn piece_of(c: char) -> Piece {
    if c == 'P' {
        Piece::WhitePawn
    } else if c == 'R' {
        Piece::WhiteRook
    } else if c == 'N' {
        Piece::WhiteKnight
    } else if c == 'B' {
        Piece::WhiteBishop
    } else if c == 'Q' {
        Piece::WhiteQueen
    } else if c == 'K' {
        Piece::WhiteKing
    } else if c == 'p' {
        Piece::BlackPawn
    } else if c == 'r' {
        Piece::BlackRook
    } else if c == 'n' {
        Piece::BlackKnight
    } else if c == 'b' {
        Piece::BlackBishop
    } else if c == 'q' {
        Piece::BlackQueen
    } else if c == 'k' {
        Piece::BlackKing
    } else {
        Piece::Empty
    }
}

impl From<char> for Piece {
    fn from(value: char) -> Piece {
        match value {
            'P' => Piece::WhitePawn,
            'R' => Piece::WhiteRook,
            'N' => Piece::WhiteKnight,
            'B' => Piece::WhiteBishop,
            'Q' => Piece::WhiteQueen,
            'K' => Piece::WhiteKing,
            'p' => Piece::BlackPawn,
            'r' => Piece::BlackRook,
            'n' => Piece::BlackKnight,
            'b' => Piece::BlackBishop,
            'q' => Piece::BlackQueen,
            'k' => Piece::BlackKing,
            _ => Piece::Empty,
        }
    }
}

impl vstd::std_specs::convert::FromSpecImpl<char> for Piece {
    open spec fn obeys_from_spec() -> bool {
        true
    }

    open spec fn from_spec(v: char) -> Piece {
        piece_of(v)
    }
}

pub open spec fn empty_board() -> Seq<Piece> {
    Seq::new(64, |i: int| Piece::Empty)
}

/// The board that the piece-placement field `s` describes, and the index of
/// the next square to fill. Each letter fills one square, each digit skips
/// that many, `/` only separates ranks; squares past h1 are dropped.
pub open spec fn placement(s: Seq<char>) -> (Seq<Piece>, nat)
    decreases s.len(),
{
    if s.len() == 0 {
        (empty_board(), 0)
    } else {
        let (b, idx) = placement(s.drop_last());
        let c = s.last();
        if c == '/' || idx >= 64 {
            (b, idx)
        } else if is_digit(c) {
            (b, idx + digit_value(c))
        } else {
            (b.update(idx as int, piece_of(c)), idx + 1)
        }
    }
}

/// The `k`-th whitespace-separated field of `fen`, empty where there is none.
pub open spec fn fen_field(fen: Seq<char>, k: int) -> Seq<char> {
    let f = words(fen);
    if 0 <= k < f.len() {
        f[k]
    } else {
        seq![]
    }
}

/// A counter field: its number, or 0 where it is not one.
pub open spec fn counter_of(s: Seq<char>) -> nat {
    match unsigned_value(s, usize::MAX as nat) {
        Some(n) => n,
        None => 0,
    }
}

/// The position that `fen` describes. Fields that are missing or malformed
/// read as their empty value: black to move, no castling, no en passant
/// square, zero counters.
pub open spec fn fen_view(fen: Seq<char>) -> PositionView {
    let castles = fen_field(fen, 2);
    let ep = fen_field(fen, 3);
    PositionView {
        pieces: placement(fen_field(fen, 0)).0,
        is_white: fen_field(fen, 1) == seq!['w'],
        castling: seq![
            castles.contains('K'),
            castles.contains('Q'),
            castles.contains('k'),
            castles.contains('q'),
        ],
        en_passent: if ep.len() == 2 {
            square_of(ep)
        } else {
            None
        },
        half_moves: counter_of(fen_field(fen, 4)),
        full_moves: counter_of(fen_field(fen, 5)),
    }
}

fn read_counter(t: &str) -> (r: usize)
    ensures
        r as nat == counter_of(t@),
{
    match parse_u64(t) {
        Some(v) => {
            if v as u128 <= usize::MAX as u128 {
                v as usize
            } else {
                0
            }
        },
        None => 0,
    }
}

impl ChessPosition {
    /// Decodes a FEN text. Every text gives a position: see `fen_view`.
    pub fn from_fen(fen: String) -> (r: ChessPosition)
        ensures
            r@ == fen_view(fen@),
    {
        let fields = split_words(fen.as_str());
        assert(texts(fields@).len() == fields@.len());
        let mut pieces: [Piece; 64] = [Piece::Empty; 64];
        assert(pieces@ =~= empty_board());
        if fields.len() > 0 {
            let cs = chars_of(fields[0].as_str());
            assert(cs@ == fen_field(fen@, 0)) by {
                assert(texts(fields@)[0] == fields@[0]@);
            }
            let mut index: usize = 0;
            let mut i: usize = 0;
            while i < cs.len()
                invariant
                    i <= cs.len(),
                    placement(cs@.take(i as int)) == (pieces@, index as nat),
                    index <= 72,
                decreases cs.len() - i,
            {
                let c = cs[i];
                assert(cs@.take(i + 1).drop_last() =~= cs@.take(i as int));
                assert(cs@.take(i + 1).last() == c);
                if c == '/' || index >= 64 {
                } else if '0' <= c && c <= '9' {
                    index = index + (c as u32 - '0' as u32) as usize;
                } else {
                    pieces[index] = Piece::from(c);
                    assert(pieces@ =~= placement(cs@.take(i as int)).0.update(
                        (index as int),
                        piece_of(c),
                    ));
                    index = index + 1;
                }
                i = i + 1;
            }
            assert(cs@.take(i as int) =~= cs@);
        } else {
            assert(fen_field(fen@, 0) =~= seq![]);
        }
        let is_white = fields.len() > 1 && text_is(fields[1].as_str(), "w");
        proof {
            reveal_strlit("w");
            assert("w"@ =~= seq!['w']);
            if fields.len() > 1 {
                assert(texts(fields@)[1] == fields@[1]@);
            }
        }
        let mut castling_availability: [bool; 4] = [false; 4];
        if fields.len() > 2 {
            let c = fields[2].as_str();
            proof {
                assert(texts(fields@)[2] == fields@[2]@);
            }
            castling_availability = [
                text_contains(c, 'K'),
                text_contains(c, 'Q'),
                text_contains(c, 'k'),
                text_contains(c, 'q'),
            ];
        }
        assert(castling_availability@ =~= fen_view(fen@).castling);
        let mut en_passent: Option<Square> = None;
        if fields.len() > 3 {
            let e = fields[3].as_str();
            proof {
                assert(texts(fields@)[3] == fields@[3]@);
            }
            if chars_of(e).len() == 2 {
                en_passent = match parse_square(e) {
                    Ok(sq) => Some(sq),
                    Err(_) => None,
                };
            }
        }
        let mut half_moves: usize = 0;
        if fields.len() > 4 {
            proof {
                assert(texts(fields@)[4] == fields@[4]@);
            }
            half_moves = read_counter(fields[4].as_str());
        } else {
            proof {
                assert(unsigned_value(seq![], usize::MAX as nat) is None);
            }
        }
        let mut full_moves: usize = 0;
        if fields.len() > 5 {
            proof {
                assert(texts(fields@)[5] == fields@[5]@);
            }
            full_moves = read_counter(fields[5].as_str());
        } else {
            proof {
                assert(unsigned_value(seq![], usize::MAX as nat) is None);
            }
        }
        let r = ChessPosition {
            pieces,
            is_white,
            castling_availability,
            en_passent,
            half_moves,
            full_moves,
        };
        r
    }
}

impl Default for ChessPosition {
    /// The standard starting position.
    fn default() -> (r: ChessPosition)
        ensures
            r@ == fen_view(START_FEN@),
    {
        ChessPosition::from_fen(START_FEN.to_string())
    }
}

} // verus!
