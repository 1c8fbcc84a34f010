//! The calls into the `chess` rules library. Positions cross this boundary
//! as FEN text and moves as long algebraic notation, so that everything the
//! library decides is stated over plain values.
use vstd::prelude::*;
use std::str::FromStr;
use crate::board::Square;
use crate::text::{chars_of, digit_value};

verus! {

/// The rules library's error, carried through unread.
#[verifier::external_type_specification]
#[verifier::external_body]
pub struct ExChessError(chess::Error);

/// A legal move of a position, in long algebraic notation, with the FEN
/// text of the position that it leads to.
pub struct Successor {
    pub mv: String,
    pub fen: String,
}

/// The pairs (move text, FEN text) of a sequence of successors.
pub open spec fn successor_views(s: Seq<Successor>) -> Seq<(Seq<char>, Seq<char>)> {
    s.map_values(|x: Successor| (x.mv@, x.fen@))
}

/// The FEN text that the rules library writes for the position it reads
/// from `fen`, or `None` where it refuses `fen`.
pub uninterp spec fn rules_fen(fen: Seq<char>) -> Option<Seq<char>>;

/// The legal moves of the position that the rules library reads from `fen`,
/// in the order of its move generator, each with the FEN text of the
/// position after it; `None` where it refuses `fen`.
pub uninterp spec fn rules_successors(fen: Seq<char>) -> Option<Seq<(Seq<char>, Seq<char>)>>;

/// The characters of `fen` before its first space: the field from which the
/// rules library reads the piece placement.
pub open spec fn placement_field(fen: Seq<char>) -> Seq<char>
    decreases fen.len(),
{
    if fen.len() == 0 || fen[0] == ' ' {
        seq![]
    } else {
        seq![fen[0]] + placement_field(fen.drop_first())
    }
}

pub open spec fn is_piece_letter(c: char) -> bool {
    c == 'P' || c == 'N' || c == 'B' || c == 'R' || c == 'Q' || c == 'K' || c == 'p' || c == 'n'
        || c == 'b' || c == 'r' || c == 'q' || c == 'k'
}

/// Scans a piece placement: whether it is malformed so far, the rank
/// separators seen, and the width of the current rank.
pub open spec fn placement_scan(p: Seq<char>) -> (bool, nat, nat)
    decreases p.len(),
{
    if p.len() == 0 {
        (false, 0, 0)
    } else {
        let (bad, slashes, width) = placement_scan(p.drop_last());
        let c = p.last();
        if c == '/' {
            (bad || slashes >= 7, slashes + 1, 0)
        } else if '1' <= c && c <= '8' {
            (bad || width + digit_value(c) > 8, slashes, width + digit_value(c))
        } else if is_piece_letter(c) {
            (bad || width + 1 > 8, slashes, width + 1)
        } else {
            (true, slashes, width)
        }
    }
}

pub open spec fn is_white_letter(c: char) -> bool {
    c == 'P' || c == 'N' || c == 'B' || c == 'R' || c == 'Q' || c == 'K'
}

/// The number of piece letters of one colour in `p`.
pub open spec fn count_letters(p: Seq<char>, white: bool) -> nat
    decreases p.len(),
{
    if p.len() == 0 {
        0
    } else {
        let c = p.last();
        let counted = if white {
            is_white_letter(c)
        } else {
            is_piece_letter(c) && !is_white_letter(c)
        };
        count_letters(p.drop_last(), white) + if counted {
            1nat
        } else {
            0nat
        }
    }
}

/// The most pieces a side may have: the move generator of the rules library
/// keeps one entry per piece that can move, plus two for en passant, in a
/// list of eighteen.
pub const MAX_PIECES_PER_SIDE: usize = 16;

/// A placement that is safe to hand to the rules library: at most eight
/// ranks of at most eight squares, so that every piece gets a square of its
/// own, a king of each colour, and at most `MAX_PIECES_PER_SIDE` pieces a
/// side. The library reads a position whose side to move has no king by
/// indexing its tables out of bounds, and overflows its move list for a side
/// with more than eighteen pieces that can move.
pub open spec fn safe_placement(fen: Seq<char>) -> bool {
    let p = placement_field(fen);
    &&& !placement_scan(p).0
    &&& p.contains('K')
    &&& p.contains('k')
    &&& count_letters(p, true) <= MAX_PIECES_PER_SIDE
    &&& count_letters(p, false) <= MAX_PIECES_PER_SIDE
}

proof fn lemma_placement_field_prefix(fen: Seq<char>, n: int)
    requires
        0 <= n <= fen.len(),
        n == fen.len() || fen[n] == ' ',
        forall|j: int| 0 <= j < n ==> fen[j] != ' ',
    ensures
        placement_field(fen) == fen.take(n),
    decreases fen.len(),
{
    if n > 0 {
        lemma_placement_field_prefix(fen.drop_first(), n - 1);
        assert(seq![fen[0]] + fen.drop_first().take(n - 1) =~= fen.take(n));
    } else {
        assert(fen.take(0) =~= seq![]);
    }
}

proof fn lemma_scan_bad_stays(p: Seq<char>, k: int)
    requires
        0 <= k <= p.len(),
        placement_scan(p.take(k)).0,
    ensures
        placement_scan(p).0,
    decreases p.len() - k,
{
    if k < p.len() {
        assert(p.take(k + 1).drop_last() =~= p.take(k));
        lemma_scan_bad_stays(p, k + 1);
    } else {
        assert(p.take(k) =~= p);
    }
}

/// Whether `fen` satisfies `safe_placement`.
pub fn check_safe_placement(fen: &str) -> (r: bool)
    ensures
        r == safe_placement(fen@),
{
    let cs = chars_of(fen);
    let mut n: usize = 0;
    while n < cs.len() && cs[n] != ' '
        invariant
            cs@ == fen@,
            n <= cs.len(),
            forall|j: int| 0 <= j < n ==> cs@[j] != ' ',
        decreases cs.len() - n,
    {
        n = n + 1;
    }
    proof {
        lemma_placement_field_prefix(fen@, n as int);
    }
    let ghost p = fen@.take(n as int);
    let mut slashes: usize = 0;
    let mut width: usize = 0;
    let mut white_king = false;
    let mut black_king = false;
    let mut whites: usize = 0;
    let mut blacks: usize = 0;
    let mut i: usize = 0;
    while i < n
        invariant
            cs@ == fen@,
            n <= cs.len(),
            p == fen@.take(n as int),
            placement_field(fen@) == p,
            i <= n,
            placement_scan(p.take(i as int)) == (false, slashes as nat, width as nat),
            slashes <= 7,
            width <= 8,
            white_king == p.take(i as int).contains('K'),
            black_king == p.take(i as int).contains('k'),
            whites as nat == count_letters(p.take(i as int), true),
            blacks as nat == count_letters(p.take(i as int), false),
            whites <= i,
            blacks <= i,
        decreases n - i,
    {
        let c = cs[i];
        let ghost q = p.take(i + 1);
        assert(q.drop_last() =~= p.take(i as int));
        assert(q.last() == c);
        assert(q.contains('K') == (p.take(i as int).contains('K') || c == 'K')) by {
            if c == 'K' {
                assert(q[i as int] == 'K');
            }
            if q.contains('K') && c != 'K' {
                let j = choose|j: int| 0 <= j < q.len() && q[j] == 'K';
                assert(p.take(i as int)[j] == 'K');
            }
        }
        assert(q.contains('k') == (p.take(i as int).contains('k') || c == 'k')) by {
            if c == 'k' {
                assert(q[i as int] == 'k');
            }
            if q.contains('k') && c != 'k' {
                let j = choose|j: int| 0 <= j < q.len() && q[j] == 'k';
                assert(p.take(i as int)[j] == 'k');
            }
        }
        if c == '/' {
            if slashes >= 7 {
                proof {
                    lemma_scan_bad_stays(p, i + 1);
                }
                return false;
            }
            slashes = slashes + 1;
            width = 0;
        } else if '1' <= c && c <= '8' {
            let d = (c as u32 - '0' as u32) as usize;
            if width + d > 8 {
                proof {
                    lemma_scan_bad_stays(p, i + 1);
                }
                return false;
            }
            width = width + d;
        } else if c == 'P' || c == 'N' || c == 'B' || c == 'R' || c == 'Q' || c == 'K' || c == 'p'
            || c == 'n' || c == 'b' || c == 'r' || c == 'q' || c == 'k' {
            if width + 1 > 8 {
                proof {
                    lemma_scan_bad_stays(p, i + 1);
                }
                return false;
            }
            width = width + 1;
            if c == 'P' || c == 'N' || c == 'B' || c == 'R' || c == 'Q' || c == 'K' {
                whites = whites + 1;
            } else {
                blacks = blacks + 1;
            }
            if c == 'K' {
                white_king = true;
            }
            if c == 'k' {
                black_king = true;
            }
        } else {
            proof {
                lemma_scan_bad_stays(p, i + 1);
            }
            return false;
        }
        i = i + 1;
    }
    assert(p.take(i as int) =~= p);
    white_king && black_king && whites <= MAX_PIECES_PER_SIDE && blacks <= MAX_PIECES_PER_SIDE
}

/// The legal successors of `fen`, where it is a text that is safe to hand to
/// the rules library; `None` where it is not, or where the library refuses it.
pub open spec fn successors_of(fen: Seq<char>) -> Option<Seq<(Seq<char>, Seq<char>)>> {
    if safe_placement(fen) {
        rules_successors(fen)
    } else {
        None
    }
}

/// The legal moves of `fen` and the positions they lead to, as
/// `successors_of` says.
pub fn legal_successors(fen: &str) -> (r: Option<Vec<Successor>>)
    ensures
        r is Some <==> successors_of(fen@) is Some,
        r matches Some(v) ==> successors_of(fen@) == Some(successor_views(v@)),
{
    if !check_safe_placement(fen) {
        return None;
    }
    match successors(fen) {
        Ok(v) => Some(v),
        Err(_) => None,
    }
}

/// Relies on `chess::Board::from_str` to read a FEN text, and on the
/// `Display` of `chess::Board` to write it back.
#[verifier::external_body]
pub(crate) fn canonical_fen(fen: &str) -> (r: Result<String, chess::Error>)
    requires
        safe_placement(fen@),
    ensures
        r is Ok <==> rules_fen(fen@) is Some,
        r matches Ok(s) ==> rules_fen(fen@) == Some(s@),
{
    match chess::Board::from_str(fen) {
        Ok(board) => Ok(board.to_string()),
        Err(e) => Err(e),
    }
}

/// Relies on `chess::MoveGen::new_legal` for the legal moves of the position
/// read by `chess::Board::from_str`, on `chess::Board::make_move_new` for the
/// position after each, and on `Display` of `chess::ChessMove` and
/// `chess::Board` to write both as text.
#[verifier::external_body]
pub(crate) fn successors(fen: &str) -> (r: Result<Vec<Successor>, chess::Error>)
    requires
        safe_placement(fen@),
    ensures
        r is Ok <==> rules_successors(fen@) is Some,
        r matches Ok(v) ==> rules_successors(fen@) == Some(successor_views(v@)),
{
    match chess::Board::from_str(fen) {
        Ok(board) => Ok(
            chess::MoveGen::new_legal(&board).map(
                |m| Successor { mv: m.to_string(), fen: board.make_move_new(m).to_string() },
            ).collect(),
        ),
        Err(e) => Err(e),
    }
}

/// Whether the first two characters of `s` name a square: a file letter
/// `a`-`h`, then a rank digit `1`-`8`.
pub open spec fn names_square(s: Seq<char>) -> bool {
    s.len() >= 2 && 'a' <= s[0] && s[0] <= 'h' && '1' <= s[1] && s[1] <= '8'
}

/// The square that the first two characters of `s` name: the file counted
/// from 0 for `a`, the rank as its digit.
pub open spec fn square_of(s: Seq<char>) -> Option<Square> {
    if names_square(s) {
        Some(Square { x: (s[0] as u32 - 'a' as u32) as u8, y: (s[1] as u32 - '0' as u32) as u8 })
    } else {
        None
    }
}

/// Relies on `chess::Square::from_str`, which reads a file letter and a rank
/// digit from the first two characters and refuses anything else; the
/// result is the square's file and rank indices, both counted from 0.
#[verifier::external_body]
fn square_indices(s: &str) -> (r: Result<(u8, u8), chess::Error>)
    ensures
        r is Ok <==> names_square(s@),
        r matches Ok((f, k)) ==> f as u32 == s@[0] as u32 - 'a' as u32 && k as u32 == s@[1] as u32
            - '1' as u32,
{
    match chess::Square::from_str(s) {
        Ok(sq) => Ok((sq.get_file().to_index() as u8, sq.get_rank().to_index() as u8)),
        Err(e) => Err(e),
    }
}

/// Reads the square that the first two characters of `s` name.
pub fn parse_square(s: &str) -> (r: Result<Square, chess::Error>)
    ensures
        r is Ok <==> square_of(s@) is Some,
        r matches Ok(q) ==> square_of(s@) == Some(q),
{
    match square_indices(s) {
        Ok((f, k)) => Ok(Square { x: f, y: k + 1 }),
        Err(e) => Err(e),
    }
}

} // verus!
