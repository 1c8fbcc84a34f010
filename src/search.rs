//! The searcher: fixed-depth minimax over the rules library's successors,
//! and the choice of the move to play, with its tie-break.
use vstd::prelude::*;
use crate::board::{ChessMove, ChessPosition, fen_view};
use crate::eval::{evaluate, evaluation};
use crate::rules::{legal_successors, successor_views, successors_of};

verus! {

broadcast use vstd::string::group_string_axioms;

/// Plies searched below each root move when no depth is honoured.
pub const SEARCH_DEPTH: u64 = 3;

/// The score of a position in which the side to choose has no move: this
/// large sentinel stands for both checkmate and stalemate.
pub const NO_MOVES_SCORE: i64 = 1_000_000_000;

/// How long a search may take.
#[derive(Clone, Copy, Debug, Default, PartialEq, Eq, Structural)]
pub enum MoveTime {
    #[default]
    NotSpecified,
    /// A fixed time, in milliseconds.
    Finite(u64),
    Infinite,
}

/// A search request: the position to search (FEN text written by the rules
/// library) and the options of the `go` command that asked for it. Times
/// are in milliseconds.
#[derive(Debug)]
pub struct GoOptions {
    pub board: String,
    pub search_moves: Vec<ChessMove>,
    pub ponder: bool,
    pub white_time: Option<u64>,
    pub black_time: Option<u64>,
    pub white_increment_time: u64,
    pub black_increment_time: u64,
    pub moves_to_go: usize,
    pub depth: usize,
    pub nodes: usize,
    pub mate: usize,
    pub move_time: MoveTime,
}

pub open spec fn no_moves_score(maximizing: bool) -> int {
    if maximizing {
        -NO_MOVES_SCORE
    } else {
        NO_MOVES_SCORE as int
    }
}

/// The better of two scores for the maximizing or the minimizing side.
pub open spec fn better(a: int, b: int, maximizing: bool) -> int {
    if maximizing {
        if a >= b {
            a
        } else {
            b
        }
    } else {
        if a <= b {
            a
        } else {
            b
        }
    }
}

/// The minimax score of the position `fen` searched `depth` plies deep;
/// leaves are scored by `evaluation` for the side to move (`maximizing`) or
/// the other side.
pub open spec fn minimax_value(fen: Seq<char>, maximizing: bool, depth: nat) -> int
    decreases depth, 0nat,
{
    if depth == 0 {
        evaluation(fen_view(fen), maximizing)
    } else {
        match successors_of(fen) {
            None => no_moves_score(maximizing),
            Some(s) => children_value(s, maximizing, (depth - 1) as nat, s.len()),
        }
    }
}

/// The best score, for `maximizing`, over the first `k` successors searched
/// `depth` plies deep by the other side; the sentinel where there are none.
pub open spec fn children_value(
    s: Seq<(Seq<char>, Seq<char>)>,
    maximizing: bool,
    depth: nat,
    k: nat,
) -> int
    decreases depth, k + 1,
{
    if k == 0 || k > s.len() {
        no_moves_score(maximizing)
    } else {
        better(
            children_value(s, maximizing, depth, (k - 1) as nat),
            minimax_value(s[k - 1].1, !maximizing, depth),
            maximizing,
        )
    }
}

/// Searches the position `fen` `depth` plies deep.
pub fn minimax(fen: &str, maximizing: bool, depth: u64) -> (r: i64)
    ensures
        r as int == minimax_value(fen@, maximizing, depth as nat),
    decreases depth,
{
    if depth == 0 {
        let position = ChessPosition::from_fen(fen.to_string());
        return evaluate(&position, maximizing);
    }
    let sentinel = if maximizing {
        -NO_MOVES_SCORE
    } else {
        NO_MOVES_SCORE
    };
    match legal_successors(fen) {
        None => sentinel,
        Some(children) => {
            let ghost s = successor_views(children@);
            let mut best = sentinel;
            let mut i: usize = 0;
            while i < children.len()
                invariant
                    s == successor_views(children@),
                    i <= children.len(),
                    depth > 0,
                    best as int == children_value(s, maximizing, (depth - 1) as nat, i as nat),
                decreases children.len() - i,
            {
                let score = minimax(children[i].fen.as_str(), !maximizing, depth - 1);
                if maximizing {
                    if score > best {
                        best = score;
                    }
                } else {
                    if score < best {
                        best = score;
                    }
                }
                i = i + 1;
            }
            best
        },
    }
}

/// The scores of the root moves: each successor searched by the opponent.
pub open spec fn root_scores(s: Seq<(Seq<char>, Seq<char>)>) -> Seq<int> {
    Seq::new(s.len(), |i: int| minimax_value(s[i].1, false, SEARCH_DEPTH as nat))
}

/// The choice among the first `k` scores: a later score replaces the one
/// kept when it is greater than or equal to it.
pub open spec fn best_index_upto(scores: Seq<int>, k: int) -> int
    decreases k,
{
    if k <= 1 {
        0
    } else {
        let b = best_index_upto(scores, k - 1);
        if scores[b] <= scores[k - 1] {
            k - 1
        } else {
            b
        }
    }
}

pub open spec fn best_index(scores: Seq<int>) -> int {
    best_index_upto(scores, scores.len() as int)
}

/// The move that the searcher plays in `fen`, as text; `None` where the
/// position has no legal move or cannot be read.
pub open spec fn best_move(fen: Seq<char>) -> Option<Seq<char>> {
    match successors_of(fen) {
        Some(s) => if s.len() > 0 {
            Some(s[best_index(root_scores(s))].0)
        } else {
            None
        },
        None => None,
    }
}

/// The index of the root move to play, given the root moves' scores in
/// enumeration order: a later score replaces the one kept when it is greater
/// than or equal to it.
pub fn best_score_index(scores: &Vec<i64>) -> (r: usize)
    requires
        scores.len() > 0,
    ensures
        r as int == best_index(scores@.map_values(|x: i64| x as int)),
{
    let ghost ints = scores@.map_values(|x: i64| x as int);
    let mut best: usize = 0;
    let mut i: usize = 1;
    while i < scores.len()
        invariant
            ints == scores@.map_values(|x: i64| x as int),
            1 <= i <= scores.len(),
            best as int == best_index_upto(ints, i as int),
            best < i,
        decreases scores.len() - i,
    {
        if scores[best] <= scores[i] {
            best = i;
        }
        i = i + 1;
    }
    best
}

/// Picks the move to play in the position `fen`.
pub fn search_moves(fen: &str) -> (r: Option<String>)
    ensures
        r is Some <==> best_move(fen@) is Some,
        r matches Some(m) ==> best_move(fen@) == Some(m@),
{
    match legal_successors(fen) {
        None => None,
        Some(children) => {
            if children.len() == 0 {
                return None;
            }
            let ghost s = successor_views(children@);
            let mut scores: Vec<i64> = Vec::new();
            let mut i: usize = 0;
            while i < children.len()
                invariant
                    s == successor_views(children@),
                    i <= children.len(),
                    scores.len() == i,
                    forall|j: int|
                        0 <= j < i ==> #[trigger] scores@[j] as int == root_scores(s)[j],
                decreases children.len() - i,
            {
                let score = minimax(children[i].fen.as_str(), false, SEARCH_DEPTH);
                scores.push(score);
                i = i + 1;
            }
            assert(scores@.map_values(|x: i64| x as int) =~= root_scores(s));
            let best = best_score_index(&scores);
            proof {
                lemma_best_index_upto(root_scores(s), s.len() as int);
            }
            Some(children[best].mv.clone())
        },
    }
}

proof fn lemma_best_index_upto(scores: Seq<int>, k: int)
    requires
        1 <= k <= scores.len(),
    ensures
        0 <= best_index_upto(scores, k) < k,
        forall|j: int| 0 <= j < k ==> #[trigger] scores[j] <= scores[best_index_upto(scores, k)],
        forall|j: int|
            best_index_upto(scores, k) < j < k ==> #[trigger] scores[j] < scores[best_index_upto(
                scores,
                k,
            )],
    decreases k,
{
    if k > 1 {
        lemma_best_index_upto(scores, k - 1);
    }
}

/// Root tie-break: the chosen root move has the best score, and every move
/// enumerated after it scores strictly less, so of the moves tied at the
/// best score the one enumerated last is chosen.
pub proof fn lemma_last_best_is_chosen(scores: Seq<int>)
    requires
        scores.len() > 0,
    ensures
        0 <= best_index(scores) < scores.len(),
        forall|j: int| 0 <= j < scores.len() ==> #[trigger] scores[j] <= scores[best_index(scores)],
        forall|j: int|
            best_index(scores) < j < scores.len() ==> #[trigger] scores[j] < scores[best_index(scores)],
{
    lemma_best_index_upto(scores, scores.len() as int);
}

/// Root tie-break in a position: where two root moves `i < j` tie at the
/// best score, the move played is not `i` but one enumerated at `j` or later,
/// and every root move after the one played scores strictly less.
pub proof fn lemma_search_plays_last_of_tied(fen: Seq<char>, i: int, j: int)
    requires
        successors_of(fen) is Some,
        0 <= i < j < successors_of(fen)->0.len(),
        root_scores(successors_of(fen)->0)[i] == root_scores(successors_of(fen)->0)[j],
        forall|k: int|
            0 <= k < successors_of(fen)->0.len() ==> #[trigger] root_scores(successors_of(fen)->0)[k]
                <= root_scores(successors_of(fen)->0)[j],
    ensures
        best_move(fen) == Some(
            successors_of(fen)->0[best_index(root_scores(successors_of(fen)->0))].0,
        ),
        j <= best_index(root_scores(successors_of(fen)->0)) < successors_of(fen)->0.len(),
        forall|k: int|
            best_index(root_scores(successors_of(fen)->0)) < k < successors_of(fen)->0.len()
                ==> #[trigger] root_scores(successors_of(fen)->0)[k] < root_scores(
                successors_of(fen)->0,
            )[best_index(root_scores(successors_of(fen)->0))],
{
    let s = successors_of(fen)->0;
    lemma_last_best_is_chosen(root_scores(s));
    let b = best_index(root_scores(s));
    if b < j {
        assert(root_scores(s)[j] < root_scores(s)[b]);
        assert(root_scores(s)[b] <= root_scores(s)[j]);
    }
}

/// In any position with at least one legal move, the searcher plays one of
/// that position's legal moves.
pub proof fn lemma_best_move_is_legal(fen: Seq<char>)
    requires
        successors_of(fen) is Some,
        successors_of(fen)->0.len() > 0,
    ensures
        best_move(fen) is Some,
        exists|i: int|
            0 <= i < successors_of(fen)->0.len() && #[trigger] successors_of(fen)->0[i].0
                == best_move(fen)->0,
{
    let s = successors_of(fen)->0;
    lemma_best_index_upto(root_scores(s), s.len() as int);
    let b = best_index(root_scores(s));
    assert(s[b].0 == best_move(fen)->0);
}

} // verus!
