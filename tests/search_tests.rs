use chess_engine::board::ChessPosition;
use chess_engine::eval::evaluate;
use chess_engine::rules::{check_safe_placement, legal_successors};
use chess_engine::search::{best_score_index, minimax, search_moves, NO_MOVES_SCORE};

const MATED: &str = "k7/1Q6/1K6/8/8/8/8/8 b - - 0 1";
const BARE_KINGS: &str = "7k/8/8/8/8/8/8/K7 w - - 0 1";

#[test]
fn later_equal_score_wins_the_root_choice() {
    assert_eq!(best_score_index(&vec![5, 9, 3, 9, 1]), 3);
    assert_eq!(best_score_index(&vec![4, 4, 4]), 2);
}

#[test]
fn best_score_index_picks_the_maximum() {
    assert_eq!(best_score_index(&vec![7]), 0);
    assert_eq!(best_score_index(&vec![1, 2, 3]), 2);
    assert_eq!(best_score_index(&vec![3, 2, 1]), 0);
    assert_eq!(best_score_index(&vec![-5, 10, -20]), 1);
}

#[test]
fn search_returns_a_legal_move() {
    let m = search_moves(BARE_KINGS).expect("a move");
    assert!(["a1a2", "a1b1", "a1b2"].contains(&m.as_str()), "{}", m);
}

#[test]
fn search_in_checkmate_has_no_move() {
    assert_eq!(search_moves(MATED), None);
}

#[test]
fn search_of_refused_fen_has_no_move() {
    assert_eq!(search_moves("not a position"), None);
}

#[test]
fn minimax_at_depth_zero_is_the_evaluation() {
    let fen = "4k3/8/8/8/8/8/8/3QK3 w - - 0 1";
    let p = ChessPosition::from_fen(fen.to_string());
    assert_eq!(minimax(fen, true, 0), evaluate(&p, true));
    assert_eq!(minimax(fen, true, 0), 895);
}

#[test]
fn minimax_without_moves_gives_the_sentinel() {
    assert_eq!(minimax(MATED, true, 1), -NO_MOVES_SCORE);
    assert_eq!(minimax(MATED, false, 2), NO_MOVES_SCORE);
}

#[test]
fn minimax_one_ply_takes_the_best_child() {
    // The white king goes to a2, b1 or b2; scored for White these are worth
    // 0, 10 and 0 against the black king on h8.
    assert_eq!(minimax(BARE_KINGS, true, 1), 10);
    assert_eq!(minimax(BARE_KINGS, false, 1), -10);
}

#[test]
fn legal_successors_lists_moves_and_positions() {
    let children = legal_successors(BARE_KINGS).expect("a readable position");
    let moves: Vec<&str> = children.iter().map(|c| c.mv.as_str()).collect();
    assert_eq!(moves.len(), 3);
    for m in ["a1a2", "a1b1", "a1b2"] {
        assert!(moves.contains(&m), "{}", m);
    }
    let after_b1 = children.iter().find(|c| c.mv == "a1b1").unwrap();
    assert_eq!(after_b1.fen, "7k/8/8/8/8/8/8/1K6 b - - 0 1");
    assert!(legal_successors(MATED).unwrap().is_empty());
}

#[test]
fn positions_without_kings_are_not_searched() {
    assert!(!check_safe_placement("8/8/8/8/8/8/8/8 w - - 0 1"));
    assert!(!check_safe_placement("k7/8/8/8/8/8/8/8 b - - 0 1"));
    assert!(!check_safe_placement("Kk6/8/8/8/8/8/8/8/8 w - - 0 1"));
    assert!(!check_safe_placement("Kk7/8/8/8/8/8/8/8 w - - 0 1"));
    assert!(check_safe_placement("Kk6/8/8/8/8/8/8/8 w - - 0 1"));
    assert!(check_safe_placement("Kk w"));
    assert!(!check_safe_placement("7k/8/8/8/NNNNNNNN/NNNNNNNN/NNNNNNNN/K7 w - - 0 1"));
    assert!(check_safe_placement("7k/8/8/8/8/NNNNNNNN/NNNNNNN1/K7 w - - 0 1"));
    assert!(legal_successors("8/8/8/8/8/8/8/8 w - - 0 1").is_none());
    assert_eq!(search_moves("8/8/8/8/8/8/8/8 w - - 0 1"), None);
    assert_eq!(minimax("8/8/8/8/8/8/8/8 w - - 0 1", true, 2), -NO_MOVES_SCORE);
}
