use chess_engine::board::{ChessMove, Promotion, Square};
use chess_engine::engine::{parse_move, Engine, EngineError, Reaction};
use chess_engine::search::MoveTime;

fn invalid_message(r: Reaction) -> String {
    match r {
        Reaction::Failed(EngineError::InvalidCommand(s)) => s,
        other => panic!("expected an invalid command, got {:?}", other),
    }
}

fn board_of(e: &Engine) -> Option<String> {
    e.current_board().cloned()
}

#[test]
fn two_move_opening_matches_its_fen() {
    let mut a = Engine::new();
    assert!(matches!(a.execute("position startpos moves e2e4 e7e5"), Reaction::Nothing));
    let mut b = Engine::new();
    assert!(matches!(
        b.execute("position fen rnbqkbnr/pppp1ppp/8/4p3/4P3/8/PPPP1PPP/RNBQKBNR w KQkq e6 0 2"),
        Reaction::Nothing
    ));
    assert_eq!(board_of(&a), board_of(&b));
    assert!(board_of(&a)
        .unwrap()
        .starts_with("rnbqkbnr/pppp1ppp/8/4p3/4P3/8/PPPP1PPP/RNBQKBNR w KQkq "));
    assert_eq!(a.moves().len(), 2);
    assert!(b.moves().is_empty());
}

#[test]
fn fen_position_round_trips() {
    let fen = "r3k2r/8/8/8/8/8/8/R3K2R w KQkq - 0 1";
    let mut e = Engine::new();
    assert!(matches!(e.execute(&format!("position fen {}", fen)), Reaction::Nothing));
    assert_eq!(board_of(&e), Some(fen.to_string()));
    let again = board_of(&e).unwrap();
    assert!(matches!(e.execute(&format!("position fen {}", again)), Reaction::Nothing));
    assert_eq!(board_of(&e), Some(again));
}

#[test]
fn fen_position_is_rewritten_by_the_rules_library() {
    let mut e = Engine::new();
    e.execute("position fen 4k3/8/8/8/8/8/8/4K3 w - - 7 33");
    assert_eq!(board_of(&e), Some("4k3/8/8/8/8/8/8/4K3 w - - 0 1".to_string()));
}

#[test]
fn go_without_position_is_rejected() {
    let mut e = Engine::new();
    assert_eq!(invalid_message(e.execute("go")), "no position set");
    assert_eq!(invalid_message(e.execute("go depth 3")), "no position set");
    assert_eq!(board_of(&e), None);
}

#[test]
fn go_with_bad_movetime_is_rejected() {
    let mut e = Engine::new();
    assert_eq!(invalid_message(e.execute("go movetime notanumber")), "no position set");
    e.execute("position startpos moves e2e4");
    let before = board_of(&e);
    assert_eq!(invalid_message(e.execute("go movetime notanumber")), "go movetime");
    assert_eq!(board_of(&e), before);
    assert_eq!(e.moves().len(), 1);
}

#[test]
fn ucinewgame_returns_to_idle() {
    let mut e = Engine::new();
    e.execute("position startpos moves e2e4");
    assert!(board_of(&e).is_some());
    assert!(matches!(e.execute("ucinewgame"), Reaction::Nothing));
    assert_eq!(board_of(&e), None);
    assert!(e.moves().is_empty());
    e.execute("isready");
    assert_eq!(invalid_message(e.execute("go")), "no position set");
}

#[test]
fn go_reads_every_option() {
    let mut e = Engine::new();
    e.execute("position startpos");
    let start = board_of(&e).unwrap();
    match e.execute(
        "go wtime 1000 btime 2000 winc 10 binc 20 movestogo 5 depth 3 nodes 100 mate 2 infinite movetime 500 ponder foo",
    ) {
        Reaction::Search(o) => {
            assert_eq!(o.board, start);
            assert_eq!(o.white_time, Some(1000));
            assert_eq!(o.black_time, Some(2000));
            assert_eq!(o.white_increment_time, 10);
            assert_eq!(o.black_increment_time, 20);
            assert_eq!(o.moves_to_go, 5);
            assert_eq!(o.depth, 3);
            assert_eq!(o.nodes, 100);
            assert_eq!(o.mate, 2);
            assert!(o.ponder);
            assert_eq!(o.move_time, MoveTime::Finite(500));
            assert!(o.search_moves.is_empty());
        }
        other => panic!("expected a search, got {:?}", other),
    }
}

#[test]
fn go_last_time_mode_wins() {
    let mut e = Engine::new();
    e.execute("position startpos");
    match e.execute("go movetime 500 infinite") {
        Reaction::Search(o) => assert_eq!(o.move_time, MoveTime::Infinite),
        other => panic!("expected a search, got {:?}", other),
    }
    match e.execute("go") {
        Reaction::Search(o) => {
            assert_eq!(o.move_time, MoveTime::NotSpecified);
            assert_eq!(o.white_time, None);
            assert!(!o.ponder);
        }
        other => panic!("expected a search, got {:?}", other),
    }
}

#[test]
fn go_reads_search_moves() {
    let mut e = Engine::new();
    e.execute("position startpos");
    match e.execute("go searchmoves e2e4 g1f3") {
        Reaction::Search(o) => assert_eq!(
            o.search_moves,
            vec![
                ChessMove { source: Square { x: 4, y: 2 }, dest: Square { x: 4, y: 4 }, promotion: None },
                ChessMove { source: Square { x: 6, y: 1 }, dest: Square { x: 5, y: 3 }, promotion: None },
            ]
        ),
        other => panic!("expected a search, got {:?}", other),
    }
    assert_eq!(invalid_message(e.execute("go searchmoves e2e4 x")), "go searchmoves");
    assert!(matches!(
        e.execute("go searchmoves e2e4 z9z9"),
        Reaction::Failed(EngineError::Chess(_))
    ));
}

#[test]
fn go_missing_numbers_are_rejected() {
    let mut e = Engine::new();
    e.execute("position startpos");
    assert_eq!(invalid_message(e.execute("go wtime")), "go wtime");
    assert_eq!(invalid_message(e.execute("go btime -5")), "go btime");
    assert_eq!(invalid_message(e.execute("go winc x")), "go winc");
    assert_eq!(invalid_message(e.execute("go binc 1.5")), "go binc");
    assert_eq!(invalid_message(e.execute("go movestogo")), "go movestogo");
    assert_eq!(invalid_message(e.execute("go depth deep")), "go depth");
    assert_eq!(invalid_message(e.execute("go nodes 99999999999999999999")), "go nodes");
    assert_eq!(invalid_message(e.execute("go mate")), "go mate");
}

#[test]
fn position_errors_leave_state_unchanged() {
    let mut e = Engine::new();
    e.execute("position startpos moves d2d4");
    let before = board_of(&e);
    assert_eq!(invalid_message(e.execute("position")), "position");
    assert_eq!(invalid_message(e.execute("position somewhere")), "position");
    assert_eq!(invalid_message(e.execute("position fen a b c")), "position fen");
    assert_eq!(invalid_message(e.execute("position startpos moves e2e")), "position ... moves");
    assert_eq!(
        invalid_message(e.execute("position startpos moves e2e4 e7e5e5e5")),
        "position ... moves"
    );
    assert_eq!(
        invalid_message(e.execute("position startpos moves e2e5")),
        "position ... moves: illegal move"
    );
    assert!(matches!(
        e.execute("position startpos moves z2e4"),
        Reaction::Failed(EngineError::Chess(_))
    ));
    assert!(matches!(
        e.execute("position fen x x x x x x"),
        Reaction::Failed(EngineError::UnreadableBoard(_))
    ));
    assert!(matches!(
        e.execute("position fen 4k3/8/8/8/8/8/8/4K3 x - - 0 1"),
        Reaction::Failed(EngineError::Chess(_))
    ));
    assert!(matches!(
        e.execute("position fen 8/8/8/8/8/8/8/kK6 w - - 0 1"),
        Reaction::Failed(EngineError::Chess(_))
    ));
    assert_eq!(board_of(&e), before);
    assert_eq!(e.moves().len(), 1);
}

#[test]
fn position_promotion_letters() {
    let mut e = Engine::new();
    assert!(matches!(
        e.execute("position fen 8/4P3/8/8/8/8/k7/4K3 w - - 0 1 moves e7e8n"),
        Reaction::Nothing
    ));
    assert_eq!(e.moves()[0].promotion, Some(Promotion::Knight));
    assert!(board_of(&e).unwrap().starts_with("4N3/"));
    assert_eq!(
        invalid_message(e.execute("position fen 8/4P3/8/8/8/8/k7/4K3 w - - 0 1 moves e7e8x")),
        "position ... moves: illegal move"
    );
}

#[test]
fn parse_move_reads_long_algebraic_notation() {
    let m = parse_move("e2e4", "ctx").unwrap();
    assert_eq!(m, ChessMove { source: Square { x: 4, y: 2 }, dest: Square { x: 4, y: 4 }, promotion: None });
    assert_eq!(parse_move("a7a8q", "ctx").unwrap().promotion, Some(Promotion::Queen));
    assert_eq!(parse_move("a7a8r", "ctx").unwrap().promotion, Some(Promotion::Rook));
    assert_eq!(parse_move("a7a8b", "ctx").unwrap().promotion, Some(Promotion::Bishop));
    assert_eq!(parse_move("a7a8k", "ctx").unwrap().promotion, None);
    assert!(matches!(parse_move("a7", "ctx"), Err(EngineError::InvalidCommand(s)) if s == "ctx"));
    assert!(matches!(parse_move("i7a8", "ctx"), Err(EngineError::Chess(_))));
    assert!(matches!(parse_move("a7a9", "ctx"), Err(EngineError::Chess(_))));
}

#[test]
fn plain_commands() {
    let mut e = Engine::new();
    match e.execute("uci") {
        Reaction::Reply(lines) => assert_eq!(
            lines,
            vec![
                "id name ChessEngine".to_string(),
                "id author Lukas Elias Lund Majland".to_string(),
                "uciok".to_string()
            ]
        ),
        other => panic!("unexpected {:?}", other),
    }
    match e.execute("  isready  ") {
        Reaction::Reply(lines) => assert_eq!(lines, vec!["readyok".to_string()]),
        other => panic!("unexpected {:?}", other),
    }
    assert!(matches!(e.execute("quit"), Reaction::Quit));
    assert!(matches!(e.execute(""), Reaction::Nothing));
    assert!(matches!(e.execute("   "), Reaction::Nothing));
    assert!(matches!(e.execute("debug on"), Reaction::Nothing));
    assert_eq!(board_of(&e), None);
}

#[test]
fn boards_without_kings_are_refused_before_the_rules_library() {
    let mut e = Engine::new();
    for fen in [
        "8/8/8/8/8/8/8/8 w - - 0 1",
        "4k3/8/8/8/8/8/8/8 w - - 0 1",
        "4K3/8/8/8/8/8/8/8 b - - 0 1",
        "K///////q/k w - - 0 1",
        "K8k/8/8/8/8/8/8/8 w - - 0 1",
        "7k/8/8/8/NNNNNNNN/NNNNNNNN/NNNNNNNN/K7 w - - 0 1",
        "7K/8/8/8/nnnnnnnn/nnnnnnnn/8/k7 b - - 0 1",
    ] {
        match e.execute(&format!("position fen {}", fen)) {
            Reaction::Failed(EngineError::UnreadableBoard(s)) => {
                assert_eq!(s, "position: malformed board")
            }
            other => panic!("{}: unexpected {:?}", fen, other),
        }
    }
    assert!(matches!(
        e.execute("position fen 7k/8/8/8/8/NNNNNNNN/NNNNNNN1/K7 w - - 0 1"),
        Reaction::Nothing
    ));
    assert!(matches!(e.execute("ucinewgame"), Reaction::Nothing));
    assert_eq!(board_of(&e), None);
}
