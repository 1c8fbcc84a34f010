use chess_engine::engine::{Engine, Reaction};
use chess_engine::search::{GoOptions, MoveTime};
use chess_engine::worker::{process_request, report_search, worker_step, SearchQueue, SearchState, WorkerAction};

fn request(board: &str, depth: usize) -> GoOptions {
    GoOptions {
        board: board.to_string(),
        search_moves: Vec::new(),
        ponder: false,
        white_time: None,
        black_time: None,
        white_increment_time: 0,
        black_increment_time: 0,
        moves_to_go: 0,
        depth,
        nodes: 0,
        mate: 0,
        move_time: MoveTime::NotSpecified,
    }
}

#[test]
fn requests_leave_in_submission_order() {
    let mut q = SearchQueue::new();
    assert!(q.is_empty());
    q.submit(request("a", 1));
    q.submit(request("b", 2));
    q.submit(request("c", 3));
    assert_eq!(q.len(), 3);
    assert_eq!(q.take().unwrap().depth, 1);
    assert_eq!(q.take().unwrap().depth, 2);
    q.submit(request("d", 4));
    assert_eq!(q.take().unwrap().depth, 3);
    assert_eq!(q.take().unwrap().depth, 4);
    assert!(q.take().is_none());
}

#[test]
fn worker_reports_a_legal_best_move() {
    let state = SearchState::new();
    match process_request(&state, &request("7k/8/8/8/8/8/8/K7 w - - 0 1", 0)) {
        WorkerAction::Report(line) => assert!(
            ["bestmove a1a2", "bestmove a1b1", "bestmove a1b2"].contains(&line.as_str()),
            "{}",
            line
        ),
        WorkerAction::Stop => panic!("unexpected stop"),
    }
    assert!(!state.is_busy());
}

#[test]
fn worker_reports_null_move_without_legal_moves() {
    assert_eq!(report_search(&request("k7/1Q6/1K6/8/8/8/8/8 b - - 0 1", 0)), "bestmove 0000");
}

#[test]
fn worker_stops_when_asked() {
    let state = SearchState::new();
    assert!(!state.stop_requested());
    state.request_stop();
    assert!(state.stop_requested());
    assert!(matches!(
        process_request(&state, &request("7k/8/8/8/8/8/8/K7 w - - 0 1", 0)),
        WorkerAction::Stop
    ));
}

#[test]
fn go_requests_carry_their_own_position() {
    let mut e = Engine::new();
    e.execute("position fen 7k/8/8/8/8/8/8/K7 w - - 0 1");
    let first = match e.execute("go") {
        Reaction::Search(o) => o,
        other => panic!("unexpected {:?}", other),
    };
    e.execute("position startpos");
    assert_eq!(first.board, "7k/8/8/8/8/8/8/K7 w - - 0 1");
}

#[test]
fn worker_step_stops_exactly_when_asked() {
    let r = request("7k/8/8/8/8/8/8/K7 w - - 0 1", 0);
    assert!(matches!(worker_step(true, &r), WorkerAction::Stop));
    match worker_step(false, &r) {
        WorkerAction::Report(line) => assert!(line.starts_with("bestmove a1"), "{}", line),
        WorkerAction::Stop => panic!("unexpected stop"),
    }
}

#[test]
fn worker_reports_each_request_in_order() {
    let state = SearchState::new();
    let mut q = SearchQueue::new();
    q.submit(request("7k/8/8/8/8/8/8/K7 w - - 0 1", 1));
    q.submit(request("k7/1Q6/1K6/8/8/8/8/8 b - - 0 1", 2));
    q.submit(request("K7/8/8/8/8/8/8/7k b - - 0 1", 3));
    let mut lines = Vec::new();
    while let Some(r) = q.take() {
        match process_request(&state, &r) {
            WorkerAction::Report(line) => lines.push(line),
            WorkerAction::Stop => panic!("unexpected stop"),
        }
    }
    assert_eq!(lines.len(), 3);
    assert!(lines[0].starts_with("bestmove a1"));
    assert_eq!(lines[1], "bestmove 0000");
    assert!(lines[2].starts_with("bestmove h1"));
}
