//! The search worker's side: the flags it shares with the dispatcher, the
//! queue of pending requests, and what it does with each request.
use vstd::prelude::*;
use std::collections::VecDeque;
use std::sync::atomic::{AtomicBool, Ordering};
use crate::search::{best_move, search_moves, GoOptions};

verus! {

broadcast use vstd::string::group_string_axioms;

/// The flags shared by the dispatcher and the search worker: a request to
/// stop taking searches, and whether a search is running.
#[derive(Debug)]
pub struct SearchState {
    pub stop_flag: AtomicBool,
    pub busy_flag: AtomicBool,
}

impl SearchState {
    pub fn new() -> (r: SearchState) {
        SearchState { stop_flag: AtomicBool::new(false), busy_flag: AtomicBool::new(false) }
    }

    /// Asks the worker to take no further request.
    pub fn request_stop(&self) {
        self.stop_flag.store(true, Ordering::Relaxed);
    }

    pub fn stop_requested(&self) -> bool {
        self.stop_flag.load(Ordering::Relaxed)
    }

    /// Whether a search is running; another thread may change it at any time.
    pub fn is_busy(&self) -> bool {
        self.busy_flag.load(Ordering::Relaxed)
    }
}

/// What the worker does with a request it has taken.
#[derive(Debug)]
pub enum WorkerAction {
    /// Stop serving requests.
    Stop,
    /// Write this line to the output.
    Report(String),
}

/// The move text reported when a position has no legal move.
pub open spec fn null_move_text() -> Seq<char> {
    seq!['0', '0', '0', '0']
}

/// The line that reports a search: `bestmove` and the move, or the null
/// move `0000` where there is none.
pub open spec fn bestmove_line(m: Option<Seq<char>>) -> Seq<char> {
    let prefix = seq!['b', 'e', 's', 't', 'm', 'o', 'v', 'e', ' '];
    match m {
        Some(t) => prefix + t,
        None => prefix + null_move_text(),
    }
}

/// The `bestmove` line for the position of `request`.
pub fn report_search(request: &GoOptions) -> (r: String)
    ensures
        r@ == bestmove_line(best_move(request.board@)),
{
    let line = "bestmove ".to_string();
    proof {
        reveal_strlit("bestmove ");
        reveal_strlit("0000");
        assert("bestmove "@ =~= seq!['b', 'e', 's', 't', 'm', 'o', 'v', 'e', ' ']);
        assert("0000"@ =~= null_move_text());
    }
    match search_moves(request.board.as_str()) {
        Some(m) => line.concat(m.as_str()),
        None => line.concat("0000"),
    }
}

/// What the worker does with a request it has taken, given whether a stop
/// was asked for: stop, or report the search of the request's position.
pub fn worker_step(stop: bool, request: &GoOptions) -> (r: WorkerAction)
    ensures
        stop <==> r is Stop,
        r matches WorkerAction::Report(line) ==> line@ == bestmove_line(best_move(request.board@)),
{
    if stop {
        WorkerAction::Stop
    } else {
        WorkerAction::Report(report_search(request))
    }
}

/// One step of the worker on a request it has taken: reads the stop flag,
/// and does what `worker_step` says for the value read, with the busy flag
/// raised while it searches. The flag may change under another thread, so
/// which of the two happens is decided by the value read.
pub fn process_request(state: &SearchState, request: &GoOptions) -> (r: WorkerAction)
    ensures
        r matches WorkerAction::Report(line) ==> line@ == bestmove_line(best_move(request.board@)),
{
    let stop = state.stop_requested();
    if !stop {
        state.busy_flag.store(true, Ordering::Relaxed);
    }
    let r = worker_step(stop, request);
    if !stop {
        state.busy_flag.store(false, Ordering::Relaxed);
    }
    r
}

/// The requests waiting for the worker, oldest first.
pub struct SearchQueue {
    requests: VecDeque<GoOptions>,
}

/// The queue after the request `r` is submitted.
pub open spec fn queue_submit(q: Seq<GoOptions>, r: GoOptions) -> Seq<GoOptions> {
    q.push(r)
}

/// The request that the worker takes next from `q`, and what stays.
pub open spec fn queue_take(q: Seq<GoOptions>) -> (Option<GoOptions>, Seq<GoOptions>) {
    if q.len() == 0 {
        (None, q)
    } else {
        (Some(q[0]), q.drop_first())
    }
}

/// The queue after each of `rs` is submitted, in order.
pub open spec fn submit_all(q: Seq<GoOptions>, rs: Seq<GoOptions>) -> Seq<GoOptions>
    decreases rs.len(),
{
    if rs.len() == 0 {
        q
    } else {
        submit_all(queue_submit(q, rs[0]), rs.drop_first())
    }
}

/// The requests in the order in which the worker takes them from `q`
/// until it is empty.
pub open spec fn take_all(q: Seq<GoOptions>) -> Seq<GoOptions>
    decreases q.len(),
{
    match queue_take(q) {
        (Some(r), rest) => seq![r] + take_all(rest),
        (None, _) => seq![],
    }
}

impl View for SearchQueue {
    type V = Seq<GoOptions>;

    closed spec fn view(&self) -> Seq<GoOptions> {
        self.requests@
    }
}

impl SearchQueue {
    pub fn new() -> (r: SearchQueue)
        ensures
            r@ == Seq::<GoOptions>::empty(),
    {
        SearchQueue { requests: VecDeque::new() }
    }

    pub fn submit(&mut self, request: GoOptions)
        ensures
            final(self)@ == queue_submit(old(self)@, request),
    {
        self.requests.push_back(request);
    }

    pub fn take(&mut self) -> (r: Option<GoOptions>)
        ensures
            (r, final(self)@) == queue_take(old(self)@),
    {
        self.requests.pop_front()
    }

    pub fn len(&self) -> (r: usize)
        ensures
            r == self@.len(),
    {
        self.requests.len()
    }

    pub fn is_empty(&self) -> (r: bool)
        ensures
            r == (self@.len() == 0),
    {
        self.requests.len() == 0
    }
}

proof fn lemma_take_all_is_contents(q: Seq<GoOptions>)
    ensures
        take_all(q) == q,
    decreases q.len(),
{
    if q.len() > 0 {
        lemma_take_all_is_contents(q.drop_first());
        assert(seq![q[0]] + q.drop_first() =~= q);
    }
}

proof fn lemma_submit_all_appends(q: Seq<GoOptions>, rs: Seq<GoOptions>)
    ensures
        submit_all(q, rs) == q + rs,
    decreases rs.len(),
{
    if rs.len() > 0 {
        lemma_submit_all_appends(q.push(rs[0]), rs.drop_first());
        assert(q.push(rs[0]) + rs.drop_first() =~= q + rs);
    }
}

/// Requests are served first in, first out: after `rs` are submitted, in
/// order, to a queue holding `q`, the worker takes those of `q` and then
/// those of `rs`, each in the order of submission.
pub proof fn lemma_requests_served_in_order(q: Seq<GoOptions>, rs: Seq<GoOptions>)
    ensures
        take_all(submit_all(q, rs)) == q + rs,
{
    lemma_submit_all_appends(q, rs);
    lemma_take_all_is_contents(q + rs);
}

} // verus!
