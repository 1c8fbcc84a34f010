//! The UCI command dispatcher: the engine's state, the `position` and `go`
//! grammars, and the reaction to each input line.
use vstd::prelude::*;
use crate::board::{ChessMove, Promotion, START_FEN};
use crate::rules::{canonical_fen, check_safe_placement, safe_placement, legal_successors, parse_square, rules_fen, square_of, successor_views, successors_of};
use crate::search::{GoOptions, MoveTime};
use crate::text::{chars_of, parse_u64, split_words, text_is, texts, unsigned_value, words};

verus! {

broadcast use vstd::string::group_string_axioms;

/// Why a command was rejected.
#[derive(Debug)]
pub enum EngineError {
    /// Malformed or out-of-sequence input, with what was being read.
    InvalidCommand(String),
    /// The rules library refused a FEN text or a square.
    Chess(chess::Error),
    /// A board that the rules library cannot read safely, with what was
    /// being read; see `safe_placement`.
    UnreadableBoard(String),
}

/// A rejection as the contracts see it: the message of an invalid command,
/// or a refusal by the rules library.
pub ghost enum Failure {
    Invalid(Seq<char>),
    Rules,
}

pub open spec fn failure_of(e: EngineError) -> Failure {
    match e {
        EngineError::InvalidCommand(s) => Failure::Invalid(s@),
        EngineError::Chess(_) => Failure::Rules,
        EngineError::UnreadableBoard(_) => Failure::Rules,
    }
}

/// The engine: the current position (FEN text written by the rules
/// library), absent until a `position` command succeeds, and the moves
/// applied since.
#[derive(Debug)]
pub struct Engine {
    current_board: Option<String>,
    moves: Vec<ChessMove>,
}

pub ghost struct EngineView {
    pub board: Option<Seq<char>>,
    pub moves: Seq<ChessMove>,
}

impl View for Engine {
    type V = EngineView;

    closed spec fn view(&self) -> EngineView {
        EngineView {
            board: match self.current_board {
                Some(b) => Some(b@),
                None => None,
            },
            moves: self.moves@,
        }
    }
}

/// The state without a position.
pub open spec fn idle() -> EngineView {
    EngineView { board: None, moves: seq![] }
}

/// The promotion that a move text's fifth character asks for; any other
/// character, or none, is no promotion.
pub open spec fn promotion_of(t: Seq<char>) -> Option<Promotion> {
    if t.len() == 5 && t[4] == 'q' {
        Some(Promotion::Queen)
    } else if t.len() == 5 && t[4] == 'n' {
        Some(Promotion::Knight)
    } else if t.len() == 5 && t[4] == 'r' {
        Some(Promotion::Rook)
    } else if t.len() == 5 && t[4] == 'b' {
        Some(Promotion::Bishop)
    } else {
        None
    }
}

/// The move that a text of 4 or 5 characters names, where both squares read.
pub open spec fn move_of_text(t: Seq<char>) -> Option<ChessMove> {
    if 4 <= t.len() <= 5 {
        match (square_of(t.subrange(0, 2)), square_of(t.subrange(2, 4))) {
            (Some(s), Some(d)) => Some(ChessMove { source: s, dest: d, promotion: promotion_of(t) }),
            _ => None,
        }
    } else {
        None
    }
}

/// Reading a move token: a length outside 4..=5 is an invalid command with
/// message `ctx`; a square that does not read is a refusal of the rules.
pub open spec fn read_move(t: Seq<char>, ctx: Seq<char>) -> Result<ChessMove, Failure> {
    if t.len() < 4 || t.len() > 5 {
        Err(Failure::Invalid(ctx))
    } else {
        match move_of_text(t) {
            Some(m) => Ok(m),
            None => Err(Failure::Rules),
        }
    }
}

/// Reads a move token in long algebraic notation.
pub fn parse_move(token: &str, context: &str) -> (r: Result<ChessMove, EngineError>)
    ensures
        r matches Ok(m) ==> read_move(token@, context@) == Ok::<ChessMove, Failure>(m),
        r matches Err(e) ==> read_move(token@, context@) == Err::<ChessMove, Failure>(failure_of(e)),
{
    let cs = chars_of(token);
    if cs.len() < 4 || cs.len() > 5 {
        return Err(EngineError::InvalidCommand(context.to_string()));
    }
    let source = match parse_square(token.substring_char(0, 2)) {
        Ok(s) => s,
        Err(e) => return Err(EngineError::Chess(e)),
    };
    let dest = match parse_square(token.substring_char(2, 4)) {
        Ok(s) => s,
        Err(e) => return Err(EngineError::Chess(e)),
    };
    let promotion = if cs.len() == 5 {
        match cs[4] {
            'q' => Some(Promotion::Queen),
            'n' => Some(Promotion::Knight),
            'r' => Some(Promotion::Rook),
            'b' => Some(Promotion::Bishop),
            _ => None,
        }
    } else {
        None
    };
    Ok(ChessMove { source, dest, promotion })
}


/// The message for a bad move token after `position ... moves`.
pub const MOVES_CONTEXT: &'static str = "position ... moves";

/// The message for a board that cannot be handed to the rules library.
pub const BOARD_CONTEXT: &'static str = "position: malformed board";

/// The message for a move that is not legal where it is played.
pub const ILLEGAL_CONTEXT: &'static str = "position ... moves: illegal move";

/// The fields `ts` joined by single spaces.
pub open spec fn join_fields(ts: Seq<Seq<char>>) -> Seq<char>
    decreases ts.len(),
{
    if ts.len() == 0 {
        seq![]
    } else if ts.len() == 1 {
        ts[0]
    } else {
        join_fields(ts.drop_last()) + seq![' '] + ts.last()
    }
}

/// The position reached by the first successor whose move text names `m`.
pub open spec fn find_successor(s: Seq<(Seq<char>, Seq<char>)>, m: ChessMove) -> Option<
    Seq<char>,
>
    decreases s.len(),
{
    if s.len() == 0 {
        None
    } else if move_of_text(s[0].0) == Some(m) {
        Some(s[0].1)
    } else {
        find_successor(s.drop_first(), m)
    }
}

/// Plays the move tokens `toks` in order from `fen`, after the moves
/// `played`: the position reached and all moves played, or the first failure.
pub open spec fn apply_moves(fen: Seq<char>, toks: Seq<Seq<char>>, played: Seq<ChessMove>) -> Result<
    (Seq<char>, Seq<ChessMove>),
    Failure,
>
    decreases toks.len(),
{
    if toks.len() == 0 {
        Ok((fen, played))
    } else {
        match read_move(toks[0], MOVES_CONTEXT@) {
            Err(f) => Err(f),
            Ok(m) => match successors_of(fen) {
                None => Err(Failure::Invalid(ILLEGAL_CONTEXT@)),
                Some(s) => match find_successor(s, m) {
                    None => Err(Failure::Invalid(ILLEGAL_CONTEXT@)),
                    Some(next) => apply_moves(next, toks.drop_first(), played.push(m)),
                },
            },
        }
    }
}

/// Reading a FEN text: the rules library's own text for it, or a refusal
/// of the rules, also for a board that cannot be handed to the library.
pub open spec fn read_board(fen: Seq<char>) -> Result<Seq<char>, Failure> {
    if !safe_placement(fen) {
        Err(Failure::Rules)
    } else {
        match rules_fen(fen) {
            None => Err(Failure::Rules),
            Some(b) => Ok(b),
        }
    }
}

/// What follows the base position: optionally `moves` and move tokens;
/// anything else is ignored.
pub open spec fn after_base(base: Result<Seq<char>, Failure>, rest: Seq<Seq<char>>) -> Result<
    (Seq<char>, Seq<ChessMove>),
    Failure,
> {
    match base {
        Err(f) => Err(f),
        Ok(b) => if rest.len() > 0 && rest[0] == "moves"@ {
            apply_moves(b, rest.drop_first(), seq![])
        } else {
            Ok((b, seq![]))
        },
    }
}

/// The outcome of `position` with the arguments `args`: the new position
/// and move history, or why the command is rejected.
pub open spec fn position_spec(args: Seq<Seq<char>>) -> Result<(Seq<char>, Seq<ChessMove>), Failure> {
    if args.len() > 0 && args[0] == "startpos"@ {
        after_base(read_board(START_FEN@), args.drop_first())
    } else if args.len() > 0 && args[0] == "fen"@ {
        if args.len() < 7 {
            Err(Failure::Invalid("position fen"@))
        } else {
            after_base(read_board(join_fields(args.subrange(1, 7))), args.skip(7))
        }
    } else {
        Err(Failure::Invalid("position"@))
    }
}

fn join_arguments(arguments: &[String], from: usize, to: usize) -> (r: String)
    requires
        from < to <= arguments@.len(),
    ensures
        r@ == join_fields(texts(arguments@).subrange(from as int, to as int)),
{
    let ghost args = texts(arguments@);
    let mut s = arguments[from].clone();
    let mut k: usize = from + 1;
    assert(args.subrange(from as int, k as int) =~= seq![args[from as int]]);
    while k < to
        invariant
            args == texts(arguments@),
            from < k <= to,
            to <= arguments@.len(),
            s@ == join_fields(args.subrange(from as int, k as int)),
        decreases to - k,
    {
        let ghost sub = args.subrange(from as int, k + 1);
        assert(sub.drop_last() =~= args.subrange(from as int, k as int));
        assert(sub.last() == arguments@[k as int]@);
        s = s.concat(" ").concat(arguments[k].as_str());
        proof {
            reveal_strlit(" ");
            assert(" "@ =~= seq![' ']);
        }
        k = k + 1;
    }
    s
}

/// Reads a move text, or `None` where it names no move.
fn move_from_text(t: &str) -> (r: Option<ChessMove>)
    ensures
        r == move_of_text(t@),
{
    match parse_move(t, "") {
        Ok(m) => Some(m),
        Err(_) => None,
    }
}

fn find_child(children: &Vec<crate::rules::Successor>, m: ChessMove) -> (r: Option<String>)
    ensures
        r is Some <==> find_successor(successor_views(children@), m) is Some,
        r matches Some(f) ==> find_successor(successor_views(children@), m) == Some(f@),
{
    let ghost s = successor_views(children@);
    let mut i: usize = 0;
    assert(s.skip(0) =~= s);
    while i < children.len()
        invariant
            s == successor_views(children@),
            i <= children.len(),
            find_successor(s, m) == find_successor(s.skip(i as int), m),
        decreases children.len() - i,
    {
        assert(s.skip(i as int).drop_first() =~= s.skip(i + 1));
        if move_from_text(children[i].mv.as_str()) == Some(m) {
            return Some(children[i].fen.clone());
        }
        i = i + 1;
    }
    assert(s.skip(i as int) =~= seq![]);
    None
}

/// The options of a search request, as the contracts see them.
pub ghost struct GoView {
    pub search_moves: Seq<ChessMove>,
    pub ponder: bool,
    pub white_time: Option<u64>,
    pub black_time: Option<u64>,
    pub white_increment_time: u64,
    pub black_increment_time: u64,
    pub moves_to_go: usize,
    pub depth: usize,
    pub nodes: usize,
    pub mate: usize,
    pub move_time: MoveTime,
}

pub open spec fn go_view(o: GoOptions) -> GoView {
    GoView {
        search_moves: o.search_moves@,
        ponder: o.ponder,
        white_time: o.white_time,
        black_time: o.black_time,
        white_increment_time: o.white_increment_time,
        black_increment_time: o.black_increment_time,
        moves_to_go: o.moves_to_go,
        depth: o.depth,
        nodes: o.nodes,
        mate: o.mate,
        move_time: o.move_time,
    }
}

/// The options of a bare `go`.
pub open spec fn default_go() -> GoView {
    GoView {
        search_moves: seq![],
        ponder: false,
        white_time: None,
        black_time: None,
        white_increment_time: 0,
        black_increment_time: 0,
        moves_to_go: 0,
        depth: 0,
        nodes: 0,
        mate: 0,
        move_time: MoveTime::NotSpecified,
    }
}

/// The number in the first of `rest`, if it is one no larger than `max`.
pub open spec fn number_arg(rest: Seq<Seq<char>>, max: nat) -> Option<nat> {
    if rest.len() > 0 {
        unsigned_value(rest[0], max)
    } else {
        None
    }
}

/// `searchmoves` takes every token after it as a move.
pub open spec fn read_search_moves(toks: Seq<Seq<char>>, acc: GoView) -> Result<GoView, Failure>
    decreases toks.len(),
{
    if toks.len() == 0 {
        Ok(acc)
    } else {
        match read_move(toks[0], "go searchmoves"@) {
            Err(f) => Err(f),
            Ok(m) => read_search_moves(
                toks.drop_first(),
                GoView { search_moves: acc.search_moves.push(m), ..acc },
            ),
        }
    }
}

/// Reads the arguments of `go` over the options `acc`. Each option that
/// takes a number fails with its own message where the number is missing or
/// malformed; unknown tokens are skipped; a later `movetime` or `infinite`
/// overrides an earlier one.
pub open spec fn read_go(args: Seq<Seq<char>>, acc: GoView) -> Result<GoView, Failure>
    decreases args.len(),
{
    if args.len() == 0 {
        Ok(acc)
    } else {
        let t = args[0];
        let rest = args.drop_first();
        let n64 = number_arg(rest, u64::MAX as nat);
        let nsz = number_arg(rest, usize::MAX as nat);
        if t == "searchmoves"@ {
            read_search_moves(rest, acc)
        } else if t == "ponder"@ {
            read_go(rest, GoView { ponder: true, ..acc })
        } else if t == "wtime"@ {
            match n64 {
                None => Err(Failure::Invalid("go wtime"@)),
                Some(v) => read_go(rest.drop_first(), GoView { white_time: Some(v as u64), ..acc }),
            }
        } else if t == "btime"@ {
            match n64 {
                None => Err(Failure::Invalid("go btime"@)),
                Some(v) => read_go(rest.drop_first(), GoView { black_time: Some(v as u64), ..acc }),
            }
        } else if t == "winc"@ {
            match n64 {
                None => Err(Failure::Invalid("go winc"@)),
                Some(v) => read_go(
                    rest.drop_first(),
                    GoView { white_increment_time: v as u64, ..acc },
                ),
            }
        } else if t == "binc"@ {
            match n64 {
                None => Err(Failure::Invalid("go binc"@)),
                Some(v) => read_go(
                    rest.drop_first(),
                    GoView { black_increment_time: v as u64, ..acc },
                ),
            }
        } else if t == "movestogo"@ {
            match nsz {
                None => Err(Failure::Invalid("go movestogo"@)),
                Some(v) => read_go(rest.drop_first(), GoView { moves_to_go: v as usize, ..acc }),
            }
        } else if t == "depth"@ {
            match nsz {
                None => Err(Failure::Invalid("go depth"@)),
                Some(v) => read_go(rest.drop_first(), GoView { depth: v as usize, ..acc }),
            }
        } else if t == "nodes"@ {
            match nsz {
                None => Err(Failure::Invalid("go nodes"@)),
                Some(v) => read_go(rest.drop_first(), GoView { nodes: v as usize, ..acc }),
            }
        } else if t == "mate"@ {
            match nsz {
                None => Err(Failure::Invalid("go mate"@)),
                Some(v) => read_go(rest.drop_first(), GoView { mate: v as usize, ..acc }),
            }
        } else if t == "movetime"@ {
            match n64 {
                None => Err(Failure::Invalid("go movetime"@)),
                Some(v) => read_go(
                    rest.drop_first(),
                    GoView { move_time: MoveTime::Finite(v as u64), ..acc },
                ),
            }
        } else if t == "infinite"@ {
            read_go(rest, GoView { move_time: MoveTime::Infinite, ..acc })
        } else {
            read_go(rest, acc)
        }
    }
}

/// The message of `go` without a position.
pub const NO_POSITION: &'static str = "no position set";

/// The number in `arguments[k]`, where there is one no larger than `u64::MAX`.
fn u64_argument(arguments: &[String], k: usize) -> (r: Option<u64>)
    requires
        k <= arguments@.len(),
    ensures
        r is Some <==> number_arg(texts(arguments@).skip(k as int), u64::MAX as nat) is Some,
        r matches Some(v) ==> number_arg(texts(arguments@).skip(k as int), u64::MAX as nat) == Some(
            v as nat,
        ),
{
    if k >= arguments.len() {
        assert(texts(arguments@).skip(k as int) =~= seq![]);
        return None;
    }
    assert(texts(arguments@).skip(k as int)[0] == arguments@[k as int]@);
    parse_u64(arguments[k].as_str())
}

/// The number in `arguments[k]`, where there is one no larger than `usize::MAX`.
fn usize_argument(arguments: &[String], k: usize) -> (r: Option<usize>)
    requires
        k <= arguments@.len(),
    ensures
        r is Some <==> number_arg(texts(arguments@).skip(k as int), usize::MAX as nat) is Some,
        r matches Some(v) ==> number_arg(texts(arguments@).skip(k as int), usize::MAX as nat)
            == Some(v as nat),
{
    if k >= arguments.len() {
        assert(texts(arguments@).skip(k as int) =~= seq![]);
        return None;
    }
    assert(texts(arguments@).skip(k as int)[0] == arguments@[k as int]@);
    match parse_u64(arguments[k].as_str()) {
        Some(v) => if v as u128 <= usize::MAX as u128 {
            Some(v as usize)
        } else {
            None
        },
        None => None,
    }
}

/// The engine's name, as `uci` reports it.
pub const ENGINE_NAME: &'static str = "id name ChessEngine";

/// The engine's author, as `uci` reports it.
pub const ENGINE_AUTHOR: &'static str = "id author Lukas Elias Lund Majland";

/// The lines that answer `uci`.
pub open spec fn uci_lines() -> Seq<Seq<char>> {
    seq![ENGINE_NAME@, ENGINE_AUTHOR@, "uciok"@]
}

/// The lines that answer `isready`.
pub open spec fn ready_lines() -> Seq<Seq<char>> {
    seq!["readyok"@]
}

/// What an input line asks of the outside, as the contracts see it.
pub ghost enum Reply {
    /// Write these lines.
    Lines(Seq<Seq<char>>),
    /// Hand a search of this position with these options to the worker.
    Search(Seq<char>, GoView),
    /// The command was rejected: write one diagnostic line.
    Failed(Failure),
    /// Stop reading input.
    Quit,
    /// Nothing to do.
    Nothing,
}

/// What an input line asks of the outside.
#[derive(Debug)]
pub enum Reaction {
    /// Write these lines.
    Reply(Vec<String>),
    /// Hand this request to the search worker.
    Search(GoOptions),
    /// The command was rejected: write one diagnostic line.
    Failed(EngineError),
    /// Stop reading input.
    Quit,
    /// Nothing to do.
    Nothing,
}

pub open spec fn reaction_view(r: Reaction) -> Reply {
    match r {
        Reaction::Reply(v) => Reply::Lines(texts(v@)),
        Reaction::Search(o) => Reply::Search(o.board@, go_view(o)),
        Reaction::Failed(e) => Reply::Failed(failure_of(e)),
        Reaction::Quit => Reply::Quit,
        Reaction::Nothing => Reply::Nothing,
    }
}

/// The engine's state and reply after the command whose words are `tokens`.
pub open spec fn dispatch(e: EngineView, tokens: Seq<Seq<char>>) -> (EngineView, Reply) {
    if tokens.len() == 0 {
        (e, Reply::Nothing)
    } else {
        let c = tokens[0];
        let args = tokens.drop_first();
        if c == "uci"@ {
            (e, Reply::Lines(uci_lines()))
        } else if c == "isready"@ {
            (e, Reply::Lines(ready_lines()))
        } else if c == "ucinewgame"@ {
            (idle(), Reply::Nothing)
        } else if c == "position"@ {
            match position_spec(args) {
                Ok((b, ms)) => (EngineView { board: Some(b), moves: ms }, Reply::Nothing),
                Err(f) => (e, Reply::Failed(f)),
            }
        } else if c == "go"@ {
            match e.board {
                None => (e, Reply::Failed(Failure::Invalid(NO_POSITION@))),
                Some(b) => match read_go(args, default_go()) {
                    Ok(v) => (e, Reply::Search(b, v)),
                    Err(f) => (e, Reply::Failed(f)),
                },
            }
        } else if c == "quit"@ {
            (e, Reply::Quit)
        } else {
            (e, Reply::Nothing)
        }
    }
}

proof fn lemma_commands_differ()
    ensures
        "go"@ != "uci"@,
        "go"@ != "isready"@,
        "go"@ != "ucinewgame"@,
        "go"@ != "position"@,
        "ucinewgame"@ != "uci"@,
        "ucinewgame"@ != "isready"@,
        "movetime"@ != "searchmoves"@,
        "movetime"@ != "ponder"@,
        "movetime"@ != "wtime"@,
        "movetime"@ != "btime"@,
        "movetime"@ != "winc"@,
        "movetime"@ != "binc"@,
        "movetime"@ != "movestogo"@,
        "movetime"@ != "depth"@,
        "movetime"@ != "nodes"@,
        "movetime"@ != "mate"@,
{
    reveal_strlit("go");
    reveal_strlit("uci");
    reveal_strlit("isready");
    reveal_strlit("ucinewgame");
    reveal_strlit("position");
    reveal_strlit("movetime");
    reveal_strlit("searchmoves");
    reveal_strlit("ponder");
    reveal_strlit("wtime");
    reveal_strlit("btime");
    reveal_strlit("winc");
    reveal_strlit("binc");
    reveal_strlit("movestogo");
    reveal_strlit("depth");
    reveal_strlit("nodes");
    reveal_strlit("mate");
    assert("go"@.len() != "uci"@.len());
    assert("go"@.len() != "isready"@.len());
    assert("go"@.len() != "ucinewgame"@.len());
    assert("go"@.len() != "position"@.len());
    assert("ucinewgame"@.len() != "uci"@.len());
    assert("ucinewgame"@.len() != "isready"@.len());
    assert("movetime"@.len() != "searchmoves"@.len());
    assert("movetime"@.len() != "ponder"@.len());
    assert("movetime"@.len() != "wtime"@.len());
    assert("movetime"@.len() != "btime"@.len());
    assert("movetime"@.len() != "winc"@.len());
    assert("movetime"@.len() != "binc"@.len());
    assert("movetime"@.len() != "movestogo"@.len());
    assert("movetime"@.len() != "depth"@.len());
    assert("movetime"@.len() != "nodes"@.len());
    assert("movetime"@.len() != "mate"@.len());
}

/// `go` while no position is set is rejected as an invalid command with the
/// message "no position set": no search is requested and the engine stays
/// as it was.
pub proof fn lemma_go_without_position(e: EngineView, tokens: Seq<Seq<char>>)
    requires
        e.board is None,
        tokens.len() > 0,
        tokens[0] == "go"@,
    ensures
        dispatch(e, tokens) == (e, Reply::Failed(Failure::Invalid(NO_POSITION@))),
{
    lemma_commands_differ();
}

/// `go movetime notanumber` is rejected as one invalid command, whatever the
/// state: nothing changes and no search is requested.
pub proof fn lemma_go_with_bad_movetime(e: EngineView)
    ensures
        dispatch(e, seq!["go"@, "movetime"@, "notanumber"@]) == (
            e,
            Reply::Failed(
                Failure::Invalid(
                    if e.board is None {
                        NO_POSITION@
                    } else {
                        "go movetime"@
                    },
                ),
            ),
        ),
{
    lemma_commands_differ();
    let tokens = seq!["go"@, "movetime"@, "notanumber"@];
    let args = tokens.drop_first();
    assert(args =~= seq!["movetime"@, "notanumber"@]);
    assert(args.drop_first() =~= seq!["notanumber"@]);
    reveal_strlit("notanumber");
    assert(!crate::text::is_digit("notanumber"@[0]));
    assert(crate::text::unsigned_digits("notanumber"@) == "notanumber"@);
}

/// `ucinewgame` always returns the engine to the state without a position,
/// and a `go` that follows it is then rejected as above.
pub proof fn lemma_new_game_is_idle(e: EngineView, tokens: Seq<Seq<char>>)
    requires
        tokens.len() > 0,
        tokens[0] == "go"@,
    ensures
        dispatch(e, seq!["ucinewgame"@]) == (idle(), Reply::Nothing),
        dispatch(idle(), tokens) == (idle(), Reply::Failed(Failure::Invalid(NO_POSITION@))),
{
    lemma_commands_differ();
    lemma_go_without_position(idle(), tokens);
}

/// `position fen` with six fields and nothing after them sets the engine to
/// exactly the text that the rules library writes for those fields, with no
/// moves; where they cannot be read, nothing changes.
pub proof fn lemma_position_fen_holds_serialization(e: EngineView, fields: Seq<Seq<char>>)
    requires
        fields.len() == 6,
    ensures
        dispatch(e, seq!["position"@, "fen"@] + fields) == match read_board(join_fields(fields)) {
            Ok(b) => (EngineView { board: Some(b), moves: seq![] }, Reply::Nothing),
            Err(f) => (e, Reply::Failed(f)),
        },
{
    lemma_commands_differ();
    reveal_strlit("position");
    reveal_strlit("fen");
    reveal_strlit("startpos");
    reveal_strlit("uci");
    reveal_strlit("isready");
    reveal_strlit("ucinewgame");
    assert("fen"@.len() != "startpos"@.len());
    assert("position"@.len() != "uci"@.len());
    assert("position"@.len() != "isready"@.len());
    assert("position"@.len() != "ucinewgame"@.len());
    let tokens = seq!["position"@, "fen"@] + fields;
    let args = tokens.drop_first();
    assert(args =~= seq!["fen"@] + fields);
    assert(args.subrange(1, 7) =~= fields);
    assert(args.skip(7) =~= seq![]);
    assert(tokens[0] == "position"@);
}

/// Without a position, only a `position` command can set one: every other
/// command leaves the engine without a position.
pub proof fn lemma_idle_until_position(tokens: Seq<Seq<char>>)
    requires
        tokens.len() == 0 || tokens[0] != "position"@,
    ensures
        dispatch(idle(), tokens).0 == idle(),
{
}

impl Default for Engine {
    /// An engine with no position set.
    fn default() -> (r: Engine)
        ensures
            r@ == idle(),
    {
        Engine::new()
    }
}

impl Engine {
    /// An engine with no position set.
    pub fn new() -> (r: Engine)
        ensures
            r@ == idle(),
    {
        Engine { current_board: None, moves: Vec::new() }
    }

    /// The current position, if one is set.
    pub fn current_board(&self) -> (r: Option<&String>)
        ensures
            r is Some <==> self@.board is Some,
            r matches Some(b) ==> self@.board == Some(b@),
    {
        self.current_board.as_ref()
    }

    /// The moves applied since the last reset.
    pub fn moves(&self) -> (r: &Vec<ChessMove>)
        ensures
            r@ == self@.moves,
    {
        &self.moves
    }

    /// `uci`: the identification lines and `uciok`.
    pub fn uci(&self) -> (r: Vec<String>)
        ensures
            texts(r@) == uci_lines(),
    {
        let r = vec![ENGINE_NAME.to_string(), ENGINE_AUTHOR.to_string(), "uciok".to_string()];
        assert(texts(r@) =~= uci_lines());
        r
    }

    /// `isready`: `readyok`.
    pub fn isready(&self) -> (r: Vec<String>)
        ensures
            texts(r@) == ready_lines(),
    {
        let r = vec!["readyok".to_string()];
        assert(texts(r@) =~= ready_lines());
        r
    }

    /// Handles one input line: the engine changes and replies as `dispatch`
    /// says of the line's words.
    pub fn execute(&mut self, line: &str) -> (r: Reaction)
        ensures
            (final(self)@, reaction_view(r)) == dispatch(old(self)@, words(line@)),
    {
        let mut tokens = split_words(line);
        let ghost all = texts(tokens@);
        if tokens.len() == 0 {
            return Reaction::Nothing;
        }
        let arguments = tokens.split_off(1);
        assert(texts(arguments@) =~= all.drop_first());
        assert(all[0] == tokens@[0]@);
        let c = tokens[0].as_str();
        if text_is(c, "uci") {
            Reaction::Reply(self.uci())
        } else if text_is(c, "isready") {
            Reaction::Reply(self.isready())
        } else if text_is(c, "ucinewgame") {
            self.ucinewgame();
            Reaction::Nothing
        } else if text_is(c, "position") {
            match self.position(arguments.as_slice()) {
                Ok(()) => Reaction::Nothing,
                Err(e) => Reaction::Failed(e),
            }
        } else if text_is(c, "go") {
            match self.go(arguments.as_slice()) {
                Ok(o) => Reaction::Search(o),
                Err(e) => Reaction::Failed(e),
            }
        } else if text_is(c, "quit") {
            Reaction::Quit
        } else {
            Reaction::Nothing
        }
    }

    /// `ucinewgame`: forgets the position and the moves.
    pub fn ucinewgame(&mut self)
        ensures
            final(self)@ == idle(),
    {
        self.current_board = None;
        self.moves = Vec::new();
    }

    /// `position`: sets the position from `startpos` or from six FEN
    /// fields, then plays the moves after `moves`. On failure nothing changes.
    /// A move is played only where it is one of the legal moves that the
    /// rules library lists for the position, promotion included: `a7a8x`
    /// reads as a move without promotion, which no pawn reaching the last
    /// rank has, so it is refused as illegal.
    pub fn position(&mut self, arguments: &[String]) -> (r: Result<(), EngineError>)
        ensures
            r is Ok <==> position_spec(texts(arguments@)) is Ok,
            r is Ok ==> final(self)@ == (EngineView {
                board: Some(position_spec(texts(arguments@))->Ok_0.0),
                moves: position_spec(texts(arguments@))->Ok_0.1,
            }),
            r matches Err(e) ==> position_spec(texts(arguments@)) == Err::<
                (Seq<char>, Seq<ChessMove>),
                Failure,
            >(failure_of(e)) && final(self)@ == old(self)@,
    {
        let ghost args = texts(arguments@);
        let n = arguments.len();
        let text: String;
        let k: usize;
        if n > 0 && text_is(arguments[0].as_str(), "startpos") {
            text = START_FEN.to_string();
            k = 1;
            assert(args.drop_first() =~= args.skip(1));
        } else if n > 0 && text_is(arguments[0].as_str(), "fen") {
            if n < 7 {
                return Err(EngineError::InvalidCommand("position fen".to_string()));
            }
            text = join_arguments(arguments, 1, 7);
            k = 7;
        } else {
            return Err(EngineError::InvalidCommand("position".to_string()));
        }
        if !check_safe_placement(text.as_str()) {
            return Err(EngineError::UnreadableBoard(BOARD_CONTEXT.to_string()));
        }
        let ghost rest = args.skip(k as int);
        let mut board = match canonical_fen(text.as_str()) {
            Ok(b) => b,
            Err(e) => return Err(EngineError::Chess(e)),
        };
        let mut moves: Vec<ChessMove> = Vec::new();
        if k < n && text_is(arguments[k].as_str(), "moves") {
            let mut j: usize = k + 1;
            assert(rest.drop_first() =~= args.skip(j as int));
            while j < n
                invariant
                    args == texts(arguments@),
                    n == arguments@.len(),
                    k < j <= n,
                    position_spec(args) == apply_moves(board@, args.skip(j as int), moves@),
                decreases n - j,
            {
                assert(args.skip(j as int).drop_first() =~= args.skip(j + 1));
                let m = match parse_move(arguments[j].as_str(), MOVES_CONTEXT) {
                    Ok(m) => m,
                    Err(e) => return Err(e),
                };
                let next = match legal_successors(board.as_str()) {
                    None => return Err(EngineError::InvalidCommand(ILLEGAL_CONTEXT.to_string())),
                    Some(children) => match find_child(&children, m) {
                        None => return Err(EngineError::InvalidCommand(ILLEGAL_CONTEXT.to_string())),
                        Some(f) => f,
                    },
                };
                board = next;
                moves.push(m);
                j = j + 1;
            }
            assert(args.skip(j as int) =~= seq![]);
        }
        self.current_board = Some(board);
        self.moves = moves;
        Ok(())
    }

    /// `go`: builds the search request for the current position from the
    /// arguments. Fails without a position, or where an option is malformed.
    pub fn go(&self, arguments: &[String]) -> (r: Result<GoOptions, EngineError>)
        ensures
            self@.board is None ==> (r matches Err(e) && failure_of(e) == Failure::Invalid(
                NO_POSITION@,
            )),
            self@.board is Some ==> (r is Ok <==> read_go(texts(arguments@), default_go()) is Ok),
            r matches Ok(o) ==> self@.board == Some(o.board@) && read_go(
                texts(arguments@),
                default_go(),
            ) == Ok::<GoView, Failure>(go_view(o)),
            self@.board is Some ==> (r matches Err(e) ==> read_go(texts(arguments@), default_go())
                == Err::<GoView, Failure>(failure_of(e))),
    {
        let board = match &self.current_board {
            None => return Err(EngineError::InvalidCommand(NO_POSITION.to_string())),
            Some(b) => b.clone(),
        };
        let mut options = GoOptions {
            board,
            search_moves: Vec::new(),
            ponder: false,
            white_time: None,
            black_time: None,
            white_increment_time: 0,
            black_increment_time: 0,
            moves_to_go: 0,
            depth: 0,
            nodes: 0,
            mate: 0,
            move_time: MoveTime::NotSpecified,
        };
        let ghost args = texts(arguments@);
        let n = arguments.len();
        let mut i: usize = 0;
        assert(args.skip(0) =~= args);
        assert(go_view(options) == default_go());
        while i < n
            invariant
                args == texts(arguments@),
                n == arguments@.len(),
                i <= n,
                self@.board == Some(options.board@),
                read_go(args, default_go()) == read_go(args.skip(i as int), go_view(options)),
            decreases n - i,
        {
            let t = arguments[i].as_str();
            let ghost rest = args.skip(i + 1);
            assert(args.skip(i as int)[0] == t@);
            assert(args.skip(i as int).drop_first() =~= rest);
            proof {
                if i + 2 <= n {
                    assert(rest.drop_first() =~= args.skip(i + 2));
                }
            }
            if text_is(t, "searchmoves") {
                let mut j: usize = i + 1;
                while j < n
                    invariant
                        args == texts(arguments@),
                        n == arguments@.len(),
                        i < j <= n,
                        self@.board == Some(options.board@),
                        read_go(args, default_go()) == read_search_moves(
                            args.skip(j as int),
                            go_view(options),
                        ),
                    decreases n - j,
                {
                    assert(args.skip(j as int)[0] == arguments@[j as int]@);
                    assert(args.skip(j as int).drop_first() =~= args.skip(j + 1));
                    let m = match parse_move(arguments[j].as_str(), "go searchmoves") {
                        Ok(m) => m,
                        Err(e) => return Err(e),
                    };
                    options.search_moves.push(m);
                    j = j + 1;
                }
                assert(args.skip(j as int) =~= seq![]);
                return Ok(options);
            } else if text_is(t, "ponder") {
                options.ponder = true;
                i = i + 1;
            } else if text_is(t, "wtime") {
                match u64_argument(arguments, i + 1) {
                    None => return Err(EngineError::InvalidCommand("go wtime".to_string())),
                    Some(v) => options.white_time = Some(v),
                }
                i = i + 2;
            } else if text_is(t, "btime") {
                match u64_argument(arguments, i + 1) {
                    None => return Err(EngineError::InvalidCommand("go btime".to_string())),
                    Some(v) => options.black_time = Some(v),
                }
                i = i + 2;
            } else if text_is(t, "winc") {
                match u64_argument(arguments, i + 1) {
                    None => return Err(EngineError::InvalidCommand("go winc".to_string())),
                    Some(v) => options.white_increment_time = v,
                }
                i = i + 2;
            } else if text_is(t, "binc") {
                match u64_argument(arguments, i + 1) {
                    None => return Err(EngineError::InvalidCommand("go binc".to_string())),
                    Some(v) => options.black_increment_time = v,
                }
                i = i + 2;
            } else if text_is(t, "movestogo") {
                match usize_argument(arguments, i + 1) {
                    None => return Err(EngineError::InvalidCommand("go movestogo".to_string())),
                    Some(v) => options.moves_to_go = v,
                }
                i = i + 2;
            } else if text_is(t, "depth") {
                match usize_argument(arguments, i + 1) {
                    None => return Err(EngineError::InvalidCommand("go depth".to_string())),
                    Some(v) => options.depth = v,
                }
                i = i + 2;
            } else if text_is(t, "nodes") {
                match usize_argument(arguments, i + 1) {
                    None => return Err(EngineError::InvalidCommand("go nodes".to_string())),
                    Some(v) => options.nodes = v,
                }
                i = i + 2;
            } else if text_is(t, "mate") {
                match usize_argument(arguments, i + 1) {
                    None => return Err(EngineError::InvalidCommand("go mate".to_string())),
                    Some(v) => options.mate = v,
                }
                i = i + 2;
            } else if text_is(t, "movetime") {
                match u64_argument(arguments, i + 1) {
                    None => return Err(EngineError::InvalidCommand("go movetime".to_string())),
                    Some(v) => options.move_time = MoveTime::Finite(v),
                }
                i = i + 2;
            } else if text_is(t, "infinite") {
                options.move_time = MoveTime::Infinite;
                i = i + 1;
            } else {
                i = i + 1;
            }
        }
        assert(args.skip(i as int) =~= seq![]);
        Ok(options)
    }
}

} // verus!
