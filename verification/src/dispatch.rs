//! The command dispatcher: what each command line does to the board and to
//! the search, what is to be printed in answer, and how the reports of the
//! search are written.
//!
//! The dispatcher reads and prints nothing itself. Whoever owns the input,
//! the output and the background context hands it the lines and the reports
//! as they come, prints what it returns and does with the background context
//! what it says.

use vstd::prelude::*;
use vstd::slice::slice_subrange;
use vstd::string::*;
use crate::codec::{format_move, move_text};
use crate::moves::Move;
use crate::options::{handle_uci, option_table, uci_answer, uci_init};
use crate::position::{Position, PositionView};
use crate::search::{
    BestMove, Launch, Progress, Report, Search, SearchLimits, SearchState, SearchView, Signal,
};
use crate::start::start_position;
use crate::text::{decimal, fields, int_text, push_decimal, push_int, split_words, string_views};
use crate::uci::{
    UciCommand, classify, command_of, go_limits, handle_go, handle_position, no_limits,
    position_command, texts,
};

verus! {

/// A move as it is printed: its token, or `0000` for a move that leaves the
/// board.
pub open spec fn shown_move(m: Move) -> Seq<char> {
    if m.from < 64 && m.to < 64 {
        move_text(m)
    } else {
        "0000"@
    }
}

/// A move that may be missing, as it is printed: `0000` for none.
pub open spec fn shown_choice(m: Option<Move>) -> Seq<char> {
    match m {
        Some(m) => shown_move(m),
        None => "0000"@,
    }
}

/// A line of moves as it is printed: one space before each move.
pub open spec fn variation_text(pv: Seq<Move>) -> Seq<char>
    decreases pv.len(),
{
    if pv.len() == 0 {
        Seq::empty()
    } else {
        variation_text(pv.drop_last()) + seq![' '] + shown_move(pv.last())
    }
}

/// The line that prints an intermediate report.
pub open spec fn progress_text(p: Progress) -> Seq<char> {
    "info depth "@ + decimal(p.depth as nat) + " score cp "@ + int_text(p.score as int)
        + " nodes "@ + decimal(p.nodes as nat) + " pv"@ + variation_text(p.pv@)
}

/// The line that prints a terminal report.
pub open spec fn best_move_text(b: BestMove) -> Seq<char> {
    "bestmove "@ + shown_choice(b.best_move) + match b.ponder_move {
        Some(m) => " ponder "@ + shown_move(m),
        None => Seq::empty(),
    }
}

/// The line that prints a report.
pub open spec fn report_text(r: Report) -> Seq<char> {
    match r {
        Report::Intermediate(p) => progress_text(p),
        Report::Terminal(b) => best_move_text(b),
    }
}

/// Appends a move as it is printed.
fn push_move(out: &mut String, m: Move)
    ensures
        final(out)@ == old(out)@ + shown_move(m),
{
    if m.from < 64 && m.to < 64 {
        let t = format_move(m);
        out.append(t.as_str());
    } else {
        out.append("0000");
    }
}

/// The line that prints a terminal report.
pub fn best_move_line(b: &BestMove) -> (s: String)
    ensures
        s@ == best_move_text(*b),
{
    let mut s = String::new();
    s.append("bestmove ");
    match b.best_move {
        Some(m) => push_move(&mut s, m),
        None => s.append("0000"),
    }
    let ghost head = s@;
    assert(head =~= "bestmove "@ + shown_choice(b.best_move));
    match b.ponder_move {
        Some(m) => {
            s.append(" ponder ");
            push_move(&mut s, m);
            assert(s@ =~= head + (" ponder "@ + shown_move(m)));
        },
        None => {
            assert(s@ =~= head + Seq::<char>::empty());
        },
    }
    s
}

/// The line that prints an intermediate report.
pub fn progress_line(p: &Progress) -> (s: String)
    ensures
        s@ == progress_text(*p),
{
    let mut s = String::new();
    s.append("info depth ");
    push_decimal(&mut s, p.depth as u64);
    s.append(" score cp ");
    push_int(&mut s, p.score);
    s.append(" nodes ");
    push_decimal(&mut s, p.nodes);
    s.append(" pv");
    let ghost head = s@;
    assert(head =~= "info depth "@ + decimal(p.depth as nat) + " score cp "@ + int_text(
        p.score as int,
    ) + " nodes "@ + decimal(p.nodes as nat) + " pv"@);
    let mut i: usize = 0;
    assert(p.pv@.take(0) =~= Seq::<Move>::empty());
    assert(s@ =~= head + variation_text(p.pv@.take(0)));
    while i < p.pv.len()
        invariant
            i <= p.pv.len(),
            s@ == head + variation_text(p.pv@.take(i as int)),
        decreases p.pv.len() - i,
    {
        let ghost done = p.pv@.take(i as int);
        let ghost more = p.pv@.take(i + 1);
        assert(more.drop_last() =~= done);
        assert(more.last() == p.pv@[i as int]);
        s.push(' ');
        push_move(&mut s, p.pv[i]);
        assert(s@ =~= head + (variation_text(done) + seq![' '] + shown_move(p.pv@[i as int])));
        i += 1;
    }
    assert(p.pv@.take(p.pv.len() as int) =~= p.pv@);
    s
}

/// The line that prints a report.
pub fn report_line(r: &Report) -> (s: String)
    ensures
        s@ == report_text(*r),
{
    match r {
        Report::Intermediate(p) => progress_line(p),
        Report::Terminal(b) => best_move_line(b),
    }
}

/// The board and the search as mathematical values.
pub struct EngineView {
    pub position: PositionView,
    pub search: SearchView,
}

/// What the first word of a line asks for; `Unknown` for a line without
/// words.
pub open spec fn asked(words: Seq<Seq<char>>) -> UciCommand {
    if words.len() == 0 {
        UciCommand::Unknown
    } else {
        command_of(words[0])
    }
}

/// The limits that a `go` line names.
pub open spec fn named_limits(words: Seq<Seq<char>>) -> SearchLimits {
    go_limits(words.skip(1), 0, no_limits())
}

/// A `go` line starts a search: no search is in flight and each side has
/// exactly one king.
pub open spec fn launches(v: EngineView, words: Seq<Seq<char>>) -> bool {
    asked(words) == UciCommand::Go && v.search.state == SearchState::Idle
        && v.position.searchable()
}

/// The board after a line: a `position` line that is accepted sets it up;
/// nothing else touches it.
pub open spec fn position_after(v: EngineView, words: Seq<Seq<char>>) -> PositionView {
    if asked(words) == UciCommand::Position {
        match position_command(words) {
            Ok(p) => p,
            Err(_) => v.position,
        }
    } else {
        v.position
    }
}

/// The coordinator after a line.
pub open spec fn search_after(v: EngineView, words: Seq<Seq<char>>) -> SearchView {
    match asked(words) {
        UciCommand::Go => if v.search.state != SearchState::Idle {
            v.search
        } else if v.position.searchable() {
            v.search.started(named_limits(words))
        } else {
            v.search
        },
        UciCommand::Stop => v.search.stopped(),
        UciCommand::PonderHit => v.search.after_ponder_hit(),
        UciCommand::Quit => v.search.after_exit(),
        _ => v.search,
    }
}

/// What a line asks of the background context.
pub open spec fn signal_for(v: EngineView, words: Seq<Seq<char>>) -> Signal {
    match asked(words) {
        UciCommand::Stop => if v.search.state == SearchState::Searching || v.search.state
            == SearchState::Pondering {
            Signal::Cancel
        } else {
            Signal::Nothing
        },
        UciCommand::PonderHit => if v.search.state == SearchState::Pondering {
            Signal::PonderHit
        } else {
            Signal::Nothing
        },
        UciCommand::Quit => if v.search.state == SearchState::Idle {
            Signal::Nothing
        } else {
            Signal::CancelAndJoin
        },
        _ => Signal::Nothing,
    }
}

/// The lines that answer a line.
pub open spec fn lines_for(v: EngineView, words: Seq<Seq<char>>) -> Seq<Seq<char>> {
    match asked(words) {
        UciCommand::Uci => uci_answer(option_table()),
        UciCommand::IsReady => seq!["readyok"@],
        UciCommand::Position => if position_command(words) is Err {
            seq!["info string position refused"@]
        } else {
            Seq::empty()
        },
        UciCommand::Go => if v.search.state != SearchState::Idle {
            seq!["info string search busy"@]
        } else if !v.position.searchable() {
            seq!["info string each side needs exactly one king"@]
        } else {
            Seq::empty()
        },
        _ => Seq::empty(),
    }
}

/// What is to be done after a line.
pub struct Reply {
    /// The lines to print, in order.
    pub lines: Vec<String>,
    /// The search to start in the background, if one is to be started.
    pub launch: Option<Launch>,
    /// What to tell the background context.
    pub signal: Signal,
    /// The line asked the engine to end.
    pub quit: bool,
}

/// The engine: the board and the coordinator of the search.
pub struct Engine {
    position: Position,
    search: Search,
}

impl View for Engine {
    type V = EngineView;

    closed spec fn view(&self) -> EngineView {
        EngineView { position: self.position@, search: self.search@ }
    }
}

/// The words of a line, borrowed.
fn borrowed<'a>(words: &'a Vec<String>) -> (out: Vec<&'a str>)
    ensures
        texts(out@) == string_views(words@),
{
    let mut out: Vec<&'a str> = Vec::new();
    let mut i: usize = 0;
    while i < words.len()
        invariant
            i <= words.len(),
            out@.len() == i,
            forall|k: int| 0 <= k < i ==> (#[trigger] out@[k])@ == words@[k]@,
        decreases words.len() - i,
    {
        out.push(words[i].as_str());
        i += 1;
    }
    assert(texts(out@) =~= string_views(words@));
    out
}

impl Engine {
    /// An engine with the standard initial position on the board and no
    /// search in flight.
    pub fn new() -> (e: Engine)
        ensures
            e@.position == start_position(),
            e@.search.state == SearchState::Idle,
            !e@.search.awaiting_terminal,
    {
        Engine { position: Position::new(), search: Search::new() }
    }

    /// The board.
    pub fn position(&self) -> (p: Position)
        ensures
            p@ == self@.position,
    {
        self.position
    }

    /// Where the coordinator stands.
    pub fn state(&self) -> (s: SearchState)
        ensures
            s == self@.search.state,
    {
        self.search.state()
    }

    /// Carries out one command line and says what is to be done after it.
    /// The first word decides. `uci` and `isready` are answered; `position`
    /// sets up the board, or leaves it and says so where the line is
    /// refused; `go` starts a search of the board as it stands, unless a
    /// search is in flight, which is said as busy whatever the board holds,
    /// or else a side lacks its king, which is said too; `stop`,
    /// `ponderhit` and `quit` go to the coordinator; any other line does
    /// nothing.
    pub fn handle_line(&mut self, line: &str) -> (r: Reply)
        ensures
            final(self)@.position == position_after(old(self)@, fields(line@)),
            final(self)@.search == search_after(old(self)@, fields(line@)),
            string_views(r.lines@) == lines_for(old(self)@, fields(line@)),
            r.signal == signal_for(old(self)@, fields(line@)),
            r.quit == (asked(fields(line@)) == UciCommand::Quit),
            match r.launch {
                Some(l) => launches(old(self)@, fields(line@)) && l.snapshot@ == old(
                    self,
                )@.position && l.limits == named_limits(fields(line@)) && l.speculative
                    == l.limits.ponder,
                None => !launches(old(self)@, fields(line@)),
            },
    {
        let ghost words = fields(line@);
        let owned = split_words(line);
        let tokens = borrowed(&owned);
        assert(texts(tokens@) == words);
        let mut reply = Reply {
            lines: Vec::new(),
            launch: None,
            signal: Signal::Nothing,
            quit: false,
        };
        assert(string_views(reply.lines@) =~= Seq::<Seq<char>>::empty());
        if tokens.len() == 0 {
            return reply;
        }
        assert(words[0] == tokens@[0]@);
        match classify(tokens[0]) {
            UciCommand::Uci => {
                let table = uci_init();
                reply.lines = handle_uci(&table);
                assert(string_views(reply.lines@) =~= uci_answer(option_table()));
            },
            UciCommand::IsReady => {
                reply.lines.push(String::from_str("readyok"));
                assert(string_views(reply.lines@) =~= seq!["readyok"@]);
            },
            UciCommand::Position => {
                let mut position = self.position;
                match handle_position(&mut position, tokens) {
                    Ok(()) => {
                        self.position = position;
                    },
                    Err(_) => {
                        reply.lines.push(String::from_str("info string position refused"));
                        assert(string_views(reply.lines@) =~= seq![
                            "info string position refused"@,
                        ]);
                    },
                }
            },
            UciCommand::Go => {
                let rest = slice_subrange(tokens.as_slice(), 1, tokens.len());
                assert(texts(rest@) =~= words.skip(1));
                let limits = handle_go(rest);
                let busy = match self.search.state() {
                    SearchState::Idle => false,
                    _ => true,
                };
                if busy || self.position.is_searchable() {
                    let mut search = self.search;
                    match search.start(self.position.snapshot(), limits) {
                        Ok(launch) => {
                            reply.launch = Some(launch);
                        },
                        Err(_) => {
                            reply.lines.push(String::from_str("info string search busy"));
                            assert(string_views(reply.lines@) =~= seq![
                                "info string search busy"@,
                            ]);
                        },
                    }
                    self.search = search;
                } else {
                    reply.lines.push(
                        String::from_str("info string each side needs exactly one king"),
                    );
                    assert(string_views(reply.lines@) =~= seq![
                        "info string each side needs exactly one king"@,
                    ]);
                }
            },
            UciCommand::Stop => {
                let mut search = self.search;
                reply.signal = search.stop();
                self.search = search;
            },
            UciCommand::PonderHit => {
                let mut search = self.search;
                reply.signal = search.ponder_hit();
                self.search = search;
            },
            UciCommand::Quit => {
                let mut search = self.search;
                reply.signal = search.terminate();
                self.search = search;
                reply.quit = true;
            },
            UciCommand::SetOption | UciCommand::NewGame | UciCommand::Unknown => {},
        }
        reply
    }

    /// Takes a report from the background search. Where the coordinator
    /// passes it on, the line that prints it is returned.
    pub fn handle_report(&mut self, report: &Report) -> (r: Option<String>)
        ensures
            final(self)@.position == old(self)@.position,
            final(self)@.search == old(self)@.search.after_report(*report),
            match r {
                Some(line) => old(self)@.search.passes(*report) && line@ == report_text(*report),
                None => !old(self)@.search.passes(*report),
            },
    {
        let mut search = self.search;
        let passed = search.relay(report);
        self.search = search;
        if passed {
            Some(report_line(report))
        } else {
            None
        }
    }

    /// Takes the news that the background context has ended. The coordinator
    /// becomes idle. Where the search has sent no terminal report, the line
    /// that prints the one made up in its place is returned.
    pub fn handle_exit(&mut self) -> (r: Option<String>)
        ensures
            final(self)@.position == old(self)@.position,
            final(self)@.search == old(self)@.search.after_exit(),
            match r {
                Some(line) => old(self)@.search.last_resort() matches Some(b) && line@
                    == best_move_text(b),
                None => old(self)@.search.last_resort() is None,
            },
    {
        let mut search = self.search;
        let made_up = search.search_exited();
        self.search = search;
        match made_up {
            Some(b) => Some(best_move_line(&b)),
            None => None,
        }
    }
}

} // verus!
