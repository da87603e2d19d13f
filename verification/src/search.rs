//! The coordination of one cancellable background search.
//!
//! The coordinator is a state machine. It does not run the search itself:
//! each of its operations says what is to be done with the background
//! context, and whoever owns that context does it and tells the coordinator
//! what came of it.

use vstd::prelude::*;
use crate::moves::Move;
use crate::position::Snapshot;

verus! {

/// Where the coordinator stands.
#[derive(Clone, Copy, PartialEq, Eq, Structural, Debug)]
pub enum SearchState {
    /// No search is in flight.
    Idle,
    /// A search is in flight for the position on the board.
    Searching,
    /// A search is in flight for the position after the reply that is
    /// expected of the opponent.
    Pondering,
    /// A search is in flight and has been told to stop.
    Stopping,
}

/// When a search is to end by itself.
#[derive(Clone, Copy, PartialEq, Eq, Debug)]
pub struct SearchLimits {
    /// The largest depth to search, in plies.
    pub depth: Option<u32>,
    /// The largest number of nodes to visit.
    pub nodes: Option<u64>,
    /// The longest time to search, in milliseconds.
    pub movetime: Option<u64>,
    /// Search until told to stop.
    pub infinite: bool,
    /// Search the position that the expected reply of the opponent leads to.
    pub ponder: bool,
}

impl SearchLimits {
    /// A search that has reached the given depth, visited the given number
    /// of nodes and run for the given time has met one of its limits. The
    /// limits that are set count side by side, and the first that is met
    /// ends the search; `infinite` and `ponder` set no limit.
    pub open spec fn reached(self, depth: nat, nodes: nat, elapsed: nat) -> bool {
        ||| (self.depth matches Some(d) && depth >= d)
        ||| (self.nodes matches Some(n) && nodes >= n)
        ||| (self.movetime matches Some(t) && elapsed >= t)
    }

    /// Limits that end no search.
    pub fn unlimited() -> (l: SearchLimits)
        ensures
            l.depth is None,
            l.nodes is None,
            l.movetime is None,
            l.infinite,
            !l.ponder,
    {
        SearchLimits { depth: None, nodes: None, movetime: None, infinite: true, ponder: false }
    }

    /// Whether a search is to end by itself now.
    pub fn limit_reached(&self, depth: u32, nodes: u64, elapsed: u64) -> (r: bool)
        ensures
            r == self.reached(depth as nat, nodes as nat, elapsed as nat),
    {
        let by_depth = match self.depth {
            Some(d) => depth >= d,
            None => false,
        };
        let by_nodes = match self.nodes {
            Some(n) => nodes >= n,
            None => false,
        };
        let by_time = match self.movetime {
            Some(t) => elapsed >= t,
            None => false,
        };
        by_depth || by_nodes || by_time
    }
}

/// What a search has found so far.
#[derive(Clone, Debug)]
pub struct Progress {
    pub depth: u32,
    pub score: i32,
    /// The principal variation, its first move first.
    pub pv: Vec<Move>,
    pub nodes: u64,
}

/// The result of a search.
#[derive(Clone, Copy, PartialEq, Eq, Debug)]
pub struct BestMove {
    /// The move to play; `None` where the search found none.
    pub best_move: Option<Move>,
    /// The reply that the search expects.
    pub ponder_move: Option<Move>,
}

/// What a background search sends: any number of intermediate reports, then
/// one terminal report.
#[derive(Clone, Debug)]
pub enum Report {
    Intermediate(Progress),
    Terminal(BestMove),
}

/// The refusal to start a search while another is in flight.
#[derive(Clone, Copy, PartialEq, Eq, Structural, Debug)]
pub struct SearchBusy;

/// What is to be started in the background.
#[derive(Clone, Copy, PartialEq, Eq, Debug)]
pub struct Launch {
    /// The position to search.
    pub snapshot: Snapshot,
    pub limits: SearchLimits,
    /// The search is for a position that may never come about.
    pub speculative: bool,
}

/// What is to be done with the background context.
#[derive(Clone, Copy, PartialEq, Eq, Structural, Debug)]
pub enum Signal {
    /// Nothing.
    Nothing,
    /// Tell the search to stop at the next node.
    Cancel,
    /// Tell the search that the move it pondered on has been played.
    PonderHit,
    /// Tell the search to stop, and wait until its context has ended.
    CancelAndJoin,
}

/// The coordinator as a mathematical value.
pub struct SearchView {
    pub state: SearchState,
    /// A search is in flight whose terminal report has not been passed on.
    pub awaiting_terminal: bool,
    /// The first move of the last principal variation that was reported.
    pub best_so_far: Option<Move>,
}

impl Report {
    /// Whether a report ends the reports of its search.
    pub open spec fn is_terminal(self) -> bool {
        self is Terminal
    }

    /// The move that a report puts first, if it names one.
    pub open spec fn first_move(self) -> Option<Move> {
        match self {
            Report::Intermediate(p) => if p.pv@.len() > 0 {
                Some(p.pv@[0])
            } else {
                None
            },
            Report::Terminal(b) => b.best_move,
        }
    }
}

impl SearchView {
    /// How many background contexts there are: one unless the coordinator is
    /// idle.
    pub open spec fn contexts(self) -> nat {
        if self.state == SearchState::Idle {
            0
        } else {
            1
        }
    }

    /// A terminal report is awaited only while a search is in flight.
    pub open spec fn valid(self) -> bool {
        self.awaiting_terminal ==> self.state != SearchState::Idle
    }

    /// The coordinator after a request to start: from idle it searches, or
    /// ponders where the limits say so; otherwise nothing changes.
    pub open spec fn started(self, limits: SearchLimits) -> SearchView {
        if self.state == SearchState::Idle {
            SearchView {
                state: if limits.ponder {
                    SearchState::Pondering
                } else {
                    SearchState::Searching
                },
                awaiting_terminal: true,
                best_so_far: None,
            }
        } else {
            self
        }
    }

    /// The coordinator after a request to stop: a search that runs is told
    /// to stop; otherwise nothing changes.
    pub open spec fn stopped(self) -> SearchView {
        if self.state == SearchState::Searching || self.state == SearchState::Pondering {
            SearchView { state: SearchState::Stopping, ..self }
        } else {
            self
        }
    }

    /// The coordinator after a ponder hit: pondering becomes searching;
    /// otherwise nothing changes.
    pub open spec fn after_ponder_hit(self) -> SearchView {
        if self.state == SearchState::Pondering {
            SearchView { state: SearchState::Searching, ..self }
        } else {
            self
        }
    }

    /// Whether a report that arrives now is passed on: only while the
    /// terminal report of a search in flight is awaited.
    pub open spec fn passes(self, report: Report) -> bool {
        self.awaiting_terminal
    }

    /// The coordinator after a report has arrived.
    pub open spec fn after_report(self, report: Report) -> SearchView {
        if !self.passes(report) {
            self
        } else if report.is_terminal() {
            SearchView { awaiting_terminal: false, ..self }
        } else {
            SearchView {
                best_so_far: match report.first_move() {
                    Some(m) => Some(m),
                    None => self.best_so_far,
                },
                ..self
            }
        }
    }

    /// The terminal report that the coordinator makes up when the background
    /// context ends without having sent one: the best move that was reported
    /// on the way, if any.
    pub open spec fn last_resort(self) -> Option<BestMove> {
        if self.awaiting_terminal {
            Some(BestMove { best_move: self.best_so_far, ponder_move: None })
        } else {
            None
        }
    }

    /// The coordinator after the background context has ended: idle.
    pub open spec fn after_exit(self) -> SearchView {
        SearchView { state: SearchState::Idle, awaiting_terminal: false, best_so_far: None }
    }

    /// The coordinator after the reports of `reports` have arrived in order.
    pub open spec fn after_reports(self, reports: Seq<Report>) -> SearchView
        decreases reports.len(),
    {
        if reports.len() == 0 {
            self
        } else {
            self.after_report(reports[0]).after_reports(reports.drop_first())
        }
    }

    /// The reports of `reports` that are passed on when they arrive in order.
    pub open spec fn passed_on(self, reports: Seq<Report>) -> Seq<Report>
        decreases reports.len(),
    {
        if reports.len() == 0 {
            Seq::empty()
        } else if self.passes(reports[0]) {
            seq![reports[0]] + self.after_report(reports[0]).passed_on(reports.drop_first())
        } else {
            self.after_report(reports[0]).passed_on(reports.drop_first())
        }
    }
}

/// How many of the reports are terminal.
pub open spec fn terminals(reports: Seq<Report>) -> nat
    decreases reports.len(),
{
    if reports.len() == 0 {
        0
    } else {
        terminals(reports.drop_first()) + if reports[0].is_terminal() {
            1nat
        } else {
            0nat
        }
    }
}

/// The reports up to and with the first terminal one; all of them where none
/// is terminal.
pub open spec fn through_terminal(reports: Seq<Report>) -> Seq<Report>
    decreases reports.len(),
{
    if reports.len() == 0 {
        Seq::empty()
    } else if reports[0].is_terminal() {
        seq![reports[0]]
    } else {
        seq![reports[0]] + through_terminal(reports.drop_first())
    }
}

/// The coordinator of the background search.
#[derive(Clone, Copy, Debug)]
pub struct Search {
    state: SearchState,
    awaiting_terminal: bool,
    best_so_far: Option<Move>,
}

impl View for Search {
    type V = SearchView;

    closed spec fn view(&self) -> SearchView {
        SearchView {
            state: self.state,
            awaiting_terminal: self.awaiting_terminal,
            best_so_far: self.best_so_far,
        }
    }
}

impl Search {
    /// Every coordinator is valid.
    #[verifier::type_invariant]
    pub open spec fn well_formed(self) -> bool {
        self@.valid()
    }

    /// An idle coordinator.
    pub fn new() -> (s: Search)
        ensures
            s@ == (SearchView {
                state: SearchState::Idle,
                awaiting_terminal: false,
                best_so_far: None,
            }),
    {
        Search { state: SearchState::Idle, awaiting_terminal: false, best_so_far: None }
    }

    /// Where the coordinator stands.
    pub fn state(&self) -> (r: SearchState)
        ensures
            r == self@.state,
            self@.valid(),
    {
        proof {
            use_type_invariant(self);
        }
        self.state
    }

    /// How many background contexts there are: never more than one.
    pub fn active_contexts(&self) -> (n: usize)
        ensures
            n == self@.contexts(),
            n <= 1,
    {
        match self.state {
            SearchState::Idle => 0,
            _ => 1,
        }
    }

    /// Asks for a search of `snapshot` within `limits`. An idle coordinator
    /// goes to `Searching`, or to `Pondering` where the limits say so, and
    /// says what to start in the background; the position it is to search
    /// must have exactly one king of each side. A coordinator with a search
    /// in flight refuses whatever it is asked to search, stays as it is and
    /// has nothing started.
    pub fn start(&mut self, snapshot: Snapshot, limits: SearchLimits) -> (r: Result<
        Launch,
        SearchBusy,
    >)
        requires
            old(self)@.state == SearchState::Idle ==> snapshot@.searchable(),
        ensures
            final(self)@ == old(self)@.started(limits),
            match r {
                Ok(launch) => old(self)@.state == SearchState::Idle && launch.snapshot == snapshot
                    && launch.limits == limits && launch.speculative == limits.ponder,
                Err(_) => old(self)@.state != SearchState::Idle,
            },
    {
        match self.state {
            SearchState::Idle => {
                *self = Search {
                    state: if limits.ponder {
                        SearchState::Pondering
                    } else {
                        SearchState::Searching
                    },
                    awaiting_terminal: true,
                    best_so_far: None,
                };
                Ok(Launch { snapshot, limits, speculative: limits.ponder })
            },
            _ => Err(SearchBusy),
        }
    }

    /// Asks the search to stop. A search that runs is to be told to stop, and
    /// the coordinator goes to `Stopping`; otherwise nothing is to be done
    /// and nothing changes.
    pub fn stop(&mut self) -> (r: Signal)
        ensures
            final(self)@ == old(self)@.stopped(),
            r == if old(self)@.state == SearchState::Searching || old(self)@.state
                == SearchState::Pondering {
                Signal::Cancel
            } else {
                Signal::Nothing
            },
    {
        proof {
            use_type_invariant(&*self);
        }
        match self.state {
            SearchState::Searching | SearchState::Pondering => {
                *self = Search {
                    state: SearchState::Stopping,
                    awaiting_terminal: self.awaiting_terminal,
                    best_so_far: self.best_so_far,
                };
                Signal::Cancel
            },
            _ => Signal::Nothing,
        }
    }

    /// Says that the move that was pondered on has been played. A search
    /// that ponders goes on as a search for the position on the board, and is
    /// to be told so; otherwise nothing is to be done and nothing changes.
    pub fn ponder_hit(&mut self) -> (r: Signal)
        ensures
            final(self)@ == old(self)@.after_ponder_hit(),
            r == if old(self)@.state == SearchState::Pondering {
                Signal::PonderHit
            } else {
                Signal::Nothing
            },
    {
        proof {
            use_type_invariant(&*self);
        }
        match self.state {
            SearchState::Pondering => {
                *self = Search {
                    state: SearchState::Searching,
                    awaiting_terminal: self.awaiting_terminal,
                    best_so_far: self.best_so_far,
                };
                Signal::PonderHit
            },
            _ => Signal::Nothing,
        }
    }

    /// Takes a report from the background search and says whether it is to be
    /// passed on. Reports are passed on in the order in which they arrive,
    /// up to and with the first terminal report of the search in flight;
    /// whatever arrives later, or with no search in flight, is not.
    pub fn relay(&mut self, report: &Report) -> (r: bool)
        ensures
            r == old(self)@.passes(*report),
            final(self)@ == old(self)@.after_report(*report),
    {
        proof {
            use_type_invariant(&*self);
        }
        if !self.awaiting_terminal {
            return false;
        }
        match report {
            Report::Terminal(_) => {
                *self = Search {
                    state: self.state,
                    awaiting_terminal: false,
                    best_so_far: self.best_so_far,
                };
            },
            Report::Intermediate(p) => {
                if p.pv.len() > 0 {
                    *self = Search {
                        state: self.state,
                        awaiting_terminal: true,
                        best_so_far: Some(p.pv[0]),
                    };
                }
            },
        }
        true
    }

    /// Says that the background context has ended, by itself or after it was
    /// told to stop. The coordinator becomes idle. Where the search in flight
    /// has sent no terminal report, the coordinator makes one up from the
    /// best move reported on the way, and that report is to be passed on in
    /// its place.
    pub fn search_exited(&mut self) -> (r: Option<BestMove>)
        ensures
            r == old(self)@.last_resort(),
            final(self)@ == old(self)@.after_exit(),
    {
        let r = if self.awaiting_terminal {
            Some(BestMove { best_move: self.best_so_far, ponder_move: None })
        } else {
            None
        };
        *self = Search { state: SearchState::Idle, awaiting_terminal: false, best_so_far: None };
        r
    }

    /// Shuts the search down, from any state. Where a search is in flight it
    /// is to be told to stop and its context waited for; the coordinator is
    /// idle, with no context left.
    pub fn terminate(&mut self) -> (r: Signal)
        ensures
            final(self)@ == old(self)@.after_exit(),
            final(self)@.contexts() == 0,
            r == if old(self)@.state == SearchState::Idle {
                Signal::Nothing
            } else {
                Signal::CancelAndJoin
            },
    {
        let r = match self.state {
            SearchState::Idle => Signal::Nothing,
            _ => Signal::CancelAndJoin,
        };
        *self = Search { state: SearchState::Idle, awaiting_terminal: false, best_so_far: None };
        r
    }
}

/// Whatever happens to a valid coordinator, it stays valid, and there is never
/// more than one background context.
pub proof fn lemma_steps_keep_valid(s: SearchView, limits: SearchLimits, report: Report)
    requires
        s.valid(),
    ensures
        s.started(limits).valid(),
        s.stopped().valid(),
        s.after_ponder_hit().valid(),
        s.after_report(report).valid(),
        s.after_exit().valid(),
        s.contexts() <= 1,
{
}

/// Once no terminal report is awaited, no report is passed on.
pub proof fn lemma_nothing_after_terminal(s: SearchView, reports: Seq<Report>)
    requires
        !s.awaiting_terminal,
    ensures
        s.passed_on(reports) == Seq::<Report>::empty(),
        s.after_reports(reports) == s,
    decreases reports.len(),
{
    if reports.len() > 0 {
        lemma_nothing_after_terminal(s, reports.drop_first());
    }
}

/// While a terminal report is awaited, the reports are passed on as they
/// arrive, up to and with the first terminal one: none is dropped before
/// it, none is out of order and none follows it.
pub proof fn lemma_relay_in_order(s: SearchView, reports: Seq<Report>)
    requires
        s.awaiting_terminal,
    ensures
        s.passed_on(reports) == through_terminal(reports),
        s.after_reports(reports).awaiting_terminal == (terminals(reports) == 0),
        s.after_reports(reports).state == s.state,
        terminals(through_terminal(reports)) == if terminals(reports) == 0 {
            0nat
        } else {
            1nat
        },
    decreases reports.len(),
{
    if reports.len() > 0 {
        let next = s.after_report(reports[0]);
        let rest = reports.drop_first();
        if reports[0].is_terminal() {
            lemma_nothing_after_terminal(next, rest);
            assert(s.passed_on(reports) =~= seq![reports[0]]);
            let one = seq![reports[0]];
            assert(terminals(one.drop_first()) == 0);
        } else {
            lemma_relay_in_order(next, rest);
            let out = through_terminal(reports);
            assert(out.drop_first() =~= through_terminal(rest));
        }
    }
}

/// What a background search owes the coordinator: its reports end with a
/// terminal one, and no other of them is terminal.
pub open spec fn keeps_contract(reports: Seq<Report>) -> bool {
    &&& reports.len() > 0
    &&& reports.last().is_terminal()
    &&& forall|i: int| 0 <= i < reports.len() - 1 ==> !(#[trigger] reports[i]).is_terminal()
}

/// The reports of a search that keeps its contract are all passed on, in
/// their order, and the terminal report among them is the one it sent:
/// nothing is left to make up when its context ends.
pub proof fn lemma_contract_reports_pass(s: SearchView, reports: Seq<Report>)
    requires
        s.awaiting_terminal,
        keeps_contract(reports),
    ensures
        s.passed_on(reports) == reports,
        s.after_reports(reports).last_resort() is None,
        terminals(reports) == 1,
    decreases reports.len(),
{
    let next = s.after_report(reports[0]);
    let rest = reports.drop_first();
    if reports.len() == 1 {
        lemma_nothing_after_terminal(next, rest);
        assert(s.passed_on(reports) =~= reports);
        assert(terminals(rest) == 0);
    } else {
        assert(!reports[0].is_terminal());
        assert(keeps_contract(rest)) by {
            assert(rest.last() == reports.last());
            assert forall|i: int| 0 <= i < rest.len() - 1 implies !(#[trigger] rest[i]).is_terminal() by {
                assert(rest[i] == reports[i + 1]);
            }
        }
        lemma_contract_reports_pass(next, rest);
        assert(s.passed_on(reports) =~= reports);
    }
}

/// Stopping a search: after the request to stop, the reports that the search
/// still sends and the end of its context, the coordinator is idle, and
/// exactly one terminal report has been passed on for the search: the one it
/// sent, or else the one made up at the end. No report is passed on after
/// that.
pub proof fn lemma_stop_delivers_one_terminal(s: SearchView, reports: Seq<Report>, later: Seq<Report>)
    requires
        s.valid(),
        s.awaiting_terminal,
    ensures
        ({
            let told = s.stopped();
            let drained = told.after_reports(reports);
            let done = drained.after_exit();
            &&& told.state == SearchState::Stopping
            &&& done.state == SearchState::Idle
            &&& done.contexts() == 0
            &&& terminals(told.passed_on(reports)) + (if drained.last_resort() is Some {
                1nat
            } else {
                0nat
            }) == 1
            &&& done.passed_on(later) == Seq::<Report>::empty()
        }),
{
    let told = s.stopped();
    lemma_relay_in_order(told, reports);
    lemma_nothing_after_terminal(told.after_reports(reports).after_exit(), later);
}

} // verus!
