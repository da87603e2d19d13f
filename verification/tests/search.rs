use chess_engine::codec::{format_move, parse};
use chess_engine::moves::Move;
use chess_engine::position::Position;
use chess_engine::search::{
    BestMove, Launch, Progress, Report, Search, SearchBusy, SearchLimits, SearchState, Signal,
};

fn depth(d: u32) -> SearchLimits {
    SearchLimits { depth: Some(d), nodes: None, movetime: None, infinite: false, ponder: false }
}

fn pondering() -> SearchLimits {
    SearchLimits { depth: None, nodes: None, movetime: None, infinite: true, ponder: true }
}

fn first_legal_move(p: &Position) -> Option<Move> {
    let names = ["a", "b", "c", "d", "e", "f", "g", "h"];
    for from in 0..64usize {
        for to in 0..64usize {
            let token = format!("{}{}{}{}", names[from % 8], from / 8 + 1, names[to % 8], to / 8 + 1);
            if let Ok(m) = parse(&token, p) {
                return Some(m);
            }
        }
    }
    None
}

fn progress(depth: u32, pv: Vec<Move>) -> Report {
    Report::Intermediate(Progress { depth, score: 0, pv, nodes: 20 })
}

#[test]
fn a_new_coordinator_is_idle() {
    let s = Search::new();
    assert_eq!(s.state(), SearchState::Idle);
    assert_eq!(s.active_contexts(), 0);
}

#[test]
fn start_launches_a_search() {
    let mut s = Search::new();
    let p = Position::new();
    let r = s.start(p.snapshot(), depth(3));
    assert_eq!(r, Ok(Launch { snapshot: p.snapshot(), limits: depth(3), speculative: false }));
    assert_eq!(s.state(), SearchState::Searching);
    assert_eq!(s.active_contexts(), 1);
}

#[test]
fn start_with_ponder_launches_a_speculative_search() {
    let mut s = Search::new();
    let p = Position::new();
    let r = s.start(p.snapshot(), pondering());
    assert_eq!(r, Ok(Launch { snapshot: p.snapshot(), limits: pondering(), speculative: true }));
    assert_eq!(s.state(), SearchState::Pondering);
}

#[test]
fn start_while_busy_is_refused() {
    let p = Position::new();
    for limits in [depth(1), pondering()] {
        let mut s = Search::new();
        assert!(s.start(p.snapshot(), limits).is_ok());
        let before = s.state();
        assert_eq!(s.start(p.snapshot(), depth(2)), Err(SearchBusy));
        assert_eq!(s.state(), before);
        assert_eq!(s.active_contexts(), 1);
        assert_eq!(s.stop(), Signal::Cancel);
        assert_eq!(s.start(p.snapshot(), depth(2)), Err(SearchBusy));
        assert_eq!(s.state(), SearchState::Stopping);
        assert_eq!(s.active_contexts(), 1);
    }
}

#[test]
fn start_while_busy_is_refused_whatever_is_to_be_searched() {
    let start = Position::new();
    let mut bare = Position::new();
    assert_eq!(bare.set_position("8/8/8/8/8/8/8/8 w - - 0 1"), Ok(()));
    assert!(!bare.is_searchable());
    let mut s = Search::new();
    assert!(s.start(start.snapshot(), pondering()).is_ok());
    assert_eq!(s.start(bare.snapshot(), depth(1)), Err(SearchBusy));
    assert_eq!(s.state(), SearchState::Pondering);
    assert_eq!(s.ponder_hit(), Signal::PonderHit);
    assert_eq!(s.start(bare.snapshot(), depth(1)), Err(SearchBusy));
    assert_eq!(s.state(), SearchState::Searching);
    assert_eq!(s.stop(), Signal::Cancel);
    assert_eq!(s.start(bare.snapshot(), depth(1)), Err(SearchBusy));
    assert_eq!(s.state(), SearchState::Stopping);
    assert_eq!(s.active_contexts(), 1);
}

#[test]
fn stop_while_idle_does_nothing() {
    let mut s = Search::new();
    assert_eq!(s.stop(), Signal::Nothing);
    assert_eq!(s.state(), SearchState::Idle);
    assert_eq!(s.search_exited(), None);
    assert_eq!(s.state(), SearchState::Idle);
}

#[test]
fn ponder_hit_turns_pondering_into_searching() {
    let p = Position::new();
    let mut s = Search::new();
    assert_eq!(s.ponder_hit(), Signal::Nothing);
    assert_eq!(s.state(), SearchState::Idle);
    assert!(s.start(p.snapshot(), pondering()).is_ok());
    assert_eq!(s.ponder_hit(), Signal::PonderHit);
    assert_eq!(s.state(), SearchState::Searching);
    assert_eq!(s.active_contexts(), 1);
    assert_eq!(s.ponder_hit(), Signal::Nothing);
    assert_eq!(s.state(), SearchState::Searching);
    assert_eq!(s.stop(), Signal::Cancel);
    assert_eq!(s.ponder_hit(), Signal::Nothing);
    assert_eq!(s.state(), SearchState::Stopping);
}

#[test]
fn depth_one_search_ends_by_itself() {
    let p = Position::new();
    let mut s = Search::new();
    let launch = match s.start(p.snapshot(), depth(1)) {
        Ok(l) => l,
        Err(e) => panic!("{:?}", e),
    };
    assert!(!launch.limits.limit_reached(0, 0, 0));
    let best = first_legal_move(launch.snapshot.position());
    assert!(launch.limits.limit_reached(1, 20, 0));
    let reports = vec![
        progress(1, best.into_iter().collect()),
        Report::Terminal(BestMove { best_move: best, ponder_move: None }),
    ];
    let mut terminal: Vec<BestMove> = Vec::new();
    let mut passed: usize = 0;
    for r in &reports {
        if s.relay(r) {
            passed += 1;
            if let Report::Terminal(b) = r {
                terminal.push(*b);
            }
        }
        assert!(s.active_contexts() <= 1);
    }
    assert_eq!(s.state(), SearchState::Searching);
    if let Some(b) = s.search_exited() {
        terminal.push(b);
    }
    assert_eq!(s.state(), SearchState::Idle);
    assert_eq!(s.active_contexts(), 0);
    assert_eq!(passed, 2);
    assert_eq!(terminal.len(), 1);
    let m = match terminal[0].best_move {
        Some(m) => m,
        None => panic!("no move"),
    };
    assert!(p.is_legal(m));
    assert_eq!(format_move(m), "b1a3");
}

#[test]
fn infinite_search_is_stopped() {
    let p = Position::new();
    let mut s = Search::new();
    assert_eq!(s.state(), SearchState::Idle);
    assert!(s.start(p.snapshot(), SearchLimits::unlimited()).is_ok());
    assert_eq!(s.state(), SearchState::Searching);
    assert_eq!(s.active_contexts(), 1);
    assert_eq!(s.stop(), Signal::Cancel);
    assert_eq!(s.state(), SearchState::Stopping);
    assert_eq!(s.active_contexts(), 1);
    assert_eq!(s.stop(), Signal::Nothing);
    assert_eq!(s.state(), SearchState::Stopping);
    let best = first_legal_move(&p);
    assert!(s.relay(&Report::Terminal(BestMove { best_move: best, ponder_move: None })));
    assert_eq!(s.state(), SearchState::Stopping);
    assert_eq!(s.search_exited(), None);
    assert_eq!(s.state(), SearchState::Idle);
    assert_eq!(s.active_contexts(), 0);
    assert!(!s.relay(&progress(5, Vec::new())));
    assert!(!s.relay(&Report::Terminal(BestMove { best_move: best, ponder_move: None })));
}

#[test]
fn reports_pass_in_order_up_to_the_terminal_one() {
    let p = Position::new();
    let e4 = parse("e2e4", &p).ok();
    let d4 = parse("d2d4", &p).ok();
    let mut s = Search::new();
    assert!(!s.relay(&progress(1, Vec::new())));
    assert!(s.start(p.snapshot(), depth(9)).is_ok());
    let reports = vec![
        progress(1, e4.into_iter().collect()),
        progress(2, d4.into_iter().collect()),
        Report::Terminal(BestMove { best_move: d4, ponder_move: None }),
        progress(3, e4.into_iter().collect()),
        Report::Terminal(BestMove { best_move: e4, ponder_move: None }),
    ];
    let passed: Vec<bool> = reports.iter().map(|r| s.relay(r)).collect();
    assert_eq!(passed, vec![true, true, true, false, false]);
    assert_eq!(s.search_exited(), None);
    assert_eq!(s.state(), SearchState::Idle);
}

#[test]
fn a_search_that_ends_without_a_result_gets_one() {
    let p = Position::new();
    let e4 = parse("e2e4", &p).ok();
    let d4 = parse("d2d4", &p).ok();
    let mut s = Search::new();
    assert!(s.start(p.snapshot(), depth(9)).is_ok());
    assert_eq!(s.search_exited(), Some(BestMove { best_move: None, ponder_move: None }));
    assert_eq!(s.state(), SearchState::Idle);
    assert_eq!(s.search_exited(), None);

    assert!(s.start(p.snapshot(), depth(9)).is_ok());
    assert!(s.relay(&progress(1, e4.into_iter().collect())));
    assert!(s.relay(&progress(2, d4.into_iter().chain(e4).collect())));
    assert!(s.relay(&progress(3, Vec::new())));
    assert_eq!(s.stop(), Signal::Cancel);
    assert_eq!(s.search_exited(), Some(BestMove { best_move: d4, ponder_move: None }));
    assert_eq!(s.state(), SearchState::Idle);

    assert!(s.start(p.snapshot(), depth(9)).is_ok());
    assert_eq!(s.search_exited(), Some(BestMove { best_move: None, ponder_move: None }));
}

#[test]
fn terminate_from_any_state_leaves_no_context() {
    let p = Position::new();
    let mut s = Search::new();
    assert_eq!(s.terminate(), Signal::Nothing);
    assert_eq!(s.state(), SearchState::Idle);
    assert_eq!(s.active_contexts(), 0);

    assert!(s.start(p.snapshot(), depth(2)).is_ok());
    assert_eq!(s.terminate(), Signal::CancelAndJoin);
    assert_eq!(s.state(), SearchState::Idle);
    assert_eq!(s.active_contexts(), 0);

    assert!(s.start(p.snapshot(), pondering()).is_ok());
    assert_eq!(s.terminate(), Signal::CancelAndJoin);
    assert_eq!(s.active_contexts(), 0);

    assert!(s.start(p.snapshot(), depth(2)).is_ok());
    assert_eq!(s.stop(), Signal::Cancel);
    assert_eq!(s.terminate(), Signal::CancelAndJoin);
    assert_eq!(s.state(), SearchState::Idle);
    assert_eq!(s.active_contexts(), 0);
    assert!(!s.relay(&Report::Terminal(BestMove { best_move: None, ponder_move: None })));
    assert!(s.start(p.snapshot(), depth(2)).is_ok());
}

#[test]
fn limits_end_a_search_at_the_first_that_is_met() {
    let l = SearchLimits { depth: Some(4), nodes: Some(1000), movetime: Some(50), infinite: false, ponder: false };
    assert!(!l.limit_reached(3, 999, 49));
    assert!(l.limit_reached(4, 0, 0));
    assert!(l.limit_reached(5, 0, 0));
    assert!(l.limit_reached(0, 1000, 0));
    assert!(l.limit_reached(0, 0, 50));
    assert!(l.limit_reached(0, 0, 51));
    let none = SearchLimits::unlimited();
    assert!(none.infinite);
    assert!(!none.ponder);
    assert!(!none.limit_reached(u32::MAX, u64::MAX, u64::MAX));
    let both = SearchLimits { depth: Some(2), nodes: None, movetime: None, infinite: true, ponder: false };
    assert!(both.limit_reached(2, 0, 0));
    assert!(!both.limit_reached(1, 5, 5));
}
