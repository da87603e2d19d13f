use chess_engine::attack::{is_attacked, is_in_check, path_clear, piece_attacks};
use chess_engine::codec::{format_move, parse, MoveError, MoveParseError};
use chess_engine::moves::{IllegalMoveError, Move, Special};
use chess_engine::position::{Castling, Position};
use chess_engine::types::{PieceKind, Side};

fn load(fen: &str) -> Position {
    let mut p = Position::new();
    assert_eq!(p.set_position(fen), Ok(()));
    p
}

fn played(fen: &str, token: &str) -> String {
    let mut p = load(fen);
    assert_eq!(p.do_move(token), Ok(()));
    p.to_fen()
}

fn refused(fen: &str, token: &str) -> MoveParseError {
    let mut p = load(fen);
    let before = p;
    let parsed = parse(token, &p);
    let r = p.do_move(token);
    assert_eq!(p, before);
    assert_eq!(p.to_fen(), fen);
    match (parsed, r) {
        (Err(a), Err(MoveError::Parse(b))) => {
            assert_eq!(a, b);
            a
        }
        _ => panic!("accepted: {}", token),
    }
}

const START: &str = "rnbqkbnr/pppppppp/8/8/8/8/PPPPPPPP/RNBQKBNR w KQkq - 0 1";

#[test]
fn king_pawn_opening() {
    let mut p = Position::new();
    assert_eq!(p.do_move("e2e4"), Ok(()));
    assert_eq!(p.to_fen(), "rnbqkbnr/pppppppp/8/8/4P3/8/PPPP1PPP/RNBQKBNR b KQkq e3 0 1");
    assert_eq!(p.side_to_move(), Side::Black);
    assert_eq!(p.fullmove_number(), 1);
    assert_eq!(p.halfmove_clock(), 0);
    assert_eq!(p.en_passant(), Some(20));
    assert!(parse("e7e5", &p).is_ok());
    assert!(parse("d7d6", &p).is_ok());
}

#[test]
fn a_short_game() {
    let mut p = Position::new();
    assert_eq!(p.do_move("e2e4"), Ok(()));
    assert_eq!(p.do_move("c7c5"), Ok(()));
    assert_eq!(p.to_fen(), "rnbqkbnr/pp1ppppp/8/2p5/4P3/8/PPPP1PPP/RNBQKBNR w KQkq c6 0 2");
    assert_eq!(p.do_move("g1f3"), Ok(()));
    assert_eq!(p.to_fen(), "rnbqkbnr/pp1ppppp/8/2p5/4P3/5N2/PPPP1PPP/RNBQKB1R b KQkq - 1 2");
    assert_eq!(p.do_move("b8c6"), Ok(()));
    assert_eq!(p.to_fen(), "r1bqkbnr/pp1ppppp/2n5/2p5/4P3/5N2/PPPP1PPP/RNBQKB1R w KQkq - 2 3");
    assert_eq!(p.do_move("f1b5"), Ok(()));
    assert_eq!(p.do_move("c6d4"), Ok(()));
    assert_eq!(p.do_move("f3d4"), Ok(()));
    assert_eq!(p.to_fen(), "r1bqkbnr/pp1ppppp/8/1Bp5/3NP3/8/PPPP1PPP/RNBQK2R b KQkq - 0 4");
    assert_eq!(p.do_move("c5d4"), Ok(()));
    assert_eq!(p.do_move("e1g1"), Ok(()));
    assert_eq!(p.to_fen(), "r1bqkbnr/pp1ppppp/8/1B6/3pP3/8/PPPP1PPP/RNBQ1RK1 b kq - 1 5");
}

#[test]
fn parse_names_the_move_and_leaves_the_position() {
    let p = Position::new();
    let before = p;
    assert_eq!(
        parse("e2e4", &p),
        Ok(Move { from: 12, to: 28, promotion: None, special: Some(Special::DoublePush) })
    );
    assert_eq!(parse("e2e3", &p), Ok(Move { from: 12, to: 20, promotion: None, special: None }));
    assert_eq!(parse("g1f3", &p), Ok(Move { from: 6, to: 21, promotion: None, special: None }));
    assert_eq!(p, before);
}

#[test]
fn malformed_tokens() {
    for token in ["", "e2", "e2e", "e2e4qq", "e9e4", "e2e0", "z2e4", "e2i4", "E2E4", "e2e4x", "e2e4k", "e2e4p", "e2e4Q", "e2-e4"] {
        assert_eq!(refused(START, token), MoveParseError::Malformed);
    }
}

#[test]
fn no_piece_at_origin() {
    assert_eq!(refused(START, "e3e4"), MoveParseError::NoPieceAtOrigin);
    assert_eq!(refused(START, "e7e5"), MoveParseError::NoPieceAtOrigin);
    assert_eq!(refused(START, "e4e4"), MoveParseError::NoPieceAtOrigin);
}

#[test]
fn illegal_for_piece() {
    for token in ["e2e5", "e2d3", "e2e1", "a1a3", "a1a1", "b1b3", "b1d2", "c1e3", "d1d3", "e1e2", "e1g1", "e2e4q", "f1a6"] {
        assert_eq!(refused(START, token), MoveParseError::IllegalForPiece);
    }
    assert_eq!(refused("8/P6k/8/8/8/8/8/K7 w - - 0 1", "a7a8"), MoveParseError::IllegalForPiece);
    assert_eq!(refused("8/7k/8/8/8/8/P7/K7 w - - 0 1", "a2a3q"), MoveParseError::IllegalForPiece);
    assert_eq!(refused("7k/8/8/8/8/8/8/KR6 w - - 0 1", "b1b8q"), MoveParseError::IllegalForPiece);
    assert_eq!(refused("7k/8/8/8/8/p7/P7/K7 w - - 0 1", "a2a3"), MoveParseError::IllegalForPiece);
    assert_eq!(refused("7k/8/8/8/p7/8/P7/K7 w - - 0 1", "a2a4"), MoveParseError::IllegalForPiece);
    assert_eq!(refused("7k/8/8/8/8/p7/P7/K7 w - - 0 1", "a2a4"), MoveParseError::IllegalForPiece);
    assert_eq!(refused("7k/8/8/8/8/P7/8/K7 w - - 0 1", "a3a5"), MoveParseError::IllegalForPiece);
    assert_eq!(refused("7k/8/8/8/8/8/P7/K7 w - - 0 1", "a2b3"), MoveParseError::IllegalForPiece);
}

#[test]
fn leaves_king_in_check() {
    assert_eq!(refused("4r2k/8/8/8/8/8/4B3/4K3 w - - 0 1", "e2d3"), MoveParseError::LeavesKingInCheck);
    assert_eq!(refused("4r2k/8/8/8/8/8/8/4K3 w - - 0 1", "e1e2"), MoveParseError::LeavesKingInCheck);
    assert_eq!(refused("4r2k/8/8/8/8/8/8/4K2R w - - 0 1", "h1h2"), MoveParseError::LeavesKingInCheck);
    assert_eq!(played("4r2k/8/8/8/8/8/8/4K2R w - - 0 1", "e1d1"), "4r2k/8/8/8/8/8/8/3K3R b - - 1 1");
    assert_eq!(refused("4r2k/8/8/8/8/8/8/4K2R w - - 0 1", "h1h8"), MoveParseError::LeavesKingInCheck);
    assert_eq!(played("4r2k/8/8/8/8/8/7R/4K3 w - - 0 1", "h2e2"), "4r2k/8/8/8/8/8/4R3/4K3 b - - 1 1");
    assert_eq!(refused("4r2k/8/8/8/8/8/8/4K2R w - - 0 1", "h1h7"), MoveParseError::LeavesKingInCheck);
    assert_eq!(played("3r3k/8/8/8/8/8/8/4K2R w - - 0 1", "h1h7"), "3r3k/7R/8/8/8/8/8/4K3 b - - 1 1");
}

#[test]
fn check_move_gives_the_reason() {
    let p = Position::new();
    assert_eq!(p.check_move(Move { from: 64, to: 0, promotion: None, special: None }), Some(IllegalMoveError::NoPieceAtOrigin));
    assert_eq!(p.check_move(Move { from: 200, to: 0, promotion: None, special: None }), Some(IllegalMoveError::NoPieceAtOrigin));
    assert_eq!(p.check_move(Move { from: 12, to: 64, promotion: None, special: None }), Some(IllegalMoveError::IllegalForPiece));
    assert_eq!(p.check_move(Move { from: 12, to: 28, promotion: None, special: None }), Some(IllegalMoveError::IllegalForPiece));
    assert_eq!(p.check_move(Move { from: 12, to: 20, promotion: None, special: Some(Special::DoublePush) }), Some(IllegalMoveError::IllegalForPiece));
    assert_eq!(p.check_move(Move { from: 12, to: 28, promotion: None, special: Some(Special::DoublePush) }), None);
    assert!(p.is_legal(Move { from: 12, to: 20, promotion: None, special: None }));
    assert!(!p.is_legal(Move { from: 12, to: 21, promotion: None, special: Some(Special::EnPassant) }));
    let pinned = load("4r2k/8/8/8/8/8/4B3/4K3 w - - 0 1");
    assert_eq!(pinned.check_move(Move { from: 12, to: 19, promotion: None, special: None }), Some(IllegalMoveError::LeavesKingInCheck));
}

#[test]
fn apply_refuses_and_keeps_the_position() {
    let mut p = Position::new();
    let before = p;
    assert_eq!(p.apply(Move { from: 12, to: 36, promotion: None, special: None }), Err(IllegalMoveError::IllegalForPiece));
    assert_eq!(p, before);
    assert_eq!(p.apply(Move { from: 30, to: 38, promotion: None, special: None }), Err(IllegalMoveError::NoPieceAtOrigin));
    assert_eq!(p, before);
    assert_eq!(p.apply(Move { from: 12, to: 28, promotion: None, special: Some(Special::DoublePush) }), Ok(()));
    assert_eq!(p.to_fen(), "rnbqkbnr/pppppppp/8/8/4P3/8/PPPP1PPP/RNBQKBNR b KQkq e3 0 1");
    assert!(!is_in_check(&p.board(), Side::White));
}

#[test]
fn castling_both_ways() {
    let fen = "r3k2r/8/8/8/8/8/8/R3K2R w KQkq - 0 1";
    assert_eq!(played(fen, "e1g1"), "r3k2r/8/8/8/8/8/8/R4RK1 b kq - 1 1");
    assert_eq!(played(fen, "e1c1"), "r3k2r/8/8/8/8/8/8/2KR3R b kq - 1 1");
    let black = "r3k2r/8/8/8/8/8/8/R3K2R b KQkq - 0 1";
    assert_eq!(played(black, "e8g8"), "r4rk1/8/8/8/8/8/8/R3K2R w KQ - 1 2");
    assert_eq!(played(black, "e8c8"), "2kr3r/8/8/8/8/8/8/R3K2R w KQ - 1 2");
    assert_eq!(
        parse("e1g1", &load(fen)),
        Ok(Move { from: 4, to: 6, promotion: None, special: Some(Special::Castle) })
    );
}

#[test]
fn castling_needs_its_right_a_free_path_and_safe_squares() {
    assert_eq!(refused("r3k2r/8/8/8/8/8/8/R3K2R w Qkq - 0 1", "e1g1"), MoveParseError::IllegalForPiece);
    assert_eq!(refused("r3k2r/8/8/8/8/8/8/R3K2R w Kkq - 0 1", "e1c1"), MoveParseError::IllegalForPiece);
    assert_eq!(refused("r3k2r/8/8/8/8/8/8/RN2K2R w KQkq - 0 1", "e1c1"), MoveParseError::IllegalForPiece);
    assert_eq!(refused("r3k2r/8/8/8/8/8/8/R3KB1R w KQkq - 0 1", "e1g1"), MoveParseError::IllegalForPiece);
    assert_eq!(refused("4k3/8/8/8/8/8/5r2/R3K2R w KQ - 0 1", "e1g1"), MoveParseError::IllegalForPiece);
    assert_eq!(played("4k3/8/8/8/8/8/5r2/R3K2R w KQ - 0 1", "e1c1"), "4k3/8/8/8/8/8/5r2/2KR3R b - - 1 1");
    assert_eq!(refused("4k3/8/8/8/8/8/4r3/R3K2R w KQ - 0 1", "e1g1"), MoveParseError::IllegalForPiece);
    assert_eq!(refused("4k3/8/8/8/8/8/6r1/R3K2R w KQ - 0 1", "e1g1"), MoveParseError::LeavesKingInCheck);
    assert_eq!(played("4k3/8/8/8/8/8/1r6/R3K2R w KQ - 0 1", "e1c1"), "4k3/8/8/8/8/8/1r6/2KR3R b - - 1 1");
    assert_eq!(refused("4k3/8/8/8/8/8/8/4K2R w K - 0 1", "e1c1"), MoveParseError::IllegalForPiece);
    assert_eq!(refused("4k3/8/8/8/8/8/8/4K2n w K - 0 1", "e1g1"), MoveParseError::IllegalForPiece);
}

#[test]
fn castling_rights_go_with_king_and_rook() {
    let fen = "r3k2r/8/8/8/8/8/8/R3K2R w KQkq - 0 1";
    assert_eq!(played(fen, "e1e2"), "r3k2r/8/8/8/8/8/4K3/R6R b kq - 1 1");
    assert_eq!(played(fen, "a1a2"), "r3k2r/8/8/8/8/8/R7/4K2R b Kkq - 1 1");
    assert_eq!(played(fen, "h1h2"), "r3k2r/8/8/8/8/8/7R/R3K3 b Qkq - 1 1");
    assert_eq!(played(fen, "a1a8"), "R3k2r/8/8/8/8/8/8/4K2R b Kk - 0 1");
    assert_eq!(played(fen, "h1h8"), "r3k2R/8/8/8/8/8/8/R3K3 b Qq - 0 1");
    let mut p = load(fen);
    assert_eq!(p.do_move("h1h8"), Ok(()));
    assert_eq!(
        p.castling(),
        Castling {
            white_king_side: false,
            white_queen_side: true,
            black_king_side: false,
            black_queen_side: true
        }
    );
}

#[test]
fn en_passant_capture() {
    let fen = "rnbqkbnr/ppp1pppp/8/8/3pP3/8/PPPP1PPP/RNBQKBNR b KQkq e3 0 2";
    assert_eq!(played(fen, "d4e3"), "rnbqkbnr/ppp1pppp/8/8/8/4p3/PPPP1PPP/RNBQKBNR w KQkq - 0 3");
    assert_eq!(
        parse("d4e3", &load(fen)),
        Ok(Move { from: 27, to: 20, promotion: None, special: Some(Special::EnPassant) })
    );
    let gone = "rnbqkbnr/ppp1pppp/8/8/3pP3/8/PPPP1PPP/RNBQKBNR b KQkq - 0 2";
    assert_eq!(refused(gone, "d4e3"), MoveParseError::IllegalForPiece);
    let white = "4k3/8/8/3pP3/8/8/8/4K3 w - d6 0 1";
    assert_eq!(played(white, "e5d6"), "4k3/8/3P4/8/8/8/8/4K3 b - - 0 1");
}

#[test]
fn promotion() {
    let fen = "8/P6k/8/8/8/8/8/K7 w - - 0 1";
    assert_eq!(played(fen, "a7a8q"), "Q7/7k/8/8/8/8/8/K7 b - - 0 1");
    assert_eq!(played(fen, "a7a8r"), "R7/7k/8/8/8/8/8/K7 b - - 0 1");
    assert_eq!(played(fen, "a7a8b"), "B7/7k/8/8/8/8/8/K7 b - - 0 1");
    assert_eq!(played(fen, "a7a8n"), "N7/7k/8/8/8/8/8/K7 b - - 0 1");
    assert_eq!(
        parse("a7a8n", &load(fen)),
        Ok(Move { from: 48, to: 56, promotion: Some(PieceKind::Knight), special: None })
    );
    let black = "k7/8/8/8/8/8/6p1/K6R b - - 0 1";
    assert_eq!(played(black, "g2h1q"), "k7/8/8/8/8/8/8/K6q w - - 0 2");
    assert_eq!(played(black, "g2g1n"), "k7/8/8/8/8/8/8/K5nR w - - 0 2");
}

#[test]
fn the_clocks() {
    let fen = "4k3/8/8/8/8/8/P7/4K2R w K - 7 20";
    assert_eq!(played(fen, "h1h5"), "4k3/8/8/7R/8/8/P7/4K3 b - - 8 20");
    assert_eq!(played(fen, "a2a3"), "4k3/8/8/8/8/P7/8/4K2R b K - 0 20");
    let black = "4k2r/8/8/8/8/8/P7/4K2R b Kk - 7 20";
    assert_eq!(played(black, "h8h2"), "4k3/8/8/8/8/8/P6r/4K2R w K - 8 21");
    assert_eq!(played(black, "h8h1"), "4k3/8/8/8/8/8/P7/4K2r w - - 0 21");
    let full = "4k2r/8/8/8/8/8/8/4K3 b - - 4294967295 4294967295";
    assert_eq!(played(full, "h8h2"), "4k3/8/8/8/8/8/7r/4K3 w - - 4294967295 4294967295");
}

#[test]
fn attacks_and_check() {
    let p = load("4k3/8/8/8/8/2n5/4P3/R3K3 w - - 0 1");
    let b = p.board();
    assert!(piece_attacks(&b, 12, 21));
    assert!(piece_attacks(&b, 12, 19));
    assert!(!piece_attacks(&b, 12, 20));
    assert!(piece_attacks(&b, 18, 1));
    assert!(piece_attacks(&b, 18, 3));
    assert!(piece_attacks(&b, 18, 12));
    assert!(!piece_attacks(&b, 18, 4));
    assert!(piece_attacks(&b, 0, 3));
    assert!(piece_attacks(&b, 0, 4));
    assert!(!piece_attacks(&b, 0, 5));
    assert!(piece_attacks(&b, 0, 56));
    assert!(!piece_attacks(&b, 0, 9));
    assert!(!piece_attacks(&b, 30, 31));
    assert!(path_clear(&b, 0, 4));
    assert!(!path_clear(&b, 0, 5));
    assert!(path_clear(&b, 0, 1));
    assert!(is_attacked(&b, 3, Side::Black));
    assert!(is_attacked(&b, 3, Side::White));
    assert!(!is_attacked(&b, 60, Side::White));
    assert!(!is_in_check(&b, Side::White));
    assert!(!is_in_check(&b, Side::Black));
    let q = load("4k3/8/8/8/7b/8/8/4K3 w - - 0 1");
    assert!(is_in_check(&q.board(), Side::White));
    assert!(!is_in_check(&q.board(), Side::Black));
    let r = load("4k3/8/8/8/7b/8/5P2/4K3 w - - 0 1");
    assert!(!is_in_check(&r.board(), Side::White));
    let pawn = load("4k3/3P4/8/8/8/8/8/4K3 b - - 0 1");
    assert!(is_in_check(&pawn.board(), Side::Black));
}

#[test]
fn moves_are_written_as_they_are_read() {
    let p = Position::new();
    for token in ["e2e4", "g1f3", "a2a3", "h2h4", "b1a3"] {
        let m = match parse(token, &p) {
            Ok(m) => m,
            Err(e) => panic!("{}: {:?}", token, e),
        };
        assert_eq!(format_move(m), token);
    }
    let q = load("8/P6k/8/8/8/8/8/K7 w - - 0 1");
    for token in ["a7a8q", "a7a8r", "a7a8b", "a7a8n", "a1b1"] {
        let m = match parse(token, &q) {
            Ok(m) => m,
            Err(e) => panic!("{}: {:?}", token, e),
        };
        assert_eq!(format_move(m), token);
    }
    assert_eq!(format_move(Move { from: 0, to: 63, promotion: None, special: None }), "a1h8");
}
