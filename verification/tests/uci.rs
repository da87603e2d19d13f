use chess_engine::codec::MoveParseError;
use chess_engine::fen::ParseError;
use chess_engine::options::{handle_uci, option_line, uci_init, OptionKind, UciOption};
use chess_engine::position::Position;
use chess_engine::search::SearchLimits;
use chess_engine::start::START_POS_FEN;
use chess_engine::uci::{
    classify, get_fen_str, handle_go, handle_position, same_text, PositionError, UciCommand,
};

#[test]
fn the_table_of_options() {
    let m = uci_init();
    assert_eq!(m.len(), 21);
    assert_eq!(m[0].name, "Debug Log File");
    assert!(matches!(m[0].kind, OptionKind::Text { default_text: "" }));
    assert_eq!(m[1].name, "Threads");
    assert!(matches!(m[1].kind, OptionKind::Spin { default_value: 1, min: 1, max: 1024 }));
    assert_eq!(m[2].name, "Hash");
    assert!(matches!(m[2].kind, OptionKind::Spin { default_value: 16, min: 1, max: 33554432 }));
    assert_eq!(m[3].name, "Clear Hash");
    assert!(matches!(m[3].kind, OptionKind::Button));
    assert_eq!(m[4].name, "Ponder");
    assert!(matches!(m[4].kind, OptionKind::Check { default_on: false }));
    assert_eq!(m[13].name, "UCI_Elo");
    assert!(matches!(m[13].kind, OptionKind::Spin { default_value: 3190, min: 1320, max: 3190 }));
    assert_eq!(m[17].name, "Syzygy50MoveRule");
    assert!(matches!(m[17].kind, OptionKind::Check { default_on: true }));
    assert_eq!(m[20].name, "EvalFile");
    assert!(matches!(m[20].kind, OptionKind::Text { default_text: "nn-e1fb1ade4432.nnue" }));
    let names: Vec<&str> = m.iter().map(|o| o.name).collect();
    assert_eq!(
        names,
        vec![
            "Debug Log File", "Threads", "Hash", "Clear Hash", "Ponder", "MultiPV", "Skill Level",
            "Move Overhead", "Slow Mover", "nodestime", "UCI_Chess960", "UCI_AnalyseMode",
            "UCI_LimitStrength", "UCI_Elo", "UCI_ShowWDL", "SyzygyPath", "SyzygyProbeDepth",
            "Syzygy50MoveRule", "SyzygyProbeLimit", "Use NNUE", "EvalFile",
        ]
    );
}

#[test]
fn the_lines_of_the_options() {
    assert_eq!(option_line(&UciOption::text("SyzygyPath", "<empty>")), "option name SyzygyPath type string default <empty>");
    assert_eq!(option_line(&UciOption::text("Debug Log File", "")), "option name Debug Log File type string default ");
    assert_eq!(option_line(&UciOption::check("Ponder", false)), "option name Ponder type check default false");
    assert_eq!(option_line(&UciOption::check("Use NNUE", true)), "option name Use NNUE type check default true");
    assert_eq!(option_line(&UciOption::button("Clear Hash")), "option name Clear Hash type button");
    assert_eq!(option_line(&UciOption::spin("Hash", 16, 1, 33554432)), "option name Hash type spin default 16 min 1 max 33554432");
    assert_eq!(option_line(&UciOption::spin("Contempt", -24, -100, 100)), "option name Contempt type spin default -24 min -100 max 100");
    assert_eq!(option_line(&UciOption::spin("Edge", i32::MIN, i32::MIN, i32::MAX)), "option name Edge type spin default -2147483648 min -2147483648 max 2147483647");
    assert_eq!(option_line(&UciOption::combo("Style", "Normal")), "option name Style type combo default Normal");
}

#[test]
fn the_answer_to_uci() {
    let m = uci_init();
    let lines = handle_uci(&m);
    assert_eq!(lines.len(), 23);
    assert_eq!(lines[0], "id name stockfish-rust-anhphan");
    assert_eq!(lines[1], "option name Debug Log File type string default ");
    assert_eq!(lines[2], "option name Threads type spin default 1 min 1 max 1024");
    assert_eq!(lines[4], "option name Clear Hash type button");
    assert_eq!(lines[21], "option name EvalFile type string default nn-e1fb1ade4432.nnue");
    assert_eq!(lines[22], "uciok");
    for (i, o) in m.iter().enumerate() {
        assert_eq!(lines[i + 1], option_line(o));
    }
    assert_eq!(handle_uci(&Vec::new()), vec!["id name stockfish-rust-anhphan", "uciok"]);
}

#[test]
fn commands_by_their_first_word() {
    assert_eq!(classify("uci"), UciCommand::Uci);
    assert_eq!(classify("isready"), UciCommand::IsReady);
    assert_eq!(classify("setoption"), UciCommand::SetOption);
    assert_eq!(classify("ucinewgame"), UciCommand::NewGame);
    assert_eq!(classify("position"), UciCommand::Position);
    assert_eq!(classify("go"), UciCommand::Go);
    assert_eq!(classify("stop"), UciCommand::Stop);
    assert_eq!(classify("ponderhit"), UciCommand::PonderHit);
    assert_eq!(classify("quit"), UciCommand::Quit);
    assert_eq!(classify(""), UciCommand::Unknown);
    assert_eq!(classify("UCI"), UciCommand::Unknown);
    assert_eq!(classify("go "), UciCommand::Unknown);
    assert_eq!(classify("perft"), UciCommand::Unknown);
}

#[test]
fn texts_are_compared_by_their_characters() {
    assert!(same_text("", ""));
    assert!(same_text("moves", "moves"));
    assert!(!same_text("moves", "move"));
    assert!(!same_text("moves", "Moves"));
    assert!(!same_text("a", "b"));
}

#[test]
fn the_words_of_a_record_are_joined() {
    assert_eq!(get_fen_str(&[]), "");
    assert_eq!(get_fen_str(&["moves", "e2e4"]), "");
    assert_eq!(get_fen_str(&["8/8/8/8/8/8/8/8", "w", "-", "-", "0", "1"]), "8/8/8/8/8/8/8/8 w - - 0 1 ");
    assert_eq!(get_fen_str(&["a", "b", "moves", "c", "moves"]), "a b ");
    assert_eq!(get_fen_str(&["a", "Moves", "c"]), "a Moves c ");
}

#[test]
fn position_startpos() {
    let mut p = Position::new();
    assert_eq!(p.set_position("8/8/8/8/8/8/8/8 w - - 0 1"), Ok(()));
    assert_eq!(handle_position(&mut p, vec!["position", "startpos"]), Ok(()));
    assert_eq!(p.to_fen(), START_POS_FEN);
    assert_eq!(handle_position(&mut p, vec!["position", "StartPos", "moves", "e2e4", "e7e5", "g1f3"]), Ok(()));
    assert_eq!(p.to_fen(), "rnbqkbnr/pppp1ppp/8/4p3/4P3/5N2/PPPP1PPP/RNBQKB1R b KQkq - 1 2");
    assert_eq!(handle_position(&mut p, vec!["position", "startpos", "moves"]), Ok(()));
    assert_eq!(p.to_fen(), START_POS_FEN);
    assert_eq!(handle_position(&mut p, vec!["position", "startpos", "e2e4", "moves", "d2d4"]), Ok(()));
    assert_eq!(p.to_fen(), "rnbqkbnr/pppppppp/8/8/3P4/8/PPP1PPPP/RNBQKBNR b KQkq d3 0 1");
}

#[test]
fn position_fen() {
    let mut p = Position::new();
    assert_eq!(
        handle_position(&mut p, vec!["position", "fen", "4k3/8/8/8/8/8/8/R3K3", "w", "Q", "-", "3", "9"]),
        Ok(())
    );
    assert_eq!(p.to_fen(), "4k3/8/8/8/8/8/8/R3K3 w Q - 3 9");
    assert_eq!(
        handle_position(&mut p, vec!["position", "FEN", "4k3/8/8/8/8/8/8/R3K3", "w", "Q", "-", "3", "9", "moves", "e1c1", "e8e7"]),
        Ok(())
    );
    assert_eq!(p.to_fen(), "8/4k3/8/8/8/8/8/2KR4 w - - 5 10");
}

#[test]
fn a_position_command_that_fails_changes_nothing() {
    let mut p = Position::new();
    assert_eq!(p.do_move("d2d4"), Ok(()));
    let before = p;
    assert_eq!(handle_position(&mut p, vec![]), Err(PositionError::Unrecognized));
    assert_eq!(handle_position(&mut p, vec!["position"]), Err(PositionError::Unrecognized));
    assert_eq!(handle_position(&mut p, vec!["position", "current"]), Err(PositionError::Unrecognized));
    assert_eq!(handle_position(&mut p, vec!["position", "fen"]), Err(PositionError::Fen(ParseError::MissingField)));
    assert_eq!(
        handle_position(&mut p, vec!["position", "fen", "8/8/8/8/8/8/8", "w", "moves", "e2e4"]),
        Err(PositionError::Fen(ParseError::InvalidRankCount))
    );
    assert_eq!(
        handle_position(&mut p, vec!["position", "startpos", "moves", "e2e4", "e7e5", "e4e5", "d7d5"]),
        Err(PositionError::Move { index: 2, error: MoveParseError::IllegalForPiece })
    );
    assert_eq!(
        handle_position(&mut p, vec!["position", "startpos", "moves", "e2e4x"]),
        Err(PositionError::Move { index: 0, error: MoveParseError::Malformed })
    );
    assert_eq!(
        handle_position(&mut p, vec!["position", "startpos", "moves", "e2e4", "e2e4"]),
        Err(PositionError::Move { index: 1, error: MoveParseError::NoPieceAtOrigin })
    );
    assert_eq!(
        handle_position(&mut p, vec!["position", "startpos", "moves", "f2f3", "e7e5", "g2g4", "d8h4", "a2a3"]),
        Err(PositionError::Move { index: 4, error: MoveParseError::LeavesKingInCheck })
    );
    assert_eq!(p, before);
}

#[test]
fn the_limits_of_go() {
    let none = SearchLimits { depth: None, nodes: None, movetime: None, infinite: false, ponder: false };
    assert_eq!(handle_go(&[]), none);
    assert_eq!(handle_go(&["infinite"]), SearchLimits { infinite: true, ..none });
    assert_eq!(handle_go(&["ponder"]), SearchLimits { ponder: true, ..none });
    assert_eq!(handle_go(&["depth", "1"]), SearchLimits { depth: Some(1), ..none });
    assert_eq!(handle_go(&["nodes", "18446744073709551615"]), SearchLimits { nodes: Some(u64::MAX), ..none });
    assert_eq!(handle_go(&["nodes", "18446744073709551616"]), none);
    assert_eq!(handle_go(&["movetime", "2500"]), SearchLimits { movetime: Some(2500), ..none });
    assert_eq!(
        handle_go(&["ponder", "depth", "12", "nodes", "5000", "movetime", "100", "infinite"]),
        SearchLimits { depth: Some(12), nodes: Some(5000), movetime: Some(100), infinite: true, ponder: true }
    );
    assert_eq!(handle_go(&["depth"]), none);
    assert_eq!(handle_go(&["depth", "x", "nodes", "7"]), SearchLimits { nodes: Some(7), ..none });
    assert_eq!(handle_go(&["depth", "4294967296"]), none);
    assert_eq!(handle_go(&["depth", "4294967295"]), SearchLimits { depth: Some(u32::MAX), ..none });
    assert_eq!(handle_go(&["depth", "infinite"]), SearchLimits { infinite: true, ..none });
    assert_eq!(handle_go(&["depth", "3", "depth", "5"]), SearchLimits { depth: Some(5), ..none });
    assert_eq!(handle_go(&["wtime", "1000", "btime", "2000", "depth", "2"]), SearchLimits { depth: Some(2), ..none });
}

#[test]
fn the_case_of_the_position_word_is_judged_as_to_lowercase_judges_it() {
    let mut p = Position::new();
    for code in 0..=0x10ffffu32 {
        if let Some(c) = char::from_u32(code) {
            for (head, tail, wanted) in [("", "tartpos", "startpos"), ("star", "pos", "startpos"), ("", "en", "fen")] {
                let word = format!("{}{}{}", head, c, tail);
                let known = word.to_lowercase() == wanted;
                let r = handle_position(&mut p, vec!["position", &word, "8/8/8/8/8/8/8/8", "w"]);
                assert_eq!(r != Err(PositionError::Unrecognized), known, "U+{:04X}", code);
            }
        }
    }
    for word in ["STARTPOS", "StartPos", "sTARTPOs", "FEN", "Fen", "fEN"] {
        assert!(handle_position(&mut p, vec!["position", word, "8/8/8/8/8/8/8/8", "w"]).is_ok());
    }
    for word in ["startpo\u{17f}", "\u{17f}tartpos", "start pos", "fe\u{f1}", "\u{212a}en", "startpos\u{307}", ""] {
        assert_eq!(
            handle_position(&mut p, vec!["position", word, "8/8/8/8/8/8/8/8", "w"]),
            Err(PositionError::Unrecognized)
        );
    }
}
