//! What the command lines of the protocol ask of the engine.

use vstd::prelude::*;
use vstd::slice::slice_subrange;
use vstd::string::*;
use crate::codec::{MoveParseError, parse, parse_move};
use crate::fen::{ParseError, parse_fen};
use crate::fen_laws::lemma_parsed_is_valid;
use crate::moves::{after, lemma_legal_move_is_safe};
use crate::position::{Position, PositionView};
use crate::search::SearchLimits;
use crate::start::START_POS_FEN;
use crate::text::{decimal_u64, parse_decimal, same_chars, to_chars};

verus! {

/// The commands that the engine knows.
#[derive(Clone, Copy, PartialEq, Eq, Structural, Debug)]
pub enum UciCommand {
    Uci,
    IsReady,
    SetOption,
    NewGame,
    Position,
    Go,
    Stop,
    PonderHit,
    Quit,
    /// Any other word.
    Unknown,
}

/// The command that a word names.
pub open spec fn command_of(word: Seq<char>) -> UciCommand {
    if word == "uci"@ {
        UciCommand::Uci
    } else if word == "isready"@ {
        UciCommand::IsReady
    } else if word == "setoption"@ {
        UciCommand::SetOption
    } else if word == "ucinewgame"@ {
        UciCommand::NewGame
    } else if word == "position"@ {
        UciCommand::Position
    } else if word == "go"@ {
        UciCommand::Go
    } else if word == "stop"@ {
        UciCommand::Stop
    } else if word == "ponderhit"@ {
        UciCommand::PonderHit
    } else if word == "quit"@ {
        UciCommand::Quit
    } else {
        UciCommand::Unknown
    }
}

/// Whether two strings hold the same characters.
pub fn same_text(a: &str, b: &str) -> (r: bool)
    ensures
        r == (a@ == b@),
{
    let x = to_chars(a);
    let y = to_chars(b);
    same_chars(&x, &y)
}

/// The command that the first word of a line names.
pub fn classify(word: &str) -> (c: UciCommand)
    ensures
        c == command_of(word@),
{
    if same_text(word, "uci") {
        UciCommand::Uci
    } else if same_text(word, "isready") {
        UciCommand::IsReady
    } else if same_text(word, "setoption") {
        UciCommand::SetOption
    } else if same_text(word, "ucinewgame") {
        UciCommand::NewGame
    } else if same_text(word, "position") {
        UciCommand::Position
    } else if same_text(word, "go") {
        UciCommand::Go
    } else if same_text(word, "stop") {
        UciCommand::Stop
    } else if same_text(word, "ponderhit") {
        UciCommand::PonderHit
    } else if same_text(word, "quit") {
        UciCommand::Quit
    } else {
        UciCommand::Unknown
    }
}

/// The characters of each word.
pub open spec fn texts(words: Seq<&str>) -> Seq<Seq<char>> {
    Seq::new(words.len(), |i: int| words[i]@)
}

/// The words up to the word `moves`, each followed by one space.
pub open spec fn fen_words(words: Seq<Seq<char>>) -> Seq<char>
    decreases words.len(),
{
    if words.len() == 0 || words[0] == "moves"@ {
        Seq::empty()
    } else {
        words[0] + seq![' '] + fen_words(words.drop_first())
    }
}

/// Puts the words of a record together again: each word up to the word
/// `moves`, followed by one space.
pub fn get_fen_str(words: &[&str]) -> (fen: String)
    ensures
        fen@ == fen_words(texts(words@)),
{
    let mut fen = String::new();
    let mut i: usize = 0;
    let ghost all = texts(words@);
    assert(all.skip(0) =~= all);
    assert(fen@ + fen_words(all.skip(0)) =~= fen_words(all));
    while i < words.len()
        invariant
            i <= words.len(),
            all == texts(words@),
            fen@ + fen_words(all.skip(i as int)) == fen_words(all),
        decreases words.len() - i,
    {
        let w = words[i];
        let ghost rest = all.skip(i as int);
        assert(rest[0] == w@);
        assert(rest.drop_first() =~= all.skip(i + 1));
        if same_text(w, "moves") {
            assert(fen_words(rest) == Seq::<char>::empty());
            assert(fen@ + Seq::<char>::empty() =~= fen@);
            return fen;
        }
        let ghost before = fen@;
        fen.append(w);
        fen.push(' ');
        assert(fen@ + fen_words(rest.drop_first()) =~= before + (w@ + seq![' '] + fen_words(
            rest.drop_first(),
        )));
        i += 1;
    }
    assert(all.skip(words.len() as int) =~= Seq::<Seq<char>>::empty());
    assert(fen@ + Seq::<char>::empty() =~= fen@);
    fen
}

/// A letter in lower case; any other character as it is.
pub open spec fn lower(c: char) -> char {
    if 'A' <= c && c <= 'Z' {
        ((c as u8) + 32) as char
    } else {
        c
    }
}

/// A word with its letters from `A` to `Z` in lower case. No character
/// outside these becomes a letter of `startpos` or of `fen` in lower case, so
/// a word is one of the two after lowering exactly when it is one of them in
/// lower case as `str::to_lowercase` gives it.
pub open spec fn lowered(word: Seq<char>) -> Seq<char> {
    Seq::new(word.len(), |i: int| lower(word[i]))
}

/// Whether a word is the given one but for the case of its letters.
fn is_word(word: &str, wanted: &str) -> (r: bool)
    ensures
        r == (lowered(word@) == lowered(wanted@)),
{
    let a = to_chars(word);
    let b = to_chars(wanted);
    if a.len() != b.len() {
        assert(lowered(word@).len() != lowered(wanted@).len());
        return false;
    }
    let mut i: usize = 0;
    while i < a.len()
        invariant
            i <= a.len(),
            a.len() == b.len(),
            a@ == word@,
            b@ == wanted@,
            forall|k: int| 0 <= k < i ==> lower(a@[k]) == lower(b@[k]),
        decreases a.len() - i,
    {
        let x = a[i];
        let y = b[i];
        let lx = if 'A' <= x && x <= 'Z' {
            ((x as u8) + 32) as char
        } else {
            x
        };
        let ly = if 'A' <= y && y <= 'Z' {
            ((y as u8) + 32) as char
        } else {
            y
        };
        if lx != ly {
            assert(lowered(word@)[i as int] != lowered(wanted@)[i as int]);
            return false;
        }
        i += 1;
    }
    assert(lowered(word@) =~= lowered(wanted@));
    true
}

/// Why a `position` command was not carried out.
#[derive(Clone, Copy, PartialEq, Eq, Structural, Debug)]
pub enum PositionError {
    /// The command names neither `startpos` nor `fen`.
    Unrecognized,
    /// The record is refused.
    Fen(ParseError),
    /// The move with the given number, counted from 0, is refused.
    Move { index: usize, error: MoveParseError },
}

/// The position after the moves that the tokens from `index` on name, one
/// after the other; the first token that names no legal move decides.
pub open spec fn play(p: PositionView, moves: Seq<Seq<char>>, index: int) -> Result<
    PositionView,
    PositionError,
>
    decreases moves.len() - index,
{
    if index < 0 || index >= moves.len() {
        Ok(p)
    } else {
        match parse_move(moves[index], p) {
            Ok(m) => play(after(p, m), moves, index + 1),
            Err(e) => Err(PositionError::Move { index: index as usize, error: e }),
        }
    }
}

/// Where the first word `moves` stands among the words from `from` on; the
/// number of words where there is none.
pub open spec fn moves_at(words: Seq<Seq<char>>, from: int) -> int
    decreases words.len() - from,
{
    if from < 0 || from >= words.len() {
        words.len() as int
    } else if words[from] == "moves"@ {
        from
    } else {
        moves_at(words, from + 1)
    }
}

/// The tokens after the first word `moves` from the third word on.
pub open spec fn move_tokens(words: Seq<Seq<char>>) -> Seq<Seq<char>> {
    let at = moves_at(words, 2);
    if at < words.len() {
        words.skip(at + 1)
    } else {
        Seq::empty()
    }
}

/// The record that a `position` command names: the initial position for
/// `startpos`, the words that follow for `fen`, whatever the case of these
/// two words.
pub open spec fn named_record(words: Seq<Seq<char>>) -> Option<Seq<char>> {
    if words.len() < 2 {
        None
    } else if lowered(words[1]) == lowered("startpos"@) {
        Some(START_POS_FEN@)
    } else if lowered(words[1]) == lowered("fen"@) {
        Some(fen_words(words.skip(2)))
    } else {
        None
    }
}

/// The position that a `position` command leads to: the one of its record,
/// after the moves that follow the word `moves`.
pub open spec fn position_command(words: Seq<Seq<char>>) -> Result<PositionView, PositionError> {
    match named_record(words) {
        None => Err(PositionError::Unrecognized),
        Some(record) => match parse_fen(record) {
            Err(e) => Err(PositionError::Fen(e)),
            Ok(p) => play(p, move_tokens(words), 0),
        },
    }
}

proof fn lemma_play_is_valid(p: PositionView, moves: Seq<Seq<char>>, index: int)
    requires
        p.valid(),
    ensures
        play(p, moves, index) matches Ok(q) ==> q.valid(),
    decreases moves.len() - index,
{
    if 0 <= index < moves.len() {
        match parse_move(moves[index], p) {
            Ok(m) => {
                lemma_legal_move_is_safe(p, m);
                lemma_play_is_valid(after(p, m), moves, index + 1);
            },
            Err(_) => {},
        }
    }
}

/// Every `position` command that is carried out leads to a valid position.
pub proof fn lemma_position_command_is_valid(words: Seq<Seq<char>>)
    ensures
        position_command(words) matches Ok(p) ==> p.valid(),
{
    match named_record(words) {
        Some(record) => {
            lemma_parsed_is_valid(record);
            match parse_fen(record) {
                Ok(p) => lemma_play_is_valid(p, move_tokens(words), 0),
                Err(_) => {},
            }
        },
        None => {},
    }
}

/// Carries out a `position` command, given as the words of its line: sets up
/// the record it names and makes the moves it lists. Where the record or one
/// of the moves is refused, the position stays as it was before the command.
pub fn handle_position(position: &mut Position, tokens: Vec<&str>) -> (r: Result<
    (),
    PositionError,
>)
    ensures
        match position_command(texts(tokens@)) {
            Ok(p) => r is Ok && final(position)@ == p,
            Err(e) => r == Err::<(), PositionError>(e) && *final(position) == *old(position),
        },
        final(position)@.valid(),
{
    proof {
        use_type_invariant(&*position);
    }
    let ghost words = texts(tokens@);
    if tokens.len() < 2 {
        return Err(PositionError::Unrecognized);
    }
    assert(words[1] == tokens@[1]@);
    let mut next = *position;
    let set = if is_word(tokens[1], "startpos") {
        next.set_position(START_POS_FEN)
    } else if is_word(tokens[1], "fen") {
        let rest = slice_subrange(tokens.as_slice(), 2, tokens.len());
        assert(texts(rest@) =~= words.skip(2));
        let fen = get_fen_str(rest);
        next.set_position(fen.as_str())
    } else {
        return Err(PositionError::Unrecognized);
    };
    match set {
        Err(e) => {
            return Err(PositionError::Fen(e));
        },
        Ok(()) => {},
    }
    let mut at: usize = 2;
    while at < tokens.len() && !same_text(tokens[at], "moves")
        invariant
            2 <= at <= tokens.len(),
            words == texts(tokens@),
            moves_at(words, at as int) == moves_at(words, 2),
        decreases tokens.len() - at,
    {
        assert(words[at as int] == tokens@[at as int]@);
        at += 1;
    }
    assert(at < tokens.len() ==> words[at as int] == tokens@[at as int]@);
    assert(moves_at(words, 2) == at);
    if at >= tokens.len() {
        *position = next;
        return Ok(());
    }
    let ghost moves = move_tokens(words);
    let first = at + 1;
    let mut i: usize = first;
    while i < tokens.len()
        invariant
            first <= i <= tokens.len(),
            first == at + 1,
            at < tokens.len(),
            words == texts(tokens@),
            moves == words.skip(first as int),
            play(next@, moves, i - first) == position_command(words),
            *position == *old(position),
            position@.valid(),
            next@.valid(),
        decreases tokens.len() - i,
    {
        assert(moves[i - first] == tokens@[i as int]@);
        match parse(tokens[i], &next) {
            Err(e) => {
                return Err(PositionError::Move { index: i - first, error: e });
            },
            Ok(m) => {
                let _ = next.apply(m);
            },
        }
        i += 1;
    }
    *position = next;
    Ok(())
}

/// Limits that end no search and ask for none that goes on for ever.
pub open spec fn no_limits() -> SearchLimits {
    SearchLimits { depth: None, nodes: None, movetime: None, infinite: false, ponder: false }
}

/// The number that follows a word, if a number that fits 64 bits follows it.
pub open spec fn number_after(words: Seq<Seq<char>>, i: int) -> Option<u64> {
    if i + 1 < words.len() {
        decimal_u64(words[i + 1])
    } else {
        None
    }
}

/// The limits that the words from `i` on add to `acc`. `infinite` and
/// `ponder` stand alone; `depth`, `nodes` and `movetime` count with the
/// number that follows them, and are passed over without one, as is a depth
/// that does not fit 32 bits and every other word. A limit that is named
/// again replaces the earlier one.
pub open spec fn go_limits(words: Seq<Seq<char>>, i: int, acc: SearchLimits) -> SearchLimits
    decreases words.len() - i,
{
    if i < 0 || i >= words.len() {
        acc
    } else if words[i] == "infinite"@ {
        go_limits(words, i + 1, SearchLimits { infinite: true, ..acc })
    } else if words[i] == "ponder"@ {
        go_limits(words, i + 1, SearchLimits { ponder: true, ..acc })
    } else if words[i] == "depth"@ {
        match number_after(words, i) {
            Some(d) => if d <= u32::MAX {
                go_limits(words, i + 2, SearchLimits { depth: Some(d as u32), ..acc })
            } else {
                go_limits(words, i + 1, acc)
            },
            None => go_limits(words, i + 1, acc),
        }
    } else if words[i] == "nodes"@ {
        match number_after(words, i) {
            Some(n) => go_limits(words, i + 2, SearchLimits { nodes: Some(n), ..acc }),
            None => go_limits(words, i + 1, acc),
        }
    } else if words[i] == "movetime"@ {
        match number_after(words, i) {
            Some(t) => go_limits(words, i + 2, SearchLimits { movetime: Some(t), ..acc }),
            None => go_limits(words, i + 1, acc),
        }
    } else {
        go_limits(words, i + 1, acc)
    }
}

/// The number that follows the word at `i`, if one does.
fn read_number_after(tokens: &[&str], i: usize) -> (r: Option<u64>)
    requires
        i < tokens.len(),
    ensures
        r == number_after(texts(tokens@), i as int),
{
    if i + 1 < tokens.len() {
        assert(texts(tokens@)[i + 1] == tokens@[i + 1]@);
        let digits = to_chars(tokens[i + 1]);
        parse_decimal(&digits)
    } else {
        None
    }
}

/// Reads the limits of a `go` command from the words that follow `go`.
pub fn handle_go(tokens: &[&str]) -> (limits: SearchLimits)
    ensures
        limits == go_limits(texts(tokens@), 0, no_limits()),
{
    let mut acc = SearchLimits {
        depth: None,
        nodes: None,
        movetime: None,
        infinite: false,
        ponder: false,
    };
    let ghost words = texts(tokens@);
    let mut i: usize = 0;
    while i < tokens.len()
        invariant
            i <= tokens.len() + 1,
            words == texts(tokens@),
            go_limits(words, i as int, acc) == go_limits(words, 0, no_limits()),
        decreases tokens.len() + 1 - i,
    {
        let w = tokens[i];
        assert(words[i as int] == w@);
        if same_text(w, "infinite") {
            acc.infinite = true;
            i += 1;
        } else if same_text(w, "ponder") {
            acc.ponder = true;
            i += 1;
        } else if same_text(w, "depth") {
            match read_number_after(tokens, i) {
                Some(d) => {
                    if d <= u32::MAX as u64 {
                        acc.depth = Some(d as u32);
                        i += 2;
                    } else {
                        i += 1;
                    }
                },
                None => {
                    i += 1;
                },
            }
        } else if same_text(w, "nodes") {
            match read_number_after(tokens, i) {
                Some(n) => {
                    acc.nodes = Some(n);
                    i += 2;
                },
                None => {
                    i += 1;
                },
            }
        } else if same_text(w, "movetime") {
            match read_number_after(tokens, i) {
                Some(t) => {
                    acc.movetime = Some(t);
                    i += 2;
                },
                None => {
                    i += 1;
                },
            }
        } else {
            i += 1;
        }
    }
    acc
}

} // verus!
