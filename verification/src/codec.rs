//! Coordinate notation: a move as the name of the square it leaves, the name
//! of the square it reaches and, for a promotion, the letter of the new
//! piece, as in `e2e4` or `e7e8q`.

use vstd::prelude::*;
use crate::attack::{file_gap, rank_gap};
use crate::moves::{IllegalMoveError, Move, Special, after, legal, rejection};
use crate::position::{Position, PositionView};
use crate::text::to_chars;
use crate::types::{
    PieceKind, Square, file_to_char, lemma_square_name_round_trip, named_square, rank_to_char,
    square_from_chars, square_name,
};

verus! {

/// Why a token was refused as a move.
#[derive(Clone, Copy, PartialEq, Eq, Structural, Debug)]
pub enum MoveParseError {
    /// The token is not two square names, or two and a promotion letter.
    Malformed,
    /// The origin is empty or holds a piece of the side that is not to move.
    NoPieceAtOrigin,
    /// The piece on the origin does not move like that.
    IllegalForPiece,
    /// The move would leave the king of the side that made it attacked.
    LeavesKingInCheck,
}

/// Why a move given as a token was not made.
#[derive(Clone, Copy, PartialEq, Eq, Structural, Debug)]
pub enum MoveError {
    /// The token names no legal move.
    Parse(MoveParseError),
    /// The move that the token names was refused when it was made.
    Illegal(IllegalMoveError),
}

/// The kind of piece that a promotion letter names.
pub open spec fn promotion_of(c: char) -> Option<PieceKind> {
    if c == 'q' {
        Some(PieceKind::Queen)
    } else if c == 'r' {
        Some(PieceKind::Rook)
    } else if c == 'b' {
        Some(PieceKind::Bishop)
    } else if c == 'n' {
        Some(PieceKind::Knight)
    } else {
        None
    }
}

/// The letter that names a kind of piece in a promotion.
pub open spec fn promotion_char(k: PieceKind) -> char {
    match k {
        PieceKind::Queen => 'q',
        PieceKind::Rook => 'r',
        PieceKind::Bishop => 'b',
        PieceKind::Knight => 'n',
        PieceKind::Pawn => 'p',
        PieceKind::King => 'k',
    }
}

/// What is special about a move between two squares, as the board tells: a
/// king that goes two files castles, a pawn that goes two ranks makes a
/// double step, and a pawn that changes file onto an empty square captures
/// en passant.
pub open spec fn special_of(squares: Seq<Square>, from: int, to: int) -> Option<Special> {
    match squares[from] {
        Some(p) => if p.kind == PieceKind::King && file_gap(from, to) == 2 {
            Some(Special::Castle)
        } else if p.kind == PieceKind::Pawn && rank_gap(from, to) == 2 {
            Some(Special::DoublePush)
        } else if p.kind == PieceKind::Pawn && file_gap(from, to) != 0 && squares[to] is None {
            Some(Special::EnPassant)
        } else {
            None
        },
        None => None,
    }
}

/// The move that a token names in a position, whether legal or not; `None`
/// for a token of the wrong length or with a character out of place.
pub open spec fn named_move(token: Seq<char>, p: PositionView) -> Option<Move> {
    if token.len() != 4 && token.len() != 5 {
        None
    } else {
        match (named_square(token[0], token[1]), named_square(token[2], token[3])) {
            (Some(from), Some(to)) => {
                let special = special_of(p.squares, from, to);
                if token.len() == 4 {
                    Some(Move { from: from as u8, to: to as u8, promotion: None, special })
                } else {
                    match promotion_of(token[4]) {
                        Some(k) => Some(
                            Move { from: from as u8, to: to as u8, promotion: Some(k), special },
                        ),
                        None => None,
                    }
                }
            },
            _ => None,
        }
    }
}

/// The reason for refusing a move, as the reason for refusing its token.
pub open spec fn as_parse_error(e: IllegalMoveError) -> MoveParseError {
    match e {
        IllegalMoveError::NoPieceAtOrigin => MoveParseError::NoPieceAtOrigin,
        IllegalMoveError::IllegalForPiece => MoveParseError::IllegalForPiece,
        IllegalMoveError::LeavesKingInCheck => MoveParseError::LeavesKingInCheck,
    }
}

/// The legal move that a token names in a position, or why it names none.
pub open spec fn parse_move(token: Seq<char>, p: PositionView) -> Result<Move, MoveParseError> {
    match named_move(token, p) {
        None => Err(MoveParseError::Malformed),
        Some(m) => match rejection(p, m) {
            None => Ok(m),
            Some(e) => Err(as_parse_error(e)),
        },
    }
}

/// The token of a move.
pub open spec fn move_text(m: Move) -> Seq<char> {
    square_name(m.from as int) + square_name(m.to as int) + match m.promotion {
        Some(k) => seq![promotion_char(k)],
        None => Seq::empty(),
    }
}

/// What is special about a legal move is what the board tells of its two
/// squares.
pub proof fn lemma_special_determined(p: PositionView, m: Move)
    requires
        p.squares.len() == 64,
        legal(p, m),
    ensures
        m.special == special_of(p.squares, m.from as int, m.to as int),
{
}

/// A legal move is read back from its token.
pub proof fn lemma_move_round_trip(p: PositionView, m: Move)
    requires
        p.squares.len() == 64,
        legal(p, m),
    ensures
        parse_move(move_text(m), p) == Ok::<Move, MoveParseError>(m),
{
    lemma_special_determined(p, m);
    lemma_square_name_round_trip(m.from as int);
    lemma_square_name_round_trip(m.to as int);
    let t = move_text(m);
    let a = square_name(m.from as int);
    let b = square_name(m.to as int);
    assert(t[0] == a[0] && t[1] == a[1] && t[2] == b[0] && t[3] == b[1]);
    match m.promotion {
        Some(k) => {
            assert(t.len() == 5);
            assert(t[4] == promotion_char(k));
        },
        None => {
            assert(t.len() == 4);
        },
    }
}

/// What is special about a move between two squares of a board.
fn special_on(board: &[Square; 64], from: u8, to: u8) -> (r: Option<Special>)
    requires
        from < 64,
        to < 64,
    ensures
        r == special_of(board@, from as int, to as int),
{
    let p = match board[from as usize] {
        Some(p) => p,
        None => {
            return None;
        },
    };
    let ff = from % 8;
    let ft = to % 8;
    let rf = from / 8;
    let rt = to / 8;
    let df = if ff <= ft {
        ft - ff
    } else {
        ff - ft
    };
    let dr = if rf <= rt {
        rt - rf
    } else {
        rf - rt
    };
    match p.kind {
        PieceKind::King => if df == 2 {
            Some(Special::Castle)
        } else {
            None
        },
        PieceKind::Pawn => if dr == 2 {
            Some(Special::DoublePush)
        } else if df != 0 && board[to as usize].is_none() {
            Some(Special::EnPassant)
        } else {
            None
        },
        _ => None,
    }
}

/// Reads a move in coordinate notation against a position. The position is
/// not changed. The token is refused as `Malformed` where its length is
/// neither four nor five, where one of its squares is not on the board, or
/// where its fifth character is no promotion letter; otherwise the move it
/// names is judged as `Position::check_move` judges it.
pub fn parse(token: &str, position: &Position) -> (r: Result<Move, MoveParseError>)
    ensures
        r == parse_move(token@, position@),
{
    let t = to_chars(token);
    if t.len() != 4 && t.len() != 5 {
        return Err(MoveParseError::Malformed);
    }
    let from = match square_from_chars(t[0], t[1]) {
        Some(sq) => sq,
        None => {
            return Err(MoveParseError::Malformed);
        },
    };
    let to = match square_from_chars(t[2], t[3]) {
        Some(sq) => sq,
        None => {
            return Err(MoveParseError::Malformed);
        },
    };
    let promotion = if t.len() == 5 {
        match t[4] {
            'q' => Some(PieceKind::Queen),
            'r' => Some(PieceKind::Rook),
            'b' => Some(PieceKind::Bishop),
            'n' => Some(PieceKind::Knight),
            _ => {
                return Err(MoveParseError::Malformed);
            },
        }
    } else {
        None
    };
    let board = position.board();
    let m = Move { from, to, promotion, special: special_on(&board, from, to) };
    assert(named_move(token@, position@) == Some(m));
    match position.check_move(m) {
        None => Ok(m),
        Some(IllegalMoveError::NoPieceAtOrigin) => Err(MoveParseError::NoPieceAtOrigin),
        Some(IllegalMoveError::IllegalForPiece) => Err(MoveParseError::IllegalForPiece),
        Some(IllegalMoveError::LeavesKingInCheck) => Err(MoveParseError::LeavesKingInCheck),
    }
}

/// Writes a move in coordinate notation.
pub fn format_move(m: Move) -> (s: String)
    requires
        m.from < 64,
        m.to < 64,
    ensures
        s@ == move_text(m),
{
    let mut s = String::new();
    s.push(file_to_char(m.from % 8));
    s.push(rank_to_char(m.from / 8));
    s.push(file_to_char(m.to % 8));
    s.push(rank_to_char(m.to / 8));
    match m.promotion {
        Some(k) => {
            let c = match k {
                PieceKind::Queen => 'q',
                PieceKind::Rook => 'r',
                PieceKind::Bishop => 'b',
                PieceKind::Knight => 'n',
                PieceKind::Pawn => 'p',
                PieceKind::King => 'k',
            };
            s.push(c);
        },
        None => {},
    }
    assert(s@ =~= move_text(m));
    s
}

impl Position {
    /// Makes the move that a token in coordinate notation names, if it names
    /// a legal one. Otherwise the position stays as it was and the reason is
    /// returned.
    pub fn do_move(&mut self, m: &str) -> (r: Result<(), MoveError>)
        ensures
            match parse_move(m@, old(self)@) {
                Ok(mv) => r is Ok && final(self)@ == after(old(self)@, mv),
                Err(e) => r == Err::<(), MoveError>(MoveError::Parse(e)) && *final(self) == *old(
                    self,
                ),
            },
            final(self)@.valid(),
    {
        proof {
            use_type_invariant(&*self);
        }
        match parse(m, self) {
            Err(e) => Err(MoveError::Parse(e)),
            Ok(mv) => match self.apply(mv) {
                Ok(()) => Ok(()),
                Err(e) => Err(MoveError::Illegal(e)),
            },
        }
    }
}

} // verus!
