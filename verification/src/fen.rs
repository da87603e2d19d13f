//! Forsyth-Edwards Notation: how a position is written as text and read back.
//!
//! A record has up to six fields separated by whitespace: the placement of
//! the pieces, the side to move, the castling rights, the en-passant target
//! and the two move counters. The first two must be there; a field that is
//! left out at the end reads as `-`, `-`, `0` and `1` in that order.

use vstd::prelude::*;
use crate::fen_laws::lemma_fen_round_trip;
use crate::position::{Castling, Position, PositionView, empty_squares, en_passant_rank};
use crate::text::{
    decimal, decimal_u64, digit_of, digit_to_char, digit_char, digit_value, fields, parse_decimal,
    push_decimal, split_fields, to_chars, views,
};
use crate::types::{
    Side, Square, char_piece, file_to_char, named_square, piece_char, piece_from_char,
    piece_to_char, rank_of, rank_to_char, square_at, square_from_chars, square_name,
};

verus! {

/// Why a record was refused.
#[derive(Clone, Copy, PartialEq, Eq, Structural, Debug)]
pub enum ParseError {
    /// The record has fewer than two fields.
    MissingField,
    /// The record has more than six fields.
    TrailingField,
    /// The placement holds a character that stands for nothing, or a rank
    /// ends before its eighth square.
    MalformedPlacement,
    /// A rank of the placement runs past its eighth square.
    SquareOverflow,
    /// The placement does not have exactly eight ranks.
    InvalidRankCount,
    /// The side to move is neither `w` nor `b`.
    InvalidSide,
    /// The castling field is neither `-` nor made of the letters `KQkq`.
    InvalidCastling,
    /// The en-passant field is neither `-` nor a square on the rank that
    /// fits the side to move.
    InvalidEnPassant,
    /// A move counter is no decimal number that fits 32 bits.
    InvalidClock,
}

/// How many empty squares a character of the placement stands for, if it is
/// one of the digits `1` to `8`.
pub open spec fn empty_run(c: char) -> Option<int> {
    match digit_value(c) {
        Some(d) => if 1 <= d <= 8 {
            Some(d as int)
        } else {
            None
        },
        None => None,
    }
}

/// Reads what is left of a placement, `s`, with the cursor on the given rank
/// and file and `acc` holding the pieces read so far. Ranks come from the
/// eighth down to the first, files from a to h. The first fault from the left
/// decides the error.
pub open spec fn scan_placement(s: Seq<char>, rank: int, file: int, acc: Seq<Square>) -> Result<
    Seq<Square>,
    ParseError,
>
    decreases s.len(),
{
    if s.len() == 0 {
        if file != 8 {
            Err(ParseError::MalformedPlacement)
        } else if rank != 0 {
            Err(ParseError::InvalidRankCount)
        } else {
            Ok(acc)
        }
    } else if s[0] == '/' {
        if file != 8 {
            Err(ParseError::MalformedPlacement)
        } else if rank == 0 {
            Err(ParseError::InvalidRankCount)
        } else {
            scan_placement(s.drop_first(), rank - 1, 0, acc)
        }
    } else if let Some(n) = empty_run(s[0]) {
        if file + n > 8 {
            Err(ParseError::SquareOverflow)
        } else {
            scan_placement(s.drop_first(), rank, file + n, acc)
        }
    } else if let Some(p) = char_piece(s[0]) {
        if file >= 8 {
            Err(ParseError::SquareOverflow)
        } else {
            scan_placement(
                s.drop_first(),
                rank,
                file + 1,
                acc.update(square_at(file, rank), Some(p)),
            )
        }
    } else {
        Err(ParseError::MalformedPlacement)
    }
}

/// The squares that a placement field describes.
pub open spec fn placement(s: Seq<char>) -> Result<Seq<Square>, ParseError> {
    scan_placement(s, 7, 0, empty_squares())
}

/// The side that a field names.
pub open spec fn side_of(s: Seq<char>) -> Option<Side> {
    if s == seq!['w'] {
        Some(Side::White)
    } else if s == seq!['b'] {
        Some(Side::Black)
    } else {
        None
    }
}

/// No castling rights at all.
pub open spec fn no_castling() -> Castling {
    Castling {
        white_king_side: false,
        white_queen_side: false,
        black_king_side: false,
        black_queen_side: false,
    }
}

/// Whether a character is one of the four castling letters.
pub open spec fn castling_letter(c: char) -> bool {
    c == 'K' || c == 'Q' || c == 'k' || c == 'q'
}

/// The castling rights that a field names: `-` for none, else the letters of
/// the rights that are left, in any order.
pub open spec fn castling_of(s: Seq<char>) -> Option<Castling> {
    if s == seq!['-'] {
        Some(no_castling())
    } else if s.len() > 0 && (forall|i: int| 0 <= i < s.len() ==> castling_letter(#[trigger] s[i])) {
        Some(
            Castling {
                white_king_side: s.contains('K'),
                white_queen_side: s.contains('Q'),
                black_king_side: s.contains('k'),
                black_queen_side: s.contains('q'),
            },
        )
    } else {
        None
    }
}

/// The en-passant target that a field names when `side` is to move: `-` for
/// none, else the name of a square on the rank behind a pawn of the other
/// side that has just made a double step. The outer `None` is a refusal.
pub open spec fn en_passant_of(s: Seq<char>, side: Side) -> Option<Option<int>> {
    if s == seq!['-'] {
        Some(None)
    } else if s.len() == 2 {
        match named_square(s[0], s[1]) {
            Some(sq) => if rank_of(sq) == en_passant_rank(side) {
                Some(Some(sq))
            } else {
                None
            },
            None => None,
        }
    } else {
        None
    }
}

/// The number that a counter field names.
pub open spec fn clock_of(s: Seq<char>) -> Option<nat> {
    match decimal_u64(s) {
        Some(v) => if v <= u32::MAX {
            Some(v as nat)
        } else {
            None
        },
        None => None,
    }
}

/// The position that a record describes, or why it describes none. The
/// fields are judged from left to right, after their number.
pub open spec fn parse_fen(s: Seq<char>) -> Result<PositionView, ParseError> {
    let f = fields(s);
    if f.len() < 2 {
        Err(ParseError::MissingField)
    } else if f.len() > 6 {
        Err(ParseError::TrailingField)
    } else {
        match placement(f[0]) {
            Err(e) => Err(e),
            Ok(squares) => match side_of(f[1]) {
                None => Err(ParseError::InvalidSide),
                Some(side) => match (if f.len() > 2 {
                    castling_of(f[2])
                } else {
                    Some(no_castling())
                }) {
                    None => Err(ParseError::InvalidCastling),
                    Some(castling) => match (if f.len() > 3 {
                        en_passant_of(f[3], side)
                    } else {
                        Some(None)
                    }) {
                        None => Err(ParseError::InvalidEnPassant),
                        Some(en_passant) => match (
                            if f.len() > 4 {
                                clock_of(f[4])
                            } else {
                                Some(0nat)
                            },
                            if f.len() > 5 {
                                clock_of(f[5])
                            } else {
                                Some(1nat)
                            },
                        ) {
                            (Some(halfmove), Some(fullmove)) => Ok(
                                PositionView {
                                    squares,
                                    side_to_move: side,
                                    castling,
                                    en_passant,
                                    halfmove_clock: halfmove,
                                    fullmove_number: fullmove,
                                },
                            ),
                            _ => Err(ParseError::InvalidClock),
                        },
                    },
                },
            },
        }
    }
}

/// A run of empty squares as text: its length as a digit, or nothing for no
/// run.
pub open spec fn run_text(run: int) -> Seq<char> {
    if run > 0 {
        seq![digit_char(run)]
    } else {
        Seq::empty()
    }
}

/// The text of rank `rank` from file `file` on, when `run` empty squares
/// stand just before that file and are not yet written.
pub open spec fn rank_text_from(squares: Seq<Square>, rank: int, file: int, run: int) -> Seq<char>
    decreases 8 - file,
{
    if file >= 8 {
        run_text(run)
    } else {
        match squares[square_at(file, rank)] {
            None => rank_text_from(squares, rank, file + 1, run + 1),
            Some(p) => run_text(run) + seq![piece_char(p)] + rank_text_from(
                squares,
                rank,
                file + 1,
                0,
            ),
        }
    }
}

/// The text of one rank: its pieces from file a to file h, each run of empty
/// squares written as its length.
pub open spec fn rank_text(squares: Seq<Square>, rank: int) -> Seq<char> {
    rank_text_from(squares, rank, 0, 0)
}

/// The text of the ranks from `rank` down to the first, with `/` between
/// them.
pub open spec fn placement_from(squares: Seq<Square>, rank: int) -> Seq<char>
    decreases rank,
{
    if rank <= 0 {
        rank_text(squares, 0)
    } else {
        rank_text(squares, rank) + seq!['/'] + placement_from(squares, rank - 1)
    }
}

/// The placement field of a board.
pub open spec fn placement_text(squares: Seq<Square>) -> Seq<char> {
    placement_from(squares, 7)
}

/// The field for the side to move.
pub open spec fn side_text(side: Side) -> Seq<char> {
    match side {
        Side::White => seq!['w'],
        Side::Black => seq!['b'],
    }
}

/// A castling letter if its right is left, else nothing.
pub open spec fn right_text(held: bool, letter: char) -> Seq<char> {
    if held {
        seq![letter]
    } else {
        Seq::empty()
    }
}

/// The castling field: the letters of the rights that are left, in the order
/// `KQkq`, or `-` for none.
pub open spec fn castling_text(c: Castling) -> Seq<char> {
    if c == no_castling() {
        seq!['-']
    } else {
        right_text(c.white_king_side, 'K') + right_text(c.white_queen_side, 'Q') + right_text(
            c.black_king_side,
            'k',
        ) + right_text(c.black_queen_side, 'q')
    }
}

/// The en-passant field: the name of the target, or `-` for none.
pub open spec fn en_passant_text(ep: Option<int>) -> Seq<char> {
    match ep {
        Some(sq) => square_name(sq),
        None => seq!['-'],
    }
}

/// The record of a position: its six fields with one space between them.
pub open spec fn fen_of(p: PositionView) -> Seq<char> {
    placement_text(p.squares) + seq![' '] + side_text(p.side_to_move) + seq![' ']
        + castling_text(p.castling) + seq![' '] + en_passant_text(p.en_passant) + seq![' ']
        + decimal(p.halfmove_clock) + seq![' '] + decimal(p.fullmove_number)
}

/// Reads a placement field.
pub fn parse_placement(field: &Vec<char>) -> (r: Result<[Square; 64], ParseError>)
    ensures
        match placement(field@) {
            Ok(squares) => r matches Ok(board) && board@ == squares,
            Err(e) => r == Err::<[Square; 64], ParseError>(e),
        },
{
    let mut board: [Square; 64] = [None;64];
    let mut rank: u8 = 7;
    let mut file: u8 = 0;
    let mut i: usize = 0;
    assert(board@ =~= empty_squares());
    assert(field@.skip(0) =~= field@);
    while i < field.len()
        invariant
            i <= field.len(),
            rank <= 7,
            file <= 8,
            scan_placement(field@.skip(i as int), rank as int, file as int, board@) == placement(
                field@,
            ),
        decreases field.len() - i,
    {
        let c = field[i];
        let ghost rest = field@.skip(i as int);
        assert(rest[0] == c);
        assert(rest.drop_first() =~= field@.skip(i + 1));
        if c == '/' {
            if file != 8 {
                return Err(ParseError::MalformedPlacement);
            }
            if rank == 0 {
                return Err(ParseError::InvalidRankCount);
            }
            rank -= 1;
            file = 0;
        } else {
            let run: u8 = match digit_of(c) {
                Some(d) => if 1 <= d && d <= 8 {
                    d
                } else {
                    0
                },
                None => 0,
            };
            if run > 0 {
                assert(empty_run(c) == Some(run as int));
                if file + run > 8 {
                    return Err(ParseError::SquareOverflow);
                }
                file += run;
            } else {
                assert(empty_run(c) is None);
                match piece_from_char(c) {
                    Some(p) => {
                        if file >= 8 {
                            return Err(ParseError::SquareOverflow);
                        }
                        board[(rank as usize) * 8 + (file as usize)] = Some(p);
                        file += 1;
                    },
                    None => {
                        return Err(ParseError::MalformedPlacement);
                    },
                }
            }
        }
        i += 1;
    }
    assert(field@.skip(field.len() as int) =~= Seq::<char>::empty());
    if file != 8 {
        Err(ParseError::MalformedPlacement)
    } else if rank != 0 {
        Err(ParseError::InvalidRankCount)
    } else {
        Ok(board)
    }
}

/// Reads the field for the side to move.
pub fn parse_side(field: &Vec<char>) -> (r: Option<Side>)
    ensures
        r == side_of(field@),
{
    if field.len() != 1 {
        None
    } else if field[0] == 'w' {
        assert(field@ =~= seq!['w']);
        Some(Side::White)
    } else if field[0] == 'b' {
        assert(field@ =~= seq!['b']);
        Some(Side::Black)
    } else {
        None
    }
}

/// Reads a castling field.
pub fn parse_castling(field: &Vec<char>) -> (r: Option<Castling>)
    ensures
        r == castling_of(field@),
{
    if field.len() == 1 && field[0] == '-' {
        assert(field@ =~= seq!['-']);
        return Some(
            Castling {
                white_king_side: false,
                white_queen_side: false,
                black_king_side: false,
                black_queen_side: false,
            },
        );
    }
    if field.len() == 0 {
        return None;
    }
    assert(field@ != seq!['-']) by {
        if field@ == seq!['-'] {
            assert(seq!['-'].len() == 1);
            assert(seq!['-'][0] == '-');
        }
    }
    let mut c = Castling {
        white_king_side: false,
        white_queen_side: false,
        black_king_side: false,
        black_queen_side: false,
    };
    let mut i: usize = 0;
    while i < field.len()
        invariant
            i <= field.len(),
            field.len() > 0,
            field@ != seq!['-'],
            forall|j: int| 0 <= j < i ==> castling_letter(#[trigger] field@[j]),
            c.white_king_side == field@.take(i as int).contains('K'),
            c.white_queen_side == field@.take(i as int).contains('Q'),
            c.black_king_side == field@.take(i as int).contains('k'),
            c.black_queen_side == field@.take(i as int).contains('q'),
        decreases field.len() - i,
    {
        let ch = field[i];
        let ghost before = field@.take(i as int);
        let ghost after = field@.take(i + 1);
        assert(after =~= before.push(ch));
        assert forall|x: char| after.contains(x) == (before.contains(x) || x == ch) by {
            if before.contains(x) {
                let k = choose|k: int| 0 <= k < before.len() && before[k] == x;
                assert(after[k] == x);
            }
            if x == ch {
                assert(after[i as int] == x);
            }
        }
        if ch == 'K' {
            c.white_king_side = true;
        } else if ch == 'Q' {
            c.white_queen_side = true;
        } else if ch == 'k' {
            c.black_king_side = true;
        } else if ch == 'q' {
            c.black_queen_side = true;
        } else {
            assert(!castling_letter(field@[i as int]));
            return None;
        }
        i += 1;
    }
    assert(field@.take(field.len() as int) =~= field@);
    Some(c)
}

/// Reads an en-passant field for the given side to move.
pub fn parse_en_passant(field: &Vec<char>, side: Side) -> (r: Option<Option<u8>>)
    ensures
        match r {
            Some(Some(sq)) => en_passant_of(field@, side) == Some(Some(sq as int)) && sq < 64,
            Some(None) => en_passant_of(field@, side) == Some(None::<int>),
            None => en_passant_of(field@, side) is None,
        },
{
    if field.len() == 1 && field[0] == '-' {
        assert(field@ =~= seq!['-']);
        return Some(None);
    }
    if field.len() != 2 {
        return None;
    }
    match square_from_chars(field[0], field[1]) {
        Some(sq) => {
            let wanted: u8 = match side {
                Side::White => 5,
                Side::Black => 2,
            };
            if sq / 8 == wanted {
                Some(Some(sq))
            } else {
                None
            }
        },
        None => None,
    }
}

/// Reads a counter field.
pub fn parse_clock(field: &Vec<char>) -> (r: Option<u32>)
    ensures
        match r {
            Some(v) => clock_of(field@) == Some(v as nat),
            None => clock_of(field@) is None,
        },
{
    match parse_decimal(field) {
        Some(v) => if v <= u32::MAX as u64 {
            Some(v as u32)
        } else {
            None
        },
        None => None,
    }
}

/// Appends the text of one rank.
fn push_rank(out: &mut String, board: &[Square; 64], rank: u8)
    requires
        rank < 8,
    ensures
        final(out)@ == old(out)@ + rank_text(board@, rank as int),
{
    let mut file: u8 = 0;
    let mut run: u8 = 0;
    assert(out@ + rank_text_from(board@, rank as int, 0, 0) =~= old(out)@ + rank_text(
        board@,
        rank as int,
    ));
    while file < 8
        invariant
            rank < 8,
            run <= file <= 8,
            out@ + rank_text_from(board@, rank as int, file as int, run as int) == old(out)@
                + rank_text(board@, rank as int),
        decreases 8 - file,
    {
        let ghost before = out@;
        let ghost tail = rank_text_from(board@, rank as int, file + 1, 0);
        match board[(rank as usize) * 8 + (file as usize)] {
            None => {
                run += 1;
            },
            Some(p) => {
                if run > 0 {
                    out.push(digit_to_char(run));
                }
                out.push(piece_to_char(p));
                assert(out@ =~= before + run_text(run as int) + seq![piece_char(p)]);
                assert(out@ + tail =~= before + (run_text(run as int) + seq![piece_char(p)]
                    + tail));
                run = 0;
            },
        }
        file += 1;
    }
    let ghost before = out@;
    if run > 0 {
        out.push(digit_to_char(run));
    }
    assert(out@ =~= before + run_text(run as int));
}

/// Appends the placement field of a board.
fn push_placement(out: &mut String, board: &[Square; 64])
    ensures
        final(out)@ == old(out)@ + placement_text(board@),
{
    let mut rank: u8 = 7;
    loop
        invariant_except_break
            rank <= 7,
            out@ + placement_from(board@, rank as int) == old(out)@ + placement_text(board@),
        ensures
            out@ == old(out)@ + placement_text(board@),
        decreases rank,
    {
        let ghost before = out@;
        push_rank(out, board, rank);
        if rank == 0 {
            break;
        }
        out.push('/');
        let ghost rest = placement_from(board@, rank - 1);
        assert(out@ + rest =~= before + (rank_text(board@, rank as int) + seq!['/'] + rest));
        rank -= 1;
    }
}

/// Appends a castling field.
fn push_castling(out: &mut String, c: Castling)
    ensures
        final(out)@ == old(out)@ + castling_text(c),
{
    if !c.white_king_side && !c.white_queen_side && !c.black_king_side && !c.black_queen_side {
        out.push('-');
        assert(out@ =~= old(out)@ + castling_text(c));
    } else {
        if c.white_king_side {
            out.push('K');
        }
        if c.white_queen_side {
            out.push('Q');
        }
        if c.black_king_side {
            out.push('k');
        }
        if c.black_queen_side {
            out.push('q');
        }
        assert(out@ =~= old(out)@ + castling_text(c));
    }
}

impl Position {
    /// Replaces the position by the one that a record describes. A record
    /// that describes none is refused with the reason, and the position stays
    /// as it was.
    pub fn set_position(&mut self, fen: &str) -> (r: Result<(), ParseError>)
        ensures
            match parse_fen(fen@) {
                Ok(p) => r is Ok && final(self)@ == p,
                Err(e) => r == Err::<(), ParseError>(e) && *final(self) == *old(self),
            },
            final(self)@.valid(),
    {
        proof {
            use_type_invariant(&*self);
        }
        let line = to_chars(fen);
        let f = split_fields(&line);
        assert(f@.len() == fields(fen@).len());
        assert(forall|i: int| 0 <= i < f@.len() ==> f@[i]@ == #[trigger] views(f@)[i]);
        if f.len() < 2 {
            return Err(ParseError::MissingField);
        }
        if f.len() > 6 {
            return Err(ParseError::TrailingField);
        }
        let board = match parse_placement(&f[0]) {
            Ok(b) => b,
            Err(e) => {
                return Err(e);
            },
        };
        let side = match parse_side(&f[1]) {
            Some(s) => s,
            None => {
                return Err(ParseError::InvalidSide);
            },
        };
        let castling = if f.len() > 2 {
            match parse_castling(&f[2]) {
                Some(c) => c,
                None => {
                    return Err(ParseError::InvalidCastling);
                },
            }
        } else {
            Castling {
                white_king_side: false,
                white_queen_side: false,
                black_king_side: false,
                black_queen_side: false,
            }
        };
        let en_passant = if f.len() > 3 {
            match parse_en_passant(&f[3], side) {
                Some(e) => e,
                None => {
                    return Err(ParseError::InvalidEnPassant);
                },
            }
        } else {
            None
        };
        let halfmove = if f.len() > 4 {
            parse_clock(&f[4])
        } else {
            Some(0)
        };
        let fullmove = if f.len() > 5 {
            parse_clock(&f[5])
        } else {
            Some(1)
        };
        match (halfmove, fullmove) {
            (Some(h), Some(n)) => {
                *self = Position::from_parts(board, side, castling, en_passant, h, n);
                Ok(())
            },
            _ => Err(ParseError::InvalidClock),
        }
    }

    /// The record of the position. Reading it gives the position back.
    pub fn to_fen(&self) -> (s: String)
        ensures
            s@ == fen_of(self@),
            parse_fen(s@) == Ok::<PositionView, ParseError>(self@),
    {
        let mut out = String::new();
        let board = self.board();
        push_placement(&mut out, &board);
        out.push(' ');
        match self.side_to_move() {
            Side::White => out.push('w'),
            Side::Black => out.push('b'),
        }
        out.push(' ');
        let ghost head = out@;
        assert(head =~= placement_text(self@.squares) + seq![' '] + side_text(
            self@.side_to_move,
        ) + seq![' ']);
        push_castling(&mut out, self.castling());
        out.push(' ');
        match self.en_passant() {
            Some(sq) => {
                proof {
                    use_type_invariant(self);
                }
                out.push(file_to_char(sq % 8));
                out.push(rank_to_char(sq / 8));
            },
            None => out.push('-'),
        }
        out.push(' ');
        let ghost middle = out@;
        assert(middle =~= head + castling_text(self@.castling) + seq![' '] + en_passant_text(
            self@.en_passant,
        ) + seq![' ']);
        push_decimal(&mut out, self.halfmove_clock() as u64);
        out.push(' ');
        push_decimal(&mut out, self.fullmove_number() as u64);
        assert(out@ =~= middle + decimal(self@.halfmove_clock) + seq![' '] + decimal(
            self@.fullmove_number,
        ));
        assert(out@ == fen_of(self@));
        proof {
            use_type_invariant(self);
            lemma_fen_round_trip(self@);
        }
        out
    }
}

} // verus!
