//! Colours, pieces and squares.
//!
//! A square is an index from 0 to 63: a1 is 0, h1 is 7, a8 is 56 and h8 is 63,
//! so the file of a square is its index modulo 8 and its rank the index
//! divided by 8.

use vstd::prelude::*;
use crate::text::{digit_char, digit_of, digit_to_char, digit_value};

verus! {

/// The two players.
#[derive(Clone, Copy, PartialEq, Eq, Structural, Debug)]
pub enum Side {
    White,
    Black,
}

/// The six kinds of chessmen.
#[derive(Clone, Copy, PartialEq, Eq, Structural, Debug)]
pub enum PieceKind {
    Pawn,
    Knight,
    Bishop,
    Rook,
    Queen,
    King,
}

/// A chessman of one colour.
#[derive(Clone, Copy, PartialEq, Eq, Structural, Debug)]
pub struct Piece {
    pub side: Side,
    pub kind: PieceKind,
}

/// What a square holds.
pub type Square = Option<Piece>;

impl Side {
    /// The other player.
    pub open spec fn other(self) -> Side {
        match self {
            Side::White => Side::Black,
            Side::Black => Side::White,
        }
    }

    /// The other player.
    pub fn opponent(self) -> (r: Side)
        ensures
            r == self.other(),
    {
        match self {
            Side::White => Side::Black,
            Side::Black => Side::White,
        }
    }
}

/// The file of a square, 0 for the a-file to 7 for the h-file.
pub open spec fn file_of(sq: int) -> int {
    sq % 8
}

/// The rank of a square, 0 for the first rank to 7 for the eighth.
pub open spec fn rank_of(sq: int) -> int {
    sq / 8
}

/// The square on a given file and rank.
pub open spec fn square_at(file: int, rank: int) -> int {
    rank * 8 + file
}

/// The letter that stands for a kind of piece, in upper case.
pub open spec fn kind_letter(k: PieceKind) -> char {
    match k {
        PieceKind::Pawn => 'P',
        PieceKind::Knight => 'N',
        PieceKind::Bishop => 'B',
        PieceKind::Rook => 'R',
        PieceKind::Queen => 'Q',
        PieceKind::King => 'K',
    }
}

/// The letter that stands for a piece in a placement field: upper case for
/// White, lower case for Black.
pub open spec fn piece_char(p: Piece) -> char {
    match p.side {
        Side::White => kind_letter(p.kind),
        Side::Black => match p.kind {
            PieceKind::Pawn => 'p',
            PieceKind::Knight => 'n',
            PieceKind::Bishop => 'b',
            PieceKind::Rook => 'r',
            PieceKind::Queen => 'q',
            PieceKind::King => 'k',
        },
    }
}

/// The piece that a letter stands for, if it stands for one.
pub open spec fn char_piece(c: char) -> Option<Piece> {
    if c == 'P' {
        Some(Piece { side: Side::White, kind: PieceKind::Pawn })
    } else if c == 'N' {
        Some(Piece { side: Side::White, kind: PieceKind::Knight })
    } else if c == 'B' {
        Some(Piece { side: Side::White, kind: PieceKind::Bishop })
    } else if c == 'R' {
        Some(Piece { side: Side::White, kind: PieceKind::Rook })
    } else if c == 'Q' {
        Some(Piece { side: Side::White, kind: PieceKind::Queen })
    } else if c == 'K' {
        Some(Piece { side: Side::White, kind: PieceKind::King })
    } else if c == 'p' {
        Some(Piece { side: Side::Black, kind: PieceKind::Pawn })
    } else if c == 'n' {
        Some(Piece { side: Side::Black, kind: PieceKind::Knight })
    } else if c == 'b' {
        Some(Piece { side: Side::Black, kind: PieceKind::Bishop })
    } else if c == 'r' {
        Some(Piece { side: Side::Black, kind: PieceKind::Rook })
    } else if c == 'q' {
        Some(Piece { side: Side::Black, kind: PieceKind::Queen })
    } else if c == 'k' {
        Some(Piece { side: Side::Black, kind: PieceKind::King })
    } else {
        None
    }
}

/// Every piece is read back from its own letter.
pub proof fn lemma_piece_char_round_trip(p: Piece)
    ensures
        char_piece(piece_char(p)) == Some(p),
{
}

/// The letter of a piece.
pub fn piece_to_char(p: Piece) -> (c: char)
    ensures
        c == piece_char(p),
{
    match p.side {
        Side::White => match p.kind {
            PieceKind::Pawn => 'P',
            PieceKind::Knight => 'N',
            PieceKind::Bishop => 'B',
            PieceKind::Rook => 'R',
            PieceKind::Queen => 'Q',
            PieceKind::King => 'K',
        },
        Side::Black => match p.kind {
            PieceKind::Pawn => 'p',
            PieceKind::Knight => 'n',
            PieceKind::Bishop => 'b',
            PieceKind::Rook => 'r',
            PieceKind::Queen => 'q',
            PieceKind::King => 'k',
        },
    }
}

/// The piece that a letter stands for, or `None` for any other character.
pub fn piece_from_char(c: char) -> (p: Option<Piece>)
    ensures
        p == char_piece(c),
{
    match c {
        'P' => Some(Piece { side: Side::White, kind: PieceKind::Pawn }),
        'N' => Some(Piece { side: Side::White, kind: PieceKind::Knight }),
        'B' => Some(Piece { side: Side::White, kind: PieceKind::Bishop }),
        'R' => Some(Piece { side: Side::White, kind: PieceKind::Rook }),
        'Q' => Some(Piece { side: Side::White, kind: PieceKind::Queen }),
        'K' => Some(Piece { side: Side::White, kind: PieceKind::King }),
        'p' => Some(Piece { side: Side::Black, kind: PieceKind::Pawn }),
        'n' => Some(Piece { side: Side::Black, kind: PieceKind::Knight }),
        'b' => Some(Piece { side: Side::Black, kind: PieceKind::Bishop }),
        'r' => Some(Piece { side: Side::Black, kind: PieceKind::Rook }),
        'q' => Some(Piece { side: Side::Black, kind: PieceKind::Queen }),
        'k' => Some(Piece { side: Side::Black, kind: PieceKind::King }),
        _ => None,
    }
}

/// The letter of a file, `a` for file 0 to `h` for file 7.
pub open spec fn file_char(file: int) -> char {
    if file == 0 {
        'a'
    } else if file == 1 {
        'b'
    } else if file == 2 {
        'c'
    } else if file == 3 {
        'd'
    } else if file == 4 {
        'e'
    } else if file == 5 {
        'f'
    } else if file == 6 {
        'g'
    } else {
        'h'
    }
}

/// The file that a letter names, if it is one of `a` to `h`.
pub open spec fn file_value(c: char) -> Option<int> {
    if c == 'a' {
        Some(0)
    } else if c == 'b' {
        Some(1)
    } else if c == 'c' {
        Some(2)
    } else if c == 'd' {
        Some(3)
    } else if c == 'e' {
        Some(4)
    } else if c == 'f' {
        Some(5)
    } else if c == 'g' {
        Some(6)
    } else if c == 'h' {
        Some(7)
    } else {
        None
    }
}

/// The digit of a rank, `1` for rank 0 to `8` for rank 7.
pub open spec fn rank_char(rank: int) -> char {
    digit_char(rank + 1)
}

/// The rank that a digit names, if it is one of `1` to `8`.
pub open spec fn rank_value(c: char) -> Option<int> {
    match digit_value(c) {
        Some(d) => if 1 <= d <= 8 {
            Some(d - 1)
        } else {
            None
        },
        None => None,
    }
}

/// The name of a square: the letter of its file, then the digit of its rank.
pub open spec fn square_name(sq: int) -> Seq<char> {
    seq![file_char(file_of(sq)), rank_char(rank_of(sq))]
}

/// The square that two characters name, if they name one.
pub open spec fn named_square(file: char, rank: char) -> Option<int> {
    match (file_value(file), rank_value(rank)) {
        (Some(f), Some(r)) => Some(square_at(f, r)),
        _ => None,
    }
}

/// The letter of a file.
pub fn file_to_char(file: u8) -> (c: char)
    requires
        file < 8,
    ensures
        c == file_char(file as int),
{
    match file {
        0 => 'a',
        1 => 'b',
        2 => 'c',
        3 => 'd',
        4 => 'e',
        5 => 'f',
        6 => 'g',
        _ => 'h',
    }
}

/// The digit of a rank.
pub fn rank_to_char(rank: u8) -> (c: char)
    requires
        rank < 8,
    ensures
        c == rank_char(rank as int),
{
    digit_to_char(rank + 1)
}

/// The square that two characters name, or `None` where the first is no file
/// letter or the second no rank digit.
pub fn square_from_chars(file: char, rank: char) -> (r: Option<u8>)
    ensures
        match r {
            Some(sq) => named_square(file, rank) == Some(sq as int) && sq < 64,
            None => named_square(file, rank) is None,
        },
{
    let f: u8 = match file {
        'a' => 0,
        'b' => 1,
        'c' => 2,
        'd' => 3,
        'e' => 4,
        'f' => 5,
        'g' => 6,
        'h' => 7,
        _ => {
            return None;
        },
    };
    match digit_of(rank) {
        Some(d) => {
            if 1 <= d && d <= 8 {
                Some((d - 1) * 8 + f)
            } else {
                None
            }
        },
        None => None,
    }
}

/// A square on the board is read back from its name.
pub proof fn lemma_square_name_round_trip(sq: int)
    requires
        0 <= sq < 64,
    ensures
        named_square(square_name(sq)[0], square_name(sq)[1]) == Some(sq),
{
}

} // verus!
