//! The board state: sixty-four squares, the side to move, castling rights,
//! the en-passant target and the two move counters.

use vstd::prelude::*;
use crate::types::{Piece, PieceKind, Side, Square, rank_of};

verus! {

/// Which castling moves the players have not yet given up.
#[derive(Clone, Copy, PartialEq, Eq, Structural, Debug)]
pub struct Castling {
    pub white_king_side: bool,
    pub white_queen_side: bool,
    pub black_king_side: bool,
    pub black_queen_side: bool,
}

/// The rank, counted from 0, on which an en-passant target lies when `side`
/// is to move: the sixth rank for White, the third for Black.
pub open spec fn en_passant_rank(side: Side) -> int {
    match side {
        Side::White => 5,
        Side::Black => 2,
    }
}

/// How many of the first `n` squares hold exactly `what`.
pub open spec fn count_of(squares: Seq<Square>, what: Square, n: int) -> nat
    decreases n,
{
    if n <= 0 {
        0
    } else {
        count_of(squares, what, n - 1) + if squares[n - 1] == what {
            1nat
        } else {
            0nat
        }
    }
}

/// A position as a mathematical value.
pub struct PositionView {
    /// The sixty-four squares, a1 first and h8 last.
    pub squares: Seq<Square>,
    pub side_to_move: Side,
    pub castling: Castling,
    /// The square that a pawn has just passed over with a double step.
    pub en_passant: Option<int>,
    /// Half-moves since the last pawn move or capture.
    pub halfmove_clock: nat,
    /// The number of the move that is being played.
    pub fullmove_number: nat,
}

impl PositionView {
    /// What holds of every position that the library hands out: there are
    /// sixty-four squares, an en-passant target lies on the board, on the rank
    /// that fits the side to move, and the counters fit 32 bits.
    pub open spec fn valid(self) -> bool {
        &&& self.squares.len() == 64
        &&& (self.en_passant matches Some(e) ==> 0 <= e < 64 && rank_of(e) == en_passant_rank(
            self.side_to_move,
        ))
        &&& self.halfmove_clock <= u32::MAX
        &&& self.fullmove_number <= u32::MAX
    }

    /// How many squares hold the king of `side`.
    pub open spec fn kings(self, side: Side) -> nat {
        count_of(self.squares, Some(Piece { side, kind: PieceKind::King }), 64)
    }

    /// Each player has exactly one king: what a search asks of a position.
    pub open spec fn searchable(self) -> bool {
        self.kings(Side::White) == 1 && self.kings(Side::Black) == 1
    }
}

/// A board with no piece on it.
pub open spec fn empty_squares() -> Seq<Square> {
    Seq::new(64, |i: int| None::<Piece>)
}

/// The live board state of the engine.
#[derive(Clone, Copy, PartialEq, Eq, Debug)]
pub struct Position {
    board: [Square; 64],
    side_to_move: Side,
    castling: Castling,
    en_passant: Option<u8>,
    halfmove_clock: u32,
    fullmove_number: u32,
}

/// A copy of a position for a search to read. It is a value of its own that
/// can be read and not changed: later changes to the position it was taken
/// from do not reach it.
#[derive(Clone, Copy, PartialEq, Eq, Debug)]
pub struct Snapshot {
    position: Position,
}

impl View for Snapshot {
    type V = PositionView;

    closed spec fn view(&self) -> PositionView {
        self.position@
    }
}

impl Snapshot {
    /// The position that the snapshot holds.
    pub closed spec fn held(self) -> Position {
        self.position
    }

    /// The position as it was when the snapshot was taken.
    pub fn position(&self) -> (p: &Position)
        ensures
            *p == self.held(),
            p@ == self@,
            p@.valid(),
    {
        proof {
            use_type_invariant(&self.position);
        }
        &self.position
    }
}

impl View for Position {
    type V = PositionView;

    closed spec fn view(&self) -> PositionView {
        PositionView {
            squares: self.board@,
            side_to_move: self.side_to_move,
            castling: self.castling,
            en_passant: match self.en_passant {
                Some(e) => Some(e as int),
                None => None,
            },
            halfmove_clock: self.halfmove_clock as nat,
            fullmove_number: self.fullmove_number as nat,
        }
    }
}

impl Position {
    /// Every value of this type is valid.
    #[verifier::type_invariant]
    pub open spec fn well_formed(self) -> bool {
        self@.valid()
    }

    /// A position from its parts.
    pub fn from_parts(
        board: [Square; 64],
        side_to_move: Side,
        castling: Castling,
        en_passant: Option<u8>,
        halfmove_clock: u32,
        fullmove_number: u32,
    ) -> (p: Position)
        requires
            en_passant matches Some(e) ==> e < 64 && rank_of(e as int) == en_passant_rank(
                side_to_move,
            ),
        ensures
            p@.squares == board@,
            p@.side_to_move == side_to_move,
            p@.castling == castling,
            p@.en_passant == match en_passant {
                Some(e) => Some(e as int),
                None => None,
            },
            p@.halfmove_clock == halfmove_clock,
            p@.fullmove_number == fullmove_number,
            p@.valid(),
    {
        Position { board, side_to_move, castling, en_passant, halfmove_clock, fullmove_number }
    }

    /// What stands on a square.
    pub fn piece_at(&self, sq: usize) -> (r: Square)
        requires
            sq < 64,
        ensures
            r == self@.squares[sq as int],
    {
        self.board[sq]
    }

    /// The sixty-four squares.
    pub fn board(&self) -> (r: [Square; 64])
        ensures
            r@ == self@.squares,
    {
        self.board
    }

    /// The side to move.
    pub fn side_to_move(&self) -> (r: Side)
        ensures
            r == self@.side_to_move,
    {
        self.side_to_move
    }

    /// The castling rights.
    pub fn castling(&self) -> (r: Castling)
        ensures
            r == self@.castling,
    {
        self.castling
    }

    /// The en-passant target, if the last move was a double pawn step.
    pub fn en_passant(&self) -> (r: Option<u8>)
        ensures
            match r {
                Some(e) => self@.en_passant == Some(e as int),
                None => self@.en_passant is None,
            },
    {
        self.en_passant
    }

    /// Half-moves since the last pawn move or capture.
    pub fn halfmove_clock(&self) -> (r: u32)
        ensures
            r == self@.halfmove_clock,
    {
        self.halfmove_clock
    }

    /// The number of the move that is being played.
    pub fn fullmove_number(&self) -> (r: u32)
        ensures
            r == self@.fullmove_number,
    {
        self.fullmove_number
    }

    /// Puts a piece on a square, or clears it; nothing else changes.
    pub fn set_piece(&mut self, pc: Square, sq: usize)
        requires
            sq < 64,
        ensures
            final(self)@ == (PositionView {
                squares: old(self)@.squares.update(sq as int, pc),
                ..old(self)@
            }),
    {
        proof {
            use_type_invariant(&*self);
        }
        let mut board = self.board;
        board[sq] = pc;
        *self = Position {
            board,
            side_to_move: self.side_to_move,
            castling: self.castling,
            en_passant: self.en_passant,
            halfmove_clock: self.halfmove_clock,
            fullmove_number: self.fullmove_number,
        };
    }

    /// How many kings a side has on the board.
    pub fn king_count(&self, side: Side) -> (r: usize)
        ensures
            r == self@.kings(side),
    {
        let mut n: usize = 0;
        let mut sq: usize = 0;
        while sq < 64
            invariant
                sq <= 64,
                n <= sq,
                n == count_of(self@.squares, Some(Piece { side, kind: PieceKind::King }), sq as int),
            decreases 64 - sq,
        {
            match self.board[sq] {
                Some(p) => {
                    if p.side == side && p.kind == PieceKind::King {
                        n += 1;
                    }
                },
                None => {},
            }
            sq += 1;
        }
        n
    }

    /// Whether each player has exactly one king, as a search requires.
    pub fn is_searchable(&self) -> (r: bool)
        ensures
            r == self@.searchable(),
    {
        self.king_count(Side::White) == 1 && self.king_count(Side::Black) == 1
    }

    /// A copy for a search to read while the position itself goes on
    /// changing.
    pub fn snapshot(&self) -> (s: Snapshot)
        ensures
            s@ == self@,
            s.held() == *self,
            s@.valid(),
    {
        proof {
            use_type_invariant(self);
        }
        Snapshot { position: *self }
    }
}

} // verus!
