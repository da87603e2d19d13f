//! Moves: which of them are legal in a position, and what they do to it.

use vstd::prelude::*;
use crate::attack::{attacked, attacks, forward, in_check, is_attacked, is_in_check, piece_attacks};
use crate::position::{Castling, Position, PositionView};
use crate::types::{Piece, PieceKind, Side, Square, file_of, rank_of, square_at};

verus! {

/// What sets a move apart from a plain step or capture.
#[derive(Clone, Copy, PartialEq, Eq, Structural, Debug)]
pub enum Special {
    /// The king goes two files towards a rook, which jumps over it.
    Castle,
    /// A pawn takes a pawn that has just passed it with a double step.
    EnPassant,
    /// A pawn goes two ranks forward from its home rank.
    DoublePush,
}

/// A move: where a piece leaves, where it arrives, what a pawn becomes on the
/// last rank, and what is special about it.
#[derive(Clone, Copy, PartialEq, Eq, Debug)]
pub struct Move {
    pub from: u8,
    pub to: u8,
    pub promotion: Option<PieceKind>,
    pub special: Option<Special>,
}

/// Why a move was refused.
#[derive(Clone, Copy, PartialEq, Eq, Structural, Debug)]
pub enum IllegalMoveError {
    /// The origin is off the board, empty, or holds a piece of the side that
    /// is not to move.
    NoPieceAtOrigin,
    /// The piece does not move like that: the squares do not fit its kind,
    /// the path is blocked, a piece of its own side is in the way, a
    /// promotion is missing or out of place, or the castling is not allowed.
    IllegalForPiece,
    /// The move would leave the king of the side that made it attacked.
    LeavesKingInCheck,
}

/// The rank on which the pawns of a side start.
pub open spec fn pawn_home_rank(side: Side) -> int {
    match side {
        Side::White => 1,
        Side::Black => 6,
    }
}

/// The rank on which the pawns of a side are promoted.
pub open spec fn last_rank(side: Side) -> int {
    match side {
        Side::White => 7,
        Side::Black => 0,
    }
}

/// The square on which the king of a side starts.
pub open spec fn king_home(side: Side) -> int {
    match side {
        Side::White => 4,
        Side::Black => 60,
    }
}

/// A square holds a piece of the given side.
pub open spec fn held_by(squares: Seq<Square>, sq: int, side: Side) -> bool {
    squares[sq] matches Some(p) && p.side == side
}

/// The square of the pawn that an en-passant capture from `from` to `to`
/// takes: on the file of arrival and the rank of departure.
pub open spec fn en_passant_victim(from: int, to: int) -> int {
    square_at(file_of(to), rank_of(from))
}

/// A pawn of `side` may go from `m.from` to `m.to`: one step forward onto an
/// empty square; two steps from its home rank over an empty square onto an
/// empty square; one step diagonally forward onto a piece of the other side;
/// or one step diagonally forward onto the empty en-passant target, beside a
/// pawn of the other side.
pub open spec fn pawn_move(p: PositionView, side: Side, m: Move) -> bool {
    let from = m.from as int;
    let to = m.to as int;
    let ahead = rank_of(to) - rank_of(from);
    ||| (m.special is None && file_of(from) == file_of(to) && ahead == forward(side)
        && p.squares[to] is None)
    ||| (m.special == Some(Special::DoublePush) && file_of(from) == file_of(to) && rank_of(from)
        == pawn_home_rank(side) && ahead == 2 * forward(side) && p.squares[from + 8 * forward(
        side,
    )] is None && p.squares[to] is None)
    ||| (m.special is None && attacks(p.squares, from, to) && held_by(
        p.squares,
        to,
        side.other(),
    ))
    ||| (m.special == Some(Special::EnPassant) && attacks(p.squares, from, to) && p.en_passant
        == Some(to) && p.squares[to] is None && p.squares[en_passant_victim(from, to)] == Some(
        Piece { side: side.other(), kind: PieceKind::Pawn },
    ))
}

/// Whether a side still has the right to castle towards the king's side
/// (`king_side`) or the queen's side.
pub open spec fn has_right(c: Castling, side: Side, king_side: bool) -> bool {
    match side {
        Side::White => if king_side {
            c.white_king_side
        } else {
            c.white_queen_side
        },
        Side::Black => if king_side {
            c.black_king_side
        } else {
            c.black_queen_side
        },
    }
}

/// The king of `side` may castle from `m.from` to `m.to`: it stands on its
/// home square and goes two files to one side; the right to do so is left;
/// the rook of that side stands in its corner; the squares between the two
/// are empty; and neither the square the king leaves nor the one it passes
/// over is attacked.
pub open spec fn castle_move(p: PositionView, side: Side, m: Move) -> bool {
    let from = m.from as int;
    let to = m.to as int;
    let rook = Some(Piece { side, kind: PieceKind::Rook });
    &&& m.special == Some(Special::Castle)
    &&& from == king_home(side)
    &&& !attacked(p.squares, from, side.other())
    &&& if to == from + 2 {
        &&& has_right(p.castling, side, true)
        &&& p.squares[from + 3] == rook
        &&& p.squares[from + 1] is None
        &&& p.squares[from + 2] is None
        &&& !attacked(p.squares, from + 1, side.other())
    } else {
        &&& to == from - 2
        &&& has_right(p.castling, side, false)
        &&& p.squares[from - 4] == rook
        &&& p.squares[from - 1] is None
        &&& p.squares[from - 2] is None
        &&& p.squares[from - 3] is None
        &&& !attacked(p.squares, from - 1, side.other())
    }
}

/// A promotion is named exactly when a pawn arrives on its last rank, and
/// names a knight, bishop, rook or queen.
pub open spec fn promotion_fits(piece: Piece, m: Move) -> bool {
    match m.promotion {
        Some(k) => piece.kind == PieceKind::Pawn && rank_of(m.to as int) == last_rank(piece.side)
            && k != PieceKind::Pawn && k != PieceKind::King,
        None => !(piece.kind == PieceKind::Pawn && rank_of(m.to as int) == last_rank(piece.side)),
    }
}

/// The piece `piece`, which stands on `m.from`, may make the move by the rule
/// of its kind. Both squares are on the board.
pub open spec fn moves_as(p: PositionView, piece: Piece, m: Move) -> bool {
    let from = m.from as int;
    let to = m.to as int;
    &&& !held_by(p.squares, to, piece.side)
    &&& promotion_fits(piece, m)
    &&& match piece.kind {
        PieceKind::Pawn => pawn_move(p, piece.side, m),
        PieceKind::King => (m.special is None && attacks(p.squares, from, to)) || castle_move(
            p,
            piece.side,
            m,
        ),
        _ => m.special is None && attacks(p.squares, from, to),
    }
}

/// A move between `from` and `to` leaves or reaches the square `sq`.
pub open spec fn touches(from: int, to: int, sq: int) -> bool {
    from == sq || to == sq
}

/// The castling rights that are left after a move between two squares: a
/// right goes when its king or its rook leaves its home square, or when
/// something arrives there.
pub open spec fn rights_after(c: Castling, from: int, to: int) -> Castling {
    Castling {
        white_king_side: c.white_king_side && !touches(from, to, 4) && !touches(from, to, 7),
        white_queen_side: c.white_queen_side && !touches(from, to, 4) && !touches(from, to, 0),
        black_king_side: c.black_king_side && !touches(from, to, 60) && !touches(from, to, 63),
        black_queen_side: c.black_queen_side && !touches(from, to, 60) && !touches(from, to, 56),
    }
}

/// A counter one higher, unless it already holds the largest number that
/// fits 32 bits.
pub open spec fn bump(n: nat) -> nat {
    if n < u32::MAX {
        n + 1
    } else {
        n
    }
}

/// The squares after a move of the piece on `m.from`: it leaves its square
/// and arrives on `m.to`, as the piece named by the promotion if there is
/// one; an en-passant capture also clears the square of the pawn it takes;
/// castling also brings the rook from its corner to the square that the
/// king passed over.
pub open spec fn squares_after(squares: Seq<Square>, m: Move) -> Seq<Square> {
    let from = m.from as int;
    let to = m.to as int;
    let arriving = match (squares[from], m.promotion) {
        (Some(p), Some(k)) => Some(Piece { side: p.side, kind: k }),
        (s, _) => s,
    };
    let moved = squares.update(from, None).update(to, arriving);
    match m.special {
        Some(Special::EnPassant) => moved.update(en_passant_victim(from, to), None),
        Some(Special::Castle) => if to > from {
            moved.update(from + 3, None).update(from + 1, squares[from + 3])
        } else {
            moved.update(from - 4, None).update(from - 1, squares[from - 4])
        },
        _ => moved,
    }
}

/// The position after a move. The side to move changes; the castling rights
/// shrink; the en-passant target is the square that a double pawn step
/// passed over, if the move was one; the half-move clock starts again at a
/// pawn move or capture and goes up by one otherwise; the move number goes up
/// by one after a move of Black.
pub open spec fn after(p: PositionView, m: Move) -> PositionView {
    let from = m.from as int;
    let to = m.to as int;
    let resets = (p.squares[from] matches Some(piece) && piece.kind == PieceKind::Pawn)
        || p.squares[to] is Some;
    PositionView {
        squares: squares_after(p.squares, m),
        side_to_move: p.side_to_move.other(),
        castling: rights_after(p.castling, from, to),
        en_passant: if m.special == Some(Special::DoublePush) {
            Some(from + 8 * forward(p.side_to_move))
        } else {
            None
        },
        halfmove_clock: if resets {
            0
        } else {
            bump(p.halfmove_clock)
        },
        fullmove_number: if p.side_to_move == Side::Black {
            bump(p.fullmove_number)
        } else {
            p.fullmove_number
        },
    }
}

/// Why a move is refused in a position, or `None` for a legal move.
pub open spec fn rejection(p: PositionView, m: Move) -> Option<IllegalMoveError> {
    if !(m.from < 64 && held_by(p.squares, m.from as int, p.side_to_move)) {
        Some(IllegalMoveError::NoPieceAtOrigin)
    } else if !(m.to < 64 && moves_as(p, p.squares[m.from as int]->0, m)) {
        Some(IllegalMoveError::IllegalForPiece)
    } else if in_check(squares_after(p.squares, m), p.side_to_move) {
        Some(IllegalMoveError::LeavesKingInCheck)
    } else {
        None
    }
}

/// A move is legal in a position.
pub open spec fn legal(p: PositionView, m: Move) -> bool {
    rejection(p, m) is None
}

/// A legal move leads from a valid position to a valid position, in which the
/// king of the side that moved is not attacked.
pub proof fn lemma_legal_move_is_safe(p: PositionView, m: Move)
    requires
        p.valid(),
        legal(p, m),
    ensures
        after(p, m).valid(),
        !in_check(after(p, m).squares, p.side_to_move),
        after(p, m).side_to_move == p.side_to_move.other(),
{
}

/// Whether a promotion is named exactly where one is due.
fn promotion_ok(piece: Piece, m: Move) -> (r: bool)
    requires
        m.to < 64,
    ensures
        r == promotion_fits(piece, m),
{
    let last: u8 = match piece.side {
        Side::White => 7,
        Side::Black => 0,
    };
    let due = piece.kind == PieceKind::Pawn && m.to / 8 == last;
    match m.promotion {
        Some(k) => due && k != PieceKind::Pawn && k != PieceKind::King,
        None => !due,
    }
}

/// Whether a pawn of `side` on `m.from` may make the move.
fn pawn_may_move(pos: &Position, board: &[Square; 64], side: Side, m: Move) -> (r: bool)
    requires
        m.from < 64,
        m.to < 64,
        board@ == pos@.squares,
        board@[m.from as int] == Some(Piece { side, kind: PieceKind::Pawn }),
    ensures
        r == pawn_move(pos@, side, m),
{
    let from = m.from;
    let to = m.to;
    let rank_from: i8 = (from / 8) as i8;
    let rank_to: i8 = (to / 8) as i8;
    let step: i8 = match side {
        Side::White => 1,
        Side::Black => -1,
    };
    let home: i8 = match side {
        Side::White => 1,
        Side::Black => 6,
    };
    let same_file = from % 8 == to % 8;
    let ahead: i8 = rank_to - rank_from;
    match m.special {
        None => {
            if same_file {
                ahead == step && board[to as usize].is_none()
            } else {
                match board[to as usize] {
                    Some(q) => q.side != side && piece_attacks(board, from, to),
                    None => false,
                }
            }
        },
        Some(Special::DoublePush) => {
            if same_file && rank_from == home && ahead == 2 * step {
                let middle: u8 = match side {
                    Side::White => from + 8,
                    Side::Black => from - 8,
                };
                board[middle as usize].is_none() && board[to as usize].is_none()
            } else {
                false
            }
        },
        Some(Special::EnPassant) => {
            let target = match pos.en_passant() {
                Some(e) => e == to,
                None => false,
            };
            if target && board[to as usize].is_none() && piece_attacks(board, from, to) {
                let victim: u8 = (from / 8) * 8 + to % 8;
                match board[victim as usize] {
                    Some(q) => q.side != side && q.kind == PieceKind::Pawn,
                    None => false,
                }
            } else {
                false
            }
        },
        Some(Special::Castle) => false,
    }
}

/// Whether a square holds the rook of a side.
fn holds_rook(board: &[Square; 64], sq: u8, side: Side) -> (r: bool)
    requires
        sq < 64,
    ensures
        r == (board@[sq as int] == Some(Piece { side, kind: PieceKind::Rook })),
{
    match board[sq as usize] {
        Some(q) => q.side == side && q.kind == PieceKind::Rook,
        None => false,
    }
}

/// Whether the king of `side` may castle as the move says.
fn may_castle(pos: &Position, board: &[Square; 64], side: Side, m: Move) -> (r: bool)
    requires
        m.from < 64,
        m.to < 64,
        board@ == pos@.squares,
    ensures
        r == castle_move(pos@, side, m),
{
    match m.special {
        Some(Special::Castle) => {},
        _ => {
            return false;
        },
    }
    let home: u8 = match side {
        Side::White => 4,
        Side::Black => 60,
    };
    let from = m.from;
    let enemy = side.opponent();
    if from != home || is_attacked(board, from, enemy) {
        return false;
    }
    let rights = pos.castling();
    if m.to == from + 2 {
        let right = match side {
            Side::White => rights.white_king_side,
            Side::Black => rights.black_king_side,
        };
        right && holds_rook(board, from + 3, side) && board[(from + 1) as usize].is_none()
            && board[(from + 2) as usize].is_none() && !is_attacked(board, from + 1, enemy)
    } else if m.to == from - 2 {
        let right = match side {
            Side::White => rights.white_queen_side,
            Side::Black => rights.black_queen_side,
        };
        right && holds_rook(board, from - 4, side) && board[(from - 1) as usize].is_none()
            && board[(from - 2) as usize].is_none() && board[(from - 3) as usize].is_none()
            && !is_attacked(board, from - 1, enemy)
    } else {
        false
    }
}

/// Whether the piece on `m.from` may make the move by the rule of its kind.
fn piece_may_move(pos: &Position, board: &[Square; 64], piece: Piece, m: Move) -> (r: bool)
    requires
        m.from < 64,
        m.to < 64,
        board@ == pos@.squares,
        board@[m.from as int] == Some(piece),
    ensures
        r == moves_as(pos@, piece, m),
{
    let own_in_the_way = match board[m.to as usize] {
        Some(q) => q.side == piece.side,
        None => false,
    };
    if own_in_the_way || !promotion_ok(piece, m) {
        return false;
    }
    match piece.kind {
        PieceKind::Pawn => pawn_may_move(pos, board, piece.side, m),
        PieceKind::King => {
            if m.special.is_none() {
                piece_attacks(board, m.from, m.to)
            } else {
                may_castle(pos, board, piece.side, m)
            }
        },
        _ => m.special.is_none() && piece_attacks(board, m.from, m.to),
    }
}

/// The squares after a move.
fn board_after(board: &[Square; 64], m: Move) -> (r: [Square; 64])
    requires
        m.from < 64,
        m.to < 64,
        m.special == Some(Special::Castle) ==> m.from == 4 || m.from == 60,
    ensures
        r@ == squares_after(board@, m),
{
    let from = m.from as usize;
    let to = m.to as usize;
    let arriving = match (board[from], m.promotion) {
        (Some(p), Some(k)) => Some(Piece { side: p.side, kind: k }),
        (s, _) => s,
    };
    let mut next = *board;
    next[from] = None;
    next[to] = arriving;
    match m.special {
        Some(Special::EnPassant) => {
            next[(from / 8) * 8 + to % 8] = None;
        },
        Some(Special::Castle) => {
            if to > from {
                next[from + 3] = None;
                next[from + 1] = board[from + 3];
            } else {
                next[from - 4] = None;
                next[from - 1] = board[from - 4];
            }
        },
        _ => {},
    }
    next
}

/// The castling rights that are left after a move between two squares.
fn castling_after(c: Castling, from: u8, to: u8) -> (r: Castling)
    ensures
        r == rights_after(c, from as int, to as int),
{
    let white_king = from == 4 || to == 4;
    let black_king = from == 60 || to == 60;
    Castling {
        white_king_side: c.white_king_side && !white_king && !(from == 7 || to == 7),
        white_queen_side: c.white_queen_side && !white_king && !(from == 0 || to == 0),
        black_king_side: c.black_king_side && !black_king && !(from == 63 || to == 63),
        black_queen_side: c.black_queen_side && !black_king && !(from == 56 || to == 56),
    }
}

/// A counter one higher, unless it is full.
fn bumped(n: u32) -> (r: u32)
    ensures
        r == bump(n as nat),
{
    if n < u32::MAX {
        n + 1
    } else {
        n
    }
}

impl Position {
    /// Why a move is refused in this position, or `None` if it is legal.
    pub fn check_move(&self, m: Move) -> (r: Option<IllegalMoveError>)
        ensures
            r == rejection(self@, m),
    {
        if m.from >= 64 {
            return Some(IllegalMoveError::NoPieceAtOrigin);
        }
        let board = self.board();
        let side = self.side_to_move();
        let piece = match board[m.from as usize] {
            Some(p) => p,
            None => {
                return Some(IllegalMoveError::NoPieceAtOrigin);
            },
        };
        if piece.side != side {
            return Some(IllegalMoveError::NoPieceAtOrigin);
        }
        if m.to >= 64 || !piece_may_move(self, &board, piece, m) {
            return Some(IllegalMoveError::IllegalForPiece);
        }
        let next = board_after(&board, m);
        if is_in_check(&next, side) {
            Some(IllegalMoveError::LeavesKingInCheck)
        } else {
            None
        }
    }

    /// Whether a move is legal in this position.
    pub fn is_legal(&self, m: Move) -> (r: bool)
        ensures
            r == legal(self@, m),
    {
        self.check_move(m).is_none()
    }

    /// Makes a move, if it is legal: the position becomes the one after the
    /// move, in which the king of the side that moved is not attacked. A move
    /// that is not legal is refused with the reason, and the position stays
    /// as it was.
    pub fn apply(&mut self, m: Move) -> (r: Result<(), IllegalMoveError>)
        ensures
            match rejection(old(self)@, m) {
                None => r is Ok && final(self)@ == after(old(self)@, m) && !in_check(
                    final(self)@.squares,
                    old(self)@.side_to_move,
                ),
                Some(e) => r == Err::<(), IllegalMoveError>(e) && *final(self) == *old(self),
            },
            final(self)@.valid(),
    {
        proof {
            use_type_invariant(&*self);
        }
        match self.check_move(m) {
            Some(e) => Err(e),
            None => {
                let board = self.board();
                let side = self.side_to_move();
                let piece_moved = board[m.from as usize];
                let resets = match piece_moved {
                    Some(p) => p.kind == PieceKind::Pawn,
                    None => false,
                } || board[m.to as usize].is_some();
                let en_passant: Option<u8> = match m.special {
                    Some(Special::DoublePush) => Some(
                        match side {
                            Side::White => m.from + 8,
                            Side::Black => m.from - 8,
                        },
                    ),
                    _ => None,
                };
                let halfmove = if resets {
                    0
                } else {
                    bumped(self.halfmove_clock())
                };
                let fullmove = match side {
                    Side::Black => bumped(self.fullmove_number()),
                    Side::White => self.fullmove_number(),
                };
                *self = Position::from_parts(
                    board_after(&board, m),
                    side.opponent(),
                    castling_after(self.castling(), m.from, m.to),
                    en_passant,
                    halfmove,
                    fullmove,
                );
                assert(self@ == after(old(self)@, m));
                Ok(())
            },
        }
    }
}

} // verus!
