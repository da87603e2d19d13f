//! The standard initial position.

use vstd::prelude::*;
use crate::fen::{castling_text, fen_of, placement_from, placement_text, rank_text, rank_text_from};
use crate::fen_laws::lemma_fen_round_trip;
use crate::position::{Castling, Position, PositionView};
use crate::types::{Piece, PieceKind, Side, Square, file_of, rank_of};

verus! {

/// The record of the standard initial position.
pub const START_POS_FEN: &'static str = "rnbqkbnr/pppppppp/8/8/8/8/PPPPPPPP/RNBQKBNR w KQkq - 0 1";

/// The piece that starts on a file of a player's home rank.
pub open spec fn home_rank_kind(file: int) -> PieceKind {
    if file == 0 || file == 7 {
        PieceKind::Rook
    } else if file == 1 || file == 6 {
        PieceKind::Knight
    } else if file == 2 || file == 5 {
        PieceKind::Bishop
    } else if file == 3 {
        PieceKind::Queen
    } else {
        PieceKind::King
    }
}

/// What stands on a square when the game begins.
pub open spec fn start_square(sq: int) -> Square {
    let rank = rank_of(sq);
    if rank == 0 {
        Some(Piece { side: Side::White, kind: home_rank_kind(file_of(sq)) })
    } else if rank == 1 {
        Some(Piece { side: Side::White, kind: PieceKind::Pawn })
    } else if rank == 6 {
        Some(Piece { side: Side::Black, kind: PieceKind::Pawn })
    } else if rank == 7 {
        Some(Piece { side: Side::Black, kind: home_rank_kind(file_of(sq)) })
    } else {
        None
    }
}

/// The position in which every game begins: White to move, all castling
/// rights, no en-passant target, move one.
pub open spec fn start_position() -> PositionView {
    PositionView {
        squares: Seq::new(64, |i: int| start_square(i)),
        side_to_move: Side::White,
        castling: Castling {
            white_king_side: true,
            white_queen_side: true,
            black_king_side: true,
            black_queen_side: true,
        },
        en_passant: None,
        halfmove_clock: 0,
        fullmove_number: 1,
    }
}

proof fn lemma_start_ranks()
    ensures
        rank_text(start_position().squares, 7) == seq!['r', 'n', 'b', 'q', 'k', 'b', 'n', 'r'],
        rank_text(start_position().squares, 6) == seq!['p', 'p', 'p', 'p', 'p', 'p', 'p', 'p'],
        rank_text(start_position().squares, 5) == seq!['8'],
        rank_text(start_position().squares, 4) == seq!['8'],
        rank_text(start_position().squares, 3) == seq!['8'],
        rank_text(start_position().squares, 2) == seq!['8'],
        rank_text(start_position().squares, 1) == seq!['P', 'P', 'P', 'P', 'P', 'P', 'P', 'P'],
        rank_text(start_position().squares, 0) == seq!['R', 'N', 'B', 'Q', 'K', 'B', 'N', 'R'],
{
    reveal_with_fuel(rank_text_from, 10);
    let sq = start_position().squares;
    assert(rank_text(sq, 7) =~= seq!['r', 'n', 'b', 'q', 'k', 'b', 'n', 'r']);
    assert(rank_text(sq, 6) =~= seq!['p', 'p', 'p', 'p', 'p', 'p', 'p', 'p']);
    assert(rank_text(sq, 5) =~= seq!['8']);
    assert(rank_text(sq, 4) =~= seq!['8']);
    assert(rank_text(sq, 3) =~= seq!['8']);
    assert(rank_text(sq, 2) =~= seq!['8']);
    assert(rank_text(sq, 1) =~= seq!['P', 'P', 'P', 'P', 'P', 'P', 'P', 'P']);
    assert(rank_text(sq, 0) =~= seq!['R', 'N', 'B', 'Q', 'K', 'B', 'N', 'R']);
}

/// The record of the initial position is the well-known one.
pub proof fn lemma_start_fen()
    ensures
        fen_of(start_position()) == START_POS_FEN@,
        start_position().valid(),
{
    lemma_start_ranks();
    reveal_with_fuel(placement_from, 9);
    reveal_strlit("rnbqkbnr/pppppppp/8/8/8/8/PPPPPPPP/RNBQKBNR w KQkq - 0 1");
    let p = start_position();
    assert(placement_text(p.squares) =~= "rnbqkbnr/pppppppp/8/8/8/8/PPPPPPPP/RNBQKBNR w KQkq - 0 1"@.take(
        43,
    ));
    assert(castling_text(p.castling) =~= seq!['K', 'Q', 'k', 'q']);
    assert(fen_of(p) =~= START_POS_FEN@);
}

impl Position {
    /// The standard initial position.
    pub fn new() -> (p: Position)
        ensures
            p@ == start_position(),
            fen_of(p@) == START_POS_FEN@,
    {
        let mut p = Position::from_parts(
            [None;64],
            Side::White,
            Castling {
                white_king_side: false,
                white_queen_side: false,
                black_king_side: false,
                black_queen_side: false,
            },
            None,
            0,
            1,
        );
        proof {
            lemma_start_fen();
            lemma_fen_round_trip(start_position());
        }
        let _ = p.set_position(START_POS_FEN);
        p
    }
}

} // verus!
