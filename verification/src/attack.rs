//! Which squares a piece attacks, and whether a king stands in check.

use vstd::prelude::*;
use crate::types::{Piece, PieceKind, Side, Square, file_of, rank_of};

verus! {

/// The distance between two numbers.
pub open spec fn gap(a: int, b: int) -> int {
    if a <= b {
        b - a
    } else {
        a - b
    }
}

/// How many files lie between the files of two squares.
pub open spec fn file_gap(a: int, b: int) -> int {
    gap(file_of(a), file_of(b))
}

/// How many ranks lie between the ranks of two squares.
pub open spec fn rank_gap(a: int, b: int) -> int {
    gap(rank_of(a), rank_of(b))
}

/// The direction in which the pawns of a side move: up the ranks for White,
/// down for Black.
pub open spec fn forward(side: Side) -> int {
    match side {
        Side::White => 1,
        Side::Black => -1,
    }
}

/// Two different squares on one file or one rank.
pub open spec fn on_straight_line(a: int, b: int) -> bool {
    a != b && (file_of(a) == file_of(b) || rank_of(a) == rank_of(b))
}

/// Two different squares on one diagonal.
pub open spec fn on_diagonal(a: int, b: int) -> bool {
    a != b && file_gap(a, b) == rank_gap(a, b)
}

/// `x` lies strictly between `a` and `b`.
pub open spec fn strictly_between(a: int, x: int, b: int) -> bool {
    (a < x && x < b) || (b < x && x < a)
}

/// The square on file `fs` and rank `rs` lies strictly between the squares
/// (`fa`, `ra`) and (`fb`, `rb`) on the file, rank or diagonal that joins
/// them.
pub open spec fn between_at(fa: int, ra: int, fb: int, rb: int, fs: int, rs: int) -> bool {
    ||| (fa == fb && fs == fa && strictly_between(ra, rs, rb))
    ||| (ra == rb && rs == ra && strictly_between(fa, fs, fb))
    ||| (fb - fa == rb - ra && fs - fa == rs - ra && strictly_between(fa, fs, fb))
    ||| (fb - fa == ra - rb && fs - fa == ra - rs && strictly_between(fa, fs, fb))
}

/// Square `s` lies strictly between squares `a` and `b` on the line that
/// joins them.
pub open spec fn between(a: int, b: int, s: int) -> bool {
    between_at(file_of(a), rank_of(a), file_of(b), rank_of(b), file_of(s), rank_of(s))
}

/// Every square strictly between `a` and `b` is empty.
pub open spec fn clear_between(squares: Seq<Square>, a: int, b: int) -> bool {
    forall|s: int| 0 <= s < 64 && between(a, b, s) ==> (#[trigger] squares[s]) is None
}

/// The piece on `from`, if there is one, attacks the square `to`: it could
/// capture there by the rule of its kind, whatever stands on `to`.
pub open spec fn attacks(squares: Seq<Square>, from: int, to: int) -> bool {
    from != to && match squares[from] {
        None => false,
        Some(p) => match p.kind {
            PieceKind::Pawn => file_gap(from, to) == 1 && rank_of(to) - rank_of(from) == forward(
                p.side,
            ),
            PieceKind::Knight => (file_gap(from, to) == 1 && rank_gap(from, to) == 2) || (file_gap(
                from,
                to,
            ) == 2 && rank_gap(from, to) == 1),
            PieceKind::Bishop => on_diagonal(from, to) && clear_between(squares, from, to),
            PieceKind::Rook => on_straight_line(from, to) && clear_between(squares, from, to),
            PieceKind::Queen => (on_diagonal(from, to) || on_straight_line(from, to))
                && clear_between(squares, from, to),
            PieceKind::King => file_gap(from, to) <= 1 && rank_gap(from, to) <= 1,
        },
    }
}

/// A piece of side `by` stands on `from` and attacks `target`.
pub open spec fn attacks_for(squares: Seq<Square>, from: int, target: int, by: Side) -> bool {
    (squares[from] matches Some(p) && p.side == by) && attacks(squares, from, target)
}

/// Some piece of side `by` attacks the square `target`.
pub open spec fn attacked(squares: Seq<Square>, target: int, by: Side) -> bool {
    exists|from: int| 0 <= from < 64 && #[trigger] attacks_for(squares, from, target, by)
}

/// The king of `side` stands on `sq` and is attacked.
pub open spec fn king_attacked_on(squares: Seq<Square>, sq: int, side: Side) -> bool {
    squares[sq] == Some(Piece { side, kind: PieceKind::King }) && attacked(
        squares,
        sq,
        side.other(),
    )
}

/// A king of `side` is attacked by a piece of the other side.
pub open spec fn in_check(squares: Seq<Square>, side: Side) -> bool {
    exists|sq: int| 0 <= sq < 64 && #[trigger] king_attacked_on(squares, sq, side)
}

/// Whether every square strictly between two squares is empty. Two squares
/// that share no file, rank or diagonal, and a square with itself, have
/// nothing between them.
pub fn path_clear(board: &[Square; 64], from: u8, to: u8) -> (r: bool)
    requires
        from < 64,
        to < 64,
    ensures
        r == clear_between(board@, from as int, to as int),
{
    let ff: i8 = (from % 8) as i8;
    let rf: i8 = (from / 8) as i8;
    let ft: i8 = (to % 8) as i8;
    let rt: i8 = (to / 8) as i8;
    let same_line = ff == ft || rf == rt || ft - ff == rt - rf || ft - ff == rf - rt;
    if from == to || !same_line {
        return true;
    }
    let sf: i8 = if ft > ff {
        1
    } else if ft < ff {
        -1
    } else {
        0
    };
    let sr: i8 = if rt > rf {
        1
    } else if rt < rf {
        -1
    } else {
        0
    };
    let mut cf: i8 = ff + sf;
    let mut cr: i8 = rf + sr;
    while cf != ft || cr != rt
        invariant
            from < 64,
            to < 64,
            ff == file_of(from as int),
            rf == rank_of(from as int),
            ft == file_of(to as int),
            rt == rank_of(to as int),
            on_straight_line(from as int, to as int) || on_diagonal(from as int, to as int),
            sf == (if ft > ff {
                1int
            } else if ft < ff {
                -1
            } else {
                0
            }),
            sr == (if rt > rf {
                1int
            } else if rt < rf {
                -1
            } else {
                0
            }),
            0 <= cf < 8,
            0 <= cr < 8,
            (cf == ft && cr == rt) || between_at(
                ff as int,
                rf as int,
                ft as int,
                rt as int,
                cf as int,
                cr as int,
            ),
            forall|s: int|
                0 <= s < 64 && between_at(
                    ff as int,
                    rf as int,
                    cf as int,
                    cr as int,
                    file_of(s),
                    rank_of(s),
                ) ==> (#[trigger] board@[s]) is None,
        decreases gap(cf as int, ft as int) + gap(cr as int, rt as int),
    {
        let here: usize = (cr as usize) * 8 + (cf as usize);
        assert(file_of(here as int) == cf && rank_of(here as int) == cr);
        if board[here].is_some() {
            assert(between(from as int, to as int, here as int));
            return false;
        }
        let ghost pf = cf as int;
        let ghost pr = cr as int;
        cf = cf + sf;
        cr = cr + sr;
        assert forall|s: int|
            0 <= s < 64 && between_at(
                ff as int,
                rf as int,
                cf as int,
                cr as int,
                file_of(s),
                rank_of(s),
            ) implies (#[trigger] board@[s]) is None by {
            if file_of(s) == pf && rank_of(s) == pr {
                assert(s == here);
            } else {
                assert(between_at(ff as int, rf as int, pf, pr, file_of(s), rank_of(s)));
            }
        }
    }
    true
}

/// Whether the piece on `from` attacks the square `to`.
pub fn piece_attacks(board: &[Square; 64], from: u8, to: u8) -> (r: bool)
    requires
        from < 64,
        to < 64,
    ensures
        r == attacks(board@, from as int, to as int),
{
    if from == to {
        return false;
    }
    let p = match board[from as usize] {
        None => {
            return false;
        },
        Some(p) => p,
    };
    let ff: i8 = (from % 8) as i8;
    let rf: i8 = (from / 8) as i8;
    let ft: i8 = (to % 8) as i8;
    let rt: i8 = (to / 8) as i8;
    let df: i8 = if ft >= ff {
        ft - ff
    } else {
        ff - ft
    };
    let dr: i8 = if rt >= rf {
        rt - rf
    } else {
        rf - rt
    };
    assert(df == file_gap(from as int, to as int));
    assert(dr == rank_gap(from as int, to as int));
    assert(df != 0 || dr != 0);
    match p.kind {
        PieceKind::Pawn => {
            let step: i8 = match p.side {
                Side::White => 1,
                Side::Black => -1,
            };
            df == 1 && rt - rf == step
        },
        PieceKind::Knight => (df == 1 && dr == 2) || (df == 2 && dr == 1),
        PieceKind::Bishop => df == dr && path_clear(board, from, to),
        PieceKind::Rook => (df == 0 || dr == 0) && path_clear(board, from, to),
        PieceKind::Queen => (df == dr || df == 0 || dr == 0) && path_clear(board, from, to),
        PieceKind::King => df <= 1 && dr <= 1,
    }
}

/// Whether some piece of side `by` attacks the square `target`.
pub fn is_attacked(board: &[Square; 64], target: u8, by: Side) -> (r: bool)
    requires
        target < 64,
    ensures
        r == attacked(board@, target as int, by),
{
    let mut from: u8 = 0;
    while from < 64
        invariant
            from <= 64,
            target < 64,
            forall|k: int| 0 <= k < from ==> !#[trigger] attacks_for(board@, k, target as int, by),
        decreases 64 - from,
    {
        match board[from as usize] {
            Some(p) => {
                if p.side == by && piece_attacks(board, from, target) {
                    assert(attacks_for(board@, from as int, target as int, by));
                    return true;
                }
            },
            None => {},
        }
        from += 1;
    }
    false
}

/// Whether a king of `side` is attacked.
pub fn is_in_check(board: &[Square; 64], side: Side) -> (r: bool)
    ensures
        r == in_check(board@, side),
{
    let enemy = side.opponent();
    let mut sq: u8 = 0;
    while sq < 64
        invariant
            sq <= 64,
            enemy == side.other(),
            forall|k: int| 0 <= k < sq ==> !#[trigger] king_attacked_on(board@, k, side),
        decreases 64 - sq,
    {
        match board[sq as usize] {
            Some(p) => {
                if p.side == side && p.kind == PieceKind::King && is_attacked(board, sq, enemy) {
                    assert(king_attacked_on(board@, sq as int, side));
                    return true;
                }
            },
            None => {},
        }
        sq += 1;
    }
    false
}

} // verus!
