//! What writing and reading a record have to do with each other: a valid
//! position is read back from its own record.

use vstd::prelude::*;
use crate::fen::{
    ParseError, castling_letter, castling_of, castling_text, clock_of, empty_run, en_passant_of,
    en_passant_text, fen_of, no_castling, parse_fen, placement, placement_from, placement_text,
    rank_text, rank_text_from, right_text, scan_placement, side_of, side_text,
};
use crate::position::{Castling, PositionView, empty_squares};
use crate::text::{
    decimal, digit_char, fields, lemma_decimal_plain, lemma_decimal_round_trip, lemma_fields_cons,
    lemma_fields_single, space_free,
};
use crate::types::{
    Piece, Side, Square, char_piece, file_of, lemma_piece_char_round_trip,
    lemma_square_name_round_trip, piece_char, rank_of, square_at, square_name,
};

verus! {

/// The part of a board that has been read when the cursor stands on the given
/// rank and file: the ranks above in full and the files before on that rank;
/// the other squares are empty.
pub open spec fn read_so_far(squares: Seq<Square>, rank: int, file: int) -> Seq<Square> {
    Seq::new(
        64,
        |i: int|
            if rank_of(i) > rank || (rank_of(i) == rank && file_of(i) < file) {
                squares[i]
            } else {
                None
            },
    )
}

proof fn lemma_scan_digit(run: int, tail: Seq<char>, rank: int, file: int, acc: Seq<Square>)
    requires
        1 <= run <= 8,
        file + run <= 8,
    ensures
        scan_placement(seq![digit_char(run)] + tail, rank, file, acc) == scan_placement(
            tail,
            rank,
            file + run,
            acc,
        ),
{
    let s = seq![digit_char(run)] + tail;
    assert(s[0] == digit_char(run));
    assert(s.drop_first() =~= tail);
    assert(empty_run(s[0]) == Some(run));
}

proof fn lemma_scan_piece(p: Piece, tail: Seq<char>, rank: int, file: int, acc: Seq<Square>)
    requires
        file < 8,
    ensures
        scan_placement(seq![piece_char(p)] + tail, rank, file, acc) == scan_placement(
            tail,
            rank,
            file + 1,
            acc.update(square_at(file, rank), Some(p)),
        ),
{
    let s = seq![piece_char(p)] + tail;
    assert(s[0] == piece_char(p));
    assert(s.drop_first() =~= tail);
    lemma_piece_char_round_trip(p);
    assert(empty_run(s[0]) is None);
}

proof fn lemma_scan_slash(tail: Seq<char>, rank: int, acc: Seq<Square>)
    requires
        rank != 0,
    ensures
        scan_placement(seq!['/'] + tail, rank, 8, acc) == scan_placement(tail, rank - 1, 0, acc),
{
    let s = seq!['/'] + tail;
    assert(s[0] == '/');
    assert(s.drop_first() =~= tail);
}

proof fn lemma_read_run(squares: Seq<Square>, rank: int, file: int, run: int)
    requires
        squares.len() == 64,
        0 <= rank < 8,
        0 <= run <= file <= 8,
        forall|k: int| file - run <= k < file ==> (#[trigger] squares[square_at(k, rank)]) is None,
    ensures
        read_so_far(squares, rank, file - run) == read_so_far(squares, rank, file),
{
    let a = read_so_far(squares, rank, file - run);
    let b = read_so_far(squares, rank, file);
    assert forall|i: int| 0 <= i < 64 implies a[i] == b[i] by {
        if rank_of(i) == rank && file - run <= file_of(i) < file {
            assert(i == square_at(file_of(i), rank));
            assert(squares[square_at(file_of(i), rank)] is None);
        }
    }
    assert(a =~= b);
}

/// Reading the text of the rest of a rank moves the cursor to the end of that
/// rank and takes in the pieces that stand there.
proof fn lemma_scan_rank(squares: Seq<Square>, rank: int, file: int, run: int, rest: Seq<char>)
    requires
        squares.len() == 64,
        0 <= rank < 8,
        0 <= run <= file <= 8,
        forall|k: int| file - run <= k < file ==> (#[trigger] squares[square_at(k, rank)]) is None,
    ensures
        scan_placement(
            rank_text_from(squares, rank, file, run) + rest,
            rank,
            file - run,
            read_so_far(squares, rank, file),
        ) == scan_placement(rest, rank, 8, read_so_far(squares, rank, 8)),
    decreases 8 - file,
{
    let text = rank_text_from(squares, rank, file, run);
    let acc = read_so_far(squares, rank, file);
    if file >= 8 {
        if run > 0 {
            lemma_scan_digit(run, rest, rank, file - run, acc);
        } else {
            assert(text + rest =~= rest);
        }
    } else {
        match squares[square_at(file, rank)] {
            None => {
                lemma_scan_rank(squares, rank, file + 1, run + 1, rest);
                lemma_read_run(squares, rank, file + 1, 1);
            },
            Some(p) => {
                let tail = rank_text_from(squares, rank, file + 1, 0);
                let after = seq![piece_char(p)] + (tail + rest);
                if run > 0 {
                    assert(text + rest =~= seq![digit_char(run)] + after);
                    lemma_scan_digit(run, after, rank, file - run, acc);
                } else {
                    assert(text + rest =~= after);
                }
                lemma_scan_piece(p, tail + rest, rank, file, acc);
                assert(acc.update(square_at(file, rank), Some(p)) =~= read_so_far(
                    squares,
                    rank,
                    file + 1,
                ));
                lemma_scan_rank(squares, rank, file + 1, 0, rest);
            },
        }
    }
}

/// Reading the text of the ranks from `rank` down gives the whole board.
proof fn lemma_scan_ranks(squares: Seq<Square>, rank: int)
    requires
        squares.len() == 64,
        0 <= rank < 8,
    ensures
        scan_placement(placement_from(squares, rank), rank, 0, read_so_far(squares, rank, 0))
            == Ok::<Seq<Square>, ParseError>(squares),
    decreases rank,
{
    if rank == 0 {
        lemma_scan_rank(squares, 0, 0, 0, Seq::empty());
        assert(rank_text(squares, 0) + Seq::<char>::empty() =~= placement_from(squares, 0));
        assert(read_so_far(squares, 0, 8) =~= squares);
    } else {
        let below = placement_from(squares, rank - 1);
        let rest = seq!['/'] + below;
        lemma_scan_rank(squares, rank, 0, 0, rest);
        assert(rank_text(squares, rank) + rest =~= placement_from(squares, rank));
        lemma_scan_slash(below, rank, read_so_far(squares, rank, 8));
        assert(read_so_far(squares, rank, 8) =~= read_so_far(squares, rank - 1, 0));
        lemma_scan_ranks(squares, rank - 1);
    }
}

/// A board is read back from its placement field.
pub proof fn lemma_placement_round_trip(squares: Seq<Square>)
    requires
        squares.len() == 64,
    ensures
        placement(placement_text(squares)) == Ok::<Seq<Square>, ParseError>(squares),
{
    lemma_scan_ranks(squares, 7);
    assert(empty_squares() =~= read_so_far(squares, 7, 0));
}

proof fn lemma_rank_text_plain(squares: Seq<Square>, rank: int, file: int, run: int)
    requires
        0 <= file <= 8,
        0 <= run,
    ensures
        space_free(rank_text_from(squares, rank, file, run)),
        file < 8 || run > 0 ==> rank_text_from(squares, rank, file, run).len() > 0,
    decreases 8 - file,
{
    if file < 8 {
        lemma_rank_text_plain(squares, rank, file + 1, run + 1);
        lemma_rank_text_plain(squares, rank, file + 1, 0);
    }
}

proof fn lemma_placement_plain(squares: Seq<Square>, rank: int)
    requires
        0 <= rank < 8,
    ensures
        space_free(placement_from(squares, rank)),
        placement_from(squares, rank).len() > 0,
    decreases rank,
{
    lemma_rank_text_plain(squares, rank, 0, 0);
    if rank > 0 {
        lemma_placement_plain(squares, rank - 1);
    }
}

/// The side to move is read back from its field.
pub proof fn lemma_side_round_trip(side: Side)
    ensures
        side_of(side_text(side)) == Some(side),
{
    assert(seq!['b'][0] == 'b');
    assert(seq!['w'][0] == 'w');
}

proof fn lemma_contains_concat(a: Seq<char>, b: Seq<char>, x: char)
    ensures
        (a + b).contains(x) == (a.contains(x) || b.contains(x)),
{
    let s = a + b;
    if a.contains(x) {
        let k = choose|k: int| 0 <= k < a.len() && a[k] == x;
        assert(s[k] == x);
    }
    if b.contains(x) {
        let k = choose|k: int| 0 <= k < b.len() && b[k] == x;
        assert(s[a.len() + k] == x);
    }
    if s.contains(x) {
        let k = choose|k: int| 0 <= k < s.len() && s[k] == x;
        if k < a.len() {
            assert(a[k] == x);
        } else {
            assert(b[k - a.len()] == x);
        }
    }
}

proof fn lemma_right_text(held: bool, letter: char, x: char)
    ensures
        right_text(held, letter).contains(x) == (held && x == letter),
{
    if held {
        assert(seq![letter][0] == letter);
    }
}

proof fn lemma_castling_contains(c: Castling, x: char)
    requires
        c != no_castling(),
    ensures
        castling_text(c).contains(x) == ((c.white_king_side && x == 'K') || (c.white_queen_side
            && x == 'Q') || (c.black_king_side && x == 'k') || (c.black_queen_side && x == 'q')),
{
    let k = right_text(c.white_king_side, 'K');
    let q = right_text(c.white_queen_side, 'Q');
    let bk = right_text(c.black_king_side, 'k');
    let bq = right_text(c.black_queen_side, 'q');
    lemma_right_text(c.white_king_side, 'K', x);
    lemma_right_text(c.white_queen_side, 'Q', x);
    lemma_right_text(c.black_king_side, 'k', x);
    lemma_right_text(c.black_queen_side, 'q', x);
    lemma_contains_concat(k, q, x);
    lemma_contains_concat(k + q, bk, x);
    lemma_contains_concat(k + q + bk, bq, x);
}

/// Castling rights are read back from their field.
pub proof fn lemma_castling_round_trip(c: Castling)
    ensures
        castling_of(castling_text(c)) == Some(c),
        castling_text(c).len() > 0,
        space_free(castling_text(c)),
{
    let s = castling_text(c);
    if c != no_castling() {
        assert forall|i: int| 0 <= i < s.len() implies castling_letter(#[trigger] s[i]) by {
            lemma_castling_contains(c, s[i]);
            assert(s.contains(s[i]));
        }
        assert(s.len() > 0);
        assert(s != seq!['-']) by {
            if s == seq!['-'] {
                assert(seq!['-'][0] == '-');
                assert(castling_letter(s[0]));
            }
        }
        lemma_castling_contains(c, 'K');
        lemma_castling_contains(c, 'Q');
        lemma_castling_contains(c, 'k');
        lemma_castling_contains(c, 'q');
    }
}

/// An en-passant target on the rank that fits the side to move is read back
/// from its field.
pub proof fn lemma_en_passant_round_trip(ep: Option<int>, side: Side)
    requires
        ep matches Some(e) ==> 0 <= e < 64 && rank_of(e) == crate::position::en_passant_rank(side),
    ensures
        en_passant_of(en_passant_text(ep), side) == Some(ep),
        en_passant_text(ep).len() > 0,
        space_free(en_passant_text(ep)),
{
    match ep {
        Some(e) => {
            lemma_square_name_round_trip(e);
            let s = square_name(e);
            assert(s.len() == 2);
            assert(s != seq!['-']) by {
                if s == seq!['-'] {
                    assert(seq!['-'].len() == 1);
                }
            }
        },
        None => {},
    }
}

/// A counter that fits 32 bits is read back from its field.
pub proof fn lemma_clock_round_trip(n: nat)
    requires
        n <= u32::MAX,
    ensures
        clock_of(decimal(n)) == Some(n),
{
    lemma_decimal_round_trip(n);
}

/// Six fields with one space between them are read as those six fields.
proof fn lemma_six_fields(
    f0: Seq<char>,
    f1: Seq<char>,
    f2: Seq<char>,
    f3: Seq<char>,
    f4: Seq<char>,
    f5: Seq<char>,
)
    requires
        f0.len() > 0 && space_free(f0),
        f1.len() > 0 && space_free(f1),
        f2.len() > 0 && space_free(f2),
        f3.len() > 0 && space_free(f3),
        f4.len() > 0 && space_free(f4),
        f5.len() > 0 && space_free(f5),
    ensures
        fields(
            f0 + seq![' '] + f1 + seq![' '] + f2 + seq![' '] + f3 + seq![' '] + f4 + seq![' '] + f5,
        ) == seq![f0, f1, f2, f3, f4, f5],
{
    let sp = seq![' '];
    let r4 = f4 + sp + f5;
    let r3 = f3 + sp + r4;
    let r2 = f2 + sp + r3;
    let r1 = f1 + sp + r2;
    let all = f0 + sp + f1 + sp + f2 + sp + f3 + sp + f4 + sp + f5;
    assert(all =~= f0 + sp + r1);
    assert(fields(f5) == seq![f5]) by {
        lemma_fields_single(f5);
    }
    assert(fields(r4) == seq![f4] + fields(f5)) by {
        lemma_fields_cons(f4, f5);
    }
    assert(fields(r3) == seq![f3] + fields(r4)) by {
        lemma_fields_cons(f3, r4);
    }
    assert(fields(r2) == seq![f2] + fields(r3)) by {
        lemma_fields_cons(f2, r3);
    }
    assert(fields(r1) == seq![f1] + fields(r2)) by {
        lemma_fields_cons(f1, r2);
    }
    assert(fields(f0 + sp + r1) == seq![f0] + fields(r1)) by {
        lemma_fields_cons(f0, r1);
    }
    assert(seq![f0] + (seq![f1] + (seq![f2] + (seq![f3] + (seq![f4] + seq![f5])))) =~= seq![
        f0,
        f1,
        f2,
        f3,
        f4,
        f5,
    ]);
}

/// The record of a position has exactly its six fields.
pub proof fn lemma_fen_fields(p: PositionView)
    requires
        p.valid(),
    ensures
        fields(fen_of(p)) == seq![
            placement_text(p.squares),
            side_text(p.side_to_move),
            castling_text(p.castling),
            en_passant_text(p.en_passant),
            decimal(p.halfmove_clock),
            decimal(p.fullmove_number),
        ],
{
    let f0 = placement_text(p.squares);
    let f1 = side_text(p.side_to_move);
    let f2 = castling_text(p.castling);
    let f3 = en_passant_text(p.en_passant);
    let f4 = decimal(p.halfmove_clock);
    let f5 = decimal(p.fullmove_number);
    assert(f0.len() > 0 && space_free(f0)) by {
        lemma_placement_plain(p.squares, 7);
    }
    assert(f1.len() > 0 && space_free(f1));
    assert(f2.len() > 0 && space_free(f2)) by {
        lemma_castling_round_trip(p.castling);
    }
    assert(f3.len() > 0 && space_free(f3)) by {
        lemma_en_passant_round_trip(p.en_passant, p.side_to_move);
    }
    assert(f4.len() > 0 && space_free(f4)) by {
        lemma_decimal_plain(p.halfmove_clock);
    }
    assert(f5.len() > 0 && space_free(f5)) by {
        lemma_decimal_plain(p.fullmove_number);
    }
    lemma_six_fields(f0, f1, f2, f3, f4, f5);
}

/// Round trip: the record of a valid position describes that position, and
/// no other.
pub proof fn lemma_fen_round_trip(p: PositionView)
    requires
        p.valid(),
    ensures
        parse_fen(fen_of(p)) == Ok::<PositionView, ParseError>(p),
{
    lemma_fen_fields(p);
    lemma_placement_round_trip(p.squares);
    lemma_side_round_trip(p.side_to_move);
    lemma_castling_round_trip(p.castling);
    lemma_en_passant_round_trip(p.en_passant, p.side_to_move);
    lemma_clock_round_trip(p.halfmove_clock);
    lemma_clock_round_trip(p.fullmove_number);
    let f = fields(fen_of(p));
    assert(f.len() == 6);
    assert(f[0] == placement_text(p.squares));
    assert(f[1] == side_text(p.side_to_move));
    assert(f[2] == castling_text(p.castling));
    assert(f[3] == en_passant_text(p.en_passant));
    assert(f[4] == decimal(p.halfmove_clock));
    assert(f[5] == decimal(p.fullmove_number));
}

proof fn lemma_scan_keeps_board(s: Seq<char>, rank: int, file: int, acc: Seq<Square>)
    requires
        acc.len() == 64,
        0 <= rank < 8,
        0 <= file <= 8,
    ensures
        scan_placement(s, rank, file, acc) matches Ok(squares) ==> squares.len() == 64,
    decreases s.len(),
{
    if s.len() > 0 {
        let rest = s.drop_first();
        if s[0] == '/' {
            if file == 8 && rank != 0 {
                lemma_scan_keeps_board(rest, rank - 1, 0, acc);
            }
        } else if let Some(n) = empty_run(s[0]) {
            if file + n <= 8 {
                lemma_scan_keeps_board(rest, rank, file + n, acc);
            }
        } else if let Some(p) = char_piece(s[0]) {
            if file < 8 {
                lemma_scan_keeps_board(
                    rest,
                    rank,
                    file + 1,
                    acc.update(square_at(file, rank), Some(p)),
                );
            }
        }
    }
}

/// Every record that is read describes a valid position.
pub proof fn lemma_parsed_is_valid(s: Seq<char>)
    ensures
        parse_fen(s) matches Ok(p) ==> p.valid(),
{
    let f = fields(s);
    if f.len() >= 2 {
        lemma_scan_keeps_board(f[0], 7, 0, empty_squares());
    }
}

/// Writing the record, reading it and writing it again gives the same text.
pub proof fn lemma_fen_stable(p: PositionView)
    requires
        p.valid(),
    ensures
        parse_fen(fen_of(p)) matches Ok(q) && fen_of(q) == fen_of(p),
{
    lemma_fen_round_trip(p);
}

} // verus!
