use chess_engine::text::{
    digit_of, digit_to_char, is_space_char, parse_decimal, push_decimal, same_chars,
    split_fields, to_chars,
};
use chess_engine::types::{
    file_to_char, piece_from_char, piece_to_char, rank_to_char, square_from_chars, Piece,
    PieceKind, Side,
};

fn chars(s: &str) -> Vec<char> {
    s.chars().collect()
}

fn words(s: &str) -> Vec<String> {
    split_fields(&chars(s)).iter().map(|w| w.iter().collect()).collect()
}

#[test]
fn strings_and_their_characters() {
    assert_eq!(to_chars(""), Vec::<char>::new());
    assert_eq!(to_chars("a1 \u{e9}"), vec!['a', '1', ' ', '\u{e9}']);
    assert!(same_chars(&chars("abc"), &chars("abc")));
    assert!(!same_chars(&chars("abc"), &chars("abd")));
    assert!(!same_chars(&chars("abc"), &chars("ab")));
    assert!(same_chars(&chars(""), &chars("")));
}

#[test]
fn lines_are_split_at_whitespace() {
    assert_eq!(words(""), Vec::<String>::new());
    assert_eq!(words(" \t\r\n"), Vec::<String>::new());
    assert_eq!(words("go"), vec!["go"]);
    assert_eq!(words("  position   startpos\tmoves e2e4\n"), vec!["position", "startpos", "moves", "e2e4"]);
    assert_eq!(words("a b"), vec!["a", "b"]);
    assert_eq!(words("a\u{a0}b"), vec!["a", "b"]);
    assert_eq!(words("a\u{c}b"), vec!["a", "b"]);
    assert_eq!(words("a\u{b}b\u{85}c\u{1680}d\u{2028}e\u{2029}f\u{202f}g\u{205f}h\u{3000}i"), vec!["a", "b", "c", "d", "e", "f", "g", "h", "i"]);
    assert_eq!(words("a\u{200b}b\u{feff}c\u{180e}d"), vec!["a\u{200b}b\u{feff}c\u{180e}d"]);
    assert!(is_space_char('\u{c}'));
    assert!(is_space_char('\u{b}'));
    assert!(is_space_char('\u{a0}'));
    assert!(!is_space_char('\u{8}'));
    assert!(!is_space_char('\u{e}'));
    assert!(!is_space_char('\u{1fff}'));
    assert!(!is_space_char('\u{200b}'));
    assert!(is_space_char(' '));
    assert!(is_space_char('\t'));
    assert!(is_space_char('\n'));
    assert!(is_space_char('\r'));
    assert!(!is_space_char('_'));
}

#[test]
fn decimal_numbers_are_read() {
    assert_eq!(parse_decimal(&chars("0")), Some(0));
    assert_eq!(parse_decimal(&chars("7")), Some(7));
    assert_eq!(parse_decimal(&chars("0042")), Some(42));
    assert_eq!(parse_decimal(&chars("18446744073709551615")), Some(u64::MAX));
    assert_eq!(parse_decimal(&chars("18446744073709551616")), None);
    assert_eq!(parse_decimal(&chars("184467440737095516150")), None);
    assert_eq!(parse_decimal(&chars("99999999999999999999")), None);
    assert_eq!(parse_decimal(&chars("")), None);
    assert_eq!(parse_decimal(&chars("-1")), None);
    assert_eq!(parse_decimal(&chars("+1")), None);
    assert_eq!(parse_decimal(&chars("12a")), None);
    assert_eq!(parse_decimal(&chars("1 2")), None);
    assert_eq!(parse_decimal(&chars("99999999999999999999x")), None);
}

#[test]
fn decimal_numbers_are_written() {
    for (n, text) in [(0u64, "0"), (9, "9"), (10, "10"), (1024, "1024"), (u64::MAX, "18446744073709551615")] {
        let mut s = String::from("n=");
        push_decimal(&mut s, n);
        assert_eq!(s, format!("n={}", text));
        assert_eq!(parse_decimal(&chars(text)), Some(n));
    }
}

#[test]
fn digits() {
    assert_eq!(digit_of('0'), Some(0));
    assert_eq!(digit_of('9'), Some(9));
    assert_eq!(digit_of('a'), None);
    assert_eq!(digit_of('\u{663}'), None);
    for d in 0..10u8 {
        assert_eq!(digit_of(digit_to_char(d)), Some(d));
    }
    assert_eq!(digit_to_char(7), '7');
}

#[test]
fn pieces_and_their_letters() {
    let letters = "PNBRQKpnbrqk";
    for c in letters.chars() {
        let p = match piece_from_char(c) {
            Some(p) => p,
            None => panic!("{}", c),
        };
        assert_eq!(piece_to_char(p), c);
        assert_eq!(p.side == Side::White, c.is_ascii_uppercase());
    }
    assert_eq!(piece_from_char('Q'), Some(Piece { side: Side::White, kind: PieceKind::Queen }));
    assert_eq!(piece_from_char('n'), Some(Piece { side: Side::Black, kind: PieceKind::Knight }));
    assert_eq!(piece_from_char('x'), None);
    assert_eq!(piece_from_char('1'), None);
    assert_eq!(piece_from_char('/'), None);
    assert_eq!(Side::White.opponent(), Side::Black);
    assert_eq!(Side::Black.opponent(), Side::White);
}

#[test]
fn squares_and_their_names() {
    assert_eq!(square_from_chars('a', '1'), Some(0));
    assert_eq!(square_from_chars('h', '1'), Some(7));
    assert_eq!(square_from_chars('a', '8'), Some(56));
    assert_eq!(square_from_chars('h', '8'), Some(63));
    assert_eq!(square_from_chars('e', '4'), Some(28));
    assert_eq!(square_from_chars('i', '4'), None);
    assert_eq!(square_from_chars('e', '0'), None);
    assert_eq!(square_from_chars('e', '9'), None);
    assert_eq!(square_from_chars('E', '4'), None);
    for sq in 0..64u8 {
        assert_eq!(square_from_chars(file_to_char(sq % 8), rank_to_char(sq / 8)), Some(sq));
    }
}

#[test]
fn separators_are_the_whitespace_of_the_standard_library() {
    let mut count: u32 = 0;
    for code in 0..=0x10ffffu32 {
        if let Some(c) = char::from_u32(code) {
            assert_eq!(is_space_char(c), c.is_whitespace(), "U+{:04X}", code);
            if c.is_whitespace() {
                count += 1;
            }
        }
    }
    assert_eq!(count, 25);
}

#[test]
fn lines_are_split_as_the_standard_library_splits_them() {
    for line in [
        "",
        " a  b ",
        "position\u{c}fen\u{a0}8/8\tw",
        "\u{2000}x\u{200a}\u{200b}y\u{3000}",
        "go depth\u{85}3\r\n",
    ] {
        let expected: Vec<String> = line.split_whitespace().map(String::from).collect();
        assert_eq!(words(line), expected);
    }
}
