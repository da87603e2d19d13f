//! Plain text: characters of a string, whitespace-separated fields and
//! decimal numbers.

use vstd::prelude::*;
use vstd::string::*;

verus! {

/// Taken on trust from the standard library, and not proved here:
/// `String::push` appends the character to the end of the string and leaves
/// the characters before it as they were.
pub assume_specification[ String::push ](s: &mut String, c: char)
    ensures
        final(s)@ == old(s)@.push(c),
;

/// The characters of a string, in order.
pub fn to_chars(s: &str) -> (v: Vec<char>)
    ensures
        v@ == s@,
{
    let mut v: Vec<char> = Vec::new();
    for c in it: s.chars()
        invariant
            v@ == it.seq().take(it.index() as int),
            it.seq() == s@,
    {
        v.push(c);
    }
    v
}

/// Whether two runs of characters are the same.
pub fn same_chars(a: &Vec<char>, b: &Vec<char>) -> (r: bool)
    ensures
        r == (a@ == b@),
{
    if a.len() != b.len() {
        return false;
    }
    let mut i: usize = 0;
    while i < a.len()
        invariant
            i <= a.len(),
            a.len() == b.len(),
            a@.take(i as int) == b@.take(i as int),
        decreases a.len() - i,
    {
        if a[i] != b[i] {
            return false;
        }
        assert(a@.take(i + 1) =~= a@.take(i as int).push(a@[i as int]));
        assert(b@.take(i + 1) =~= b@.take(i as int).push(b@[i as int]));
        i += 1;
    }
    assert(a@.take(a.len() as int) =~= a@);
    assert(b@.take(b.len() as int) =~= b@);
    true
}

/// The characters that separate fields: those with the Unicode property
/// `White_Space`, which are the characters that `char::is_whitespace` accepts.
/// They are the controls from tab to carriage return, the space, the next-line
/// control, the no-break space, the Ogham space mark, the spaces from en quad
/// to hair space, the line and paragraph separators, the narrow no-break
/// space, the medium mathematical space and the ideographic space.
pub open spec fn is_space(c: char) -> bool {
    ||| ('\u{9}' <= c && c <= '\u{d}')
    ||| c == ' '
    ||| c == '\u{85}'
    ||| c == '\u{a0}'
    ||| c == '\u{1680}'
    ||| ('\u{2000}' <= c && c <= '\u{200a}')
    ||| c == '\u{2028}'
    ||| c == '\u{2029}'
    ||| c == '\u{202f}'
    ||| c == '\u{205f}'
    ||| c == '\u{3000}'
}

/// Whether a character separates fields.
pub fn is_space_char(c: char) -> (r: bool)
    ensures
        r == is_space(c),
{
    ('\u{9}' <= c && c <= '\u{d}') || c == ' ' || c == '\u{85}' || c == '\u{a0}' || c == '\u{1680}' || (
    '\u{2000}' <= c && c <= '\u{200a}') || c == '\u{2028}' || c == '\u{2029}' || c == '\u{202f}' || c
        == '\u{205f}' || c == '\u{3000}'
}

/// No character of `s` is a separator.
pub open spec fn space_free(s: Seq<char>) -> bool {
    forall|i: int| 0 <= i < s.len() ==> !is_space(#[trigger] s[i])
}

/// A run that has been read, as a field, if it is not empty.
pub open spec fn closed_field(cur: Seq<char>) -> Seq<Seq<char>> {
    if cur.len() > 0 {
        seq![cur]
    } else {
        Seq::empty()
    }
}

/// The fields of `s`, when the characters in `cur` have been read just before
/// it and belong to the field that is being read.
pub open spec fn fields_after(s: Seq<char>, cur: Seq<char>) -> Seq<Seq<char>>
    decreases s.len(),
{
    if s.len() == 0 {
        closed_field(cur)
    } else if is_space(s[0]) {
        closed_field(cur) + fields_after(s.drop_first(), Seq::empty())
    } else {
        fields_after(s.drop_first(), cur.push(s[0]))
    }
}

/// The fields of a line: its maximal runs of characters that are not
/// separators, from left to right.
pub open spec fn fields(s: Seq<char>) -> Seq<Seq<char>> {
    fields_after(s, Seq::empty())
}

/// Characters that are not separators extend the field that is being read.
pub proof fn lemma_fields_after_run(t: Seq<char>, rest: Seq<char>, cur: Seq<char>)
    requires
        space_free(t),
    ensures
        fields_after(t + rest, cur) == fields_after(rest, cur + t),
    decreases t.len(),
{
    if t.len() == 0 {
        assert(t + rest =~= rest);
        assert(cur + t =~= cur);
    } else {
        let s = t + rest;
        assert(s[0] == t[0]);
        assert(s.drop_first() =~= t.drop_first() + rest);
        assert(space_free(t.drop_first())) by {
            assert forall|i: int| 0 <= i < t.drop_first().len() implies !is_space(
                #[trigger] t.drop_first()[i],
            ) by {
                assert(t.drop_first()[i] == t[i + 1]);
            }
        }
        lemma_fields_after_run(t.drop_first(), rest, cur.push(t[0]));
        assert(cur.push(t[0]) + t.drop_first() =~= cur + t);
    }
}

/// A field that stands alone is the only field of its text.
pub proof fn lemma_fields_single(t: Seq<char>)
    requires
        space_free(t),
        t.len() > 0,
    ensures
        fields(t) == seq![t],
{
    lemma_fields_after_run(t, Seq::empty(), Seq::empty());
    assert(t + Seq::<char>::empty() =~= t);
    assert(Seq::<char>::empty() + t =~= t);
}

/// A field, one space and more text: the field comes first, then the fields of
/// the rest.
pub proof fn lemma_fields_cons(t: Seq<char>, rest: Seq<char>)
    requires
        space_free(t),
        t.len() > 0,
    ensures
        fields(t + seq![' '] + rest) == seq![t] + fields(rest),
{
    let tail = seq![' '] + rest;
    assert(t + seq![' '] + rest =~= t + tail);
    lemma_fields_after_run(t, tail, Seq::empty());
    assert(Seq::<char>::empty() + t =~= t);
    assert(tail[0] == ' ');
    assert(tail.drop_first() =~= rest);
}

/// The views of the first `n` runs of `v`.
pub open spec fn views(v: Seq<Vec<char>>) -> Seq<Seq<char>> {
    Seq::new(v.len(), |i: int| v[i]@)
}

/// Splits a line into its fields.
pub fn split_fields(line: &Vec<char>) -> (out: Vec<Vec<char>>)
    ensures
        views(out@) == fields(line@),
{
    let mut out: Vec<Vec<char>> = Vec::new();
    let mut cur: Vec<char> = Vec::new();
    let mut i: usize = 0;
    assert(line@.skip(0) =~= line@);
    assert(views(out@) + fields_after(line@.skip(0), cur@) =~= fields(line@));
    while i < line.len()
        invariant
            i <= line.len(),
            views(out@) + fields_after(line@.skip(i as int), cur@) == fields(line@),
        decreases line.len() - i,
    {
        let c = line[i];
        let ghost rest = line@.skip(i as int);
        let ghost done = views(out@);
        let ghost run = cur@;
        assert(rest[0] == c);
        assert(rest.drop_first() =~= line@.skip(i + 1));
        if is_space_char(c) {
            let ghost tail = fields_after(rest.drop_first(), Seq::empty());
            assert(fields_after(rest, run) == closed_field(run) + tail);
            if cur.len() > 0 {
                out.push(cur);
                cur = Vec::new();
            }
            assert(views(out@) =~= done + closed_field(run));
            assert(views(out@) + tail =~= done + (closed_field(run) + tail));
            assert(cur@ =~= Seq::<char>::empty());
        } else {
            assert(fields_after(rest, run) == fields_after(rest.drop_first(), run.push(c)));
            cur.push(c);
        }
        i += 1;
    }
    let ghost done = views(out@);
    let ghost run = cur@;
    assert(line@.skip(line.len() as int) =~= Seq::<char>::empty());
    assert(fields_after(line@.skip(line.len() as int), run) == closed_field(run));
    if cur.len() > 0 {
        out.push(cur);
    }
    assert(views(out@) =~= done + closed_field(run));
    out
}

/// The character for a digit from 0 to 9.
pub open spec fn digit_char(d: int) -> char {
    if d == 0 {
        '0'
    } else if d == 1 {
        '1'
    } else if d == 2 {
        '2'
    } else if d == 3 {
        '3'
    } else if d == 4 {
        '4'
    } else if d == 5 {
        '5'
    } else if d == 6 {
        '6'
    } else if d == 7 {
        '7'
    } else if d == 8 {
        '8'
    } else {
        '9'
    }
}

/// The digit that a character stands for, if it is one of `0` to `9`.
pub open spec fn digit_value(c: char) -> Option<nat> {
    if c == '0' {
        Some(0)
    } else if c == '1' {
        Some(1)
    } else if c == '2' {
        Some(2)
    } else if c == '3' {
        Some(3)
    } else if c == '4' {
        Some(4)
    } else if c == '5' {
        Some(5)
    } else if c == '6' {
        Some(6)
    } else if c == '7' {
        Some(7)
    } else if c == '8' {
        Some(8)
    } else if c == '9' {
        Some(9)
    } else {
        None
    }
}

/// The character for a digit.
pub fn digit_to_char(d: u8) -> (c: char)
    requires
        d < 10,
    ensures
        c == digit_char(d as int),
{
    match d {
        0 => '0',
        1 => '1',
        2 => '2',
        3 => '3',
        4 => '4',
        5 => '5',
        6 => '6',
        7 => '7',
        8 => '8',
        _ => '9',
    }
}

/// The digit that a character stands for, or `None` for any other character.
pub fn digit_of(c: char) -> (d: Option<u8>)
    ensures
        match d {
            Some(v) => digit_value(c) == Some(v as nat),
            None => digit_value(c) is None,
        },
{
    match c {
        '0' => Some(0),
        '1' => Some(1),
        '2' => Some(2),
        '3' => Some(3),
        '4' => Some(4),
        '5' => Some(5),
        '6' => Some(6),
        '7' => Some(7),
        '8' => Some(8),
        '9' => Some(9),
        _ => None,
    }
}

/// A number in decimal, without leading zeros.
pub open spec fn decimal(n: nat) -> Seq<char>
    decreases n,
{
    if n < 10 {
        seq![digit_char(n as int)]
    } else {
        decimal(n / 10).push(digit_char((n % 10) as int))
    }
}

/// The number that a run of decimal digits stands for; `None` where the run
/// is empty or holds anything but digits. Leading zeros are accepted.
pub open spec fn decimal_value(s: Seq<char>) -> Option<nat>
    decreases s.len(),
{
    if s.len() == 0 {
        None
    } else if s.len() == 1 {
        digit_value(s[0])
    } else {
        match (decimal_value(s.drop_last()), digit_value(s.last())) {
            (Some(high), Some(low)) => Some(high * 10 + low),
            _ => None,
        }
    }
}

/// A number in decimal is not empty and holds no separator.
pub proof fn lemma_decimal_plain(n: nat)
    ensures
        decimal(n).len() > 0,
        space_free(decimal(n)),
    decreases n,
{
    if n >= 10 {
        lemma_decimal_plain(n / 10);
    }
}

/// A number is read back from its decimal form.
pub proof fn lemma_decimal_round_trip(n: nat)
    ensures
        decimal_value(decimal(n)) == Some(n),
    decreases n,
{
    if n >= 10 {
        lemma_decimal_round_trip(n / 10);
        lemma_decimal_plain(n / 10);
        let s = decimal(n);
        assert(s.drop_last() =~= decimal(n / 10));
        assert(s.last() == digit_char((n % 10) as int));
    }
}

/// Appends a number in decimal.
pub fn push_decimal(out: &mut String, n: u64)
    ensures
        final(out)@ == old(out)@ + decimal(n as nat),
    decreases n,
{
    if n >= 10 {
        push_decimal(out, n / 10);
    }
    let ghost mid = out@;
    out.push(digit_to_char((n % 10) as u8));
    assert(out@ =~= old(out)@ + decimal(n as nat)) by {
        if n >= 10 {
            assert(mid == old(out)@ + decimal((n / 10) as nat));
        } else {
            assert(mid == old(out)@);
        }
    }
}

/// What a run of characters stands for as a number that fits 64 bits.
pub open spec fn decimal_u64(s: Seq<char>) -> Option<u64> {
    match decimal_value(s) {
        Some(v) => if v <= u64::MAX {
            Some(v as u64)
        } else {
            None
        },
        None => None,
    }
}

/// Reads a run of decimal digits. `None` where the run is empty, holds
/// anything but digits, or stands for a number above `u64::MAX`.
pub fn parse_decimal(s: &Vec<char>) -> (r: Option<u64>)
    ensures
        r == decimal_u64(s@),
{
    if s.len() == 0 {
        return None;
    }
    let mut value: u64 = 0;
    let mut too_large = false;
    let mut i: usize = 0;
    while i < s.len()
        invariant
            i <= s.len(),
            i > 0 ==> decimal_value(s@.take(i as int)) is Some,
            i > 0 && !too_large ==> decimal_value(s@.take(i as int)) == Some(value as nat),
            i > 0 && too_large ==> decimal_value(s@.take(i as int))->0 > u64::MAX,
            i == 0 ==> value == 0 && !too_large,
        decreases s.len() - i,
    {
        let ghost prefix = s@.take(i as int);
        let ghost next = s@.take(i + 1);
        assert(next.drop_last() =~= prefix);
        assert(next.last() == s@[i as int]);
        match digit_of(s[i]) {
            None => {
                proof {
                    lemma_decimal_needs_digits(s@, i as int);
                }
                return None;
            },
            Some(d) => {
                if !too_large {
                    if value > (u64::MAX - (d as u64)) / 10 {
                        too_large = true;
                    } else {
                        value = value * 10 + (d as u64);
                    }
                }
            },
        }
        i += 1;
    }
    assert(s@.take(s.len() as int) =~= s@);
    if too_large {
        None
    } else {
        Some(value)
    }
}

/// A run with a character that is no digit stands for no number.
pub proof fn lemma_decimal_needs_digits(s: Seq<char>, i: int)
    requires
        0 <= i < s.len(),
        digit_value(s[i]) is None,
    ensures
        decimal_value(s) is None,
    decreases s.len(),
{
    if s.len() > 1 {
        if i < s.len() - 1 {
            assert(s.drop_last()[i] == s[i]);
            lemma_decimal_needs_digits(s.drop_last(), i);
        }
    }
}

/// A whole number in decimal, with `-` before a negative one.
pub open spec fn int_text(n: int) -> Seq<char> {
    if n < 0 {
        seq!['-'] + decimal((-n) as nat)
    } else {
        decimal(n as nat)
    }
}

/// Appends a whole number in decimal.
pub fn push_int(out: &mut String, n: i32)
    ensures
        final(out)@ == old(out)@ + int_text(n as int),
{
    if n < 0 {
        out.push('-');
        push_decimal(out, (-(n as i64)) as u64);
        assert(out@ =~= old(out)@ + int_text(n as int));
    } else {
        push_decimal(out, n as u64);
    }
}

/// The string made of the given characters, in order.
fn string_of(v: &Vec<char>) -> (s: String)
    ensures
        s@ == v@,
{
    let mut s = String::new();
    let mut i: usize = 0;
    while i < v.len()
        invariant
            i <= v.len(),
            s@ == v@.take(i as int),
        decreases v.len() - i,
    {
        s.push(v[i]);
        assert(v@.take(i as int).push(v@[i as int]) =~= v@.take(i + 1));
        i += 1;
    }
    assert(v@.take(v.len() as int) =~= v@);
    s
}

/// The characters of each string.
pub open spec fn string_views(words: Seq<String>) -> Seq<Seq<char>> {
    Seq::new(words.len(), |i: int| words[i]@)
}

/// The fields of a line, each as a string of its own.
pub fn split_words(line: &str) -> (words: Vec<String>)
    ensures
        string_views(words@) == fields(line@),
{
    let chars = to_chars(line);
    let runs = split_fields(&chars);
    let mut words: Vec<String> = Vec::new();
    let mut i: usize = 0;
    while i < runs.len()
        invariant
            i <= runs.len(),
            views(runs@) == fields(line@),
            words@.len() == i,
            forall|k: int| 0 <= k < i ==> (#[trigger] words@[k])@ == runs@[k]@,
        decreases runs.len() - i,
    {
        let w = string_of(&runs[i]);
        words.push(w);
        i += 1;
    }
    assert(string_views(words@) =~= views(runs@));
    words
}

} // verus!
