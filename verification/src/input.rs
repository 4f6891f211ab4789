//! The grammar of a typed move.
//!
//! A line is cut at every comma and every white space character. Each piece
//! that is a decimal numeral between 0 and 255, with an optional `+` before
//! it, counts as a number; every other piece is passed over. The first two
//! numbers of the line are the row and the column asked for.

use vstd::prelude::*;

verus! {

/// The white space characters: those that Unicode lists as `White_Space`.
pub open spec fn is_white_space(c: char) -> bool {
    ||| '\u{9}' <= c <= '\u{D}'
    ||| c == ' '
    ||| c == '\u{85}'
    ||| c == '\u{A0}'
    ||| c == '\u{1680}'
    ||| '\u{2000}' <= c <= '\u{200A}'
    ||| c == '\u{2028}'
    ||| c == '\u{2029}'
    ||| c == '\u{202F}'
    ||| c == '\u{205F}'
    ||| c == '\u{3000}'
}

/// The characters at which a line is cut.
pub open spec fn is_separator(c: char) -> bool {
    c == ',' || is_white_space(c)
}

/// One of `0` to `9`.
pub open spec fn is_digit(c: char) -> bool {
    '0' <= c <= '9'
}

/// What a digit counts for.
pub open spec fn digit_value(c: char) -> int {
    c as int - '0' as int
}

/// Every character of `s` is a digit.
pub open spec fn all_digits(s: Seq<char>) -> bool {
    forall|i: int| 0 <= i < s.len() ==> is_digit(#[trigger] s[i])
}

/// The number that a run of digits writes in base ten.
pub open spec fn numeral_value(s: Seq<char>) -> int
    decreases s.len(),
{
    if s.len() == 0 {
        0
    } else {
        10 * numeral_value(s.drop_last()) + digit_value(s.last())
    }
}

/// A piece without the `+` it may start with.
pub open spec fn unsigned_part(piece: Seq<char>) -> Seq<char> {
    if piece.len() > 0 && piece[0] == '+' {
        piece.skip(1)
    } else {
        piece
    }
}

/// The number that a piece stands for, if it stands for one: at least one
/// digit and nothing but digits after the optional `+`, and a value of at
/// most 255.
pub open spec fn piece_value(piece: Seq<char>) -> Option<u8> {
    let digits = unsigned_part(piece);
    if digits.len() > 0 && all_digits(digits) && numeral_value(digits) <= u8::MAX {
        Some(numeral_value(digits) as u8)
    } else {
        None
    }
}

/// The place of the first separator in `s`, or the length of `s` where it
/// holds none.
pub open spec fn first_separator(s: Seq<char>) -> int
    decreases s.len(),
{
    if s.len() == 0 || is_separator(s[0]) {
        0
    } else {
        1 + first_separator(s.skip(1))
    }
}

/// The numbers of a line, in the order in which they stand in it.
pub open spec fn numbers(s: Seq<char>) -> Seq<u8>
    decreases s.len(),
{
    let cut = first_separator(s);
    let head = match piece_value(s.take(cut)) {
        Some(v) => seq![v],
        None => seq![],
    };
    if 0 <= cut < s.len() {
        head + numbers(s.skip(cut + 1))
    } else {
        head
    }
}

/// The move that a line asks for: its first two numbers as `(row, column)`,
/// or `None` where it holds fewer than two.
pub open spec fn parsed_move(s: Seq<char>) -> Option<(u8, u8)> {
    let found = numbers(s);
    if found.len() >= 2 {
        Some((found[0], found[1]))
    } else {
        None
    }
}

proof fn lemma_first_separator(s: Seq<char>, cut: int)
    requires
        0 <= cut <= s.len(),
        forall|j: int| 0 <= j < cut ==> !is_separator(#[trigger] s[j]),
        cut == s.len() || is_separator(s[cut]),
    ensures
        first_separator(s) == cut,
    decreases cut,
{
    if cut > 0 {
        let rest = s.skip(1);
        assert forall|j: int| 0 <= j < cut - 1 implies !is_separator(#[trigger] rest[j]) by {
            assert(rest[j] == s[j + 1]);
        }
        lemma_first_separator(rest, cut - 1);
    }
}

proof fn lemma_one_more_character(s: Seq<char>, c: char)
    ensures
        all_digits(s.push(c)) == (all_digits(s) && is_digit(c)),
        numeral_value(s.push(c)) == 10 * numeral_value(s) + digit_value(c),
{
    let longer = s.push(c);
    assert(longer.drop_last() =~= s);
    assert(longer.last() == c);
    if all_digits(longer) {
        assert forall|i: int| 0 <= i < s.len() implies is_digit(#[trigger] s[i]) by {
            assert(s[i] == longer[i]);
        }
        assert(is_digit(longer[s.len() as int]));
    }
    if all_digits(s) && is_digit(c) {
        assert forall|i: int| 0 <= i < longer.len() implies is_digit(#[trigger] longer[i]) by {
            if i < s.len() {
                assert(longer[i] == s[i]);
            }
        }
    }
}

proof fn lemma_numeral_value_not_negative(s: Seq<char>)
    requires
        all_digits(s),
    ensures
        numeral_value(s) >= 0,
    decreases s.len(),
{
    if s.len() > 0 {
        let front = s.drop_last();
        assert forall|i: int| 0 <= i < front.len() implies is_digit(#[trigger] front[i]) by {
            assert(front[i] == s[i]);
        }
        lemma_numeral_value_not_negative(front);
    }
}

/// Whether `c` is a white space character.
fn is_white_space_char(c: char) -> (yes: bool)
    ensures
        yes == is_white_space(c),
{
    ('\u{9}' <= c && c <= '\u{D}') || c == ' ' || c == '\u{85}' || c == '\u{A0}' || c == '\u{1680}'
        || ('\u{2000}' <= c && c <= '\u{200A}') || c == '\u{2028}' || c == '\u{2029}' || c
        == '\u{202F}' || c == '\u{205F}' || c == '\u{3000}'
}

/// What is known of the piece read so far.
enum Scan {
    /// Nothing read.
    Fresh,
    /// A `+` and nothing else.
    Sign,
    /// A numeral of this value, after an optional `+`.
    Number(u8),
    /// No number, whatever follows.
    Spoiled,
}

impl Scan {
    /// This is what is known of `piece`.
    spec fn describes(self, piece: Seq<char>) -> bool {
        let digits = unsigned_part(piece);
        match self {
            Scan::Fresh => piece.len() == 0,
            Scan::Sign => piece.len() == 1 && piece[0] == '+',
            Scan::Number(v) => digits.len() > 0 && all_digits(digits) && numeral_value(digits) == v,
            Scan::Spoiled => piece.len() > 0 && !(all_digits(digits) && numeral_value(digits)
                <= u8::MAX),
        }
    }

    /// The number that the piece stands for now that it has ended.
    fn value(self, Ghost(piece): Ghost<Seq<char>>) -> (v: Option<u8>)
        requires
            self.describes(piece),
        ensures
            v == piece_value(piece),
    {
        match self {
            Scan::Number(v) => Some(v),
            _ => None,
        }
    }

    /// What is known once `c`, no separator, has been read after `piece`.
    fn read(self, c: char, Ghost(piece): Ghost<Seq<char>>) -> (next: Scan)
        requires
            self.describes(piece),
        ensures
            next.describes(piece.push(c)),
    {
        proof {
            let digits = unsigned_part(piece);
            if piece.len() > 0 {
                assert(unsigned_part(piece.push(c)) =~= digits.push(c));
                lemma_one_more_character(digits, c);
                if all_digits(digits) {
                    lemma_numeral_value_not_negative(digits);
                }
            } else {
                assert(unsigned_part(piece.push(c)) =~= if c == '+' {
                    Seq::<char>::empty()
                } else {
                    Seq::<char>::empty().push(c)
                });
                lemma_one_more_character(Seq::<char>::empty(), c);
            }
        }
        let digit: Option<u8> = if '0' <= c && c <= '9' {
            Some(((c as u32) - ('0' as u32)) as u8)
        } else {
            None
        };
        match (self, digit) {
            (Scan::Fresh, None) => if c == '+' {
                Scan::Sign
            } else {
                Scan::Spoiled
            },
            (Scan::Fresh, Some(d)) => Scan::Number(d),
            (Scan::Sign, Some(d)) => Scan::Number(d),
            (Scan::Number(v), Some(d)) => if v < 25 || (v == 25 && d <= 5) {
                Scan::Number(10 * v + d)
            } else {
                Scan::Spoiled
            },
            _ => Scan::Spoiled,
        }
    }
}

/// Reads the move that a line of text asks for.
pub fn parse_move(line: &str) -> (request: Option<(u8, u8)>)
    ensures
        request == parsed_move(line@),
{
    let ghost s = line@;
    let ghost mut start: int = 0;
    let mut first: Option<u8> = None;
    let mut scan: Scan = Scan::Fresh;
    proof {
        assert(s.skip(0) =~= s);
        assert(Seq::<u8>::empty() + numbers(s) =~= numbers(s));
    }
    for c in it: line.chars()
        invariant
            it.seq() == s,
            s == line@,
            0 <= start <= it.index(),
            forall|j: int| start <= j < it.index() ==> !is_separator(#[trigger] s[j]),
            scan.describes(s.subrange(start, it.index() as int)),
            numbers(s) == (match first {
                Some(a) => seq![a],
                None => seq![],
            }) + numbers(s.skip(start)),
    {
        let ghost at = it.index() as int;
        let ghost piece = s.subrange(start, at);
        if c == ',' || is_white_space_char(c) {
            proof {
                let rest = s.skip(start);
                lemma_first_separator(rest, at - start);
                assert(rest.take(at - start) =~= piece);
                assert(rest.skip(at - start + 1) =~= s.skip(at + 1));
            }
            match scan.value(Ghost(piece)) {
                Some(v) => match first {
                    Some(a) => {
                        return Some((a, v));
                    },
                    None => {
                        first = Some(v);
                    },
                },
                None => {},
            }
            scan = Scan::Fresh;
            proof {
                start = at + 1;
                assert(s.subrange(start, at + 1) =~= Seq::<char>::empty());
            }
        } else {
            scan = scan.read(c, Ghost(piece));
            proof {
                assert(s.subrange(start, at + 1) =~= piece.push(c));
            }
        }
    }
    let ghost piece = s.subrange(start, s.len() as int);
    proof {
        let rest = s.skip(start);
        lemma_first_separator(rest, s.len() - start);
        assert(rest.take(s.len() - start) =~= piece);
    }
    match (first, scan.value(Ghost(piece))) {
        (Some(a), Some(v)) => Some((a, v)),
        _ => None,
    }
}

} // verus!
