//! The text form of a board.
//!
//! A board of side N is shown in 2 N lines: a line of column numbers, then
//! the rows, each behind its number, with a ruled line between two rows.
//! For N = 3 and one `X` in the middle:
//!
//! ```text
//!   1 2 3 
//! 1  | | 
//!   -----
//! 2  |X| 
//!   -----
//! 3  | | 
//! ```

use vstd::prelude::*;
use vstd::string::*;
use crate::board::Board;
use crate::cell::{Cell, Mark};
use crate::grid::Grid;

verus! {

/// The character that writes the digit `d`.
pub open spec fn digit_char(d: int) -> char {
    seq!['0', '1', '2', '3', '4', '5', '6', '7', '8', '9'][d]
}

/// `n` in base ten, without leading zeros.
pub open spec fn decimal(n: nat) -> Seq<char>
    decreases n,
{
    if n < 10 {
        seq![digit_char(n as int)]
    } else {
        decimal(n / 10).push(digit_char((n % 10) as int))
    }
}

/// How a cell is shown: a blank, `X` or `O`.
pub open spec fn glyph(cell: Cell) -> char {
    match cell {
        Cell::Empty => ' ',
        Cell::Occupied(Mark::X) => 'X',
        Cell::Occupied(Mark::O) => 'O',
    }
}

/// The numbers 1 to `n`, each followed by a blank.
pub open spec fn column_labels(n: nat) -> Seq<char>
    decreases n,
{
    if n == 0 {
        Seq::empty()
    } else {
        column_labels((n - 1) as nat) + decimal(n) + seq![' ']
    }
}

/// The cells of a row with a bar between every two of them.
pub open spec fn joined(row: Seq<Cell>) -> Seq<char>
    decreases row.len(),
{
    if row.len() == 0 {
        Seq::empty()
    } else if row.len() == 1 {
        seq![glyph(row[0])]
    } else {
        joined(row.drop_last()) + seq!['|', glyph(row.last())]
    }
}

/// The first line: two blanks, then the column numbers.
pub open spec fn header_line(n: nat) -> Seq<char> {
    seq![' ', ' '] + column_labels(n)
}

/// The line of row `r`, 0-based: its number from 1, a blank, its cells.
pub open spec fn row_line(g: Grid, r: int) -> Seq<char> {
    decimal((r + 1) as nat) + seq![' '] + joined(g[r])
}

/// The line between two rows: two blanks, then `2 * n - 1` dashes.
pub open spec fn rule_line(n: nat) -> Seq<char> {
    seq![' ', ' '] + Seq::new((2 * n - 1) as nat, |i: int| '-')
}

/// The lines that show a grid, from top to bottom, without line ends.
pub open spec fn rendering(g: Grid) -> Seq<Seq<char>> {
    Seq::new(
        2 * g.len(),
        |i: int|
            if i == 0 {
                header_line(g.len())
            } else if i % 2 == 1 {
                row_line(g, i / 2)
            } else {
                rule_line(g.len())
            },
    )
}

/// The text of one digit.
fn digit_text(d: u8) -> (text: &'static str)
    requires
        d < 10,
    ensures
        text@ == seq![digit_char(d as int)],
{
    proof {
        reveal_strlit("0");
        reveal_strlit("1");
        reveal_strlit("2");
        reveal_strlit("3");
        reveal_strlit("4");
        reveal_strlit("5");
        reveal_strlit("6");
        reveal_strlit("7");
        reveal_strlit("8");
        reveal_strlit("9");
    }
    let text: &'static str = match d {
        0 => "0",
        1 => "1",
        2 => "2",
        3 => "3",
        4 => "4",
        5 => "5",
        6 => "6",
        7 => "7",
        8 => "8",
        _ => "9",
    };
    assert(text@ =~= seq![digit_char(d as int)]);
    text
}

/// The text of one cell.
fn glyph_text(cell: Cell) -> (text: &'static str)
    ensures
        text@ == seq![glyph(cell)],
{
    proof {
        reveal_strlit(" ");
        reveal_strlit("X");
        reveal_strlit("O");
    }
    let text: &'static str = match cell {
        Cell::Empty => " ",
        Cell::Occupied(Mark::X) => "X",
        Cell::Occupied(Mark::O) => "O",
    };
    assert(text@ =~= seq![glyph(cell)]);
    text
}

/// Writes `n` in base ten at the end of `text`.
fn append_decimal(text: &mut String, n: u8)
    ensures
        final(text)@ == old(text)@ + decimal(n as nat),
{
    proof {
        reveal_with_fuel(decimal, 3);
    }
    if n >= 100 {
        text.append(digit_text(n / 100));
    }
    if n >= 10 {
        text.append(digit_text((n / 10) % 10));
    }
    text.append(digit_text(n % 10));
    assert(text@ =~= old(text)@ + decimal(n as nat));
}

/// The first line of a board of side `n`.
fn header_text(n: u8) -> (text: String)
    ensures
        text@ == header_line(n as nat),
{
    let mut text: String = String::new();
    text.append("  ");
    proof {
        reveal_strlit("  ");
        reveal_strlit(" ");
        assert(text@ =~= seq![' ', ' '] + column_labels(0));
    }
    let mut i: u8 = 0;
    while i < n
        invariant
            i <= n,
            text@ == seq![' ', ' '] + column_labels(i as nat),
            " "@ == seq![' '],
        decreases n - i,
    {
        i = i + 1;
        append_decimal(&mut text, i);
        text.append(" ");
        assert(text@ =~= seq![' ', ' '] + column_labels(i as nat));
    }
    text
}

/// The line between two rows of a board of side `n`.
fn rule_text(n: u8) -> (text: String)
    requires
        n >= 1,
    ensures
        text@ == rule_line(n as nat),
{
    let mut text: String = String::new();
    text.append("  ");
    proof {
        reveal_strlit("  ");
        reveal_strlit("-");
        assert(text@ =~= seq![' ', ' '] + Seq::new(0, |i: int| '-'));
    }
    let count: u16 = 2 * (n as u16) - 1;
    let mut k: u16 = 0;
    while k < count
        invariant
            k <= count,
            text@ == seq![' ', ' '] + Seq::new(k as nat, |i: int| '-'),
            "-"@.len() == 1,
            "-"@[0] == '-',
        decreases count - k,
    {
        text.append("-");
        k = k + 1;
        assert(text@ =~= seq![' ', ' '] + Seq::new(k as nat, |i: int| '-'));
    }
    text
}

impl Board {
    /// The line of row `r`, 0-based.
    fn row_text(&self, r: u8) -> (text: String)
        requires
            r < self@.len(),
        ensures
            text@ == row_line(self@, r as int),
    {
        let n: u8 = self.size();
        let ghost row = self@[r as int];
        let mut text: String = String::new();
        append_decimal(&mut text, r + 1);
        text.append(" ");
        let ghost lead = decimal((r + 1) as nat) + seq![' '];
        proof {
            reveal_strlit(" ");
            reveal_strlit("|");
            assert(text@ =~= lead + joined(row.take(0)));
        }
        let mut c: u8 = 0;
        while c < n
            invariant
                c <= n,
                r < n,
                n == self@.len(),
                row == self@[r as int],
                row.len() == n,
                text@ == lead + joined(row.take(c as int)),
                "|"@.len() == 1,
                "|"@[0] == '|',
            decreases n - c,
        {
            if c > 0 {
                text.append("|");
            }
            let cell: Cell = match self.get_cell((r + 1, c + 1)) {
                Some(cell) => cell,
                None => Cell::Empty,
            };
            text.append(glyph_text(cell));
            proof {
                let shorter = row.take(c as int);
                let longer = row.take(c + 1);
                assert(longer.drop_last() =~= shorter);
                assert(longer.last() == cell);
                assert(text@ =~= lead + joined(longer));
            }
            c = c + 1;
        }
        assert(row.take(n as int) =~= row);
        text
    }

    /// The lines that show the board, from top to bottom, without line
    /// ends.
    pub fn render(&self) -> (lines: Vec<String>)
        ensures
            lines@.map_values(|line: String| line@) == rendering(self@),
    {
        let n: u8 = self.size();
        let mut lines: Vec<String> = Vec::new();
        lines.push(header_text(n));
        let mut r: u8 = 0;
        while r < n
            invariant
                r <= n,
                n >= 1,
                n == self@.len(),
                lines@.len() == if r < n {
                    2 * r + 1
                } else {
                    2 * n
                },
                forall|i: int| 0 <= i < lines@.len() ==> (#[trigger] lines@[i])@ == rendering(self@)[i],
            decreases n - r,
        {
            lines.push(self.row_text(r));
            if r + 1 < n {
                lines.push(rule_text(n));
            }
            r = r + 1;
        }
        assert(lines@.map_values(|line: String| line@) =~= rendering(self@));
        lines
    }
}

} // verus!
