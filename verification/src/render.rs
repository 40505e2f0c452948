//! The text projection of a board.

use crate::cell::{Cell, CellView};
use crate::engine::Board;
use crate::model::BoardView;
use vstd::prelude::*;
use vstd::string::StringExecFns;

verus! {

/// The character of the decimal digit `d`.
pub open spec fn digit(d: int) -> char {
    if d == 0 {
        '0'
    } else if d == 1 {
        '1'
    } else if d == 2 {
        '2'
    } else if d == 3 {
        '3'
    } else if d == 4 {
        '4'
    } else if d == 5 {
        '5'
    } else if d == 6 {
        '6'
    } else if d == 7 {
        '7'
    } else if d == 8 {
        '8'
    } else {
        '9'
    }
}

/// The decimal digits of `n`, most significant first.
pub open spec fn decimal(n: nat) -> Seq<char>
    decreases n,
{
    if n < 10 {
        seq![digit(n as int)]
    } else {
        decimal(n / 10).push(digit((n % 10) as int))
    }
}

/// The decimal digits of `n`, after a space if there is only one.
pub open spec fn padded(n: nat) -> Seq<char> {
    if n < 10 {
        seq![' '] + decimal(n)
    } else {
        decimal(n)
    }
}

/// The label of the column or row with index `i`.
pub open spec fn label(i: nat, one_based: bool) -> nat {
    if one_based {
        i + 1
    } else {
        i
    }
}

/// How a cell shows: `*` for a mine that is revealed or shown by force, the
/// count or a blank for a revealed safe cell, `F` for a flag, `.` otherwise.
pub open spec fn glyph(c: CellView, show_all: bool) -> char {
    if show_all && c.is_mine {
        '*'
    } else if c.revealed {
        if c.is_mine {
            '*'
        } else if c.adjacent == 0 {
            ' '
        } else if c.adjacent < 10 {
            digit(c.adjacent as int)
        } else {
            '?'
        }
    } else if c.flagged {
        'F'
    } else {
        '.'
    }
}

/// The labels of the first `n` columns, each followed by a space.
pub open spec fn column_labels(n: nat, one_based: bool) -> Seq<char>
    decreases n,
{
    if n == 0 {
        Seq::empty()
    } else {
        column_labels((n - 1) as nat, one_based) + padded(label((n - 1) as nat, one_based))
            + seq![' ']
    }
}

/// The line of column labels.
pub open spec fn header_text(b: BoardView, one_based: bool) -> Seq<char> {
    seq![' ', ' ', ' ', ' '] + column_labels(b.width, one_based) + seq!['\n']
}

/// `n` dashes.
pub open spec fn dashes(n: nat) -> Seq<char> {
    Seq::new(n, |i: int| '-')
}

/// The line under the column labels.
pub open spec fn rule_text(b: BoardView) -> Seq<char> {
    seq![' ', ' ', ' '] + dashes(3 * b.width + 1) + seq!['\n']
}

/// The first `n` cells of row `y`, each followed by two spaces.
pub open spec fn row_cells(b: BoardView, y: int, show_all: bool, n: nat) -> Seq<char>
    decreases n,
{
    if n == 0 {
        Seq::empty()
    } else {
        row_cells(b, y, show_all, (n - 1) as nat) + seq![glyph(b.at(n - 1, y), show_all), ' ', ' ']
    }
}

/// The line of row `y`: its label, a bar, its cells.
pub open spec fn row_text(b: BoardView, y: int, show_all: bool, one_based: bool) -> Seq<char> {
    padded(label(y as nat, one_based)) + seq![' ', '|', ' '] + row_cells(b, y, show_all, b.width)
        + seq!['\n']
}

/// The lines of the first `n` rows.
pub open spec fn rows_text(b: BoardView, show_all: bool, one_based: bool, n: nat) -> Seq<char>
    decreases n,
{
    if n == 0 {
        Seq::empty()
    } else {
        rows_text(b, show_all, one_based, (n - 1) as nat) + row_text(
            b,
            n - 1,
            show_all,
            one_based,
        )
    }
}

/// The board as text: the column labels, a rule, then one line for each row.
pub open spec fn render_text(b: BoardView, show_all: bool, one_based: bool) -> Seq<char> {
    header_text(b, one_based) + rule_text(b) + rows_text(b, show_all, one_based, b.height)
}

/// The digit `d` as text.
fn digit_str(d: usize) -> (s: &'static str)
    requires
        d < 10,
    ensures
        s@ == seq![digit(d as int)],
{
    proof {
        reveal_strlit("0");
        reveal_strlit("1");
        reveal_strlit("2");
        reveal_strlit("3");
        reveal_strlit("4");
        reveal_strlit("5");
        reveal_strlit("6");
        reveal_strlit("7");
        reveal_strlit("8");
        reveal_strlit("9");
    }
    let s = if d == 0 {
        "0"
    } else if d == 1 {
        "1"
    } else if d == 2 {
        "2"
    } else if d == 3 {
        "3"
    } else if d == 4 {
        "4"
    } else if d == 5 {
        "5"
    } else if d == 6 {
        "6"
    } else if d == 7 {
        "7"
    } else if d == 8 {
        "8"
    } else {
        "9"
    };
    assert(s@ =~= seq![digit(d as int)]);
    s
}

/// Appends the decimal digits of `n`.
fn append_decimal(s: &mut String, n: usize)
    ensures
        final(s)@ == old(s)@ + decimal(n as nat),
    decreases n,
{
    if n >= 10 {
        append_decimal(s, n / 10);
    }
    let ghost head = s@;
    s.append(digit_str(n % 10));
    proof {
        if n >= 10 {
            assert(s@ =~= old(s)@ + decimal((n / 10) as nat).push(digit((n % 10) as int)));
        } else {
            assert(s@ =~= old(s)@ + decimal(n as nat));
        }
    }
}

/// Appends `n` in decimal, right-aligned in two columns.
fn append_padded(s: &mut String, n: usize)
    ensures
        final(s)@ == old(s)@ + padded(n as nat),
{
    if n < 10 {
        proof {
            reveal_strlit(" ");
        }
        s.append(" ");
    }
    append_decimal(s, n);
    proof {
        assert(s@ =~= old(s)@ + padded(n as nat));
    }
}

/// How a cell shows, as text.
fn glyph_str(c: &Cell, show_all: bool) -> (s: &'static str)
    ensures
        s@ == seq![glyph(c@, show_all)],
{
    proof {
        reveal_strlit("*");
        reveal_strlit(" ");
        reveal_strlit("?");
        reveal_strlit("F");
        reveal_strlit(".");
    }
    let s = if show_all && c.is_mine() {
        "*"
    } else if c.revealed() {
        if c.is_mine() {
            "*"
        } else if c.adjacent() == 0 {
            " "
        } else if c.adjacent() < 10 {
            digit_str(c.adjacent() as usize)
        } else {
            "?"
        }
    } else if c.flagged() {
        "F"
    } else {
        "."
    };
    assert(s@ =~= seq![glyph(c@, show_all)]);
    s
}

impl Board {
    /// The line of column labels.
    fn render_header(&self, one_based: bool) -> (s: String)
        ensures
            s@ == header_text(self@, one_based),
    {
        let mut s = String::new();
        proof {
            reveal_strlit("    ");
            reveal_strlit(" ");
            reveal_strlit("\n");
        }
        s.append("    ");
        assert(s@ =~= seq![' ', ' ', ' ', ' '] + column_labels(0, one_based));
        let width: usize = self.width();
        let mut x: usize = 0;
        while x < width
            invariant
                x <= width,
                width == self@.width,
                s@ == seq![' ', ' ', ' ', ' '] + column_labels(x as nat, one_based),
            decreases width - x,
        {
            let shown: usize = if one_based {
                x + 1
            } else {
                x
            };
            append_padded(&mut s, shown);
            proof {
                reveal_strlit(" ");
            }
            s.append(" ");
            assert(s@ =~= seq![' ', ' ', ' ', ' '] + column_labels((x + 1) as nat, one_based));
            x += 1;
        }
        s.append("\n");
        s
    }

    /// The line under the column labels.
    fn render_rule(&self) -> (s: String)
        ensures
            s@ == rule_text(self@),
    {
        let mut s = String::new();
        proof {
            reveal_strlit("   ");
            reveal_strlit("---");
            reveal_strlit("-");
            reveal_strlit("\n");
        }
        s.append("   ");
        assert(s@ =~= seq![' ', ' ', ' '] + dashes(0));
        let width: usize = self.width();
        let mut x: usize = 0;
        while x < width
            invariant
                x <= width,
                width == self@.width,
                s@ == seq![' ', ' ', ' '] + dashes(3 * x as nat),
            decreases width - x,
        {
            proof {
                reveal_strlit("---");
            }
            s.append("---");
            assert(s@ =~= seq![' ', ' ', ' '] + dashes(3 * (x + 1) as nat));
            x += 1;
        }
        s.append("-");
        assert(s@ =~= seq![' ', ' ', ' '] + dashes(3 * self@.width + 1));
        s.append("\n");
        s
    }

    /// The line of row `y`.
    fn render_row(&self, y: usize, show_all: bool, one_based: bool) -> (s: String)
        requires
            self.wf(),
            y < self@.height,
        ensures
            s@ == row_text(self@, y as int, show_all, one_based),
    {
        let mut s = String::new();
        proof {
            reveal_strlit(" | ");
            reveal_strlit("  ");
            reveal_strlit("\n");
        }
        let height: usize = self.height();
        let shown: usize = if one_based {
            y + 1
        } else {
            y
        };
        append_padded(&mut s, shown);
        s.append(" | ");
        let ghost lead = padded(label(y as nat, one_based)) + seq![' ', '|', ' '];
        assert(s@ =~= lead + row_cells(self@, y as int, show_all, 0));
        let width: usize = self.width();
        let mut x: usize = 0;
        while x < width
            invariant
                x <= width,
                width == self@.width,
                self.wf(),
                y < self@.height,
                s@ == lead + row_cells(self@, y as int, show_all, x as nat),
            decreases width - x,
        {
            let cell = self.cell(x, y);
            let text = glyph_str(cell.unwrap(), show_all);
            s.append(text);
            proof {
                reveal_strlit("  ");
            }
            s.append("  ");
            assert(s@ =~= lead + row_cells(self@, y as int, show_all, (x + 1) as nat));
            x += 1;
        }
        s.append("\n");
        s
    }

    /// The board as text: a line of column labels, a rule, then one line for
    /// each row with its label and its cells. A covered cell shows as `.`, a
    /// flagged one as `F`, a revealed safe one as its count or as a blank for
    /// zero, and a mine that is revealed, or any mine under `show_all`, as
    /// `*`. Labels start at 1 under `one_based`, else at 0.
    pub fn render(&self, show_all: bool, one_based: bool) -> (s: String)
        requires
            self.wf(),
        ensures
            s@ == render_text(self@, show_all, one_based),
    {
        let mut s = self.render_header(one_based);
        let rule = self.render_rule();
        s.append(rule.as_str());
        let ghost top = header_text(self@, one_based) + rule_text(self@);
        assert(s@ =~= top + rows_text(self@, show_all, one_based, 0));
        let height: usize = self.height();
        let mut y: usize = 0;
        while y < height
            invariant
                y <= height,
                height == self@.height,
                self.wf(),
                s@ == top + rows_text(self@, show_all, one_based, y as nat),
            decreases height - y,
        {
            let row = self.render_row(y, show_all, one_based);
            s.append(row.as_str());
            assert(s@ =~= top + rows_text(self@, show_all, one_based, (y + 1) as nat));
            y += 1;
        }
        s
    }

    /// The board as the player sees it: mines hidden, labels from 1.
    pub fn to_text(&self) -> (s: String)
        requires
            self.wf(),
        ensures
            s@ == render_text(self@, false, true),
    {
        self.render(false, true)
    }
}

} // verus!
