//! The text picture of a board.

use vstd::prelude::*;
use crate::board::Board;
use crate::grid::width;

verus! {

/// `units` times a dash and a space.
pub open spec fn dashes(units: nat) -> Seq<char>
    decreases units,
{
    if units == 0 {
        Seq::empty()
    } else {
        dashes((units - 1) as nat) + seq!['-', ' ']
    }
}

/// The horizontal rule of a board with the given number of columns: one
/// unit more than it has columns.
pub open spec fn separator(columns: nat) -> Seq<char> {
    dashes(columns + 1)
}

/// The character that shows a cell.
pub open spec fn glyph(alive: bool) -> char {
    if alive {
        'x'
    } else {
        ' '
    }
}

/// The cells of a row, each followed by a bar.
pub open spec fn cells_text(row: Seq<bool>) -> Seq<char>
    decreases row.len(),
{
    if row.len() == 0 {
        Seq::empty()
    } else {
        cells_text(row.drop_last()) + seq![glyph(row.last()), '|']
    }
}

/// The line of one row between bars, and the rule below it.
pub open spec fn row_text(row: Seq<bool>, columns: nat) -> Seq<char> {
    seq!['|'] + cells_text(row) + seq!['\n'] + separator(columns) + seq!['\n']
}

/// The given rows one after the other.
pub open spec fn rows_text(rows: Seq<Seq<bool>>, columns: nat) -> Seq<char>
    decreases rows.len(),
{
    if rows.len() == 0 {
        Seq::empty()
    } else {
        rows_text(rows.drop_last(), columns) + row_text(rows.last(), columns)
    }
}

/// The picture of a grid: a rule, then every row with a rule below it.
pub open spec fn grid_text(grid: Seq<Seq<bool>>) -> Seq<char> {
    separator(width(grid)) + seq!['\n'] + rows_text(grid, width(grid))
}

impl Board {
    /// The picture of the board as text: a rule of dashes, then for every row
    /// a line of its cells between bars, `x` for a live cell and a space for a
    /// dead one, and a rule below it. Every line ends with a line feed.
    pub fn render(&self) -> (text: String)
        ensures
            text@ == grid_text(self@),
    {
        proof {
            reveal_strlit("- ");
            reveal_strlit("\n");
            reveal_strlit("|");
            reveal_strlit("x");
            reveal_strlit(" ");
            assert("- "@ =~= seq!['-', ' ']);
            assert("\n"@ =~= seq!['\n']);
            assert("|"@ =~= seq!['|']);
            assert("x"@ =~= seq!['x']);
            assert(" "@ =~= seq![' ']);
        }
        let rows = self.count_rows();
        let columns = self.count_columns();
        let mut line_separator = String::new();
        let mut i: usize = 0;
        while i < columns
            invariant
                i <= columns,
                "- "@ == seq!['-', ' '],
                line_separator@ == dashes(i as nat),
            decreases columns - i,
        {
            line_separator.append("- ");
            i += 1;
        }
        line_separator.append("- ");
        assert(line_separator@ == separator(columns as nat));
        let mut text = String::new();
        text.append(line_separator.as_str());
        text.append("\n");
        let ghost head = text@;
        let mut x: usize = 0;
        while x < rows
            invariant
                x <= rows,
                "\n"@ == seq!['\n'],
                "|"@ == seq!['|'],
                "x"@ == seq!['x'],
                " "@ == seq![' '],
                rows == self@.len(),
                columns == width(self@),
                forall|r: int| 0 <= r < self@.len() ==> (#[trigger] self@[r]).len() == columns,
                line_separator@ == separator(columns as nat),
                head == separator(columns as nat) + seq!['\n'],
                text@ == head + rows_text(self@.take(x as int), columns as nat),
            decreases rows - x,
        {
            let ghost row = self@[x as int];
            let ghost done = text@;
            text.append("|");
            assert(row.take(0) =~= Seq::<bool>::empty());
            assert(text@ =~= done + seq!['|'] + cells_text(row.take(0)));
            let mut y: usize = 0;
            while y < columns
                invariant
                    y <= columns,
                    "|"@ == seq!['|'],
                    "x"@ == seq!['x'],
                    " "@ == seq![' '],
                    x < rows,
                    rows == self@.len(),
                    row == self@[x as int],
                    row.len() == columns,
                    text@ == done + seq!['|'] + cells_text(row.take(y as int)),
                decreases columns - y,
            {
                let ghost so_far = text@;
                if self.is_alive(x, y) {
                    text.append("x");
                } else {
                    text.append(" ");
                }
                text.append("|");
                proof {
                    assert(row.take(y + 1).drop_last() =~= row.take(y as int));
                    assert(text@ =~= done + seq!['|'] + cells_text(row.take(y + 1)));
                }
                y += 1;
            }
            text.append("\n");
            text.append(line_separator.as_str());
            text.append("\n");
            proof {
                assert(row.take(columns as int) =~= row);
                assert(self@.take(x + 1).drop_last() =~= self@.take(x as int));
                assert(text@ =~= head + rows_text(self@.take(x + 1), columns as nat));
            }
            x += 1;
        }
        assert(self@.take(rows as int) =~= self@);
        text
    }
}

} // verus!
