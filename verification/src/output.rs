//! Tables as the console shows them: columns as wide as their widest cell,
//! plain or in a frame. Escape sequences that colour a cell take no room.

use vstd::prelude::*;
use regex::Regex;
use crate::text::push_repeated;
use crate::text::push_text;
use crate::text::repeated;

verus! {

/// The escape sequences that take no room on the console.
pub const ANSI_PATTERN: &'static str = r"(?:\x1B[@-Z\\-_]|[\x80-\x9A\x9C-\x9F]|(?:\x1B\[|\x9B)[0-?]*[ -/]*[@-~])";

/// How a table is drawn.
#[derive(Copy, Clone, Debug, PartialEq, Eq, Structural)]
pub enum Output {
    /// Cells side by side, one space apart.
    Normal,
    /// Cells in a frame that names the columns at the top and at the bottom.
    Pretty,
}

/// Bytes that are left of `text` when its escape sequences are taken out,
/// or `None` where the pattern of the sequences cannot be compiled.
pub uninterp spec fn visible_length(text: Seq<char>) -> Option<nat>;

/// Compiles `ANSI_PATTERN` with `regex::Regex::new`, takes every match out
/// of `text` with `Regex::replace_all`, and gives the length of what is left.
#[verifier::external_body]
fn stripped_length(text: &str) -> (r: Option<usize>)
    ensures
        r is Some <==> visible_length(text@) is Some,
        r matches Some(n) ==> visible_length(text@) == Some(n as nat),
{
    Regex::new(ANSI_PATTERN).ok().map(|pattern| pattern.replace_all(text, "").len())
}

/// Room that `text` takes on the console: its length without escape
/// sequences, or nothing where that is not known.
pub open spec fn room(text: Seq<char>) -> nat {
    match visible_length(text) {
        Some(n) => n,
        None => 0,
    }
}

/// The views of a run of texts.
pub open spec fn texts(cells: Seq<String>) -> Seq<Seq<char>> {
    Seq::new(cells.len(), |i: int| cells[i]@)
}

/// The views of the rows of a table.
pub open spec fn table(rows: Seq<Vec<String>>) -> Seq<Seq<Seq<char>>> {
    Seq::new(rows.len(), |i: int| texts(rows[i]@))
}

/// Room of the widest cell of column `column` in the first `upto` rows.
pub open spec fn widest_cell(rows: Seq<Seq<Seq<char>>>, column: int, upto: int) -> nat
    decreases upto,
{
    if upto <= 0 {
        0
    } else {
        let before = widest_cell(rows, column, upto - 1);
        if column < rows[upto - 1].len() && room(rows[upto - 1][column]) > before {
            room(rows[upto - 1][column])
        } else {
            before
        }
    }
}

/// Width of column `column`: the room of its name or of its widest cell,
/// whichever is more.
pub open spec fn column_width(columns: Seq<Seq<char>>, rows: Seq<Seq<Seq<char>>>, column: int) -> nat {
    if room(columns[column]) > widest_cell(rows, column, rows.len() as int) {
        room(columns[column])
    } else {
        widest_cell(rows, column, rows.len() as int)
    }
}

/// `text` followed by spaces up to `width`.
pub open spec fn padded(text: Seq<char>, width: nat) -> Seq<char> {
    text + repeated(' ', if width > room(text) { (width - room(text)) as nat } else { 0 })
}

/// `name` between two spaces, in the middle of a rule of `fill` that is two
/// wider than `width`.
pub open spec fn centered(name: Seq<char>, width: nat, fill: char) -> Seq<char> {
    let pad = if width > room(name) { (width - room(name)) as nat } else { 0 };
    repeated(fill, pad / 2) + seq![' '] + name + seq![' '] + repeated(fill, (pad - pad / 2) as nat)
}

/// The first `count` cells of a row, each padded to the width of its
/// column, with `separator` between neighbours.
pub open spec fn row_text(cells: Seq<Seq<char>>, widths: Seq<usize>, separator: Seq<char>, count: int) -> Seq<char>
    decreases count,
{
    if count <= 0 {
        Seq::empty()
    } else {
        row_text(cells, widths, separator, count - 1) + (if count > 1 { separator } else { Seq::empty() }) + padded(
            cells[count - 1],
            widths[count - 1] as nat,
        )
    }
}

/// The names of the first `count` columns, each in the middle of a rule as
/// wide as its column, with `joint` between neighbours.
pub open spec fn rule_text(columns: Seq<Seq<char>>, widths: Seq<usize>, joint: char, count: int) -> Seq<char>
    decreases count,
{
    if count <= 0 {
        Seq::empty()
    } else {
        rule_text(columns, widths, joint, count - 1) + (if count > 1 { seq![joint] } else { Seq::empty() }) + centered(
            columns[count - 1],
            widths[count - 1] as nat,
            '═',
        )
    }
}

/// Number of cells of a row that are drawn: those that have a column.
pub open spec fn drawn(cells: Seq<Seq<char>>, widths: Seq<usize>) -> int {
    if cells.len() < widths.len() {
        cells.len() as int
    } else {
        widths.len() as int
    }
}

/// The line of a row of cells.
pub open spec fn body_line(output: Output, cells: Seq<Seq<char>>, widths: Seq<usize>) -> Seq<char> {
    match output {
        Output::Normal => row_text(cells, widths, " "@, drawn(cells, widths)),
        Output::Pretty => "║ "@ + row_text(cells, widths, " │ "@, drawn(cells, widths)) + " ║"@,
    }
}

/// The lines of a table: for a plain one the names of the columns and then
/// the rows; for a framed one the top of the frame, the rows, and the bottom.
pub open spec fn table_lines(output: Output, columns: Seq<Seq<char>>, rows: Seq<Seq<Seq<char>>>, widths: Seq<usize>) -> Seq<Seq<char>> {
    let body = Seq::new(rows.len(), |r: int| body_line(output, rows[r], widths));
    match output {
        Output::Normal => seq![row_text(columns, widths, " "@, columns.len() as int)] + body,
        Output::Pretty => seq![seq!['╔'] + rule_text(columns, widths, '╤', columns.len() as int) + seq!['╗']] + body
            + seq![seq!['╚'] + rule_text(columns, widths, '╧', columns.len() as int) + seq!['╝']],
    }
}

/// The width of each column.
pub open spec fn column_widths(columns: Seq<Seq<char>>, rows: Seq<Seq<Seq<char>>>) -> Seq<usize> {
    Seq::new(columns.len(), |c: int| column_width(columns, rows, c) as usize)
}

/// Whether `widths` holds the width of each column.
pub open spec fn are_widths(widths: Seq<usize>, columns: Seq<Seq<char>>, rows: Seq<Seq<Seq<char>>>) -> bool {
    &&& widths.len() == columns.len()
    &&& forall|c: int| 0 <= c < widths.len() ==> #[trigger] widths[c] == column_width(columns, rows, c)
}

/// Room that `text` takes on the console.
pub fn room_of(text: &str) -> (r: usize)
    ensures
        r == room(text@),
{
    match stripped_length(text) {
        Some(n) => n,
        None => 0,
    }
}

fn push_padded(line: &mut String, text: &str, width: usize)
    ensures
        final(line)@ == old(line)@ + padded(text@, width as nat),
{
    let taken = room_of(text);
    push_text(line, text);
    push_repeated(line, ' ', if width > taken { width - taken } else { 0 });
    proof {
        assert(line@ =~= old(line)@ + padded(text@, width as nat));
    }
}

fn push_centered(line: &mut String, name: &str, width: usize, fill: char)
    ensures
        final(line)@ == old(line)@ + centered(name@, width as nat, fill),
{
    let taken = room_of(name);
    let pad = if width > taken { width - taken } else { 0 };
    push_repeated(line, fill, pad / 2);
    line.push(' ');
    push_text(line, name);
    line.push(' ');
    push_repeated(line, fill, pad - pad / 2);
    proof {
        assert(line@ =~= old(line)@ + centered(name@, width as nat, fill));
    }
}

fn push_row(line: &mut String, cells: &Vec<String>, widths: &Vec<usize>, separator: &str)
    ensures
        final(line)@ == old(line)@ + row_text(texts(cells@), widths@, separator@, drawn(texts(cells@), widths@)),
{
    let count = if cells.len() < widths.len() { cells.len() } else { widths.len() };
    let mut c: usize = 0;
    proof {
        assert(line@ =~= old(line)@ + row_text(texts(cells@), widths@, separator@, 0));
    }
    while c < count
        invariant
            c <= count,
            count <= cells@.len(),
            count <= widths@.len(),
            line@ == old(line)@ + row_text(texts(cells@), widths@, separator@, c as int),
        decreases count - c,
    {
        let ghost before = line@;
        if c > 0 {
            push_text(line, separator);
        }
        push_padded(line, cells[c].as_str(), widths[c]);
        c += 1;
        proof {
            assert(texts(cells@)[c - 1] == cells@[c - 1]@);
            assert(line@ =~= old(line)@ + row_text(texts(cells@), widths@, separator@, c as int));
        }
    }
}

fn push_rule(line: &mut String, columns: &Vec<String>, widths: &Vec<usize>, joint: char)
    requires
        widths@.len() == columns@.len(),
    ensures
        final(line)@ == old(line)@ + rule_text(texts(columns@), widths@, joint, columns@.len() as int),
{
    let mut c: usize = 0;
    proof {
        assert(line@ =~= old(line)@ + rule_text(texts(columns@), widths@, joint, 0));
    }
    while c < columns.len()
        invariant
            c <= columns@.len(),
            widths@.len() == columns@.len(),
            line@ == old(line)@ + rule_text(texts(columns@), widths@, joint, c as int),
        decreases columns@.len() - c,
    {
        if c > 0 {
            line.push(joint);
        }
        push_centered(line, columns[c].as_str(), widths[c], '═');
        c += 1;
        proof {
            assert(texts(columns@)[c - 1] == columns@[c - 1]@);
            assert(line@ =~= old(line)@ + rule_text(texts(columns@), widths@, joint, c as int));
        }
    }
}

impl Output {
    /// Width of each column of a table.
    pub fn widths(columns: &Vec<String>, rows: &Vec<Vec<String>>) -> (r: Vec<usize>)
        ensures
            are_widths(r@, texts(columns@), table(rows@)),
    {
        let mut widths: Vec<usize> = Vec::new();
        let mut c: usize = 0;
        while c < columns.len()
            invariant
                c <= columns@.len(),
                widths@.len() == c,
                forall|k: int| 0 <= k < c ==> #[trigger] widths@[k] == column_width(texts(columns@), table(rows@), k),
            decreases columns@.len() - c,
        {
            let mut width: usize = 0;
            let mut r: usize = 0;
            while r < rows.len()
                invariant
                    r <= rows@.len(),
                    width == widest_cell(table(rows@), c as int, r as int),
                decreases rows@.len() - r,
            {
                proof {
                    assert(table(rows@)[r as int] == texts(rows@[r as int]@));
                }
                if c < rows[r].len() {
                    proof {
                        assert(texts(rows@[r as int]@)[c as int] == rows@[r as int]@[c as int]@);
                    }
                    let taken = room_of(rows[r][c].as_str());
                    if taken > width {
                        width = taken;
                    }
                }
                r += 1;
            }
            proof {
                assert(texts(columns@)[c as int] == columns@[c as int]@);
            }
            let named = room_of(columns[c].as_str());
            widths.push(if named > width { named } else { width });
            c += 1;
        }
        widths
    }

    /// The lines of the table with these columns and rows. A cell that has
    /// no column is left out.
    pub fn render_table(&self, columns: &Vec<String>, rows: &Vec<Vec<String>>) -> (r: Vec<String>)
        ensures
            texts(r@) == table_lines(
                *self,
                texts(columns@),
                table(rows@),
                column_widths(texts(columns@), table(rows@)),
            ),
    {
        let widths = Output::widths(columns, rows);
        proof {
            assert(widths@ =~= column_widths(texts(columns@), table(rows@)));
        }
        let mut lines: Vec<String> = Vec::new();
        let mut head = String::new();
        match self {
            Output::Normal => {
                proof {
                    assert(drawn(texts(columns@), widths@) == columns@.len());
                }
                push_row(&mut head, columns, &widths, " ");
            },
            Output::Pretty => {
                head.push('╔');
                push_rule(&mut head, columns, &widths, '╤');
                head.push('╗');
            },
        }
        let ghost first = head@;
        lines.push(head);
        let mut i: usize = 0;
        while i < rows.len()
            invariant
                i <= rows@.len(),
                lines@.len() == i + 1,
                lines@[0]@ == first,
                forall|k: int| 0 <= k < i ==> (#[trigger] lines@[k + 1])@ == body_line(*self, table(rows@)[k], widths@),
            decreases rows@.len() - i,
        {
            let mut line = String::new();
            proof {
                assert(table(rows@)[i as int] == texts(rows@[i as int]@));
            }
            match self {
                Output::Normal => {
                    push_row(&mut line, &rows[i], &widths, " ");
                },
                Output::Pretty => {
                    push_text(&mut line, "║ ");
                    push_row(&mut line, &rows[i], &widths, " │ ");
                    push_text(&mut line, " ║");
                },
            }
            lines.push(line);
            i += 1;
        }
        match self {
            Output::Normal => {},
            Output::Pretty => {
                let mut foot = String::new();
                foot.push('╚');
                push_rule(&mut foot, columns, &widths, '╧');
                foot.push('╝');
                lines.push(foot);
            },
        }
        proof {
            let expected = table_lines(*self, texts(columns@), table(rows@), widths@);
            assert(texts(lines@).len() == expected.len());
            assert forall|k: int| 0 <= k < expected.len() implies texts(lines@)[k] == expected[k] by {
                if 1 <= k <= rows@.len() {
                    assert(lines@[(k - 1) + 1]@ == body_line(*self, table(rows@)[k - 1], widths@));
                }
            }
            assert(texts(lines@) =~= expected);
        }
        lines
    }
}

} // verus!
