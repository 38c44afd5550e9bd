//! The result table: rows of a query laid out as lines of text.

use vstd::prelude::*;
use vstd::string::StringExecFns;
use vstd::utf8::encode_utf8;
use crate::row::{index_of, keys_of, lookup, names_of, position, Row};

verus! {

/// A row to show, with the names of its columns.
pub struct DisplayRow {
    raw_row: Row,
    columns: Vec<String>,
}

impl DisplayRow {
    /// The columns of the row, each with its value.
    pub closed spec fn cells(&self) -> Seq<(Seq<char>, Seq<char>)> {
        self.raw_row.cells()
    }

    /// The row is well formed, and the names are those of its columns.
    pub closed spec fn wf(&self) -> bool {
        &&& self.raw_row.wf()
        &&& names_of(self.columns@) == keys_of(self.raw_row.cells())
    }

    /// The row to show for `row`.
    pub fn new(row: Row) -> (shown: DisplayRow)
        requires
            row.wf(),
        ensures
            shown.wf(),
            shown.cells() == row.cells(),
    {
        let mut columns: Vec<String> = Vec::new();
        let mut i: usize = 0;
        while i < row.len()
            invariant
                row.wf(),
                i <= row.cells().len(),
                columns@.len() == i,
                forall|j: int| 0 <= j < i ==> (#[trigger] columns@[j])@ == row.cells()[j].0,
            decreases row.cells().len() - i,
        {
            columns.push(row.column_at(i));
            i += 1;
        }
        assert(names_of(columns@) =~= keys_of(row.cells()));
        DisplayRow { raw_row: row, columns }
    }
}

/// The cells of each row of `rows`.
pub open spec fn shown_cells(rows: Seq<DisplayRow>) -> Seq<Seq<(Seq<char>, Seq<char>)>> {
    Seq::new(rows.len(), |i: int| rows[i].cells())
}

/// Every row of `rows` is well formed.
pub open spec fn all_shown_wf(rows: Seq<DisplayRow>) -> bool {
    forall|i: int| 0 <= i < rows.len() ==> (#[trigger] rows[i]).wf()
}

/// The rows to show for `maps`, in their order.
pub fn display_rows_from_maps(maps: Vec<Row>) -> (display_rows: Vec<DisplayRow>)
    requires
        forall|i: int| 0 <= i < maps@.len() ==> (#[trigger] maps@[i]).wf(),
    ensures
        all_shown_wf(display_rows@),
        display_rows@.len() == maps@.len(),
        forall|i: int|
            0 <= i < maps@.len() ==> (#[trigger] display_rows@[i]).cells() == maps@[i].cells(),
{
    let mut display_rows: Vec<DisplayRow> = Vec::new();
    let mut i: usize = 0;
    while i < maps.len()
        invariant
            i <= maps@.len(),
            forall|j: int| 0 <= j < maps@.len() ==> (#[trigger] maps@[j]).wf(),
            all_shown_wf(display_rows@),
            display_rows@.len() == i,
            forall|j: int|
                0 <= j < i ==> (#[trigger] display_rows@[j]).cells() == maps@[j].cells(),
        decreases maps@.len() - i,
    {
        display_rows.push(DisplayRow::new(maps[i].duplicate()));
        i += 1;
    }
    display_rows
}

/// `names` after the first `n` names of `more` were added: a name that is
/// there stays where it is, a new one goes to the end.
pub open spec fn with_names(names: Seq<Seq<char>>, more: Seq<Seq<char>>, n: nat) -> Seq<Seq<char>>
    decreases n,
{
    if n == 0 {
        names
    } else {
        let before = with_names(names, more, (n - 1) as nat);
        if position(before, more[n - 1]).is_some() {
            before
        } else {
            before.push(more[n - 1])
        }
    }
}

/// The columns of the first `n` rows: every name once, in the order in
/// which the rows first bring it.
pub open spec fn all_columns(rows: Seq<Seq<(Seq<char>, Seq<char>)>>, n: nat) -> Seq<Seq<char>>
    decreases n,
{
    if n == 0 {
        Seq::empty()
    } else {
        with_names(all_columns(rows, (n - 1) as nat), keys_of(rows[n - 1]), rows[n - 1].len())
    }
}

/// The number of bytes that `text` takes.
pub open spec fn byte_len(text: Seq<char>) -> nat {
    encode_utf8(text).len()
}

/// The width of column `name` over the first `n` rows: the greatest number
/// of bytes among the name and the values that the rows have for it.
pub open spec fn width_upto(rows: Seq<Seq<(Seq<char>, Seq<char>)>>, name: Seq<char>, n: nat) -> nat
    decreases n,
{
    if n == 0 {
        byte_len(name)
    } else {
        let before = width_upto(rows, name, (n - 1) as nat);
        match lookup(rows[n - 1], name) {
            Some(value) => if byte_len(value) > before {
                byte_len(value)
            } else {
                before
            },
            None => before,
        }
    }
}

/// The widths of the columns, in the columns' order.
pub open spec fn max_widths(rows: Seq<Seq<(Seq<char>, Seq<char>)>>, columns: Seq<Seq<char>>) -> Seq<
    nat,
> {
    Seq::new(columns.len(), |c: int| width_upto(rows, columns[c], rows.len()))
}

/// The widths as numbers without bound.
pub open spec fn widths_of(widths: Seq<usize>) -> Seq<nat> {
    Seq::new(widths.len(), |i: int| widths[i] as nat)
}

/// The number of terminal columns that `text` takes when it is shown.
pub uninterp spec fn display_width(text: Seq<char>) -> nat;

/// `n` blanks.
pub open spec fn blanks(n: nat) -> Seq<char> {
    Seq::new(n, |i: int| ' ')
}

/// `text`, which takes `taken` terminal columns, filled up with blanks on
/// its right to `width` columns; unchanged where it takes as many or more.
pub open spec fn padded(text: Seq<char>, taken: nat, width: nat) -> Seq<char> {
    if taken >= width {
        text
    } else {
        text + blanks((width - taken) as nat)
    }
}

/// `text` as a cell of a column of `width` terminal columns.
pub open spec fn cell(text: Seq<char>, width: nat) -> Seq<char> {
    padded(text, display_width(text), width)
}

/// `pad::PadStr::pad_to_width`: the text, and blanks on its right up to
/// `width` terminal columns where it takes fewer. The crate measures the
/// text by its Unicode display width.
#[verifier::external_body]
pub(crate) fn pad_to_width(text: &str, width: usize) -> (filled: String)
    ensures
        filled@ == padded(text@, display_width(text@), width as nat),
{
    pad::PadStr::pad_to_width(text, width)
}

/// The border line of a table whose inside is `total` columns wide.
pub open spec fn border(total: nat) -> Seq<char> {
    "+"@ + Seq::new(total, |i: int| '-') + "+"@
}

/// The line of column names, up to the column at place `n`: a divider,
/// then each name as a cell of its column, with a divider after it.
pub open spec fn column_line(columns: Seq<Seq<char>>, widths: Seq<nat>, n: nat) -> Seq<char>
    decreases n,
{
    if n == 0 {
        "|"@
    } else {
        column_line(columns, widths, (n - 1) as nat) + cell(columns[n - 1], widths[n - 1]) + "|"@
    }
}

/// What a row shows in column `name`: its value, or nothing.
pub open spec fn shown_value(cells: Seq<(Seq<char>, Seq<char>)>, name: Seq<char>) -> Seq<char> {
    match lookup(cells, name) {
        Some(value) => value,
        None => Seq::empty(),
    }
}

/// The line of one row, up to the column at place `n`: a divider, then
/// for each column what the row shows there as a cell, with a divider
/// after it.
pub open spec fn data_line(
    cells: Seq<(Seq<char>, Seq<char>)>,
    columns: Seq<Seq<char>>,
    widths: Seq<nat>,
    n: nat,
) -> Seq<char>
    decreases n,
{
    if n == 0 {
        "|"@
    } else {
        data_line(cells, columns, widths, (n - 1) as nat) + cell(
            shown_value(cells, columns[n - 1]),
            widths[n - 1],
        ) + "|"@
    }
}

/// The lines of the first `n` rows, each ended by a line break.
pub open spec fn data_lines(
    rows: Seq<Seq<(Seq<char>, Seq<char>)>>,
    columns: Seq<Seq<char>>,
    widths: Seq<nat>,
    n: nat,
) -> Seq<char>
    decreases n,
{
    if n == 0 {
        Seq::empty()
    } else {
        data_lines(rows, columns, widths, (n - 1) as nat) + data_line(
            rows[n - 1],
            columns,
            widths,
            columns.len(),
        ) + "\n"@
    }
}

/// The sum of the first `n` widths.
pub open spec fn width_sum(widths: Seq<nat>, n: nat) -> nat
    decreases n,
{
    if n == 0 {
        0
    } else {
        width_sum(widths, (n - 1) as nat) + widths[n - 1]
    }
}

/// The width of a table's inside: the widths of its columns and one
/// divider between each two.
pub open spec fn total_width(widths: Seq<nat>) -> nat {
    if widths.len() == 0 {
        0
    } else {
        (width_sum(widths, widths.len()) + widths.len() - 1) as nat
    }
}

/// The table of the rows: a border, the column names, a border, the rows,
/// a border.
pub open spec fn table_text(rows: Seq<Seq<(Seq<char>, Seq<char>)>>) -> Seq<char> {
    let columns = all_columns(rows, rows.len());
    let widths = max_widths(rows, columns);
    let edge = border(total_width(widths));
    edge + "\n"@ + column_line(columns, widths, columns.len()) + "\n"@ + edge + "\n"@ + data_lines(
        rows,
        columns,
        widths,
        rows.len(),
    ) + edge
}

/// The columns of the rows: every name once, in the order in which the
/// rows first bring it.
pub fn get_column_row(display_rows: &Vec<DisplayRow>) -> (columns: Vec<String>)
    requires
        all_shown_wf(display_rows@),
    ensures
        names_of(columns@) == all_columns(shown_cells(display_rows@), display_rows@.len()),
{
    let mut columns: Vec<String> = Vec::new();
    let mut i: usize = 0;
    assert(names_of(columns@) =~= all_columns(shown_cells(display_rows@), 0));
    while i < display_rows.len()
        invariant
            i <= display_rows@.len(),
            all_shown_wf(display_rows@),
            names_of(columns@) == all_columns(shown_cells(display_rows@), i as nat),
        decreases display_rows@.len() - i,
    {
        let shown = &display_rows[i];
        let ghost start = names_of(columns@);
        let ghost more = keys_of(shown.cells());
        assert(shown_cells(display_rows@)[i as int] == shown.cells());
        let mut k: usize = 0;
        while k < shown.columns.len()
            invariant
                shown.wf(),
                more == keys_of(shown.cells()),
                k <= shown.columns@.len(),
                shown.columns@.len() == more.len(),
                names_of(shown.columns@) == more,
                names_of(columns@) == with_names(start, more, k as nat),
            decreases shown.columns@.len() - k,
        {
            let ghost before = names_of(columns@);
            assert(names_of(shown.columns@)[k as int] == shown.columns@[k as int]@);
            if index_of(&columns, &shown.columns[k]).is_none() {
                columns.push(shown.columns[k].clone());
                assert(names_of(columns@) =~= before.push(more[k as int]));
            }
            k += 1;
        }
        i += 1;
    }
    columns
}

/// The width of each column: the greatest number of bytes among its name
/// and the values that the rows have for it.
pub fn get_max_widths(display_rows: &Vec<DisplayRow>, columns: &Vec<String>) -> (widths: Vec<usize>)
    requires
        all_shown_wf(display_rows@),
    ensures
        widths_of(widths@) == max_widths(shown_cells(display_rows@), names_of(columns@)),
{
    let mut widths: Vec<usize> = Vec::new();
    let mut c: usize = 0;
    while c < columns.len()
        invariant
            c <= columns@.len(),
            all_shown_wf(display_rows@),
            widths@.len() == c,
            forall|d: int|
                0 <= d < c ==> (#[trigger] widths@[d]) as nat == width_upto(
                    shown_cells(display_rows@),
                    columns@[d]@,
                    display_rows@.len() as nat,
                ),
        decreases columns@.len() - c,
    {
        let name = &columns[c];
        let mut width: usize = name.as_str().as_bytes().len();
        let mut i: usize = 0;
        while i < display_rows.len()
            invariant
                i <= display_rows@.len(),
                all_shown_wf(display_rows@),
                width as nat == width_upto(shown_cells(display_rows@), name@, i as nat),
            decreases display_rows@.len() - i,
        {
            assert(shown_cells(display_rows@)[i as int] == display_rows@[i as int].cells());
            match display_rows[i].raw_row.get(name) {
                Some(value) => {
                    let length: usize = value.as_str().as_bytes().len();
                    if length > width {
                        width = length;
                    }
                },
                None => {},
            }
            i += 1;
        }
        widths.push(width);
        c += 1;
    }
    assert(widths_of(widths@) =~= max_widths(shown_cells(display_rows@), names_of(columns@)));
    widths
}

/// The border line of a table whose inside is `total_width` columns wide.
pub fn get_first_display_line(total_width: usize) -> (line: String)
    ensures
        line@ == border(total_width as nat),
{
    proof {
        reveal_strlit("-");
    }
    let mut line = String::from_str("+");
    let mut i: usize = 0;
    assert(line@ =~= "+"@ + Seq::new(0, |k: int| '-'));
    while i < total_width
        invariant
            i <= total_width,
            "-"@ == seq!['-'],
            line@ == "+"@ + Seq::new(i as nat, |k: int| '-'),
        decreases total_width - i,
    {
        line.append("-");
        i += 1;
        assert(line@ =~= "+"@ + Seq::new(i as nat, |k: int| '-'));
    }
    line.append("+");
    line
}

/// The line of column names, with a divider before the first, between each
/// two and after the last.
pub fn get_column_display_line(columns: &Vec<String>, max_widths: &Vec<usize>) -> (line: String)
    requires
        max_widths@.len() == columns@.len(),
    ensures
        line@ == column_line(names_of(columns@), widths_of(max_widths@), columns@.len() as nat),
{
    let mut line = String::from_str("|");
    let mut i: usize = 0;
    while i < columns.len()
        invariant
            i <= columns@.len(),
            max_widths@.len() == columns@.len(),
            line@ == column_line(names_of(columns@), widths_of(max_widths@), i as nat),
        decreases columns@.len() - i,
    {
        let filled = pad_to_width(columns[i].as_str(), max_widths[i]);
        assert(names_of(columns@)[i as int] == columns@[i as int]@);
        line.append(filled.as_str());
        line.append("|");
        i += 1;
    }
    line
}

/// The line of one row.
fn get_data_display_line(shown: &DisplayRow, columns: &Vec<String>, max_widths: &Vec<usize>) -> (line:
    String)
    requires
        shown.wf(),
        max_widths@.len() == columns@.len(),
    ensures
        line@ == data_line(
            shown.cells(),
            names_of(columns@),
            widths_of(max_widths@),
            columns@.len() as nat,
        ),
{
    let mut line = String::from_str("|");
    let mut i: usize = 0;
    while i < columns.len()
        invariant
            i <= columns@.len(),
            shown.wf(),
            max_widths@.len() == columns@.len(),
            line@ == data_line(
                shown.cells(),
                names_of(columns@),
                widths_of(max_widths@),
                i as nat,
            ),
        decreases columns@.len() - i,
    {
        let content = match shown.raw_row.get(&columns[i]) {
            Some(value) => value,
            None => String::new(),
        };
        let filled = pad_to_width(content.as_str(), max_widths[i]);
        assert(names_of(columns@)[i as int] == columns@[i as int]@);
        line.append(filled.as_str());
        line.append("|");
        i += 1;
    }
    line
}

/// The lines of the rows, each ended by a line break: in every line a
/// divider before the first cell, between each two and after the last; a
/// row shows nothing in a column that it does not have.
pub fn get_data_display_lines(
    display_rows: Vec<DisplayRow>,
    columns: Vec<String>,
    max_widths: Vec<usize>,
) -> (lines: String)
    requires
        all_shown_wf(display_rows@),
        max_widths@.len() == columns@.len(),
    ensures
        lines@ == data_lines(
            shown_cells(display_rows@),
            names_of(columns@),
            widths_of(max_widths@),
            display_rows@.len() as nat,
        ),
{
    let mut lines = String::new();
    let mut i: usize = 0;
    while i < display_rows.len()
        invariant
            i <= display_rows@.len(),
            all_shown_wf(display_rows@),
            max_widths@.len() == columns@.len(),
            lines@ == data_lines(
                shown_cells(display_rows@),
                names_of(columns@),
                widths_of(max_widths@),
                i as nat,
            ),
        decreases display_rows@.len() - i,
    {
        let ghost before = lines@;
        assert(shown_cells(display_rows@)[i as int] == display_rows@[i as int].cells());
        let line = get_data_display_line(&display_rows[i], &columns, &max_widths);
        lines.append(line.as_str());
        lines.append("\n");
        assert(lines@ =~= before + line@ + "\n"@);
        i += 1;
    }
    lines
}

/// The sum of the first `n` widths is at most the sum of the first `m`.
pub proof fn lemma_width_sum_grows(widths: Seq<nat>, n: nat, m: nat)
    requires
        n <= m,
    ensures
        width_sum(widths, n) <= width_sum(widths, m),
    decreases m,
{
    if n < m {
        lemma_width_sum_grows(widths, n, (m - 1) as nat);
    }
}

/// The width of the inside of a table with these column widths; `None`
/// where it is more than the machine can count.
pub fn get_total_width(max_widths: &Vec<usize>) -> (total: Option<usize>)
    ensures
        match total {
            Some(width) => width as nat == total_width(widths_of(max_widths@)),
            None => total_width(widths_of(max_widths@)) > usize::MAX,
        },
{
    let ghost widths = widths_of(max_widths@);
    if max_widths.len() == 0 {
        return Some(0);
    }
    let mut sum: usize = 0;
    let mut i: usize = 0;
    while i < max_widths.len()
        invariant
            i <= max_widths@.len(),
            widths == widths_of(max_widths@),
            sum as nat == width_sum(widths, i as nat),
        decreases max_widths@.len() - i,
    {
        assert(widths[i as int] == max_widths@[i as int] as nat);
        match sum.checked_add(max_widths[i]) {
            Some(next) => {
                sum = next;
            },
            None => {
                proof {
                    lemma_width_sum_grows(widths, (i + 1) as nat, widths.len());
                }
                return None;
            },
        }
        i += 1;
    }
    sum.checked_add(max_widths.len() - 1)
}

/// The table of the rows as text: a border, the column names, a border,
/// the rows, a border. `None` where the table is wider than the machine
/// can count.
pub fn render_table(display_rows: Vec<DisplayRow>) -> (table: Option<String>)
    requires
        all_shown_wf(display_rows@),
    ensures
        match table {
            Some(text) => text@ == table_text(shown_cells(display_rows@)),
            None => total_width(
                max_widths(
                    shown_cells(display_rows@),
                    all_columns(shown_cells(display_rows@), display_rows@.len()),
                ),
            ) > usize::MAX,
        },
{
    let columns = get_column_row(&display_rows);
    let max_widths = get_max_widths(&display_rows, &columns);
    let total_width = match get_total_width(&max_widths) {
        Some(width) => width,
        None => {
            return None;
        },
    };
    let first_line = get_first_display_line(total_width);
    let column_row = get_column_display_line(&columns, &max_widths);
    let ghost rows = shown_cells(display_rows@);
    let render_rows = get_data_display_lines(display_rows, columns, max_widths);
    let mut text = first_line.clone();
    text.append("\n");
    text.append(column_row.as_str());
    text.append("\n");
    text.append(first_line.as_str());
    text.append("\n");
    text.append(render_rows.as_str());
    text.append(first_line.as_str());
    assert(text@ =~= table_text(rows));
    Some(text)
}

} // verus!
