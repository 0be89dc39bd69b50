//! Rendering a header and rows of cells as a bordered, aligned text table.
//!
//! Widths are counted in characters. All widths are measured before any line
//! is drawn, so that a wide cell in a late row widens every line.

use vstd::prelude::*;
use vstd::string::*;
use crate::text::repeated;

verus! {

/// One row of cells as mathematical values.
pub type Row = Seq<Seq<char>>;

/// Why a table cannot be rendered.
#[derive(Debug, Clone, Copy, PartialEq, Eq, Structural)]
pub enum RenderError {
    /// The header has no columns.
    NoColumns,
    /// The row at this index does not have one cell per column.
    RowLength(usize),
    /// A rule line would be longer than the largest `usize`.
    TooWide,
}

/// There is at least one column, and every row has one cell per column.
pub open spec fn well_shaped(columns: Row, rows: Seq<Row>) -> bool {
    &&& columns.len() > 0
    &&& forall|r: int| 0 <= r < rows.len() ==> (#[trigger] rows[r]).len() == columns.len()
}

/// Row `r` is the first whose number of cells differs from the header's.
pub open spec fn first_ragged(columns: Row, rows: Seq<Row>, r: int) -> bool {
    &&& 0 <= r < rows.len()
    &&& rows[r].len() != columns.len()
    &&& forall|q: int| 0 <= q < r ==> (#[trigger] rows[q]).len() == columns.len()
}

/// The larger of two lengths.
pub open spec fn larger(a: nat, b: nat) -> nat {
    if a >= b {
        a
    } else {
        b
    }
}

/// The width of column `c`: the largest character count among its header
/// cell and its body cells.
pub open spec fn column_width(columns: Row, rows: Seq<Row>, c: int) -> nat
    decreases rows.len(),
{
    if rows.len() == 0 {
        columns[c].len()
    } else {
        larger(column_width(columns, rows.drop_last(), c), rows.last()[c].len())
    }
}

/// The widths of all columns.
pub open spec fn measured(columns: Row, rows: Seq<Row>) -> Seq<nat> {
    Seq::new(columns.len(), |c: int| column_width(columns, rows, c))
}

/// The sum of `widths`.
pub open spec fn sum(widths: Seq<nat>) -> nat
    decreases widths.len(),
{
    if widths.len() == 0 {
        0
    } else {
        sum(widths.drop_last()) + widths.last()
    }
}

/// The length of every line of a table with these column widths: the widths
/// themselves, four characters for the outer borders and margins, and three
/// for each separation between two columns.
pub open spec fn rule_width(widths: Seq<nat>) -> int {
    sum(widths) + 4 + 3 * (widths.len() - 1)
}

/// A rule line: `fill` repeated `width` times.
pub open spec fn rule(fill: char, width: int) -> Seq<char> {
    Seq::new(width as nat, |i: int| fill)
}

/// The number of spaces that pad `cell` to `width`.
pub open spec fn padding(cell: Seq<char>, width: nat) -> nat {
    if width >= cell.len() {
        (width - cell.len()) as nat
    } else {
        0
    }
}

/// One cell as drawn: a bar and a space, the text, the padding, and a
/// trailing space.
pub open spec fn padded_cell(cell: Seq<char>, width: nat) -> Seq<char> {
    seq!['|', ' '] + cell + Seq::new(padding(cell, width), |i: int| ' ') + seq![' ']
}

/// The first `count` cells of a row as drawn, one after another.
pub open spec fn drawn_cells(cells: Row, widths: Seq<nat>, count: nat) -> Seq<char> {
    Seq::new(count, |i: int| padded_cell(cells[i], widths[i])).flatten()
}

/// A header or body line: every cell as drawn, closed by a final bar.
pub open spec fn row_line(cells: Row, widths: Seq<nat>) -> Seq<char> {
    drawn_cells(cells, widths, cells.len()) + seq!['|']
}

/// The whole table: top border, header line, double rule, one line per row,
/// bottom border.
pub open spec fn table_lines(columns: Row, rows: Seq<Row>) -> Seq<Seq<char>> {
    let widths = measured(columns, rows);
    let width = rule_width(widths);
    seq![rule('-', width), row_line(columns, widths), rule('=', width)] + Seq::new(
        rows.len(),
        |r: int| row_line(rows[r], widths),
    ) + seq![rule('-', width)]
}

/// Widths held in machine words, as mathematical lengths.
pub open spec fn as_nats(widths: Seq<usize>) -> Seq<nat> {
    Seq::new(widths.len(), |i: int| widths[i] as nat)
}

/// Checks that there is a column and that every row has one cell per
/// column, naming the first row that does not.
pub fn check_shape(columns: &Vec<String>, rows: &Vec<Vec<String>>) -> (result: Result<
    (),
    RenderError,
>)
    ensures
        match result {
            Ok(_) => well_shaped(columns.deep_view(), rows.deep_view()),
            Err(RenderError::NoColumns) => columns.len() == 0,
            Err(RenderError::RowLength(at)) => columns.len() > 0 && first_ragged(
                columns.deep_view(),
                rows.deep_view(),
                at as int,
            ),
            Err(RenderError::TooWide) => false,
        },
{
    if columns.len() == 0 {
        return Err(RenderError::NoColumns);
    }
    let mut r: usize = 0;
    while r < rows.len()
        invariant
            r <= rows.len(),
            columns.len() > 0,
            forall|q: int|
                0 <= q < r ==> (#[trigger] rows.deep_view()[q]).len() == columns.deep_view().len(),
        decreases rows.len() - r,
    {
        if rows[r].len() != columns.len() {
            return Err(RenderError::RowLength(r));
        }
        r += 1;
    }
    Ok(())
}

/// Measures every column: the first pass of rendering.
pub fn column_widths(columns: &Vec<String>, rows: &Vec<Vec<String>>) -> (result: Result<
    Vec<usize>,
    RenderError,
>)
    ensures
        match result {
            Ok(widths) => well_shaped(columns.deep_view(), rows.deep_view()) && as_nats(widths@)
                == measured(columns.deep_view(), rows.deep_view()),
            Err(RenderError::NoColumns) => columns.len() == 0,
            Err(RenderError::RowLength(at)) => columns.len() > 0 && first_ragged(
                columns.deep_view(),
                rows.deep_view(),
                at as int,
            ),
            Err(RenderError::TooWide) => false,
        },
{
    match check_shape(columns, rows) {
        Ok(_) => {},
        Err(e) => {
            return Err(e);
        },
    }
    let ghost header = columns.deep_view();
    let ghost body = rows.deep_view();
    let mut widths: Vec<usize> = Vec::new();
    let mut c: usize = 0;
    while c < columns.len()
        invariant
            c <= columns.len(),
            widths.len() == c,
            header == columns.deep_view(),
            forall|k: int|
                0 <= k < c ==> widths[k] as nat == column_width(header, Seq::<Row>::empty(), k),
        decreases columns.len() - c,
    {
        let len = columns[c].as_str().unicode_len();
        widths.push(len);
        c += 1;
    }
    let mut r: usize = 0;
    while r < rows.len()
        invariant
            r <= rows.len(),
            widths.len() == columns.len(),
            header == columns.deep_view(),
            body == rows.deep_view(),
            well_shaped(header, body),
            forall|k: int|
                0 <= k < widths.len() ==> widths[k] as nat == column_width(
                    header,
                    body.take(r as int),
                    k,
                ),
        decreases rows.len() - r,
    {
        let row = &rows[r];
        assert(body.take(r + 1).last() == body[r as int]);
        let mut c: usize = 0;
        while c < row.len()
            invariant
                c <= row.len(),
                row.len() == widths.len(),
                0 <= r < body.len(),
                body[r as int] == row.deep_view(),
                body.take(r + 1).drop_last() == body.take(r as int),
                body.take(r + 1).last() == body[r as int],
                forall|k: int|
                    0 <= k < c ==> widths[k] as nat == column_width(header, body.take(r + 1), k),
                forall|k: int|
                    c <= k < widths.len() ==> widths[k] as nat == column_width(
                        header,
                        body.take(r as int),
                        k,
                    ),
            decreases row.len() - c,
        {
            let len = row[c].as_str().unicode_len();
            if len > widths[c] {
                widths.set(c, len);
            }
            c += 1;
        }
        r += 1;
    }
    assert(body.take(rows.len() as int) =~= body);
    Ok(widths)
}

/// The length of every line of a table with these column widths.
pub fn total_width(widths: &Vec<usize>) -> (result: Result<usize, RenderError>)
    ensures
        match result {
            Ok(width) => widths.len() > 0 && width == rule_width(as_nats(widths@)),
            Err(RenderError::NoColumns) => widths.len() == 0,
            Err(RenderError::TooWide) => widths.len() > 0 && rule_width(as_nats(widths@))
                > usize::MAX,
            Err(RenderError::RowLength(_)) => false,
        },
{
    if widths.len() == 0 {
        return Err(RenderError::NoColumns);
    }
    let ghost all = as_nats(widths@);
    let mut total: usize = 0;
    let mut i: usize = 0;
    while i < widths.len()
        invariant
            i <= widths.len(),
            all == as_nats(widths@),
            total == sum(all.take(i as int)),
        decreases widths.len() - i,
    {
        proof {
            assert(all.take(i + 1).drop_last() =~= all.take(i as int));
            lemma_sum_of_prefix(all, i + 1);
        }
        match total.checked_add(widths[i]) {
            Some(more) => {
                total = more;
            },
            None => {
                return Err(RenderError::TooWide);
            },
        }
        i += 1;
    }
    assert(all.take(widths.len() as int) =~= all);
    let between = match (widths.len() - 1).checked_mul(3) {
        Some(b) => b,
        None => {
            return Err(RenderError::TooWide);
        },
    };
    let around = match between.checked_add(4) {
        Some(a) => a,
        None => {
            return Err(RenderError::TooWide);
        },
    };
    match total.checked_add(around) {
        Some(width) => Ok(width),
        None => Err(RenderError::TooWide),
    }
}

/// Draws one header or body line.
fn draw_row(cells: &Vec<String>, widths: &Vec<usize>) -> (line: String)
    requires
        cells.len() == widths.len(),
    ensures
        line@ == row_line(cells.deep_view(), as_nats(widths@)),
{
    let ghost texts = cells.deep_view();
    let ghost sizes = as_nats(widths@);
    let ghost drawn = |i: int| padded_cell(texts[i], sizes[i]);
    let mut line = String::new();
    let mut c: usize = 0;
    proof {
        reveal_strlit("| ");
        reveal_strlit(" ");
        reveal_strlit("|");
    }
    while c < cells.len()
        invariant
            c <= cells.len(),
            cells.len() == widths.len(),
            texts == cells.deep_view(),
            sizes == as_nats(widths@),
            drawn == (|i: int| padded_cell(texts[i], sizes[i])),
            "| "@ == seq!['|', ' '],
            " "@ == seq![' '],
            line@ == Seq::new(c as nat, drawn).flatten(),
        decreases cells.len() - c,
    {
        let cell = cells[c].as_str();
        let len = cell.unicode_len();
        let pad: usize = if widths[c] >= len { widths[c] - len } else { 0 };
        line.append("| ");
        line.append(cell);
        line.append(repeated(" ", pad).as_str());
        line.append(" ");
        proof {
            assert(Seq::new((c + 1) as nat, drawn) =~= Seq::new(c as nat, drawn).push(
                drawn(c as int),
            ));
            Seq::new(c as nat, drawn).lemma_flatten_push(drawn(c as int));
        }
        c += 1;
    }
    line.append("|");
    line
}

/// Renders the table: measures every column, then draws the top border, the
/// header line, the double rule, one line per row, and the bottom border.
/// A malformed input is refused before any line is drawn.
pub fn render(columns: &Vec<String>, rows: &Vec<Vec<String>>) -> (result: Result<
    Vec<String>,
    RenderError,
>)
    ensures
        match result {
            Ok(lines) => {
                &&& well_shaped(columns.deep_view(), rows.deep_view())
                &&& rule_width(measured(columns.deep_view(), rows.deep_view())) <= usize::MAX
                &&& lines.deep_view() == table_lines(columns.deep_view(), rows.deep_view())
                &&& lines.len() == rows.len() + 4
                &&& forall|i: int|
                    0 <= i < lines.len() ==> (#[trigger] lines[i])@.len() == rule_width(
                        measured(columns.deep_view(), rows.deep_view()),
                    )
            },
            Err(RenderError::NoColumns) => columns.len() == 0,
            Err(RenderError::RowLength(at)) => columns.len() > 0 && first_ragged(
                columns.deep_view(),
                rows.deep_view(),
                at as int,
            ),
            Err(RenderError::TooWide) => {
                &&& well_shaped(columns.deep_view(), rows.deep_view())
                &&& rule_width(measured(columns.deep_view(), rows.deep_view())) > usize::MAX
            },
        },
{
    let widths = match column_widths(columns, rows) {
        Ok(w) => w,
        Err(e) => {
            return Err(e);
        },
    };
    let width = match total_width(&widths) {
        Ok(w) => w,
        Err(e) => {
            return Err(e);
        },
    };
    let ghost header = columns.deep_view();
    let ghost body = rows.deep_view();
    let ghost sizes = as_nats(widths@);
    proof {
        reveal_strlit("-");
        reveal_strlit("=");
    }
    let mut lines: Vec<String> = Vec::new();
    lines.push(repeated("-", width));
    lines.push(draw_row(columns, &widths));
    lines.push(repeated("=", width));
    let ghost top = lines.deep_view();
    assert(top == seq![rule('-', width as int), row_line(header, sizes), rule('=', width as int)]);
    let mut r: usize = 0;
    while r < rows.len()
        invariant
            r <= rows.len(),
            widths.len() == columns.len(),
            body == rows.deep_view(),
            sizes == as_nats(widths@),
            well_shaped(header, body),
            header.len() == columns.len(),
            lines.deep_view() == top + Seq::new(r as nat, |q: int| row_line(body[q], sizes)),
        decreases rows.len() - r,
    {
        let ghost before = lines.deep_view();
        assert(body[r as int].len() == header.len());
        lines.push(draw_row(&rows[r], &widths));
        assert(lines.deep_view() =~= before.push(row_line(body[r as int], sizes)));
        r += 1;
    }
    let ghost before = lines.deep_view();
    lines.push(repeated("-", width));
    assert(lines.deep_view() =~= before.push(rule('-', width as int)));
    assert(lines.deep_view() =~= table_lines(header, body));
    proof {
        lemma_table_lines_shape(header, body);
        assert forall|i: int| 0 <= i < lines.len() implies (#[trigger] lines[i])@.len()
            == rule_width(measured(header, body)) by {
            assert(lines.deep_view()[i] == lines[i]@);
        }
    }
    Ok(lines)
}

/// A column's width is the maximum of its cells' character counts: no cell
/// of the column is longer, and some cell of it is exactly that long.
pub proof fn lemma_column_width_is_max(columns: Row, rows: Seq<Row>, c: int)
    ensures
        column_width(columns, rows, c) >= columns[c].len(),
        forall|r: int|
            0 <= r < rows.len() ==> column_width(columns, rows, c) >= (#[trigger] rows[r])[c].len(),
        column_width(columns, rows, c) == columns[c].len() || exists|r: int|
            0 <= r < rows.len() && column_width(columns, rows, c) == (#[trigger] rows[r])[c].len(),
    decreases rows.len(),
{
    if rows.len() > 0 {
        let earlier = rows.drop_last();
        lemma_column_width_is_max(columns, earlier, c);
        assert forall|r: int| 0 <= r < rows.len() implies column_width(columns, rows, c) >= (
        #[trigger] rows[r])[c].len() by {
            if r < rows.len() - 1 {
                assert(earlier[r] == rows[r]);
            }
        }
        let width = column_width(columns, rows, c);
        if width != columns[c].len() && width != rows.last()[c].len() {
            let r = choose|r: int|
                0 <= r < earlier.len() && width == (#[trigger] earlier[r])[c].len();
            assert(rows[r][c].len() == width);
        }
    }
}

/// The sum of the first `count` widths never exceeds the sum of all.
pub proof fn lemma_sum_of_prefix(widths: Seq<nat>, count: int)
    requires
        0 <= count <= widths.len(),
    ensures
        sum(widths.take(count)) <= sum(widths),
    decreases widths.len(),
{
    if count == widths.len() {
        assert(widths.take(count) =~= widths);
    } else {
        lemma_sum_of_prefix(widths.drop_last(), count);
        assert(widths.drop_last().take(count) =~= widths.take(count));
    }
}

/// The first `count` cells as drawn take their widths and three more
/// characters each, provided each cell fits its column.
pub proof fn lemma_drawn_cells_len(cells: Row, widths: Seq<nat>, count: nat)
    requires
        count <= cells.len(),
        count <= widths.len(),
        forall|i: int| 0 <= i < count ==> (#[trigger] cells[i]).len() <= widths[i],
    ensures
        drawn_cells(cells, widths, count).len() == sum(widths.take(count as int)) + 3 * count,
    decreases count,
{
    let drawn = |i: int| padded_cell(cells[i], widths[i]);
    if count > 0 {
        let fewer = (count - 1) as nat;
        lemma_drawn_cells_len(cells, widths, fewer);
        assert(Seq::new(count, drawn) =~= Seq::new(fewer, drawn).push(drawn(fewer as int)));
        Seq::new(fewer, drawn).lemma_flatten_push(drawn(fewer as int));
        assert(widths.take(count as int).drop_last() =~= widths.take(fewer as int));
    }
}

/// A line drawn from cells that fit their columns is exactly as long as the
/// rule lines.
pub proof fn lemma_row_line_len(cells: Row, widths: Seq<nat>)
    requires
        cells.len() == widths.len(),
        forall|i: int| 0 <= i < cells.len() ==> (#[trigger] cells[i]).len() <= widths[i],
    ensures
        row_line(cells, widths).len() == rule_width(widths),
{
    lemma_drawn_cells_len(cells, widths, cells.len());
    assert(widths.take(widths.len() as int) =~= widths);
}

/// The table of a well-shaped input has four lines around its body lines,
/// one body line per row, and every line is as long as the rule width: the
/// header line and the body lines as well as the three rule lines.
pub proof fn lemma_table_lines_shape(columns: Row, rows: Seq<Row>)
    requires
        well_shaped(columns, rows),
    ensures
        table_lines(columns, rows).len() == rows.len() + 4,
        forall|i: int|
            0 <= i < rows.len() + 4 ==> (#[trigger] table_lines(columns, rows)[i]).len()
                == rule_width(measured(columns, rows)),
        table_lines(columns, rows)[0] == rule('-', rule_width(measured(columns, rows))),
        table_lines(columns, rows)[2] == rule('=', rule_width(measured(columns, rows))),
        table_lines(columns, rows)[rows.len() as int + 3] == rule(
            '-',
            rule_width(measured(columns, rows)),
        ),
{
    let widths = measured(columns, rows);
    let width = rule_width(widths);
    let lines = table_lines(columns, rows);
    assert forall|c: int| 0 <= c < columns.len() implies (#[trigger] columns[c]).len()
        <= widths[c] by {
        lemma_column_width_is_max(columns, rows, c);
    }
    lemma_row_line_len(columns, widths);
    assert forall|i: int| 0 <= i < rows.len() + 4 implies (#[trigger] lines[i]).len() == width by {
        if 3 <= i < rows.len() + 3 {
            let row = rows[i - 3];
            assert forall|c: int| 0 <= c < row.len() implies (#[trigger] row[c]).len()
                <= widths[c] by {
                lemma_column_width_is_max(columns, rows, c);
            }
            lemma_row_line_len(row, widths);
        }
    }
}

} // verus!
