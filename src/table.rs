//! Tables: an optional title row, body rows and a format; and read-only
//! views of a contiguous range of a table's rows.
use vstd::prelude::*;
use vstd::std_specs::iter::IteratorSpec;

use crate::cell::{max_width, text_lines, Attr, Cell};
use crate::consts::{default_format, format_default};
use crate::format::{Alignment, FormatView, LinePosition, TableFormat};
use crate::row::Row;
use crate::utils::StringWriter;

verus! {

/// What a table or a table slice holds.
pub struct TableView {
    pub format: FormatView,
    pub titles: Option<Row>,
    pub rows: Seq<Row>,
}

/// The larger of `a` and `b`.
pub open spec fn max_nat(a: nat, b: nat) -> nat {
    if a >= b {
        a
    } else {
        b
    }
}

/// The largest number of cells in one of `rows`.
pub open spec fn rows_max_len(rows: Seq<Row>) -> nat
    decreases rows.len(),
{
    if rows.len() == 0 {
        0
    } else {
        max_nat(rows_max_len(rows.drop_last()), rows.last()@.len())
    }
}

/// Number of cells of the title row; 0 without one.
pub open spec fn titles_len(titles: Option<Row>) -> nat {
    match titles {
        Some(t) => t@.len(),
        None => 0,
    }
}

/// Number of columns: the length of the longest row, title row included.
pub open spec fn column_count(titles: Option<Row>, rows: Seq<Row>) -> nat {
    max_nat(titles_len(titles), rows_max_len(rows))
}

/// The largest width of a cell of column `col` among `rows`.
pub open spec fn rows_cell_width(rows: Seq<Row>, col: int) -> nat
    decreases rows.len(),
{
    if rows.len() == 0 {
        0
    } else {
        max_nat(rows_cell_width(rows.drop_last(), col), rows.last().cell_width_spec(col))
    }
}

/// Width of the title cell of column `col`; 0 without one.
pub open spec fn title_cell_width(titles: Option<Row>, col: int) -> nat {
    match titles {
        Some(t) => t.cell_width_spec(col),
        None => 0,
    }
}

/// Width of column `col`: its widest cell, title included; a missing cell
/// counts as 0.
pub open spec fn column_width(titles: Option<Row>, rows: Seq<Row>, col: int) -> nat {
    max_nat(title_cell_width(titles, col), rows_cell_width(rows, col))
}

/// The width of every column.
pub open spec fn column_widths(titles: Option<Row>, rows: Seq<Row>) -> Seq<usize> {
    Seq::new(column_count(titles, rows), |i: int| column_width(titles, rows, i) as usize)
}

/// The body rows, with the separator between rows (not after the last).
pub open spec fn rows_text(fmt: FormatView, widths: Seq<usize>, rows: Seq<Row>) -> Seq<char>
    decreases rows.len(),
{
    if rows.len() == 0 {
        Seq::empty()
    } else if rows.len() == 1 {
        rows[0].text(fmt, widths)
    } else {
        rows_text(fmt, widths, rows.drop_last()) + fmt.line_text(widths, LinePosition::Intern)
            + rows.last().text(fmt, widths)
    }
}

impl TableView {
    /// The whole table as printed: top separator, title row and its
    /// separator, body rows, bottom separator.
    pub open spec fn rendered(self) -> Seq<char> {
        let widths = column_widths(self.titles, self.rows);
        self.format.line_text(widths, LinePosition::Top) + (match self.titles {
            Some(t) => t.text(self.format, widths) + self.format.line_text(widths, LinePosition::Title),
            None => Seq::empty(),
        }) + rows_text(self.format, widths, self.rows) + self.format.line_text(
            widths,
            LinePosition::Bottom,
        )
    }
}

/// The width of a column is the largest width of its cells, title cell
/// included; a row without a cell there counts as 0.
pub proof fn lemma_column_width_is_max(titles: Option<Row>, rows: Seq<Row>, col: int)
    ensures
        title_cell_width(titles, col) <= column_width(titles, rows, col),
        forall|k: int| 0 <= k < rows.len() ==> #[trigger] rows[k].cell_width_spec(col) <= column_width(titles, rows, col),
        column_width(titles, rows, col) == title_cell_width(titles, col) || exists|k: int|
            0 <= k < rows.len() && column_width(titles, rows, col) == #[trigger] rows[k].cell_width_spec(col),
{
    lemma_rows_cell_width_is_max(rows, col);
}

proof fn lemma_rows_cell_width_is_max(rows: Seq<Row>, col: int)
    ensures
        forall|k: int| 0 <= k < rows.len() ==> #[trigger] rows[k].cell_width_spec(col) <= rows_cell_width(rows, col),
        rows_cell_width(rows, col) == 0 || exists|k: int|
            0 <= k < rows.len() && rows_cell_width(rows, col) == #[trigger] rows[k].cell_width_spec(col),
    decreases rows.len(),
{
    if rows.len() > 0 {
        let prev = rows.drop_last();
        lemma_rows_cell_width_is_max(prev, col);
        assert forall|k: int| 0 <= k < rows.len() implies #[trigger] rows[k].cell_width_spec(col) <= rows_cell_width(rows, col) by {
            if k < rows.len() - 1 {
                assert(rows[k] == prev[k]);
            }
        }
        if rows_cell_width(rows, col) != rows.last().cell_width_spec(col) && rows_cell_width(rows, col) != 0 {
            let k = choose|k: int| 0 <= k < prev.len() && rows_cell_width(prev, col) == #[trigger] prev[k].cell_width_spec(col);
            assert(rows[k] == prev[k]);
        }
    }
}

/// Rendering depends on the table alone: two renderings of a table that
/// did not change between them are identical.
pub proof fn lemma_render_idempotent(t: TableView, first: Seq<char>, second: Seq<char>)
    requires
        first == t.rendered(),
        second == t.rendered(),
    ensures
        first == second,
{
}

/// Slicing rows `c..d` of the slice of rows `a..b` renders as slicing rows
/// `a + c..a + d` of the table.
pub proof fn lemma_slice_of_slice(t: TableView, a: int, b: int, c: int, d: int)
    requires
        0 <= a <= b <= t.rows.len(),
        0 <= c <= d <= b - a,
    ensures
        (TableView { rows: t.rows.subrange(a, b).subrange(c, d), ..t }).rendered() == (TableView {
            rows: t.rows.subrange(a + c, a + d),
            ..t
        }).rendered(),
{
    assert(t.rows.subrange(a, b).subrange(c, d) =~= t.rows.subrange(a + c, a + d));
}

/// A borrowed, read-only view of a range of a table's rows, sharing the
/// table's format and title row.
pub struct TableSlice<'a> {
    format: &'a TableFormat,
    titles: &'a Option<Row>,
    rows: &'a [Row],
}

impl<'a> View for TableSlice<'a> {
    type V = TableView;

    closed spec fn view(&self) -> TableView {
        TableView { format: self.format@, titles: *self.titles, rows: self.rows@ }
    }
}

impl<'a> TableSlice<'a> {
    /// Number of columns: the length of the longest row, title row included.
    pub fn get_column_num(&self) -> (r: usize)
        ensures
            r == column_count(self@.titles, self@.rows),
    {
        let mut cnum: usize = match self.titles {
            Some(t) => t.len(),
            None => 0,
        };
        let ghost rows = self@.rows;
        let mut rmax: usize = 0;
        for k in 0..self.rows.len()
            invariant
                rows == self.rows@,
                rmax == rows_max_len(rows.subrange(0, k as int)),
        {
            let l = self.rows[k].len();
            assert(rows.subrange(0, k + 1).drop_last() =~= rows.subrange(0, k as int));
            if l > rmax {
                rmax = l;
            }
        }
        assert(rows.subrange(0, rows.len() as int) =~= rows);
        if rmax > cnum {
            cnum = rmax;
        }
        cnum
    }

    /// Number of body rows.
    pub fn len(&self) -> (r: usize)
        ensures
            r == self@.rows.len(),
    {
        self.rows.len()
    }

    /// The body row at `row`, if there is one.
    pub fn get_row(&self, row: usize) -> (r: Option<&Row>)
        ensures
            row < self@.rows.len() ==> r == Some(&self@.rows[row as int]),
            row >= self@.rows.len() ==> r is None,
    {
        if row < self.rows.len() {
            Some(&self.rows[row])
        } else {
            None
        }
    }

    /// The cells of column `column`, row after row, up to the first row that
    /// has no cell there.
    pub fn column_iter(&self, column: usize) -> (r: Vec<&'a Cell>)
        ensures
            r@.len() == column_run(self@.rows, column as int),
            forall|i: int| 0 <= i < r@.len() ==> *r@[i] == #[trigger] self@.rows[i]@[column as int],
    {
        let ghost rows = self@.rows;
        let mut cells: Vec<&'a Cell> = Vec::new();
        let mut k: usize = 0;
        assert(rows.subrange(0, rows.len() as int) =~= rows);
        while k < self.rows.len()
            invariant_except_break
                rows == self.rows@,
                k <= rows.len(),
                cells@.len() == k,
                forall|i: int| 0 <= i < k ==> *cells@[i] == #[trigger] rows[i]@[column as int],
                column_run(rows, column as int) == k + column_run(rows.subrange(k as int, rows.len() as int), column as int),
            ensures
                cells@.len() == column_run(rows, column as int),
                forall|i: int| 0 <= i < cells@.len() ==> *cells@[i] == #[trigger] rows[i]@[column as int],
            decreases rows.len() - k,
        {
            let ghost rest = rows.subrange(k as int, rows.len() as int);
            assert(rest[0] == rows[k as int]);
            match self.rows[k].get_cell(column) {
                Some(c) => {
                    cells.push(c);
                    assert(rest.drop_first() =~= rows.subrange(k + 1, rows.len() as int));
                },
                None => {
                    break ;
                },
            }
            k = k + 1;
        }
        proof {
            if k == rows.len() {
                assert(rows.subrange(k as int, rows.len() as int).len() == 0);
            }
        }
        cells
    }

    /// The body rows, in order.
    pub fn row_iter(&self) -> (r: std::slice::Iter<'a, Row>)
        ensures
            r.remaining() == self@.rows.map_values(|row: Row| &row),
    {
        self.rows.iter()
    }

    /// Width of column `col_idx`: its widest cell, title included.
    pub fn get_column_width(&self, col_idx: usize) -> (r: usize)
        ensures
            r == column_width(self@.titles, self@.rows, col_idx as int),
    {
        let tw: usize = match self.titles {
            Some(t) => t.get_cell_width(col_idx),
            None => 0,
        };
        let ghost rows = self@.rows;
        let mut width: usize = 0;
        for k in 0..self.rows.len()
            invariant
                rows == self.rows@,
                width == rows_cell_width(rows.subrange(0, k as int), col_idx as int),
        {
            let l = self.rows[k].get_cell_width(col_idx);
            assert(rows.subrange(0, k + 1).drop_last() =~= rows.subrange(0, k as int));
            if l > width {
                width = l;
            }
        }
        assert(rows.subrange(0, rows.len() as int) =~= rows);
        if tw > width {
            tw
        } else {
            width
        }
    }

    /// The width of every column.
    pub fn get_all_column_width(&self) -> (r: Vec<usize>)
        ensures
            r@ == column_widths(self@.titles, self@.rows),
    {
        let colnum = self.get_column_num();
        let mut col_width: Vec<usize> = Vec::new();
        for i in 0..colnum
            invariant
                colnum == column_count(self@.titles, self@.rows),
                col_width@ == column_widths(self@.titles, self@.rows).subrange(0, i as int),
        {
            let w = self.get_column_width(i);
            col_width.push(w);
            assert(col_width@ =~= column_widths(self@.titles, self@.rows).subrange(0, i + 1));
        }
        assert(col_width@ =~= column_widths(self@.titles, self@.rows));
        col_width
    }

    /// Print the table to `out`.
    #[verifier::rlimit(30)]
    pub fn print(&self, out: &mut StringWriter)
        ensures
            final(out)@ == old(out)@ + self@.rendered(),
    {
        let ghost v = self@;
        let ghost start = out@;
        let col_width = self.get_all_column_width();
        let widths = col_width.as_slice();
        let ghost w = widths@;
        self.format.print_line_separator(out, widths, LinePosition::Top);
        let ghost titles_text = match v.titles {
            Some(t) => t.text(v.format, w) + v.format.line_text(w, LinePosition::Title),
            None => Seq::empty(),
        };
        match self.titles {
            Some(t) => {
                t.print(out, self.format, widths);
                self.format.print_line_separator(out, widths, LinePosition::Title);
            },
            None => {},
        }
        let ghost body_start = out@;
        assert(body_start =~= start + v.format.line_text(w, LinePosition::Top) + titles_text);
        for k in 0..self.rows.len()
            invariant
                v == self@,
                w == widths@,
                w == column_widths(v.titles, v.rows),
                out@ == body_start + rows_text(v.format, w, v.rows.subrange(0, k as int)),
        {
            if k > 0 {
                self.format.print_line_separator(out, widths, LinePosition::Intern);
            }
            self.rows[k].print(out, self.format, widths);
            proof {
                let p = v.rows.subrange(0, k + 1);
                let q = v.rows.subrange(0, k as int);
                assert(p.drop_last() =~= q);
                assert(p.last() == v.rows[k as int]);
                if k == 0 {
                    assert(rows_text(v.format, w, q) =~= Seq::<char>::empty());
                    assert(rows_text(v.format, w, p) == v.rows[0].text(v.format, w));
                    assert(out@ =~= body_start + rows_text(v.format, w, p));
                } else {
                    assert(rows_text(v.format, w, p) == rows_text(v.format, w, q) + v.format.line_text(
                        w,
                        LinePosition::Intern,
                    ) + v.rows[k as int].text(v.format, w));
                    assert(out@ =~= body_start + rows_text(v.format, w, p));
                }
            }
        }
        assert(v.rows.subrange(0, v.rows.len() as int) =~= v.rows);
        self.format.print_line_separator(out, widths, LinePosition::Bottom);
        assert(out@ =~= start + (v.format.line_text(w, LinePosition::Top) + titles_text + rows_text(
            v.format,
            w,
            v.rows,
        ) + v.format.line_text(w, LinePosition::Bottom)));
    }

    /// The table as printed.
    pub fn to_string(&self) -> (r: String)
        ensures
            r@ == self@.rendered(),
    {
        let mut out = StringWriter::new();
        self.print(&mut out);
        out.into_string()
    }
}

/// An owned printable table.
#[derive(Clone, Debug)]
pub struct Table {
    format: TableFormat,
    titles: Option<Row>,
    rows: Vec<Row>,
}

impl View for Table {
    type V = TableView;

    closed spec fn view(&self) -> TableView {
        TableView { format: self.format@, titles: self.titles, rows: self.rows@ }
    }
}

impl Table {
    /// Create an empty table with the default format.
    pub fn new() -> (r: Table)
        ensures
            r@.rows == Seq::<Row>::empty(),
            r@.titles is None,
            r@.format == default_format(),
    {
        Table::init(Vec::new())
    }

    /// Create a table holding `rows`, with the default format and no title.
    pub fn init(rows: Vec<Row>) -> (r: Table)
        ensures
            r@.rows == rows@,
            r@.titles is None,
            r@.format == default_format(),
    {
        Table { rows, titles: None, format: format_default() }
    }

    /// A read-only view of the whole table.
    pub fn as_slice(&self) -> (r: TableSlice<'_>)
        ensures
            r@ == self@,
    {
        TableSlice { format: &self.format, titles: &self.titles, rows: self.rows.as_slice() }
    }

    /// The cells of column `column`, row after row, up to the first row that
    /// has no cell there.
    pub fn column_iter(&self, column: usize) -> (r: Vec<&Cell>)
        ensures
            r@.len() == column_run(self@.rows, column as int),
            forall|i: int| 0 <= i < r@.len() ==> *r@[i] == #[trigger] self@.rows[i]@[column as int],
    {
        self.as_slice().column_iter(column)
    }

    /// The body rows, in order.
    pub fn row_iter(&self) -> (r: std::slice::Iter<'_, Row>)
        ensures
            r.remaining() == self@.rows.map_values(|row: Row| &row),
    {
        self.as_slice().row_iter()
    }

    /// Change the format.
    pub fn set_format(&mut self, format: TableFormat)
        ensures
            final(self)@ == (TableView { format: format@, ..old(self)@ }),
    {
        self.format = format;
    }

    /// The format.
    pub fn get_format(&self) -> (r: &TableFormat)
        ensures
            r@ == self@.format,
    {
        &self.format
    }

    /// Number of columns: the length of the longest row, title row included.
    pub fn get_column_num(&self) -> (r: usize)
        ensures
            r == column_count(self@.titles, self@.rows),
    {
        self.as_slice().get_column_num()
    }

    /// Number of body rows.
    pub fn len(&self) -> (r: usize)
        ensures
            r == self@.rows.len(),
    {
        self.rows.len()
    }

    /// Set the title row.
    pub fn set_titles(&mut self, titles: Row)
        ensures
            final(self)@ == (TableView { titles: Some(titles), ..old(self)@ }),
    {
        self.titles = Some(titles);
    }

    /// Remove the title row.
    pub fn unset_titles(&mut self)
        ensures
            final(self)@ == (TableView { titles: None, ..old(self)@ }),
    {
        self.titles = None;
    }

    /// The body row at `row`, if there is one.
    pub fn get_row(&self, row: usize) -> (r: Option<&Row>)
        ensures
            row < self@.rows.len() ==> r == Some(&self@.rows[row as int]),
            row >= self@.rows.len() ==> r is None,
    {
        if row < self.rows.len() {
            Some(&self.rows[row])
        } else {
            None
        }
    }

    /// The body row at `row`, to modify in place, if there is one.
    pub fn get_mut_row(&mut self, row: usize) -> (r: Option<&mut Row>)
        ensures
            row >= old(self)@.rows.len() ==> r is None && final(self)@ == old(self)@,
            row < old(self)@.rows.len() ==> (r matches Some(x) && *x == old(self)@.rows[row as int]
                && final(self)@ == (TableView {
                rows: old(self)@.rows.update(row as int, *final(x)),
                ..old(self)@
            })),
    {
        if row < self.rows.len() {
            Some(&mut self.rows[row])
        } else {
            None
        }
    }

    /// Append `row` after the body rows, and return it to modify in place.
    pub fn add_row(&mut self, row: Row) -> (r: &mut Row)
        ensures
            *r == row,
            final(self)@ == (TableView { rows: old(self)@.rows.push(*final(r)), ..old(self)@ }),
    {
        self.rows.push(row);
        let l = self.rows.len() - 1;
        proof {
            assert forall|x: Row| #[trigger] self.rows@.update(l as int, x) == old(self)@.rows.push(x) by {
                assert(self.rows@.update(l as int, x) =~= old(self)@.rows.push(x));
            }
        }
        &mut self.rows[l]
    }

    /// Append a row with no cell, and return it to modify in place.
    pub fn add_empty_row(&mut self) -> (r: &mut Row)
        ensures
            r@ == Seq::<Cell>::empty(),
            final(self)@ == (TableView { rows: old(self)@.rows.push(*final(r)), ..old(self)@ }),
    {
        self.add_row(Row::default())
    }

    /// Insert `row` at `index`, or append it when `index` is past the end;
    /// return it to modify in place.
    pub fn insert_row(&mut self, index: usize, row: Row) -> (r: &mut Row)
        ensures
            *r == row,
            index < old(self)@.rows.len() ==> final(self)@ == (TableView {
                rows: old(self)@.rows.insert(index as int, *final(r)),
                ..old(self)@
            }),
            index >= old(self)@.rows.len() ==> final(self)@ == (TableView {
                rows: old(self)@.rows.push(*final(r)),
                ..old(self)@
            }),
    {
        if index < self.rows.len() {
            self.rows.insert(index, row);
            proof {
                assert forall|x: Row| #[trigger] self.rows@.update(index as int, x) == old(self)@.rows.insert(index as int, x) by {
                    assert(self.rows@.update(index as int, x) =~= old(self)@.rows.insert(index as int, x));
                }
            }
            &mut self.rows[index]
        } else {
            self.add_row(row)
        }
    }

    /// Replace the cell at `column` of body row `row` by a left-aligned cell
    /// holding `element`. Fails, changing nothing, when there is no such row
    /// or no such cell in it.
    pub fn set_element(&mut self, element: &str, column: usize, row: usize) -> (r: Result<(), &'static str>)
        requires
            element@.len() <= usize::MAX / 3,
        ensures
            r is Ok <==> row < old(self)@.rows.len() && column < old(self)@.rows[row as int]@.len(),
            r is Err ==> final(self)@ == old(self)@,
            r is Ok ==> final(self)@.format == old(self)@.format,
            r is Ok ==> final(self)@.titles == old(self)@.titles,
            r is Ok ==> final(self)@.rows.len() == old(self)@.rows.len(),
            r is Ok ==> forall|k: int|
                0 <= k < old(self)@.rows.len() && k != row ==> #[trigger] final(self)@.rows[k] == old(
                    self,
                )@.rows[k],
            r is Ok ==> final(self)@.rows[row as int]@ == old(self)@.rows[row as int]@.update(
                column as int,
                final(self)@.rows[row as int]@[column as int],
            ),
            r is Ok ==> final(self)@.rows[row as int]@[column as int].lines() == text_lines(element@),
            r is Ok ==> final(self)@.rows[row as int]@[column as int].width_spec() == max_width(
                text_lines(element@),
            ),
            r is Ok ==> final(self)@.rows[row as int]@[column as int].alignment() == Alignment::LEFT,
            r is Ok ==> final(self)@.rows[row as int]@[column as int].styles() == Seq::<Attr>::empty(),
    {
        if row >= self.rows.len() {
            return Err("Cannot find row");
        }
        if column >= self.rows[row].len() {
            return Err("Cannot find cell");
        }
        self.rows[row].set_cell(Cell::new(element), column)
    }

    /// Remove the body row at `index`; nothing happens when there is none.
    pub fn remove_row(&mut self, index: usize)
        ensures
            index < old(self)@.rows.len() ==> final(self)@ == (TableView {
                rows: old(self)@.rows.remove(index as int),
                ..old(self)@
            }),
            index >= old(self)@.rows.len() ==> final(self)@ == old(self)@,
    {
        if index < self.rows.len() {
            self.rows.remove(index);
        }
    }

    /// Print the table to `out`.
    pub fn print(&self, out: &mut StringWriter)
        ensures
            final(out)@ == old(out)@ + self@.rendered(),
    {
        self.as_slice().print(out)
    }

    /// The table as printed.
    pub fn to_string(&self) -> (r: String)
        ensures
            r@ == self@.rendered(),
    {
        self.as_slice().to_string()
    }
}

/// Tables and table slices, which can be sliced by a range of their rows.
pub trait Slice<'a> {
    /// The table or slice that is sliced.
    spec fn sliced(&self) -> TableView;

    /// The rows from `start` up to `end` (excluded), with the same format and
    /// title row.
    fn slice(&'a self, start: usize, end: usize) -> (r: TableSlice<'a>)
        requires
            start <= end <= self.sliced().rows.len(),
        ensures
            r@ == (TableView { rows: self.sliced().rows.subrange(start as int, end as int), ..self.sliced() }),
    ;
}

impl<'a> Slice<'a> for TableSlice<'a> {
    open spec fn sliced(&self) -> TableView {
        self@
    }

    fn slice(&'a self, start: usize, end: usize) -> (r: TableSlice<'a>) {
        TableSlice { format: self.format, titles: self.titles, rows: &self.rows[start..end] }
    }
}

impl<'a> Slice<'a> for Table {
    open spec fn sliced(&self) -> TableView {
        self@
    }

    fn slice(&'a self, start: usize, end: usize) -> (r: TableSlice<'a>) {
        TableSlice { format: &self.format, titles: &self.titles, rows: &self.rows.as_slice()[start..end] }
    }
}

/// The number of leading `rows` that have a cell in column `col`.
pub open spec fn column_run(rows: Seq<Row>, col: int) -> nat
    decreases rows.len(),
{
    if rows.len() == 0 || rows[0]@.len() <= col {
        0
    } else {
        1 + column_run(rows.drop_first(), col)
    }
}

} // verus!
