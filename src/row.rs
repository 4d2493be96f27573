//! Table rows: ordered cells, rendered line by line.
use vstd::prelude::*;
use vstd::std_specs::iter::IteratorSpec;

use crate::cell::Cell;
use crate::format::{Alignment, ColumnPosition, FormatView, TableFormat};
use crate::utils::{aligned, newline, repeat, StringWriter};

verus! {

/// The height of a row of `cells`: that of its tallest cell, and at least one
/// so that an empty row still prints a line.
pub open spec fn max_height(cells: Seq<Cell>) -> nat
    decreases cells.len(),
{
    if cells.len() == 0 {
        1
    } else {
        let m = max_height(cells.drop_last());
        let h = cells.last().height_spec();
        if h > m {
            h
        } else {
            m
        }
    }
}

/// A table row made of cells.
#[derive(Clone, Debug)]
pub struct Row {
    cells: Vec<Cell>,
}

impl View for Row {
    type V = Seq<Cell>;

    closed spec fn view(&self) -> Seq<Cell> {
        self.cells@
    }
}

impl Row {
    /// Number of lines the row prints.
    pub open spec fn height_spec(&self) -> nat {
        max_height(self@)
    }

    /// Width of the cell in column `col`; 0 where the row has no cell.
    pub open spec fn cell_width_spec(&self, col: int) -> nat {
        if 0 <= col < self@.len() {
            self@[col].width_spec()
        } else {
            0
        }
    }

    /// Column `j` of line `i`, for columns of `widths`: padding, the aligned
    /// cell line (blank where the row has no cell), padding, and the column
    /// separator unless it is the last column. The last column leaves out its
    /// trailing fill when there is no right border.
    pub open spec fn cell_text(&self, fmt: FormatView, widths: Seq<usize>, i: int, j: int) -> Seq<char> {
        let skip = j == widths.len() - 1 && fmt.rborder is None;
        repeat(' ', fmt.pad_left) + (if j < self@.len() {
            self@[j].line_text(i, widths[j] as nat, skip)
        } else {
            aligned(Alignment::LEFT, Seq::empty(), ' ', widths[j] as nat, skip)
        }) + repeat(' ', fmt.pad_right) + (if j < widths.len() - 1 {
            fmt.column_sep_text(ColumnPosition::Intern)
        } else {
            Seq::empty()
        })
    }

    /// The first `k` columns of line `i`.
    pub open spec fn cells_text(&self, fmt: FormatView, widths: Seq<usize>, i: int, k: nat) -> Seq<char>
        decreases k,
    {
        if k == 0 {
            Seq::empty()
        } else {
            self.cells_text(fmt, widths, i, (k - 1) as nat) + self.cell_text(fmt, widths, i, k - 1)
        }
    }

    /// Line `i` of the row, between borders and with its line ending.
    pub open spec fn line_text(&self, fmt: FormatView, widths: Seq<usize>, i: int) -> Seq<char> {
        fmt.column_sep_text(ColumnPosition::Left) + self.cells_text(fmt, widths, i, widths.len())
            + fmt.column_sep_text(ColumnPosition::Right) + newline()
    }

    /// The first `k` lines of the row.
    pub open spec fn lines_text(&self, fmt: FormatView, widths: Seq<usize>, k: nat) -> Seq<char>
        decreases k,
    {
        if k == 0 {
            Seq::empty()
        } else {
            self.lines_text(fmt, widths, (k - 1) as nat) + self.line_text(fmt, widths, k - 1)
        }
    }

    /// The whole row as printed with format `fmt` and columns of `widths`.
    pub open spec fn text(&self, fmt: FormatView, widths: Seq<usize>) -> Seq<char> {
        self.lines_text(fmt, widths, self.height_spec())
    }

    /// Create a row holding `cells`.
    pub fn new(cells: Vec<Cell>) -> (r: Row)
        ensures
            r@ == cells@,
    {
        Row { cells }
    }

    /// Create a row with no cell.
    pub fn empty() -> (r: Row)
        ensures
            r@ == Seq::<Cell>::empty(),
    {
        Row { cells: Vec::new() }
    }

    /// Number of cells.
    pub fn len(&self) -> (r: usize)
        ensures
            r == self@.len(),
    {
        self.cells.len()
    }

    /// Whether the row has no cell.
    pub fn is_empty(&self) -> (r: bool)
        ensures
            r == (self@.len() == 0),
    {
        self.cells.len() == 0
    }

    /// Number of lines the row prints: that of its tallest cell, at least one.
    pub fn get_height(&self) -> (r: usize)
        ensures
            r == self.height_spec(),
            r >= 1,
    {
        let mut height: usize = 1;
        for i in 0..self.cells.len()
            invariant
                height == max_height(self@.subrange(0, i as int)),
                height >= 1,
        {
            let h = self.cells[i].get_height();
            proof {
                assert(self@.subrange(0, i + 1).drop_last() =~= self@.subrange(0, i as int));
            }
            if h > height {
                height = h;
            }
        }
        assert(self@.subrange(0, self@.len() as int) =~= self@);
        height
    }

    /// Width of the cell in column `column`; 0 where the row has no cell.
    pub fn get_cell_width(&self, column: usize) -> (r: usize)
        ensures
            r == self.cell_width_spec(column as int),
    {
        if column < self.cells.len() {
            self.cells[column].get_width()
        } else {
            0
        }
    }

    /// The cell at `idx`, if there is one.
    pub fn get_cell(&self, idx: usize) -> (r: Option<&Cell>)
        ensures
            idx < self@.len() ==> r == Some(&self@[idx as int]),
            idx >= self@.len() ==> r is None,
    {
        if idx < self.cells.len() {
            Some(&self.cells[idx])
        } else {
            None
        }
    }

    /// The cells, in order.
    pub fn iter(&self) -> (r: std::slice::Iter<'_, Cell>)
        ensures
            r.remaining() == self@.map_values(|c: Cell| &c),
    {
        self.cells.iter()
    }

    /// The cell at `idx`, to modify in place, if there is one.
    pub fn get_mut_cell(&mut self, idx: usize) -> (r: Option<&mut Cell>)
        ensures
            idx >= old(self)@.len() ==> r is None && final(self)@ == old(self)@,
            idx < old(self)@.len() ==> (r matches Some(c) && *c == old(self)@[idx as int] && final(self)@
                == old(self)@.update(idx as int, *final(c))),
    {
        if idx < self.cells.len() {
            Some(&mut self.cells[idx])
        } else {
            None
        }
    }

    /// Replace the cell at `column`; fails when the row has no cell there.
    pub fn set_cell(&mut self, cell: Cell, column: usize) -> (r: Result<(), &'static str>)
        ensures
            r is Ok <==> column < old(self)@.len(),
            r is Ok ==> final(self)@ == old(self)@.update(column as int, cell),
            r is Err ==> final(self)@ == old(self)@,
    {
        if column >= self.cells.len() {
            return Err("Cannot find cell");
        }
        self.cells.set(column, cell);
        Ok(())
    }

    /// Append `cell` at the end of the row.
    pub fn add_cell(&mut self, cell: Cell)
        ensures
            final(self)@ == old(self)@.push(cell),
    {
        self.cells.push(cell);
    }

    /// Insert `cell` at `index`, or append it when `index` is past the end.
    pub fn insert_cell(&mut self, index: usize, cell: Cell)
        ensures
            index < old(self)@.len() ==> final(self)@ == old(self)@.insert(index as int, cell),
            index >= old(self)@.len() ==> final(self)@ == old(self)@.push(cell),
    {
        if index < self.cells.len() {
            self.cells.insert(index, cell);
        } else {
            self.add_cell(cell);
        }
    }

    /// Remove the cell at `index`; nothing happens when there is none.
    pub fn remove_cell(&mut self, index: usize)
        ensures
            index < old(self)@.len() ==> final(self)@ == old(self)@.remove(index as int),
            index >= old(self)@.len() ==> final(self)@ == old(self)@,
    {
        if index < self.cells.len() {
            self.cells.remove(index);
        }
    }

    /// Print the row to `out` with `format`, each column `col_width` wide.
    #[verifier::rlimit(30)]
    pub fn print(&self, out: &mut StringWriter, format: &TableFormat, col_width: &[usize])
        ensures
            final(out)@ == old(out)@ + self.text(format@, col_width@),
    {
        let ghost fmt = format@;
        let ghost widths = col_width@;
        let ghost start = out@;
        let height = self.get_height();
        let n = col_width.len();
        let (lp, rp) = format.get_padding();
        let blank = Cell::default();
        for i in 0..height
            invariant
                fmt == format@,
                widths == col_width@,
                n == widths.len(),
                lp == fmt.pad_left,
                rp == fmt.pad_right,
                blank.lines() == seq![Seq::<char>::empty()],
                blank.alignment() == Alignment::LEFT,
                out@ == start + self.lines_text(fmt, widths, i as nat),
        {
            let ghost line_start = out@;
            format.print_column_separator(out, ColumnPosition::Left);
            let ghost cells_start = out@;
            for j in 0..n
                invariant
                    fmt == format@,
                    widths == col_width@,
                    n == widths.len(),
                    lp == fmt.pad_left,
                    rp == fmt.pad_right,
                    blank.lines() == seq![Seq::<char>::empty()],
                    blank.alignment() == Alignment::LEFT,
                    out@ == cells_start + self.cells_text(fmt, widths, i as int, j as nat),
            {
                let ghost before = out@;
                out.push_repeat(' ', lp);
                let skip = j == n - 1 && format.get_column_separator(ColumnPosition::Right).is_none();
                if j < self.cells.len() {
                    self.cells[j].print(out, i, col_width[j], skip);
                } else {
                    blank.print(out, i, col_width[j], skip);
                    assert(blank.line(i as int) =~= Seq::<char>::empty());
                }
                out.push_repeat(' ', rp);
                if j < n - 1 {
                    format.print_column_separator(out, ColumnPosition::Intern);
                }
                assert(out@ =~= before + self.cell_text(fmt, widths, i as int, j as int));
            }
            format.print_column_separator(out, ColumnPosition::Right);
            out.push('\n');
            assert(out@ =~= line_start + self.line_text(fmt, widths, i as int));
        }
    }
}

impl Default for Row {
    /// A row with no cell.
    fn default() -> (r: Row)
        ensures
            r@ == Seq::<Cell>::empty(),
    {
        Row::empty()
    }
}

} // verus!
