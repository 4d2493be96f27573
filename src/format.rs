//! Table decoration: column separators, borders, line separators and
//! padding.
use vstd::prelude::*;

use crate::utils::{newline, repeat, StringWriter};

verus! {

/// Alignment of a cell's content.
#[derive(Clone, Copy, Debug, PartialEq, Eq, Structural)]
pub enum Alignment {
    LEFT,
    CENTER,
    RIGHT,
}

/// Position of a line separator in a table.
#[derive(Clone, Copy, Debug, PartialEq, Eq, Structural)]
pub enum LinePosition {
    Top,
    Title,
    Intern,
    Bottom,
}

/// Position of a column separator in a row.
#[derive(Clone, Copy, Debug, PartialEq, Eq, Structural)]
pub enum ColumnPosition {
    Left,
    Intern,
    Right,
}

/// The four characters of a line separator.
pub struct SeparatorView {
    /// Character that fills the line.
    pub line: char,
    /// Junction between two columns.
    pub junc: char,
    /// Junction with the left border.
    pub ljunc: char,
    /// Junction with the right border.
    pub rjunc: char,
}

/// Characters used to print a line separator.
#[derive(Clone, Copy, Debug)]
pub struct LineSeparator {
    line: char,
    junc: char,
    ljunc: char,
    rjunc: char,
}

impl View for LineSeparator {
    type V = SeparatorView;

    closed spec fn view(&self) -> SeparatorView {
        SeparatorView { line: self.line, junc: self.junc, ljunc: self.ljunc, rjunc: self.rjunc }
    }
}

impl SeparatorView {
    /// The columns of a separator line: `line` over each column's width plus
    /// padding, with `junc` between columns when `colsep` holds.
    pub open spec fn columns(self, widths: Seq<usize>, pad: nat, colsep: bool) -> Seq<char>
        decreases widths.len(),
    {
        if widths.len() == 0 {
            Seq::empty()
        } else {
            self.columns(widths.drop_last(), pad, colsep) + (if colsep && widths.len() > 1 {
                seq![self.junc]
            } else {
                Seq::empty()
            }) + repeat(self.line, (widths.last() + pad) as nat)
        }
    }

    /// A whole separator line, with the border junctions that are asked for
    /// and the line ending.
    pub open spec fn text(
        self,
        widths: Seq<usize>,
        pad: nat,
        colsep: bool,
        lborder: bool,
        rborder: bool,
    ) -> Seq<char> {
        (if lborder {
            seq![self.ljunc]
        } else {
            Seq::empty()
        }) + self.columns(widths, pad, colsep) + (if rborder {
            seq![self.rjunc]
        } else {
            Seq::empty()
        }) + newline()
    }
}

impl LineSeparator {
    /// Create a line separator where `line` fills the line, `junc` joins it
    /// with column separators, and `ljunc` and `rjunc` with the borders.
    pub fn new(line: char, junc: char, ljunc: char, rjunc: char) -> (r: LineSeparator)
        ensures
            r@ == (SeparatorView { line, junc, ljunc, rjunc }),
    {
        LineSeparator { line, junc, ljunc, rjunc }
    }

    /// Print a whole line separator to `out`. Each column takes its width in
    /// `col_width` plus `pad_left` and `pad_right`.
    pub fn print(
        &self,
        out: &mut StringWriter,
        col_width: &[usize],
        pad_left: usize,
        pad_right: usize,
        colsep: bool,
        lborder: bool,
        rborder: bool,
    )
        ensures
            final(out)@ == old(out)@ + self@.text(
                col_width@,
                (pad_left + pad_right) as nat,
                colsep,
                lborder,
                rborder,
            ),
    {
        let ghost start = out@;
        let ghost pad: nat = pad_left as nat + pad_right as nat;
        if lborder {
            out.push(self.ljunc);
        }
        let ghost head = out@;
        assert(head == start + (if lborder {
            seq![self.ljunc]
        } else {
            Seq::empty()
        }));
        let n = col_width.len();
        for j in 0..n
            invariant
                n == col_width@.len(),
                pad == pad_left + pad_right,
                out@ == head + self@.columns(col_width@.subrange(0, j as int), pad, colsep),
        {
            if colsep && j > 0 {
                out.push(self.junc);
            }
            let ghost mid = out@;
            out.push_repeat(self.line, col_width[j]);
            out.push_repeat(self.line, pad_left);
            out.push_repeat(self.line, pad_right);
            proof {
                let w = col_width@.subrange(0, j + 1);
                assert(w.drop_last() =~= col_width@.subrange(0, j as int));
                assert(w.last() == col_width@[j as int]);
                assert(repeat(self.line, col_width[j as int] as nat) + repeat(self.line, pad_left as nat)
                    + repeat(self.line, pad_right as nat) =~= repeat(self.line, (w.last() + pad) as nat));
                assert(out@ =~= head + self@.columns(w, pad, colsep));
            }
        }
        assert(col_width@.subrange(0, n as int) =~= col_width@);
        if rborder {
            out.push(self.rjunc);
        }
        out.push('\n');
        assert(out@ =~= start + self@.text(col_width@, pad, colsep, lborder, rborder));
    }
}

impl Default for LineSeparator {
    fn default() -> (r: LineSeparator)
        ensures
            r@ == (SeparatorView { line: '-', junc: '+', ljunc: '+', rjunc: '+' }),
    {
        LineSeparator::new('-', '+', '+', '+')
    }
}

/// The rules of a table format.
pub struct FormatView {
    /// Column separator.
    pub csep: Option<char>,
    /// Left border.
    pub lborder: Option<char>,
    /// Right border.
    pub rborder: Option<char>,
    /// Separator between body rows.
    pub lsep: Option<SeparatorView>,
    /// Separator after the title row.
    pub tsep: Option<SeparatorView>,
    /// Separator above the table.
    pub top_sep: Option<SeparatorView>,
    /// Separator below the table.
    pub bottom_sep: Option<SeparatorView>,
    /// Blank columns before each cell's text.
    pub pad_left: nat,
    /// Blank columns after each cell's text.
    pub pad_right: nat,
}

/// The view of an optional line separator.
pub open spec fn sep_view(s: Option<LineSeparator>) -> Option<SeparatorView> {
    match s {
        Some(l) => Some(l@),
        None => None,
    }
}

impl FormatView {
    /// The separator printed at `pos`: the title one falls back to the one
    /// between rows.
    pub open spec fn sep_for_line(self, pos: LinePosition) -> Option<SeparatorView> {
        match pos {
            LinePosition::Top => self.top_sep,
            LinePosition::Intern => self.lsep,
            LinePosition::Bottom => self.bottom_sep,
            LinePosition::Title => if self.tsep is Some {
                self.tsep
            } else {
                self.lsep
            },
        }
    }

    /// The separator line printed at `pos` for columns of `widths`; nothing
    /// when no separator is set there.
    pub open spec fn line_text(self, widths: Seq<usize>, pos: LinePosition) -> Seq<char> {
        match self.sep_for_line(pos) {
            Some(l) => l.text(
                widths,
                self.pad_left + self.pad_right,
                self.csep is Some,
                self.lborder is Some,
                self.rborder is Some,
            ),
            None => Seq::empty(),
        }
    }

    /// The character at column position `pos`, if one is set.
    pub open spec fn column_sep(self, pos: ColumnPosition) -> Option<char> {
        match pos {
            ColumnPosition::Left => self.lborder,
            ColumnPosition::Intern => self.csep,
            ColumnPosition::Right => self.rborder,
        }
    }

    /// The text printed at column position `pos`.
    pub open spec fn column_sep_text(self, pos: ColumnPosition) -> Seq<char> {
        match self.column_sep(pos) {
            Some(c) => seq![c],
            None => Seq::empty(),
        }
    }

    /// This format with the separator at `pos` (not the fallback) replaced.
    pub open spec fn with_separator(self, pos: LinePosition, s: SeparatorView) -> FormatView {
        match pos {
            LinePosition::Top => FormatView { top_sep: Some(s), ..self },
            LinePosition::Title => FormatView { tsep: Some(s), ..self },
            LinePosition::Intern => FormatView { lsep: Some(s), ..self },
            LinePosition::Bottom => FormatView { bottom_sep: Some(s), ..self },
        }
    }

    /// This format with the separators at each of `what` replaced, in order.
    pub open spec fn with_separators(self, what: Seq<LinePosition>, s: SeparatorView) -> FormatView
        decreases what.len(),
    {
        if what.len() == 0 {
            self
        } else {
            self.with_separators(what.drop_last(), s).with_separator(what.last(), s)
        }
    }

    /// The format with nothing set and no padding.
    pub open spec fn empty() -> FormatView {
        FormatView {
            csep: None,
            lborder: None,
            rborder: None,
            lsep: None,
            tsep: None,
            top_sep: None,
            bottom_sep: None,
            pad_left: 0,
            pad_right: 0,
        }
    }
}

/// The formatting rules of a table.
#[derive(Clone, Copy, Debug)]
pub struct TableFormat {
    csep: Option<char>,
    lborder: Option<char>,
    rborder: Option<char>,
    lsep: Option<LineSeparator>,
    tsep: Option<LineSeparator>,
    top_sep: Option<LineSeparator>,
    bottom_sep: Option<LineSeparator>,
    pad_left: usize,
    pad_right: usize,
}

impl View for TableFormat {
    type V = FormatView;

    closed spec fn view(&self) -> FormatView {
        FormatView {
            csep: self.csep,
            lborder: self.lborder,
            rborder: self.rborder,
            lsep: sep_view(self.lsep),
            tsep: sep_view(self.tsep),
            top_sep: sep_view(self.top_sep),
            bottom_sep: sep_view(self.bottom_sep),
            pad_left: self.pad_left as nat,
            pad_right: self.pad_right as nat,
        }
    }
}

impl TableFormat {
    /// Create a format with no separator, no border and no padding.
    pub fn new() -> (r: TableFormat)
        ensures
            r@ == FormatView::empty(),
    {
        TableFormat {
            csep: None,
            lborder: None,
            rborder: None,
            lsep: None,
            tsep: None,
            top_sep: None,
            bottom_sep: None,
            pad_left: 0,
            pad_right: 0,
        }
    }

    /// Left and right padding.
    pub fn get_padding(&self) -> (r: (usize, usize))
        ensures
            r.0 == self@.pad_left,
            r.1 == self@.pad_right,
    {
        (self.pad_left, self.pad_right)
    }

    /// Set left and right padding.
    pub fn padding(&mut self, left: usize, right: usize)
        ensures
            final(self)@ == (FormatView { pad_left: left as nat, pad_right: right as nat, ..old(self)@ }),
    {
        self.pad_left = left;
        self.pad_right = right;
    }

    /// Set the character that separates columns.
    pub fn column_separator(&mut self, separator: char)
        ensures
            final(self)@ == (FormatView { csep: Some(separator), ..old(self)@ }),
    {
        self.csep = Some(separator);
    }

    /// Set the character of both table borders.
    pub fn borders(&mut self, border: char)
        ensures
            final(self)@ == (FormatView { lborder: Some(border), rborder: Some(border), ..old(self)@ }),
    {
        self.lborder = Some(border);
        self.rborder = Some(border);
    }

    /// Set the line separator at `what`.
    pub fn separator(&mut self, what: LinePosition, separator: LineSeparator)
        ensures
            final(self)@ == old(self)@.with_separator(what, separator@),
    {
        match what {
            LinePosition::Top => self.top_sep = Some(separator),
            LinePosition::Bottom => self.bottom_sep = Some(separator),
            LinePosition::Title => self.tsep = Some(separator),
            LinePosition::Intern => self.lsep = Some(separator),
        }
    }

    /// Set the line separator at each position of `what`.
    pub fn separators(&mut self, what: &[LinePosition], separator: LineSeparator)
        ensures
            final(self)@ == old(self)@.with_separators(what@, separator@),
    {
        let ghost start = self@;
        for i in 0..what.len()
            invariant
                self@ == start.with_separators(what@.subrange(0, i as int), separator@),
        {
            self.separator(what[i], separator);
            assert(what@.subrange(0, i + 1).drop_last() =~= what@.subrange(0, i as int));
        }
        assert(what@.subrange(0, what@.len() as int) =~= what@);
    }

    /// The separator printed at `pos`: the title one falls back to the one
    /// between rows.
    fn get_sep_for_line(&self, pos: LinePosition) -> (r: Option<LineSeparator>)
        ensures
            sep_view(r) == self@.sep_for_line(pos),
    {
        match pos {
            LinePosition::Intern => self.lsep,
            LinePosition::Top => self.top_sep,
            LinePosition::Bottom => self.bottom_sep,
            LinePosition::Title => match self.tsep {
                Some(s) => Some(s),
                None => self.lsep,
            },
        }
    }

    /// Print the line separator at `pos` to `out`, for columns of `col_width`.
    /// Prints nothing when no separator is set there.
    pub fn print_line_separator(&self, out: &mut StringWriter, col_width: &[usize], pos: LinePosition)
        ensures
            final(out)@ == old(out)@ + self@.line_text(col_width@, pos),
    {
        match self.get_sep_for_line(pos) {
            Some(l) => l.print(
                out,
                col_width,
                self.pad_left,
                self.pad_right,
                self.csep.is_some(),
                self.lborder.is_some(),
                self.rborder.is_some(),
            ),
            None => {
                assert(out@ =~= old(out)@ + self@.line_text(col_width@, pos));
            },
        }
    }

    /// The character at column position `pos`, if one is set.
    pub fn get_column_separator(&self, pos: ColumnPosition) -> (r: Option<char>)
        ensures
            r == self@.column_sep(pos),
    {
        match pos {
            ColumnPosition::Left => self.lborder,
            ColumnPosition::Intern => self.csep,
            ColumnPosition::Right => self.rborder,
        }
    }

    /// Print the column separator or border at `pos`, if one is set.
    pub fn print_column_separator(&self, out: &mut StringWriter, pos: ColumnPosition)
        ensures
            final(out)@ == old(out)@ + self@.column_sep_text(pos),
    {
        match self.get_column_separator(pos) {
            Some(s) => out.push(s),
            None => {},
        }
        assert(out@ =~= old(out)@ + self@.column_sep_text(pos));
    }
}

impl Default for TableFormat {
    fn default() -> (r: TableFormat)
        ensures
            r@ == FormatView::empty(),
    {
        TableFormat::new()
    }
}

/// Builds a `TableFormat` step by step.
pub struct FormatBuilder {
    format: TableFormat,
}

impl View for FormatBuilder {
    type V = FormatView;

    closed spec fn view(&self) -> FormatView {
        self.format@
    }
}

impl FormatBuilder {
    /// Start from a format with nothing set.
    pub fn new() -> (r: FormatBuilder)
        ensures
            r@ == FormatView::empty(),
    {
        FormatBuilder { format: TableFormat::new() }
    }

    /// Set left and right padding.
    pub fn padding(self, left: usize, right: usize) -> (r: FormatBuilder)
        ensures
            r@ == (FormatView { pad_left: left as nat, pad_right: right as nat, ..self@ }),
    {
        let mut b = self;
        b.format.padding(left, right);
        b
    }

    /// Set the character that separates columns.
    pub fn column_separator(self, separator: char) -> (r: FormatBuilder)
        ensures
            r@ == (FormatView { csep: Some(separator), ..self@ }),
    {
        let mut b = self;
        b.format.column_separator(separator);
        b
    }

    /// Set the character of both table borders.
    pub fn borders(self, border: char) -> (r: FormatBuilder)
        ensures
            r@ == (FormatView { lborder: Some(border), rborder: Some(border), ..self@ }),
    {
        let mut b = self;
        b.format.borders(border);
        b
    }

    /// Set the line separator at `what`.
    pub fn separator(self, what: LinePosition, separator: LineSeparator) -> (r: FormatBuilder)
        ensures
            r@ == self@.with_separator(what, separator@),
    {
        let mut b = self;
        b.format.separator(what, separator);
        b
    }

    /// Set the line separator at each position of `what`.
    pub fn separators(self, what: &[LinePosition], separator: LineSeparator) -> (r: FormatBuilder)
        ensures
            r@ == self@.with_separators(what@, separator@),
    {
        let mut b = self;
        b.format.separators(what, separator);
        b
    }

    /// The format built.
    pub fn build(self) -> (r: TableFormat)
        ensures
            r@ == self@,
    {
        self.format
    }
}

} // verus!
