//! Predefined table formats.
use vstd::prelude::*;

use crate::format::{FormatBuilder, FormatView, LinePosition, LineSeparator, SeparatorView, TableFormat};

verus! {

/// A line of `-` joined by `+`.
pub open spec fn minus_plus() -> SeparatorView {
    SeparatorView { line: '-', junc: '+', ljunc: '+', rjunc: '+' }
}

/// A line of `=` joined by `+`.
pub open spec fn equ_plus() -> SeparatorView {
    SeparatorView { line: '=', junc: '+', ljunc: '+', rjunc: '+' }
}

/// A line separator made of `-` and `+`.
pub fn minus_plus_sep() -> (r: LineSeparator)
    ensures
        r@ == minus_plus(),
{
    LineSeparator::new('-', '+', '+', '+')
}

/// A line separator made of `=` and `+`.
pub fn equ_plus_sep() -> (r: LineSeparator)
    ensures
        r@ == equ_plus(),
{
    LineSeparator::new('=', '+', '+', '+')
}

/// Default format: `|` between columns and as borders, `-`/`+` lines between
/// rows and around the table, `=`/`+` under the title, one blank column of
/// padding on each side.
pub open spec fn default_format() -> FormatView {
    FormatView {
        csep: Some('|'),
        lborder: Some('|'),
        rborder: Some('|'),
        lsep: Some(minus_plus()),
        tsep: Some(equ_plus()),
        top_sep: Some(minus_plus()),
        bottom_sep: Some(minus_plus()),
        pad_left: 1,
        pad_right: 1,
    }
}

/// The default format, described by `default_format`.
pub fn format_default() -> (r: TableFormat)
    ensures
        r@ == default_format(),
{
    FormatBuilder::new()
        .column_separator('|')
        .borders('|')
        .separator(LinePosition::Intern, minus_plus_sep())
        .separator(LinePosition::Title, equ_plus_sep())
        .separator(LinePosition::Bottom, minus_plus_sep())
        .separator(LinePosition::Top, minus_plus_sep())
        .padding(1, 1)
        .build()
}

/// Like the default format, but the title is underlined like any other row.
pub fn format_no_title() -> (r: TableFormat)
    ensures
        r@ == (FormatView {
            csep: Some('|'),
            lborder: Some('|'),
            rborder: Some('|'),
            lsep: Some(minus_plus()),
            tsep: Some(minus_plus()),
            top_sep: Some(minus_plus()),
            bottom_sep: Some(minus_plus()),
            pad_left: 1,
            pad_right: 1,
        }),
{
    FormatBuilder::new()
        .column_separator('|')
        .borders('|')
        .separator(LinePosition::Intern, minus_plus_sep())
        .separator(LinePosition::Title, minus_plus_sep())
        .separator(LinePosition::Bottom, minus_plus_sep())
        .separator(LinePosition::Top, minus_plus_sep())
        .padding(1, 1)
        .build()
}

/// No line between rows, but one under the title.
pub fn format_no_linesep_with_title() -> (r: TableFormat)
    ensures
        r@ == (FormatView {
            csep: Some('|'),
            lborder: Some('|'),
            rborder: Some('|'),
            lsep: None,
            tsep: Some(minus_plus()),
            top_sep: Some(minus_plus()),
            bottom_sep: Some(minus_plus()),
            pad_left: 1,
            pad_right: 1,
        }),
{
    FormatBuilder::new()
        .column_separator('|')
        .borders('|')
        .separator(LinePosition::Title, minus_plus_sep())
        .separator(LinePosition::Bottom, minus_plus_sep())
        .separator(LinePosition::Top, minus_plus_sep())
        .padding(1, 1)
        .build()
}

/// No line separator at all: column separators and borders only.
pub fn format_no_linesep() -> (r: TableFormat)
    ensures
        r@ == (FormatView {
            csep: Some('|'),
            lborder: Some('|'),
            rborder: Some('|'),
            lsep: None,
            tsep: None,
            top_sep: None,
            bottom_sep: None,
            pad_left: 1,
            pad_right: 1,
        }),
{
    FormatBuilder::new()
        .column_separator('|')
        .borders('|')
        .padding(1, 1)
        .build()
}

/// No column separator and no border.
pub fn format_no_colsep() -> (r: TableFormat)
    ensures
        r@ == (FormatView {
            csep: None,
            lborder: None,
            rborder: None,
            lsep: Some(minus_plus()),
            tsep: Some(equ_plus()),
            top_sep: Some(minus_plus()),
            bottom_sep: Some(minus_plus()),
            pad_left: 1,
            pad_right: 1,
        }),
{
    FormatBuilder::new()
        .separator(LinePosition::Intern, minus_plus_sep())
        .separator(LinePosition::Title, equ_plus_sep())
        .separator(LinePosition::Bottom, minus_plus_sep())
        .separator(LinePosition::Top, minus_plus_sep())
        .padding(1, 1)
        .build()
}

/// No separator at all: alignment only.
pub fn format_clean() -> (r: TableFormat)
    ensures
        r@ == (FormatView {
            csep: None,
            lborder: None,
            rborder: None,
            lsep: None,
            tsep: None,
            top_sep: None,
            bottom_sep: None,
            pad_left: 1,
            pad_right: 1,
        }),
{
    FormatBuilder::new()
        .padding(1, 1)
        .build()
}

/// Outer borders and a line under the title only.
pub fn format_borders_only() -> (r: TableFormat)
    ensures
        r@ == (FormatView {
            csep: None,
            lborder: Some('|'),
            rborder: Some('|'),
            lsep: None,
            tsep: Some(equ_plus()),
            top_sep: Some(minus_plus()),
            bottom_sep: Some(minus_plus()),
            pad_left: 1,
            pad_right: 1,
        }),
{
    FormatBuilder::new()
        .padding(1, 1)
        .separator(LinePosition::Title, equ_plus_sep())
        .separator(LinePosition::Bottom, minus_plus_sep())
        .separator(LinePosition::Top, minus_plus_sep())
        .borders('|')
        .build()
}

/// No outer border.
pub fn format_no_border() -> (r: TableFormat)
    ensures
        r@ == (FormatView {
            csep: Some('|'),
            lborder: None,
            rborder: None,
            lsep: Some(minus_plus()),
            tsep: Some(equ_plus()),
            top_sep: None,
            bottom_sep: None,
            pad_left: 1,
            pad_right: 1,
        }),
{
    FormatBuilder::new()
        .padding(1, 1)
        .separator(LinePosition::Intern, minus_plus_sep())
        .separator(LinePosition::Title, equ_plus_sep())
        .column_separator('|')
        .build()
}

/// No outer border and no line between rows.
pub fn format_no_border_line_separator() -> (r: TableFormat)
    ensures
        r@ == (FormatView {
            csep: Some('|'),
            lborder: None,
            rborder: None,
            lsep: None,
            tsep: Some(minus_plus()),
            top_sep: None,
            bottom_sep: None,
            pad_left: 1,
            pad_right: 1,
        }),
{
    FormatBuilder::new()
        .padding(1, 1)
        .separator(LinePosition::Title, minus_plus_sep())
        .column_separator('|')
        .build()
}

} // verus!
