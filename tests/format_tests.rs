use prettytable::consts::{format_borders_only, format_no_border};
use prettytable::format::{ColumnPosition, FormatBuilder, LinePosition, LineSeparator, TableFormat};
use prettytable::utils::StringWriter;

#[test]
fn title_separator_falls_back_to_intern() {
    let format = FormatBuilder::new()
        .separator(LinePosition::Intern, LineSeparator::new('-', '+', '+', '+'))
        .column_separator('|')
        .padding(1, 1)
        .build();
    let mut out = StringWriter::new();
    format.print_line_separator(&mut out, &[1, 2], LinePosition::Title);
    assert_eq!(out.as_string(), "---+----\n");
    let mut none = StringWriter::new();
    format.print_line_separator(&mut none, &[1, 2], LinePosition::Top);
    assert_eq!(none.as_string(), "");
}

#[test]
fn column_separators_and_padding() {
    let mut format = TableFormat::new();
    assert_eq!(format.get_column_separator(ColumnPosition::Left), None);
    format.borders('#');
    format.column_separator(':');
    format.padding(2, 3);
    assert_eq!(format.get_padding(), (2, 3));
    assert_eq!(format.get_column_separator(ColumnPosition::Left), Some('#'));
    assert_eq!(format.get_column_separator(ColumnPosition::Intern), Some(':'));
    assert_eq!(format.get_column_separator(ColumnPosition::Right), Some('#'));
    let mut out = StringWriter::new();
    format.print_column_separator(&mut out, ColumnPosition::Intern);
    format.separators(&[LinePosition::Top, LinePosition::Bottom], LineSeparator::new('~', '^', '<', '>'));
    format.print_line_separator(&mut out, &[0, 1], LinePosition::Bottom);
    assert_eq!(out.as_string(), ":<~~~~~^~~~~~~>\n");
}

#[test]
fn line_separator_print() {
    let sep = LineSeparator::default();
    let mut out = StringWriter::new();
    sep.print(&mut out, &[1, 3], 1, 1, false, true, false);
    assert_eq!(out.as_string(), "+--------\n");
}

#[test]
fn preset_formats() {
    let mut out = StringWriter::new();
    format_borders_only().print_line_separator(&mut out, &[1, 1], LinePosition::Title);
    format_no_border().print_line_separator(&mut out, &[1, 1], LinePosition::Title);
    assert_eq!(out.as_string(), "+======+\n===+===\n");
}
