use prettytable::cell::Cell;
use prettytable::consts::format_default;
use prettytable::format::TableFormat;
use prettytable::row::Row;
use prettytable::utils::StringWriter;

fn row_of(texts: &[&str]) -> Row {
    Row::new(texts.iter().map(|t| Cell::new(t)).collect())
}

#[test]
fn row_default_empty() {
    let row1 = Row::default();
    assert_eq!(row1.len(), 0);
    assert!(row1.is_empty());
}

#[test]
fn get_add_set_cell() {
    let mut row = row_of(&["foo", "bar", "foobar"]);
    assert_eq!(row.len(), 3);
    assert!(row.get_mut_cell(12).is_none());
    let c1 = row.get_mut_cell(0).unwrap().clone();
    assert_eq!(c1.get_content(), "foo");

    let c1 = Cell::new("baz");
    assert!(row.set_cell(c1.clone(), 0).is_ok());
    assert_eq!(row.get_cell(0).unwrap().get_content(), "baz");

    row.add_cell(c1.clone());
    assert_eq!(row.len(), 4);
    assert_eq!(row.get_cell(3).unwrap().get_content(), "baz");
}

#[test]
fn insert_cell() {
    let mut row = row_of(&["foo", "bar", "foobar"]);
    assert_eq!(row.len(), 3);
    let cell = Cell::new("baz");
    row.insert_cell(1000, cell.clone());
    assert_eq!(row.len(), 4);
    assert_eq!(row.get_cell(3).unwrap().get_content(), "baz");
    row.insert_cell(1, cell.clone());
    assert_eq!(row.len(), 5);
    assert_eq!(row.get_cell(1).unwrap().get_content(), "baz");
}

#[test]
fn remove_cell() {
    let mut row = row_of(&["foo", "bar", "foobar"]);
    assert_eq!(row.len(), 3);
    row.remove_cell(1000);
    assert_eq!(row.len(), 3);
    row.remove_cell(1);
    assert_eq!(row.len(), 2);
    assert_eq!(row.get_cell(0).unwrap().get_content(), "foo");
    assert_eq!(row.get_cell(1).unwrap().get_content(), "foobar");
}

#[test]
fn set_cell_out_of_range_fails() {
    let mut row = row_of(&["a"]);
    assert!(row.set_cell(Cell::new("b"), 1).is_err());
    assert_eq!(row.get_cell(0).unwrap().get_content(), "a");
}

#[test]
fn row_height_and_widths() {
    let row = row_of(&["a\nb\nc", "wide", ""]);
    assert_eq!(row.get_height(), 3);
    assert_eq!(row.get_cell_width(1), 4);
    assert_eq!(row.get_cell_width(9), 0);
    assert_eq!(Row::empty().get_height(), 1);
}

#[test]
fn row_prints_missing_cells_blank() {
    let row = row_of(&["a\nbb", "c"]);
    let mut out = StringWriter::new();
    row.print(&mut out, &format_default(), &[2, 1, 3]);
    assert_eq!(out.as_string(), "| a  | c |     |\n| bb |   |     |\n");
}

#[test]
fn empty_row_prints_one_line() {
    let mut out = StringWriter::new();
    Row::empty().print(&mut out, &TableFormat::new(), &[]);
    assert_eq!(out.as_string(), "\n");
}
