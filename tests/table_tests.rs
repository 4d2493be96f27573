use prettytable::cell::{Attr, Cell};
use prettytable::utils::StringWriter;
use prettytable::consts::{format_clean, format_no_colsep, format_no_linesep};
use prettytable::format::{FormatBuilder, LinePosition, LineSeparator};
use prettytable::row::Row;
use prettytable::{Slice, Table};

fn row_of(texts: &[&str]) -> Row {
    Row::new(texts.iter().map(|t| Cell::new(t)).collect())
}

fn sample() -> Table {
    let mut table = Table::new();
    table.add_row(Row::new(vec![Cell::new("a"), Cell::new("bc"), Cell::new("def")]));
    table.add_row(Row::new(vec![Cell::new("def"), Cell::new("bc"), Cell::new("a")]));
    table.set_titles(Row::new(vec![Cell::new("t1"), Cell::new("t2"), Cell::new("t3")]));
    table
}

fn content_at(table: &Table, row: usize, col: usize) -> String {
    table.get_row(row).unwrap().get_cell(col).unwrap().get_content()
}

#[test]
fn table() {
    let table = sample();
    let out = "\
+-----+----+-----+
| t1  | t2 | t3  |
+=====+====+=====+
| a   | bc | def |
+-----+----+-----+
| def | bc | a   |
+-----+----+-----+
";
    assert_eq!(table.to_string().replace("\r\n", "\n"), out);
}

#[test]
fn index() {
    let mut table = sample();
    assert_eq!(content_at(&table, 1, 1), "bc");

    table.get_mut_row(1).unwrap().set_cell(Cell::new("newval"), 1).unwrap();
    assert_eq!(content_at(&table, 1, 1), "newval");

    let out = "\
+-----+--------+-----+
| t1  | t2     | t3  |
+=====+========+=====+
| a   | bc     | def |
+-----+--------+-----+
| def | newval | a   |
+-----+--------+-----+
";
    assert_eq!(table.to_string().replace("\r\n", "\n"), out);
}

#[test]
fn no_linesep() {
    let mut table = Table::new();
    table.set_format(format_no_linesep());
    table.add_row(Row::new(vec![Cell::new("a"), Cell::new("bc"), Cell::new("def")]));
    table.add_row(Row::new(vec![Cell::new("def"), Cell::new("bc"), Cell::new("a")]));
    table.set_titles(Row::new(vec![Cell::new("t1"), Cell::new("t2"), Cell::new("t3")]));
    assert_eq!(content_at(&table, 1, 1), "bc");

    table.set_element("newval", 1, 1).unwrap();
    assert_eq!(content_at(&table, 1, 1), "newval");

    let out = "\
| t1  | t2     | t3  |
| a   | bc     | def |
| def | newval | a   |
";
    assert_eq!(table.to_string().replace("\r\n", "\n"), out);
}

#[test]
fn no_colsep() {
    let mut table = Table::new();
    table.set_format(format_no_colsep());
    table.add_row(Row::new(vec![Cell::new("a"), Cell::new("bc"), Cell::new("def")]));
    table.add_row(Row::new(vec![Cell::new("def"), Cell::new("bc"), Cell::new("a")]));
    table.set_titles(Row::new(vec![Cell::new("t1"), Cell::new("t2"), Cell::new("t3")]));
    assert_eq!(content_at(&table, 1, 1), "bc");

    table.set_element("newval", 1, 1).unwrap();
    assert_eq!(content_at(&table, 1, 1), "newval");

    let out = "\
------------------
 t1   t2      t3 \n\
==================
 a    bc      def \n\
------------------
 def  newval  a \n\
------------------
";
    println!("{}", out);
    println!("____");
    println!("{}", table.to_string().replace("\r\n", "\n"));
    assert_eq!(table.to_string().replace("\r\n", "\n"), out);
}

#[test]
fn clean() {
    let mut table = Table::new();
    table.set_format(format_clean());
    table.add_row(Row::new(vec![Cell::new("a"), Cell::new("bc"), Cell::new("def")]));
    table.add_row(Row::new(vec![Cell::new("def"), Cell::new("bc"), Cell::new("a")]));
    table.set_titles(Row::new(vec![Cell::new("t1"), Cell::new("t2"), Cell::new("t3")]));
    assert_eq!(content_at(&table, 1, 1), "bc");

    table.set_element("newval", 1, 1).unwrap();
    assert_eq!(content_at(&table, 1, 1), "newval");

    let out = "\
\u{0020}t1   t2      t3 \n\
\u{0020}a    bc      def \n\
\u{0020}def  newval  a \n\
";
    println!("{}", out);
    println!("____");
    println!("{}", table.to_string().replace("\r\n", "\n"));
    assert_eq!(out, table.to_string().replace("\r\n", "\n"));
}

#[test]
fn slices() {
    let mut table = Table::new();
    table.set_titles(Row::new(vec![Cell::new("t1"), Cell::new("t2"), Cell::new("t3")]));
    table.add_row(Row::new(vec![Cell::new("0"), Cell::new("0"), Cell::new("0")]));
    table.add_row(Row::new(vec![Cell::new("1"), Cell::new("1"), Cell::new("1")]));
    table.add_row(Row::new(vec![Cell::new("2"), Cell::new("2"), Cell::new("2")]));
    table.add_row(Row::new(vec![Cell::new("3"), Cell::new("3"), Cell::new("3")]));
    table.add_row(Row::new(vec![Cell::new("4"), Cell::new("4"), Cell::new("4")]));
    table.add_row(Row::new(vec![Cell::new("5"), Cell::new("5"), Cell::new("5")]));
    let out = "\
+----+----+----+
| t1 | t2 | t3 |
+====+====+====+
| 1  | 1  | 1  |
+----+----+----+
| 2  | 2  | 2  |
+----+----+----+
| 3  | 3  | 3  |
+----+----+----+
";
    let slice = table.slice(0, table.len());
    let slice = slice.slice(1, slice.len());
    let slice = slice.slice(0, 3);
    assert_eq!(out, slice.to_string().replace("\r\n", "\n"));
    assert_eq!(out, table.slice(1, 4).to_string().replace("\r\n", "\n"));
}

#[test]
fn test_unicode_separators() {
    let mut table = Table::new();
    table.set_format(
        FormatBuilder::new()
            .column_separator('|')
            .borders('|')
            .separators(&[LinePosition::Top], LineSeparator::new('─', '┬', '┌', '┐'))
            .separators(&[LinePosition::Intern], LineSeparator::new('─', '┼', '├', '┤'))
            .separators(&[LinePosition::Bottom], LineSeparator::new('─', '┴', '└', '┘'))
            .padding(1, 1)
            .build(),
    );
    table.add_row(Row::new(vec![Cell::new("1"), Cell::new("1"), Cell::new("1")]));
    table.add_row(Row::new(vec![Cell::new("2"), Cell::new("2"), Cell::new("2")]));
    table.set_titles(Row::new(vec![Cell::new("t1"), Cell::new("t2"), Cell::new("t3")]));
    let out = "\
┌────┬────┬────┐
| t1 | t2 | t3 |
├────┼────┼────┤
| 1  | 1  | 1  |
├────┼────┼────┤
| 2  | 2  | 2  |
└────┴────┴────┘
";
    println!("{}", out);
    println!("____");
    println!("{}", table.to_string().replace("\r\n", "\n"));
    assert_eq!(out, table.to_string().replace("\r\n", "\n"));
}

#[test]
fn end_to_end_default_format() {
    let table = sample();
    let text = table.to_string();
    let lines: Vec<&str> = text.lines().collect();
    assert_eq!(lines.len(), 7);
    assert_eq!(lines[0], "+-----+----+-----+");
    assert_eq!(lines[2], "+=====+====+=====+");
    assert_eq!(lines[4], "+-----+----+-----+");
    assert_eq!(lines[6], "+-----+----+-----+");
    assert_eq!(table.get_column_num(), 3);
}

#[test]
fn rendering_twice_is_identical() {
    let table = sample();
    let first = table.to_string();
    let second = table.to_string();
    assert_eq!(first, second);
    assert_eq!(table.slice(0, 2).to_string(), table.as_slice().to_string());
}

#[test]
fn slice_of_slice_renders_as_one_slice() {
    let mut table = Table::new();
    for i in 0..8 {
        let text = "x".repeat(i + 1);
        table.add_row(row_of(&[&text, "y"]));
    }
    let (a, b, c, d) = (2, 7, 1, 4);
    let nested = table.slice(a, b).slice(c, d).to_string();
    let direct = table.slice(a + c, a + d).to_string();
    assert_eq!(nested, direct);
    assert!(nested.contains("| xxxxxx |"));
    assert!(!nested.contains("| xxxxxxx "));
}

#[test]
fn column_width_is_max_over_titles_and_rows() {
    let mut table = Table::new();
    table.set_titles(row_of(&["title", "t"]));
    table.add_row(row_of(&["a", "bb", "longest"]));
    table.add_row(row_of(&["abcdefg"]));
    assert_eq!(table.get_column_num(), 3);
    let text = table.to_string();
    let first = text.lines().next().unwrap();
    assert_eq!(first, "+---------+----+---------+");
    assert!(text.contains("| title   | t  |         |"));
}

#[test]
fn title_row_counts_in_columns() {
    let mut table = Table::new();
    table.set_titles(row_of(&["a", "b", "c"]));
    table.add_row(row_of(&["x"]));
    assert_eq!(table.get_column_num(), 3);
    table.unset_titles();
    assert_eq!(table.get_column_num(), 1);
}

#[test]
fn remove_row_out_of_range_is_noop() {
    let mut table = sample();
    let before = table.to_string();
    table.remove_row(2);
    table.remove_row(100);
    assert_eq!(table.len(), 2);
    assert_eq!(table.to_string(), before);
    table.remove_row(0);
    assert_eq!(table.len(), 1);
    assert_eq!(content_at(&table, 0, 0), "def");
}

#[test]
fn insert_row_past_end_appends() {
    let mut table = sample();
    table.insert_row(10, row_of(&["last"]));
    table.insert_row(0, row_of(&["first"]));
    assert_eq!(table.len(), 4);
    assert_eq!(content_at(&table, 0, 0), "first");
    assert_eq!(content_at(&table, 3, 0), "last");
    table.add_empty_row();
    assert_eq!(table.get_row(4).unwrap().len(), 0);
}

#[test]
fn set_element_not_found() {
    let mut table = sample();
    assert_eq!(table.set_element("x", 0, 5), Err("Cannot find row"));
    assert_eq!(table.set_element("x", 7, 0), Err("Cannot find cell"));
    assert_eq!(table.set_element("x", 2, 0), Ok(()));
    assert_eq!(content_at(&table, 0, 2), "x");
}

#[test]
fn empty_table_renders_frame() {
    let table = Table::new();
    assert_eq!(table.to_string(), "++\n++\n");
}

#[test]
fn column_and_row_iteration() {
    let mut table = Table::new();
    table.add_row(row_of(&["a", "b"]));
    table.add_row(row_of(&["c", "d"]));
    table.add_row(row_of(&["e"]));
    table.add_row(row_of(&["f", "g"]));
    let col: Vec<String> = table.column_iter(1).iter().map(|c| c.get_content()).collect();
    assert_eq!(col, vec!["b", "d"]);
    let firsts: Vec<String> = table.row_iter().map(|r| r.get_cell(0).unwrap().get_content()).collect();
    assert_eq!(firsts, vec!["a", "c", "e", "f"]);
    let slice = table.slice(2, 4);
    assert_eq!(slice.column_iter(0).len(), 2);
    assert_eq!(slice.row_iter().count(), 2);
    assert!(slice.get_row(1).is_some());
    assert!(slice.get_row(2).is_none());
}

#[test]
fn styled_cells_are_marked() {
    let mut table = Table::new();
    table.add_row(Row::new(vec![Cell::new("x").style_spec("b"), Cell::new("y")]));
    let mut out = StringWriter::new();
    table.print(&mut out);
    let marks = out.marks();
    assert_eq!(marks.len(), 1);
    assert_eq!(marks[0].style, vec![Attr::Bold]);
    assert_eq!(&out.as_string()[marks[0].start..marks[0].end], "x");
}

#[test]
fn column_widths_of_slice() {
    let mut table = Table::new();
    table.set_titles(row_of(&["title"]));
    table.add_row(row_of(&["a", "由由"]));
    let slice = table.as_slice();
    assert_eq!(slice.get_column_width(0), 5);
    assert_eq!(slice.get_column_width(1), 4);
    assert_eq!(slice.get_column_width(2), 0);
    assert_eq!(slice.get_all_column_width(), vec![5, 4]);
}
