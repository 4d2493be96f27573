use prettytable::cell::{Attr, Cell};
use prettytable::color;
use prettytable::format::Alignment;
use prettytable::utils::StringWriter;

#[test]
fn get_content() {
    let cell = Cell::new("test");
    assert_eq!(cell.get_content(), "test");
}

#[test]
fn print_ascii() {
    let ascii_cell = Cell::new("hello");
    assert_eq!(ascii_cell.get_width(), 5);

    let mut out = StringWriter::new();
    ascii_cell.print(&mut out, 0, 10, false);
    assert_eq!(out.as_string(), "hello     ");
}

#[test]
fn print_unicode() {
    let unicode_cell = Cell::new("привет");
    assert_eq!(unicode_cell.get_width(), 6);

    let mut out = StringWriter::new();
    unicode_cell.print(&mut out, 0, 10, false);
    assert_eq!(out.as_string(), "привет    ");
}

#[test]
fn print_cjk() {
    let unicode_cell = Cell::new("由系统自动更新");
    assert_eq!(unicode_cell.get_width(), 14);
    let mut out = StringWriter::new();
    unicode_cell.print(&mut out, 0, 20, false);
    assert_eq!(out.as_string(), "由系统自动更新      ");
}

#[test]
fn align_left() {
    let cell = Cell::new_align("test", Alignment::LEFT);
    let mut out = StringWriter::new();
    cell.print(&mut out, 0, 10, false);
    assert_eq!(out.as_string(), "test      ");
}

#[test]
fn align_center() {
    let cell = Cell::new_align("test", Alignment::CENTER);
    let mut out = StringWriter::new();
    cell.print(&mut out, 0, 10, false);
    assert_eq!(out.as_string(), "   test   ");
}

#[test]
fn align_right() {
    let cell = Cell::new_align("test", Alignment::RIGHT);
    let mut out = StringWriter::new();
    cell.print(&mut out, 0, 10, false);
    assert_eq!(out.as_string(), "      test");
}

#[test]
fn style_spec() {
    let mut cell = Cell::new("test").style_spec("FrBBbuic");
    assert_eq!(cell.get_style().len(), 5);
    assert!(cell.get_style().contains(&Attr::Underline(true)));
    assert!(cell.get_style().contains(&Attr::Italic(true)));
    assert!(cell.get_style().contains(&Attr::Bold));
    assert!(cell.get_style().contains(&Attr::ForegroundColor(color::RED)));
    assert!(cell
        .get_style()
        .contains(&Attr::BackgroundColor(color::BRIGHT_BLUE)));
    assert_eq!(cell.get_alignment(), Alignment::CENTER);

    cell = cell.style_spec("FDBwr");
    assert_eq!(cell.get_style().len(), 2);
    assert!(cell
        .get_style()
        .contains(&Attr::ForegroundColor(color::BRIGHT_BLACK)));
    assert!(cell.get_style().contains(&Attr::BackgroundColor(color::WHITE)));
    assert_eq!(cell.get_alignment(), Alignment::RIGHT);

    // Invalid specifier characters are ignored
    cell = cell.clone();
    cell = cell.style_spec("FzBr");
    assert!(cell.get_style().contains(&Attr::BackgroundColor(color::RED)));
    assert_eq!(cell.get_style().len(), 1);
    cell = cell.style_spec("zzz");
    assert!(cell.get_style().is_empty());
}

#[test]
fn reset_style() {
    let mut cell = Cell::new("test")
        .with_style(Attr::ForegroundColor(color::BRIGHT_BLACK))
        .with_style(Attr::BackgroundColor(color::WHITE));
    cell.align(Alignment::RIGHT);

    assert_eq!(cell.get_style().len(), 2);
    assert_eq!(cell.get_alignment(), Alignment::RIGHT);
    cell.reset_style();
    assert_eq!(cell.get_style().len(), 0);
    assert_eq!(cell.get_alignment(), Alignment::LEFT);
}

#[test]
fn empty_cell_has_one_line() {
    let cell = Cell::new("");
    assert_eq!(cell.get_height(), 1);
    assert_eq!(cell.get_width(), 0);
    assert_eq!(cell.get_content(), "");
    assert_eq!(Cell::default().get_height(), 1);
}

#[test]
fn multi_line_cell() {
    let cell = Cell::new("ab\r\ncdef\n\nx\n");
    assert_eq!(cell.get_height(), 4);
    assert_eq!(cell.get_width(), 4);
    assert_eq!(cell.get_content(), "ab\ncdef\n\nx");
    let mut out = StringWriter::new();
    cell.print(&mut out, 1, 6, false);
    cell.print(&mut out, 7, 3, false);
    assert_eq!(out.as_string(), "cdef     ");
}

#[test]
fn wide_characters_count_their_width() {
    let cell = Cell::new("a由b系");
    assert_eq!(cell.get_width(), 6);
    let control = Cell::new("a\tb");
    assert_eq!(control.get_width(), 2);
}

#[test]
fn rendered_line_fills_column() {
    let cell = Cell::new_align("由x", Alignment::CENTER);
    let mut out = StringWriter::new();
    cell.print(&mut out, 0, 8, false);
    assert_eq!(out.as_string(), "  由x   ");
    let mut skipped = StringWriter::new();
    cell.print(&mut skipped, 0, 8, true);
    assert_eq!(skipped.as_string(), "  由x");
}

#[test]
fn style_spec_alignment_letters() {
    let cell = Cell::new("x").style_spec("cFyl");
    assert_eq!(cell.get_style().to_vec(), vec![Attr::ForegroundColor(color::YELLOW)]);
    assert_eq!(cell.get_alignment(), Alignment::LEFT);
    let cell = Cell::new("x").style_spec("BMc");
    assert_eq!(cell.get_style().to_vec(), vec![Attr::BackgroundColor(color::BRIGHT_MAGENTA)]);
    assert_eq!(cell.get_alignment(), Alignment::CENTER);
}
