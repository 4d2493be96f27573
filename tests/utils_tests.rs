use prettytable::format::Alignment;
use prettytable::utils::{print_align, InvalidUtf8, StringWriter};
use prettytable::width::{char_columns, display_width};

#[test]
fn string_writer() {
    let mut out = StringWriter::new();
    out.write("foo".as_bytes()).unwrap();
    out.write(" ".as_bytes()).unwrap();
    out.write("".as_bytes()).unwrap();
    out.write("bar".as_bytes()).unwrap();
    assert_eq!(out.as_string(), "foo bar");
}

#[test]
fn fill_align() {
    let mut out = StringWriter::new();
    print_align(&mut out, Alignment::RIGHT, "foo", '*', 10, false);
    assert_eq!(out.as_string(), "*******foo");

    let mut out = StringWriter::new();
    print_align(&mut out, Alignment::LEFT, "foo", '*', 10, false);
    assert_eq!(out.as_string(), "foo*******");

    let mut out = StringWriter::new();
    print_align(&mut out, Alignment::CENTER, "foo", '*', 10, false);
    assert_eq!(out.as_string(), "***foo****");

    let mut out = StringWriter::new();
    print_align(&mut out, Alignment::CENTER, "foo", '*', 1, false);
    assert_eq!(out.as_string(), "foo");
}

#[test]
fn writer_rejects_invalid_utf8() {
    let mut out = StringWriter::new();
    assert_eq!(out.write("é".as_bytes()), Ok(2));
    assert_eq!(out.write(&[0xff, 0x41]), Err(InvalidUtf8));
    assert_eq!(out.as_string(), "é");
    assert!(out.flush().is_ok());
    assert_eq!(out.into_string(), "é");
}

#[test]
fn fill_align_skips_right_fill() {
    let mut out = StringWriter::new();
    print_align(&mut out, Alignment::CENTER, "ab", '-', 7, true);
    assert_eq!(out.as_string(), "--ab");
}

#[test]
fn widths_of_characters() {
    assert_eq!(char_columns('a'), 1);
    assert_eq!(char_columns('由'), 2);
    assert_eq!(char_columns('\n'), 0);
    assert_eq!(char_columns('\u{301}'), 0);
    assert_eq!(display_width("ab由"), 4);
    assert_eq!(display_width(""), 0);
}
