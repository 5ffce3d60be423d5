use binsize::attr_str::{color_header_fn, Attribute, AttributeString};
use binsize::table::{Padding, Row, Table};

fn cell(s: &str) -> AttributeString {
    AttributeString::from(s)
}

fn row(cells: &[&str]) -> Row {
    Row::new(cells.iter().map(|c| cell(c)).collect())
}

#[test]
fn attribute_escape_sequences() {
    assert_eq!(Attribute::TextReset.escape(), "\x1b[0m");
    assert_eq!(Attribute::TextBold.escape(), "\x1b[1m");
    assert_eq!(Attribute::ColorFgRed.escape(), "\x1b[31m");
    assert_eq!(Attribute::ColorFgDefault.escape(), "\x1b[39m");
}

#[test]
fn attribute_string_holds_text_and_attrs() {
    let mut s = AttributeString::new("abc", &[Attribute::TextBold]);
    assert_eq!(s.len(), 3);
    assert_eq!(s.string(), "abc");
    assert_eq!(s.attrs().len(), 1);
    s.push_attr(Attribute::ColorFgRed);
    assert_eq!(s.attrs().len(), 2);
    assert!(matches!(s.attrs()[1], Attribute::ColorFgRed));
}

#[test]
fn color_header_fn_bolds() {
    let mut s = AttributeString::from("Size ");
    color_header_fn(&mut s);
    assert!(matches!(s.attrs()[0], Attribute::TextBold));
}

#[test]
fn rows_push_and_map() {
    let mut r = Row::default();
    assert_eq!(r.len(), 0);
    r.push(cell("a"));
    r.push(cell("bb"));
    assert_eq!(r.len(), 2);
    let mapped = r.map(|v| {
        let mut c = v.clone();
        c.push_attr(Attribute::TextDim);
        c
    });
    assert_eq!(mapped.len(), 2);
    assert_eq!(mapped.values()[1].string(), "bb");
    assert_eq!(mapped.values()[1].attrs().len(), 1);
}

#[test]
fn push_row_accepts_matching_lengths_only() {
    let mut table = Table::with_header(row(&["A", "B"]));
    assert!(table.push_row(row(&["1", "2"])).is_ok());
    assert!(table.push_row(row(&["1"])).is_err());
    assert!(table.push_row(row(&["1", "2", "3"])).is_err());
    assert_eq!(table.rows().len(), 1);
    assert_eq!(table.rows()[0].values()[1].string(), "2");
}

#[test]
fn widths_grow_with_pushed_rows() {
    let mut table = Table::with_header(row(&["A", "B"]));
    assert_eq!(table.widths(), &vec![1, 1]);
    table.push_row(row(&["wide", "x"])).unwrap();
    assert_eq!(table.widths(), &vec![4, 1]);
}

#[test]
fn header_columns_are_trimmed_to_max_width() {
    let table = Table::new(row(&["abcdef"]), &[], Vec::new(), 3);
    assert_eq!(table.max_width(), 3);
    assert_eq!(table.widths(), &vec![3]);
}

#[test]
fn zero_max_width_falls_back_to_default() {
    let table = Table::with_header(row(&["A"]));
    assert_eq!(table.max_width(), 80);
}

#[test]
fn empty_header_table_carries_padding() {
    let table = Table::with_empty_header_and_padding(vec![
        Padding::Plain,
        Padding::Left,
        Padding::Plain,
        Padding::Left,
    ]);
    assert_eq!(table.header().len(), 4);
    assert_eq!(table.padding().len(), 4);
    assert!(matches!(table.padding()[1], Padding::Left));
}

#[test]
fn new_table_keeps_initial_rows() {
    let rows = vec![row(&["1", "2"]), row(&["3", "4"])];
    let table = Table::new(row(&["A", "B"]), &[Padding::Left, Padding::Right], rows, 0);
    assert_eq!(table.rows().len(), 2);
    assert_eq!(table.rows()[1].values()[0].string(), "3");
}
