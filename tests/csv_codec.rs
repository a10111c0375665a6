use termsheet::csv::escape;
use termsheet::sheet::{CellId, SheetModel};

#[test]
fn escape_leaves_plain_text() {
    assert_eq!(escape("plain text"), "plain text");
    assert_eq!(escape(""), "");
    assert_eq!(escape(&escape("abc")), "abc");
}

#[test]
fn escape_quotes_comma_quote_and_newline() {
    assert_eq!(escape("a,b"), "\"a,b\"");
    assert_eq!(escape("line\nbreak"), "\"line\nbreak\"");
    assert_eq!(escape("He said \"hi\", ok"), "\"He said \"\"hi\"\", ok\"");
}

#[test]
fn escape_twice_differs_when_text_has_comma() {
    let once = escape("5,6");
    let twice = escape(&once);
    assert_eq!(once, "\"5,6\"");
    assert_eq!(twice, "\"\"\"5,6\"\"\"");
    assert_ne!(once, twice);
}

#[test]
fn row_line_fills_gaps_and_stops_at_last_column() {
    let mut m = SheetModel::new();
    m.set(CellId::new(0, 0), "a".to_string());
    m.set(CellId::new(0, 2), "c,d".to_string());
    m.set(CellId::new(1, 5), "far".to_string());
    assert_eq!(m.row_to_line(0), "a,,\"c,d\"");
    assert_eq!(m.row_to_line(1), ",,,,,far");
    assert_eq!(m.row_to_line(2), "");
}

#[test]
fn csv_of_empty_sheet_has_a_line_per_row_up_to_cursor() {
    let m = SheetModel::new();
    assert_eq!(m.to_csv(3), "\n\n\n\n");
    assert_eq!(m.to_csv(0), "\n");
}

#[test]
fn csv_runs_to_last_row_in_use() {
    let mut m = SheetModel::new();
    m.set(CellId::new(0, 1), "x".to_string());
    m.set(CellId::new(2, 0), "y".to_string());
    assert_eq!(m.to_csv(7), ",x\n\ny\n");
}
