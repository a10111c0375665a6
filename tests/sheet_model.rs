use termsheet::sheet::{CellId, SheetModel};

fn text(s: &str) -> String {
    s.to_string()
}

#[test]
fn set_then_get_returns_text() {
    let mut m = SheetModel::new();
    m.set(CellId::new(2, 3), text("hello"));
    assert_eq!(m.get(CellId::new(2, 3)), "hello");
    assert_eq!(m.get(CellId::new(3, 2)), "");
}

#[test]
fn setting_empty_text_removes_cell() {
    let mut m = SheetModel::new();
    m.set(CellId::new(0, 0), text("x"));
    assert!(!m.is_empty());
    m.set(CellId::new(0, 0), text(""));
    assert!(m.is_empty());
    assert!(!m.row_has_entries(0));
}

#[test]
fn setting_empty_text_on_missing_cell_stores_nothing() {
    let mut m = SheetModel::new();
    m.set(CellId::new(4, 4), text(""));
    assert!(m.is_empty());
    assert_eq!(m.max_row(), 0);
}

#[test]
fn overwrite_keeps_one_entry() {
    let mut m = SheetModel::new();
    m.set(CellId::new(1, 1), text("a"));
    m.set(CellId::new(1, 1), text("b"));
    assert_eq!(m.get(CellId::new(1, 1)), "b");
    m.remove(CellId::new(1, 1));
    assert!(m.is_empty());
}

#[test]
fn max_row_and_max_col() {
    let mut m = SheetModel::new();
    assert_eq!(m.max_row(), 0);
    m.set(CellId::new(5, 1), text("a"));
    m.set(CellId::new(2, 7), text("b"));
    m.set(CellId::new(5, 4), text("c"));
    assert_eq!(m.max_row(), 5);
    assert_eq!(m.max_col_in_row(5), 4);
    assert_eq!(m.max_col_in_row(2), 7);
    assert_eq!(m.max_col_in_row(3), 0);
    assert!(m.row_has_entries(2));
    assert!(!m.row_has_entries(3));
}

#[test]
fn insert_row_shifts_later_rows_down() {
    let mut m = SheetModel::new();
    m.set(CellId::new(0, 0), text("r0"));
    m.set(CellId::new(1, 0), text("r1"));
    m.set(CellId::new(2, 1), text("r2"));
    m.insert_row_at(1);
    assert_eq!(m.get(CellId::new(0, 0)), "r0");
    assert_eq!(m.get(CellId::new(1, 0)), "");
    assert_eq!(m.get(CellId::new(2, 0)), "r1");
    assert_eq!(m.get(CellId::new(3, 1)), "r2");
    assert_eq!(m.max_row(), 3);
}

#[test]
fn insert_then_delete_row_restores_cells() {
    let mut m = SheetModel::new();
    m.set(CellId::new(0, 0), text("a"));
    m.set(CellId::new(1, 2), text("b"));
    m.set(CellId::new(3, 1), text("c"));
    m.insert_row_at(1);
    m.delete_row(1);
    assert_eq!(m.get(CellId::new(0, 0)), "a");
    assert_eq!(m.get(CellId::new(1, 2)), "b");
    assert_eq!(m.get(CellId::new(3, 1)), "c");
    assert!(!m.row_has_entries(2));
    assert!(!m.row_has_entries(4));
    assert_eq!(m.max_row(), 3);
}

#[test]
fn delete_first_row_moves_row_two_up() {
    let mut m = SheetModel::new();
    m.set(CellId::new(0, 0), text("top"));
    m.set(CellId::new(2, 0), text("bottom"));
    m.delete_row(0);
    assert_eq!(m.get(CellId::new(1, 0)), "bottom");
    assert_eq!(m.get(CellId::new(0, 0)), "");
    assert_eq!(m.max_row(), 1);
}
