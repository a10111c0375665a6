use termsheet::editor::{themes_dir, App, Effect};
use termsheet::state::{InsertState, KeyCode, KeyInput, Mode};

fn key(c: char) -> KeyInput {
    KeyInput { code: KeyCode::Char(c), ctrl: false }
}

fn ctrl(c: char) -> KeyInput {
    KeyInput { code: KeyCode::Char(c), ctrl: true }
}

fn special(code: KeyCode) -> KeyInput {
    KeyInput { code, ctrl: false }
}

fn press(app: &mut App, keys: &str) {
    for c in keys.chars() {
        let e = app.on_key_event(key(c));
        assert!(matches!(e, Effect::Nothing));
    }
}

fn command(app: &mut App, line: &str) -> Effect {
    press(app, ":");
    press(app, line);
    app.on_key_event(special(KeyCode::Enter))
}

#[test]
fn new_app_starts_empty_in_normal_mode() {
    let mut app = App::new();
    assert!(!app.is_running());
    assert_eq!(app.mode(), Mode::Normal);
    assert_eq!(app.cursor().row, 0);
    assert_eq!(app.cursor().col, 0);
    assert_eq!(app.visible_rows(), 12);
    assert_eq!(app.visible_cols(), 8);
    assert_eq!(app.file_name(), "Untitled.csv");
    assert!(app.clipboard().is_none());
    assert_eq!(themes_dir(), "themes");
    app.start();
    assert!(app.is_running());
    assert_eq!(app.mode(), Mode::Normal);
}

#[test]
fn yank_and_paste_keep_escaped_text() {
    let mut app = App::new();
    press(&mut app, "i5,6");
    app.on_key_event(special(KeyCode::Esc));
    assert_eq!(app.mode(), Mode::Normal);
    assert_eq!(app.cell_text(0, 0), "5,6");
    press(&mut app, "yy");
    assert_eq!(app.clipboard(), Some("\"5,6\"".to_string()));
    assert_eq!(app.command_buffer(), "\"5,6\"");
    press(&mut app, "lp");
    assert_eq!(app.cell_text(0, 1), "\"5,6\"");
    assert_eq!(app.cell_text(0, 0), "5,6");
    press(&mut app, "jp");
    assert_eq!(app.cell_text(1, 1), "\"5,6\"");
}

#[test]
fn paste_with_empty_clipboard_reports_it() {
    let mut app = App::new();
    press(&mut app, "p");
    assert_eq!(app.command_buffer(), "clipboard empty");
    assert_eq!(app.cell_text(0, 0), "");
}

#[test]
fn g_then_other_key_does_not_jump() {
    let mut app = App::new();
    press(&mut app, "jjj");
    assert_eq!(app.cursor().row, 3);
    press(&mut app, "g");
    assert_eq!(app.pending(), Some('g'));
    assert_eq!(app.command_buffer(), "g");
    press(&mut app, "x");
    assert_eq!(app.pending(), None);
    assert_eq!(app.command_buffer(), "");
    assert_eq!(app.cursor().row, 3);
    press(&mut app, "gj");
    assert_eq!(app.pending(), None);
    assert_eq!(app.cursor().row, 4);
    press(&mut app, "gg");
    assert_eq!(app.cursor().row, 0);
    assert_eq!(app.pending(), None);
    assert_eq!(app.command_buffer(), "");
}

#[test]
fn capital_g_goes_to_last_populated_row() {
    let mut app = App::new();
    press(&mut app, "jjjjjiz");
    app.on_key_event(special(KeyCode::Esc));
    press(&mut app, "gg");
    assert_eq!(app.cursor().row, 0);
    press(&mut app, "lG");
    assert_eq!(app.cursor().row, 5);
    assert_eq!(app.cursor().col, 1);
}

#[test]
fn moving_down_scrolls_viewport() {
    let mut app = App::new();
    for _ in 0..12 {
        press(&mut app, "j");
    }
    assert_eq!(app.cursor().row, 12);
    assert_eq!(app.viewport().row, 1);
    press(&mut app, "k");
    assert_eq!(app.viewport().row, 1);
    for _ in 0..11 {
        press(&mut app, "k");
    }
    assert_eq!(app.cursor().row, 0);
    assert_eq!(app.viewport().row, 0);
    press(&mut app, "k");
    assert_eq!(app.cursor().row, 0);
}

#[test]
fn word_moves_jump_five_columns() {
    let mut app = App::new();
    press(&mut app, "ww");
    assert_eq!(app.cursor().col, 10);
    assert_eq!(app.viewport().col, 3);
    press(&mut app, "bbb");
    assert_eq!(app.cursor().col, 0);
    assert_eq!(app.viewport().col, 0);
}

#[test]
fn zero_visible_extent_snaps_viewport_to_cursor() {
    let mut app = App::new();
    app.set_visible_size(0, 0);
    press(&mut app, "jjl");
    assert_eq!(app.viewport().row, 2);
    assert_eq!(app.viewport().col, 1);
    press(&mut app, "k");
    assert_eq!(app.viewport().row, 1);
}

#[test]
fn arrow_keys_and_enter_move() {
    let mut app = App::new();
    app.on_key_event(special(KeyCode::Down));
    app.on_key_event(special(KeyCode::Right));
    app.on_key_event(special(KeyCode::Enter));
    assert_eq!(app.cursor().row, 2);
    assert_eq!(app.cursor().col, 1);
    app.on_key_event(special(KeyCode::Up));
    app.on_key_event(special(KeyCode::Left));
    app.on_key_event(special(KeyCode::Left));
    assert_eq!(app.cursor().row, 1);
    assert_eq!(app.cursor().col, 0);
}

#[test]
fn insert_mode_edits_at_caret() {
    let mut app = App::new();
    press(&mut app, "iabc");
    assert_eq!(app.mode(), Mode::Insert(InsertState { caret: 3 }));
    app.on_key_event(special(KeyCode::Left));
    app.on_key_event(special(KeyCode::Left));
    press(&mut app, "X");
    assert_eq!(app.cell_text(0, 0), "aXbc");
    app.on_key_event(special(KeyCode::Backspace));
    assert_eq!(app.cell_text(0, 0), "abc");
    assert_eq!(app.mode(), Mode::Insert(InsertState { caret: 1 }));
    app.on_key_event(special(KeyCode::Delete));
    assert_eq!(app.cell_text(0, 0), "ac");
    assert_eq!(app.mode(), Mode::Insert(InsertState { caret: 1 }));
    app.on_key_event(special(KeyCode::Right));
    app.on_key_event(special(KeyCode::Right));
    assert_eq!(app.mode(), Mode::Insert(InsertState { caret: 2 }));
    app.on_key_event(special(KeyCode::Delete));
    assert_eq!(app.cell_text(0, 0), "ac");
    app.on_key_event(ctrl('x'));
    assert_eq!(app.cell_text(0, 0), "ac");
    app.on_key_event(special(KeyCode::Enter));
    assert_eq!(app.mode(), Mode::Normal);
    assert_eq!(app.cursor().row, 1);
}

#[test]
fn insert_mode_handles_multibyte_text() {
    let mut app = App::new();
    press(&mut app, "iéü");
    app.on_key_event(special(KeyCode::Left));
    app.on_key_event(special(KeyCode::Backspace));
    assert_eq!(app.cell_text(0, 0), "ü");
    assert_eq!(app.mode(), Mode::Insert(InsertState { caret: 0 }));
}

#[test]
fn erasing_all_text_removes_the_cell() {
    let mut app = App::new();
    press(&mut app, "iq");
    app.on_key_event(special(KeyCode::Backspace));
    app.on_key_event(special(KeyCode::Backspace));
    assert_eq!(app.cell_text(0, 0), "");
    app.on_key_event(special(KeyCode::Esc));
    match app.on_key_event(ctrl('s')) {
        Effect::Save { path, text } => {
            assert_eq!(path, "Untitled.csv");
            assert_eq!(text, "\n");
        }
        _ => panic!("expected a save"),
    }
}

#[test]
fn append_puts_caret_at_end() {
    let mut app = App::new();
    press(&mut app, "ihey");
    app.on_key_event(special(KeyCode::Esc));
    press(&mut app, "a");
    assert_eq!(app.mode(), Mode::Insert(InsertState { caret: 3 }));
    press(&mut app, "!");
    assert_eq!(app.cell_text(0, 0), "hey!");
}

#[test]
fn open_row_below_and_above() {
    let mut app = App::new();
    press(&mut app, "ia");
    app.on_key_event(special(KeyCode::Esc));
    press(&mut app, "jib");
    app.on_key_event(special(KeyCode::Esc));
    press(&mut app, "kl");
    press(&mut app, "o");
    assert_eq!(app.mode(), Mode::Insert(InsertState { caret: 0 }));
    assert_eq!(app.cursor().row, 1);
    assert_eq!(app.cursor().col, 0);
    assert_eq!(app.cell_text(2, 0), "b");
    app.on_key_event(special(KeyCode::Esc));
    press(&mut app, "O");
    assert_eq!(app.cursor().row, 1);
    assert_eq!(app.cell_text(0, 0), "a");
    assert_eq!(app.cell_text(3, 0), "b");
}

#[test]
fn dd_deletes_row_and_steps_cursor_up_past_end() {
    let mut app = App::new();
    press(&mut app, "ia");
    app.on_key_event(special(KeyCode::Esc));
    press(&mut app, "jjic");
    app.on_key_event(special(KeyCode::Esc));
    press(&mut app, "ggdd");
    assert_eq!(app.cell_text(1, 0), "c");
    assert_eq!(app.cell_text(0, 0), "");
    assert_eq!(app.cursor().row, 0);
    press(&mut app, "jdd");
    assert_eq!(app.cursor().row, 0);
    assert_eq!(app.cell_text(1, 0), "");
}

#[test]
fn delete_current_row_on_first_row_shifts_rest_up() {
    let mut app = App::new();
    press(&mut app, "ia");
    app.on_key_event(special(KeyCode::Esc));
    press(&mut app, "jjic");
    app.on_key_event(special(KeyCode::Esc));
    press(&mut app, "gg");
    app.delete_current_row();
    assert_eq!(app.cell_text(1, 0), "c");
    app.go_to_last_row_with_value();
    assert_eq!(app.cursor().row, 1);
}

#[test]
fn write_command_saves_to_given_path() {
    let mut app = started();
    press(&mut app, "ix");
    app.on_key_event(special(KeyCode::Esc));
    press(&mut app, "jjj");
    match command(&mut app, "w  out.csv") {
        Effect::Save { path, text } => {
            assert_eq!(path, "out.csv");
            assert_eq!(text, "x\n");
        }
        _ => panic!("expected a save"),
    }
    assert_eq!(app.mode(), Mode::Normal);
    assert_eq!(app.command_buffer(), "");
    assert!(app.is_running());
    match command(&mut app, "write") {
        Effect::Save { path, .. } => assert_eq!(path, "Untitled.csv"),
        _ => panic!("expected a save"),
    }
}

#[test]
fn save_of_empty_sheet_runs_to_cursor_row() {
    let mut app = App::new();
    press(&mut app, "jjj");
    assert_eq!(app.save_text(), "\n\n\n\n");
}

fn started() -> App {
    let mut app = App::new();
    app.start();
    app
}

#[test]
fn quit_commands_stop_the_editor() {
    let mut app = started();
    assert!(matches!(command(&mut app, "q"), Effect::Nothing));
    assert!(!app.is_running());
    let mut app = started();
    assert!(matches!(command(&mut app, "quit"), Effect::Nothing));
    assert!(!app.is_running());
    let mut app = started();
    assert!(matches!(command(&mut app, "wq"), Effect::Save { .. }));
    assert!(!app.is_running());
    let mut app = started();
    app.on_key_event(ctrl('q'));
    assert!(!app.is_running());
    let mut app = started();
    press(&mut app, "i");
    app.on_key_event(ctrl('c'));
    assert!(!app.is_running());
}

#[test]
fn cols_command_sets_column_count() {
    let mut app = App::new();
    command(&mut app, "cols 12");
    assert_eq!(app.visible_cols(), 12);
    command(&mut app, "cols abc");
    assert_eq!(app.visible_cols(), 8);
    command(&mut app, "cols 3");
    command(&mut app, "cols");
    assert_eq!(app.visible_cols(), 8);
    command(&mut app, "cols 99999999999999999999999");
    assert_eq!(app.visible_cols(), 8);
}

#[test]
fn theme_command_asks_host() {
    let mut app = App::new();
    assert!(matches!(command(&mut app, "theme"), Effect::ListThemes));
    match command(&mut app, "theme dark") {
        Effect::LoadTheme(name) => assert_eq!(name, "dark"),
        _ => panic!("expected a theme load"),
    }
}

#[test]
fn unknown_command_reports_it() {
    let mut app = App::new();
    command(&mut app, "frobnicate now");
    assert_eq!(app.command_buffer(), "unknown command: frobnicate");
    assert_eq!(app.mode(), Mode::Normal);
}

#[test]
fn command_line_editing() {
    let mut app = App::new();
    press(&mut app, ":abc");
    assert_eq!(app.mode(), Mode::Command);
    app.on_key_event(special(KeyCode::Backspace));
    assert_eq!(app.command_buffer(), "ab");
    app.on_key_event(special(KeyCode::Esc));
    assert_eq!(app.mode(), Mode::Normal);
    assert_eq!(app.command_buffer(), "");
}

#[test]
fn report_save_shows_outcome() {
    let mut app = App::new();
    app.report_save(Ok("a.csv".to_string()));
    assert_eq!(app.command_buffer(), "written: a.csv");
    app.report_save(Err("denied".to_string()));
    assert_eq!(app.command_buffer(), "save failed: denied");
}

#[test]
fn formula_cells_display_error_marker() {
    let mut app = App::new();
    press(&mut app, "i=1+1");
    app.on_key_event(special(KeyCode::Esc));
    assert_eq!(app.cell_display_text(0, 0), "#NAME?");
    assert_eq!(app.cell_text(0, 0), "=1+1");
    assert_eq!(app.cell_display_text(0, 1), "");
}

#[test]
fn mode_labels() {
    assert_eq!(Mode::Normal.label(), "NORMAL");
    assert_eq!(Mode::Insert(InsertState { caret: 2 }).label(), "INSERT");
    assert_eq!(Mode::Command.label(), "COMMAND");
}
