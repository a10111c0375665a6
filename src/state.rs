use vstd::prelude::*;

use crate::csv::{
    escaped, last_row, lemma_escape_plain, lemma_escape_twice_differs, needs_quotes, sheet_text,
};
use crate::sheet::{lemma_insert_then_delete_row, rows_below_max, shift_down, shift_up, text_at, Cells};
use crate::viewport::{clamped_origin, delta_spec, shown, Cursor, Viewport};

verus! {

/// Caret of the cell being edited, counted in characters from the start of its text.
#[derive(Clone, Copy, Debug, PartialEq, Eq, Structural)]
pub struct InsertState {
    pub caret: usize,
}

#[derive(Clone, Copy, Debug, PartialEq, Eq, Structural)]
pub enum Mode {
    Normal,
    Insert(InsertState),
    Command,
}

impl Mode {
    /// The mode's name as the status line shows it.
    pub fn label(&self) -> (r: &'static str)
        ensures
            r@ == match self {
                Mode::Normal => "NORMAL"@,
                Mode::Insert(_) => "INSERT"@,
                Mode::Command => "COMMAND"@,
            },
    {
        match self {
            Mode::Normal => "NORMAL",
            Mode::Insert(_) => "INSERT",
            Mode::Command => "COMMAND",
        }
    }
}

/// The key of an input event.
#[derive(Clone, Copy, Debug, PartialEq, Eq, Structural)]
pub enum KeyCode {
    Char(char),
    Left,
    Right,
    Up,
    Down,
    Enter,
    Esc,
    Backspace,
    Delete,
    Other,
}

/// One key press, with whether Control was held.
#[derive(Clone, Copy, Debug, PartialEq, Eq, Structural)]
pub struct KeyInput {
    pub code: KeyCode,
    pub ctrl: bool,
}

/// The work an effect asks of the host, as mathematical values.
pub enum Request {
    Nothing,
    Save(Seq<char>, Seq<char>),
    LoadTheme(Seq<char>),
    ListThemes,
}

/// Everything the editor holds, as mathematical values.
pub struct AppState {
    pub running: bool,
    pub mode: Mode,
    pub visible_rows: usize,
    pub visible_cols: usize,
    pub viewport: Viewport,
    pub cells: Cells,
    pub cursor: Cursor,
    pub file_name: Seq<char>,
    pub command_buffer: Seq<char>,
    pub pending: Option<char>,
    pub clipboard: Option<Seq<char>>,
}

pub const DEFAULT_VISIBLE_ROWS: usize = 12;

pub const DEFAULT_VISIBLE_COLS: usize = 8;

/// The cursor is inside the visible window on both axes.
pub open spec fn cursor_shown(s: AppState) -> bool {
    shown(s.viewport.row, s.cursor.row, s.visible_rows) && shown(
        s.viewport.col,
        s.cursor.col,
        s.visible_cols,
    )
}

/// The window moved the least amount that keeps the cursor visible.
pub open spec fn scrolled(s: AppState) -> AppState {
    AppState {
        viewport: Viewport {
            row: clamped_origin(s.viewport.row, s.cursor.row, s.visible_rows),
            col: clamped_origin(s.viewport.col, s.cursor.col, s.visible_cols),
        },
        ..s
    }
}

/// The cursor moved by signed steps, stopping at zero, then the window follows.
pub open spec fn moved(s: AppState, delta_col: i32, delta_row: i32) -> AppState {
    scrolled(
        AppState {
            cursor: Cursor {
                row: delta_spec(s.cursor.row, delta_row),
                col: delta_spec(s.cursor.col, delta_col),
            },
            ..s
        },
    )
}

/// The cursor put on row `row`, column kept, then the window follows.
pub open spec fn at_row(s: AppState, row: usize) -> AppState {
    scrolled(AppState { cursor: Cursor { row, col: s.cursor.col }, ..s })
}

pub open spec fn current_text(s: AppState) -> Seq<char> {
    text_at(s.cells, s.cursor.row, s.cursor.col)
}

/// Cells with the text at (`r`, `c`) replaced; empty text removes the cell.
pub open spec fn with_text(m: Cells, r: usize, c: usize, t: Seq<char>) -> Cells {
    if t.len() == 0 {
        m.remove((r, c))
    } else {
        m.insert((r, c), t)
    }
}

pub open spec fn with_status(s: AppState, msg: Seq<char>) -> AppState {
    AppState { command_buffer: msg, ..s }
}

/// A blank row opened at `row`; the cursor goes to its first column, in Insert mode.
pub open spec fn opened_row(s: AppState, row: usize) -> AppState {
    scrolled(
        AppState {
            cells: shift_down(s.cells, row),
            cursor: Cursor { row, col: 0 },
            mode: Mode::Insert(InsertState { caret: 0 }),
            ..s
        },
    )
}

/// Where the cursor row goes after its row was deleted, given the cells left.
pub open spec fn row_after_delete(m: Cells, row: usize) -> usize {
    if row > last_row(m) && row > 0 {
        (row - 1) as usize
    } else {
        row
    }
}

/// The cursor's row deleted; the cursor steps up when it was past the last row.
pub open spec fn deleted_row(s: AppState) -> AppState {
    let m = shift_up(s.cells, s.cursor.row);
    scrolled(
        AppState {
            cells: m,
            cursor: Cursor { row: row_after_delete(m, s.cursor.row), col: s.cursor.col },
            ..s
        },
    )
}

/// The current cell's escaped text copied to the clipboard and shown.
pub open spec fn copied(s: AppState) -> AppState {
    let t = escaped(current_text(s));
    AppState { clipboard: Some(t), command_buffer: t, ..s }
}

/// The clipboard's text written over the current cell.
pub open spec fn pasted(s: AppState) -> AppState {
    match s.clipboard {
        Some(t) => AppState {
            cells: with_text(s.cells, s.cursor.row, s.cursor.col, t),
            command_buffer: "pasted"@,
            ..s
        },
        None => with_status(s, "clipboard empty"@),
    }
}

pub open spec fn in_mode(s: AppState, mode: Mode) -> AppState {
    AppState { mode, ..s }
}

pub open spec fn typed(code: KeyCode) -> Option<char> {
    match code {
        KeyCode::Char(c) => Some(c),
        _ => None,
    }
}

/// The second key of a two-key command.
pub open spec fn two_key(s: AppState, c: char) -> AppState {
    if c == 'g' {
        at_row(s, 0)
    } else if c == 'd' {
        deleted_row(s)
    } else if c == 'y' {
        copied(s)
    } else {
        s
    }
}

/// A key in Normal mode with no prefix pending.
pub open spec fn normal_key(s: AppState, code: KeyCode) -> AppState {
    match code {
        KeyCode::Left => moved(s, -1i32, 0),
        KeyCode::Right => moved(s, 1, 0),
        KeyCode::Up => moved(s, 0, -1i32),
        KeyCode::Down => moved(s, 0, 1),
        KeyCode::Enter => moved(s, 0, 1),
        KeyCode::Char(c) => {
            if c == 'h' {
                moved(s, -1i32, 0)
            } else if c == 'l' {
                moved(s, 1, 0)
            } else if c == 'k' {
                moved(s, 0, -1i32)
            } else if c == 'j' {
                moved(s, 0, 1)
            } else if c == 'b' {
                moved(s, -5i32, 0)
            } else if c == 'w' {
                moved(s, 5, 0)
            } else if c == 'g' || c == 'd' || c == 'y' {
                AppState { pending: Some(c), command_buffer: seq![c], ..s }
            } else if c == 'G' {
                at_row(s, last_row(s.cells))
            } else if c == 'o' {
                if rows_below_max(s.cells) && s.cursor.row < usize::MAX {
                    opened_row(s, (s.cursor.row + 1) as usize)
                } else {
                    with_status(s, "no room for another row"@)
                }
            } else if c == 'O' {
                if rows_below_max(s.cells) {
                    opened_row(s, s.cursor.row)
                } else {
                    with_status(s, "no room for another row"@)
                }
            } else if c == 'p' {
                pasted(s)
            } else if c == 'i' {
                in_mode(s, Mode::Insert(InsertState { caret: 0 }))
            } else if c == 'a' {
                in_mode(s, Mode::Insert(InsertState { caret: current_text(s).len() as usize }))
            } else if c == ':' {
                AppState { mode: Mode::Command, command_buffer: Seq::empty(), ..s }
            } else {
                s
            }
        },
        _ => s,
    }
}

/// The keys that do something in Normal mode with no prefix pending.
pub open spec fn normal_command_char(c: char) -> bool {
    c == 'h' || c == 'l' || c == 'k' || c == 'j' || c == 'b' || c == 'w' || c == 'g' || c == 'd'
        || c == 'y' || c == 'G' || c == 'o' || c == 'O' || c == 'p' || c == 'i' || c == 'a' || c
        == ':'
}

/// A key in Normal mode: it completes the pending prefix, or the prefix is
/// dropped (and taken off the status line) and the key is taken on its own.
pub open spec fn normal_step(s: AppState, key: KeyInput) -> AppState {
    let t = if s.pending.is_some() {
        AppState { pending: None, command_buffer: Seq::empty(), ..s }
    } else {
        s
    };
    if key.ctrl {
        t
    } else if s.pending.is_some() && typed(key.code) == s.pending {
        two_key(t, s.pending.unwrap())
    } else {
        normal_key(t, key.code)
    }
}

/// The edited cell holding `text`, with the caret at `caret`.
pub open spec fn edited(s: AppState, text: Seq<char>, caret: usize) -> AppState {
    AppState {
        cells: with_text(s.cells, s.cursor.row, s.cursor.col, text),
        mode: Mode::Insert(InsertState { caret }),
        ..s
    }
}

/// A key in Insert mode, with the caret at `caret`.
pub open spec fn insert_step(s: AppState, caret: usize, key: KeyInput) -> AppState {
    let t = current_text(s);
    let n = t.len();
    let cur: int = if caret <= n {
        caret as int
    } else {
        n as int
    };
    match key.code {
        KeyCode::Esc => in_mode(s, Mode::Normal),
        KeyCode::Enter => moved(in_mode(s, Mode::Normal), 0, 1),
        KeyCode::Left => in_mode(
            s,
            Mode::Insert(InsertState { caret: (if cur > 0 { cur - 1 } else { 0 }) as usize }),
        ),
        KeyCode::Right => in_mode(
            s,
            Mode::Insert(InsertState { caret: (if cur < n { cur + 1 } else { n as int }) as usize }),
        ),
        KeyCode::Backspace => if cur > 0 {
            edited(s, t.remove(cur - 1), (cur - 1) as usize)
        } else {
            s
        },
        KeyCode::Delete => if cur < n {
            edited(s, t.remove(cur), cur as usize)
        } else {
            s
        },
        KeyCode::Char(c) => if key.ctrl {
            s
        } else {
            edited(s, t.insert(cur, c), (cur + 1) as usize)
        },
        _ => s,
    }
}

/// The first index at or after `i` that does not hold a space.
pub open spec fn skip_spaces(s: Seq<char>, i: int) -> int
    decreases s.len() - i,
{
    if 0 <= i < s.len() && s[i] == ' ' {
        skip_spaces(s, i + 1)
    } else {
        i
    }
}

/// The first index at or after `i` that holds a space, or the end.
pub open spec fn word_end(s: Seq<char>, i: int) -> int
    decreases s.len() - i,
{
    if 0 <= i < s.len() && s[i] != ' ' {
        word_end(s, i + 1)
    } else {
        i
    }
}

/// The first word of a command line.
pub open spec fn command_name(line: Seq<char>) -> Seq<char> {
    let a = skip_spaces(line, 0);
    line.subrange(a, word_end(line, a))
}

/// The second word of a command line, empty when there is none.
pub open spec fn command_arg(line: Seq<char>) -> Seq<char> {
    let b = skip_spaces(line, word_end(line, skip_spaces(line, 0)));
    line.subrange(b, word_end(line, b))
}

pub open spec fn is_digit(c: char) -> bool {
    '0' <= c <= '9'
}

pub open spec fn all_digits(s: Seq<char>) -> bool {
    forall|i: int| 0 <= i < s.len() ==> is_digit(#[trigger] s[i])
}

/// The number that a string of decimal digits writes.
pub open spec fn digits_value(s: Seq<char>) -> nat
    decreases s.len(),
{
    if s.len() == 0 {
        0
    } else {
        digits_value(s.drop_last()) * 10 + (s.last() as nat - '0' as nat) as nat
    }
}

/// The column count that `cols` sets: the argument when it is a decimal
/// number that fits, the default otherwise.
pub open spec fn cols_from(arg: Seq<char>) -> usize {
    if arg.len() > 0 && all_digits(arg) && digits_value(arg) <= usize::MAX {
        digits_value(arg) as usize
    } else {
        DEFAULT_VISIBLE_COLS
    }
}

/// The text that a save writes.
pub open spec fn saved_text(s: AppState) -> Seq<char> {
    sheet_text(s.cells, s.cursor.row)
}

/// Running the typed command line; the line is cleared and Normal mode resumes.
pub open spec fn executed(s: AppState) -> (AppState, Request) {
    let line = s.command_buffer;
    let name = command_name(line);
    let arg = command_arg(line);
    let t = AppState { mode: Mode::Normal, command_buffer: Seq::empty(), ..s };
    let path = if arg.len() == 0 {
        s.file_name
    } else {
        arg
    };
    if name == "w"@ || name == "write"@ {
        (t, Request::Save(path, saved_text(s)))
    } else if name == "q"@ || name == "quit"@ {
        (AppState { running: false, ..t }, Request::Nothing)
    } else if name == "wq"@ {
        (AppState { running: false, ..t }, Request::Save(path, saved_text(s)))
    } else if name == "cols"@ {
        (AppState { visible_cols: cols_from(arg), ..t }, Request::Nothing)
    } else if name == "theme"@ {
        if arg.len() == 0 {
            (t, Request::ListThemes)
        } else {
            (t, Request::LoadTheme(arg))
        }
    } else if name.len() == 0 {
        (t, Request::Nothing)
    } else {
        (with_status(t, "unknown command: "@ + name), Request::Nothing)
    }
}

/// A key in Command mode.
pub open spec fn command_step(s: AppState, key: KeyInput) -> (AppState, Request) {
    match key.code {
        KeyCode::Esc => (
            AppState { mode: Mode::Normal, command_buffer: Seq::empty(), ..s },
            Request::Nothing,
        ),
        KeyCode::Enter => executed(s),
        KeyCode::Backspace | KeyCode::Delete => (
            with_status(
                s,
                if s.command_buffer.len() > 0 {
                    s.command_buffer.drop_last()
                } else {
                    s.command_buffer
                },
            ),
            Request::Nothing,
        ),
        KeyCode::Char(c) => if key.ctrl {
            (s, Request::Nothing)
        } else {
            (with_status(s, s.command_buffer.push(c)), Request::Nothing)
        },
        _ => (s, Request::Nothing),
    }
}

pub open spec fn ctrl_char(key: KeyInput, lower: char, upper: char) -> bool {
    key.ctrl && (key.code == KeyCode::Char(lower) || key.code == KeyCode::Char(upper))
}

/// The editor's answer to one key: Control with `s` saves, with `q` or `c`
/// quits, in any mode; every other key goes to the current mode.
pub open spec fn next(s: AppState, key: KeyInput) -> (AppState, Request) {
    if ctrl_char(key, 's', 'S') {
        (s, Request::Save(s.file_name, saved_text(s)))
    } else if ctrl_char(key, 'q', 'Q') || ctrl_char(key, 'c', 'C') {
        (AppState { running: false, ..s }, Request::Nothing)
    } else {
        match s.mode {
            Mode::Normal => (normal_step(s, key), Request::Nothing),
            Mode::Insert(st) => (insert_step(s, st.caret, key), Request::Nothing),
            Mode::Command => command_step(s, key),
        }
    }
}

/// After any cursor move the cursor is visible: inside the window on each
/// axis, or exactly at its origin where nothing is visible.
pub proof fn lemma_move_shows_cursor(s: AppState, delta_col: i32, delta_row: i32)
    ensures
        cursor_shown(moved(s, delta_col, delta_row)),
{
}

/// Opening a blank row above the cursor (`O`) and then deleting the cursor's
/// row (`dd`) leaves the cells as they were.
pub proof fn lemma_open_then_delete_row(s: AppState)
    requires
        rows_below_max(s.cells),
    ensures
        deleted_row(opened_row(s, s.cursor.row)).cells == s.cells,
{
    lemma_insert_then_delete_row(s.cells, s.cursor.row);
}

pub open spec fn plain(c: char) -> KeyInput {
    KeyInput { code: KeyCode::Char(c), ctrl: false }
}

/// In Normal mode, `g` leaves a pending prefix, shown on the status line. A
/// next key other than `g` drops it and acts as it would with nothing pending,
/// so it jumps nowhere, and a key without a Normal-mode meaning changes
/// neither cursor, window nor cells. A second `g` goes to row 0, keeps the
/// column and the cells, and clears the prefix.
pub proof fn lemma_g_prefix(s: AppState, key: KeyInput)
    requires
        s.mode == Mode::Normal,
        s.pending.is_none(),
        !key.ctrl,
    ensures
        ({
            let s1 = next(s, plain('g')).0;
            let s2 = next(s1, key).0;
            &&& s1.pending == Some('g')
            &&& s1.command_buffer == seq!['g']
            &&& key.code != KeyCode::Char('g') ==> {
                &&& next(s1, key) == next(
                    AppState { pending: None, command_buffer: Seq::empty(), ..s1 },
                    key,
                )
                &&& s2.pending != Some('g')
                &&& s2.command_buffer != seq!['g']
            }
            &&& (key.code == KeyCode::Other || key.code == KeyCode::Esc || (typed(key.code).is_some()
                && !normal_command_char(typed(key.code).unwrap()))) ==> {
                &&& s2.cursor == s.cursor
                &&& s2.viewport == s.viewport
                &&& s2.cells == s.cells
                &&& s2.pending.is_none()
                &&& s2.command_buffer.len() == 0
            }
            &&& key.code == KeyCode::Char('g') ==> {
                &&& s2.cursor.row == 0
                &&& s2.cursor.col == s.cursor.col
                &&& s2.viewport.row == 0
                &&& s2.cells == s.cells
                &&& s2.mode == Mode::Normal
                &&& s2.pending.is_none()
                &&& s2.command_buffer.len() == 0
            }
        }),
{
    let s1 = next(s, plain('g')).0;
    let s2 = next(s1, key).0;
    assert(s1.pending == Some('g'));
    assert(s1.command_buffer == seq!['g']);
    if key.code != KeyCode::Char('g') {
        assert(next(s1, key) == next(
                    AppState { pending: None, command_buffer: Seq::empty(), ..s1 },
                    key,
                ));
        assert(s2.pending != Some('g'));
        assert(seq!['g'][0] == 'g');
        if let KeyCode::Char(c) = key.code {
            if c == 'd' || c == 'y' {
                assert(seq![c][0] == c);
            }
        }
        reveal_strlit("pasted");
        reveal_strlit("clipboard empty");
        reveal_strlit("no room for another row");
        assert(s2.command_buffer != seq!['g']);
    }
}

/// In Normal mode, `O` (open a row above), Esc, then `d` `d` leave the cells
/// as they were.
pub proof fn lemma_open_escape_delete(s: AppState)
    requires
        s.mode == Mode::Normal,
        s.pending.is_none(),
        rows_below_max(s.cells),
    ensures
        ({
            let s1 = next(s, plain('O')).0;
            let s2 = next(s1, KeyInput { code: KeyCode::Esc, ctrl: false }).0;
            let s3 = next(s2, plain('d')).0;
            next(s3, plain('d')).0.cells == s.cells
        }),
{
    lemma_insert_then_delete_row(s.cells, s.cursor.row);
}

/// In Normal mode, `y` `y` copies the current cell's text unchanged when it
/// holds no comma, quote or newline, so copying it again after a paste gives
/// the same text; when it holds a comma, the copy is quoted and differs, and
/// quoting that copy again differs once more. The cells are left as they were.
pub proof fn lemma_yank(s: AppState)
    requires
        s.mode == Mode::Normal,
        s.pending.is_none(),
    ensures
        ({
            let x = current_text(s);
            let s2 = next(next(s, plain('y')).0, plain('y')).0;
            &&& s2.cells == s.cells
            &&& s2.clipboard == Some(escaped(x))
            &&& !needs_quotes(x) ==> s2.clipboard == Some(x) && escaped(escaped(x)) == escaped(x)
            &&& x.contains(',') ==> escaped(x) != x && escaped(escaped(x)) != escaped(x)
        }),
{
    let x = current_text(s);
    if !needs_quotes(x) {
        lemma_escape_plain(x);
    }
    if x.contains(',') {
        lemma_escape_twice_differs(x);
        let e = escaped(x);
        let i = choose|i: int| 0 <= i < x.len() && x[i] == ',';
        assert(crate::csv::is_special(x[i]));
        assert(e[0] == '"');
        if e == x {
            assert(crate::csv::is_special(e[0]));
        }
        crate::csv::lemma_double_quotes_len(x);
    }
}

} // verus!
