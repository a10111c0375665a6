use vstd::prelude::*;

use crate::csv::escape;
use crate::sheet::{rows_below_max, text_at, CellId, SheetModel};
use crate::state::{
    all_digits, at_row, cols_from, command_step, copied, current_text, cursor_shown, deleted_row,
    digits_value, edited, executed, insert_step, is_digit, next, normal_key, normal_step,
    opened_row, pasted, saved_text, scrolled, skip_spaces, with_status, word_end, moved, AppState,
    InsertState, KeyCode, KeyInput, Mode, Request, DEFAULT_VISIBLE_COLS, DEFAULT_VISIBLE_ROWS,
};
use crate::text::{chars_of, push_char, string_of};
use crate::viewport::{apply_delta, clamp_origin, Cursor, Viewport};

verus! {

/// Directory, relative to the working directory, that holds the theme files.
pub fn themes_dir() -> (r: String)
    ensures
        r@ == "themes"@,
{
    owned("themes")
}

/// Work that the editor hands to its host after a key.
pub enum Effect {
    Nothing,
    /// Write `text` to the file at `path`, then report with `App::report_save`.
    Save { path: String, text: String },
    /// Load the named colour theme.
    LoadTheme(String),
    /// Show the names of the available themes.
    ListThemes,
}

impl View for Effect {
    type V = Request;

    open spec fn view(&self) -> Request {
        match self {
            Effect::Nothing => Request::Nothing,
            Effect::Save { path, text } => Request::Save(path@, text@),
            Effect::LoadTheme(name) => Request::LoadTheme(name@),
            Effect::ListThemes => Request::ListThemes,
        }
    }
}

/// The sheet editor: cells, cursor and window, mode, command line and clipboard.
pub struct App {
    running: bool,
    mode: Mode,
    visible_rows: usize,
    visible_cols: usize,
    viewport: Viewport,
    cells: SheetModel,
    cursor: Cursor,
    file_name: String,
    command_buffer: String,
    pending: Option<char>,
    clipboard: Option<String>,
}

pub open spec fn opt_view(o: Option<String>) -> Option<Seq<char>> {
    match o {
        Some(t) => Some(t@),
        None => None,
    }
}

impl View for App {
    type V = AppState;

    closed spec fn view(&self) -> AppState {
        AppState {
            running: self.running,
            mode: self.mode,
            visible_rows: self.visible_rows,
            visible_cols: self.visible_cols,
            viewport: self.viewport,
            cells: self.cells@,
            cursor: self.cursor,
            file_name: self.file_name@,
            command_buffer: self.command_buffer@,
            pending: self.pending,
            clipboard: opt_view(self.clipboard),
        }
    }
}

fn owned(s: &str) -> (r: String)
    ensures
        r@ == s@,
{
    s.to_owned()
}

/// Whether `cs[from..to]` spells `w`.
fn spells(cs: &Vec<char>, from: usize, to: usize, w: &str) -> (r: bool)
    requires
        from <= to <= cs@.len(),
    ensures
        r == (cs@.subrange(from as int, to as int) == w@),
{
    let n = w.unicode_len();
    if to - from != n {
        return false;
    }
    let mut i: usize = 0;
    while i < n
        invariant
            n == w@.len(),
            to - from == n,
            from <= to <= cs@.len(),
            i <= n,
            forall|j: int| 0 <= j < i ==> cs@[from + j] == w@[j],
        decreases n - i,
    {
        if cs[from + i] != w.get_char(i) {
            assert(cs@.subrange(from as int, to as int)[i as int] != w@[i as int]);
            return false;
        }
        i += 1;
    }
    assert(cs@.subrange(from as int, to as int) =~= w@);
    true
}

fn skip_spaces_from(cs: &Vec<char>, i: usize) -> (r: usize)
    requires
        i <= cs@.len(),
    ensures
        r == skip_spaces(cs@, i as int),
        i <= r <= cs@.len(),
{
    let mut j = i;
    while j < cs.len() && cs[j] == ' '
        invariant
            i <= j <= cs@.len(),
            skip_spaces(cs@, i as int) == skip_spaces(cs@, j as int),
        decreases cs@.len() - j,
    {
        j += 1;
    }
    j
}

fn word_end_from(cs: &Vec<char>, i: usize) -> (r: usize)
    requires
        i <= cs@.len(),
    ensures
        r == word_end(cs@, i as int),
        i <= r <= cs@.len(),
{
    let mut j = i;
    while j < cs.len() && cs[j] != ' '
        invariant
            i <= j <= cs@.len(),
            word_end(cs@, i as int) == word_end(cs@, j as int),
        decreases cs@.len() - j,
    {
        j += 1;
    }
    j
}

proof fn lemma_digits_grow(s: Seq<char>, c: char)
    requires
        is_digit(c),
    ensures
        digits_value(s.push(c)) == digits_value(s) * 10 + (c as nat - '0' as nat),
        digits_value(s.push(c)) >= digits_value(s),
{
    assert(s.push(c).drop_last() =~= s);
}

/// The column count written in `cs[from..to]`, or the default.
fn parse_cols(cs: &Vec<char>, from: usize, to: usize) -> (r: usize)
    requires
        from <= to <= cs@.len(),
    ensures
        r == cols_from(cs@.subrange(from as int, to as int)),
{
    let ghost arg = cs@.subrange(from as int, to as int);
    if from == to {
        return DEFAULT_VISIBLE_COLS;
    }
    let mut value: usize = 0;
    let mut i: usize = from;
    while i < to
        invariant
            from <= i <= to <= cs@.len(),
            arg == cs@.subrange(from as int, to as int),
            all_digits(cs@.subrange(from as int, i as int)),
            value == digits_value(cs@.subrange(from as int, i as int)),
        decreases to - i,
    {
        let c = cs[i];
        assert(cs@.subrange(from as int, i + 1) =~= cs@.subrange(from as int, i as int).push(c));
        if !('0' <= c && c <= '9') {
            assert(!is_digit(arg[i - from]));
            return DEFAULT_VISIBLE_COLS;
        }
        proof {
            lemma_digits_grow(cs@.subrange(from as int, i as int), c);
        }
        let d = (c as u32 - '0' as u32) as usize;
        match value.checked_mul(10) {
            Some(v) => match v.checked_add(d) {
                Some(w) => value = w,
                None => {
                    proof {
                        lemma_digits_too_large(cs@, from as int, i + 1, to as int);
                    }
                    return DEFAULT_VISIBLE_COLS;
                },
            },
            None => {
                proof {
                    lemma_digits_too_large(cs@, from as int, i + 1, to as int);
                }
                return DEFAULT_VISIBLE_COLS;
            },
        }
        i += 1;
    }
    value
}

/// Once the digits read so far exceed `usize::MAX`, the whole number does too,
/// or holds something else than digits.
proof fn lemma_digits_too_large(cs: Seq<char>, from: int, i: int, to: int)
    requires
        0 <= from < i <= to <= cs.len(),
        digits_value(cs.subrange(from, i)) > usize::MAX,
    ensures
        cols_from(cs.subrange(from, to)) == DEFAULT_VISIBLE_COLS,
    decreases to - i,
{
    if i < to {
        let c = cs[i];
        assert(cs.subrange(from, i + 1) =~= cs.subrange(from, i).push(c));
        if is_digit(c) {
            lemma_digits_grow(cs.subrange(from, i), c);
            lemma_digits_too_large(cs, from, i + 1, to);
        } else {
            assert(!is_digit(cs.subrange(from, to)[i - from]));
        }
    }
}

impl App {
    pub closed spec fn wf(&self) -> bool {
        &&& self.cells.wf()
        &&& (self.pending.is_none() || self.pending == Some('g') || self.pending == Some('d')
            || self.pending == Some('y'))
    }

    /// An editor on an empty sheet named "Untitled.csv", in Normal mode; it
    /// runs once `start` is called.
    pub fn new() -> (r: Self)
        ensures
            r.wf(),
            !r@.running,
            r@.mode == Mode::Normal,
            r@.visible_rows == DEFAULT_VISIBLE_ROWS,
            r@.visible_cols == DEFAULT_VISIBLE_COLS,
            r@.viewport == (Viewport { row: 0, col: 0 }),
            r@.cursor == (Cursor { row: 0, col: 0 }),
            r@.cells.is_empty(),
            r@.file_name == "Untitled.csv"@,
            r@.command_buffer.len() == 0,
            r@.pending.is_none(),
            r@.clipboard.is_none(),
    {
        App {
            running: false,
            mode: Mode::Normal,
            visible_rows: DEFAULT_VISIBLE_ROWS,
            visible_cols: DEFAULT_VISIBLE_COLS,
            viewport: Viewport { row: 0, col: 0 },
            cells: SheetModel::new(),
            cursor: Cursor { row: 0, col: 0 },
            file_name: owned("Untitled.csv"),
            command_buffer: String::new(),
            pending: None,
            clipboard: None,
        }
    }

    pub fn is_running(&self) -> (r: bool)
        ensures
            r == self@.running,
    {
        self.running
    }

    /// Marks the editor as running, until a quit request.
    pub fn start(&mut self)
        ensures
            final(self)@ == (AppState { running: true, ..old(self)@ }),
            final(self).wf() == old(self).wf(),
    {
        self.running = true;
    }

    pub fn quit(&mut self)
        ensures
            final(self)@ == (AppState { running: false, ..old(self)@ }),
            final(self).wf() == old(self).wf(),
    {
        self.running = false;
    }

    pub fn mode(&self) -> (r: Mode)
        ensures
            r == self@.mode,
    {
        self.mode
    }

    pub fn cursor(&self) -> (r: Cursor)
        ensures
            r == self@.cursor,
    {
        self.cursor
    }

    pub fn viewport(&self) -> (r: Viewport)
        ensures
            r == self@.viewport,
    {
        self.viewport
    }

    pub fn visible_rows(&self) -> (r: usize)
        ensures
            r == self@.visible_rows,
    {
        self.visible_rows
    }

    pub fn visible_cols(&self) -> (r: usize)
        ensures
            r == self@.visible_cols,
    {
        self.visible_cols
    }

    pub fn file_name(&self) -> (r: String)
        ensures
            r@ == self@.file_name,
    {
        self.file_name.clone()
    }

    /// The command line in Command mode, or the last status message.
    pub fn command_buffer(&self) -> (r: String)
        ensures
            r@ == self@.command_buffer,
    {
        self.command_buffer.clone()
    }

    pub fn pending(&self) -> (r: Option<char>)
        ensures
            r == self@.pending,
    {
        self.pending
    }

    pub fn clipboard(&self) -> (r: Option<String>)
        ensures
            opt_view(r) == self@.clipboard,
    {
        match &self.clipboard {
            Some(t) => Some(t.clone()),
            None => None,
        }
    }

    /// The stored text of a cell, empty when none.
    pub fn cell_text(&self, row: usize, col: usize) -> (r: String)
        ensures
            r@ == text_at(self@.cells, row, col),
    {
        self.cells.get(CellId::new(row, col))
    }

    /// The text shown for a cell: a formula (text starting with `=`) shows as
    /// `#NAME?`, since formulas are not evaluated.
    pub fn cell_display_text(&self, row: usize, col: usize) -> (r: String)
        ensures
            ({
                let t = text_at(self@.cells, row, col);
                r@ == if t.len() > 0 && t[0] == '=' {
                    "#NAME?"@
                } else {
                    t
                }
            }),
    {
        let t = self.cells.get(CellId::new(row, col));
        if t.as_str().unicode_len() > 0 && t.as_str().get_char(0) == '=' {
            owned("#NAME?")
        } else {
            t
        }
    }

    /// Lets the host set how many rows and columns fit on screen.
    pub fn set_visible_size(&mut self, rows: usize, cols: usize)
        ensures
            final(self)@ == (AppState { visible_rows: rows, visible_cols: cols, ..old(self)@ }),
            final(self).wf() == old(self).wf(),
    {
        self.visible_rows = rows;
        self.visible_cols = cols;
    }

    /// Shows a message on the status line.
    pub fn set_status(&mut self, msg: String)
        ensures
            final(self)@ == with_status(old(self)@, msg@),
            final(self).wf() == old(self).wf(),
    {
        self.command_buffer = msg;
    }

    /// Shows how a save went: the path written, or the error.
    pub fn report_save(&mut self, result: Result<String, String>)
        ensures
            final(self)@ == with_status(
                old(self)@,
                match result {
                    Ok(path) => "written: "@ + path@,
                    Err(e) => "save failed: "@ + e@,
                },
            ),
            final(self).wf() == old(self).wf(),
    {
        let mut msg = match &result {
            Ok(_) => owned("written: "),
            Err(_) => owned("save failed: "),
        };
        match &result {
            Ok(p) => msg.append(p.as_str()),
            Err(e) => msg.append(e.as_str()),
        }
        self.command_buffer = msg;
    }

    /// Moves the window the least amount that keeps the cursor visible; with
    /// no visible extent on an axis, the window sits on the cursor.
    pub fn ensure_cursor_visible(&mut self)
        ensures
            final(self)@ == scrolled(old(self)@),
            cursor_shown(final(self)@),
            final(self).wf() == old(self).wf(),
    {
        self.viewport.row = clamp_origin(self.viewport.row, self.cursor.row, self.visible_rows);
        self.viewport.col = clamp_origin(self.viewport.col, self.cursor.col, self.visible_cols);
    }

    /// Moves the cursor by signed steps (stopping at zero), then keeps it visible.
    pub fn move_cursor(&mut self, delta_col: i32, delta_row: i32)
        ensures
            final(self)@ == moved(old(self)@, delta_col, delta_row),
            cursor_shown(final(self)@),
            final(self).wf() == old(self).wf(),
    {
        self.cursor.row = apply_delta(self.cursor.row, delta_row);
        self.cursor.col = apply_delta(self.cursor.col, delta_col);
        self.ensure_cursor_visible();
    }

    fn move_to_row(&mut self, row: usize)
        ensures
            final(self)@ == at_row(old(self)@, row),
            cursor_shown(final(self)@),
            final(self).wf() == old(self).wf(),
    {
        self.cursor.row = row;
        self.ensure_cursor_visible();
    }

    pub fn go_to_first_row(&mut self)
        ensures
            final(self)@ == at_row(old(self)@, 0),
            final(self).wf() == old(self).wf(),
    {
        self.move_to_row(0);
    }

    /// Puts the cursor on the last row that holds a cell (row 0 on an empty sheet).
    pub fn go_to_last_row_with_value(&mut self)
        requires
            old(self).wf(),
        ensures
            final(self)@ == at_row(old(self)@, crate::csv::last_row(old(self)@.cells)),
            final(self).wf() == old(self).wf(),
    {
        let last = self.cells.max_row();
        proof {
            crate::csv::lemma_max_row_unique(self.cells@, last);
        }
        self.move_to_row(last);
    }

    /// Whether every row can move down by one.
    fn has_room(&self) -> (r: bool)
        requires
            self.wf(),
        ensures
            r == rows_below_max(self@.cells),
    {
        let last = self.cells.max_row();
        last < usize::MAX
    }

    /// Opens a blank row at `row`: cells from that row on move down by one.
    pub fn insert_row_at(&mut self, row: usize)
        requires
            old(self).wf(),
            rows_below_max(old(self)@.cells),
        ensures
            final(self).wf(),
            final(self)@ == (AppState {
                cells: crate::sheet::shift_down(old(self)@.cells, row),
                ..old(self)@
            }),
    {
        self.cells.insert_row_at(row);
    }

    fn open_row(&mut self, row: usize)
        requires
            old(self).wf(),
            rows_below_max(old(self)@.cells),
        ensures
            final(self).wf(),
            final(self)@ == opened_row(old(self)@, row),
    {
        self.insert_row_at(row);
        self.cursor = Cursor { row, col: 0 };
        self.mode = Mode::Insert(InsertState { caret: 0 });
        self.ensure_cursor_visible();
    }

    /// Deletes the cursor's row; the cursor steps up when it is left past the
    /// last row, and the window follows.
    pub fn delete_current_row(&mut self)
        requires
            old(self).wf(),
        ensures
            final(self).wf(),
            final(self)@ == deleted_row(old(self)@),
    {
        self.cells.delete_row(self.cursor.row);
        let last = self.cells.max_row();
        proof {
            crate::csv::lemma_max_row_unique(self.cells@, last);
        }
        if self.cursor.row > last && self.cursor.row > 0 {
            self.cursor.row = self.cursor.row - 1;
        }
        self.ensure_cursor_visible();
    }

    fn current_text(&self) -> (r: String)
        ensures
            r@ == current_text(self@),
    {
        self.cells.get(CellId::new(self.cursor.row, self.cursor.col))
    }

    /// Copies the current cell's escaped text to the clipboard and shows it.
    pub fn copy_current_cell(&mut self)
        ensures
            final(self)@ == copied(old(self)@),
            final(self).wf() == old(self).wf(),
    {
        let t = self.current_text();
        let e = escape(t.as_str());
        self.clipboard = Some(e.clone());
        self.command_buffer = e;
    }

    /// Writes the clipboard's text over the current cell.
    pub fn paste(&mut self)
        requires
            old(self).wf(),
        ensures
            final(self).wf(),
            final(self)@ == pasted(old(self)@),
    {
        match &self.clipboard {
            Some(t) => {
                let t = t.clone();
                self.cells.set(CellId::new(self.cursor.row, self.cursor.col), t);
                self.command_buffer = owned("pasted");
            },
            None => {
                self.command_buffer = owned("clipboard empty");
            },
        }
    }

    fn normal_key(&mut self, code: KeyCode)
        requires
            old(self).wf(),
        ensures
            final(self).wf(),
            final(self)@ == normal_key(old(self)@, code),
    {
        match code {
            KeyCode::Left => self.move_cursor(-1, 0),
            KeyCode::Right => self.move_cursor(1, 0),
            KeyCode::Up => self.move_cursor(0, -1),
            KeyCode::Down => self.move_cursor(0, 1),
            KeyCode::Enter => self.move_cursor(0, 1),
            KeyCode::Char(c) => {
                if c == 'h' {
                    self.move_cursor(-1, 0)
                } else if c == 'l' {
                    self.move_cursor(1, 0)
                } else if c == 'k' {
                    self.move_cursor(0, -1)
                } else if c == 'j' {
                    self.move_cursor(0, 1)
                } else if c == 'b' {
                    self.move_cursor(-5, 0)
                } else if c == 'w' {
                    self.move_cursor(5, 0)
                } else if c == 'g' || c == 'd' || c == 'y' {
                    self.pending = Some(c);
                    let mut shown = String::new();
                    push_char(&mut shown, c);
                    self.command_buffer = shown;
                } else if c == 'G' {
                    self.go_to_last_row_with_value();
                } else if c == 'o' {
                    if self.has_room() && self.cursor.row < usize::MAX {
                        self.open_row(self.cursor.row + 1);
                    } else {
                        self.command_buffer = owned("no room for another row");
                    }
                } else if c == 'O' {
                    if self.has_room() {
                        self.open_row(self.cursor.row);
                    } else {
                        self.command_buffer = owned("no room for another row");
                    }
                } else if c == 'p' {
                    self.paste();
                } else if c == 'i' {
                    self.mode = Mode::Insert(InsertState { caret: 0 });
                } else if c == 'a' {
                    let n = self.current_text().as_str().unicode_len();
                    self.mode = Mode::Insert(InsertState { caret: n });
                } else if c == ':' {
                    self.mode = Mode::Command;
                    self.command_buffer = String::new();
                }
            },
            _ => {},
        }
    }

    fn handle_normal_mode(&mut self, key: KeyInput)
        requires
            old(self).wf(),
        ensures
            final(self).wf(),
            final(self)@ == normal_step(old(self)@, key),
    {
        let pending = self.pending;
        if pending.is_some() {
            self.pending = None;
            self.command_buffer = String::new();
        }
        if key.ctrl {
            return;
        }
        match (pending, key.code) {
            (Some(p), KeyCode::Char(c)) if p == c => {
                if c == 'g' {
                    self.go_to_first_row();
                } else if c == 'd' {
                    self.delete_current_row();
                } else if c == 'y' {
                    self.copy_current_cell();
                }
            },
            _ => self.normal_key(key.code),
        }
    }

    /// Stores `cs` as the edited cell's text and puts the caret at `caret`.
    fn store_edit(&mut self, cs: &Vec<char>, caret: usize)
        requires
            old(self).wf(),
        ensures
            final(self).wf(),
            final(self)@ == edited(old(self)@, cs@, caret),
    {
        let text = string_of(cs, 0, cs.len());
        assert(cs@.subrange(0, cs@.len() as int) =~= cs@);
        self.cells.set(CellId::new(self.cursor.row, self.cursor.col), text);
        self.mode = Mode::Insert(InsertState { caret });
    }

    fn handle_insert_mode(&mut self, caret: usize, key: KeyInput)
        requires
            old(self).wf(),
        ensures
            final(self).wf(),
            final(self)@ == insert_step(old(self)@, caret, key),
    {
        let mut cs = chars_of(self.current_text().as_str());
        let n = cs.len();
        let cur = if caret <= n {
            caret
        } else {
            n
        };
        match key.code {
            KeyCode::Esc => {
                self.mode = Mode::Normal;
            },
            KeyCode::Enter => {
                self.mode = Mode::Normal;
                self.move_cursor(0, 1);
            },
            KeyCode::Left => {
                self.mode = Mode::Insert(
                    InsertState {
                        caret: if cur > 0 {
                            cur - 1
                        } else {
                            0
                        },
                    },
                );
            },
            KeyCode::Right => {
                self.mode = Mode::Insert(
                    InsertState {
                        caret: if cur < n {
                            cur + 1
                        } else {
                            n
                        },
                    },
                );
            },
            KeyCode::Backspace => {
                if cur > 0 {
                    cs.remove(cur - 1);
                    self.store_edit(&cs, cur - 1);
                }
            },
            KeyCode::Delete => {
                if cur < n {
                    cs.remove(cur);
                    self.store_edit(&cs, cur);
                }
            },
            KeyCode::Char(c) => {
                if !key.ctrl {
                    cs.insert(cur, c);
                    // the grown text still fits, so the caret after it does too
                    assert(cs.len() == n + 1);
                    self.store_edit(&cs, cur + 1);
                }
            },
            _ => {},
        }
    }

    /// Runs the typed command line, clears it and returns to Normal mode.
    fn execute_command(&mut self) -> (e: Effect)
        requires
            old(self).wf(),
        ensures
            final(self).wf(),
            final(self)@ == executed(old(self)@).0,
            e@ == executed(old(self)@).1,
    {
        let cs = chars_of(self.command_buffer.as_str());
        let a = skip_spaces_from(&cs, 0);
        let b = word_end_from(&cs, a);
        let c = skip_spaces_from(&cs, b);
        let d = word_end_from(&cs, c);
        let arg = string_of(&cs, c, d);
        let path = if c == d {
            self.file_name.clone()
        } else {
            arg.clone()
        };
        self.mode = Mode::Normal;
        self.command_buffer = String::new();
        if spells(&cs, a, b, "w") || spells(&cs, a, b, "write") {
            Effect::Save { path, text: self.cells.to_csv(self.cursor.row) }
        } else if spells(&cs, a, b, "q") || spells(&cs, a, b, "quit") {
            self.running = false;
            Effect::Nothing
        } else if spells(&cs, a, b, "wq") {
            self.running = false;
            Effect::Save { path, text: self.cells.to_csv(self.cursor.row) }
        } else if spells(&cs, a, b, "cols") {
            self.visible_cols = parse_cols(&cs, c, d);
            Effect::Nothing
        } else if spells(&cs, a, b, "theme") {
            if c == d {
                Effect::ListThemes
            } else {
                Effect::LoadTheme(arg)
            }
        } else if a == b {
            Effect::Nothing
        } else {
            let mut msg = owned("unknown command: ");
            let name = string_of(&cs, a, b);
            msg.append(name.as_str());
            self.command_buffer = msg;
            Effect::Nothing
        }
    }

    fn handle_command_mode(&mut self, key: KeyInput) -> (e: Effect)
        requires
            old(self).wf(),
        ensures
            final(self).wf(),
            final(self)@ == command_step(old(self)@, key).0,
            e@ == command_step(old(self)@, key).1,
    {
        match key.code {
            KeyCode::Esc => {
                self.mode = Mode::Normal;
                self.command_buffer = String::new();
                Effect::Nothing
            },
            KeyCode::Enter => self.execute_command(),
            KeyCode::Backspace | KeyCode::Delete => {
                let cs = chars_of(self.command_buffer.as_str());
                if cs.len() > 0 {
                    self.command_buffer = string_of(&cs, 0, cs.len() - 1);
                }
                Effect::Nothing
            },
            KeyCode::Char(c) => {
                if !key.ctrl {
                    push_char(&mut self.command_buffer, c);
                }
                Effect::Nothing
            },
            _ => Effect::Nothing,
        }
    }

    /// Answers one key press: Control with `s` saves and with `q` or `c` quits,
    /// in any mode; every other key goes to the handler of the current mode.
    pub fn on_key_event(&mut self, key: KeyInput) -> (e: Effect)
        requires
            old(self).wf(),
        ensures
            final(self).wf(),
            final(self)@ == next(old(self)@, key).0,
            e@ == next(old(self)@, key).1,
    {
        if key.ctrl {
            if let KeyCode::Char(c) = key.code {
                if c == 's' || c == 'S' {
                    return Effect::Save {
                        path: self.file_name.clone(),
                        text: self.cells.to_csv(self.cursor.row),
                    };
                }
                if c == 'q' || c == 'Q' || c == 'c' || c == 'C' {
                    self.quit();
                    return Effect::Nothing;
                }
            }
        }
        match self.mode {
            Mode::Normal => {
                self.handle_normal_mode(key);
                Effect::Nothing
            },
            Mode::Insert(st) => {
                self.handle_insert_mode(st.caret, key);
                Effect::Nothing
            },
            Mode::Command => self.handle_command_mode(key),
        }
    }

    /// The whole sheet as the CSV text that a save writes.
    pub fn save_text(&self) -> (r: String)
        requires
            self.wf(),
        ensures
            r@ == saved_text(self@),
    {
        self.cells.to_csv(self.cursor.row)
    }
}

} // verus!
