use vstd::prelude::*;

use crate::sheet::{
    is_max_col, is_max_row, row_occupied, text_at, CellId, Cells, SheetModel,
};
use crate::text::{chars_of, push_char};

verus! {

/// A character that forces a field into quotes.
pub open spec fn is_special(c: char) -> bool {
    c == ',' || c == '"' || c == '\n'
}

pub open spec fn needs_quotes(s: Seq<char>) -> bool {
    exists|i: int| 0 <= i < s.len() && is_special(#[trigger] s[i])
}

/// `s` with every double quote doubled.
pub open spec fn double_quotes(s: Seq<char>) -> Seq<char>
    decreases s.len(),
{
    if s.len() == 0 {
        Seq::empty()
    } else if s.last() == '"' {
        double_quotes(s.drop_last()) + seq!['"', '"']
    } else {
        double_quotes(s.drop_last()).push(s.last())
    }
}

/// A CSV field for `s`: quoted, with inner quotes doubled, when `s` holds a
/// comma, a double quote or a newline; `s` itself otherwise.
pub open spec fn escaped(s: Seq<char>) -> Seq<char> {
    if needs_quotes(s) {
        seq!['"'] + double_quotes(s) + seq!['"']
    } else {
        s
    }
}

/// The largest column in use in row `r` (0 for an empty row).
pub open spec fn last_col(m: Cells, r: usize) -> usize {
    choose|c: usize| is_max_col(m, r, c)
}

/// The largest row in use (0 for an empty sheet).
pub open spec fn last_row(m: Cells) -> usize {
    choose|r: usize| is_max_row(m, r)
}

/// The escaped fields of columns `0..n` of row `r`, joined by commas.
pub open spec fn fields(m: Cells, r: usize, n: nat) -> Seq<char>
    decreases n,
{
    if n == 0 {
        Seq::empty()
    } else if n == 1 {
        escaped(text_at(m, r, 0))
    } else {
        fields(m, r, (n - 1) as nat).push(',') + escaped(text_at(m, r, (n - 1) as usize))
    }
}

/// One CSV line (without its newline) for row `r`: columns up to the row's last one in use.
pub open spec fn row_line(m: Cells, r: usize) -> Seq<char> {
    fields(m, r, (last_col(m, r) + 1) as nat)
}

/// Rows `0..n`, each as a line ended by a newline.
pub open spec fn lines(m: Cells, n: nat) -> Seq<char>
    decreases n,
{
    if n == 0 {
        Seq::empty()
    } else {
        (lines(m, (n - 1) as nat) + row_line(m, (n - 1) as usize)).push('\n')
    }
}

/// The saved text of a sheet: rows up to the last one in use, or up to
/// `cursor_row` when the sheet is empty.
pub open spec fn sheet_text(m: Cells, cursor_row: usize) -> Seq<char> {
    let last = if m.dom().is_empty() {
        cursor_row
    } else {
        last_row(m)
    };
    lines(m, (last + 1) as nat)
}

proof fn lemma_double_quotes_push(s: Seq<char>, c: char)
    ensures
        double_quotes(s.push(c)) == (if c == '"' {
            double_quotes(s) + seq!['"', '"']
        } else {
            double_quotes(s).push(c)
        }),
{
    assert(s.push(c).drop_last() =~= s);
}

/// Doubling quotes never shortens text.
pub proof fn lemma_double_quotes_len(s: Seq<char>)
    ensures
        double_quotes(s).len() >= s.len(),
    decreases s.len(),
{
    if s.len() > 0 {
        lemma_double_quotes_len(s.drop_last());
    }
}

/// Escaping text without commas, quotes or newlines changes nothing, so doing
/// it twice gives the same as doing it once.
pub proof fn lemma_escape_plain(x: Seq<char>)
    requires
        !needs_quotes(x),
    ensures
        escaped(x) == x,
        escaped(escaped(x)) == escaped(x),
{
}

/// Escaping text that holds a comma a second time quotes it again.
pub proof fn lemma_escape_twice_differs(x: Seq<char>)
    requires
        x.contains(','),
    ensures
        escaped(escaped(x)) != escaped(x),
{
    let i = choose|i: int| 0 <= i < x.len() && x[i] == ',';
    assert(is_special(x[i]));
    let e = escaped(x);
    assert(e[0] == '"');
    assert(is_special(e[0]));
    lemma_double_quotes_len(x);
    lemma_double_quotes_len(e);
    assert(escaped(e).len() >= e.len() + 2);
}

/// Field text for one cell value.
pub fn escape(text: &str) -> (r: String)
    ensures
        r@ == escaped(text@),
{
    let cs = chars_of(text);
    let mut special = false;
    let mut i: usize = 0;
    while i < cs.len()
        invariant
            cs@ == text@,
            i <= cs@.len(),
            special == exists|j: int| 0 <= j < i && is_special(#[trigger] cs@[j]),
        decreases cs@.len() - i,
    {
        if cs[i] == ',' || cs[i] == '"' || cs[i] == '\n' {
            special = true;
        }
        i += 1;
    }
    if !special {
        return text.to_owned();
    }
    let mut out = String::new();
    push_char(&mut out, '"');
    let mut i: usize = 0;
    while i < cs.len()
        invariant
            cs@ == text@,
            i <= cs@.len(),
            out@ == seq!['"'] + double_quotes(cs@.take(i as int)),
        decreases cs@.len() - i,
    {
        let c = cs[i];
        proof {
            assert(cs@.take(i + 1) =~= cs@.take(i as int).push(c));
            lemma_double_quotes_push(cs@.take(i as int), c);
        }
        push_char(&mut out, c);
        if c == '"' {
            push_char(&mut out, '"');
        }
        i += 1;
        assert(out@ =~= seq!['"'] + double_quotes(cs@.take(i as int)));
    }
    push_char(&mut out, '"');
    assert(cs@.take(cs@.len() as int) =~= cs@);
    out
}

proof fn lemma_max_col_unique(m: Cells, r: usize, c: usize)
    requires
        is_max_col(m, r, c),
    ensures
        last_col(m, r) == c,
{
    let d = last_col(m, r);
    assert(is_max_col(m, r, d));
    if row_occupied(m, r) {
        assert(m.contains_key((r, c)));
        assert(m.contains_key((r, d)));
    }
}

/// Only one row is the largest in use.
pub proof fn lemma_max_row_unique(m: Cells, r: usize)
    requires
        is_max_row(m, r),
    ensures
        last_row(m) == r,
{
    let d = last_row(m);
    assert(is_max_row(m, d));
    if !m.dom().is_empty() {
        let c1 = choose|c: usize| m.contains_key((r, c));
        let c2 = choose|c: usize| m.contains_key((d, c));
        assert(m.contains_key((r, c1)));
        assert(m.contains_key((d, c2)));
    }
}

impl SheetModel {
    /// The CSV line of one row, without its newline.
    pub fn row_to_line(&self, row: usize) -> (r: String)
        requires
            self.wf(),
        ensures
            r@ == row_line(self@, row),
    {
        let last = self.max_col_in_row(row);
        proof {
            lemma_max_col_unique(self@, row, last);
        }
        let mut out = String::new();
        let mut col: usize = 0;
        loop
            invariant_except_break
                col <= last,
                out@ == (if col == 0 {
                    Seq::<char>::empty()
                } else {
                    fields(self@, row, col as nat).push(',')
                }),
            ensures
                out@ == fields(self@, row, (last + 1) as nat),
            decreases last - col,
        {
            let field = escape(self.get(CellId::new(row, col)).as_str());
            out.append(field.as_str());
            if col == last {
                break;
            }
            push_char(&mut out, ',');
            col += 1;
        }
        out
    }

    /// The whole sheet as CSV text, one newline-ended line per row from row 0
    /// to the last row in use, or to `cursor_row` when the sheet is empty.
    pub fn to_csv(&self, cursor_row: usize) -> (r: String)
        requires
            self.wf(),
        ensures
            r@ == sheet_text(self@, cursor_row),
    {
        let max = self.max_row();
        proof {
            lemma_max_row_unique(self@, max);
        }
        let last = if self.is_empty() {
            cursor_row
        } else {
            max
        };
        let mut out = String::new();
        let mut row: usize = 0;
        loop
            invariant_except_break
                row <= last,
                out@ == lines(self@, row as nat),
            invariant
                self.wf(),
            ensures
                out@ == lines(self@, (last + 1) as nat),
            decreases last - row,
        {
            let line = self.row_to_line(row);
            out.append(line.as_str());
            push_char(&mut out, '\n');
            if row == last {
                break;
            }
            row += 1;
        }
        out
    }
}

} // verus!
