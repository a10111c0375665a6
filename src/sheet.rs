use std::collections::HashMap;

use vstd::prelude::*;
use vstd::std_specs::iter::IteratorSpec;

verus! {

/// Address of one cell: zero-based row and column.
#[derive(Clone, Copy, Debug, PartialEq, Eq, Hash, Structural)]
pub struct CellId {
    pub row: usize,
    pub col: usize,
}

impl CellId {
    pub fn new(row: usize, col: usize) -> (r: Self)
        ensures
            r.row == row,
            r.col == col,
    {
        CellId { row, col }
    }
}

/// What a sheet holds: text by (row, column).
pub type Cells = Map<(usize, usize), Seq<char>>;

/// No address holds empty text.
pub open spec fn no_empty_text(m: Cells) -> bool {
    forall|k: (usize, usize)| #[trigger] m.contains_key(k) ==> m[k].len() > 0
}

/// Some cell of row `r` holds text.
pub open spec fn row_occupied(m: Cells, r: usize) -> bool {
    exists|c: usize| #[trigger] m.contains_key((r, c))
}

/// `r` is the largest row with an entry, or 0 when there is none.
pub open spec fn is_max_row(m: Cells, r: usize) -> bool {
    &&& (m.dom().is_empty() ==> r == 0)
    &&& (!m.dom().is_empty() ==> row_occupied(m, r))
    &&& forall|k: (usize, usize)| #[trigger] m.contains_key(k) ==> k.0 <= r
}

/// `c` is the largest column with an entry in row `r`, or 0 when the row is empty.
pub open spec fn is_max_col(m: Cells, r: usize, c: usize) -> bool {
    &&& (!row_occupied(m, r) ==> c == 0)
    &&& (row_occupied(m, r) ==> m.contains_key((r, c)))
    &&& forall|j: usize| #[trigger] m.contains_key((r, j)) ==> j <= c
}

/// Every row lies below `usize::MAX`, so the sheet can shift down by one row.
pub open spec fn rows_below_max(m: Cells) -> bool {
    forall|k: (usize, usize)| #[trigger] m.contains_key(k) ==> k.0 < usize::MAX
}

/// The text at an address, empty when none is stored.
pub open spec fn text_at(m: Cells, r: usize, c: usize) -> Seq<char> {
    if m.contains_key((r, c)) {
        m[(r, c)]
    } else {
        Seq::empty()
    }
}

/// The cells after a blank row is opened at `r`: rows from `r` on move down by one.
pub open spec fn shift_down(m: Cells, r: usize) -> Cells {
    Map::new(
        |k: (usize, usize)|
            (k.0 < r && m.contains_key(k)) || (k.0 > r && m.contains_key(((k.0 - 1) as usize, k.1))),
        |k: (usize, usize)|
            if k.0 < r {
                m[k]
            } else {
                m[((k.0 - 1) as usize, k.1)]
            },
    )
}

/// The cells after row `r` is removed: rows past `r` move up by one.
pub open spec fn shift_up(m: Cells, r: usize) -> Cells {
    Map::new(
        |k: (usize, usize)|
            (k.0 < r && m.contains_key(k)) || (r <= k.0 < usize::MAX && m.contains_key(
                ((k.0 + 1) as usize, k.1),
            )),
        |k: (usize, usize)|
            if k.0 < r {
                m[k]
            } else {
                m[((k.0 + 1) as usize, k.1)]
            },
    )
}

/// Opening a blank row at `r` and then removing row `r` gives back the cells
/// as they were.
pub proof fn lemma_insert_then_delete_row(m: Cells, r: usize)
    requires
        rows_below_max(m),
    ensures
        shift_up(shift_down(m, r), r) == m,
{
    assert(shift_up(shift_down(m, r), r) =~= m);
}

/// Rows of a sheet: row index to that row's cells, column index to text.
type Rows = Map<usize, HashMap<usize, String>>;

/// The cells that nested rows describe.
spec fn flatten(rows: Rows) -> Cells {
    Map::new(
        |k: (usize, usize)| rows.contains_key(k.0) && rows[k.0]@.contains_key(k.1),
        |k: (usize, usize)| rows[k.0]@[k.1]@,
    )
}

/// Rows with a blank one opened at `r`.
spec fn rows_down(m: Rows, r: usize) -> Rows {
    Map::new(
        |k: usize| (k < r && m.contains_key(k)) || (k > r && m.contains_key((k - 1) as usize)),
        |k: usize|
            if k < r {
                m[k]
            } else {
                m[(k - 1) as usize]
            },
    )
}

/// Rows with row `r` taken out.
spec fn rows_up(m: Rows, r: usize) -> Rows {
    Map::new(
        |k: usize| (k < r && m.contains_key(k)) || (r <= k < usize::MAX && m.contains_key((k + 1) as usize)),
        |k: usize|
            if k < r {
                m[k]
            } else {
                m[(k + 1) as usize]
            },
    )
}

/// The keys of a map, each once.
fn keys_of<V>(m: &HashMap<usize, V>) -> (r: Vec<usize>)
    ensures
        forall|k: usize| m@.contains_key(k) <==> r@.contains(k),
        r@.no_duplicates(),
{
    let mut out: Vec<usize> = Vec::new();
    for k in it: m.keys()
        invariant
            out@ == it.seq().unref().take(it.index() as int),
            it.seq() == vstd::std_specs::hash::spec_keys_iter(m).remaining(),
    {
        out.push(*k);
        assert(out@ =~= it.seq().unref().take(it.index() + 1));
    }
    proof {
        let all = vstd::std_specs::hash::spec_keys_iter(m).remaining();
        vstd::std_specs::hash::axiom_spec_keys_iter(m);
        assert(out@ =~= all.unref());
        assert forall|k: usize| m@.contains_key(k) <==> out@.contains(k) by {
            assert(all.unref().to_set().contains(k) == out@.contains(k));
        }
    }
    out
}

/// The largest of a list of keys, or 0 for none.
fn largest(keys: &Vec<usize>) -> (r: usize)
    ensures
        keys@.len() == 0 ==> r == 0,
        keys@.len() > 0 ==> keys@.contains(r),
        forall|j: int| 0 <= j < keys@.len() ==> keys@[j] <= r,
{
    let mut best: usize = 0;
    let mut i: usize = 0;
    while i < keys.len()
        invariant
            i <= keys@.len(),
            i == 0 ==> best == 0,
            i > 0 ==> keys@.contains(best),
            forall|j: int| 0 <= j < i ==> keys@[j] <= best,
        decreases keys@.len() - i,
    {
        if i == 0 || keys[i] > best {
            best = keys[i];
        }
        i += 1;
    }
    best
}

/// Sparse grid of text cells, held as rows of columns.
pub struct SheetModel {
    rows: HashMap<usize, HashMap<usize, String>>,
}

impl View for SheetModel {
    type V = Cells;

    closed spec fn view(&self) -> Cells {
        flatten(self.rows@)
    }
}

spec fn rows_wf(m: Rows) -> bool {
    &&& forall|r: usize| #[trigger] m.contains_key(r) ==> !m[r]@.is_empty()
    &&& forall|r: usize, c: usize|
        #![trigger m[r]@[c]]
        m.contains_key(r) && m[r]@.contains_key(c) ==> m[r]@[c]@.len() > 0
}

impl SheetModel {
    pub closed spec fn wf(&self) -> bool {
        rows_wf(self.rows@)
    }

    /// A well-formed sheet holds no entry with empty text.
    pub proof fn lemma_no_empty_text(&self)
        requires
            self.wf(),
        ensures
            no_empty_text(self@),
    {
        assert forall|k: (usize, usize)| #[trigger] self@.contains_key(k) implies self@[k].len() > 0 by {
            assert(self.rows@[k.0]@[k.1]@.len() > 0);
        }
    }

    pub fn new() -> (r: Self)
        ensures
            r.wf(),
            r@ == Cells::empty(),
    {
        let r = SheetModel { rows: HashMap::new() };
        assert(r@ =~= Cells::empty());
        r
    }

    /// Whether no cell holds text.
    pub fn is_empty(&self) -> (r: bool)
        requires
            self.wf(),
        ensures
            r == self@.dom().is_empty(),
    {
        broadcast use vstd::std_specs::hash::group_hash_axioms;
        let r = self.rows.is_empty();
        proof {
            if r {
                assert(self@.dom() =~= Set::empty());
            } else {
                let row = choose|row: usize| self.rows@.dom().contains(row);
                assert(!(self.rows@.dom() =~= Set::empty()));
                let c = choose|c: usize| self.rows@[row]@.dom().contains(c);
                assert(!(self.rows@[row]@.dom() =~= Set::empty()));
                assert(self@.dom().contains((row, c)));
            }
        }
        r
    }

    /// The text of a cell, empty when none is stored.
    pub fn get(&self, id: CellId) -> (r: String)
        ensures
            r@ == text_at(self@, id.row, id.col),
    {
        broadcast use vstd::std_specs::hash::group_hash_axioms;
        match self.rows.get(&id.row) {
            Some(row) => match row.get(&id.col) {
                Some(t) => t.clone(),
                None => String::new(),
            },
            None => String::new(),
        }
    }

    /// Drops the cell at an address.
    pub fn remove(&mut self, id: CellId)
        requires
            old(self).wf(),
        ensures
            final(self).wf(),
            final(self)@ == old(self)@.remove((id.row, id.col)),
    {
        broadcast use vstd::std_specs::hash::group_hash_axioms;
        let ghost before = self.rows@;
        match self.rows.remove(&id.row) {
            Some(mut row) => {
                row.remove(&id.col);
                if !row.is_empty() {
                    self.rows.insert(id.row, row);
                }
            },
            None => {},
        }
        assert(self@ =~= flatten(before).remove((id.row, id.col)));
    }

    /// Stores text at an address; empty text removes the cell instead.
    pub fn set(&mut self, id: CellId, text: String)
        requires
            old(self).wf(),
        ensures
            final(self).wf(),
            text@.len() == 0 ==> final(self)@ == old(self)@.remove((id.row, id.col)),
            text@.len() > 0 ==> final(self)@ == old(self)@.insert((id.row, id.col), text@),
    {
        broadcast use vstd::std_specs::hash::group_hash_axioms;
        if text.as_str().is_empty() {
            self.remove(id);
            return;
        }
        let ghost before = self.rows@;
        let mut row = match self.rows.remove(&id.row) {
            Some(row) => row,
            None => HashMap::new(),
        };
        row.insert(id.col, text);
        self.rows.insert(id.row, row);
        proof {
            assert(self.rows@[id.row]@.dom().contains(id.col));
            assert(flatten(self.rows@) =~= flatten(before).insert((id.row, id.col), text@));
        }
    }

    /// The largest row holding a cell, or 0 for an empty sheet.
    pub fn max_row(&self) -> (r: usize)
        requires
            self.wf(),
        ensures
            is_max_row(self@, r),
    {
        broadcast use vstd::std_specs::hash::group_hash_axioms;
        let keys = keys_of(&self.rows);
        let r = largest(&keys);
        proof {
            if keys@.len() > 0 {
                assert(self.rows@.contains_key(r));
                let c = choose|c: usize| self.rows@[r]@.dom().contains(c);
                assert(!(self.rows@[r]@.dom() =~= Set::empty()));
                assert(self@.contains_key((r, c)));
            } else {
                assert forall|k: (usize, usize)| !self@.contains_key(k) by {
                    if self@.contains_key(k) {
                        assert(keys@.contains(k.0));
                    }
                }
                assert(self@.dom() =~= Set::empty());
            }
            assert forall|k: (usize, usize)| #[trigger] self@.contains_key(k) implies k.0 <= r by {
                assert(keys@.contains(k.0));
            }
        }
        r
    }

    /// Whether any cell of row `row` holds text.
    pub fn row_has_entries(&self, row: usize) -> (r: bool)
        requires
            self.wf(),
        ensures
            r == row_occupied(self@, row),
    {
        broadcast use vstd::std_specs::hash::group_hash_axioms;
        let r = self.rows.contains_key(&row);
        proof {
            if r {
                let c = choose|c: usize| self.rows@[row]@.dom().contains(c);
                assert(!(self.rows@[row]@.dom() =~= Set::empty()));
                assert(self@.contains_key((row, c)));
            }
        }
        r
    }

    /// The largest column holding a cell in row `row`, or 0 when the row is empty.
    pub fn max_col_in_row(&self, row: usize) -> (r: usize)
        requires
            self.wf(),
        ensures
            is_max_col(self@, row, r),
    {
        broadcast use vstd::std_specs::hash::group_hash_axioms;
        match self.rows.get(&row) {
            Some(cols) => {
                let keys = keys_of(cols);
                let r = largest(&keys);
                proof {
                    assert(!(self.rows@[row]@.dom() =~= Set::empty()));
                    let c = choose|c: usize| self.rows@[row]@.dom().contains(c);
                    assert(keys@.contains(c));
                    assert(self@.contains_key((row, r)));
                    assert forall|j: usize| #[trigger] self@.contains_key((row, j)) implies j <= r by {
                        assert(keys@.contains(j));
                    }
                }
                r
            },
            None => 0,
        }
    }

    /// Opens a blank row at `row`: every cell from that row on moves down by one.
    pub fn insert_row_at(&mut self, row: usize)
        requires
            old(self).wf(),
            rows_below_max(old(self)@),
        ensures
            final(self).wf(),
            final(self)@ == shift_down(old(self)@, row),
    {
        broadcast use vstd::std_specs::hash::group_hash_axioms;
        let ghost orig = self.rows@;
        let keys = keys_of(&self.rows);
        let mut moved: HashMap<usize, HashMap<usize, String>> = HashMap::new();
        let ghost mut done: Rows = Map::empty();
        let mut i: usize = 0;
        proof {
            assert forall|j: int| 0 <= j < keys@.len() implies orig.contains_key(#[trigger] keys@[j]) by {
                assert(keys@.contains(keys@[j]));
            }
        }
        while i < keys.len()
            invariant
                i <= keys@.len(),
                keys@.no_duplicates(),
                forall|k: usize| orig.contains_key(k) <==> keys@.contains(k),
                rows_wf(orig),
                rows_below_max(flatten(orig)),
                forall|j: int| i <= j < keys@.len() ==> self.rows@.contains_key(#[trigger] keys@[j])
                    && self.rows@[keys@[j]] == orig[keys@[j]],
                forall|j: int| 0 <= j < i ==> done.contains_key(#[trigger] keys@[j]),
                forall|k: usize| #[trigger] done.contains_key(k) ==> orig.contains_key(k) && done[k] == orig[k],
                moved@ == rows_down(done, row),
            decreases keys@.len() - i,
        {
            let k = keys[i];
            proof {
                assert(orig.contains_key(k));
                let c = choose|c: usize| orig[k]@.dom().contains(c);
                assert(!(orig[k]@.dom() =~= Set::empty()));
                assert(flatten(orig).contains_key((k, c)));
                assert forall|j: int| i < j < keys@.len() implies keys@[j] != k by {
                    assert(keys@[j] != keys@[i as int]);
                }
            }
            match self.rows.remove(&k) {
                Some(cols) => {
                    let target = if k >= row {
                        k + 1
                    } else {
                        k
                    };
                    proof {
                        assert(rows_down(done.insert(k, cols), row) =~= rows_down(done, row).insert(target, cols));
                        done = done.insert(k, cols);
                    }
                    moved.insert(target, cols);
                },
                None => {},
            }
            i += 1;
        }
        proof {
            assert(done =~= orig) by {
                assert forall|k: usize| orig.contains_key(k) implies done.contains_key(k) by {
                    let j = keys@.index_of(k);
                }
            }
            assert(flatten(rows_down(orig, row)) =~= shift_down(flatten(orig), row));
        }
        self.rows = moved;
    }

    /// Removes row `row`: its cells are dropped and every later row moves up by one.
    pub fn delete_row(&mut self, row: usize)
        requires
            old(self).wf(),
        ensures
            final(self).wf(),
            final(self)@ == shift_up(old(self)@, row),
    {
        broadcast use vstd::std_specs::hash::group_hash_axioms;
        let ghost orig = self.rows@;
        let keys = keys_of(&self.rows);
        let mut kept: HashMap<usize, HashMap<usize, String>> = HashMap::new();
        let ghost mut done: Rows = Map::empty();
        let mut i: usize = 0;
        proof {
            assert forall|j: int| 0 <= j < keys@.len() implies orig.contains_key(#[trigger] keys@[j]) by {
                assert(keys@.contains(keys@[j]));
            }
        }
        while i < keys.len()
            invariant
                i <= keys@.len(),
                keys@.no_duplicates(),
                forall|k: usize| orig.contains_key(k) <==> keys@.contains(k),
                rows_wf(orig),
                forall|j: int| i <= j < keys@.len() ==> self.rows@.contains_key(#[trigger] keys@[j])
                    && self.rows@[keys@[j]] == orig[keys@[j]],
                forall|j: int| 0 <= j < i ==> done.contains_key(#[trigger] keys@[j]),
                forall|k: usize| #[trigger] done.contains_key(k) ==> orig.contains_key(k) && done[k] == orig[k],
                kept@ == rows_up(done, row),
            decreases keys@.len() - i,
        {
            let k = keys[i];
            proof {
                assert forall|j: int| i < j < keys@.len() implies keys@[j] != k by {
                    assert(keys@[j] != keys@[i as int]);
                }
            }
            match self.rows.remove(&k) {
                Some(cols) => {
                    if k != row {
                        let target = if k > row {
                            k - 1
                        } else {
                            k
                        };
                        proof {
                            assert(rows_up(done.insert(k, cols), row) =~= rows_up(done, row).insert(target, cols));
                        }
                        kept.insert(target, cols);
                    } else {
                        assert(rows_up(done.insert(k, cols), row) =~= rows_up(done, row));
                    }
                    proof {
                        done = done.insert(k, cols);
                    }
                },
                None => {},
            }
            i += 1;
        }
        proof {
            assert(done =~= orig) by {
                assert forall|k: usize| orig.contains_key(k) implies done.contains_key(k) by {
                    let j = keys@.index_of(k);
                }
            }
            assert(flatten(rows_up(orig, row)) =~= shift_up(flatten(orig), row));
        }
        self.rows = kept;
    }
}

} // verus!
