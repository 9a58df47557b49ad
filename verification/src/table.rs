//! Table flow: rows of text cells under a fixed column set.
//!
//! The column set is fixed at creation; a spec with a duplicate column id
//! is rejected outright.  `add_row` is idempotent, `del_row` is a no-op on
//! an absent row, and `set_cell` requires the row to exist and the column
//! to be declared — it never creates either silently.

use crate::assoc::{
    a_has, a_lookup, a_remove, a_set, a_unique, lemma_lookup_at, lemma_lookup_none_iff,
    lemma_remove_absent, lemma_remove_at, lemma_remove_lookup, lemma_remove_unique,
    lemma_set_absent, lemma_set_at, lemma_set_unique,
};
use crate::FlowError;
use vstd::prelude::*;

verus! {

/// The spec image of a cell vector (and of the column vector, which has
/// the same shape: id to text).
pub open spec fn cells_view(s: Seq<(u64, String)>) -> Seq<(u64, Seq<char>)> {
    s.map_values(|p: (u64, String)| (p.0, p.1@))
}

/// The spec image of the row vector.
pub open spec fn rows_view(s: Seq<(u64, Vec<(u64, String)>)>) -> Seq<(u64, Seq<(u64, Seq<char>)>)> {
    s.map_values(|r: (u64, Vec<(u64, String)>)| (r.0, cells_view(r.1@)))
}

/// A well-formed row under the declared columns: cell ids are distinct and
/// every one is a declared column.
pub open spec fn row_ok(cols: Seq<(u64, Seq<char>)>, cells: Seq<(u64, Seq<char>)>) -> bool {
    a_unique(cells) && forall|j: int| 0 <= j < cells.len() ==> a_has(cols, #[trigger] cells[j].0)
}

/// Adding a row: a no-op when the row id is already present, else a fresh
/// empty row appended.
pub open spec fn add_row_spec(
    rows: Seq<(u64, Seq<(u64, Seq<char>)>)>,
    row: u64,
) -> Seq<(u64, Seq<(u64, Seq<char>)>)> {
    if a_has(rows, row) {
        rows
    } else {
        rows.push((row, Seq::<(u64, Seq<char>)>::empty()))
    }
}

/// Writing a cell: rebind `col` in the addressed row, last write wins.
/// Leaves the state untouched when the row is absent (the executable
/// surface reports the error instead).
pub open spec fn set_cell_spec(
    rows: Seq<(u64, Seq<(u64, Seq<char>)>)>,
    row: u64,
    col: u64,
    v: Seq<char>,
) -> Seq<(u64, Seq<(u64, Seq<char>)>)> {
    match a_lookup(rows, row) {
        Some(cells) => a_set(rows, row, a_set(cells, col, v)),
        None => rows,
    }
}

/// State of a table flow: the immutable columns and the live rows.
pub struct TableState {
    pub columns: Vec<(u64, String)>,
    pub rows: Vec<(u64, Vec<(u64, String)>)>,
}

impl TableState {
    /// Distinct column ids, distinct row ids, and every row well-formed.
    pub open spec fn wf(self) -> bool {
        &&& a_unique(cells_view(self.columns@))
        &&& a_unique(rows_view(self.rows@))
        &&& forall|i: int|
            0 <= i < self.rows@.len() ==> row_ok(
                cells_view(self.columns@),
                #[trigger] rows_view(self.rows@)[i].1,
            )
    }

    /// Create a table over the given columns, with no rows.  Fails with
    /// `SpecViolation` exactly when two columns share an id.
    #[verifier::loop_isolation(false)]
    pub fn new(columns: Vec<(u64, String)>) -> (r: Result<TableState, FlowError>)
        ensures
            r is Ok <==> a_unique(cells_view(columns@)),
            match r {
                Ok(t) => t.wf() && t.columns@ == columns@ && t.rows@.len() == 0,
                Err(e) => e == FlowError::SpecViolation,
            },
    {
        let ghost cv = cells_view(columns@);
        let n = columns.len();
        let mut i: usize = 0;
        while i < n
            invariant
                i <= n,
                forall|a: int, b: int| 0 <= a < b < n && a < i ==> cv[a].0 != cv[b].0,
            decreases n - i,
        {
            let mut j: usize = i + 1;
            while j < n
                invariant
                    i < j <= n,
                    forall|b: int| i < b < j ==> cv[i as int].0 != cv[b].0,
                decreases n - j,
            {
                if columns[i].0 == columns[j].0 {
                    proof {
                        assert(cv[i as int].0 == cv[j as int].0);
                        assert(!a_unique(cv));
                    }
                    return Err(FlowError::SpecViolation);
                }
                j = j + 1;
            }
            i = i + 1;
        }
        Ok(TableState { columns, rows: Vec::new() })
    }

    /// Insert an empty row keyed by `row` if absent; re-adding an existing
    /// row changes nothing (idempotent).
    #[verifier::loop_isolation(false)]
    pub fn add_row(self, row: u64) -> (r: TableState)
        requires
            self.wf(),
        ensures
            r.wf(),
            r.columns@ == self.columns@,
            rows_view(r.rows@) == add_row_spec(rows_view(self.rows@), row),
    {
        let ghost rv = rows_view(self.rows@);
        let n = self.rows.len();
        let mut i: usize = 0;
        while i < n
            invariant
                i <= n,
                forall|j: int| 0 <= j < i ==> rv[j].0 != row,
            decreases n - i,
        {
            if self.rows[i].0 == row {
                proof {
                    lemma_lookup_at(rv, i as int);
                }
                return self;
            }
            i = i + 1;
        }
        proof {
            lemma_lookup_none_iff(rv, row);
            lemma_set_absent(rv, row, Seq::<(u64, Seq<char>)>::empty());
            lemma_set_unique(rv, row, Seq::<(u64, Seq<char>)>::empty());
        }
        let mut rows = self.rows;
        rows.push((row, Vec::new()));
        let r = TableState { columns: self.columns, rows };
        proof {
            assert(rows_view(r.rows@) =~~= rv.push((row, Seq::<(u64, Seq<char>)>::empty())));
            assert forall|i2: int| 0 <= i2 < r.rows@.len() implies row_ok(
                cells_view(r.columns@),
                #[trigger] rows_view(r.rows@)[i2].1,
            ) by {
                if i2 < rv.len() {
                    assert(rows_view(r.rows@)[i2] == rv[i2]);
                } else {
                    assert(cells_view(r.rows@[i2].1@) =~= Seq::<(u64, Seq<char>)>::empty());
                }
            }
        }
        r
    }

    /// Remove the row keyed by `row`; a no-op when it is absent.
    #[verifier::loop_isolation(false)]
    pub fn del_row(self, row: u64) -> (r: TableState)
        requires
            self.wf(),
        ensures
            r.wf(),
            r.columns@ == self.columns@,
            rows_view(r.rows@) == a_remove(rows_view(self.rows@), row),
    {
        let ghost rv = rows_view(self.rows@);
        let n = self.rows.len();
        let mut i: usize = 0;
        while i < n
            invariant
                i <= n,
                forall|j: int| 0 <= j < i ==> rv[j].0 != row,
            decreases n - i,
        {
            if self.rows[i].0 == row {
                proof {
                    lemma_remove_at(rv, i as int);
                    lemma_remove_unique(rv, row);
                }
                let mut rows = self.rows;
                rows.remove(i);
                let r = TableState { columns: self.columns, rows };
                proof {
                    assert(rows_view(r.rows@) =~= rv.remove(i as int));
                    assert forall|i2: int| 0 <= i2 < r.rows@.len() implies row_ok(
                        cells_view(r.columns@),
                        #[trigger] rows_view(r.rows@)[i2].1,
                    ) by {
                        let j2 = if i2 < i as int {
                            i2
                        } else {
                            i2 + 1
                        };
                        assert(rows_view(r.rows@)[i2] == rv[j2]);
                    }
                }
                return r;
            }
            i = i + 1;
        }
        proof {
            lemma_lookup_none_iff(rv, row);
            lemma_remove_absent(rv, row);
        }
        self
    }

    /// Write `value` into cell (`row`, `col`).  Fails with `UnknownRow`
    /// when the row was never added (or was deleted), and with
    /// `UnknownColumn` when the row exists but the column is undeclared;
    /// on failure the state is unchanged.  It never creates a row or a
    /// column.
    #[verifier::loop_isolation(false)]
    pub fn set_cell(self, row: u64, col: u64, value: String) -> (r: (
        TableState,
        Result<(), FlowError>,
    ))
        requires
            self.wf(),
        ensures
            r.0.wf(),
            r.0.columns@ == self.columns@,
            r.1 is Ok <==> a_has(rows_view(self.rows@), row) && a_has(
                cells_view(self.columns@),
                col,
            ),
            r.1 is Ok ==> rows_view(r.0.rows@) == set_cell_spec(
                rows_view(self.rows@),
                row,
                col,
                value@,
            ),
            !a_has(rows_view(self.rows@), row) ==> r.1 == Err::<(), FlowError>(
                FlowError::UnknownRow,
            ) && r.0 == self,
            a_has(rows_view(self.rows@), row) && !a_has(cells_view(self.columns@), col)
                ==> r.1 == Err::<(), FlowError>(FlowError::UnknownColumn) && r.0 == self,
    {
        let ghost rv = rows_view(self.rows@);
        let ghost cols = cells_view(self.columns@);
        let n = self.rows.len();
        let mut i: usize = 0;
        while i < n
            invariant
                i <= n,
                forall|j: int| 0 <= j < i ==> rv[j].0 != row,
            decreases n - i,
        {
            if self.rows[i].0 == row {
                break;
            }
            i = i + 1;
        }
        if i == n {
            proof {
                lemma_lookup_none_iff(rv, row);
            }
            return (self, Err(FlowError::UnknownRow));
        }
        proof {
            lemma_lookup_at(rv, i as int);
        }
        let nc = self.columns.len();
        let mut k: usize = 0;
        while k < nc
            invariant
                k <= nc,
                forall|j: int| 0 <= j < k ==> cols[j].0 != col,
            decreases nc - k,
        {
            if self.columns[k].0 == col {
                break;
            }
            k = k + 1;
        }
        if k == nc {
            proof {
                lemma_lookup_none_iff(cols, col);
            }
            return (self, Err(FlowError::UnknownColumn));
        }
        proof {
            lemma_lookup_at(cols, k as int);
        }
        let ghost cv = rv[i as int].1;
        let mut rows = self.rows;
        let mut rec = rows.remove(i);
        proof {
            assert(cells_view(rec.1@) == cv);
        }
        let m = rec.1.len();
        let mut c: usize = 0;
        while c < m
            invariant
                c <= m,
                forall|j: int| 0 <= j < c ==> cv[j].0 != col,
            decreases m - c,
        {
            if rec.1[c].0 == col {
                break;
            }
            c = c + 1;
        }
        if c == m {
            proof {
                lemma_lookup_none_iff(cv, col);
                lemma_set_absent(cv, col, value@);
                lemma_set_unique(cv, col, value@);
            }
            rec.1.push((col, value));
        } else {
            proof {
                assert(cv[c as int].0 == col);
                lemma_set_at(cv, c as int, value@);
                lemma_set_unique(cv, col, value@);
            }
            rec.1[c] = (col, value);
        }
        let ghost newcells = a_set(cv, col, value@);
        proof {
            assert(cells_view(rec.1@) =~= newcells);
            lemma_set_at(rv, i as int, newcells);
            lemma_set_unique(rv, row, newcells);
        }
        rows.insert(i, rec);
        let r = TableState { columns: self.columns, rows };
        proof {
            assert(rows_view(r.rows@) =~= rv.update(i as int, (row, newcells)));
            assert(rows_view(r.rows@) == set_cell_spec(rv, row, col, value@));
            assert forall|j: int| 0 <= j < newcells.len() implies a_has(
                cols,
                #[trigger] newcells[j].0,
            ) by {
                if c < m {
                    assert(newcells =~= cv.update(c as int, (col, value@)));
                } else {
                    assert(newcells =~= cv.push((col, value@)));
                }
            }
            assert forall|i2: int| 0 <= i2 < r.rows@.len() implies row_ok(
                cells_view(r.columns@),
                #[trigger] rows_view(r.rows@)[i2].1,
            ) by {
                if i2 != i as int {
                    assert(rows_view(r.rows@)[i2] == rv[i2]);
                }
            }
        }
        (r, Ok(()))
    }
}

/// Law: deleting the same row twice is idempotent — the state after the
/// second deletion equals the state after the first.
pub proof fn lemma_del_row_idempotent(rows: Seq<(u64, Seq<(u64, Seq<char>)>)>, row: u64)
    requires
        a_unique(rows),
    ensures
        a_remove(a_remove(rows, row), row) == a_remove(rows, row),
{
    lemma_remove_unique(rows, row);
    lemma_remove_lookup(rows, row, row);
    lemma_lookup_none_iff(a_remove(rows, row), row);
    lemma_remove_absent(a_remove(rows, row), row);
}

/// Law: adding the same row twice is idempotent.
pub proof fn lemma_add_row_idempotent(rows: Seq<(u64, Seq<(u64, Seq<char>)>)>, row: u64)
    ensures
        add_row_spec(add_row_spec(rows, row), row) == add_row_spec(rows, row),
{
    if !a_has(rows, row) {
        let w = rows.push((row, Seq::<(u64, Seq<char>)>::empty()));
        lemma_lookup_none_iff(rows, row);
        assert(forall|j: int| 0 <= j < rows.len() ==> w[j] == rows[j]);
        lemma_lookup_at(w, rows.len() as int);
    }
}

/// Law: adding a row twice in a row and then writing a cell yields the
/// same state as adding it once and writing the same cell.
pub proof fn lemma_add_add_set_cell(
    rows: Seq<(u64, Seq<(u64, Seq<char>)>)>,
    row: u64,
    col: u64,
    v: Seq<char>,
)
    ensures
        set_cell_spec(add_row_spec(add_row_spec(rows, row), row), row, col, v) == set_cell_spec(
            add_row_spec(rows, row),
            row,
            col,
            v,
        ),
{
    lemma_add_row_idempotent(rows, row);
}

} // verus!
