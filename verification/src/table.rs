//! The owned table model: an ordered mapping from unique column
//! identifiers to typed columns, all sharing the table's row count.
//! Tables are immutable once constructed; evaluation produces new columns,
//! never mutates in place.

use vstd::prelude::*;
use crate::column::{OwnedColumn, ColV};

verus! {

/// Why an owned table cannot be constructed.
#[derive(Debug, PartialEq, Eq)]
pub enum TableError {
    /// Two columns were handed over with different lengths.
    ColumnLengthMismatch,
    /// One identifier was handed over twice.
    DuplicateIdentifiers,
}

/// An ordered mapping from column identifier to owned column.
#[derive(Debug, PartialEq)]
pub struct OwnedTable {
    cols: Vec<(String, OwnedColumn)>,
}

impl View for OwnedTable {
    type V = Seq<(Seq<char>, ColV)>;

    closed spec fn view(&self) -> Seq<(Seq<char>, ColV)> {
        self.cols@.map_values(|p: (String, OwnedColumn)| (p.0@, p.1@))
    }
}

/// The table's derived row count: that of its first column.
pub open spec fn num_rows_of(t: Seq<(Seq<char>, ColV)>) -> nat {
    if t.len() == 0 {
        0
    } else {
        t[0].1.len()
    }
}

/// Whether the table holds a column under the given identifier.
pub open spec fn has_col(t: Seq<(Seq<char>, ColV)>, name: Seq<char>) -> bool {
    exists|i: int| 0 <= i < t.len() && #[trigger] t[i].0 == name
}

/// The column under the given identifier (meaningful when unique).
pub open spec fn col_of(t: Seq<(Seq<char>, ColV)>, name: Seq<char>) -> ColV {
    t[choose|i: int| 0 <= i < t.len() && #[trigger] t[i].0 == name].1
}

/// Whether two columns share one identifier.
pub open spec fn has_duplicate(t: Seq<(Seq<char>, ColV)>) -> bool {
    exists|i: int, j: int| 0 <= i < j < t.len() && #[trigger] t[i].0 == #[trigger] t[j].0
}

/// Whether every column's length is the table's row count.
pub open spec fn lengths_agree(t: Seq<(Seq<char>, ColV)>) -> bool {
    forall|i: int| 0 <= i < t.len() ==> (#[trigger] t[i].1).len() == num_rows_of(t)
}

/// The table invariant over the model: identifiers are unique and every
/// column's length is the table's row count.
pub open spec fn table_wf_v(t: Seq<(Seq<char>, ColV)>) -> bool {
    &&& !has_duplicate(t)
    &&& lengths_agree(t)
}

impl Clone for OwnedTable {
    /// Cloning a table preserves its model exactly.
    fn clone(&self) -> (r: Self)
        ensures
            r@ == self@,
    {
        let n = self.cols.len();
        let mut out: Vec<(String, OwnedColumn)> = Vec::new();
        let mut i: usize = 0;
        while i < n
            invariant
                n == self.cols@.len(),
                i <= n,
                out@.len() == i,
                forall|j: int| 0 <= j < i ==> #[trigger] out@[j].0@ == self.cols@[j].0@
                    && out@[j].1@ == self.cols@[j].1@,
            decreases n - i,
        {
            out.push((self.cols[i].0.clone(), self.cols[i].1.clone()));
            i += 1;
        }
        let t = OwnedTable { cols: out };
        proof {
            assert(t@ =~= self@);
        }
        t
    }
}

impl OwnedTable {
    /// The full invariant: the model invariant, and each column canonical.
    pub open spec fn wf(self) -> bool {
        &&& table_wf_v(self@)
        &&& forall|i: int| 0 <= i < self@.len() ==> (#[trigger] self@[i].1).wf()
    }

    /// An empty table, with no columns and no rows.
    pub fn new() -> (r: OwnedTable)
        ensures
            r@ =~= Seq::<(Seq<char>, ColV)>::empty(),
            r.wf(),
    {
        let t = OwnedTable { cols: Vec::new() };
        proof {
            assert(t@ =~= Seq::<(Seq<char>, ColV)>::empty());
        }
        t
    }

    /// Builds a table from identifier/column pairs, enforcing the
    /// invariant at construction: duplicate identifiers and unequal
    /// column lengths are rejected, in that order of checking.
    pub fn try_new(cols: Vec<(String, OwnedColumn)>) -> (r: Result<OwnedTable, TableError>)
        requires
            forall|i: int| 0 <= i < cols@.len() ==> (#[trigger] cols@[i].1)@.wf(),
        ensures
            r matches Ok(t) ==> t.wf() && t@ == cols@.map_values(
                |p: (String, OwnedColumn)| (p.0@, p.1@),
            ),
            table_wf_v(cols@.map_values(|p: (String, OwnedColumn)| (p.0@, p.1@))) <==> r is Ok,
            has_duplicate(cols@.map_values(|p: (String, OwnedColumn)| (p.0@, p.1@))) ==> (
            r matches Err(e) && e is DuplicateIdentifiers),
            (!has_duplicate(cols@.map_values(|p: (String, OwnedColumn)| (p.0@, p.1@)))
                && !lengths_agree(cols@.map_values(|p: (String, OwnedColumn)| (p.0@, p.1@))))
                ==> (r matches Err(e) && e is ColumnLengthMismatch),
    {
        let ghost m = cols@.map_values(|p: (String, OwnedColumn)| (p.0@, p.1@));
        let n = cols.len();
        let mut i: usize = 0;
        while i < n
            invariant
                n == cols@.len(),
                i <= n,
                m == cols@.map_values(|p: (String, OwnedColumn)| (p.0@, p.1@)),
                forall|a: int, b: int| 0 <= a < b < cols@.len() && a < i ==> #[trigger] m[a].0
                    != #[trigger] m[b].0,
            decreases n - i,
        {
            let mut j: usize = i + 1;
            while j < n
                invariant
                    n == cols@.len(),
                    i < j || i + 1 == j,
                    i < n,
                    j <= n,
                    m == cols@.map_values(|p: (String, OwnedColumn)| (p.0@, p.1@)),
                    forall|b: int| i < b < j ==> m[i as int].0 != #[trigger] m[b].0,
                decreases n - j,
            {
                if cols[i].0 == cols[j].0 {
                    proof {
                        assert(m[i as int].0 == m[j as int].0);
                    }
                    return Err(TableError::DuplicateIdentifiers);
                }
                j += 1;
            }
            i += 1;
        }
        proof {
            if has_duplicate(m) {
                let (a, b) = choose|a: int, b: int|
                    0 <= a < b < m.len() && #[trigger] m[a].0 == #[trigger] m[b].0;
                assert(m[a].0 != m[b].0);
            }
        }
        let mut k: usize = 0;
        while k < n
            invariant
                n == cols@.len(),
                k <= n,
                m == cols@.map_values(|p: (String, OwnedColumn)| (p.0@, p.1@)),
                !has_duplicate(m),
                forall|a: int| 0 <= a < k ==> (#[trigger] m[a].1).len() == num_rows_of(m),
            decreases n - k,
        {
            let expected = cols[0].1.len();
            if cols[k].1.len() != expected {
                proof {
                    assert(m[k as int].1.len() != m[0].1.len());
                    assert(m[k as int].1.len() != num_rows_of(m));
                }
                return Err(TableError::ColumnLengthMismatch);
            }
            k += 1;
        }
        Ok(OwnedTable { cols })
    }

    /// The table's row count.
    pub fn num_rows(&self) -> (n: usize)
        ensures
            n == num_rows_of(self@),
    {
        if self.cols.len() == 0 {
            0
        } else {
            self.cols[0].1.len()
        }
    }

    /// The number of columns.
    pub fn num_columns(&self) -> (n: usize)
        ensures
            n == self@.len(),
    {
        self.cols.len()
    }

    /// Looks the identifier up in the table's mapping.
    pub fn column_of(&self, identifier: &String) -> (r: Option<&OwnedColumn>)
        requires
            self.wf(),
        ensures
            has_col(self@, identifier@) <==> r is Some,
            r matches Some(c) ==> c@ == col_of(self@, identifier@),
    {
        let n = self.cols.len();
        let mut i: usize = 0;
        while i < n
            invariant
                n == self@.len(),
                i <= n,
                self.wf(),
                forall|a: int| 0 <= a < i ==> #[trigger] self@[a].0 != identifier@,
            decreases n - i,
        {
            if self.cols[i].0 == *identifier {
                proof {
                    let w = choose|k: int|
                        0 <= k < self@.len() && #[trigger] self@[k].0 == identifier@;
                    assert(self@[i as int].0 == identifier@);
                    assert(w == i as int);
                }
                return Some(&self.cols[i].1);
            }
            i += 1;
        }
        proof {
            if has_col(self@, identifier@) {
                let w = choose|k: int| 0 <= k < self@.len() && #[trigger] self@[k].0 == identifier@;
                assert(self@[w].0 != identifier@);
            }
        }
        None
    }
}

} // verus!
