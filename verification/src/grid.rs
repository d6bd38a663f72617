//! A rectangular grid of counters, stored row-major in one flat
//! vector.  The dynamic-programming table of the diff module lives in
//! one of these.

use vstd::prelude::*;

verus! {

/// A `num_rows` by `num_cols` grid of `usize` values.
pub struct Grid {
    pub num_rows: usize,
    pub num_cols: usize,
    pub elems: Vec<usize>,
}

/// Distinct in-bounds coordinates land on distinct flat indices.
proof fn lemma_index_injective(cols: int, r1: int, c1: int, r2: int, c2: int)
    by (nonlinear_arith)
    requires
        0 <= c1 < cols,
        0 <= c2 < cols,
        0 <= r1,
        0 <= r2,
        !(r1 == r2 && c1 == c2),
    ensures
        r1 * cols + c1 != r2 * cols + c2,
{
}

/// An in-bounds coordinate's flat index is within the grid's storage.
proof fn lemma_index_in_range(rows: int, cols: int, r: int, c: int)
    by (nonlinear_arith)
    requires
        0 <= r < rows,
        0 <= c < cols,
    ensures
        0 <= r * cols + c < rows * cols,
{
}

impl Grid {
    /// The storage holds exactly one element per coordinate.
    pub open spec fn wf(&self) -> bool {
        self.elems@.len() == self.num_rows * self.num_cols
    }

    /// The value at row `r`, column `c`.
    pub open spec fn spec_get(&self, r: int, c: int) -> usize {
        self.elems@[r * self.num_cols + c]
    }

    /// A grid of the given dimensions with every value zero.
    pub fn new(num_rows: usize, num_cols: usize) -> (g: Grid)
        requires
            num_rows * num_cols <= usize::MAX,
        ensures
            g.wf(),
            g.num_rows == num_rows,
            g.num_cols == num_cols,
            forall|r: int, c: int|
                0 <= r < num_rows && 0 <= c < num_cols ==> g.spec_get(r, c) == 0,
    {
        let total: usize = num_rows * num_cols;
        let mut elems: Vec<usize> = Vec::new();
        let mut k: usize = 0;
        while k < total
            invariant
                k <= total,
                elems@.len() == k,
                forall|t: int| 0 <= t < k ==> elems@[t] == 0,
            decreases total - k,
        {
            elems.push(0);
            k += 1;
        }
        let g = Grid { num_rows, num_cols, elems };
        proof {
            assert forall|r: int, c: int|
                0 <= r < num_rows && 0 <= c < num_cols implies g.spec_get(r, c) == 0 by {
                lemma_index_in_range(num_rows as int, num_cols as int, r, c);
            }
        }
        g
    }

    /// The grid's dimensions, rows then columns.
    pub fn size(&self) -> (r: (usize, usize))
        ensures
            r == (self.num_rows, self.num_cols),
    {
        (self.num_rows, self.num_cols)
    }

    /// The value at an in-bounds coordinate, absence outside the grid.
    pub fn get(&self, row: usize, col: usize) -> (r: Option<usize>)
        requires
            self.wf(),
        ensures
            row < self.num_rows && col < self.num_cols ==> r == Some(
                self.spec_get(row as int, col as int),
            ),
            !(row < self.num_rows && col < self.num_cols) ==> r is None,
    {
        if row < self.num_rows && col < self.num_cols {
            proof {
                lemma_index_in_range(self.num_rows as int, self.num_cols as int, row as int, col as int);
            }
            let stored: usize = self.elems.len();
            let idx: usize = row * self.num_cols + col;
            assert(idx < stored);
            Some(self.elems[idx])
        } else {
            None
        }
    }

    /// Replaces the value at an in-bounds coordinate, leaving every
    /// other cell and the dimensions unchanged; rejects a coordinate
    /// outside the grid without changing anything.
    pub fn set(&mut self, row: usize, col: usize, val: usize) -> (r: Result<(), ()>)
        requires
            old(self).wf(),
        ensures
            final(self).wf(),
            final(self).num_rows == old(self).num_rows,
            final(self).num_cols == old(self).num_cols,
            row < old(self).num_rows && col < old(self).num_cols ==> {
                &&& r is Ok
                &&& final(self).spec_get(row as int, col as int) == val
                &&& forall|r2: int, c2: int|
                    0 <= r2 < old(self).num_rows && 0 <= c2 < old(self).num_cols && !(r2
                        == row as int && c2 == col as int) ==> final(self).spec_get(r2, c2) == old(
                        self,
                    ).spec_get(r2, c2)
            },
            !(row < old(self).num_rows && col < old(self).num_cols) ==> r is Err && *final(self)
                == *old(self),
    {
        if row < self.num_rows && col < self.num_cols {
            proof {
                lemma_index_in_range(self.num_rows as int, self.num_cols as int, row as int, col as int);
            }
            let stored: usize = self.elems.len();
            let idx: usize = row * self.num_cols + col;
            assert(idx < stored);
            self.elems.set(idx, val);
            proof {
                assert forall|r2: int, c2: int|
                    0 <= r2 < self.num_rows && 0 <= c2 < self.num_cols && !(r2 == row as int && c2
                        == col as int) implies self.spec_get(r2, c2) == old(self).spec_get(
                    r2,
                    c2,
                ) by {
                    lemma_index_in_range(self.num_rows as int, self.num_cols as int, r2, c2);
                    lemma_index_injective(self.num_cols as int, r2, c2, row as int, col as int);
                }
            }
            Ok(())
        } else {
            Err(())
        }
    }
}

} // verus!
