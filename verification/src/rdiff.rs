//! Line-diff computation: the longest-common-subsequence table of two
//! line sequences, and the edit script read back out of it.

use vstd::prelude::*;

use crate::grid::Grid;

verus! {

/// The length of the longest common subsequence of the first `i` lines
/// of `a` and the first `j` lines of `b`.
pub open spec fn spec_lcs(a: Seq<Seq<char>>, b: Seq<Seq<char>>, i: int, j: int) -> int
    decreases i + j,
{
    if i <= 0 || j <= 0 {
        0
    } else if a[i - 1] == b[j - 1] {
        spec_lcs(a, b, i - 1, j - 1) + 1
    } else {
        let left = spec_lcs(a, b, i, j - 1);
        let up = spec_lcs(a, b, i - 1, j);
        if left >= up {
            left
        } else {
            up
        }
    }
}

/// A common subsequence is never longer than either prefix.
pub proof fn lemma_spec_lcs_bounds(a: Seq<Seq<char>>, b: Seq<Seq<char>>, i: int, j: int)
    requires
        i >= 0,
        j >= 0,
    ensures
        0 <= spec_lcs(a, b, i, j),
        spec_lcs(a, b, i, j) <= i,
        spec_lcs(a, b, i, j) <= j,
    decreases i + j,
{
    if i > 0 && j > 0 {
        lemma_spec_lcs_bounds(a, b, i - 1, j - 1);
        lemma_spec_lcs_bounds(a, b, i, j - 1);
        lemma_spec_lcs_bounds(a, b, i - 1, j);
    }
}

/// Fills the dynamic-programming table: cell `(x, y)` of the result is
/// the longest-common-subsequence length of the first `x` lines of
/// `seq1` and the first `y` lines of `seq2`.
pub fn lcs(seq1: &Vec<String>, seq2: &Vec<String>) -> (g: Grid)
    requires
        seq1@.len() < usize::MAX,
        seq2@.len() < usize::MAX,
        (seq1@.len() + 1) * (seq2@.len() + 1) <= usize::MAX,
    ensures
        g.wf(),
        g.num_rows == seq1@.len() + 1,
        g.num_cols == seq2@.len() + 1,
        forall|x: int, y: int|
            0 <= x <= seq1@.len() && 0 <= y <= seq2@.len() ==> g.spec_get(x, y) == spec_lcs(
                seq1.deep_view(),
                seq2.deep_view(),
                x,
                y,
            ),
{
    let ghost av = seq1.deep_view();
    let ghost bv = seq2.deep_view();
    let m = seq1.len();
    let n = seq2.len();
    let mut grid = Grid::new(m + 1, n + 1);
    proof {
        assert forall|x: int, y: int|
            0 <= x <= m && 0 <= y <= n && (x == 0 || y == 0) implies grid.spec_get(x, y)
            == spec_lcs(av, bv, x, y) by {
            assert(spec_lcs(av, bv, x, y) == 0);
        }
    }
    let mut i: usize = 0;
    while i < m
        invariant
            i <= m,
            m == seq1@.len(),
            n == seq2@.len(),
            av == seq1.deep_view(),
            bv == seq2.deep_view(),
            grid.wf(),
            grid.num_rows == m + 1,
            grid.num_cols == n + 1,
            forall|x: int, y: int|
                0 <= x <= m && 0 <= y <= n && (x <= i || y == 0) ==> grid.spec_get(x, y)
                    == spec_lcs(av, bv, x, y),
        decreases m - i,
    {
        let mut j: usize = 0;
        while j < n
            invariant
                i < m,
                j <= n,
                m == seq1@.len(),
                n == seq2@.len(),
                av == seq1.deep_view(),
                bv == seq2.deep_view(),
                grid.wf(),
                grid.num_rows == m + 1,
                grid.num_cols == n + 1,
                forall|x: int, y: int|
                    0 <= x <= m && 0 <= y <= n && (x <= i || y == 0 || (x == i + 1 && y <= j))
                        ==> grid.spec_get(x, y) == spec_lcs(av, bv, x, y),
            decreases n - j,
        {
            proof {
                assert(av[i as int] == seq1@[i as int]@);
                assert(bv[j as int] == seq2@[j as int]@);
            }
            let val: usize;
            if seq1[i] == seq2[j] {
                let below = grid.get(i, j).unwrap();
                proof {
                    lemma_spec_lcs_bounds(av, bv, i as int, j as int);
                }
                val = below + 1;
            } else {
                let left = grid.get(i + 1, j).unwrap();
                let up = grid.get(i, j + 1).unwrap();
                val = if left >= up {
                    left
                } else {
                    up
                };
            }
            proof {
                assert(val == spec_lcs(av, bv, i + 1, j + 1));
            }
            let ghost g1 = grid;
            let _ = grid.set(i + 1, j + 1, val);
            proof {
                assert forall|x: int, y: int|
                    0 <= x <= m && 0 <= y <= n && (x <= i || y == 0 || (x == i + 1 && y <= j + 1))
                        implies grid.spec_get(x, y) == spec_lcs(av, bv, x, y) by {
                    if x == i + 1 && y == j + 1 {
                    } else {
                        assert(grid.spec_get(x, y) == g1.spec_get(x, y));
                    }
                }
            }
            j += 1;
        }
        i += 1;
    }
    grid
}

/// One line of an edit script.
pub enum DiffLine {
    /// A line both sequences share.
    Same(String),
    /// A line only the second sequence has.
    Added(String),
    /// A line only the first sequence has.
    Removed(String),
    /// The blank line emitted at the start of the script.
    Start,
}

/// An edit-script line reduced to its mathematical content.
pub enum DiffLineV {
    Same(Seq<char>),
    Added(Seq<char>),
    Removed(Seq<char>),
    Start,
}

impl View for DiffLine {
    type V = DiffLineV;

    open spec fn view(&self) -> DiffLineV {
        match self {
            DiffLine::Same(s) => DiffLineV::Same(s@),
            DiffLine::Added(s) => DiffLineV::Added(s@),
            DiffLine::Removed(s) => DiffLineV::Removed(s@),
            DiffLine::Start => DiffLineV::Start,
        }
    }
}

pub open spec fn diff_view(s: Seq<DiffLine>) -> Seq<DiffLineV> {
    s.map_values(|d: DiffLine| d@)
}

/// The edit script read out of a filled table at position `(i, j)`:
/// shared lines are followed, otherwise the larger table neighbour
/// decides between an added and a removed line, and the walk starts
/// with one blank marker.
pub open spec fn spec_diff(g: Grid, a: Seq<Seq<char>>, b: Seq<Seq<char>>, i: int, j: int) -> Seq<
    DiffLineV,
>
    decreases i + j,
{
    if i < 0 || j < 0 {
        Seq::empty()
    } else if i > 0 && j > 0 && a[i - 1] == b[j - 1] {
        spec_diff(g, a, b, i - 1, j - 1).push(DiffLineV::Same(a[i - 1]))
    } else if j > 0 && (i == 0 || g.spec_get(i, j - 1) >= g.spec_get(i - 1, j)) {
        spec_diff(g, a, b, i, j - 1).push(DiffLineV::Added(b[j - 1]))
    } else if i > 0 && (j == 0 || g.spec_get(i, j - 1) < g.spec_get(i - 1, j)) {
        spec_diff(g, a, b, i - 1, j).push(DiffLineV::Removed(a[i - 1]))
    } else {
        seq![DiffLineV::Start]
    }
}

/// Builds the edit script for the first `i` lines of `lines1` against
/// the first `j` lines of `lines2`, reading the filled table.
pub fn diff_lines(
    lcs_table: &Grid,
    lines1: &Vec<String>,
    lines2: &Vec<String>,
    i: usize,
    j: usize,
) -> (r: Vec<DiffLine>)
    requires
        lcs_table.wf(),
        i < lcs_table.num_rows,
        j < lcs_table.num_cols,
        i <= lines1@.len(),
        j <= lines2@.len(),
    ensures
        diff_view(r@) == spec_diff(
            *lcs_table,
            lines1.deep_view(),
            lines2.deep_view(),
            i as int,
            j as int,
        ),
    decreases i + j,
{
    let ghost av = lines1.deep_view();
    let ghost bv = lines2.deep_view();
    proof {
        if i > 0 {
            assert(av[i - 1] == lines1@[i - 1]@);
        }
        if j > 0 {
            assert(bv[j - 1] == lines2@[j - 1]@);
        }
    }
    if i > 0 && j > 0 && seq1_eq(lines1, lines2, i - 1, j - 1) {
        let mut r = diff_lines(lcs_table, lines1, lines2, i - 1, j - 1);
        let ghost pre = r@;
        r.push(DiffLine::Same(lines1[i - 1].clone()));
        proof {
            assert(diff_view(r@) =~= diff_view(pre).push(DiffLineV::Same(av[i - 1])));
        }
        r
    } else if j > 0 && (i == 0 || lcs_table.get(i, j - 1).unwrap() >= lcs_table.get(
        i - 1,
        j,
    ).unwrap()) {
        let mut r = diff_lines(lcs_table, lines1, lines2, i, j - 1);
        let ghost pre = r@;
        r.push(DiffLine::Added(lines2[j - 1].clone()));
        proof {
            assert(diff_view(r@) =~= diff_view(pre).push(DiffLineV::Added(bv[j - 1])));
        }
        r
    } else if i > 0 && (j == 0 || lcs_table.get(i, j - 1).unwrap() < lcs_table.get(
        i - 1,
        j,
    ).unwrap()) {
        let mut r = diff_lines(lcs_table, lines1, lines2, i - 1, j);
        let ghost pre = r@;
        r.push(DiffLine::Removed(lines1[i - 1].clone()));
        proof {
            assert(diff_view(r@) =~= diff_view(pre).push(DiffLineV::Removed(av[i - 1])));
        }
        r
    } else {
        let mut r: Vec<DiffLine> = Vec::new();
        r.push(DiffLine::Start);
        proof {
            assert(diff_view(r@) =~= seq![DiffLineV::Start]);
        }
        r
    }
}

/// Whether line `i1` of the first sequence equals line `i2` of the
/// second.
fn seq1_eq(lines1: &Vec<String>, lines2: &Vec<String>, i1: usize, i2: usize) -> (r: bool)
    requires
        i1 < lines1@.len(),
        i2 < lines2@.len(),
    ensures
        r == (lines1@[i1 as int]@ == lines2@[i2 as int]@),
{
    lines1[i1] == lines2[i2]
}

} // verus!
