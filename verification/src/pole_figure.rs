use vstd::prelude::*;

use crate::crystal_axis::CrystalAxes;
use crate::minerals::Mineral;

verus! {

/// One pole figure: the density matrix over the sampling grid for a single
/// (crystal axis, mineral) pair, together with the maximum density value
/// used to scale the colors.
///
/// Density values are carried as order-preserving integer keys; for the
/// non-negative finite densities the estimator produces, the IEEE-754 bit
/// pattern of an `f64` is such a key, so maxima and the shared color scale
/// computed here are exactly the maxima of the underlying densities.
pub struct PoleFigure {
    pub mineral: Mineral,
    pub crystal_axis: CrystalAxes,
    pub counts: Vec<Vec<u64>>,
    pub max_count: u64,
}

/// Every entry of the matrix is at most `m`.
pub open spec fn matrix_entries_bounded(counts: Seq<Vec<u64>>, m: u64) -> bool {
    forall|i: int, j: int|
        0 <= i < counts.len() && 0 <= j < counts[i]@.len() ==> counts[i]@[j] <= m
}

/// Some entry of the matrix equals `m`.
pub open spec fn matrix_attains(counts: Seq<Vec<u64>>, m: u64) -> bool {
    exists|i: int, j: int|
        0 <= i < counts.len() && 0 <= j < counts[i]@.len() && counts[i]@[j] == m
}

/// `m` is the largest entry of the matrix, or zero if the matrix has no
/// entries (zero is also the smallest key, the density of an empty field).
pub open spec fn is_matrix_max(m: u64, counts: Seq<Vec<u64>>) -> bool {
    matrix_entries_bounded(counts, m) && (m == 0 || matrix_attains(counts, m))
}

/// The largest entry of a density matrix, zero for a matrix without
/// entries.
pub fn matrix_max(counts: &Vec<Vec<u64>>) -> (m: u64)
    ensures
        is_matrix_max(m, counts@),
{
    let mut m: u64 = 0;
    let mut i: usize = 0;
    while i < counts.len()
        invariant
            i <= counts@.len(),
            forall|a: int, b: int|
                0 <= a < i && 0 <= b < counts@[a]@.len() ==> counts@[a]@[b] <= m,
            m == 0 || matrix_attains(counts@, m),
        decreases counts@.len() - i,
    {
        let row = &counts[i];
        let mut j: usize = 0;
        while j < row.len()
            invariant
                i < counts@.len(),
                j <= row@.len(),
                row == counts@[i as int],
                forall|a: int, b: int|
                    0 <= a < i && 0 <= b < counts@[a]@.len() ==> counts@[a]@[b] <= m,
                forall|b: int| 0 <= b < j ==> counts@[i as int]@[b] <= m,
                m == 0 || matrix_attains(counts@, m),
            decreases row@.len() - j,
        {
            if row[j] > m {
                m = row[j];
                assert(matrix_attains(counts@, m)) by {
                    assert(counts@[i as int]@[j as int] == m);
                }
            }
            j = j + 1;
        }
        i = i + 1;
    }
    m
}

impl PoleFigure {
    /// Build the pole figure for one (axis, mineral) pair from its density
    /// matrix; the matrix's maximum entry is recorded as `max_count`.
    pub fn new(mineral: Mineral, crystal_axis: CrystalAxes, counts: Vec<Vec<u64>>) -> (pf:
        PoleFigure)
        ensures
            pf.mineral == mineral,
            pf.crystal_axis == crystal_axis,
            pf.counts == counts,
            is_matrix_max(pf.max_count, pf.counts@),
    {
        let max_count = matrix_max(&counts);
        PoleFigure { mineral, crystal_axis, counts, max_count }
    }
}

/// The largest `max_count` among the first `h` figures of column `v` of the
/// grid (zero when `h` is zero, like the running maximum it models).
pub open spec fn column_max_upto(grid: Seq<Vec<PoleFigure>>, v: int, h: int) -> u64
    decreases h,
{
    if h <= 0 {
        0
    } else {
        let prev = column_max_upto(grid, v, h - 1);
        let cur = grid[h - 1]@[v].max_count;
        if cur > prev {
            cur
        } else {
            prev
        }
    }
}

/// The largest `max_count` of column `v` (one mineral) across the whole
/// horizontal axis of the grid.
pub open spec fn column_max(grid: Seq<Vec<PoleFigure>>, v: int) -> u64 {
    column_max_upto(grid, v, grid.len() as int)
}

/// `b` is `a` with its `max_count` replaced by the shared maximum `m`.
pub open spec fn shares_max(a: PoleFigure, b: PoleFigure, m: u64) -> bool {
    &&& b.mineral == a.mineral
    &&& b.crystal_axis == a.crystal_axis
    &&& b.counts == a.counts
    &&& b.max_count == m
}

/// Apply the shared color-scale policy to a grid of pole figures indexed
/// `[crystal axis][mineral]`: afterwards, every pole figure of one mineral
/// (one column) reports as `max_count` the largest maximum found for that
/// mineral across all crystal axes, so all axes of a mineral share one
/// color scale. Tags and density matrices are unchanged.
pub fn assemble_pole_figure_grid(grid: Vec<Vec<PoleFigure>>) -> (r: Vec<Vec<PoleFigure>>)
    requires
        forall|h: int| 0 <= h < grid@.len() ==> (#[trigger] grid@[h]@.len()) == grid@[0]@.len(),
    ensures
        r@.len() == grid@.len(),
        forall|h: int| 0 <= h < r@.len() ==> r@[h]@.len() == grid@[h]@.len(),
        forall|h: int, v: int|
            0 <= h < r@.len() && 0 <= v < r@[h]@.len() ==> #[trigger] shares_max(
                grid@[h]@[v],
                r@[h]@[v],
                column_max(grid@, v),
            ),
{
    let ghost orig = grid@;
    let ncols: usize = if grid.len() > 0 {
        grid[0].len()
    } else {
        0
    };
    // First pass: the maximum of each column.
    let mut maxima: Vec<u64> = Vec::new();
    let mut v: usize = 0;
    while v < ncols
        invariant
            v <= ncols,
            grid@ == orig,
            grid@.len() > 0 ==> ncols == grid@[0]@.len(),
            grid@.len() == 0 ==> ncols == 0,
            forall|h: int| 0 <= h < grid@.len() ==> grid@[h]@.len() == ncols,
            maxima@.len() == v,
            forall|w: int| 0 <= w < v ==> maxima@[w] == column_max(grid@, w),
        decreases ncols - v,
    {
        let mut cur: u64 = 0;
        let mut h: usize = 0;
        while h < grid.len()
            invariant
                v < ncols,
                h <= grid@.len(),
                grid@ == orig,
                forall|g: int| 0 <= g < grid@.len() ==> grid@[g]@.len() == ncols,
                cur == column_max_upto(grid@, v as int, h as int),
            decreases grid@.len() - h,
        {
            let candidate = grid[h][v].max_count;
            if candidate > cur {
                cur = candidate;
            }
            h = h + 1;
        }
        maxima.push(cur);
        v = v + 1;
    }
    // Second pass: rebuild the grid with the shared maxima written back.
    let mut grid = grid;
    let mut r: Vec<Vec<PoleFigure>> = Vec::new();
    while grid.len() > 0
        invariant
            forall|g: int| 0 <= g < orig.len() ==> orig[g]@.len() == ncols,
            maxima@.len() == ncols,
            forall|w: int| 0 <= w < ncols ==> maxima@[w] == column_max(orig, w),
            r@.len() + grid@.len() == orig.len(),
            grid@ == orig.skip(r@.len() as int),
            forall|h: int| 0 <= h < r@.len() ==> r@[h]@.len() == ncols,
            forall|h: int, v: int|
                0 <= h < r@.len() && 0 <= v < ncols ==> #[trigger] shares_max(
                    orig[h]@[v],
                    r@[h]@[v],
                    column_max(orig, v),
                ),
        decreases grid@.len(),
    {
        let ghost done = r@.len() as int;
        let mut row = grid.remove(0);
        proof {
            assert(row@ == orig[done]@);
            assert(grid@ =~= orig.skip(done + 1));
        }
        let ghost orig_row = row@;
        let mut new_row: Vec<PoleFigure> = Vec::new();
        while row.len() > 0
            invariant
                orig_row.len() == ncols,
                maxima@.len() == ncols,
                new_row@.len() + row@.len() == ncols,
                row@ == orig_row.skip(new_row@.len() as int),
                forall|v: int|
                    0 <= v < new_row@.len() ==> #[trigger] shares_max(
                        orig_row[v],
                        new_row@[v],
                        maxima@[v],
                    ),
            decreases row@.len(),
        {
            let ghost filled = new_row@.len() as int;
            let pf = row.remove(0);
            proof {
                assert(pf == orig_row[filled]);
                assert(row@ =~= orig_row.skip(filled + 1));
            }
            let shared = maxima[new_row.len()];
            let ghost pfv = pf;
            let ghost prev_new = new_row@;
            let PoleFigure { mineral, crystal_axis, counts, max_count: _ } = pf;
            new_row.push(PoleFigure { mineral, crystal_axis, counts, max_count: shared });
            proof {
                assert forall|v: int| 0 <= v < new_row@.len() implies #[trigger] shares_max(
                    orig_row[v],
                    new_row@[v],
                    maxima@[v],
                ) by {
                    if v < filled {
                        assert(shares_max(orig_row[v], prev_new[v], maxima@[v]));
                        assert(new_row@[v] == prev_new[v]);
                    } else {
                        assert(v == filled);
                        assert(new_row@[v].mineral == pfv.mineral);
                        assert(new_row@[v].max_count == maxima@[filled]);
                    }
                }
            }
        }
        proof {
            assert(new_row@.len() == ncols);
        }
        let ghost finished_row = new_row@;
        r.push(new_row);
        proof {
            assert(r@[done]@ == finished_row);
            assert(r@[done]@.len() == ncols);
            assert forall|v: int| 0 <= v < ncols implies #[trigger] shares_max(
                orig[done]@[v],
                r@[done]@[v],
                column_max(orig, v),
            ) by {
                assert(shares_max(orig_row[v], finished_row[v], maxima@[v]));
                assert(r@[done]@[v] == finished_row[v]);
                assert(maxima@[v] == column_max(orig, v));
            }
        }
    }
    proof {
        assert(r@.len() == orig.len());
    }
    r
}

} // verus!
