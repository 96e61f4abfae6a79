//! Flattened half-matrix storage for symmetric per-pair quantities.
//!
//! The simulation caches the distance and bearing of every unordered node
//! pair once per step.  Storing one cell per unordered pair, addressed by a
//! pure function of `(min index, max index, node count)`, keeps the cache
//! compact and allocation-free across steps.

use vstd::prelude::*;

verus! {

/// Flat offset of the first cell of row `i`: the pairs `(0, _)` through
/// `(i - 1, _)` come first, and row `t` holds `n - 1 - t` pairs.
pub open spec fn spec_row_start(i: int, n: int) -> int
    decreases i when i >= 0
{
    if i <= 0 {
        0
    } else {
        spec_row_start(i - 1, n) + (n - i)
    }
}

/// Number of unordered pairs among `n` items.
pub open spec fn spec_pair_count(n: int) -> int {
    spec_row_start(n, n)
}

/// Flat cell of the unordered pair `(i, j)` with `i < j`: pairs are laid out
/// row-major, `(0,1), (0,2), ..., (0,n-1), (1,2), ...`.
pub open spec fn spec_pair_index(i: int, j: int, n: int) -> int {
    spec_row_start(i, n) + (j - i - 1)
}

/// Closed form for the row offsets, stated without division.
pub proof fn lemma_row_start_doubled(i: int, n: int)
    requires
        0 <= i,
    ensures
        2 * spec_row_start(i, n) == i * (2 * n - i - 1),
    decreases i,
{
    if i > 0 {
        lemma_row_start_doubled(i - 1, n);
        assert(spec_row_start(i, n) == spec_row_start(i - 1, n) + (n - i));
        assert(2 * (spec_row_start(i - 1, n) + (n - i)) == i * (2 * n - i - 1))
            by (nonlinear_arith)
            requires
                2 * spec_row_start(i - 1, n) == (i - 1) * (2 * n - (i - 1) - 1),
        ;
    } else {
        assert(i * (2 * n - i - 1) == 0) by (nonlinear_arith)
            requires
                i == 0,
        ;
    }
}

/// Row offsets never decrease while the row is within the matrix.
pub proof fn lemma_row_start_monotonic(a: int, b: int, n: int)
    requires
        0 <= a <= b <= n,
    ensures
        spec_row_start(a, n) <= spec_row_start(b, n),
    decreases b - a,
{
    if a < b {
        lemma_row_start_monotonic(a, b - 1, n);
    }
}

/// Every cell of row `i` lies between the offsets of rows `i` and `i + 1`,
/// and within the pair count.
pub proof fn lemma_pair_index_range(i: int, j: int, n: int)
    requires
        0 <= i < j < n,
    ensures
        spec_row_start(i, n) <= spec_pair_index(i, j, n) < spec_row_start(i + 1, n),
        0 <= spec_pair_index(i, j, n) < spec_pair_count(n),
{
    lemma_row_start_monotonic(0, i, n);
    lemma_row_start_monotonic(i + 1, n, n);
}

/// Distinct unordered pairs occupy distinct cells.
pub proof fn lemma_pair_index_injective(i1: int, j1: int, i2: int, j2: int, n: int)
    requires
        0 <= i1 < j1 < n,
        0 <= i2 < j2 < n,
        spec_pair_index(i1, j1, n) == spec_pair_index(i2, j2, n),
    ensures
        i1 == i2,
        j1 == j2,
{
    lemma_pair_index_range(i1, j1, n);
    lemma_pair_index_range(i2, j2, n);
    if i1 < i2 {
        lemma_row_start_monotonic(i1 + 1, i2, n);
    } else if i2 < i1 {
        lemma_row_start_monotonic(i2 + 1, i1, n);
    }
}

/// Number of unordered pairs among `n` items; the bound keeps the
/// intermediate product within `usize`.
pub fn pair_count(n: usize) -> (c: usize)
    requires
        (n as int) * (n as int - 1) <= usize::MAX as int,
    ensures
        c == spec_pair_count(n as int),
{
    proof {
        lemma_row_start_doubled(n as int, n as int);
    }
    if n == 0 {
        0
    } else {
        n * (n - 1) / 2
    }
}

/// Flat cell of the unordered pair `(i, j)` with `i < j` among `n` items.
pub fn pair_index(i: usize, j: usize, n: usize) -> (r: usize)
    requires
        i < j,
        j < n,
        (n as int) * (n as int - 1) <= usize::MAX as int,
    ensures
        r == spec_pair_index(i as int, j as int, n as int),
        r < spec_pair_count(n as int),
{
    proof {
        lemma_row_start_doubled(i as int, n as int);
        lemma_pair_index_range(i as int, j as int, n as int);
        lemma_row_start_doubled(n as int, n as int);
        lemma_row_start_monotonic(i as int, n as int, n as int);
        if n >= 3 {
            assert(2 * n <= (n as int) * (n as int - 1)) by (nonlinear_arith)
                requires
                    n >= 3,
            ;
        }
        assert((i as int) * (2 * (n as int) - i as int - 1) <= (n as int) * (n as int - 1));
    }
    let row_start = i * (2 * n - i - 1) / 2;
    row_start + (j - i - 1)
}

/// Per-step cache of one symmetric per-pair quantity, one cell per unordered
/// pair of nodes.
pub struct HalfMatrix<T> {
    n: usize,
    cells: Vec<T>,
}

impl<T> HalfMatrix<T> {
    /// The cache holds exactly one cell per unordered pair, and the matrix
    /// is small enough for its flat indices to fit in `usize`.
    pub closed spec fn wf(self) -> bool {
        &&& self.cells@.len() == spec_pair_count(self.n as int)
        &&& (self.n as int) * (self.n as int - 1) <= usize::MAX as int
    }

    /// Number of items the cache covers.
    pub closed spec fn spec_n(self) -> int {
        self.n as int
    }

    /// Value cached for the unordered pair `{i, j}`; the order of the two
    /// indices does not matter.
    pub closed spec fn spec_get(self, i: int, j: int) -> T {
        if i < j {
            self.cells@[spec_pair_index(i, j, self.spec_n())]
        } else {
            self.cells@[spec_pair_index(j, i, self.spec_n())]
        }
    }

    /// One cell serves the pair in both orders: whatever quantity the cache
    /// holds is symmetric by construction, so a symmetric reading (distance)
    /// needs nothing more, and an anti-symmetric one (bearing) is recovered
    /// by the caller from the single stored value.
    pub proof fn lemma_get_symmetric(self, i: int, j: int)
        ensures
            self.spec_get(i, j) == self.spec_get(j, i),
    {
    }

    pub fn n(&self) -> (r: usize)
        ensures
            r == self.spec_n(),
    {
        self.n
    }

    /// Looks the pair up through the flat half-matrix index.
    pub fn get(&self, i: usize, j: usize) -> (v: &T)
        requires
            self.wf(),
            i < self.spec_n(),
            j < self.spec_n(),
            i != j,
        ensures
            *v == self.spec_get(i as int, j as int),
    {
        let (lo, hi) = if i < j {
            (i, j)
        } else {
            (j, i)
        };
        proof {
            lemma_pair_index_range(lo as int, hi as int, self.n as int);
        }
        let idx = pair_index(lo, hi, self.n);
        &self.cells[idx]
    }

    /// Overwrites the cell of the pair `{i, j}`; every other pair keeps its
    /// cached value.
    pub fn set(&mut self, i: usize, j: usize, v: T)
        requires
            old(self).wf(),
            i < old(self).spec_n(),
            j < old(self).spec_n(),
            i != j,
        ensures
            final(self).wf(),
            final(self).spec_n() == old(self).spec_n(),
            final(self).spec_get(i as int, j as int) == v,
            forall|a: int, b: int|
                0 <= a < old(self).spec_n() && 0 <= b < old(self).spec_n() && a != b && !((a == i
                    && b == j) || (a == j && b == i)) ==> final(self).spec_get(a, b) == old(
                    self,
                ).spec_get(a, b),
    {
        let (lo, hi) = if i < j {
            (i, j)
        } else {
            (j, i)
        };
        proof {
            lemma_pair_index_range(lo as int, hi as int, self.n as int);
        }
        let idx = pair_index(lo, hi, self.n);
        self.cells.set(idx, v);
        proof {
            assert forall|a: int, b: int|
                0 <= a < self.spec_n() && 0 <= b < self.spec_n() && a != b && !((a == i && b == j)
                    || (a == j && b == i)) implies self.spec_get(a, b) == old(self).spec_get(
                a,
                b,
            ) by {
                let alo = if a < b {
                    a
                } else {
                    b
                };
                let ahi = if a < b {
                    b
                } else {
                    a
                };
                lemma_pair_index_range(alo, ahi, self.n as int);
                if spec_pair_index(alo, ahi, self.n as int) == idx {
                    lemma_pair_index_injective(alo, ahi, lo as int, hi as int, self.n as int);
                }
            }
        }
    }
}

impl<T: Copy> HalfMatrix<T> {
    /// Fresh cache for `n` items with every pair's cell set to `fill`.
    pub fn new(n: usize, fill: T) -> (r: Self)
        requires
            (n as int) * (n as int - 1) <= usize::MAX as int,
        ensures
            r.wf(),
            r.spec_n() == n,
            forall|a: int, b: int|
                0 <= a < n && 0 <= b < n && a != b ==> r.spec_get(a, b) == fill,
    {
        let count = pair_count(n);
        let mut cells: Vec<T> = Vec::new();
        let mut k: usize = 0;
        while k < count
            invariant
                k <= count,
                cells@.len() == k,
                forall|m: int| 0 <= m < k ==> cells@[m] == fill,
            decreases count - k,
        {
            cells.push(fill);
            k = k + 1;
        }
        let r = HalfMatrix { n, cells };
        proof {
            assert forall|a: int, b: int|
                0 <= a < n && 0 <= b < n && a != b implies r.spec_get(a, b) == fill by {
                let alo = if a < b {
                    a
                } else {
                    b
                };
                let ahi = if a < b {
                    b
                } else {
                    a
                };
                lemma_pair_index_range(alo, ahi, n as int);
            }
        }
        r
    }
}

} // verus!
