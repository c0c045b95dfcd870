//! Mathematical model of the odd-count computation.
//!
//! The grid is modelled as a `Seq<Seq<i32>>`; the quantity every variant
//! computes is `grid_odd_count`, the number of odd elements over the whole
//! grid.  `range_odd_count` restricts the count to a half-open row range,
//! which is how the chunked parallel variants are specified.

use vstd::prelude::*;

verus! {

/// An element counts when its value is odd; parity ignores the sign.
pub open spec fn is_odd(x: i32) -> bool {
    x as int % 2 != 0
}

/// Number of odd elements in a single row.
pub open spec fn row_odd_count(row: Seq<i32>) -> int
    decreases row.len(),
{
    if row.len() == 0 {
        0
    } else {
        row_odd_count(row.drop_last()) + if is_odd(row.last()) {
            1int
        } else {
            0int
        }
    }
}

/// Number of odd elements in the rows of `g` with index in `[lo, hi)`.
pub open spec fn range_odd_count(g: Seq<Seq<i32>>, lo: int, hi: int) -> int
    decreases hi - lo,
{
    if lo >= hi {
        0
    } else {
        range_odd_count(g, lo, hi - 1) + row_odd_count(g[hi - 1])
    }
}

/// Number of odd elements in the whole grid.
pub open spec fn grid_odd_count(g: Seq<Seq<i32>>) -> int {
    range_odd_count(g, 0, g.len() as int)
}

/// Number of elements in the rows of `g` with index in `[lo, hi)`.
pub open spec fn range_elem_count(g: Seq<Seq<i32>>, lo: int, hi: int) -> int
    decreases hi - lo,
{
    if lo >= hi {
        0
    } else {
        range_elem_count(g, lo, hi - 1) + g[hi - 1].len()
    }
}

/// Total number of elements in the grid; it bounds every odd count, so a
/// grid whose element total fits in `i32` can be counted without overflow.
pub open spec fn grid_elem_count(g: Seq<Seq<i32>>) -> int {
    range_elem_count(g, 0, g.len() as int)
}

/// The single failure condition of the chunked parallel variants: the
/// requested thread count cannot partition the rows into equal chunks.
#[derive(Clone, Copy, Debug, PartialEq, Eq, Structural)]
pub enum SumError {
    InvalidPartition,
}

/// A thread count partitions `rows` rows evenly when it is at least one
/// and, for a non-empty grid, divides the row count without remainder
/// (which rules out counts above the row count).  An empty grid has no
/// rows to partition, so any positive thread count is accepted.
pub open spec fn valid_partition(rows: int, thread_count: int) -> bool {
    thread_count >= 1 && (rows == 0 || (thread_count <= rows && rows % thread_count == 0))
}

/// What every chunked parallel variant returns: the grid's odd count on a
/// valid partition, `InvalidPartition` otherwise.
pub open spec fn partitioned_result(
    g: Seq<Seq<i32>>,
    thread_count: int,
    r: Result<i32, SumError>,
) -> bool {
    if valid_partition(g.len() as int, thread_count) {
        r == Ok::<i32, SumError>(grid_odd_count(g) as i32)
    } else {
        r == Err::<i32, SumError>(SumError::InvalidPartition)
    }
}

/// Odd counts add over concatenation of element sequences.
pub proof fn lemma_row_count_concat(a: Seq<i32>, b: Seq<i32>)
    ensures
        row_odd_count(a + b) == row_odd_count(a) + row_odd_count(b),
    decreases b.len(),
{
    if b.len() == 0 {
        assert(a + b =~= a);
    } else {
        lemma_row_count_concat(a, b.drop_last());
        assert((a + b).drop_last() =~= a + b.drop_last());
        assert((a + b).last() == b.last());
    }
}

/// Row ranges that touch only rows shared by two grids count alike.
proof fn lemma_range_count_agrees(g1: Seq<Seq<i32>>, g2: Seq<Seq<i32>>, lo: int, hi: int)
    requires
        hi <= g1.len(),
        hi <= g2.len(),
        forall|i: int| lo <= i < hi ==> g1[i] == g2[i],
    ensures
        range_odd_count(g1, lo, hi) == range_odd_count(g2, lo, hi),
    decreases hi - lo,
{
    if lo < hi {
        lemma_range_count_agrees(g1, g2, lo, hi - 1);
    }
}

/// Counting the odd elements of the flattened grid counts the same
/// elements as summing the per-row counts: the two views of the grid agree.
pub proof fn lemma_flatten_odd_count(g: Seq<Seq<i32>>)
    ensures
        row_odd_count(g.flatten()) == grid_odd_count(g),
    decreases g.len(),
{
    g.lemma_flatten_and_flatten_alt_are_equivalent();
    if g.len() == 0 {
        assert(g.flatten_alt() =~= Seq::<i32>::empty());
    } else {
        lemma_flatten_odd_count(g.drop_last());
        g.drop_last().lemma_flatten_and_flatten_alt_are_equivalent();
        lemma_row_count_concat(g.drop_last().flatten_alt(), g.last());
        lemma_range_count_agrees(g, g.drop_last(), 0, g.len() - 1);
    }
}

/// Counting a prefix of a row range and then the rest counts each row once.
pub proof fn lemma_range_split(g: Seq<Seq<i32>>, lo: int, mid: int, hi: int)
    requires
        lo <= mid <= hi,
    ensures
        range_odd_count(g, lo, hi) == range_odd_count(g, lo, mid) + range_odd_count(g, mid, hi),
    decreases hi - mid,
{
    if mid < hi {
        lemma_range_split(g, lo, mid, hi - 1);
    }
}

/// A row's odd count is at least zero and at most the row's length.
pub proof fn lemma_row_count_bounds(row: Seq<i32>)
    ensures
        0 <= row_odd_count(row) <= row.len(),
    decreases row.len(),
{
    if row.len() > 0 {
        lemma_row_count_bounds(row.drop_last());
    }
}

/// Extending a row prefix never loses odd elements.
pub proof fn lemma_row_prefix_mono(row: Seq<i32>, j: int, k: int)
    requires
        0 <= j <= k <= row.len(),
    ensures
        row_odd_count(row.take(j)) <= row_odd_count(row.take(k)),
    decreases k - j,
{
    if j < k {
        lemma_row_prefix_mono(row, j, k - 1);
        assert(row.take(k).drop_last() =~= row.take(k - 1));
    }
}

/// Element totals of adjacent row ranges add up.
proof fn lemma_elem_split(g: Seq<Seq<i32>>, lo: int, mid: int, hi: int)
    requires
        lo <= mid <= hi,
    ensures
        range_elem_count(g, lo, hi) == range_elem_count(g, lo, mid) + range_elem_count(g, mid, hi),
    decreases hi - mid,
{
    if mid < hi {
        lemma_elem_split(g, lo, mid, hi - 1);
    }
}

/// An element total is never negative.
proof fn lemma_elem_nonneg(g: Seq<Seq<i32>>, lo: int, hi: int)
    ensures
        0 <= range_elem_count(g, lo, hi),
    decreases hi - lo,
{
    if lo < hi {
        lemma_elem_nonneg(g, lo, hi - 1);
    }
}

/// A row range's odd count lies between zero and the range's element total.
proof fn lemma_odd_le_elem(g: Seq<Seq<i32>>, lo: int, hi: int)
    ensures
        0 <= range_odd_count(g, lo, hi) <= range_elem_count(g, lo, hi),
    decreases hi - lo,
{
    if lo < hi {
        lemma_odd_le_elem(g, lo, hi - 1);
        lemma_row_count_bounds(g[hi - 1]);
    }
}

/// A single row is never longer than the grid's element total.
pub proof fn lemma_row_len_le_elem(g: Seq<Seq<i32>>, i: int)
    requires
        0 <= i < g.len(),
    ensures
        g[i].len() <= grid_elem_count(g),
{
    lemma_elem_split(g, 0, i, g.len() as int);
    lemma_elem_split(g, i, i + 1, g.len() as int);
    lemma_elem_nonneg(g, 0, i);
    lemma_elem_nonneg(g, i + 1, g.len() as int);
    assert(range_elem_count(g, i, i) == 0);
    assert(range_elem_count(g, i, i + 1) == g[i].len());
}

/// A row range's odd count is at least zero and at most the element total
/// of the whole grid.
pub proof fn lemma_range_count_bounds(g: Seq<Seq<i32>>, lo: int, hi: int)
    requires
        0 <= lo <= hi <= g.len(),
    ensures
        0 <= range_odd_count(g, lo, hi),
        range_odd_count(g, lo, hi) <= grid_elem_count(g),
{
    lemma_odd_le_elem(g, lo, hi);
    lemma_elem_split(g, 0, lo, hi);
    lemma_elem_split(g, 0, hi, g.len() as int);
    lemma_elem_nonneg(g, 0, lo);
    lemma_elem_nonneg(g, hi, g.len() as int);
}

} // verus!
