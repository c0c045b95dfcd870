//! Properties that relate the variants to each other.
//!
//! Every variant's contract pins its result to `grid_odd_count`, so the
//! facts below — agreement across variants, agreement across repeated
//! calls, agreement of the parallel variants with the serial scan, and the
//! rejection of uneven partitions — follow from the contracts alone and
//! are stated here once for all variants.

use vstd::prelude::*;

use crate::model::SumError;
use crate::model::grid_odd_count;
use crate::model::is_odd;
use crate::model::partitioned_result;
use crate::model::range_odd_count;
use crate::model::row_odd_count;
use crate::model::valid_partition;

verus! {

/// Cross-variant equivalence, and idempotence, of the total variants:
/// any two results that the contracts of `sum_odd_serial`,
/// `sum_odd_functional`, `sum_rayon` or `sum_rayon_flat` allow for the
/// same grid are equal — whether they come from two different variants or
/// from calling one variant twice.
pub proof fn lemma_variants_agree(g: Seq<Seq<i32>>, r1: i32, r2: i32)
    requires
        r1 as int == grid_odd_count(g),
        r2 as int == grid_odd_count(g),
    ensures
        r1 == r2,
{
}

/// Cross-variant equivalence, and idempotence, of the chunked parallel
/// variants: for one grid and one thread count, any two results that the
/// contracts of `sum_parallel_bad_scoped`, `sum_parallel_good` or
/// `sum_thread_pool` allow are equal, down to the error case.
pub proof fn lemma_partitioned_agree(
    g: Seq<Seq<i32>>,
    thread_count: int,
    r1: Result<i32, SumError>,
    r2: Result<i32, SumError>,
)
    requires
        partitioned_result(g, thread_count, r1),
        partitioned_result(g, thread_count, r2),
    ensures
        r1 == r2,
{
}

/// On a thread count that partitions the rows evenly, every chunked
/// parallel variant returns exactly what the serial scan returns.
pub proof fn lemma_even_division_matches_serial(
    g: Seq<Seq<i32>>,
    thread_count: int,
    r: Result<i32, SumError>,
    serial: i32,
)
    requires
        valid_partition(g.len() as int, thread_count),
        partitioned_result(g, thread_count, r),
        serial as int == grid_odd_count(g),
    ensures
        r == Ok::<i32, SumError>(serial),
{
}

/// On a thread count that cannot partition the rows evenly, every chunked
/// parallel variant reports `InvalidPartition` rather than dropping rows.
pub proof fn lemma_uneven_division_rejected(
    g: Seq<Seq<i32>>,
    thread_count: int,
    r: Result<i32, SumError>,
)
    requires
        !valid_partition(g.len() as int, thread_count),
        partitioned_result(g, thread_count, r),
    ensures
        r == Err::<i32, SumError>(SumError::InvalidPartition),
{
}

/// A row without odd elements counts zero.
proof fn lemma_row_all_even_zero(row: Seq<i32>)
    requires
        forall|j: int| 0 <= j < row.len() ==> !is_odd(#[trigger] row[j]),
    ensures
        row_odd_count(row) == 0,
    decreases row.len(),
{
    if row.len() > 0 {
        assert forall|j: int| 0 <= j < row.drop_last().len() implies !is_odd(
            #[trigger] row.drop_last()[j],
        ) by {
            assert(row.drop_last()[j] == row[j]);
        }
        lemma_row_all_even_zero(row.drop_last());
    }
}

/// A row range without odd elements counts zero.
proof fn lemma_range_all_even_zero(g: Seq<Seq<i32>>, lo: int, hi: int)
    requires
        0 <= lo,
        hi <= g.len(),
        forall|i: int, j: int|
            0 <= i < g.len() && 0 <= j < g[i].len() ==> !is_odd(#[trigger] g[i][j]),
    ensures
        range_odd_count(g, lo, hi) == 0,
    decreases hi - lo,
{
    if lo < hi {
        lemma_range_all_even_zero(g, lo, hi - 1);
        lemma_row_all_even_zero(g[hi - 1]);
    }
}

/// A grid with no odd elements counts zero; in particular the empty grid
/// counts zero, so every variant returns zero on it.
pub proof fn lemma_no_odds_counts_zero(g: Seq<Seq<i32>>)
    requires
        forall|i: int, j: int|
            0 <= i < g.len() && 0 <= j < g[i].len() ==> !is_odd(#[trigger] g[i][j]),
    ensures
        grid_odd_count(g) == 0,
{
    lemma_range_all_even_zero(g, 0, g.len() as int);
}

} // verus!
