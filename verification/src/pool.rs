//! Chunked variant on a reusable fixed-size worker pool.
//!
//! Same chunking as the spawned-thread variants, but the chunk jobs are
//! submitted to a `scoped_threadpool::Pool` whose worker threads outlive
//! the call, and the partial counts are collected in submission order
//! before being reduced.

use vstd::prelude::*;

use crate::model::SumError;
use crate::model::grid_elem_count;
use crate::model::lemma_range_count_bounds;
use crate::model::partitioned_result;
use crate::model::range_odd_count;
use crate::partition::chunk_size_for;
use crate::partition::sum_partials;
use crate::serial::count_odds_range;

verus! {

/// `scoped_threadpool::Pool`, a fixed set of worker threads that scoped
/// jobs are submitted to.  The pool always holds at least one worker:
/// its constructor rejects an empty pool.
#[verifier::external_type_specification]
#[verifier::external_body]
pub struct ExPool(scoped_threadpool::Pool);

/// Relies on scoped_threadpool's Pool::scoped, which blocks until the
/// closure and every job submitted inside it have run to completion.  The
/// single job only runs the verified `count_odds_range` on the given row
/// range and stores its result, so no job can panic.
#[verifier::external_body]
fn count_range_on_pool(
    pool: &mut scoped_threadpool::Pool,
    matrix: &Vec<Vec<i32>>,
    lo: usize,
    hi: usize,
) -> (r: i32)
    requires
        lo <= hi <= matrix@.len(),
        grid_elem_count(matrix.deep_view()) <= i32::MAX,
    ensures
        r as int == range_odd_count(matrix.deep_view(), lo as int, hi as int),
{
    let mut partial: i32 = 0;
    pool.scoped(|scope| {
        scope.execute(|| {
            partial = count_odds_range(matrix, lo, hi);
        });
    });
    partial
}

/// Worker-pool variant: the same chunked algorithm as the message-passing
/// variant, but each chunk job runs on the given reusable pool; the
/// coordinator rendezvouses with each job in submission order and reduces
/// the collected partial counts.
pub fn sum_thread_pool(
    pool: &mut scoped_threadpool::Pool,
    matrix: &Vec<Vec<i32>>,
    thread_count: usize,
) -> (r: Result<i32, SumError>)
    requires
        grid_elem_count(matrix.deep_view()) <= i32::MAX,
    ensures
        partitioned_result(matrix.deep_view(), thread_count as int, r),
{
    let ghost g = matrix.deep_view();
    let rows: usize = matrix.len();
    let chunk_size: usize = match chunk_size_for(rows, thread_count) {
        Some(c) => c,
        None => {
            return Err(SumError::InvalidPartition);
        },
    };
    let mut partials: Vec<i32> = Vec::new();
    let mut lo: usize = 0;
    proof {
        assert(0 * chunk_size == 0) by (nonlinear_arith);
    }
    for k in 0..thread_count
        invariant
            g == matrix.deep_view(),
            grid_elem_count(g) <= i32::MAX,
            rows == matrix@.len(),
            thread_count * chunk_size == rows,
            lo == k * chunk_size,
            partials@.len() == k,
            forall|j: int|
                0 <= j < k ==> (#[trigger] partials@[j]) as int == range_odd_count(
                    g,
                    j * chunk_size,
                    (j + 1) * chunk_size,
                ),
    {
        proof {
            assert((k + 1) * chunk_size == k * chunk_size + chunk_size) by (nonlinear_arith);
            assert((k + 1) * chunk_size <= thread_count * chunk_size) by (nonlinear_arith)
                requires
                    k + 1 <= thread_count,
                    chunk_size >= 0,
            ;
            assert(k * chunk_size >= 0) by (nonlinear_arith)
                requires
                    k >= 0,
                    chunk_size >= 0,
            ;
        }
        let hi: usize = lo + chunk_size;
        let partial = count_range_on_pool(pool, matrix, lo, hi);
        partials.push(partial);
        lo = hi;
    }
    let total = sum_partials(&partials, Ghost(g), Ghost(chunk_size as int));
    proof {
        lemma_range_count_bounds(g, 0, g.len() as int);
    }
    Ok(total)
}

} // verus!
