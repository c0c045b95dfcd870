//! Chunked parallel variants on spawned scoped threads.
//!
//! Both variants split the grid into equal row chunks and count each chunk
//! on a worker thread.  `sum_parallel_bad_scoped` keeps one private
//! accumulator slot per task in a shared slot container — safe only because
//! no two tasks ever touch the same slot — and sums the slots afterwards.
//! `sum_parallel_good` keeps no shared state at all: each task returns its
//! partial count and the coordinator reduces them.

use vstd::prelude::*;

use crate::model::SumError;
use crate::model::grid_elem_count;
use crate::model::lemma_range_count_bounds;
use crate::model::partitioned_result;
use crate::model::range_odd_count;
use crate::partition::chunk_size_for;
use crate::partition::sum_partials;
use crate::serial::count_odds_range;

verus! {

/// Relies on crossbeam::scope and ScopedJoinHandle::join: the scope blocks
/// until the spawned thread finishes, and join hands back the closure's
/// result.  The closure only runs the verified `count_odds_range` on the
/// given row range, so neither the thread nor the scope can panic.
#[verifier::external_body]
fn count_range_on_thread(matrix: &Vec<Vec<i32>>, lo: usize, hi: usize) -> (r: i32)
    requires
        lo <= hi <= matrix@.len(),
        grid_elem_count(matrix.deep_view()) <= i32::MAX,
    ensures
        r as int == range_odd_count(matrix.deep_view(), lo as int, hi as int),
{
    crossbeam::scope(|scope| scope.spawn(|_| count_odds_range(matrix, lo, hi)).join().unwrap())
        .unwrap()
}

/// Shared-slot variant: one task per chunk, each task confined to its own
/// slot of a shared counters container, the slots summed afterwards.  The
/// pattern is safe only because the slot indices never overlap.
pub fn sum_parallel_bad_scoped(matrix: &Vec<Vec<i32>>, thread_count: usize) -> (r: Result<
    i32,
    SumError,
>)
    requires
        grid_elem_count(matrix.deep_view()) <= i32::MAX,
    ensures
        partitioned_result(matrix.deep_view(), thread_count as int, r),
{
    let ghost g = matrix.deep_view();
    let rows: usize = matrix.len();
    let chunk_size: usize = match chunk_size_for(rows, thread_count) {
        Some(c) => c,
        None => {
            return Err(SumError::InvalidPartition);
        },
    };
    let mut counters: Vec<i32> = Vec::new();
    for k in 0..thread_count
        invariant
            counters@.len() == k,
    {
        counters.push(0);
    }
    let mut lo: usize = 0;
    proof {
        assert(0 * chunk_size == 0) by (nonlinear_arith);
    }
    for k in 0..thread_count
        invariant
            g == matrix.deep_view(),
            grid_elem_count(g) <= i32::MAX,
            rows == matrix@.len(),
            thread_count * chunk_size == rows,
            lo == k * chunk_size,
            counters@.len() == thread_count,
            forall|j: int|
                0 <= j < k ==> (#[trigger] counters@[j]) as int == range_odd_count(
                    g,
                    j * chunk_size,
                    (j + 1) * chunk_size,
                ),
    {
        proof {
            assert((k + 1) * chunk_size == k * chunk_size + chunk_size) by (nonlinear_arith);
            assert((k + 1) * chunk_size <= thread_count * chunk_size) by (nonlinear_arith)
                requires
                    k + 1 <= thread_count,
                    chunk_size >= 0,
            ;
            assert(k * chunk_size >= 0) by (nonlinear_arith)
                requires
                    k >= 0,
                    chunk_size >= 0,
            ;
        }
        let hi: usize = lo + chunk_size;
        counters[k] = count_range_on_thread(matrix, lo, hi);
        lo = hi;
    }
    let total = sum_partials(&counters, Ghost(g), Ghost(chunk_size as int));
    proof {
        lemma_range_count_bounds(g, 0, g.len() as int);
    }
    Ok(total)
}

/// Message-passing variant: one task per chunk, each task computes its
/// partial count in isolation and returns it; the coordinator collects the
/// partials in submission order and reduces them.  No state is shared
/// between tasks.
pub fn sum_parallel_good(matrix: &Vec<Vec<i32>>, thread_count: usize) -> (r: Result<
    i32,
    SumError,
>)
    requires
        grid_elem_count(matrix.deep_view()) <= i32::MAX,
    ensures
        partitioned_result(matrix.deep_view(), thread_count as int, r),
{
    let ghost g = matrix.deep_view();
    let rows: usize = matrix.len();
    let chunk_size: usize = match chunk_size_for(rows, thread_count) {
        Some(c) => c,
        None => {
            return Err(SumError::InvalidPartition);
        },
    };
    let mut partials: Vec<i32> = Vec::new();
    let mut lo: usize = 0;
    proof {
        assert(0 * chunk_size == 0) by (nonlinear_arith);
    }
    for k in 0..thread_count
        invariant
            g == matrix.deep_view(),
            grid_elem_count(g) <= i32::MAX,
            rows == matrix@.len(),
            thread_count * chunk_size == rows,
            lo == k * chunk_size,
            partials@.len() == k,
            forall|j: int|
                0 <= j < k ==> (#[trigger] partials@[j]) as int == range_odd_count(
                    g,
                    j * chunk_size,
                    (j + 1) * chunk_size,
                ),
    {
        proof {
            assert((k + 1) * chunk_size == k * chunk_size + chunk_size) by (nonlinear_arith);
            assert((k + 1) * chunk_size <= thread_count * chunk_size) by (nonlinear_arith)
                requires
                    k + 1 <= thread_count,
                    chunk_size >= 0,
            ;
            assert(k * chunk_size >= 0) by (nonlinear_arith)
                requires
                    k >= 0,
                    chunk_size >= 0,
            ;
        }
        let hi: usize = lo + chunk_size;
        let partial = count_range_on_thread(matrix, lo, hi);
        partials.push(partial);
        lo = hi;
    }
    let total = sum_partials(&partials, Ghost(g), Ghost(chunk_size as int));
    proof {
        lemma_range_count_bounds(g, 0, g.len() as int);
    }
    Ok(total)
}

} // verus!
