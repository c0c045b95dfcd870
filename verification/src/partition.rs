//! Chunking shared by the parallel variants.
//!
//! Every parallel variant splits the grid into `thread_count` contiguous
//! row chunks of equal size, hands each chunk to one task, and reduces the
//! partial counts.  `chunk_size_for` decides whether a thread count can
//! partition the rows evenly, and `sum_partials` performs the reduction.

use vstd::prelude::*;

use crate::model::grid_elem_count;
use crate::model::grid_odd_count;
use crate::model::lemma_range_count_bounds;
use crate::model::lemma_range_split;
use crate::model::range_odd_count;
use crate::model::valid_partition;
use vstd::arithmetic::div_mod::lemma_fundamental_div_mod;

verus! {

/// Decide whether `thread_count` partitions `rows` rows into equal chunks;
/// on success return the common chunk size.
pub(crate) fn chunk_size_for(rows: usize, thread_count: usize) -> (r: Option<usize>)
    ensures
        match r {
            Some(cs) => valid_partition(rows as int, thread_count as int) && thread_count * cs
                == rows,
            None => !valid_partition(rows as int, thread_count as int),
        },
{
    if thread_count == 0 {
        return None;
    }
    if rows == 0 {
        proof {
            assert(thread_count * 0 == 0) by (nonlinear_arith);
        }
        return Some(0);
    }
    if thread_count > rows || rows % thread_count != 0 {
        return None;
    }
    let cs: usize = rows / thread_count;
    proof {
        lemma_fundamental_div_mod(rows as int, thread_count as int);
    }
    Some(cs)
}

/// Reduce per-chunk partial counts to the grid's odd count.  Slot `j` must
/// hold the count of chunk `j`, the rows `[j * cs, (j + 1) * cs)`.
pub(crate) fn sum_partials(
    partials: &Vec<i32>,
    Ghost(g): Ghost<Seq<Seq<i32>>>,
    Ghost(cs): Ghost<int>,
) -> (r: i32)
    requires
        cs >= 0,
        grid_elem_count(g) <= i32::MAX,
        partials@.len() * cs == g.len(),
        forall|j: int|
            0 <= j < partials@.len() ==> (#[trigger] partials@[j]) as int == range_odd_count(
                g,
                j * cs,
                (j + 1) * cs,
            ),
    ensures
        r as int == grid_odd_count(g),
{
    let mut acc: i32 = 0;
    let n: usize = partials.len();
    for k in 0..n
        invariant
            n == partials@.len(),
            cs >= 0,
            grid_elem_count(g) <= i32::MAX,
            n * cs == g.len(),
            forall|j: int|
                0 <= j < n ==> (#[trigger] partials@[j]) as int == range_odd_count(
                    g,
                    j * cs,
                    (j + 1) * cs,
                ),
            acc as int == range_odd_count(g, 0, k * cs),
    {
        proof {
            assert(k * cs >= 0) by (nonlinear_arith)
                requires
                    k >= 0,
                    cs >= 0,
            ;
            assert((k + 1) * cs == k * cs + cs) by (nonlinear_arith);
            assert((k + 1) * cs <= n * cs) by (nonlinear_arith)
                requires
                    k + 1 <= n,
                    cs >= 0,
            ;
            lemma_range_split(g, 0, k * cs, (k + 1) * cs);
            lemma_range_count_bounds(g, 0, (k + 1) * cs);
            lemma_range_count_bounds(g, 0, k * cs);
            lemma_range_count_bounds(g, k * cs, (k + 1) * cs);
        }
        acc = acc + partials[k];
    }
    acc
}

} // verus!
