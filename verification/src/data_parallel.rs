//! Data-parallel variants on rayon's work-stealing parallel iterators.
//!
//! One variant maps each row to its own odd count and sums the per-row
//! counts; the other filters the fully flattened element stream and counts
//! what survives.  The equivalence of the flattened count with the row-wise
//! total is `lemma_flatten_odd_count`, proved in the model.

use vstd::prelude::*;

use crate::model::grid_elem_count;
use crate::model::grid_odd_count;
use crate::model::lemma_flatten_odd_count;
use crate::model::row_odd_count;
use crate::serial::count_odds_row;
use crate::serial::is_odd_element;
use rayon::iter::IntoParallelRefIterator;
use rayon::iter::ParallelIterator;

verus! {

/// Relies on rayon's par_iter, map and sum over the grid's rows: every row
/// is passed exactly once through the closure — which only runs the
/// verified `count_odds_row` — and the per-row counts are added up, which
/// is the definition of the grid's odd count.
#[verifier::external_body]
fn count_rows_data_parallel(matrix: &Vec<Vec<i32>>) -> (r: i32)
    requires
        grid_elem_count(matrix.deep_view()) <= i32::MAX,
    ensures
        r as int == grid_odd_count(matrix.deep_view()),
{
    matrix.par_iter().map(|row| count_odds_row(row)).sum()
}

/// Relies on rayon's par_iter, flat_map, filter and count: the grid's rows
/// are flattened into one element stream, the closure — which only runs
/// the verified `is_odd_element` — keeps the odd elements, and the
/// survivors are counted.
#[verifier::external_body]
fn count_flat_data_parallel(matrix: &Vec<Vec<i32>>) -> (r: i32)
    requires
        grid_elem_count(matrix.deep_view()) <= i32::MAX,
    ensures
        r as int == row_odd_count(matrix.deep_view().flatten()),
{
    let n: usize = matrix.par_iter().flat_map(|row| row).filter(|x| is_odd_element(**x)).count();
    n as i32
}

/// Row-wise data-parallel variant: map each row to a local count on the
/// work-stealing pool, then sum the counts.
pub fn sum_rayon(matrix: &Vec<Vec<i32>>) -> (r: i32)
    requires
        grid_elem_count(matrix.deep_view()) <= i32::MAX,
    ensures
        r as int == grid_odd_count(matrix.deep_view()),
{
    count_rows_data_parallel(matrix)
}

/// Flattened data-parallel variant: filter the odd elements out of the
/// whole element stream and count them.
pub fn sum_rayon_flat(matrix: &Vec<Vec<i32>>) -> (r: i32)
    requires
        grid_elem_count(matrix.deep_view()) <= i32::MAX,
    ensures
        r as int == grid_odd_count(matrix.deep_view()),
{
    let r = count_flat_data_parallel(matrix);
    proof {
        lemma_flatten_odd_count(matrix.deep_view());
    }
    r
}

} // verus!
