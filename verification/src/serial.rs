//! Sequential variants: a plain nested scan and a functional-style scan.
//!
//! These two also supply the building blocks the parallel variants run on
//! worker threads: `is_odd_element`, `count_odds_row` and `count_odds_range`.

use vstd::prelude::*;

use crate::model::grid_elem_count;
use crate::model::grid_odd_count;
use crate::model::is_odd;
use crate::model::lemma_range_count_bounds;
use crate::model::lemma_row_count_bounds;
use crate::model::lemma_row_len_le_elem;
use crate::model::lemma_row_prefix_mono;
use crate::model::range_odd_count;
use crate::model::row_odd_count;

verus! {

/// Whether a single element is odd.
pub fn is_odd_element(x: i32) -> (r: bool)
    ensures
        r == is_odd(x),
{
    x % 2 != 0
}

/// Count the odd elements of one row.
pub fn count_odds_row(row: &Vec<i32>) -> (r: i32)
    requires
        row@.len() <= i32::MAX,
    ensures
        r as int == row_odd_count(row@),
{
    let mut acc: i32 = 0;
    let n: usize = row.len();
    for j in 0..n
        invariant
            n == row@.len(),
            n <= i32::MAX,
            acc as int == row_odd_count(row@.take(j as int)),
    {
        proof {
            lemma_row_count_bounds(row@.take(j as int));
            assert(row@.take(j + 1).drop_last() =~= row@.take(j as int));
            assert(row@.take(j + 1).last() == row@[j as int]);
        }
        if is_odd_element(row[j]) {
            acc = acc + 1;
        }
    }
    proof {
        assert(row@.take(n as int) =~= row@);
    }
    acc
}

/// Count the odd elements in the rows of `matrix` with index in `[lo, hi)`.
pub fn count_odds_range(matrix: &Vec<Vec<i32>>, lo: usize, hi: usize) -> (r: i32)
    requires
        lo <= hi <= matrix@.len(),
        grid_elem_count(matrix.deep_view()) <= i32::MAX,
    ensures
        r as int == range_odd_count(matrix.deep_view(), lo as int, hi as int),
{
    let ghost g = matrix.deep_view();
    let mut acc: i32 = 0;
    let mut i: usize = lo;
    while i < hi
        invariant
            lo <= i <= hi <= matrix@.len(),
            g == matrix.deep_view(),
            grid_elem_count(g) <= i32::MAX,
            acc as int == range_odd_count(g, lo as int, i as int),
        decreases hi - i,
    {
        proof {
            assert(g[i as int] =~= matrix@[i as int]@);
            lemma_range_count_bounds(g, lo as int, i + 1);
            lemma_range_count_bounds(g, lo as int, i as int);
            lemma_row_count_bounds(g[i as int]);
            lemma_row_len_le_elem(g, i as int);
        }
        let row_count = count_odds_row(&matrix[i]);
        acc = acc + row_count;
        i = i + 1;
    }
    acc
}

/// Sequential scan: walk every element once, incrementing a counter on each
/// odd value.
pub fn sum_odd_serial(matrix: &Vec<Vec<i32>>) -> (r: i32)
    requires
        grid_elem_count(matrix.deep_view()) <= i32::MAX,
    ensures
        r as int == grid_odd_count(matrix.deep_view()),
{
    count_odds_range(matrix, 0, matrix.len())
}

/// Functional-style scan: treat the grid as one flattened stream of
/// elements and count those that are odd.
pub fn sum_odd_functional(matrix: &Vec<Vec<i32>>) -> (r: i32)
    requires
        grid_elem_count(matrix.deep_view()) <= i32::MAX,
    ensures
        r as int == grid_odd_count(matrix.deep_view()),
{
    let ghost g = matrix.deep_view();
    let mut acc: i32 = 0;
    let n: usize = matrix.len();
    for i in 0..n
        invariant
            n == matrix@.len(),
            g == matrix.deep_view(),
            grid_elem_count(g) <= i32::MAX,
            acc as int == range_odd_count(g, 0, i as int),
    {
        let row = &matrix[i];
        let m: usize = row.len();
        for j in 0..m
            invariant
                n == matrix@.len(),
                g == matrix.deep_view(),
                grid_elem_count(g) <= i32::MAX,
                i < n,
                m == row@.len(),
                row@ == matrix@[i as int]@,
                acc as int == range_odd_count(g, 0, i as int) + row_odd_count(row@.take(j as int)),
        {
            proof {
                assert(g[i as int] =~= row@);
                lemma_range_count_bounds(g, 0, i as int);
                lemma_range_count_bounds(g, 0, i + 1);
                lemma_row_count_bounds(row@.take(j + 1));
                lemma_row_count_bounds(row@.take(j as int));
                assert(row@.take(j + 1).drop_last() =~= row@.take(j as int));
                assert(row@.take(j + 1).last() == row@[j as int]);
                assert(row@.take(m as int) =~= row@);
                lemma_row_prefix_mono(row@, j + 1, m as int);
            }
            if is_odd_element(row[j]) {
                acc = acc + 1;
            }
        }
        proof {
            assert(row@.take(m as int) =~= row@);
            assert(g[i as int] =~= row@);
        }
    }
    acc
}

} // verus!
