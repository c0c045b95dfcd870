use odd_count::SumError;
use odd_count::sum_odd_functional;
use odd_count::sum_odd_serial;
use odd_count::sum_parallel_bad_scoped;
use odd_count::sum_parallel_good;
use odd_count::sum_rayon;
use odd_count::sum_rayon_flat;
use odd_count::sum_thread_pool;
use scoped_threadpool::Pool;

fn small_matrix() -> Vec<Vec<i32>> {
    vec![vec![1, 2, 3, 4, 5, 6], vec![1, 2, 3, 4, 5, 6]]
}

#[test]
fn all_variants_agree_on_mixed_grid() {
    let matrix = vec![vec![7, -4, 0, 9], vec![-3, -2, 11, 12], vec![5, 5, 5, 5], vec![2, 4, 6, 8]];
    let expected = sum_odd_serial(&matrix);
    assert_eq!(expected, 8);
    assert_eq!(expected, sum_odd_functional(&matrix));
    assert_eq!(expected, sum_rayon(&matrix));
    assert_eq!(expected, sum_rayon_flat(&matrix));
    assert_eq!(Ok(expected), sum_parallel_bad_scoped(&matrix, 2));
    assert_eq!(Ok(expected), sum_parallel_good(&matrix, 4));
    let mut pool = Pool::new(2);
    assert_eq!(Ok(expected), sum_thread_pool(&mut pool, &matrix, 1));
}

#[test]
fn empty_grid_counts_zero() {
    let matrix: Vec<Vec<i32>> = Vec::new();
    assert_eq!(0, sum_odd_serial(&matrix));
    assert_eq!(0, sum_odd_functional(&matrix));
    assert_eq!(0, sum_rayon(&matrix));
    assert_eq!(0, sum_rayon_flat(&matrix));
    assert_eq!(Ok(0), sum_parallel_bad_scoped(&matrix, 1));
    assert_eq!(Ok(0), sum_parallel_good(&matrix, 3));
    let mut pool = Pool::new(1);
    assert_eq!(Ok(0), sum_thread_pool(&mut pool, &matrix, 2));
}

#[test]
fn grid_of_empty_rows_counts_zero() {
    let matrix: Vec<Vec<i32>> = vec![Vec::new(), Vec::new()];
    assert_eq!(0, sum_odd_serial(&matrix));
    assert_eq!(0, sum_odd_functional(&matrix));
    assert_eq!(0, sum_rayon_flat(&matrix));
    assert_eq!(Ok(0), sum_parallel_good(&matrix, 2));
}

#[test]
fn all_even_grid_counts_zero() {
    let matrix = vec![vec![0, 2, -4], vec![6, 8, 10], vec![-2, 100, 64]];
    assert_eq!(0, sum_odd_serial(&matrix));
    assert_eq!(0, sum_odd_functional(&matrix));
    assert_eq!(0, sum_rayon(&matrix));
    assert_eq!(0, sum_rayon_flat(&matrix));
    assert_eq!(Ok(0), sum_parallel_bad_scoped(&matrix, 3));
    assert_eq!(Ok(0), sum_parallel_good(&matrix, 1));
    let mut pool = Pool::new(3);
    assert_eq!(Ok(0), sum_thread_pool(&mut pool, &matrix, 3));
}

#[test]
fn negative_odd_values_count() {
    let matrix = vec![vec![-3, -2, -1, 0], vec![i32::MIN, i32::MIN + 1, i32::MAX, 1]];
    assert_eq!(5, sum_odd_serial(&matrix));
    assert_eq!(5, sum_odd_functional(&matrix));
    assert_eq!(5, sum_rayon(&matrix));
    assert_eq!(5, sum_rayon_flat(&matrix));
    assert_eq!(Ok(5), sum_parallel_good(&matrix, 2));
}

#[test]
fn even_divisions_match_serial() {
    let matrix = vec![vec![1], vec![2], vec![3], vec![4], vec![5], vec![6]];
    let expected = sum_odd_serial(&matrix);
    assert_eq!(expected, 3);
    for tc in [1, 2, 3, 6] {
        assert_eq!(Ok(expected), sum_parallel_bad_scoped(&matrix, tc));
        assert_eq!(Ok(expected), sum_parallel_good(&matrix, tc));
        let mut pool = Pool::new(tc as u32);
        assert_eq!(Ok(expected), sum_thread_pool(&mut pool, &matrix, tc));
    }
}

#[test]
fn uneven_division_is_rejected() {
    let matrix = vec![vec![1, 2], vec![3, 4], vec![5, 6], vec![7, 8]];
    let mut pool = Pool::new(2);
    for tc in [3, 5, 7] {
        assert_eq!(Err(SumError::InvalidPartition), sum_parallel_bad_scoped(&matrix, tc));
        assert_eq!(Err(SumError::InvalidPartition), sum_parallel_good(&matrix, tc));
        assert_eq!(Err(SumError::InvalidPartition), sum_thread_pool(&mut pool, &matrix, tc));
    }
}

#[test]
fn zero_thread_count_is_rejected() {
    let matrix = small_matrix();
    assert_eq!(Err(SumError::InvalidPartition), sum_parallel_bad_scoped(&matrix, 0));
    assert_eq!(Err(SumError::InvalidPartition), sum_parallel_good(&matrix, 0));
    let mut pool = Pool::new(1);
    assert_eq!(Err(SumError::InvalidPartition), sum_thread_pool(&mut pool, &matrix, 0));
    let empty: Vec<Vec<i32>> = Vec::new();
    assert_eq!(Err(SumError::InvalidPartition), sum_parallel_good(&empty, 0));
}

#[test]
fn thread_count_above_row_count_is_rejected() {
    let matrix = small_matrix();
    assert_eq!(Err(SumError::InvalidPartition), sum_parallel_bad_scoped(&matrix, 3));
    assert_eq!(Err(SumError::InvalidPartition), sum_parallel_good(&matrix, 5));
    let mut pool = Pool::new(2);
    assert_eq!(Err(SumError::InvalidPartition), sum_thread_pool(&mut pool, &matrix, 4));
}

#[test]
fn repeated_calls_agree() {
    let matrix = small_matrix();
    assert_eq!(sum_odd_serial(&matrix), sum_odd_serial(&matrix));
    assert_eq!(sum_odd_functional(&matrix), sum_odd_functional(&matrix));
    assert_eq!(sum_rayon(&matrix), sum_rayon(&matrix));
    assert_eq!(sum_rayon_flat(&matrix), sum_rayon_flat(&matrix));
    assert_eq!(sum_parallel_bad_scoped(&matrix, 2), sum_parallel_bad_scoped(&matrix, 2));
    assert_eq!(sum_parallel_good(&matrix, 2), sum_parallel_good(&matrix, 2));
    assert_eq!(sum_parallel_good(&matrix, 3), sum_parallel_good(&matrix, 3));
    let mut pool = Pool::new(2);
    assert_eq!(
        sum_thread_pool(&mut pool, &matrix, 2),
        sum_thread_pool(&mut pool, &matrix, 2)
    );
}

#[test]
fn pool_survives_repeated_use() {
    let matrix = vec![vec![1, 3, 5], vec![2, 4, 6], vec![7, 9, 11], vec![8, 10, 12]];
    let mut pool = Pool::new(4);
    assert_eq!(Ok(6), sum_thread_pool(&mut pool, &matrix, 4));
    assert_eq!(Ok(6), sum_thread_pool(&mut pool, &matrix, 2));
    assert_eq!(Err(SumError::InvalidPartition), sum_thread_pool(&mut pool, &matrix, 3));
    assert_eq!(Ok(6), sum_thread_pool(&mut pool, &matrix, 1));
}

#[test]
fn single_element_grid() {
    let matrix = vec![vec![41]];
    assert_eq!(1, sum_odd_serial(&matrix));
    assert_eq!(1, sum_odd_functional(&matrix));
    assert_eq!(1, sum_rayon(&matrix));
    assert_eq!(1, sum_rayon_flat(&matrix));
    assert_eq!(Ok(1), sum_parallel_bad_scoped(&matrix, 1));
    assert_eq!(Ok(1), sum_parallel_good(&matrix, 1));
    let mut pool = Pool::new(1);
    assert_eq!(Ok(1), sum_thread_pool(&mut pool, &matrix, 1));
}
