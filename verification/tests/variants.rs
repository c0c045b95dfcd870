use odd_count::sum_odd_functional;
use odd_count::sum_odd_serial;
use odd_count::sum_parallel_bad_scoped;
use odd_count::sum_parallel_good;
use odd_count::sum_rayon;
use odd_count::sum_rayon_flat;
use odd_count::sum_thread_pool;
use scoped_threadpool::Pool;

fn small_matrix() -> Vec<Vec<i32>> {
    vec![vec![1, 2, 3, 4, 5, 6], vec![1, 2, 3, 4, 5, 6]]
}

#[test]
fn it_works() {
    let matrix = small_matrix();
    assert_eq!(6, sum_odd_serial(&matrix));
}

#[test]
fn test_funct() {
    let matrix = small_matrix();
    assert_eq!(6, sum_odd_functional(&matrix));
}

#[test]
fn test_bad_parralel() {
    let matrix = small_matrix();
    assert_eq!(6, sum_parallel_bad_scoped(&matrix, 2).unwrap());
}

#[test]
fn test_good_parralel() {
    let matrix = small_matrix();
    assert_eq!(6, sum_parallel_good(&matrix, 2).unwrap());
}

#[test]
fn test_rayon() {
    let matrix = small_matrix();
    assert_eq!(6, sum_rayon(&matrix));
}

#[test]
fn test_rayon_flat() {
    let matrix = small_matrix();
    assert_eq!(6, sum_rayon_flat(&matrix));
}

#[test]
fn test_thread_pool() {
    let matrix = small_matrix();
    let mut pool = Pool::new(2);
    assert_eq!(6, sum_thread_pool(&mut pool, &matrix, 2).unwrap());
}
