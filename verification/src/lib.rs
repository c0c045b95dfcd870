//! Strategies for counting the odd integers in a rectangular grid.
//!
//! Every variant computes the same quantity: the number of elements of a
//! `Vec<Vec<i32>>` whose value is odd.  A purely sequential scan and a
//! functional-style scan run on the calling thread; the remaining variants
//! split the grid into contiguous row chunks and count the chunks on worker
//! threads, either spawned per call, drawn from a reusable pool, or managed
//! by a work-stealing data-parallel library.

mod data_parallel;
mod laws;
mod model;
mod parallel;
mod partition;
mod pool;
mod serial;

pub use model::grid_elem_count;
pub use model::grid_odd_count;
pub use model::is_odd;
pub use model::partitioned_result;
pub use model::range_odd_count;
pub use model::row_odd_count;
pub use model::valid_partition;
pub use laws::lemma_variants_agree;
pub use laws::lemma_partitioned_agree;
pub use laws::lemma_even_division_matches_serial;
pub use laws::lemma_uneven_division_rejected;
pub use laws::lemma_no_odds_counts_zero;
pub use data_parallel::sum_rayon;
pub use data_parallel::sum_rayon_flat;
pub use model::SumError;
pub use parallel::sum_parallel_bad_scoped;
pub use parallel::sum_parallel_good;
pub use pool::sum_thread_pool;
pub use serial::sum_odd_serial;
pub use serial::sum_odd_functional;
