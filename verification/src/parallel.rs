//! Parallelism decisions of the host floating-point matrix product.

use vstd::prelude::*;

verus! {

/// Operation count (`M*N*K`) from which a single product uses parallel GEMM (192^3).
pub const PARALLEL_THRESHOLD: usize = 7077888usize;

/// Total operation count from which small batched products are parallelized
/// across batches (128^3).
pub const BATCH_PARALLEL_THRESHOLD: usize = 2097152usize;

/// Threading of one GEMM call.
#[derive(Clone, Copy, Debug, PartialEq, Eq, Structural)]
pub enum Parallelism {
    /// Single-threaded.
    Sequential,
    /// On the thread pool, with the given thread count (0: all threads).
    Rayon(usize),
}

/// `a * b`, saturating at `usize::MAX`.
pub open spec fn sat_mul(a: int, b: int) -> int {
    if a * b > usize::MAX {
        usize::MAX as int
    } else {
        a * b
    }
}

/// `a * b`, saturating at `usize::MAX`.
pub fn saturating_mul(a: usize, b: usize) -> (r: usize)
    ensures
        r == sat_mul(a as int, b as int),
{
    match a.checked_mul(b) {
        Some(v) => v,
        None => usize::MAX,
    }
}

/// Saturated operation count `M*N*K` of one product.
pub open spec fn op_count(m: int, n: int, k: int) -> int {
    sat_mul(sat_mul(m, n), k)
}

/// Threading of a single `M x K x N` product: parallel from the threshold on.
pub fn get_parallelism(m: usize, n: usize, k: usize) -> (r: Parallelism)
    ensures
        r == if op_count(m as int, n as int, k as int) >= PARALLEL_THRESHOLD {
            Parallelism::Rayon(0)
        } else {
            Parallelism::Sequential
        },
{
    let ops = saturating_mul(saturating_mul(m, n), k);
    if ops >= PARALLEL_THRESHOLD {
        Parallelism::Rayon(0)
    } else {
        Parallelism::Sequential
    }
}

/// How the products of a batch are scheduled.
#[derive(Clone, Copy, Debug, PartialEq, Eq, Structural)]
pub enum BatchSchedule {
    /// One product after the other, each with parallel GEMM (large matrices).
    EachParallel,
    /// Products spread across threads, each single-threaded (small matrices, much total work).
    AcrossBatches,
    /// One product after the other, single-threaded (little total work).
    Sequential,
}

/// Scheduling of `batch` products of size `M x K x N`: large matrices let
/// GEMM parallelize, unless at least 4 batches carry enough total work to
/// prefer batch parallelism; small matrices with enough total work (and more
/// than one batch) run across batches; the rest runs sequentially.
pub open spec fn schedule_of(batch: int, m: int, n: int, k: int) -> BatchSchedule {
    let per = op_count(m, n, k);
    let total = sat_mul(batch, per);
    let prefer_batch = batch >= 4 && total >= BATCH_PARALLEL_THRESHOLD;
    if per >= PARALLEL_THRESHOLD && !prefer_batch {
        BatchSchedule::EachParallel
    } else if total >= BATCH_PARALLEL_THRESHOLD && batch > 1 {
        BatchSchedule::AcrossBatches
    } else {
        BatchSchedule::Sequential
    }
}

/// The schedule of `batch` products of size `M x K x N` (see [`schedule_of`]).
pub fn batch_schedule(batch: usize, m: usize, n: usize, k: usize) -> (r: BatchSchedule)
    ensures
        r == schedule_of(batch as int, m as int, n as int, k as int),
{
    let per_matrix_ops = saturating_mul(saturating_mul(m, n), k);
    let total_ops = saturating_mul(batch, per_matrix_ops);
    let prefer_batch_parallel = batch >= 4 && total_ops >= BATCH_PARALLEL_THRESHOLD;
    if per_matrix_ops >= PARALLEL_THRESHOLD && !prefer_batch_parallel {
        BatchSchedule::EachParallel
    } else if total_ops >= BATCH_PARALLEL_THRESHOLD && batch > 1 {
        BatchSchedule::AcrossBatches
    } else {
        BatchSchedule::Sequential
    }
}

} // verus!
