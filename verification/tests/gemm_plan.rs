use rublas::gemm_plan::{
    batch_offsets_within, check_float_matmul, gemm_plan, FloatMatmulError, GemmCall,
};
use rublas::parallel::BatchSchedule;
use rublas::shape::StridedLayout;

fn layout(shape: &[usize], strides: &[isize], start_offset: usize) -> StridedLayout {
    StridedLayout { shape: shape.to_vec(), strides: strides.to_vec(), start_offset }
}

fn call(lhs_offset: isize, rhs_offset: isize, out_offset: usize) -> GemmCall {
    GemmCall { lhs_offset, rhs_offset, out_offset }
}

#[test]
fn plan_of_two_matrices_is_one_call_at_the_starts() {
    let lhs = layout(&[2, 3], &[3, 1], 5);
    let rhs = layout(&[3, 4], &[1, 3], 2);
    assert_eq!(check_float_matmul(&lhs, &rhs), Ok(()));
    let p = gemm_plan(&lhs, &rhs);
    assert_eq!(p.out_shape, vec![2, 4]);
    assert_eq!((p.m, p.n, p.k), (2, 4, 3));
    assert_eq!((p.lhs_row_stride, p.lhs_col_stride), (3, 1));
    assert_eq!((p.rhs_row_stride, p.rhs_col_stride), (1, 3));
    assert_eq!(p.calls, vec![call(5, 2, 0)]);
    assert_eq!(p.schedule, BatchSchedule::Sequential);
}

#[test]
fn plan_of_transposed_batches_follows_the_strides() {
    // [2, 2, 2] x ([2, 2, 2] with its matrix axes swapped).
    let lhs = layout(&[2, 2, 2], &[4, 2, 1], 0);
    let rhs = layout(&[2, 2, 2], &[4, 1, 2], 0);
    assert_eq!(check_float_matmul(&lhs, &rhs), Ok(()));
    let p = gemm_plan(&lhs, &rhs);
    assert_eq!(p.out_shape, vec![2, 2, 2]);
    assert_eq!((p.rhs_row_stride, p.rhs_col_stride), (1, 2));
    assert_eq!(p.calls, vec![call(0, 0, 0), call(4, 4, 4)]);
}

#[test]
fn plan_broadcasts_a_plain_matrix_over_the_batches() {
    let lhs = layout(&[3, 2, 2], &[4, 2, 1], 0);
    let rhs = layout(&[2, 2], &[2, 1], 7);
    let p = gemm_plan(&lhs, &rhs);
    assert_eq!(p.out_shape, vec![3, 2, 2]);
    assert_eq!(p.calls, vec![call(0, 7, 0), call(4, 7, 4), call(8, 7, 8)]);
}

#[test]
fn plan_broadcasts_both_operands() {
    // [2, 1, M, K] x [3, K, N] -> [2, 3, M, N], M = K = N = 1.
    let lhs = layout(&[2, 1, 1, 1], &[1, 1, 1, 1], 0);
    let rhs = layout(&[3, 1, 1], &[1, 1, 1], 0);
    let p = gemm_plan(&lhs, &rhs);
    assert_eq!(p.out_shape, vec![2, 3, 1, 1]);
    let lhs_offsets: Vec<isize> = p.calls.iter().map(|c| c.lhs_offset).collect();
    let rhs_offsets: Vec<isize> = p.calls.iter().map(|c| c.rhs_offset).collect();
    assert_eq!(lhs_offsets, vec![0, 0, 0, 1, 1, 1]);
    assert_eq!(rhs_offsets, vec![0, 1, 2, 0, 1, 2]);
}

#[test]
fn plan_follows_negative_batch_strides() {
    let lhs = layout(&[2, 1, 1], &[-1, 1, 1], 1);
    let rhs = layout(&[1, 1], &[1, 1], 0);
    let p = gemm_plan(&lhs, &rhs);
    assert_eq!(p.calls, vec![call(1, 0, 0), call(0, 0, 1)]);
}

#[test]
fn plan_of_an_empty_batch_has_no_calls() {
    let lhs = layout(&[0, 2, 3], &[6, 3, 1], 0);
    let rhs = layout(&[3, 4], &[4, 1], 0);
    assert_eq!(check_float_matmul(&lhs, &rhs), Ok(()));
    let p = gemm_plan(&lhs, &rhs);
    assert_eq!(p.out_shape, vec![0, 2, 4]);
    assert!(p.calls.is_empty());
}

#[test]
fn plan_schedules_by_size() {
    let big = layout(&[192, 192], &[192, 1], 0);
    assert_eq!(gemm_plan(&big, &big).schedule, BatchSchedule::EachParallel);
    let lhs = layout(&[4, 128, 128], &[16384, 128, 1], 0);
    let rhs = layout(&[128, 128], &[128, 1], 0);
    assert_eq!(gemm_plan(&lhs, &rhs).schedule, BatchSchedule::AcrossBatches);
    let small = layout(&[2, 2, 2], &[4, 2, 1], 0);
    assert_eq!(gemm_plan(&small, &small).schedule, BatchSchedule::Sequential);
}

#[test]
fn float_check_reports_each_error() {
    let m23 = layout(&[2, 2, 3], &[6, 3, 1], 0);
    let m334 = layout(&[3, 3, 4], &[12, 4, 1], 0);
    assert_eq!(check_float_matmul(&m23, &m334), Err(FloatMatmulError::BatchNotBroadcastable));
    let v = layout(&[3], &[1], 0);
    assert_eq!(check_float_matmul(&v, &m334), Err(FloatMatmulError::RankTooSmall));
    let m24 = layout(&[2, 4], &[4, 1], 0);
    let m35 = layout(&[3, 5], &[5, 1], 0);
    assert_eq!(check_float_matmul(&m24, &m35), Err(FloatMatmulError::InnerDimMismatch));
    let bad = layout(&[2, 4], &[1], 0);
    assert_eq!(check_float_matmul(&bad, &m35), Err(FloatMatmulError::MalformedLayout));
    let huge = layout(&[usize::MAX, 2, 1, 1], &[2, 1, 1, 1], 0);
    let unit = layout(&[1, 1], &[1, 1], 0);
    assert_eq!(check_float_matmul(&huge, &unit), Err(FloatMatmulError::SizeOverflow));
    let far = layout(&[2, 1, 1], &[isize::MAX, 1, 1], 1);
    assert_eq!(check_float_matmul(&far, &unit), Err(FloatMatmulError::OffsetOverflow));
}

#[test]
fn batch_offsets_within_measures_the_extent() {
    assert!(batch_offsets_within(&[2, 3], &[3, 1], 0));
    assert!(batch_offsets_within(&[2], &[-5], (isize::MAX - 5) as usize));
    assert!(!batch_offsets_within(&[2], &[-5], (isize::MAX - 4) as usize));
    assert!(batch_offsets_within(&[0, 2], &[isize::MAX, isize::MAX], 7));
}

#[test]
fn contiguous_plan_reads_the_broadcast_source_batches() {
    // [2, 1, 2, 3] x [3, 3, 4] -> [2, 3, 2, 4]: batch b reads lhs batch b / 3
    // and rhs batch b % 3, each times its matrix size.
    let lhs = layout(&[2, 1, 2, 3], &[6, 6, 3, 1], 0);
    let rhs = layout(&[3, 3, 4], &[12, 4, 1], 0);
    let p = gemm_plan(&lhs, &rhs);
    assert_eq!(p.out_shape, vec![2, 3, 2, 4]);
    for (b, c) in p.calls.iter().enumerate() {
        assert_eq!(c.lhs_offset, (b / 3 * 6) as isize);
        assert_eq!(c.rhs_offset, (b % 3 * 12) as isize);
        assert_eq!(c.out_offset, b * 8);
    }
    assert_eq!(p.calls.len(), 6);
}

#[test]
fn float_check_reports_sizes_before_offsets() {
    // The output matrix (2^33 x 2^33) overflows, and so would the batch
    // offsets: the size is reported.
    let lhs = layout(&[2, 1 << 33, 1], &[isize::MAX, 1, 1], 1);
    let rhs = layout(&[1, 1 << 33], &[1 << 33, 1], 0);
    assert_eq!(check_float_matmul(&lhs, &rhs), Err(FloatMatmulError::SizeOverflow));
}
