use rublas::integer::{
    check_int_matmul, check_int_views, int_matmul, int_matmul_dense, suffix_products_fit, DenseTensor,
    HostView, IntMatmulError, IntTensor, IntView,
};
use rublas::shape::StridedLayout;

fn t64(data: Vec<i64>, shape: &[usize]) -> IntTensor {
    IntTensor::I64(DenseTensor { shape: shape.to_vec(), data })
}

fn t32(data: Vec<i32>, shape: &[usize]) -> IntTensor {
    IntTensor::I32(DenseTensor { shape: shape.to_vec(), data })
}

fn row_major(shape: &[usize]) -> Vec<isize> {
    let mut strides = vec![0isize; shape.len()];
    let mut stride = 1isize;
    for i in (0..shape.len()).rev() {
        strides[i] = stride;
        stride = stride.wrapping_mul(shape[i] as isize);
    }
    strides
}

fn view64(data: Vec<i64>, shape: &[usize], strides: &[isize], start_offset: usize) -> IntView {
    IntView::I64(HostView {
        data,
        layout: StridedLayout { shape: shape.to_vec(), strides: strides.to_vec(), start_offset },
    })
}

fn v64(data: Vec<i64>, shape: &[usize]) -> IntView {
    view64(data, shape, &row_major(shape), 0)
}

fn v32(data: Vec<i32>, shape: &[usize]) -> IntView {
    IntView::I32(HostView {
        data,
        layout: StridedLayout { shape: shape.to_vec(), strides: row_major(shape), start_offset: 0 },
    })
}

fn unwrap64(t: IntTensor) -> (Vec<usize>, Vec<i64>) {
    match t {
        IntTensor::I64(t) => (t.shape, t.data),
        IntTensor::I32(_) => panic!("expected an i64 tensor"),
    }
}

fn unwrap32(t: IntTensor) -> (Vec<usize>, Vec<i32>) {
    match t {
        IntTensor::I32(t) => (t.shape, t.data),
        IntTensor::I64(_) => panic!("expected an i32 tensor"),
    }
}

fn reference_i64(lhs: &[i64], rhs: &[i64], m: usize, k: usize, n: usize) -> Vec<i64> {
    let mut output = vec![0i64; m * n];
    for i in 0..m {
        for j in 0..n {
            let mut sum = 0i64;
            for contraction in 0..k {
                sum = sum.wrapping_add(lhs[i * k + contraction].wrapping_mul(rhs[contraction * n + j]));
            }
            output[i * n + j] = sum;
        }
    }
    output
}

#[test]
fn test_int_matmul_i64_rectangular_wrapping() {
    let lhs_values = vec![i64::MAX, i64::MIN, -1, 0, 7, 2, -3, 11, i64::MAX, 5];
    let rhs_values: Vec<i64> = (0..35)
        .map(|i| (i as i64).wrapping_mul(i64::MAX / 3).wrapping_sub(17))
        .collect();
    let expected = reference_i64(&lhs_values, &rhs_values, 2, 5, 7);
    let lhs = v64(lhs_values, &[2, 5]);
    let rhs = v64(rhs_values, &[5, 7]);
    let (shape, data) = unwrap64(int_matmul(lhs, rhs));
    assert_eq!(shape.as_slice(), &[2, 7]);
    assert_eq!(data, expected);
}

#[test]
fn test_int_matmul_i64_broadcast_batches() {
    let lhs_values: Vec<i64> = (0..30).map(|i| i as i64 - 13).collect();
    let rhs_values: Vec<i64> = (0..140).map(|i| (i as i64 % 19) - 9).collect();
    let mut expected = Vec::new();
    for lhs_batch in 0..2 {
        for rhs_batch in 0..4 {
            expected.extend(reference_i64(
                &lhs_values[lhs_batch * 15..(lhs_batch + 1) * 15],
                &rhs_values[rhs_batch * 35..(rhs_batch + 1) * 35],
                3,
                5,
                7,
            ));
        }
    }
    let lhs = v64(lhs_values, &[2, 1, 3, 5]);
    let rhs = v64(rhs_values, &[1, 4, 5, 7]);
    let (shape, data) = unwrap64(int_matmul(lhs, rhs));
    assert_eq!(shape.as_slice(), &[2, 4, 3, 7]);
    assert_eq!(data, expected);
}

#[test]
fn test_int_matmul_i64_transposed_and_offset_views() {
    // The transpose of the [3, 2] matrix [[1, 2], [3, 4], [5, 6]], and rows
    // 1..4, columns 1..3 of the [4, 4] matrix 1..=16: strided views of their data.
    let lhs = view64(vec![1, 2, 3, 4, 5, 6], &[2, 3], &[1, 2], 0);
    let rhs = view64((1i64..=16).collect(), &[3, 2], &[4, 1], 5);
    let (shape, data) = unwrap64(int_matmul(lhs, rhs));
    assert_eq!(shape.as_slice(), &[2, 2]);
    assert_eq!(data, &[106, 115, 136, 148]);
}

#[test]
fn test_int_matmul_i32_empty_dimensions() {
    for batch in [None, Some(2)] {
        for (m, k, n) in [(0, 3, 4), (2, 3, 0), (2, 0, 4), (0, 0, 0)] {
            let mut lhs_shape = Vec::new();
            let mut rhs_shape = Vec::new();
            let mut output_shape = Vec::new();
            if let Some(b) = batch {
                lhs_shape.push(b);
                rhs_shape.push(b);
                output_shape.push(b);
            }
            lhs_shape.extend([m, k]);
            rhs_shape.extend([k, n]);
            output_shape.extend([m, n]);
            let batches = batch.unwrap_or(1);
            let lhs = v32(vec![0; batches * m * k], &lhs_shape);
            let rhs = v32(vec![0; batches * k * n], &rhs_shape);
            let (shape, data) = unwrap32(int_matmul(lhs, rhs));
            assert_eq!(shape.as_slice(), output_shape.as_slice());
            assert_eq!(data, vec![0; batches * m * n]);
        }
    }
}

#[test]
fn test_int_matmul_i64_empty_dimensions() {
    for batch in [None, Some(2)] {
        for (m, k, n) in [(0, 3, 4), (2, 3, 0), (2, 0, 4), (0, 0, 0)] {
            let mut lhs_shape = Vec::new();
            let mut rhs_shape = Vec::new();
            let mut output_shape = Vec::new();
            if let Some(b) = batch {
                lhs_shape.push(b);
                rhs_shape.push(b);
                output_shape.push(b);
            }
            lhs_shape.extend([m, k]);
            rhs_shape.extend([k, n]);
            output_shape.extend([m, n]);
            let batches = batch.unwrap_or(1);
            let lhs = v64(vec![0; batches * m * k], &lhs_shape);
            let rhs = v64(vec![0; batches * k * n], &rhs_shape);
            let (shape, data) = unwrap64(int_matmul(lhs, rhs));
            assert_eq!(shape.as_slice(), output_shape.as_slice());
            assert_eq!(data, vec![0; batches * m * n]);
        }
    }
}

#[test]
fn test_int_matmul_i32_empty_batch_broadcast() {
    for (lhs_batches, rhs_batches) in [(0, 1), (1, 0), (0, 0)] {
        let lhs = v32(vec![1; lhs_batches * 6], &[lhs_batches, 2, 3]);
        let rhs = v32(vec![1; rhs_batches * 12], &[rhs_batches, 3, 4]);
        let (shape, data) = unwrap32(int_matmul(lhs, rhs));
        assert_eq!(shape.as_slice(), &[0, 2, 4]);
        assert!(data.is_empty());
    }
}

#[test]
fn test_int_matmul_i64_empty_batch_broadcast() {
    for (lhs_batches, rhs_batches) in [(0, 1), (1, 0), (0, 0)] {
        let lhs = v64(vec![1; lhs_batches * 6], &[lhs_batches, 2, 3]);
        let rhs = v64(vec![1; rhs_batches * 12], &[rhs_batches, 3, 4]);
        let (shape, data) = unwrap64(int_matmul(lhs, rhs));
        assert_eq!(shape.as_slice(), &[0, 2, 4]);
        assert!(data.is_empty());
    }
}

#[test]
fn int_matmul_i32_small_product() {
    let lhs = v32(vec![1, 2, 3, 4], &[2, 2]);
    let rhs = v32(vec![5, 6, 7, 8], &[2, 2]);
    let (shape, data) = unwrap32(int_matmul(lhs, rhs));
    assert_eq!(shape, vec![2, 2]);
    assert_eq!(data, vec![19, 22, 43, 50]);
}

#[test]
fn int_matmul_i32_wraps() {
    let lhs = v32(vec![i32::MAX, 2], &[1, 2]);
    let rhs = v32(vec![3, 5], &[2, 1]);
    let (_, data) = unwrap32(int_matmul(lhs, rhs));
    assert_eq!(data, vec![i32::MAX.wrapping_mul(3).wrapping_add(10)]);
}

#[test]
fn int_matmul_i32_broadcast_batches_and_rank_difference() {
    // lhs [2, 2, 3] against rhs [3, 2] (rank 2): rhs broadcast over the batch.
    let lhs: Vec<i32> = (1..=12).collect();
    let rhs: Vec<i32> = vec![1, -1, 2, 0, -3, 4];
    let (shape, data) = unwrap32(int_matmul(v32(lhs.clone(), &[2, 2, 3]), v32(rhs.clone(), &[3, 2])));
    assert_eq!(shape, vec![2, 2, 2]);
    let mut expected = Vec::new();
    for b in 0..2 {
        for i in 0..2 {
            for j in 0..2 {
                let mut s = 0i32;
                for l in 0..3 {
                    s = s.wrapping_add(lhs[b * 6 + i * 3 + l].wrapping_mul(rhs[l * 2 + j]));
                }
                expected.push(s);
            }
        }
    }
    assert_eq!(data, expected);
}

#[test]
fn check_int_matmul_reports_each_error() {
    assert_eq!(check_int_matmul(&t64(vec![1; 4], &[2, 2]), &t64(vec![1; 4], &[2, 2])), Ok(()));
    assert_eq!(
        check_int_matmul(&t64(vec![1; 4], &[2, 2]), &t32(vec![1; 4], &[2, 2])),
        Err(IntMatmulError::DTypeMismatch)
    );
    assert_eq!(
        check_int_matmul(&t64(vec![1; 2], &[2]), &t64(vec![1; 4], &[2, 2])),
        Err(IntMatmulError::RankTooSmall)
    );
    assert_eq!(
        check_int_matmul(&t64(vec![1; 6], &[2, 3]), &t64(vec![1; 4], &[2, 2])),
        Err(IntMatmulError::InnerDimMismatch)
    );
    assert_eq!(
        check_int_matmul(&t64(vec![1; 12], &[2, 2, 3]), &t64(vec![1; 36], &[3, 3, 4])),
        Err(IntMatmulError::BatchNotBroadcastable)
    );
    assert_eq!(
        check_int_matmul(
            &t64(vec![], &[usize::MAX, 2, 0, 2]),
            &t64(vec![], &[2, 0])
        ),
        Err(IntMatmulError::SizeOverflow)
    );
}

#[test]
fn only_the_i32_path_counts_the_right_hand_batches() {
    // The right-hand batch shape [MAX, 2, 0] is empty, but its leading
    // product MAX * 2 overflows: the i64 path never forms it and multiplies;
    // the i32 path, which counts the right-hand batches from the left, refuses.
    let ls = [0, 1, 1, 1, 3, 2];
    let rs = [usize::MAX, 2, 0, 2, 2];
    assert_eq!(check_int_matmul(&t64(vec![], &ls), &t64(vec![], &rs)), Ok(()));
    assert_eq!(check_int_matmul(&t32(vec![], &ls), &t32(vec![], &rs)), Err(IntMatmulError::SizeOverflow));
    match int_matmul_dense(t64(vec![], &ls), t64(vec![], &rs)) {
        IntTensor::I64(out) => {
            assert_eq!(out.shape, vec![0, usize::MAX, 2, 0, 3, 2]);
            assert!(out.data.is_empty());
        }
        IntTensor::I32(_) => panic!("wrong element type"),
    }
}

#[test]
fn suffix_products_fit_checks_trailing_products() {
    assert!(suffix_products_fit(&[2, 3, 4]));
    assert!(suffix_products_fit(&[]));
    assert!(!suffix_products_fit(&[2, usize::MAX]));
    assert!(suffix_products_fit(&[usize::MAX, 2, 0]));
    assert!(!suffix_products_fit(&[0, usize::MAX, 2]));
}

#[test]
fn check_int_views_reports_invalid_views() {
    let good = v64(vec![1; 4], &[2, 2]);
    assert_eq!(check_int_views(&good, &v64(vec![1; 4], &[2, 2])), Ok(()));
    // Reads past the end of the data.
    let past_end = view64(vec![1; 4], &[2, 2], &[2, 1], 1);
    assert_eq!(check_int_views(&past_end, &good), Err(IntMatmulError::InvalidView));
    // A negative stride reaching before the start of the data.
    let before_start = view64(vec![1; 4], &[2, 2], &[-2, 1], 1);
    assert_eq!(check_int_views(&good, &before_start), Err(IntMatmulError::InvalidView));
    // The same negative stride from a start that leaves room: rows reversed.
    let reversed = view64(vec![1, 2, 3, 4], &[2, 2], &[-2, 1], 2);
    assert_eq!(check_int_views(&reversed, &good), Ok(()));
    let (_, data) = unwrap64(int_matmul(reversed, view64(vec![1, 0, 0, 1], &[2, 2], &[2, 1], 0)));
    assert_eq!(data, vec![3, 4, 1, 2]);
    // A stride count other than the rank.
    let malformed = view64(vec![1; 4], &[2, 2], &[1], 0);
    assert_eq!(check_int_views(&malformed, &good), Err(IntMatmulError::InvalidView));
    // An empty view needs no data.
    assert_eq!(check_int_views(&view64(vec![], &[0, 2], &[2, 1], 9), &v64(vec![1; 4], &[2, 2])), Ok(()));
    assert_eq!(
        check_int_views(&good, &v32(vec![1; 4], &[2, 2])),
        Err(IntMatmulError::DTypeMismatch)
    );
    assert_eq!(
        check_int_views(&v64(vec![1; 12], &[2, 2, 3]), &v64(vec![1; 36], &[3, 3, 4])),
        Err(IntMatmulError::BatchNotBroadcastable)
    );
}

