use rublas::kernel::matmul_i64;

#[test]
fn matches_column_dot_reference_with_wrapping_and_tails() {
    for (m, k, n) in [(1, 1, 1), (3, 17, 1), (2, 5, 7), (5, 31, 17), (2, 7, 129)] {
        let lhs: Vec<i64> = (0..m * k)
            .map(|i| (i as i64).wrapping_mul(i64::MAX / 3).wrapping_sub(5))
            .collect();
        let rhs: Vec<i64> = (0..k * n)
            .map(|i| (i as i64).wrapping_mul(i64::MIN / 7).wrapping_add(11))
            .collect();
        let mut output = vec![0; m * n];
        matmul_i64(&lhs, &rhs, &mut output, m, k, n);
        for i in 0..m {
            for j in 0..n {
                let expected = (0..k).fold(0i64, |sum, contraction| {
                    sum.wrapping_add(lhs[i * k + contraction].wrapping_mul(rhs[contraction * n + j]))
                });
                assert_eq!(output[i * n + j], expected, "shape [{m}, {k}, {n}], ({i}, {j})");
            }
        }
    }
}

#[test]
fn handles_empty_axes() {
    for (m, k, n) in [(0, 3, 5), (2, 3, 0), (2, 0, 5), (0, 0, 0)] {
        let mut output = vec![0; m * n];
        matmul_i64(&vec![0; m * k], &vec![0; k * n], &mut output, m, k, n);
        assert_eq!(output, vec![0; m * n]);
    }
}

#[test]
fn kernel_accumulates_into_existing_output() {
    // [[1, 2], [3, 4]] x [[5, 6], [7, 8]] added to a non-zero output.
    let mut output = vec![100i64, 200, 300, 400];
    matmul_i64(&[1, 2, 3, 4], &[5, 6, 7, 8], &mut output, 2, 2, 2);
    assert_eq!(output, vec![119, 222, 343, 450]);
}

#[test]
fn kernel_wraps_on_overflow() {
    let mut output = vec![0i64];
    matmul_i64(&[i64::MAX, 1], &[2, 1], &mut output, 1, 2, 1);
    assert_eq!(output, vec![i64::MAX.wrapping_mul(2).wrapping_add(1)]);
    assert_eq!(output, vec![-1]);
}
