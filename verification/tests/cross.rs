use rublas::cross::{cross_route, cross_split, cross_vector_count, is_cross_axis, CrossDimError, CrossRoute};
use rublas::tensor_matmul::{naive_next_step, NaiveStep};

#[test]
fn cross_route_launches_on_the_innermost_axis() {
    assert_eq!(cross_route(&[4, 3], &[4, 3], 1), Ok(CrossRoute::Launch));
}

#[test]
fn cross_route_swaps_an_inner_axis_to_the_end() {
    assert_eq!(cross_route(&[3, 5, 2], &[3, 5, 2], 0), Ok(CrossRoute::SwapToLast { dim: 0, last: 2 }));
    // The swapped operands then launch directly.
    assert_eq!(cross_route(&[2, 5, 3], &[2, 5, 3], 2), Ok(CrossRoute::Launch));
}

#[test]
fn cross_route_rejects_axes_other_than_three() {
    assert_eq!(cross_route(&[4, 2], &[4, 3], 1), Err(CrossDimError { lhs_size: 2, rhs_size: 3 }));
    assert_eq!(cross_route(&[4, 3], &[4, 4], 1), Err(CrossDimError { lhs_size: 3, rhs_size: 4 }));
    assert!(is_cross_axis(&[3, 7], 0));
    assert!(!is_cross_axis(&[3, 7], 1));
}

#[test]
fn cross_counts_vectors() {
    assert_eq!(cross_vector_count(&[4, 5, 3]), Some(20));
    assert_eq!(cross_vector_count(&[3]), Some(1));
    assert_eq!(cross_vector_count(&[0, 3]), Some(0));
    assert_eq!(cross_vector_count(&[usize::MAX, 3]), None);
}

#[test]
fn naive_route_retries_quantized_failures_once() {
    assert_eq!(naive_next_step(true, false, true, true), NaiveStep::DequantizeAndRetry { lhs: true, rhs: false });
    assert_eq!(naive_next_step(true, true, true, true), NaiveStep::DequantizeAndRetry { lhs: true, rhs: true });
    assert_eq!(naive_next_step(true, true, false, true), NaiveStep::Finish);
    assert_eq!(naive_next_step(true, false, true, false), NaiveStep::Finish);
    assert_eq!(naive_next_step(false, false, true, true), NaiveStep::Finish);
}

#[test]
fn cross_split_counts_elements_around_the_axis() {
    assert_eq!(cross_split(&[4, 3, 5], 1), Some((4, 5)));
    assert_eq!(cross_split(&[3], 0), Some((1, 1)));
    assert_eq!(cross_split(&[2, 7, 3], 2), Some((14, 1)));
    assert_eq!(cross_split(&[usize::MAX, 2, 3], 2), None);
    assert_eq!(cross_split(&[3, usize::MAX, 2], 0), None);
}
