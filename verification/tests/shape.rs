use rublas::parallel::{batch_schedule, get_parallelism, saturating_mul, BatchSchedule, Parallelism};
use rublas::shape::{
    batch_elem_offset, batch_index_to_offset, broadcast_batch_dims, broadcast_batch_elem_strides,
    checked_size, get_2d_strides, padded_dim, shape_product, StridedLayout,
};
use rublas::tensor_matmul::{
    global_input_types, launch_plan, matmul_output, matmul_route, LaunchRoute, MatmulOutput, MatmulSetupError, MatmulStrategy, RESIDUE_FIRST_MESSAGE,
};
use rublas::meta::{DType, DeviceId, TensorMeta};

#[test]
fn broadcast_dims_and_strides() {
    let (shape, l, r) = broadcast_batch_dims(&[2, 1], &[1, 4]);
    assert_eq!(shape, vec![2, 4]);
    assert_eq!(l, vec![1, 0]);
    assert_eq!(r, vec![0, 1]);
    let (shape, l, r) = broadcast_batch_dims(&[3], &[5, 2, 3]);
    assert_eq!(shape, vec![5, 2, 3]);
    assert_eq!(l, vec![0, 0, 1]);
    assert_eq!(r, vec![6, 3, 1]);
    let (shape, _, _) = broadcast_batch_dims(&[0], &[1]);
    assert_eq!(shape, vec![0]);
    let (shape, _, _) = broadcast_batch_dims(&[], &[]);
    assert!(shape.is_empty());
}

#[test]
fn batch_offsets() {
    // Output batch 5 of [2, 4] is (1, 1): lhs [2, 1] reads batch 1, rhs [1, 4] reads batch 1.
    assert_eq!(batch_index_to_offset(5, &[2, 4], &[1, 0]), 1);
    assert_eq!(batch_index_to_offset(5, &[2, 4], &[0, 1]), 1);
    assert_eq!(batch_index_to_offset(7, &[2, 4], &[4, 1]), 7);
    assert_eq!(batch_index_to_offset(0, &[], &[]), 0);
    assert_eq!(batch_elem_offset(5, &[2, 4], &[-6, 10]), -6 + 10);
    assert_eq!(batch_elem_offset(3, &[2, 4], &[100, 7]), 21);
}

#[test]
fn elem_strides_and_helpers() {
    assert_eq!(broadcast_batch_elem_strides(&[3, 1], &[8, 8, 4, 1], 3), vec![0, 8, 0]);
    assert_eq!(broadcast_batch_elem_strides(&[], &[2, 1], 2), vec![0, 0]);
    let layout = StridedLayout { shape: vec![2, 3, 4], strides: vec![12, 1, 3], start_offset: 0 };
    assert_eq!(get_2d_strides(&layout), (1, 3));
    assert_eq!(checked_size(6, 7), 42);
    assert_eq!(padded_dim(&[5, 6], 4, 0), 1);
    assert_eq!(padded_dim(&[5, 6], 4, 3), 6);
    assert_eq!(shape_product(&[2, 3, 4]), 24);
    assert_eq!(shape_product(&[]), 1);
}

#[test]
fn parallelism_decisions() {
    assert_eq!(get_parallelism(128, 128, 128), Parallelism::Sequential);
    assert_eq!(get_parallelism(192, 192, 192), Parallelism::Rayon(0));
    assert_eq!(get_parallelism(usize::MAX, 2, 2), Parallelism::Rayon(0));
    assert_eq!(saturating_mul(usize::MAX, 2), usize::MAX);
    assert_eq!(batch_schedule(2, 256, 256, 256), BatchSchedule::EachParallel);
    assert_eq!(batch_schedule(8, 256, 256, 256), BatchSchedule::AcrossBatches);
    assert_eq!(batch_schedule(64, 32, 32, 32), BatchSchedule::AcrossBatches);
    assert_eq!(batch_schedule(1, 100, 100, 100), BatchSchedule::Sequential);
    assert_eq!(batch_schedule(3, 8, 8, 8), BatchSchedule::Sequential);
}

fn meta(dtype: DType, quantized: bool) -> TensorMeta {
    TensorMeta { shape: vec![4, 4], dtype, device: DeviceId { type_id: 0, index_id: 0 }, quantized }
}

#[test]
fn matmul_routes() {
    assert_eq!(MatmulStrategy::default(), MatmulStrategy::Cube);
    let bf = meta(DType::BF16, false);
    assert_eq!(matmul_route(MatmulStrategy::CmmaResidueFirst, &bf, &bf), Ok(LaunchRoute::ResidueFirst));
    assert_eq!(
        matmul_route(MatmulStrategy::CmmaResidueFirst, &bf, &meta(DType::F16, false)),
        Err(MatmulSetupError::InvalidConfig(RESIDUE_FIRST_MESSAGE))
    );
    assert_eq!(
        matmul_route(MatmulStrategy::CmmaResidueFirst, &meta(DType::F32, false), &meta(DType::F32, false)),
        Err(MatmulSetupError::InvalidConfig(RESIDUE_FIRST_MESSAGE))
    );
    assert_eq!(
        matmul_route(MatmulStrategy::CmmaResidueFirst, &meta(DType::F16, true), &meta(DType::F16, false)),
        Err(MatmulSetupError::InvalidConfig(RESIDUE_FIRST_MESSAGE))
    );
    assert_eq!(matmul_route(MatmulStrategy::Naive, &bf, &bf), Ok(LaunchRoute::Naive));
    assert_eq!(matmul_route(MatmulStrategy::Cube, &bf, &bf), Ok(LaunchRoute::Tiled));
}

#[derive(Clone, Copy, Debug, PartialEq, Eq)]
enum Policy {
    Strict,
    Relaxed,
}

#[test]
fn every_route_runs_with_the_callers_f32_policy() {
    let bf = meta(DType::BF16, false);
    for strategy in [MatmulStrategy::Cube, MatmulStrategy::Naive, MatmulStrategy::CmmaResidueFirst] {
        for policy in [Policy::Strict, Policy::Relaxed] {
            let plan = launch_plan(strategy, &bf, &bf, policy).unwrap();
            assert_eq!(plan.f32_math, policy);
            assert_eq!(Ok(plan.route), matmul_route(strategy, &bf, &bf));
        }
    }
    assert_eq!(
        launch_plan(MatmulStrategy::CmmaResidueFirst, &meta(DType::F32, false), &bf, Policy::Relaxed),
        Err(MatmulSetupError::InvalidConfig(RESIDUE_FIRST_MESSAGE))
    );
}

#[test]
fn input_types() {
    let t = global_input_types(false, DType::F16, false, false, false, DType::F32);
    assert_eq!((t.lhs, t.rhs, t.dequantize_rhs), (DType::F16, DType::F16, false));
    let t = global_input_types(false, DType::I8, true, true, true, DType::F32);
    assert_eq!((t.lhs, t.rhs, t.dequantize_rhs), (DType::F32, DType::F32, false));
    let t = global_input_types(true, DType::F16, false, true, true, DType::F32);
    assert_eq!((t.lhs, t.rhs, t.dequantize_rhs), (DType::F16, DType::F16, true));
}

#[test]
fn matmul_output_reuses_or_allocates() {
    let lhs = meta(DType::BF16, false);
    assert_eq!(matmul_output(true, &lhs, DType::F32), MatmulOutput::Given);
    assert_eq!(
        matmul_output(false, &lhs, DType::F32),
        MatmulOutput::Allocate { dtype: DType::F32, device: lhs.device }
    );
}
