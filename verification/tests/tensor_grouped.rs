use rublas::meta::{DType, DeviceId, TensorMeta};
use rublas::tensor_grouped::{
    grouped_matmul_nt_plan, grouped_matmul_nt_segmented_plan, row_expert, GroupedMatmulError, GroupedPlan,
    GroupedStrategy, SegmentedAction, SegmentedDevice, GROUPED_DEVICE_MESSAGE,
    GROUPED_OPERAND_MESSAGE, GROUPED_RANGE_MESSAGE, GROUPED_RANK_MESSAGE,
    SEGMENTED_DEVICE_MESSAGE, SEGMENTED_OUTPUT_MESSAGE, SEGMENTED_RANK_MESSAGE,
    SEGMENTED_SHAPE_MESSAGE, SEGMENTED_UNAVAILABLE_MESSAGE,
};

const DEV: DeviceId = DeviceId { type_id: 2, index_id: 0 };

fn meta(shape: &[usize], dtype: DType) -> TensorMeta {
    TensorMeta { shape: shape.to_vec(), dtype, device: DEV, quantized: false }
}

fn good_device() -> SegmentedDevice {
    SegmentedDevice {
        plane_size_min: 32,
        plane_size_max: 32,
        max_shared_memory_size: 49152,
        cmma_16x16x16: true,
        max_ruda_count: (65535, 65535, 65535),
    }
}

#[test]
fn grouped_plan_accepts_valid_operands() {
    let plan = grouped_matmul_nt_plan(
        &meta(&[5, 8], DType::F16),
        &meta(&[3, 4, 8], DType::F16),
        &meta(&[5], DType::U32),
    )
    .unwrap();
    assert_eq!(plan, GroupedPlan { m: 5, n: 4, k: 8, experts: 3, out_dtype: DType::F16, out_device: DEV, launch: true });
    let empty = grouped_matmul_nt_plan(
        &meta(&[0, 8], DType::BF16),
        &meta(&[3, 4, 8], DType::BF16),
        &meta(&[0], DType::U32),
    )
    .unwrap();
    assert!(!empty.launch);
}

#[test]
fn grouped_plan_errors() {
    let input = meta(&[5, 8], DType::F32);
    let weights = meta(&[3, 4, 8], DType::F32);
    let rows = meta(&[5], DType::U32);
    assert_eq!(
        grouped_matmul_nt_plan(&meta(&[5, 8, 1], DType::F32), &weights, &rows),
        Err(GroupedMatmulError(GROUPED_RANK_MESSAGE))
    );
    assert_eq!(
        grouped_matmul_nt_plan(&input, &meta(&[3, 4, 7], DType::F32), &rows),
        Err(GroupedMatmulError(GROUPED_OPERAND_MESSAGE))
    );
    assert_eq!(
        grouped_matmul_nt_plan(&input, &weights, &meta(&[5], DType::I32)),
        Err(GroupedMatmulError(GROUPED_OPERAND_MESSAGE))
    );
    assert_eq!(
        grouped_matmul_nt_plan(&meta(&[5, 8], DType::I32), &meta(&[3, 4, 8], DType::I32), &rows),
        Err(GroupedMatmulError(GROUPED_OPERAND_MESSAGE))
    );
    let mut q = input.clone();
    q.quantized = true;
    assert_eq!(grouped_matmul_nt_plan(&q, &weights, &rows), Err(GroupedMatmulError(GROUPED_OPERAND_MESSAGE)));
    let mut far = weights.clone();
    far.device = DeviceId { type_id: 2, index_id: 1 };
    assert_eq!(grouped_matmul_nt_plan(&input, &far, &rows), Err(GroupedMatmulError(GROUPED_DEVICE_MESSAGE)));
    assert_eq!(
        grouped_matmul_nt_plan(
            &meta(&[1 << 20, 1 << 12], DType::F32),
            &meta(&[1, 4, 1 << 12], DType::F32),
            &meta(&[1 << 20], DType::U32)
        ),
        Err(GroupedMatmulError(GROUPED_RANGE_MESSAGE))
    );
}

#[test]
fn segmented_plan_chooses_kernel() {
    let input = meta(&[40, 16], DType::F16);
    let weights = meta(&[3, 20, 16], DType::F16);
    let rows = meta(&[40], DType::U32);
    let offsets = meta(&[4], DType::U32);
    assert_eq!(
        grouped_matmul_nt_segmented_plan(&input, &weights, &rows, &offsets, GroupedStrategy::Scalar, true, good_device()),
        Ok(SegmentedAction::Scalar)
    );
    assert_eq!(
        grouped_matmul_nt_segmented_plan(&input, &weights, &rows, &offsets, GroupedStrategy::Auto, true, good_device()),
        Ok(SegmentedAction::TensorCore { m: 40, n: 20, k: 16, experts: 3, column_tiles: 2, launch: true })
    );
    let mut small = good_device();
    small.plane_size_max = 64;
    assert_eq!(
        grouped_matmul_nt_segmented_plan(&input, &weights, &rows, &offsets, GroupedStrategy::Auto, true, small),
        Ok(SegmentedAction::Scalar)
    );
    assert_eq!(
        grouped_matmul_nt_segmented_plan(&input, &weights, &rows, &offsets, GroupedStrategy::TensorCore, true, small),
        Err(GroupedMatmulError(SEGMENTED_UNAVAILABLE_MESSAGE))
    );
    // F32 input is valid but never takes the Tensor Core path.
    assert_eq!(
        grouped_matmul_nt_segmented_plan(
            &meta(&[40, 16], DType::F32),
            &meta(&[3, 20, 16], DType::F32),
            &rows,
            &offsets,
            GroupedStrategy::Auto,
            true,
            good_device()
        ),
        Ok(SegmentedAction::Scalar)
    );
}

#[test]
fn segmented_plan_errors() {
    let input = meta(&[40, 16], DType::F16);
    let weights = meta(&[3, 20, 16], DType::F16);
    let rows = meta(&[40], DType::U32);
    let offsets = meta(&[4], DType::U32);
    let s = GroupedStrategy::Auto;
    assert_eq!(
        grouped_matmul_nt_segmented_plan(&meta(&[40], DType::F16), &weights, &rows, &offsets, s, true, good_device()),
        Err(GroupedMatmulError(SEGMENTED_RANK_MESSAGE))
    );
    assert_eq!(
        grouped_matmul_nt_segmented_plan(&input, &weights, &rows, &meta(&[3], DType::U32), s, true, good_device()),
        Err(GroupedMatmulError(SEGMENTED_SHAPE_MESSAGE))
    );
    assert_eq!(
        grouped_matmul_nt_segmented_plan(&input, &weights, &rows, &offsets, s, false, good_device()),
        Err(GroupedMatmulError(SEGMENTED_DEVICE_MESSAGE))
    );
    assert_eq!(
        grouped_matmul_nt_segmented_plan(
            &meta(&[1 << 27, 16], DType::F16),
            &meta(&[3, 64, 16], DType::F16),
            &meta(&[1 << 27], DType::U32),
            &offsets,
            s,
            true,
            good_device()
        ),
        Err(GroupedMatmulError(SEGMENTED_OUTPUT_MESSAGE))
    );
}

#[test]
fn segmented_plan_needs_no_offset_count_before_its_shape_checks() {
    // An expert count of usize::MAX has no offset count e + 1, but the scalar
    // strategy never looks at it, and a shape error found first is reported.
    let input = meta(&[4, 8], DType::F16);
    let rows = meta(&[4], DType::U32);
    let offsets = meta(&[2], DType::U32);
    let huge = meta(&[usize::MAX, 16, 8], DType::F16);
    assert_eq!(
        grouped_matmul_nt_segmented_plan(&input, &huge, &rows, &offsets, GroupedStrategy::Scalar, true, good_device()),
        Ok(SegmentedAction::Scalar)
    );
    let huge_empty = meta(&[usize::MAX, 0, 8], DType::F16);
    assert_eq!(
        grouped_matmul_nt_segmented_plan(&input, &huge_empty, &rows, &offsets, GroupedStrategy::Auto, true, good_device()),
        Err(GroupedMatmulError(SEGMENTED_SHAPE_MESSAGE))
    );
}

#[test]
fn padding_rows_read_no_expert() {
    assert_eq!(row_expert(2, 3), Some(2));
    assert_eq!(row_expert(3, 3), None);
    assert_eq!(row_expert(u32::MAX, 3), None);
    assert_eq!(row_expert(0, 0), None);
}
