use rublas::meta::{DType, DeviceId, TensorMeta};
use rublas::tensor_int4::{
    awq_nibble_shift, awq_operand_indices, awq_unpack, validate_awq_operands, AwqGemmLayout, Int4Error, BATCH_OVERFLOW_MESSAGE, BATCH_RANGE_MESSAGE,
    BIAS_MESSAGE, INPUT_DEVICE_MESSAGE, INPUT_MESSAGE, LAYOUT_RANGE_MESSAGE, LAYOUT_SHAPE_MESSAGE,
    MATRIX_RANK_MESSAGE, OPERAND_DEVICE_MESSAGE, OPERAND_SHAPE_MESSAGE, OUTPUT_OVERFLOW_MESSAGE,
};

const DEV: DeviceId = DeviceId { type_id: 1, index_id: 0 };
const OTHER: DeviceId = DeviceId { type_id: 1, index_id: 1 };

fn meta(shape: &[usize], dtype: DType) -> TensorMeta {
    TensorMeta { shape: shape.to_vec(), dtype, device: DEV, quantized: false }
}

#[test]
fn awq_layout_validates_packing_groups_and_index_range() {
    let layout = AwqGemmLayout::new(128, 24, 32).unwrap();
    assert_eq!(layout.groups(), 4);
    for (k, n, group) in [(0, 8, 1), (8, 0, 1), (8, 8, 0), (7, 8, 2), (8, 7, 2)] {
        assert!(AwqGemmLayout::new(k, n, group).is_err());
    }
    assert!(AwqGemmLayout::new(u32::MAX as usize, 8, 1).is_err());
}

#[test]
fn awq_layout_error_messages() {
    assert_eq!(AwqGemmLayout::new(7, 8, 2), Err(Int4Error(LAYOUT_SHAPE_MESSAGE)));
    assert_eq!(AwqGemmLayout::new(u32::MAX as usize, 8, 1), Err(Int4Error(LAYOUT_RANGE_MESSAGE)));
    assert_eq!(AwqGemmLayout::new(usize::MAX, 8, 1), Err(Int4Error(LAYOUT_RANGE_MESSAGE)));
    assert_eq!(Int4Error(BIAS_MESSAGE).message(), "AWQ GEMM bias must be an F16 output-channel vector");
    let l = AwqGemmLayout::new(64, 16, 16).unwrap();
    assert_eq!(l, AwqGemmLayout { input_features: 64, output_features: 16, group_size: 16 });
}

#[test]
fn awq_operands_checked_in_order() {
    // k = 64, n = 16, group 16: 4 groups, 2 packed columns.
    let qweight = meta(&[64, 2], DType::I32);
    let qzeros = meta(&[4, 2], DType::I32);
    let scales = meta(&[4, 16], DType::F16);
    let bias = meta(&[16], DType::F16);
    let layout = validate_awq_operands(&qweight, &qzeros, &scales, Some(&bias), 16).unwrap();
    assert_eq!(layout.groups(), 4);
    assert!(validate_awq_operands(&qweight, &qzeros, &scales, None, 16).is_ok());

    assert_eq!(
        validate_awq_operands(&meta(&[64], DType::I32), &qzeros, &scales, None, 16),
        Err(Int4Error(MATRIX_RANK_MESSAGE))
    );
    assert_eq!(
        validate_awq_operands(&qweight, &qzeros, &scales, None, 3),
        Err(Int4Error(LAYOUT_SHAPE_MESSAGE))
    );
    assert_eq!(
        validate_awq_operands(&qweight, &meta(&[4, 2], DType::F16), &scales, None, 16),
        Err(Int4Error(OPERAND_SHAPE_MESSAGE))
    );
    let mut far = qzeros.clone();
    far.device = OTHER;
    assert_eq!(
        validate_awq_operands(&qweight, &far, &scales, None, 16),
        Err(Int4Error(OPERAND_DEVICE_MESSAGE))
    );
    let mut far_bias = bias.clone();
    far_bias.device = OTHER;
    assert_eq!(
        validate_awq_operands(&qweight, &qzeros, &scales, Some(&far_bias), 16),
        Err(Int4Error(OPERAND_DEVICE_MESSAGE))
    );
    assert_eq!(
        validate_awq_operands(&qweight, &qzeros, &scales, Some(&meta(&[8], DType::F16)), 16),
        Err(Int4Error(BIAS_MESSAGE))
    );
}

#[test]
fn awq_forward_plan_shapes_and_errors() {
    let layout = AwqGemmLayout::new(64, 16, 16).unwrap();
    let plan = layout.forward_plan(DEV, &meta(&[2, 3, 64], DType::F16)).unwrap();
    assert_eq!(plan.out_shape, vec![2, 3, 16]);
    assert_eq!(plan.rows, 6);
    assert_eq!(plan.elements, 96);
    assert!(plan.launch);
    assert_eq!(plan.out_dtype, DType::F16);
    assert_eq!(plan.out_device, DEV);

    let empty = layout.forward_plan(DEV, &meta(&[0, 64], DType::F16)).unwrap();
    assert_eq!(empty.out_shape, vec![0, 16]);
    assert!(!empty.launch);

    assert_eq!(layout.forward_plan(DEV, &meta(&[], DType::F16)).err(), Some(Int4Error(INPUT_MESSAGE)));
    assert_eq!(layout.forward_plan(DEV, &meta(&[2, 63], DType::F16)).err(), Some(Int4Error(INPUT_MESSAGE)));
    assert_eq!(layout.forward_plan(DEV, &meta(&[2, 64], DType::F32)).err(), Some(Int4Error(INPUT_MESSAGE)));
    assert_eq!(layout.forward_plan(OTHER, &meta(&[2, 64], DType::F16)).err(), Some(Int4Error(INPUT_DEVICE_MESSAGE)));
    assert_eq!(
        layout.forward_plan(DEV, &meta(&[usize::MAX, 2, 0, 64], DType::F16)).err(),
        Some(Int4Error(BATCH_OVERFLOW_MESSAGE))
    );
    assert_eq!(
        layout.forward_plan(DEV, &meta(&[usize::MAX / 2, 64], DType::F16)).err(),
        Some(Int4Error(OUTPUT_OVERFLOW_MESSAGE))
    );
    assert_eq!(
        layout.forward_plan(DEV, &meta(&[1 << 28, 64], DType::F16)).err(),
        Some(Int4Error(BATCH_RANGE_MESSAGE))
    );
}

#[test]
fn kernel_args_carry_the_layout() {
    let layout = AwqGemmLayout::new(128, 24, 32).unwrap();
    let args = layout.kernel_args(true);
    assert_eq!((args.input_features, args.output_features, args.group_size, args.has_bias), (128, 24, 32, 1));
    assert_eq!(layout.kernel_args(false).has_bias, 0);
}

#[test]
fn awq_unpacks_interleaved_nibbles() {
    // Lanes of a packed word hold columns 0, 2, 4, 6, 1, 3, 5, 7.
    let shifts: Vec<u32> = (0..8).map(awq_nibble_shift).collect();
    assert_eq!(shifts, vec![0, 16, 4, 20, 8, 24, 12, 28]);
    assert_eq!(awq_nibble_shift(13), 24);
    let word: u32 = 0x7654_3210;
    let values: Vec<u32> = (0..8).map(|c| awq_unpack(word, c)).collect();
    assert_eq!(values, vec![0, 4, 1, 5, 2, 6, 3, 7]);
    assert_eq!(awq_unpack(0xffff_ffff, 5), 15);
}

#[test]
fn awq_operand_indices_follow_the_packing() {
    let layout = AwqGemmLayout::new(64, 16, 16).unwrap();
    // Packed words per row: 16 / 8 = 2; group of inner 37: 2.
    assert_eq!(awq_operand_indices(layout, 37, 11), (37 * 2 + 1, 2 * 2 + 1, 2 * 16 + 11));
    assert_eq!(awq_operand_indices(layout, 0, 0), (0, 0, 0));
    assert_eq!(awq_operand_indices(layout, 63, 15), (127, 7, 63));
}
