//! Grouped (mixture-of-experts) matrix product `[M,K] @ [E,N,K].mT`, one
//! expert per row: operand validation and choice of the kernel.

use vstd::prelude::*;
use crate::meta::{product_fits_u32, fits_u32_index, shape_eq, DType, DeviceId, TensorMeta};

verus! {

/// Error of the grouped matmul setup, with its message.
#[derive(Debug, Clone, PartialEq, Eq)]
pub struct GroupedMatmulError(pub &'static str);

impl GroupedMatmulError {
    /// The error's message.
    pub fn message(&self) -> (r: &'static str)
        ensures
            r == self.0,
    {
        self.0
    }
}

/// Message when the operands are not a matrix and a stack of expert matrices.
pub const GROUPED_RANK_MESSAGE: &'static str = "grouped matmul requires [M,K] input and [E,N,K] weights";

/// Message when dimensions, types or quantization do not match.
pub const GROUPED_OPERAND_MESSAGE: &'static str = "grouped matmul requires matching non-quantized float operands and U32 row groups";

/// Message when operands are on different devices.
pub const GROUPED_DEVICE_MESSAGE: &'static str = "grouped matmul operands must share a device";

/// Message when an operand exceeds `u32` indexing.
pub const GROUPED_RANGE_MESSAGE: &'static str = "grouped matmul exceeds U32 indexing";

/// Message when the segmented operands are not a matrix and a stack of expert matrices.
pub const SEGMENTED_RANK_MESSAGE: &'static str = "segmented GEMM requires [M,K] and [E,N,K]";

/// Message when segmented dimensions or types do not match.
pub const SEGMENTED_SHAPE_MESSAGE: &'static str = "invalid segmented GEMM shape/dtype";

/// Message when a segmented operand is quantized, elsewhere, on another queue or too large.
pub const SEGMENTED_DEVICE_MESSAGE: &'static str = "segmented GEMM device/queue/size mismatch";

/// Message when the segmented output exceeds `u32` indexing.
pub const SEGMENTED_OUTPUT_MESSAGE: &'static str = "segmented GEMM output exceeds U32 indexing";

/// Message when the Tensor Core path was requested but is unavailable.
pub const SEGMENTED_UNAVAILABLE_MESSAGE: &'static str = "requested 16x16x16 Tensor Core configuration is unavailable";

/// Explicit choice of the segmented kernel. `Auto` falls back to the scalar
/// kernel only for an unsupported setup; `Scalar` is the baseline.
#[derive(Clone, Copy, Debug, PartialEq, Eq, Structural)]
pub enum GroupedStrategy {
    Scalar,
    Auto,
    TensorCore,
}

/// Whether a data type is one of the float types the grouped kernels accept.
pub open spec fn grouped_float(d: DType) -> bool {
    d == DType::F32 || d == DType::F16 || d == DType::BF16
}

/// What the scalar grouped kernel computes.
#[derive(Debug, Clone, PartialEq, Eq)]
pub struct GroupedPlan {
    pub m: usize,
    pub n: usize,
    pub k: usize,
    pub experts: usize,
    /// The output `[M, N]` has the input's data type.
    pub out_dtype: DType,
    /// The output is allocated, contiguous, on the input's device.
    pub out_device: DeviceId,
    /// Whether a kernel launch is needed (at least one row).
    pub launch: bool,
}

/// Result of the grouped matmul checks, in the order they are made: ranks,
/// dimensions and types, devices, `u32` range.
pub open spec fn grouped_spec(input: TensorMeta, weights: TensorMeta, row_experts: TensorMeta) -> Result<GroupedPlan, GroupedMatmulError> {
    if input.shape@.len() != 2 || weights.shape@.len() != 3 {
        Err(GroupedMatmulError(GROUPED_RANK_MESSAGE))
    } else {
        let m = input.shape@[0];
        let k = input.shape@[1];
        let e = weights.shape@[0];
        let n = weights.shape@[1];
        if k == 0 || n == 0 || e == 0 || weights.shape@[2] != k || row_experts.shape@ != seq![m]
            || row_experts.dtype != DType::U32 || !grouped_float(input.dtype) || weights.dtype
            != input.dtype || input.quantized || weights.quantized || row_experts.quantized {
            Err(GroupedMatmulError(GROUPED_OPERAND_MESSAGE))
        } else if weights.device != input.device || row_experts.device != input.device {
            Err(GroupedMatmulError(GROUPED_DEVICE_MESSAGE))
        } else if !fits_u32_index(seq![m, k]) || !fits_u32_index(seq![m, n]) || !fits_u32_index(
            seq![e, n, k],
        ) {
            Err(GroupedMatmulError(GROUPED_RANGE_MESSAGE))
        } else {
            Ok(
                GroupedPlan {
                    m,
                    n,
                    k,
                    experts: e,
                    out_dtype: input.dtype,
                    out_device: input.device,
                    launch: m != 0,
                },
            )
        }
    }
}

/// Checks the operands of the scalar grouped matmul (`[M,K]` input, `[E,N,K]`
/// expert weights, `[M]` `U32` row-to-expert map) and plans the launch.
pub fn grouped_matmul_nt_plan(input: &TensorMeta, weights: &TensorMeta, row_experts: &TensorMeta) -> (r: Result<GroupedPlan, GroupedMatmulError>)
    ensures
        r == grouped_spec(*input, *weights, *row_experts),
{
    if input.shape.len() != 2 || weights.shape.len() != 3 {
        return Err(GroupedMatmulError(GROUPED_RANK_MESSAGE));
    }
    let m = input.shape[0];
    let k = input.shape[1];
    let e = weights.shape[0];
    let n = weights.shape[1];
    let row_dims = [m];
    proof {
        assert(row_dims@ =~= seq![m]);
    }
    let float_input = match input.dtype {
        DType::F32 | DType::F16 | DType::BF16 => true,
        _ => false,
    };
    if k == 0 || n == 0 || e == 0 || weights.shape[2] != k || !shape_eq(
        row_experts.shape.as_slice(),
        row_dims.as_slice(),
    ) || row_experts.dtype != DType::U32 || !float_input || weights.dtype != input.dtype
        || input.quantized || weights.quantized || row_experts.quantized {
        return Err(GroupedMatmulError(GROUPED_OPERAND_MESSAGE));
    }
    if weights.device != input.device || row_experts.device != input.device {
        return Err(GroupedMatmulError(GROUPED_DEVICE_MESSAGE));
    }
    let mk = [m, k];
    let mn = [m, n];
    let enk = [e, n, k];
    proof {
        assert(mk@ =~= seq![m, k]);
        assert(mn@ =~= seq![m, n]);
        assert(enk@ =~= seq![e, n, k]);
    }
    if !product_fits_u32(mk.as_slice()) || !product_fits_u32(mn.as_slice()) || !product_fits_u32(
        enk.as_slice(),
    ) {
        return Err(GroupedMatmulError(GROUPED_RANGE_MESSAGE));
    }
    Ok(
        GroupedPlan {
            m,
            n,
            k,
            experts: e,
            out_dtype: input.dtype,
            out_device: input.device,
            launch: m != 0,
        },
    )
}

/// The expert a row of the grouped product reads: its group id when it is
/// one of the `experts` experts; `None` for any other id, which marks a
/// padding row whose output is all zeros.
pub fn row_expert(group_id: u32, experts: usize) -> (r: Option<usize>)
    ensures
        r == if (group_id as int) < experts {
            Some(group_id as usize)
        } else {
            None::<usize>
        },
{
    if (group_id as u64) < (experts as u64) {
        Some(group_id as usize)
    } else {
        None
    }
}

/// What the segmented Tensor Core path needs to know of the device.
#[derive(Debug, Clone, Copy, PartialEq, Eq)]
pub struct SegmentedDevice {
    pub plane_size_min: u32,
    pub plane_size_max: u32,
    pub max_shared_memory_size: usize,
    /// The device offers the 16x16x16 cooperative matrix product with the
    /// input type as operands and `F32` accumulation.
    pub cmma_16x16x16: bool,
    pub max_ruda_count: (u32, u32, u32),
}

/// Kernel chosen for a segmented grouped matmul.
#[derive(Debug, Clone, PartialEq, Eq)]
pub enum SegmentedAction {
    /// Run the scalar grouped kernel (with its own checks).
    Scalar,
    /// Run the 16x16x16 Tensor Core kernel: one plane per (expert, output-column tile).
    TensorCore { m: usize, n: usize, k: usize, experts: usize, column_tiles: usize, launch: bool },
}

/// Number of 16-wide output-column tiles.
pub open spec fn column_tiles(n: int) -> int {
    (n + 15) / 16
}

/// Whether the device runs the Tensor Core path for this input type and size.
pub open spec fn tensor_core_supported(dtype: DType, n: int, e: int, dev: SegmentedDevice) -> bool {
    &&& (dtype == DType::F16 || dtype == DType::BF16)
    &&& dev.plane_size_min == 32
    &&& dev.plane_size_max == 32
    &&& dev.max_shared_memory_size >= 2048
    &&& dev.cmma_16x16x16
    &&& column_tiles(n) <= dev.max_ruda_count.0
    &&& e <= dev.max_ruda_count.1
}

/// One segmented operand is usable: not quantized, on the input's device, and
/// small enough for `u32` indexing.
pub open spec fn segmented_operand_ok(t: TensorMeta, input: TensorMeta) -> bool {
    !t.quantized && t.device == input.device && fits_u32_index(t.shape@)
}

/// Result of the segmented grouped matmul checks, in the order they are made.
pub open spec fn segmented_spec(
    input: TensorMeta,
    weights: TensorMeta,
    row_experts: TensorMeta,
    offsets: TensorMeta,
    strategy: GroupedStrategy,
    same_queue: bool,
    dev: SegmentedDevice,
) -> Result<SegmentedAction, GroupedMatmulError> {
    if strategy == GroupedStrategy::Scalar {
        Ok(SegmentedAction::Scalar)
    } else if input.shape@.len() != 2 || weights.shape@.len() != 3 {
        Err(GroupedMatmulError(SEGMENTED_RANK_MESSAGE))
    } else {
        let m = input.shape@[0];
        let k = input.shape@[1];
        let e = weights.shape@[0];
        let n = weights.shape@[1];
        if e == 0 || n == 0 || k == 0 || weights.shape@[2] != k || weights.dtype != input.dtype
            || offsets.shape@ != seq![(e + 1) as usize] || offsets.dtype != DType::U32
            || row_experts.shape@ != seq![m] || row_experts.dtype != DType::U32 || !grouped_float(
            input.dtype,
        ) {
            Err(GroupedMatmulError(SEGMENTED_SHAPE_MESSAGE))
        } else if !same_queue || !segmented_operand_ok(input, input) || !segmented_operand_ok(
            weights,
            input,
        ) || !segmented_operand_ok(row_experts, input) || !segmented_operand_ok(offsets, input) {
            Err(GroupedMatmulError(SEGMENTED_DEVICE_MESSAGE))
        } else if m * n > u32::MAX {
            Err(GroupedMatmulError(SEGMENTED_OUTPUT_MESSAGE))
        } else if !tensor_core_supported(input.dtype, n as int, e as int, dev) {
            if strategy == GroupedStrategy::TensorCore {
                Err(GroupedMatmulError(SEGMENTED_UNAVAILABLE_MESSAGE))
            } else {
                Ok(SegmentedAction::Scalar)
            }
        } else {
            Ok(
                SegmentedAction::TensorCore {
                    m,
                    n,
                    k,
                    experts: e,
                    column_tiles: column_tiles(n as int) as usize,
                    launch: m != 0,
                },
            )
        }
    }
}

/// Chooses the kernel of a segmented grouped matmul, whose rows are already
/// sorted by expert with exclusive prefix `offsets` (`[E+1]`): the scalar
/// kernel when asked, or when `Auto` meets an unsupported device; the Tensor
/// Core kernel otherwise. `same_queue` tells whether all four operands share
/// the input's execution queue.
pub fn grouped_matmul_nt_segmented_plan(
    input: &TensorMeta,
    weights: &TensorMeta,
    row_experts: &TensorMeta,
    offsets: &TensorMeta,
    strategy: GroupedStrategy,
    same_queue: bool,
    dev: SegmentedDevice,
) -> (r: Result<SegmentedAction, GroupedMatmulError>)
    requires
        ({
            let ws = weights.shape@;
            let is = input.shape@;
            strategy != GroupedStrategy::Scalar && is.len() == 2 && ws.len() == 3 && ws[0] != 0
                && ws[1] != 0 && is[1] != 0 && ws[2] == is[1] && weights.dtype == input.dtype
                ==> ws[0] < usize::MAX
        }),
    ensures
        r == segmented_spec(*input, *weights, *row_experts, *offsets, strategy, same_queue, dev),
{
    if strategy == GroupedStrategy::Scalar {
        return Ok(SegmentedAction::Scalar);
    }
    if input.shape.len() != 2 || weights.shape.len() != 3 {
        return Err(GroupedMatmulError(SEGMENTED_RANK_MESSAGE));
    }
    let m = input.shape[0];
    let k = input.shape[1];
    let e = weights.shape[0];
    let n = weights.shape[1];
    if e == 0 || n == 0 || k == 0 || weights.shape[2] != k || weights.dtype != input.dtype {
        return Err(GroupedMatmulError(SEGMENTED_SHAPE_MESSAGE));
    }
    // The offsets hold one entry per expert and one more.
    let offset_dims = [e + 1];
    let row_dims = [m];
    proof {
        assert(offset_dims@ =~= seq![(e + 1) as usize]);
        assert(row_dims@ =~= seq![m]);
    }
    let float_input = match input.dtype {
        DType::F32 | DType::F16 | DType::BF16 => true,
        _ => false,
    };
    if !shape_eq(offsets.shape.as_slice(), offset_dims.as_slice()) || offsets.dtype
        != DType::U32 || !shape_eq(row_experts.shape.as_slice(), row_dims.as_slice())
        || row_experts.dtype != DType::U32 || !float_input {
        return Err(GroupedMatmulError(SEGMENTED_SHAPE_MESSAGE));
    }
    if !same_queue || !operand_ok(input, input) || !operand_ok(weights, input) || !operand_ok(
        row_experts,
        input,
    ) || !operand_ok(offsets, input) {
        return Err(GroupedMatmulError(SEGMENTED_DEVICE_MESSAGE));
    }
    let out_too_large = match m.checked_mul(n) {
        None => true,
        Some(s) => s > 0xffff_ffffusize,
    };
    if out_too_large {
        return Err(GroupedMatmulError(SEGMENTED_OUTPUT_MESSAGE));
    }
    let tiles = n / 16 + if n % 16 != 0 {
        1usize
    } else {
        0usize
    };
    assert(tiles as int == column_tiles(n as int));
    let half = match input.dtype {
        DType::F16 | DType::BF16 => true,
        _ => false,
    };
    let supported = half && dev.plane_size_min == 32 && dev.plane_size_max == 32
        && dev.max_shared_memory_size >= 2048 && dev.cmma_16x16x16 && tiles as u64
        <= dev.max_ruda_count.0 as u64 && e as u64 <= dev.max_ruda_count.1 as u64;
    if !supported {
        if strategy == GroupedStrategy::TensorCore {
            return Err(GroupedMatmulError(SEGMENTED_UNAVAILABLE_MESSAGE));
        }
        return Ok(SegmentedAction::Scalar);
    }
    Ok(
        SegmentedAction::TensorCore {
            m,
            n,
            k,
            experts: e,
            column_tiles: tiles,
            launch: m != 0,
        },
    )
}

/// Whether one segmented operand is usable (see [`segmented_operand_ok`]).
fn operand_ok(t: &TensorMeta, input: &TensorMeta) -> (r: bool)
    ensures
        r == segmented_operand_ok(*t, *input),
{
    !t.quantized && t.device == input.device && product_fits_u32(t.shape.as_slice())
}

/// Law: `Auto` runs the Tensor Core kernel wherever `TensorCore` does, falls
/// back to the scalar kernel exactly where `TensorCore` reports the Tensor
/// Core configuration unavailable, and otherwise fails as `TensorCore` fails.
pub proof fn lemma_auto_falls_back_only_when_unavailable(
    input: TensorMeta,
    weights: TensorMeta,
    row_experts: TensorMeta,
    offsets: TensorMeta,
    same_queue: bool,
    dev: SegmentedDevice,
)
    ensures
        ({
            let auto = segmented_spec(
                input,
                weights,
                row_experts,
                offsets,
                GroupedStrategy::Auto,
                same_queue,
                dev,
            );
            let tc = segmented_spec(
                input,
                weights,
                row_experts,
                offsets,
                GroupedStrategy::TensorCore,
                same_queue,
                dev,
            );
            &&& tc is Ok ==> auto == tc
            &&& tc == Err::<SegmentedAction, GroupedMatmulError>(
                GroupedMatmulError(SEGMENTED_UNAVAILABLE_MESSAGE),
            ) ==> auto == Ok::<SegmentedAction, GroupedMatmulError>(SegmentedAction::Scalar)
            &&& (tc is Err && tc != Err::<SegmentedAction, GroupedMatmulError>(
                GroupedMatmulError(SEGMENTED_UNAVAILABLE_MESSAGE),
            )) ==> auto == tc
            &&& auto != Err::<SegmentedAction, GroupedMatmulError>(
                GroupedMatmulError(SEGMENTED_UNAVAILABLE_MESSAGE),
            )
        }),
{
    reveal_strlit("requested 16x16x16 Tensor Core configuration is unavailable");
    reveal_strlit("segmented GEMM requires [M,K] and [E,N,K]");
    reveal_strlit("invalid segmented GEMM shape/dtype");
    reveal_strlit("segmented GEMM device/queue/size mismatch");
    reveal_strlit("segmented GEMM output exceeds U32 indexing");
}

/// Law: the half-precision types are treated alike. Operands that differ
/// only in being `F16` or `BF16` (input and weights together) get the same
/// segmented plan, for every strategy, queue and device.
pub proof fn lemma_segmented_half_types_alike(
    input: TensorMeta,
    weights: TensorMeta,
    row_experts: TensorMeta,
    offsets: TensorMeta,
    strategy: GroupedStrategy,
    same_queue: bool,
    dev: SegmentedDevice,
)
    ensures
        segmented_spec(
            TensorMeta { dtype: DType::BF16, ..input },
            TensorMeta { dtype: DType::BF16, ..weights },
            row_experts,
            offsets,
            strategy,
            same_queue,
            dev,
        ) == segmented_spec(
            TensorMeta { dtype: DType::F16, ..input },
            TensorMeta { dtype: DType::F16, ..weights },
            row_experts,
            offsets,
            strategy,
            same_queue,
            dev,
        ),
{
}

/// Law: on a device with 32-wide planes, at least 2048 bytes of shared
/// memory, the 16x16x16 cooperative product, and enough work groups for the
/// column tiles and the experts, valid `F16` or `BF16` operands get the
/// Tensor Core kernel, whether it is requested or chosen automatically: one
/// plane per expert and 16-wide output-column tile, covering the `N` output
/// columns.
pub proof fn lemma_segmented_tensor_core_when_supported(
    input: TensorMeta,
    weights: TensorMeta,
    row_experts: TensorMeta,
    offsets: TensorMeta,
    strategy: GroupedStrategy,
    dev: SegmentedDevice,
)
    requires
        strategy != GroupedStrategy::Scalar,
        input.shape@.len() == 2,
        weights.shape@.len() == 3,
        ({
            let m = input.shape@[0];
            let k = input.shape@[1];
            let e = weights.shape@[0];
            let n = weights.shape@[1];
            &&& e > 0 && n > 0 && k > 0
            &&& e < usize::MAX
            &&& weights.shape@[2] == k
            &&& weights.dtype == input.dtype
            &&& (input.dtype == DType::F16 || input.dtype == DType::BF16)
            &&& offsets.shape@ == seq![(e + 1) as usize]
            &&& offsets.dtype == DType::U32
            &&& row_experts.shape@ == seq![m]
            &&& row_experts.dtype == DType::U32
            &&& !input.quantized && !weights.quantized && !row_experts.quantized && !offsets.quantized
            &&& weights.device == input.device && row_experts.device == input.device
                && offsets.device == input.device
            &&& fits_u32_index(input.shape@) && fits_u32_index(weights.shape@) && fits_u32_index(
                row_experts.shape@,
            ) && fits_u32_index(offsets.shape@)
            &&& m * n <= u32::MAX
            &&& dev.plane_size_min == 32 && dev.plane_size_max == 32
            &&& dev.max_shared_memory_size >= 2048
            &&& dev.cmma_16x16x16
            &&& (n + 15) / 16 <= dev.max_ruda_count.0
            &&& e <= dev.max_ruda_count.1
        }),
    ensures
        segmented_spec(input, weights, row_experts, offsets, strategy, true, dev) matches Ok(
            SegmentedAction::TensorCore { m, n, k, experts, column_tiles, launch },
        ) && m == input.shape@[0] && k == input.shape@[1] && experts == weights.shape@[0] && n
            == weights.shape@[1] && column_tiles * 16 >= n && column_tiles * 16 < n + 16 && launch
            == (m != 0),
{
    let n = weights.shape@[1] as int;
    assert(((n + 15) / 16) * 16 >= n && ((n + 15) / 16) * 16 < n + 16) by {
        vstd::arithmetic::div_mod::lemma_fundamental_div_mod(n + 15, 16);
    }
}

} // verus!
