//! INT4 (AWQ) weight-only matrix product: layout validation and launch planning.

use vstd::prelude::*;
use crate::arith::prod;
use crate::meta::{checked_product, prefix_prods_fit, shape_eq, DType, DeviceId, TensorMeta};

verus! {

/// Error of the INT4 GEMM setup, with its message.
#[derive(Debug, Clone, PartialEq, Eq)]
pub struct Int4Error(pub &'static str);

impl Int4Error {
    /// The error's message.
    pub fn message(&self) -> (r: &'static str)
        ensures
            r == self.0,
    {
        self.0
    }
}

/// Message when dimensions are zero, groups are incomplete or output channels do not pack by eight.
pub const LAYOUT_SHAPE_MESSAGE: &'static str = "AWQ GEMM requires nonzero dimensions, complete input groups and output channels divisible by eight";

/// Message when the weight matrix exceeds `u32` indexing.
pub const LAYOUT_RANGE_MESSAGE: &'static str = "AWQ GEMM matrix exceeds the kernel's u32 indexing range";

/// Message when weights or scales are not matrices.
pub const MATRIX_RANK_MESSAGE: &'static str = "AWQ GEMM weights and scales must be matrices";

/// Message when packed weights, zeros or scales have the wrong type or shape.
pub const OPERAND_SHAPE_MESSAGE: &'static str = "AWQ GEMM requires I32 packed weights/zeros and F16 per-group scales with matching shapes";

/// Message when operands are on different devices.
pub const OPERAND_DEVICE_MESSAGE: &'static str = "AWQ GEMM operands must be on the same device";

/// Message when the bias has the wrong type or shape.
pub const BIAS_MESSAGE: &'static str = "AWQ GEMM bias must be an F16 output-channel vector";

/// Message when the input has the wrong type or last dimension.
pub const INPUT_MESSAGE: &'static str = "AWQ GEMM input must be F16 with matching last dimension";

/// Message when input and weights are on different devices.
pub const INPUT_DEVICE_MESSAGE: &'static str = "AWQ GEMM input and weights must be on the same device";

/// Message when the number of input rows overflows.
pub const BATCH_OVERFLOW_MESSAGE: &'static str = "AWQ GEMM batch size overflow";

/// Message when the output size overflows.
pub const OUTPUT_OVERFLOW_MESSAGE: &'static str = "AWQ GEMM output size overflow";

/// Message when the input or output exceeds `u32` indexing.
pub const BATCH_RANGE_MESSAGE: &'static str = "AWQ GEMM batch exceeds the kernel's u32 indexing range";

/// Shape of an AWQ weight-only GEMM: `input_features x output_features`
/// weights, quantized in groups of `group_size` input features.
#[derive(Debug, Clone, Copy, PartialEq, Eq, Structural)]
pub struct AwqGemmLayout {
    pub input_features: usize,
    pub output_features: usize,
    pub group_size: usize,
}

/// The dimensions form a valid AWQ layout: nonzero, complete groups, output
/// channels packed eight per word.
pub open spec fn awq_shape_ok(input_features: usize, output_features: usize, group_size: usize) -> bool {
    &&& input_features != 0
    &&& output_features != 0
    &&& group_size != 0
    &&& input_features % group_size == 0
    &&& output_features % 8 == 0
}

/// The weight matrix fits the kernel's `u32` indexing.
pub open spec fn awq_range_ok(input_features: usize, output_features: usize) -> bool {
    input_features * output_features <= u32::MAX
}

impl AwqGemmLayout {
    /// Validates an AWQ layout. `Ok` exactly when the shape is valid and the
    /// weight matrix fits `u32` indexing; the shape error is reported first.
    pub fn new(input_features: usize, output_features: usize, group_size: usize) -> (r: Result<
        Self,
        Int4Error,
    >)
        ensures
            r is Ok <==> (awq_shape_ok(input_features, output_features, group_size) && awq_range_ok(
                input_features,
                output_features,
            )),
            r matches Ok(l) ==> l == (AwqGemmLayout { input_features, output_features, group_size }),
            !awq_shape_ok(input_features, output_features, group_size) ==> r == Err::<
                AwqGemmLayout,
                Int4Error,
            >(Int4Error(LAYOUT_SHAPE_MESSAGE)),
            awq_shape_ok(input_features, output_features, group_size) && !awq_range_ok(
                input_features,
                output_features,
            ) ==> r == Err::<AwqGemmLayout, Int4Error>(Int4Error(LAYOUT_RANGE_MESSAGE)),
    {
        if input_features == 0 || output_features == 0 || group_size == 0 || input_features
            % group_size != 0 || output_features % 8 != 0 {
            return Err(Int4Error(LAYOUT_SHAPE_MESSAGE));
        }
        let too_large = match input_features.checked_mul(output_features) {
            None => true,
            Some(size) => size > 0xffff_ffffusize,
        };
        if too_large {
            return Err(Int4Error(LAYOUT_RANGE_MESSAGE));
        }
        Ok(Self { input_features, output_features, group_size })
    }

    /// Number of quantization groups along the input features.
    pub fn groups(self) -> (r: usize)
        requires
            self.group_size > 0,
        ensures
            r == self.input_features / self.group_size,
    {
        self.input_features / self.group_size
    }
}

/// Result of validating a layout (the contract of [`AwqGemmLayout::new`]).
pub open spec fn awq_layout_spec(input_features: usize, output_features: usize, group_size: usize) -> Result<AwqGemmLayout, Int4Error> {
    if !awq_shape_ok(input_features, output_features, group_size) {
        Err(Int4Error(LAYOUT_SHAPE_MESSAGE))
    } else if !awq_range_ok(input_features, output_features) {
        Err(Int4Error(LAYOUT_RANGE_MESSAGE))
    } else {
        Ok(AwqGemmLayout { input_features, output_features, group_size })
    }
}

/// Packed weights `[K, N/8]` and zeros `[G, N/8]` in `I32`, scales `[G, N]` in `F16`.
pub open spec fn awq_operands_ok(qweight: TensorMeta, qzeros: TensorMeta, scales: TensorMeta, layout: AwqGemmLayout) -> bool {
    let k = layout.input_features;
    let n = layout.output_features;
    let g = (layout.input_features / layout.group_size) as usize;
    &&& qweight.dtype == DType::I32
    &&& qzeros.dtype == DType::I32
    &&& qweight.shape@ == seq![k, (n / 8) as usize]
    &&& qzeros.shape@ == seq![g, (n / 8) as usize]
    &&& scales.dtype == DType::F16
    &&& scales.shape@ == seq![g, n]
}

/// All operands live on the packed weights' device.
pub open spec fn awq_devices_ok(qweight: TensorMeta, qzeros: TensorMeta, scales: TensorMeta, bias: Option<TensorMeta>) -> bool {
    &&& qzeros.device == qweight.device
    &&& scales.device == qweight.device
    &&& (bias matches Some(b) ==> b.device == qweight.device)
}

/// The bias, when present, is an `F16` vector of the output channels.
pub open spec fn awq_bias_ok(bias: Option<TensorMeta>, layout: AwqGemmLayout) -> bool {
    bias matches Some(b) ==> (b.dtype == DType::F16 && b.shape@ == seq![layout.output_features])
}

/// Result of the AWQ GEMM setup checks, in the order they are made: ranks,
/// layout, operand types and shapes, devices, bias.
pub open spec fn awq_setup_spec(qweight: TensorMeta, qzeros: TensorMeta, scales: TensorMeta, bias: Option<TensorMeta>, group_size: usize) -> Result<AwqGemmLayout, Int4Error> {
    if qweight.shape@.len() != 2 || scales.shape@.len() != 2 {
        Err(Int4Error(MATRIX_RANK_MESSAGE))
    } else {
        match awq_layout_spec(qweight.shape@[0], scales.shape@[1], group_size) {
            Err(e) => Err(e),
            Ok(layout) => if !awq_operands_ok(qweight, qzeros, scales, layout) {
                Err(Int4Error(OPERAND_SHAPE_MESSAGE))
            } else if !awq_devices_ok(qweight, qzeros, scales, bias) {
                Err(Int4Error(OPERAND_DEVICE_MESSAGE))
            } else if !awq_bias_ok(bias, layout) {
                Err(Int4Error(BIAS_MESSAGE))
            } else {
                Ok(layout)
            },
        }
    }
}

/// Checks the operands of an AWQ GEMM (packed weights, packed zeros, scales,
/// optional bias) and returns its layout.
pub fn validate_awq_operands(
    qweight: &TensorMeta,
    qzeros: &TensorMeta,
    scales: &TensorMeta,
    bias: Option<&TensorMeta>,
    group_size: usize,
) -> (r: Result<AwqGemmLayout, Int4Error>)
    ensures
        r == awq_setup_spec(
            *qweight,
            *qzeros,
            *scales,
            match bias {
                Some(b) => Some(*b),
                None => None,
            },
            group_size,
        ),
{
    let ghost bias_v = match bias {
        Some(b) => Some(*b),
        None => None,
    };
    if qweight.shape.len() != 2 || scales.shape.len() != 2 {
        return Err(Int4Error(MATRIX_RANK_MESSAGE));
    }
    let layout = match AwqGemmLayout::new(qweight.shape[0], scales.shape[1], group_size) {
        Ok(l) => l,
        Err(e) => {
            return Err(e);
        },
    };
    let k = layout.input_features;
    let n = layout.output_features;
    let g = layout.groups();
    let packed = n / 8;
    let qweight_dims = [k, packed];
    let qzeros_dims = [g, packed];
    let scales_dims = [g, n];
    proof {
        assert(qweight_dims@ =~= seq![k, packed]);
        assert(qzeros_dims@ =~= seq![g, packed]);
        assert(scales_dims@ =~= seq![g, n]);
    }
    if qweight.dtype != DType::I32 || qzeros.dtype != DType::I32 || !shape_eq(
        qweight.shape.as_slice(),
        qweight_dims.as_slice(),
    ) || !shape_eq(qzeros.shape.as_slice(), qzeros_dims.as_slice()) || scales.dtype
        != DType::F16 || !shape_eq(scales.shape.as_slice(), scales_dims.as_slice()) {
        return Err(Int4Error(OPERAND_SHAPE_MESSAGE));
    }
    if qzeros.device != qweight.device || scales.device != qweight.device {
        return Err(Int4Error(OPERAND_DEVICE_MESSAGE));
    }
    if let Some(b) = bias {
        if b.device != qweight.device {
            return Err(Int4Error(OPERAND_DEVICE_MESSAGE));
        }
    }
    if let Some(b) = bias {
        let bias_dims = [n];
        proof {
            assert(bias_dims@ =~= seq![n]);
        }
        if b.dtype != DType::F16 || !shape_eq(b.shape.as_slice(), bias_dims.as_slice()) {
            return Err(Int4Error(BIAS_MESSAGE));
        }
    }
    Ok(layout)
}

/// What a forward pass of an AWQ GEMM computes on a given input.
pub struct AwqForwardPlan {
    /// Shape of the output: the input's, with the last dimension set to the output features.
    pub out_shape: Vec<usize>,
    /// Number of input rows (product of the leading dimensions).
    pub rows: usize,
    /// Number of output elements.
    pub elements: usize,
    /// Whether a kernel launch is needed (the output is not empty).
    pub launch: bool,
    /// Element type of the output, allocated contiguous: `F16`.
    pub out_dtype: DType,
    /// Device of the output: the input's.
    pub out_device: DeviceId,
}

/// Leading dimensions of an input: all but the last.
pub open spec fn leading_dims(s: Seq<usize>) -> Seq<usize> {
    s.take(s.len() - 1)
}

/// Result of the forward-pass checks on an input, in the order they are made:
/// dtype and last dimension, device, row count, output size, `u32` range.
pub open spec fn awq_forward_spec(layout: AwqGemmLayout, weights_device: DeviceId, input: TensorMeta) -> Result<(Seq<usize>, int, int), Int4Error> {
    let s = input.shape@;
    let k = layout.input_features;
    let n = layout.output_features;
    let rows = prod(leading_dims(s));
    if s.len() == 0 || s[s.len() - 1] != k || input.dtype != DType::F16 {
        Err(Int4Error(INPUT_MESSAGE))
    } else if input.device != weights_device {
        Err(Int4Error(INPUT_DEVICE_MESSAGE))
    } else if !prefix_prods_fit(leading_dims(s)) {
        Err(Int4Error(BATCH_OVERFLOW_MESSAGE))
    } else if rows * n > usize::MAX {
        Err(Int4Error(OUTPUT_OVERFLOW_MESSAGE))
    } else if rows * n > u32::MAX || rows * k > u32::MAX {
        Err(Int4Error(BATCH_RANGE_MESSAGE))
    } else {
        Ok((s.update(s.len() - 1, n), rows, rows * n))
    }
}

impl AwqGemmLayout {
    /// Checks an input of a forward pass against this layout and the weights'
    /// device, and plans the output.
    pub fn forward_plan(self, weights_device: DeviceId, input: &TensorMeta) -> (r: Result<
        AwqForwardPlan,
        Int4Error,
    >)
        ensures
            match (r, awq_forward_spec(self, weights_device, *input)) {
                (Ok(plan), Ok((shape, rows, elements))) => plan.out_shape@ == shape && plan.rows
                    == rows && plan.elements == elements && plan.launch == (elements != 0)
                    && plan.out_dtype == DType::F16 && plan.out_device == input.device,
                (Err(e), Err(f)) => e == f,
                _ => false,
            },
    {
        let rank = input.shape.len();
        let k = self.input_features;
        let n = self.output_features;
        if rank == 0 || input.shape[rank - 1] != k || input.dtype != DType::F16 {
            return Err(Int4Error(INPUT_MESSAGE));
        }
        if input.device != weights_device {
            return Err(Int4Error(INPUT_DEVICE_MESSAGE));
        }
        let lead = &input.shape.as_slice()[0..rank - 1];
        proof {
            assert(lead@ =~= leading_dims(input.shape@));
        }
        let rows = match checked_product(lead) {
            Some(r) => r,
            None => {
                return Err(Int4Error(BATCH_OVERFLOW_MESSAGE));
            },
        };
        let elements = match rows.checked_mul(n) {
            Some(e) => e,
            None => {
                return Err(Int4Error(OUTPUT_OVERFLOW_MESSAGE));
            },
        };
        let inner_too_large = match rows.checked_mul(k) {
            None => true,
            Some(size) => size > 0xffff_ffffusize,
        };
        if elements > 0xffff_ffffusize || inner_too_large {
            return Err(Int4Error(BATCH_RANGE_MESSAGE));
        }
        let mut out_shape = input.shape.clone();
        out_shape.set(rank - 1, n);
        proof {
            assert(out_shape@ =~= input.shape@.update(rank - 1, n));
        }
        Ok(
            AwqForwardPlan {
                out_shape,
                rows,
                elements,
                launch: elements != 0,
                out_dtype: DType::F16,
                out_device: input.device,
            },
        )
    }
}

/// Scalar arguments of the AWQ GEMM kernel.
#[derive(Debug, Clone, Copy, PartialEq, Eq, Structural)]
pub struct AwqKernelArgs {
    pub input_features: u32,
    pub output_features: u32,
    pub group_size: u32,
    /// 1 when a bias is added, 0 otherwise.
    pub has_bias: u32,
}

impl AwqGemmLayout {
    /// The kernel's scalar arguments: the layout's sizes, which a valid
    /// layout keeps inside `u32`, and the bias flag.
    pub fn kernel_args(self, has_bias: bool) -> (r: AwqKernelArgs)
        requires
            awq_shape_ok(self.input_features, self.output_features, self.group_size),
            awq_range_ok(self.input_features, self.output_features),
        ensures
            r.input_features == self.input_features,
            r.output_features == self.output_features,
            r.group_size == self.group_size,
            r.has_bias == if has_bias {
                1u32
            } else {
                0u32
            },
    {
        let k = self.input_features;
        let n = self.output_features;
        proof {
            assert(k <= k * n && n <= k * n) by (nonlinear_arith)
                requires
                    k >= 1,
                    n >= 1,
            ;
            vstd::arithmetic::div_mod::lemma_mod_is_zero(k as nat, self.group_size as nat);
        }
        AwqKernelArgs {
            input_features: k as u32,
            output_features: n as u32,
            group_size: self.group_size as u32,
            has_bias: if has_bias {
                1
            } else {
                0
            },
        }
    }
}

/// Bit shift of the 4-bit value of output column `column` inside its packed
/// 32-bit word: the eight lanes of a word hold the word's columns in the
/// order 0, 2, 4, 6, 1, 3, 5, 7.
pub open spec fn awq_shift(column: int) -> int {
    let lane = column % 8;
    ((lane % 2) * 4 + lane / 2) * 4
}

/// Bit shift of output column `column` inside its packed word (see [`awq_shift`]).
pub fn awq_nibble_shift(column: usize) -> (r: u32)
    ensures
        r == awq_shift(column as int),
        r % 4 == 0,
        r < 32,
{
    let lane = column % 8;
    ((lane % 2) * 4 + lane / 2) as u32 * 4
}

/// The 4-bit value of output column `column` in a packed word.
pub fn awq_unpack(word: u32, column: usize) -> (r: u32)
    ensures
        r == (word >> (awq_shift(column as int) as u32)) & 15u32,
        r < 16,
{
    let shift = awq_nibble_shift(column);
    let v = (word >> shift) & 15u32;
    assert(v < 16) by (bit_vector)
        requires
            v == (word >> shift) & 15u32,
    ;
    v
}

/// Element indices that the AWQ kernel reads for contraction index `inner`
/// and output column `column`: the packed weight word `[inner, column / 8]`,
/// the packed zero word `[inner / group_size, column / 8]` and the scale
/// `[inner / group_size, column]`, in row-major order.
pub fn awq_operand_indices(layout: AwqGemmLayout, inner: usize, column: usize) -> (r: (usize, usize, usize))
    requires
        awq_shape_ok(layout.input_features, layout.output_features, layout.group_size),
        awq_range_ok(layout.input_features, layout.output_features),
        inner < layout.input_features,
        column < layout.output_features,
    ensures
        ({
            let n = layout.output_features as int;
            let packed = n / 8;
            let group = (inner as int) / (layout.group_size as int);
            let groups = (layout.input_features as int) / (layout.group_size as int);
            &&& r.0 == inner * packed + column / 8
            &&& r.1 == group * packed + column / 8
            &&& r.2 == group * n + column
            &&& r.0 < layout.input_features * packed
            &&& r.1 < groups * packed
            &&& r.2 < groups * n
        }),
{
    let n = layout.output_features;
    let k = layout.input_features;
    let g = layout.group_size;
    let packed = n / 8;
    let group = inner / g;
    let groups = k / g;
    let c8 = column / 8;
    proof {
        assert(k * n <= u32::MAX);
        assert(packed <= n && c8 < packed) by {
            vstd::arithmetic::div_mod::lemma_fundamental_div_mod(n as int, 8);
            vstd::arithmetic::div_mod::lemma_fundamental_div_mod(column as int, 8);
        }
        assert(group < groups) by {
            vstd::arithmetic::div_mod::lemma_fundamental_div_mod(k as int, g as int);
            vstd::arithmetic::div_mod::lemma_fundamental_div_mod(inner as int, g as int);
            assert(group * g <= inner < k == groups * g) by (nonlinear_arith)
                requires
                    inner == g * group + inner % g,
                    0 <= inner % g,
                    k == g * groups + k % g,
                    k % g == 0,
                    inner < k,
            ;
            assert(group < groups) by (nonlinear_arith)
                requires
                    group * g < groups * g,
                    g > 0,
            ;
        }
        assert(inner * packed + c8 < k * packed) by (nonlinear_arith)
            requires
                inner < k,
                c8 < packed,
        ;
        assert(group * packed + c8 < groups * packed) by (nonlinear_arith)
            requires
                group < groups,
                c8 < packed,
        ;
        assert(group * n + column < groups * n) by (nonlinear_arith)
            requires
                group < groups,
                column < n,
        ;
        assert(groups <= k) by {
            vstd::arithmetic::div_mod::lemma_div_is_ordered_by_denominator(k as int, 1, g as int);
        }
        assert(groups * n <= k * n) by (nonlinear_arith)
            requires
                groups <= k,
        ;
        assert(k * packed <= k * n) by (nonlinear_arith)
            requires
                packed <= n,
        ;
        assert(groups * packed <= k * packed) by (nonlinear_arith)
            requires
                groups <= k,
        ;
    }
    (inner * packed + c8, group * packed + c8, group * n + column)
}

/// Law: the eight columns that share a packed word read eight different
/// 4-bit lanes of it, each inside the word.
pub proof fn lemma_awq_lanes_distinct(c1: int, c2: int)
    requires
        0 <= c1,
        0 <= c2,
        c1 / 8 == c2 / 8,
        c1 != c2,
    ensures
        awq_shift(c1) != awq_shift(c2),
        0 <= awq_shift(c1) <= 28,
        awq_shift(c1) % 4 == 0,
{
    vstd::arithmetic::div_mod::lemma_fundamental_div_mod(c1, 8);
    vstd::arithmetic::div_mod::lemma_fundamental_div_mod(c2, 8);
    let l1 = c1 % 8;
    let l2 = c2 % 8;
    assert(l1 != l2);
    assert(0 <= l1 < 8 && 0 <= l2 < 8);
}

/// Law: a validated layout has complete input groups (groups times group
/// size is the input features), whole packed output words, and a weight
/// matrix inside `u32` indexing.
pub proof fn lemma_layout_groups_complete(input_features: usize, output_features: usize, group_size: usize)
    requires
        awq_layout_spec(input_features, output_features, group_size) is Ok,
    ensures
        ({
            let l = awq_layout_spec(input_features, output_features, group_size)->Ok_0;
            &&& l.group_size > 0
            &&& (l.input_features / l.group_size) * l.group_size == l.input_features
            &&& (l.output_features / 8) * 8 == l.output_features
            &&& l.input_features * l.output_features <= u32::MAX
        }),
{
    vstd::arithmetic::div_mod::lemma_fundamental_div_mod(input_features as int, group_size as int);
    vstd::arithmetic::div_mod::lemma_fundamental_div_mod(output_features as int, 8);
    vstd::arithmetic::mul::lemma_mul_is_commutative(
        (input_features / group_size) as int,
        group_size as int,
    );
}

/// Law: every `F16` input of rank at least 1 whose last dimension is the
/// layout's input features, on the weights' device and within the size
/// limits, is accepted (a single vector `[K]` as well as batches). Its output
/// keeps the input's shape with the last dimension replaced by the output
/// features; the rows are the product of the leading dimensions (1 for a
/// single vector) and the output holds rows times output features elements.
pub proof fn lemma_forward_accepts_every_rank(layout: AwqGemmLayout, weights_device: DeviceId, input: TensorMeta)
    requires
        input.shape@.len() >= 1,
        input.shape@[input.shape@.len() - 1] == layout.input_features,
        input.dtype == DType::F16,
        input.device == weights_device,
        prefix_prods_fit(input.shape@.take(input.shape@.len() - 1)),
        prod(input.shape@.take(input.shape@.len() - 1)) * layout.output_features <= u32::MAX,
        prod(input.shape@.take(input.shape@.len() - 1)) * layout.input_features <= u32::MAX,
    ensures
        awq_forward_spec(layout, weights_device, input) matches Ok((shape, rows, elements)) && {
            let s = input.shape@;
            &&& shape.len() == s.len()
            &&& shape[s.len() - 1] == layout.output_features
            &&& forall|i: int| 0 <= i < s.len() - 1 ==> shape[i] == s[i]
            &&& rows == prod(s.take(s.len() - 1))
            &&& elements == rows * layout.output_features
        },
        input.shape@.len() == 1 ==> (awq_forward_spec(layout, weights_device, input) matches Ok(
            (shape, rows, elements),
        ) && rows == 1 && shape == seq![layout.output_features]),
{
    let s = input.shape@;
    if s.len() == 1 {
        assert(s.take(0) =~= Seq::<usize>::empty());
        assert(s.update(0, layout.output_features) =~= seq![layout.output_features]);
    }
}

} // verus!
