//! Device tensor matmul: choice of the launch route and of the global input types.

use vstd::prelude::*;
use crate::meta::{DType, DeviceId, TensorMeta};

verus! {

/// The strategy to be used when launching a matmul kernel.
#[derive(Clone, Copy, Debug, PartialEq, Eq, Structural)]
pub enum MatmulStrategy {
    /// Tiled implementation selected for the device.
    Cube,
    /// Tensor Core path with the partial K32 tile first; no materialized padding.
    CmmaResidueFirst,
    /// One output element per unit, used by runtimes without plane arithmetic.
    Naive,
}

impl Default for MatmulStrategy {
    fn default() -> (r: Self)
        ensures
            r == MatmulStrategy::Cube,
    {
        MatmulStrategy::Cube
    }
}

/// Error of the matmul setup.
#[derive(Clone, Debug, PartialEq, Eq)]
pub enum MatmulSetupError {
    /// The inputs do not suit the requested configuration.
    InvalidConfig(&'static str),
}

/// Message when the residue-first path receives unsuitable inputs.
pub const RESIDUE_FIRST_MESSAGE: &'static str = "residue-first matmul requires matching unquantized BF16 or F16 inputs";

/// Kernel family a matmul call launches.
#[derive(Clone, Copy, Debug, PartialEq, Eq, Structural)]
pub enum LaunchRoute {
    /// The cyclic-loading Tensor Core kernel that handles the partial K tile first.
    ResidueFirst,
    /// The default tiled kernel.
    Tiled,
    /// The naive kernel, with dequantization when a quantized launch fails.
    Naive,
}

/// Inputs accepted by the residue-first path: matching, unquantized `BF16` or `F16`.
pub open spec fn residue_first_inputs_ok(lhs: TensorMeta, rhs: TensorMeta) -> bool {
    &&& (lhs.dtype == DType::BF16 || lhs.dtype == DType::F16)
    &&& lhs.dtype == rhs.dtype
    &&& !lhs.quantized
    &&& !rhs.quantized
}

/// The launch route of a matmul with the given strategy and inputs.
pub open spec fn route_spec(strategy: MatmulStrategy, lhs: TensorMeta, rhs: TensorMeta) -> Result<LaunchRoute, MatmulSetupError> {
    match strategy {
        MatmulStrategy::CmmaResidueFirst => if residue_first_inputs_ok(lhs, rhs) {
            Ok(LaunchRoute::ResidueFirst)
        } else {
            Err(MatmulSetupError::InvalidConfig(RESIDUE_FIRST_MESSAGE))
        },
        MatmulStrategy::Cube => Ok(LaunchRoute::Tiled),
        MatmulStrategy::Naive => Ok(LaunchRoute::Naive),
    }
}

/// Chooses the launch route of a matmul. Only the residue-first strategy
/// checks its inputs here, and refuses unsuitable ones instead of falling back.
pub fn matmul_route(strategy: MatmulStrategy, lhs: &TensorMeta, rhs: &TensorMeta) -> (r: Result<LaunchRoute, MatmulSetupError>)
    ensures
        r == route_spec(strategy, *lhs, *rhs),
        strategy == MatmulStrategy::CmmaResidueFirst ==> (r == Ok::<LaunchRoute, MatmulSetupError>(
            LaunchRoute::ResidueFirst,
        ) <==> (!lhs.quantized && !rhs.quantized && lhs.dtype == rhs.dtype && (lhs.dtype
            == DType::F16 || lhs.dtype == DType::BF16))),
        strategy == MatmulStrategy::CmmaResidueFirst && r is Err ==> r == Err::<
            LaunchRoute,
            MatmulSetupError,
        >(MatmulSetupError::InvalidConfig(RESIDUE_FIRST_MESSAGE)),
        strategy == MatmulStrategy::Cube ==> r == Ok::<LaunchRoute, MatmulSetupError>(LaunchRoute::Tiled),
        strategy == MatmulStrategy::Naive ==> r == Ok::<LaunchRoute, MatmulSetupError>(LaunchRoute::Naive),
{
    proof {
        lemma_residue_first_accepts_half_pairs(strategy, *lhs, *rhs);
    }
    match strategy {
        MatmulStrategy::CmmaResidueFirst => {
            let half = match lhs.dtype {
                DType::BF16 | DType::F16 => true,
                _ => false,
            };
            if !half || lhs.dtype != rhs.dtype || lhs.quantized || rhs.quantized {
                return Err(MatmulSetupError::InvalidConfig(RESIDUE_FIRST_MESSAGE));
            }
            Ok(LaunchRoute::ResidueFirst)
        },
        MatmulStrategy::Cube => Ok(LaunchRoute::Tiled),
        MatmulStrategy::Naive => Ok(LaunchRoute::Naive),
    }
}

/// A matmul launch: the route and the `f32` arithmetic policy the kernel
/// runs with. The policy is the caller's value, of the policy type `P`.
#[derive(Clone, Copy, Debug, PartialEq, Eq)]
pub struct LaunchPlan<P> {
    pub route: LaunchRoute,
    pub f32_math: P,
}

/// Plans a matmul launch with an explicit, per-call `f32` arithmetic
/// policy: the route of [`route_spec`], and whichever route is chosen runs
/// with the caller's policy; a refused route is the same error.
pub fn launch_plan<P: Copy>(strategy: MatmulStrategy, lhs: &TensorMeta, rhs: &TensorMeta, f32_math: P) -> (r: Result<
    LaunchPlan<P>,
    MatmulSetupError,
>)
    ensures
        r == match route_spec(strategy, *lhs, *rhs) {
            Ok(route) => Ok(LaunchPlan { route, f32_math }),
            Err(e) => Err(e),
        },
{
    match matmul_route(strategy, lhs, rhs) {
        Ok(route) => Ok(LaunchPlan { route, f32_math }),
        Err(e) => Err(e),
    }
}

/// Where a matmul writes its result.
#[derive(Clone, Copy, Debug, PartialEq, Eq, Structural)]
pub enum MatmulOutput {
    /// Into the output tensor the caller passed, which is then returned.
    Given,
    /// Into a new contiguous tensor of this type on this device, shaped as
    /// the product of the operands, which is then returned.
    Allocate { dtype: DType, device: DeviceId },
}

/// The output of a matmul: the caller's when one is passed, otherwise a new
/// tensor of the requested output type on the left-hand operand's device.
pub fn matmul_output(out_given: bool, lhs: &TensorMeta, out_dtype: DType) -> (r: MatmulOutput)
    ensures
        r == if out_given {
            MatmulOutput::Given
        } else {
            MatmulOutput::Allocate { dtype: out_dtype, device: lhs.device }
        },
{
    if out_given {
        MatmulOutput::Given
    } else {
        MatmulOutput::Allocate { dtype: out_dtype, device: lhs.device }
    }
}

/// Global element types handed to a kernel, and whether the right-hand side
/// is dequantized before the launch.
#[derive(Clone, Copy, Debug, PartialEq, Eq, Structural)]
pub struct GlobalInputTypes {
    pub lhs: DType,
    pub rhs: DType,
    pub dequantize_rhs: bool,
}

/// Global input types of a launch. A quantized operand is read in the output
/// type; an unquantized right-hand side is read in the left-hand type. The
/// naive kernel cannot read block-quantized right-hand sides: those are
/// dequantized to the left-hand type first.
pub fn global_input_types(
    naive: bool,
    lhs_dtype: DType,
    lhs_quantized: bool,
    rhs_quantized: bool,
    rhs_block_quantized: bool,
    out_dtype: DType,
) -> (r: GlobalInputTypes)
    ensures
        r.lhs == if lhs_quantized {
            out_dtype
        } else {
            lhs_dtype
        },
        r.dequantize_rhs == (rhs_quantized && naive && rhs_block_quantized),
        r.rhs == if !rhs_quantized || r.dequantize_rhs {
            r.lhs
        } else {
            out_dtype
        },
{
    let lhs = if lhs_quantized {
        out_dtype
    } else {
        lhs_dtype
    };
    if !rhs_quantized {
        GlobalInputTypes { lhs, rhs: lhs, dequantize_rhs: false }
    } else if naive && rhs_block_quantized {
        GlobalInputTypes { lhs, rhs: lhs, dequantize_rhs: true }
    } else {
        GlobalInputTypes { lhs, rhs: out_dtype, dequantize_rhs: false }
    }
}

/// What the naive route does after one launch attempt.
#[derive(Clone, Copy, Debug, PartialEq, Eq, Structural)]
pub enum NaiveStep {
    /// The attempt's result is the result of the matmul.
    Finish,
    /// Dequantize the marked operands to the output type and launch once more.
    DequantizeAndRetry { lhs: bool, rhs: bool },
}

/// The step after a naive launch attempt. The naive kernel is meant to run
/// on every input, so a first attempt with a quantized operand that fails is
/// retried once with the quantized operands dequantized; every other result
/// is final.
pub open spec fn naive_step_spec(lhs_quantized: bool, rhs_quantized: bool, first_attempt: bool, failed: bool) -> NaiveStep {
    if first_attempt && failed && (lhs_quantized || rhs_quantized) {
        NaiveStep::DequantizeAndRetry { lhs: lhs_quantized, rhs: rhs_quantized }
    } else {
        NaiveStep::Finish
    }
}

/// The step after a naive launch attempt (see [`naive_step_spec`]).
pub fn naive_next_step(lhs_quantized: bool, rhs_quantized: bool, first_attempt: bool, failed: bool) -> (r: NaiveStep)
    ensures
        r == naive_step_spec(lhs_quantized, rhs_quantized, first_attempt, failed),
{
    if first_attempt && failed && (lhs_quantized || rhs_quantized) {
        NaiveStep::DequantizeAndRetry { lhs: lhs_quantized, rhs: rhs_quantized }
    } else {
        NaiveStep::Finish
    }
}

/// Law: the naive route launches at most twice, and its second launch only
/// reads unquantized operands: after a retry both operands are unquantized,
/// and whatever the second attempt returns is final.
pub proof fn lemma_naive_retries_once(lhs_quantized: bool, rhs_quantized: bool, failed: bool, failed_again: bool)
    ensures
        naive_step_spec(lhs_quantized, rhs_quantized, true, failed) matches NaiveStep::DequantizeAndRetry {
            lhs,
            rhs,
        } ==> {
            let lq = lhs_quantized && !lhs;
            let rq = rhs_quantized && !rhs;
            &&& !lq && !rq
            &&& naive_step_spec(lq, rq, false, failed_again) == NaiveStep::Finish
        },
{
}

/// Law: the residue-first Tensor Core route takes every pair of unquantized
/// operands of one half-precision type, `F16` as well as `BF16`, and refuses
/// every other pair with its configuration error, never falling back to
/// another route; the tiled and naive strategies always launch their own
/// kernels.
pub proof fn lemma_residue_first_accepts_half_pairs(strategy: MatmulStrategy, lhs: TensorMeta, rhs: TensorMeta)
    ensures
        strategy == MatmulStrategy::CmmaResidueFirst ==> (route_spec(strategy, lhs, rhs) == Ok::<
            LaunchRoute,
            MatmulSetupError,
        >(LaunchRoute::ResidueFirst) <==> (!lhs.quantized && !rhs.quantized && lhs.dtype
            == rhs.dtype && (lhs.dtype == DType::F16 || lhs.dtype == DType::BF16))),
        strategy == MatmulStrategy::CmmaResidueFirst && route_spec(strategy, lhs, rhs) is Err
            ==> route_spec(strategy, lhs, rhs) == Err::<LaunchRoute, MatmulSetupError>(
            MatmulSetupError::InvalidConfig(RESIDUE_FIRST_MESSAGE),
        ),
        strategy == MatmulStrategy::Cube ==> route_spec(strategy, lhs, rhs) == Ok::<
            LaunchRoute,
            MatmulSetupError,
        >(LaunchRoute::Tiled),
        strategy == MatmulStrategy::Naive ==> route_spec(strategy, lhs, rhs) == Ok::<
            LaunchRoute,
            MatmulSetupError,
        >(LaunchRoute::Naive),
{
}

} // verus!
