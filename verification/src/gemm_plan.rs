//! The GEMM calls of the host floating-point matrix product.
//!
//! The arithmetic itself runs in an outside GEMM routine on floating-point
//! data; this module decides what it is asked to do: the output shape, the
//! matrix strides, the element offsets of every batch's operands and output,
//! and how the batches are scheduled.

use vstd::prelude::*;
use crate::arith::{
    abs_all, broadcast_dim, broadcast_len, broadcast_stride, broadcastable, extent, isize_ints,
    lemma_extent_mono, lemma_padded_suffix_prod, lemma_pos_dims_prod, lemma_prod_pos_dims,
    lemma_prod_zero, lemma_strided_sum_abs, lemma_strided_sum_le_extent, lemma_strided_sum_scale,
    lemma_suffix_prod_matrix, padded, prod, strided_sum, suffix_prod, suffix_prods_fit,
};
use crate::integer::{
    batch_dims, batches_broadcastable, cols, lhs_source, matmul_out_shape, out_batch, rhs_source, rows,
    suffix_products_fit,
};
use crate::meta::{checked_product, prefix_prods_fit};
use crate::parallel::{
    batch_schedule, get_parallelism, op_count, schedule_of, BatchSchedule, Parallelism,
    PARALLEL_THRESHOLD,
};
use crate::shape::{
    batch_elem_offset, broadcast_batch_dims, broadcast_batch_elem_strides, checked_size,
    elem_batch_strides, get_2d_strides, shape_product, StridedLayout,
};

verus! {

/// One GEMM call: where the two operand matrices and the output matrix start.
#[derive(Clone, Copy, Debug, PartialEq, Eq, Structural)]
pub struct GemmCall {
    /// Element offset of the left-hand matrix in the left-hand data.
    pub lhs_offset: isize,
    /// Element offset of the right-hand matrix in the right-hand data.
    pub rhs_offset: isize,
    /// Element offset of the output matrix in the contiguous output.
    pub out_offset: usize,
}

/// Everything a floating-point product `[B..., M, K] x [B..., K, N]` asks of
/// GEMM: the output shape, the matrix sizes and strides, one call per output
/// batch (in batch order), and the schedule of those calls.
pub struct GemmPlan {
    pub out_shape: Vec<usize>,
    pub m: usize,
    pub n: usize,
    pub k: usize,
    pub lhs_row_stride: isize,
    pub lhs_col_stride: isize,
    pub rhs_row_stride: isize,
    pub rhs_col_stride: isize,
    pub calls: Vec<GemmCall>,
    pub schedule: BatchSchedule,
}

/// Element strides of the batch axes of operand `l` inside the broadcast batch shape `out`.
pub open spec fn operand_batch_strides(l: StridedLayout, out: Seq<usize>) -> Seq<int> {
    isize_ints(elem_batch_strides(batch_dims(l.shape@), l.strides@, out.len() as int))
}

/// Element offset of the matrix of operand `l` that output batch `b` reads.
pub open spec fn operand_offset(l: StridedLayout, out: Seq<usize>, b: int) -> int {
    l.start_offset + strided_sum(out, operand_batch_strides(l, out), b, 0)
}

/// The batch offsets of operand `l` stay within `isize`: its start plus the
/// largest batch offset taken with absolute strides (nothing when the batch
/// is empty).
pub open spec fn batch_offsets_fit(l: StridedLayout, out: Seq<usize>) -> bool {
    prod(out) > 0 ==> l.start_offset + extent(out, abs_all(operand_batch_strides(l, out)), 0)
        <= isize::MAX
}

/// Both operands are plain matrices (no batch axes).
pub open spec fn is_2d(l: StridedLayout, r: StridedLayout) -> bool {
    l.shape@.len() == 2 && r.shape@.len() == 2
}

/// The layouts that the floating-point product multiplies: a stride per
/// axis, rank at least 2, matching inner dimensions, starts within `isize`,
/// an output matrix size within `usize`; with batch axes also broadcastable
/// batch shapes, batch and output sizes within `usize`, and batch offsets
/// within `isize`.
pub open spec fn float_matmul_supported(l: StridedLayout, r: StridedLayout) -> bool {
    let ls = l.shape@;
    let rs = r.shape@;
    &&& l.strides@.len() == ls.len()
    &&& r.strides@.len() == rs.len()
    &&& ls.len() >= 2
    &&& rs.len() >= 2
    &&& cols(ls) == rows(rs)
    &&& l.start_offset <= isize::MAX
    &&& r.start_offset <= isize::MAX
    &&& rows(ls) * cols(rs) <= usize::MAX
    &&& !is_2d(l, r) ==> {
        &&& broadcastable(batch_dims(ls), batch_dims(rs))
        &&& suffix_prods_fit(batch_dims(ls))
        &&& suffix_prods_fit(batch_dims(rs))
        &&& prefix_prods_fit(out_batch(ls, rs))
        &&& prod(out_batch(ls, rs)) * (rows(ls) * cols(rs)) <= usize::MAX
        &&& batch_offsets_fit(l, out_batch(ls, rs))
        &&& batch_offsets_fit(r, out_batch(ls, rs))
    }
}

/// Everything [`float_matmul_supported`] asks but the batch offsets: well
/// formed layouts, ranks, inner dimensions, broadcasting, and sizes within
/// `usize`.
pub open spec fn float_sizes_ok(l: StridedLayout, r: StridedLayout) -> bool {
    let ls = l.shape@;
    let rs = r.shape@;
    &&& layouts_wf(l, r)
    &&& ls.len() >= 2
    &&& rs.len() >= 2
    &&& cols(ls) == rows(rs)
    &&& rows(ls) * cols(rs) <= usize::MAX
    &&& !is_2d(l, r) ==> {
        &&& broadcastable(batch_dims(ls), batch_dims(rs))
        &&& suffix_prods_fit(batch_dims(ls))
        &&& suffix_prods_fit(batch_dims(rs))
        &&& prefix_prods_fit(out_batch(ls, rs))
        &&& prod(out_batch(ls, rs)) * (rows(ls) * cols(rs)) <= usize::MAX
    }
}

/// The schedule of the product: for two plain matrices, parallel GEMM from
/// the size threshold on; with batch axes, [`schedule_of`] the batch.
pub open spec fn plan_schedule(l: StridedLayout, r: StridedLayout) -> BatchSchedule {
    let m = rows(l.shape@);
    let k = cols(l.shape@);
    let n = cols(r.shape@);
    if is_2d(l, r) {
        if op_count(m, n, k) >= PARALLEL_THRESHOLD {
            BatchSchedule::EachParallel
        } else {
            BatchSchedule::Sequential
        }
    } else {
        schedule_of(prod(out_batch(l.shape@, r.shape@)), m, n, k)
    }
}

/// Call `c` is the one for output batch `b` of `l x r`.
pub open spec fn is_call_for(c: GemmCall, l: StridedLayout, r: StridedLayout, b: int) -> bool {
    let out = out_batch(l.shape@, r.shape@);
    &&& c.lhs_offset as int == operand_offset(l, out, b)
    &&& c.rhs_offset as int == operand_offset(r, out, b)
    &&& c.out_offset as int == b * (rows(l.shape@) * cols(r.shape@))
}

/// The plan is the one for `l x r`.
pub open spec fn is_plan_for(p: GemmPlan, l: StridedLayout, r: StridedLayout) -> bool {
    let ls = l.shape@;
    let rs = r.shape@;
    let out = out_batch(ls, rs);
    &&& p.out_shape@ == matmul_out_shape(ls, rs)
    &&& p.m == rows(ls)
    &&& p.k == cols(ls)
    &&& p.n == cols(rs)
    &&& p.lhs_row_stride == l.strides@[ls.len() - 2]
    &&& p.lhs_col_stride == l.strides@[ls.len() - 1]
    &&& p.rhs_row_stride == r.strides@[rs.len() - 2]
    &&& p.rhs_col_stride == r.strides@[rs.len() - 1]
    &&& p.calls@.len() == prod(out)
    &&& forall|b: int| 0 <= b < p.calls@.len() ==> #[trigger] is_call_for(p.calls@[b], l, r, b)
    &&& p.schedule == plan_schedule(l, r)
}

/// Offset of the matrix of one operand for output batch `b`: its start plus
/// the batch offset along its element strides.
fn operand_call_offset(
    b: usize,
    out: &[usize],
    elem_strides: &[isize],
    l: &StridedLayout,
) -> (r: isize)
    requires
        b < prod(out@),
        elem_strides@.len() == out@.len(),
        isize_ints(elem_strides@) == operand_batch_strides(*l, out@),
        batch_offsets_fit(*l, out@),
    ensures
        r as int == operand_offset(*l, out@, b as int),
{
    let ghost st = isize_ints(elem_strides@);
    proof {
        lemma_prod_pos_dims(out@);
        assert forall|j: int| 0 <= j < abs_all(st).len() implies abs_all(st)[j] >= 0 by {}
        lemma_strided_sum_le_extent(out@, abs_all(st), b as int, 0);
        lemma_strided_sum_abs(out@, st, b as int, 0);
    }
    let off = batch_elem_offset(b, out, elem_strides);
    l.start_offset as isize + off
}

/// The GEMM calls of the product `lhs x rhs` of two strided operands.
#[verifier::spinoff_prover]
pub fn gemm_plan(lhs: &StridedLayout, rhs: &StridedLayout) -> (p: GemmPlan)
    requires
        float_matmul_supported(*lhs, *rhs),
    ensures
        is_plan_for(p, *lhs, *rhs),
{
    let ghost ls = lhs.shape@;
    let ghost rs = rhs.shape@;
    let lr = lhs.shape.len();
    let rr = rhs.shape.len();
    let m = lhs.shape[lr - 2];
    let k = lhs.shape[lr - 1];
    let n = rhs.shape[rr - 1];
    let (lhs_row_stride, lhs_col_stride) = get_2d_strides(lhs);
    let (rhs_row_stride, rhs_col_stride) = get_2d_strides(rhs);
    let out_matrix_size = checked_size(m, n);
    if lr == 2 && rr == 2 {
        let ghost out = out_batch(ls, rs);
        proof {
            assert(batch_dims(ls).len() == 0);
            assert(batch_dims(rs).len() == 0);
            assert(out.len() == 0);
            assert(prod(out) == 1);
        }
        let mut calls: Vec<GemmCall> = Vec::new();
        calls.push(
            GemmCall {
                lhs_offset: lhs.start_offset as isize,
                rhs_offset: rhs.start_offset as isize,
                out_offset: 0,
            },
        );
        let schedule = match get_parallelism(m, n, k) {
            Parallelism::Rayon(_) => BatchSchedule::EachParallel,
            Parallelism::Sequential => BatchSchedule::Sequential,
        };
        let out_shape = vec![m, n];
        proof {
            assert(out_shape@ =~= matmul_out_shape(ls, rs));
            assert(0 * (rows(ls) * cols(rs)) == 0);
            assert(is_call_for(calls@[0], *lhs, *rhs, 0));
        }
        return GemmPlan {
            out_shape,
            m,
            n,
            k,
            lhs_row_stride,
            lhs_col_stride,
            rhs_row_stride,
            rhs_col_stride,
            calls,
            schedule,
        };
    }
    let lhs_batch = &lhs.shape.as_slice()[0..lr - 2];
    let rhs_batch = &rhs.shape.as_slice()[0..rr - 2];
    proof {
        assert(lhs_batch@ =~= batch_dims(ls));
        assert(rhs_batch@ =~= batch_dims(rs));
    }
    let (out, _, _) = broadcast_batch_dims(lhs_batch, rhs_batch);
    let ghost ob = out_batch(ls, rs);
    let batch_size = shape_product(out.as_slice());
    let lhs_elem = broadcast_batch_elem_strides(lhs_batch, lhs.strides.as_slice(), out.len());
    let rhs_elem = broadcast_batch_elem_strides(rhs_batch, rhs.strides.as_slice(), out.len());
    let mut calls: Vec<GemmCall> = Vec::new();
    let mut b: usize = 0;
    while b < batch_size
        invariant
            b <= batch_size,
            batch_size as int == prod(ob),
            out@ == ob,
            ob == out_batch(ls, rs),
            ls == lhs.shape@,
            rs == rhs.shape@,
            float_matmul_supported(*lhs, *rhs),
            !is_2d(*lhs, *rhs),
            out_matrix_size as int == m * n,
            m == rows(ls),
            n == cols(rs),
            lhs_elem@.len() == ob.len(),
            rhs_elem@.len() == ob.len(),
            isize_ints(lhs_elem@) == operand_batch_strides(*lhs, ob),
            isize_ints(rhs_elem@) == operand_batch_strides(*rhs, ob),
            calls@.len() == b,
            forall|j: int| 0 <= j < b ==> #[trigger] is_call_for(calls@[j], *lhs, *rhs, j),
        decreases batch_size - b,
    {
        let lhs_offset = operand_call_offset(b, out.as_slice(), lhs_elem.as_slice(), lhs);
        let rhs_offset = operand_call_offset(b, out.as_slice(), rhs_elem.as_slice(), rhs);
        proof {
            let bb = b as int;
            let p = prod(ob);
            let mn = (m * n) as int;
            assert(bb * mn <= p * mn) by (nonlinear_arith)
                requires
                    0 <= bb < p,
                    mn >= 0,
            ;
        }
        let call = GemmCall { lhs_offset, rhs_offset, out_offset: b * out_matrix_size };
        assert(is_call_for(call, *lhs, *rhs, b as int));
        calls.push(call);
        b = b + 1;
    }
    let schedule = batch_schedule(batch_size, m, n, k);
    let mut out_shape = out;
    out_shape.push(m);
    out_shape.push(n);
    let plan = GemmPlan {
        out_shape,
        m,
        n,
        k,
        lhs_row_stride,
        lhs_col_stride,
        rhs_row_stride,
        rhs_col_stride,
        calls,
        schedule,
    };
    proof {
        assert(plan.out_shape@ =~= matmul_out_shape(ls, rs));
    }
    plan
}

/// Why a pair of layouts cannot be multiplied.
#[derive(Clone, Copy, Debug, PartialEq, Eq, Structural)]
pub enum FloatMatmulError {
    /// A layout has a stride count other than its rank, or a start beyond `isize`.
    MalformedLayout,
    /// An operand has fewer than two dimensions.
    RankTooSmall,
    /// The left-hand columns differ from the right-hand rows.
    InnerDimMismatch,
    /// The batch dimensions are not broadcastable.
    BatchNotBroadcastable,
    /// A batch, matrix or output size does not fit in `usize`.
    SizeOverflow,
    /// A batch offset of an operand does not fit in `isize`.
    OffsetOverflow,
}

/// Both layouts have a stride per axis and a start within `isize`.
pub open spec fn layouts_wf(l: StridedLayout, r: StridedLayout) -> bool {
    &&& l.strides@.len() == l.shape@.len()
    &&& r.strides@.len() == r.shape@.len()
    &&& l.start_offset <= isize::MAX
    &&& r.start_offset <= isize::MAX
}

/// Whether the batch offsets along `elem_strides` inside the batch shape
/// `out`, added to `start`, stay within `isize` (true for an empty batch).
pub fn batch_offsets_within(out: &[usize], elem_strides: &[isize], start: usize) -> (r: bool)
    requires
        elem_strides@.len() == out@.len(),
    ensures
        r == (prod(out@) > 0 ==> start + extent(out@, abs_all(isize_ints(elem_strides@)), 0)
            <= isize::MAX),
{
    let ghost st = abs_all(isize_ints(elem_strides@));
    let len = out.len();
    let mut i: usize = 0;
    while i < len
        invariant
            i <= len,
            len == out@.len(),
            forall|j: int| 0 <= j < i ==> out@[j] > 0,
        decreases len - i,
    {
        if out[i] == 0 {
            proof {
                lemma_prod_zero(out@);
            }
            return true;
        }
        i = i + 1;
    }
    proof {
        lemma_pos_dims_prod(out@);
        assert forall|j: int| 0 <= j < st.len() implies st[j] >= 0 by {}
        lemma_extent_mono(out@, st, 0, len as int);
    }
    if start > isize::MAX as usize {
        return false;
    }
    let limit = isize::MAX as usize - start;
    let mut acc: usize = 0;
    let mut i = len;
    while i > 0
        invariant
            i <= len,
            len == out@.len(),
            st == abs_all(isize_ints(elem_strides@)),
            elem_strides@.len() == out@.len(),
            forall|j: int| 0 <= j < out@.len() ==> out@[j] > 0,
            forall|j: int| 0 <= j < st.len() ==> st[j] >= 0,
            limit == isize::MAX - start,
            prod(out@) > 0,
            extent(out@, st, 0) >= extent(out@, st, i as int),
            acc as int == extent(out@, st, i as int),
            acc <= limit,
        decreases i,
    {
        i = i - 1;
        let d = out[i] - 1;
        let sv = elem_strides[i];
        let a: usize = if sv >= 0 {
            sv as usize
        } else {
            (-(sv + 1)) as usize + 1
        };
        assert(a as int == st[i as int]);
        proof {
            lemma_extent_mono(out@, st, 0, i as int);
            assert(extent(out@, st, i as int) == (d as int) * (a as int) + extent(
                out@,
                st,
                i + 1,
            ));
        }
        match d.checked_mul(a) {
            Some(t) => {
                if t > limit - acc {
                    return false;
                }
                acc = acc + t;
            },
            None => {
                return false;
            },
        }
    }
    true
}

/// Checks two layouts for the floating-point product: `Ok` exactly when
/// [`gemm_plan`] accepts them; otherwise the first failing condition, in the
/// order layout, ranks, inner dimensions, batch broadcasting, sizes, offsets.
pub fn check_float_matmul(lhs: &StridedLayout, rhs: &StridedLayout) -> (r: Result<(), FloatMatmulError>)
    ensures
        r is Ok <==> float_matmul_supported(*lhs, *rhs),
        r == Err::<(), FloatMatmulError>(FloatMatmulError::MalformedLayout) <==> !layouts_wf(
            *lhs,
            *rhs,
        ),
        r == Err::<(), FloatMatmulError>(FloatMatmulError::RankTooSmall) <==> (layouts_wf(*lhs, *rhs)
            && (lhs.shape@.len() < 2 || rhs.shape@.len() < 2)),
        r == Err::<(), FloatMatmulError>(FloatMatmulError::InnerDimMismatch) <==> (layouts_wf(
            *lhs,
            *rhs,
        ) && lhs.shape@.len() >= 2 && rhs.shape@.len() >= 2 && cols(lhs.shape@) != rows(rhs.shape@)),
        r == Err::<(), FloatMatmulError>(FloatMatmulError::BatchNotBroadcastable) <==> (layouts_wf(
            *lhs,
            *rhs,
        ) && lhs.shape@.len() >= 2 && rhs.shape@.len() >= 2 && cols(lhs.shape@) == rows(rhs.shape@)
            && !is_2d(*lhs, *rhs) && !broadcastable(batch_dims(lhs.shape@), batch_dims(rhs.shape@))),
        r == Err::<(), FloatMatmulError>(FloatMatmulError::SizeOverflow) <==> (layouts_wf(*lhs, *rhs)
            && lhs.shape@.len() >= 2 && rhs.shape@.len() >= 2 && cols(lhs.shape@) == rows(rhs.shape@)
            && (is_2d(*lhs, *rhs) || broadcastable(batch_dims(lhs.shape@), batch_dims(rhs.shape@)))
            && !float_sizes_ok(*lhs, *rhs)),
        r == Err::<(), FloatMatmulError>(FloatMatmulError::OffsetOverflow) <==> (float_sizes_ok(
            *lhs,
            *rhs,
        ) && !float_matmul_supported(*lhs, *rhs)),
{
    if lhs.strides.len() != lhs.shape.len() || rhs.strides.len() != rhs.shape.len()
        || lhs.start_offset > isize::MAX as usize || rhs.start_offset > isize::MAX as usize {
        return Err(FloatMatmulError::MalformedLayout);
    }
    let ghost ls = lhs.shape@;
    let ghost rs = rhs.shape@;
    let lr = lhs.shape.len();
    let rr = rhs.shape.len();
    if lr < 2 || rr < 2 {
        return Err(FloatMatmulError::RankTooSmall);
    }
    let m = lhs.shape[lr - 2];
    let k = lhs.shape[lr - 1];
    let n = rhs.shape[rr - 1];
    if k != rhs.shape[rr - 2] {
        return Err(FloatMatmulError::InnerDimMismatch);
    }
    if lr == 2 && rr == 2 {
        return match m.checked_mul(n) {
            Some(_) => Ok(()),
            None => Err(FloatMatmulError::SizeOverflow),
        };
    }
    let lhs_batch = &lhs.shape.as_slice()[0..lr - 2];
    let rhs_batch = &rhs.shape.as_slice()[0..rr - 2];
    proof {
        assert(lhs_batch@ =~= batch_dims(ls));
        assert(rhs_batch@ =~= batch_dims(rs));
    }
    if !batches_broadcastable(lhs_batch, rhs_batch) {
        return Err(FloatMatmulError::BatchNotBroadcastable);
    }
    if !suffix_products_fit(lhs_batch) || !suffix_products_fit(rhs_batch) {
        return Err(FloatMatmulError::SizeOverflow);
    }
    let (out, _, _) = broadcast_batch_dims(lhs_batch, rhs_batch);
    let batch = match checked_product(out.as_slice()) {
        Some(v) => v,
        None => {
            return Err(FloatMatmulError::SizeOverflow);
        },
    };
    let mn = match m.checked_mul(n) {
        Some(v) => v,
        None => {
            return Err(FloatMatmulError::SizeOverflow);
        },
    };
    if batch.checked_mul(mn).is_none() {
        return Err(FloatMatmulError::SizeOverflow);
    }
    let lhs_elem = broadcast_batch_elem_strides(lhs_batch, lhs.strides.as_slice(), out.len());
    let rhs_elem = broadcast_batch_elem_strides(rhs_batch, rhs.strides.as_slice(), out.len());
    if !batch_offsets_within(out.as_slice(), lhs_elem.as_slice(), lhs.start_offset)
        || !batch_offsets_within(out.as_slice(), rhs_elem.as_slice(), rhs.start_offset) {
        return Err(FloatMatmulError::OffsetOverflow);
    }
    Ok(())
}

/// A contiguous row-major layout: a stride per axis, each the product of the
/// dimensions after it.
pub open spec fn is_contiguous(l: StridedLayout) -> bool {
    &&& l.strides@.len() == l.shape@.len()
    &&& forall|i: int|
        0 <= i < l.shape@.len() ==> #[trigger] l.strides@[i] as int == suffix_prod(l.shape@, i + 1)
}

/// The batch strides of a contiguous operand are its matrix-level broadcast
/// strides times its matrix size.
proof fn lemma_contiguous_batch_strides(l: StridedLayout, out: Seq<usize>)
    requires
        is_contiguous(l),
        l.shape@.len() >= 2,
        batch_dims(l.shape@).len() <= out.len(),
        forall|i: int|
            0 <= i < out.len() ==> #[trigger] padded(batch_dims(l.shape@), out.len() as int)[i]
                != 0,
    ensures
        operand_batch_strides(l, out).len() == out.len(),
        forall|i: int|
            0 <= i < out.len() ==> #[trigger] operand_batch_strides(l, out)[i] == broadcast_stride(
                padded(batch_dims(l.shape@), out.len() as int),
                i,
            ) * (rows(l.shape@) * cols(l.shape@)),
{
    let ls = l.shape@;
    let a = batch_dims(ls);
    let len = out.len() as int;
    let p = padded(a, len);
    let off = len - a.len();
    let mk = rows(ls) * cols(ls);
    assert forall|i: int| 0 <= i < len implies #[trigger] operand_batch_strides(l, out)[i]
        == broadcast_stride(p, i) * mk by {
        if p[i] == 1 {
            assert(0 * mk == 0);
        } else {
            assert(i >= off);
            let j = i - off;
            assert(p[i] == a[j]);
            lemma_suffix_prod_matrix(ls, j + 1);
            lemma_padded_suffix_prod(a, len, i + 1);
            assert(l.strides@[j] as int == suffix_prod(ls, j + 1));
        }
    }
}

/// Law: for contiguous operands, the plan's call for output batch `b` reads
/// the operand matrices that the integer product reads for `b`: the batch
/// that broadcasting selects, times the matrix size, past the start.
pub proof fn lemma_contiguous_plan_reads_source_batches(l: StridedLayout, r: StridedLayout, b: int)
    requires
        is_contiguous(l),
        is_contiguous(r),
        l.shape@.len() >= 2,
        r.shape@.len() >= 2,
        broadcastable(batch_dims(l.shape@), batch_dims(r.shape@)),
        0 <= b < prod(out_batch(l.shape@, r.shape@)),
    ensures
        operand_offset(l, out_batch(l.shape@, r.shape@), b) == l.start_offset + lhs_source(
            l.shape@,
            r.shape@,
            b,
        ) * (rows(l.shape@) * cols(l.shape@)),
        operand_offset(r, out_batch(l.shape@, r.shape@), b) == r.start_offset + rhs_source(
            l.shape@,
            r.shape@,
            b,
        ) * (rows(r.shape@) * cols(r.shape@)),
{
    let ls = l.shape@;
    let rs = r.shape@;
    let bl = batch_dims(ls);
    let br = batch_dims(rs);
    let out = out_batch(ls, rs);
    let len = broadcast_len(bl, br);
    let pl = padded(bl, len);
    let pr = padded(br, len);
    lemma_prod_pos_dims(out);
    assert forall|i: int| 0 <= i < len implies #[trigger] pl[i] != 0 && pr[i] != 0 by {
        assert(out[i] == broadcast_dim(pl[i], pr[i]));
    }
    assert forall|i: int| 0 <= i < out.len() implies #[trigger] padded(bl, out.len() as int)[i]
        != 0 by {
        assert(pl[i] != 0);
    }
    assert forall|i: int| 0 <= i < out.len() implies #[trigger] padded(br, out.len() as int)[i]
        != 0 by {
        assert(pl[i] != 0 && pr[i] != 0);
    }
    lemma_contiguous_batch_strides(l, out);
    lemma_contiguous_batch_strides(r, out);
    let sl = Seq::new(pl.len(), |i: int| broadcast_stride(pl, i));
    let sr = Seq::new(pr.len(), |i: int| broadcast_stride(pr, i));
    lemma_strided_sum_scale(out, operand_batch_strides(l, out), sl, rows(ls) * cols(ls), b, 0);
    lemma_strided_sum_scale(out, operand_batch_strides(r, out), sr, rows(rs) * cols(rs), b, 0);
}

} // verus!
