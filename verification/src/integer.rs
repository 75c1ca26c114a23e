//! Integer matrix multiplication on host tensors, with wrapping arithmetic
//! and broadcasting over batch dimensions.

use vstd::prelude::*;
use crate::arith::{
    lemma_prod_pos_dims, lemma_suffix_prod_end, lemma_suffix_prod_start, lemma_suffix_prod_step,
    suffix_prod, suffix_prods_fit, broadcast_len, broadcast_shape, broadcast_stride, broadcastable, col_of,
    lemma_prod_nonneg, lemma_prod_split_matrix,
    lemma_source_batch_in_bounds, lemma_source_batch_identity, padded, coord, strided_sum, prod, row_of, source_batch, usize_ints, wdot_i32,
    wdot_i64, wfold_i64,
};
use crate::kernel::{at, lemma_rm_bound, lemma_rm_row_before, lemma_rm_row_end, matmul_i64_into};
use crate::meta::{checked_product, prefix_prods_fit, shape_matches_len};
use crate::shape::{
    gather, gathered, padded_dim, batch_index_to_offset, broadcast_batch_dims, checked_size, shape_product,
    view_fits, view_in_bounds, StridedLayout,
};

verus! {

/// A contiguous row-major host tensor: its shape and its elements.
pub struct DenseTensor<T> {
    pub shape: Vec<usize>,
    pub data: Vec<T>,
}

impl<T> DenseTensor<T> {
    /// The element count matches the shape.
    pub open spec fn wf(&self) -> bool {
        self.data@.len() == prod(self.shape@)
    }
}

/// A host tensor of one of the integer element types.
pub enum IntTensor {
    I32(DenseTensor<i32>),
    I64(DenseTensor<i64>),
}

impl IntTensor {
    /// The tensor's shape.
    pub open spec fn shape(&self) -> Seq<usize> {
        match self {
            IntTensor::I32(t) => t.shape@,
            IntTensor::I64(t) => t.shape@,
        }
    }

    /// The element count matches the shape.
    pub open spec fn wf(&self) -> bool {
        match self {
            IntTensor::I32(t) => t.wf(),
            IntTensor::I64(t) => t.wf(),
        }
    }

    /// Whether the element count matches the shape.
    pub fn is_consistent(&self) -> (r: bool)
        ensures
            r == self.wf(),
    {
        match self {
            IntTensor::I32(t) => shape_matches_len(t.shape.as_slice(), t.data.len()),
            IntTensor::I64(t) => shape_matches_len(t.shape.as_slice(), t.data.len()),
        }
    }

    /// Both tensors hold the same element type.
    pub open spec fn same_dtype(&self, other: &IntTensor) -> bool {
        (self is I32 && other is I32) || (self is I64 && other is I64)
    }
}

/// Leading (batch) dimensions of a shape of rank at least 2.
pub open spec fn batch_dims(s: Seq<usize>) -> Seq<usize> {
    s.take(s.len() - 2)
}

/// Number of rows of the matrices of a shape of rank at least 2.
pub open spec fn rows(s: Seq<usize>) -> int {
    s[s.len() - 2] as int
}

/// Number of columns of the matrices of a shape of rank at least 2.
pub open spec fn cols(s: Seq<usize>) -> int {
    s[s.len() - 1] as int
}

/// Batch shape of the product: the broadcast of both batch shapes.
pub open spec fn out_batch(ls: Seq<usize>, rs: Seq<usize>) -> Seq<usize> {
    broadcast_shape(batch_dims(ls), batch_dims(rs))
}

/// Shape of the product `[B..., M, K] x [B..., K, N] -> [B..., M, N]`.
pub open spec fn matmul_out_shape(ls: Seq<usize>, rs: Seq<usize>) -> Seq<usize> {
    out_batch(ls, rs).push(rows(ls) as usize).push(cols(rs) as usize)
}

/// Left-hand batch that output batch `b` reads.
pub open spec fn lhs_source(ls: Seq<usize>, rs: Seq<usize>, b: int) -> int {
    source_batch(
        padded(batch_dims(ls), broadcast_len(batch_dims(ls), batch_dims(rs))),
        out_batch(ls, rs),
        b,
    )
}

/// Right-hand batch that output batch `b` reads.
pub open spec fn rhs_source(ls: Seq<usize>, rs: Seq<usize>, b: int) -> int {
    source_batch(
        padded(batch_dims(rs), broadcast_len(batch_dims(ls), batch_dims(rs))),
        out_batch(ls, rs),
        b,
    )
}

/// Flat position of entry `(i, j)` of batch `b` of a row-major `[B, m, n]` tensor.
pub open spec fn batch_at(b: int, i: int, j: int, m: int, n: int) -> int {
    b * (m * n) + i * n + j
}

/// The shapes of a product that the host integer matmul accepts: both of
/// rank at least 2, matching inner dimensions, broadcastable batch shapes,
/// and sizes that fit in `usize`.
pub open spec fn int_matmul_supported(ls: Seq<usize>, rs: Seq<usize>) -> bool {
    &&& ls.len() >= 2
    &&& rs.len() >= 2
    &&& cols(ls) == rows(rs)
    &&& broadcastable(batch_dims(ls), batch_dims(rs))
    &&& suffix_prods_fit(batch_dims(ls))
    &&& suffix_prods_fit(batch_dims(rs))
    &&& prefix_prods_fit(out_batch(ls, rs))
    &&& rows(ls) * cols(ls) <= usize::MAX
    &&& rows(rs) * cols(rs) <= usize::MAX
    &&& rows(ls) * cols(rs) <= usize::MAX
    &&& prod(out_batch(ls, rs)) * (rows(ls) * cols(rs)) <= usize::MAX
}

/// The operands that [`int_matmul`] multiplies: the same element type,
/// supported shapes, and, for `i32`, a right-hand batch count whose leading
/// products fit in `usize` (the `i32` path counts the right-hand batches).
pub open spec fn int_operands_supported(lhs: &IntTensor, rhs: &IntTensor) -> bool {
    &&& lhs.same_dtype(rhs)
    &&& int_shapes_supported(lhs.shape(), rhs.shape(), lhs is I32)
}

/// The shapes that the integer product multiplies, for `i32` (`is_i32`) or
/// `i64` elements.
pub open spec fn int_shapes_supported(ls: Seq<usize>, rs: Seq<usize>, is_i32: bool) -> bool {
    &&& int_matmul_supported(ls, rs)
    &&& (is_i32 ==> prefix_prods_fit(batch_dims(rs)))
}

/// Entry `(i, j)` of batch `b` of the `i64` product: the wrapping dot product
/// of row `i` of the selected left-hand matrix and column `j` of the selected
/// right-hand matrix.
pub open spec fn entry_i64(lhs: Seq<i64>, ls: Seq<usize>, rhs: Seq<i64>, rs: Seq<usize>, b: int, i: int, j: int) -> i64 {
    let m = rows(ls);
    let k = cols(ls);
    let n = cols(rs);
    wdot_i64(
        row_of(lhs, lhs_source(ls, rs, b) * (m * k), i, k),
        col_of(rhs, rhs_source(ls, rs, b) * (k * n), j, k, n),
    )
}

/// Entry `(i, j)` of batch `b` of the `i32` product.
pub open spec fn entry_i32(lhs: Seq<i32>, ls: Seq<usize>, rhs: Seq<i32>, rs: Seq<usize>, b: int, i: int, j: int) -> i32 {
    let m = rows(ls);
    let k = cols(ls);
    let n = cols(rs);
    wdot_i32(
        row_of(lhs, lhs_source(ls, rs, b) * (m * k), i, k),
        col_of(rhs, rhs_source(ls, rs, b) * (k * n), j, k, n),
    )
}

/// The tensor `out` is the `i64` product of `lhs` and `rhs`.
pub open spec fn is_product_i64(lhs: DenseTensor<i64>, rhs: DenseTensor<i64>, out: DenseTensor<i64>) -> bool {
    is_product_of_i64(lhs.data@, lhs.shape@, rhs.data@, rhs.shape@, out)
}

/// The tensor `out` is the `i64` product of the row-major elements `ld` of
/// shape `ls` and `rd` of shape `rs`.
pub open spec fn is_product_of_i64(ld: Seq<i64>, ls: Seq<usize>, rd: Seq<i64>, rs: Seq<usize>, out: DenseTensor<i64>) -> bool {
    &&& out.shape@ == matmul_out_shape(ls, rs)
    &&& out.data@.len() == prod(out_batch(ls, rs)) * (rows(ls) * cols(rs))
    &&& forall|b: int, i: int, j: int|
        0 <= b < prod(out_batch(ls, rs)) && 0 <= i < rows(ls) && 0 <= j < cols(rs)
            ==> #[trigger] out.data@[batch_at(b, i, j, rows(ls), cols(rs))] == entry_i64(
            ld,
            ls,
            rd,
            rs,
            b,
            i,
            j,
        )
}

/// The tensor `out` is the `i32` product of `lhs` and `rhs`.
pub open spec fn is_product_i32(lhs: DenseTensor<i32>, rhs: DenseTensor<i32>, out: DenseTensor<i32>) -> bool {
    is_product_of_i32(lhs.data@, lhs.shape@, rhs.data@, rhs.shape@, out)
}

/// The tensor `out` is the `i32` product of the row-major elements `ld` of
/// shape `ls` and `rd` of shape `rs`.
pub open spec fn is_product_of_i32(ld: Seq<i32>, ls: Seq<usize>, rd: Seq<i32>, rs: Seq<usize>, out: DenseTensor<i32>) -> bool {
    &&& out.shape@ == matmul_out_shape(ls, rs)
    &&& out.data@.len() == prod(out_batch(ls, rs)) * (rows(ls) * cols(rs))
    &&& forall|b: int, i: int, j: int|
        0 <= b < prod(out_batch(ls, rs)) && 0 <= i < rows(ls) && 0 <= j < cols(rs)
            ==> #[trigger] out.data@[batch_at(b, i, j, rows(ls), cols(rs))] == entry_i32(
            ld,
            ls,
            rd,
            rs,
            b,
            i,
            j,
        )
}

/// Sizes of a supported product: the operands' matrices and batches lie inside their data.
proof fn lemma_operand_sizes<A, B>(lhs: DenseTensor<A>, rhs: DenseTensor<B>)
    requires
        lhs.wf(),
        rhs.wf(),
        int_matmul_supported(lhs.shape@, rhs.shape@),
    ensures
        lhs.data@.len() == prod(batch_dims(lhs.shape@)) * (rows(lhs.shape@) * cols(lhs.shape@)),
        rhs.data@.len() == prod(batch_dims(rhs.shape@)) * (rows(rhs.shape@) * cols(rhs.shape@)),
        prod(out_batch(lhs.shape@, rhs.shape@)) >= 0,
        forall|b: int|
            0 <= b < prod(out_batch(lhs.shape@, rhs.shape@)) ==> 0 <= #[trigger] lhs_source(
                lhs.shape@,
                rhs.shape@,
                b,
            ) < prod(batch_dims(lhs.shape@)),
        forall|b: int|
            0 <= b < prod(out_batch(lhs.shape@, rhs.shape@)) ==> 0 <= #[trigger] rhs_source(
                lhs.shape@,
                rhs.shape@,
                b,
            ) < prod(batch_dims(rhs.shape@)),
{
    let ls = lhs.shape@;
    let rs = rhs.shape@;
    lemma_prod_split_matrix(ls);
    lemma_prod_split_matrix(rs);
    lemma_prod_nonneg(out_batch(ls, rs));
    let la = batch_dims(ls);
    let ra = batch_dims(rs);
    assert forall|b: int| 0 <= b < prod(out_batch(ls, rs)) implies 0 <= #[trigger] lhs_source(
        ls,
        rs,
        b,
    ) < prod(la) by {
        lemma_source_batch_in_bounds(la, ra, b);
    }
    assert forall|b: int| 0 <= b < prod(out_batch(ls, rs)) implies 0 <= #[trigger] rhs_source(
        ls,
        rs,
        b,
    ) < prod(ra) by {
        lemma_broadcast_symmetric(la, ra);
        lemma_source_batch_in_bounds(ra, la, b);
    }
}

/// Broadcasting is symmetric in its operands.
pub proof fn lemma_broadcast_symmetric(a: Seq<usize>, b: Seq<usize>)
    requires
        broadcastable(a, b),
    ensures
        broadcastable(b, a),
        broadcast_len(b, a) == broadcast_len(a, b),
        broadcast_shape(b, a) == broadcast_shape(a, b),
{
    let len = broadcast_len(a, b);
    assert(broadcast_len(b, a) == len);
    assert forall|i: int| 0 <= i < len implies {
        let x = #[trigger] padded(b, len)[i];
        let y = padded(a, len)[i];
        x == y || x == 1 || y == 1
    } by {
        assert(padded(a, len)[i] == padded(a, len)[i]);
    }
    assert(broadcast_shape(b, a) =~= broadcast_shape(a, b));
}

/// Wrapping dot product of two `i32` slices of equal length, accumulated from index 0.
pub fn dot_i32_scalar(a: &[i32], b: &[i32]) -> (r: i32)
    requires
        a@.len() == b@.len(),
    ensures
        r == wdot_i32(a@, b@),
{
    let mut sum: i32 = 0;
    let mut i: usize = 0;
    proof {
        assert(a@.take(0) =~= Seq::<i32>::empty());
        assert(b@.take(0) =~= Seq::<i32>::empty());
    }
    while i < a.len()
        invariant
            i <= a@.len(),
            a@.len() == b@.len(),
            sum == wdot_i32(a@.take(i as int), b@.take(i as int)),
        decreases a@.len() - i,
    {
        proof {
            assert(a@.take(i + 1).drop_last() =~= a@.take(i as int));
            assert(b@.take(i + 1).drop_last() =~= b@.take(i as int));
            assert(a@.take(i + 1).last() == a@[i as int]);
            assert(b@.take(i + 1)[i as int] == b@[i as int]);
        }
        sum = sum.wrapping_add(a[i].wrapping_mul(b[i]));
        i = i + 1;
    }
    proof {
        assert(a@.take(a@.len() as int) =~= a@);
        assert(b@.take(b@.len() as int) =~= b@);
    }
    sum
}

/// Wrapping dot product of two `i32` slices of equal length. Wrapping
/// addition is associative and commutative, so any lane-parallel summation
/// gives this same value; this is the scalar evaluation.
pub fn dot_i32(a: &[i32], b: &[i32]) -> (r: i32)
    requires
        a@.len() == b@.len(),
    ensures
        r == wdot_i32(a@, b@),
{
    dot_i32_scalar(a, b)
}

/// Writes the transpose of the row-major `k x n` matrix at `src[so..]` as a
/// row-major `n x k` matrix at `dst[doff..]`; other entries of `dst` are kept.
pub fn transpose_into(src: &[i32], so: usize, dst: &mut Vec<i32>, doff: usize, k: usize, n: usize)
    requires
        so + k * n <= src@.len(),
        doff + n * k <= old(dst)@.len(),
    ensures
        final(dst)@.len() == old(dst)@.len(),
        forall|p: int|
            0 <= p < old(dst)@.len() && (p < doff || doff + n * k <= p) ==> #[trigger] final(dst)@[p]
                == old(dst)@[p],
        forall|j: int, l: int|
            0 <= j < n && 0 <= l < k ==> #[trigger] final(dst)@[at(doff as int, j, l, k as int)]
                == src@[so + l * n + j],
{
    let ghost old_dst = dst@;
    let ghost len = dst@.len();
    let src_len = src.len();
    let dst_len = dst.len();
    let mut i: usize = 0;
    while i < k
        invariant
            i <= k,
            so + k * n <= src@.len(),
            doff + n * k <= len,
            src_len == src@.len(),
            dst_len == len,
            dst@.len() == len,
            old_dst.len() == len,
            forall|p: int|
                0 <= p < len && (p < doff || doff + n * k <= p) ==> #[trigger] dst@[p]
                    == old_dst[p],
            forall|j: int, l: int|
                0 <= j < n && 0 <= l < i ==> #[trigger] dst@[at(doff as int, j, l, k as int)]
                    == src@[so + l * n + j],
        decreases k - i,
    {
        let ghost before = dst@;
        let mut j: usize = 0;
        while j < n
            invariant
                i < k,
                j <= n,
                so + k * n <= src@.len(),
                doff + n * k <= len,
                src_len == src@.len(),
                dst_len == len,
                dst@.len() == len,
                before.len() == len,
                forall|p: int|
                    0 <= p < len && (p < doff || doff + n * k <= p) ==> #[trigger] dst@[p]
                        == before[p],
                forall|j2: int, l: int|
                    0 <= j2 < n && 0 <= l < k && !(l == i && j2 < j) ==> #[trigger] dst@[at(
                        doff as int,
                        j2,
                        l,
                        k as int,
                    )] == before[at(doff as int, j2, l, k as int)],
                forall|j2: int|
                    0 <= j2 < j ==> #[trigger] dst@[at(doff as int, j2, i as int, k as int)]
                        == src@[so + i * n + j2],
            decreases n - j,
        {
            proof {
                lemma_rm_bound(i as int, j as int, k as int, n as int);
                lemma_rm_bound(j as int, i as int, n as int, k as int);
                vstd::arithmetic::mul::lemma_mul_is_commutative(n as int, k as int);
            }
            let v = src[so + i * n + j];
            let ghost pos = at(doff as int, j as int, i as int, k as int);
            let ghost prev = dst@;
            dst.set(doff + j * k + i, v);
            proof {
                assert(dst@ == prev.update(pos, v));
                assert forall|j2: int, l: int|
                    0 <= j2 < n && 0 <= l < k && !(l == i && j2 < j + 1) implies #[trigger] dst@[at(
                    doff as int,
                    j2,
                    l,
                    k as int,
                )] == before[at(doff as int, j2, l, k as int)] by {
                    lemma_rm_distinct(j2, l, j as int, i as int, k as int);
                    lemma_rm_bound(j2, l, n as int, k as int);
                    assert(at(doff as int, j2, l, k as int) != pos);
                    assert(prev[at(doff as int, j2, l, k as int)] == before[at(
                        doff as int,
                        j2,
                        l,
                        k as int,
                    )]);
                }
                assert forall|j2: int| 0 <= j2 < j + 1 implies #[trigger] dst@[at(
                    doff as int,
                    j2,
                    i as int,
                    k as int,
                )] == src@[so + i * n + j2] by {
                    lemma_rm_distinct(j2, i as int, j as int, i as int, k as int);
                    lemma_rm_bound(j2, i as int, n as int, k as int);
                    if j2 < j {
                        assert(at(doff as int, j2, i as int, k as int) != pos);
                        assert(prev[at(doff as int, j2, i as int, k as int)] == src@[so + i * n
                            + j2]);
                    }
                }
            }
            j = j + 1;
        }
        i = i + 1;
    }
}

/// Distinct entries of a row-major matrix with `cols` columns have distinct positions.
pub proof fn lemma_rm_distinct(i1: int, j1: int, i2: int, j2: int, cols: int)
    requires
        0 <= j1 < cols,
        0 <= j2 < cols,
        0 <= i1,
        0 <= i2,
    ensures
        (i1 * cols + j1 == i2 * cols + j2) == (i1 == i2 && j1 == j2),
{
    if i1 < i2 {
        lemma_rm_row_before(i1, j1, i2, cols);
        lemma_rm_row_end(i2, i2 + 1, cols);
    } else if i2 < i1 {
        lemma_rm_row_before(i2, j2, i1, cols);
        lemma_rm_row_end(i1, i1 + 1, cols);
    }
}

/// Writes the `i32` product of the row-major `m x k` matrix at `lhs[lo..]` and
/// the `k x n` matrix whose transpose (`n x k`, row-major) is at `rhs_t[to..]`
/// into the row-major `m x n` block at `out[oo..]`: entry `(i, j)` is the
/// wrapping dot product of row `i` and column `j`. Other entries are kept.
pub fn matmul_block_i32(
    lhs: &[i32],
    lo: usize,
    rhs_t: &[i32],
    to: usize,
    out: &mut Vec<i32>,
    oo: usize,
    m: usize,
    k: usize,
    n: usize,
)
    requires
        lo + m * k <= lhs@.len(),
        to + n * k <= rhs_t@.len(),
        oo + m * n <= old(out)@.len(),
    ensures
        final(out)@.len() == old(out)@.len(),
        forall|p: int|
            0 <= p < old(out)@.len() && (p < oo || oo + m * n <= p) ==> #[trigger] final(out)@[p]
                == old(out)@[p],
        forall|i: int, j: int|
            0 <= i < m && 0 <= j < n ==> #[trigger] final(out)@[at(oo as int, i, j, n as int)]
                == wdot_i32(
                row_of(lhs@, lo as int, i, k as int),
                row_of(rhs_t@, to as int, j, k as int),
            ),
{
    let ghost old_out = out@;
    let ghost len = out@.len();
    let lhs_len = lhs.len();
    let rhs_len = rhs_t.len();
    let out_len = out.len();
    let mut i: usize = 0;
    while i < m
        invariant
            i <= m,
            lo + m * k <= lhs@.len(),
            to + n * k <= rhs_t@.len(),
            oo + m * n <= len,
            lhs_len == lhs@.len(),
            rhs_len == rhs_t@.len(),
            out_len == len,
            out@.len() == len,
            old_out.len() == len,
            forall|p: int|
                0 <= p < len && (p < oo || oo + i * n <= p) ==> #[trigger] out@[p] == old_out[p],
            forall|i2: int, j2: int|
                0 <= i2 < i && 0 <= j2 < n ==> #[trigger] out@[at(oo as int, i2, j2, n as int)]
                    == wdot_i32(
                    row_of(lhs@, lo as int, i2, k as int),
                    row_of(rhs_t@, to as int, j2, k as int),
                ),
        decreases m - i,
    {
        proof {
            lemma_rm_row_end(i as int, m as int, k as int);
            lemma_rm_row_end(i as int, m as int, n as int);
        }
        let lhs_row = &lhs[lo + i * k..lo + i * k + k];
        let ghost before = out@;
        let mut j: usize = 0;
        while j < n
            invariant
                i < m,
                j <= n,
                lo + m * k <= lhs@.len(),
                to + n * k <= rhs_t@.len(),
                oo + m * n <= len,
                i * n + n <= m * n,
                rhs_len == rhs_t@.len(),
                out_len == len,
                out@.len() == len,
                before.len() == len,
                lhs_row@ == row_of(lhs@, lo as int, i as int, k as int),
                lhs_row@.len() == k,
                forall|p: int|
                    0 <= p < len && (p < oo + i * n || oo + i * n + j <= p) ==> #[trigger] out@[p]
                        == before[p],
                forall|j2: int|
                    0 <= j2 < j ==> #[trigger] out@[at(oo as int, i as int, j2, n as int)]
                        == wdot_i32(lhs_row@, row_of(rhs_t@, to as int, j2, k as int)),
            decreases n - j,
        {
            proof {
                lemma_rm_row_end(j as int, n as int, k as int);
            }
            let rhs_col = &rhs_t[to + j * k..to + j * k + k];
            let v = dot_i32(lhs_row, rhs_col);
            out.set(oo + i * n + j, v);
            j = j + 1;
        }
        proof {
            assert forall|i2: int, j2: int|
                0 <= i2 < i + 1 && 0 <= j2 < n implies #[trigger] out@[at(
                oo as int,
                i2,
                j2,
                n as int,
            )] == wdot_i32(
                row_of(lhs@, lo as int, i2, k as int),
                row_of(rhs_t@, to as int, j2, k as int),
            ) by {
                if i2 < i {
                    lemma_rm_row_before(i2, j2, i as int, n as int);
                }
            }
            assert((i + 1) * n == i * n + n) by (nonlinear_arith);
        }
        i = i + 1;
    }
}

/// The row `j` of a transposed matrix is column `j` of the matrix it transposes.
proof fn lemma_transposed_row(t: Seq<i32>, to: int, r: Seq<i32>, ro: int, j: int, k: int, n: int)
    requires
        0 <= j < n,
        0 <= k,
        0 <= to,
        to + n * k <= t.len(),
        forall|j2: int, l: int|
            0 <= j2 < n && 0 <= l < k ==> #[trigger] t[at(to, j2, l, k)] == r[ro + l * n + j2],
    ensures
        row_of(t, to, j, k) == col_of(r, ro, j, k, n),
{
    lemma_rm_row_end(j, n, k);
    assert forall|l: int| 0 <= l < k implies #[trigger] row_of(t, to, j, k)[l] == col_of(
        r,
        ro,
        j,
        k,
        n,
    )[l] by {
        assert(t[at(to, j, l, k)] == r[ro + l * n + j]);
    }
    assert(row_of(t, to, j, k) =~= col_of(r, ro, j, k, n));
}

/// 2D `i32` product `[M, K] x [K, N] -> [M, N]`. The right-hand matrix is
/// transposed first so that both dot-product operands are contiguous.
#[verifier::spinoff_prover]
fn matmul_2d_i32(lhs: &DenseTensor<i32>, rhs: &DenseTensor<i32>) -> (r: DenseTensor<i32>)
    requires
        lhs.wf(),
        rhs.wf(),
        lhs.shape@.len() == 2,
        rhs.shape@.len() == 2,
        int_matmul_supported(lhs.shape@, rhs.shape@),
    ensures
        is_product_i32(*lhs, *rhs, r),
{
    let ghost ls = lhs.shape@;
    let ghost rs = rhs.shape@;
    let m = lhs.shape[0];
    let k = lhs.shape[1];
    let n = rhs.shape[1];
    proof {
        lemma_operand_sizes(*lhs, *rhs);
        assert(batch_dims(ls) =~= Seq::<usize>::empty());
        assert(batch_dims(rs) =~= Seq::<usize>::empty());
        assert(out_batch(ls, rs) =~= Seq::<usize>::empty());
        assert(prod(Seq::<usize>::empty()) == 1);
        vstd::arithmetic::mul::lemma_mul_is_commutative(n as int, k as int);
    }
    let rhs_size = checked_size(k, n);
    let mut rhs_t: Vec<i32> = vec![0i32; rhs_size];
    transpose_into(rhs.data.as_slice(), 0, &mut rhs_t, 0, k, n);
    let out_size = checked_size(m, n);
    let mut output: Vec<i32> = vec![0i32; out_size];
    matmul_block_i32(lhs.data.as_slice(), 0, rhs_t.as_slice(), 0, &mut output, 0, m, k, n);
    let mut out_shape: Vec<usize> = Vec::new();
    out_shape.push(m);
    out_shape.push(n);
    let r = DenseTensor { shape: out_shape, data: output };
    proof {
        assert(out_shape@ =~= matmul_out_shape(ls, rs));
        assert forall|b: int, i: int, j: int|
            0 <= b < prod(out_batch(ls, rs)) && 0 <= i < rows(ls) && 0 <= j < cols(rs)
                implies #[trigger] r.data@[batch_at(b, i, j, rows(ls), cols(rs))] == entry_i32(
            lhs.data@,
            ls,
            rhs.data@,
            rs,
            b,
            i,
            j,
        ) by {
            assert(b == 0);
            assert(lhs_source(ls, rs, 0) == 0);
            assert(rhs_source(ls, rs, 0) == 0);
            lemma_transposed_row(rhs_t@, 0, rhs.data@, 0, j, k as int, n as int);
            assert(r.data@[at(0, i, j, n as int)] == wdot_i32(
                row_of(lhs.data@, 0, i, k as int),
                row_of(rhs_t@, 0, j, k as int),
            ));
        }
    }
    r
}

/// Entries of earlier batches come before the start of a later batch.
pub proof fn lemma_batch_before(b2: int, i: int, j: int, b: int, m: int, n: int)
    requires
        0 <= b2 < b,
        0 <= i < m,
        0 <= j < n,
    ensures
        0 <= batch_at(b2, i, j, m, n) < b * (m * n),
{
    lemma_rm_bound(i, j, m, n);
    lemma_rm_row_before(b2, i * n + j, b, m * n);
}

/// Entries of a batch lie inside the whole row-major `[B, m, n]` tensor.
pub proof fn lemma_batch_inside(b: int, i: int, j: int, bs: int, m: int, n: int)
    requires
        0 <= b < bs,
        0 <= i < m,
        0 <= j < n,
    ensures
        b * (m * n) <= batch_at(b, i, j, m, n) < b * (m * n) + m * n,
        b * (m * n) + m * n <= bs * (m * n),
        0 <= b * (m * n),
{
    lemma_rm_bound(i, j, m, n);
    lemma_rm_row_end(b, bs, m * n);
}

/// The strides computed for an operand make `batch_index_to_offset` select its source batch.
proof fn lemma_strides_select_source(strides: Seq<usize>, p: Seq<usize>)
    requires
        strides.len() == p.len(),
        forall|i: int| 0 <= i < strides.len() ==> #[trigger] strides[i] as int == broadcast_stride(p, i),
    ensures
        usize_ints(strides) == Seq::new(p.len(), |i: int| broadcast_stride(p, i)),
{
    assert(usize_ints(strides) =~= Seq::new(p.len(), |i: int| broadcast_stride(p, i)));
}

/// Batched `i32` product `[B..., M, K] x [B..., K, N] -> [B..., M, N]` with
/// broadcasting of the batch dimensions. Each right-hand matrix is transposed
/// once, then every output batch is a block of contiguous dot products.
#[verifier::spinoff_prover]
fn matmul_batched_i32(lhs: &DenseTensor<i32>, rhs: &DenseTensor<i32>) -> (r: DenseTensor<i32>)
    requires
        lhs.wf(),
        rhs.wf(),
        int_matmul_supported(lhs.shape@, rhs.shape@),
        prefix_prods_fit(batch_dims(rhs.shape@)),
    ensures
        is_product_i32(*lhs, *rhs, r),
{
    let ghost ls = lhs.shape@;
    let ghost rs = rhs.shape@;
    let lhs_rank = lhs.shape.len();
    let rhs_rank = rhs.shape.len();
    let m = lhs.shape[lhs_rank - 2];
    let k = lhs.shape[lhs_rank - 1];
    let n = rhs.shape[rhs_rank - 1];
    let lhs_batch = &lhs.shape.as_slice()[0..lhs_rank - 2];
    let rhs_batch = &rhs.shape.as_slice()[0..rhs_rank - 2];
    proof {
        assert(lhs_batch@ =~= batch_dims(ls));
        assert(rhs_batch@ =~= batch_dims(rs));
        lemma_operand_sizes(*lhs, *rhs);
    }
    let (broadcast_shape_v, lhs_strides, rhs_strides) = broadcast_batch_dims(lhs_batch, rhs_batch);
    let ghost len = broadcast_len(lhs_batch@, rhs_batch@);
    let ghost ob = out_batch(ls, rs);
    proof {
        lemma_strides_select_source(lhs_strides@, padded(lhs_batch@, len));
        lemma_strides_select_source(rhs_strides@, padded(rhs_batch@, len));
        lemma_broadcast_symmetric(lhs_batch@, rhs_batch@);
    }
    let batch_size = shape_product(broadcast_shape_v.as_slice());
    let rhs_batch_size = shape_product(rhs_batch);
    let lhs_matrix_size = checked_size(m, k);
    let rhs_matrix_size = checked_size(k, n);
    let out_matrix_size = checked_size(m, n);
    proof {
        vstd::arithmetic::mul::lemma_mul_is_commutative(n as int, k as int);
    }

    let lhs_len = lhs.data.len();
    let rhs_len = rhs.data.len();
    proof {
        lemma_suffix_prod_start(lhs_batch@);
        lemma_suffix_prod_start(rhs_batch@);
        assert(lhs_batch@.take(lhs_batch@.len() as int) =~= lhs_batch@);
        assert(rhs_batch@.take(rhs_batch@.len() as int) =~= rhs_batch@);
    }
    // Transpose every right-hand matrix: [B_rhs, K, N] -> [B_rhs, N, K].
    let mut rhs_transposed: Vec<i32> = vec![0i32; rhs_len];
    let mut b: usize = 0;
    while b < rhs_batch_size
        invariant
            b <= rhs_batch_size,
            rhs_batch_size as int == prod(batch_dims(rs)),
            rhs_matrix_size as int == k * n,
            k * n == n * k,
            rhs.data@.len() == prod(batch_dims(rs)) * (k * n),
            rs == rhs.shape@,
            rhs_len == rhs.data@.len(),
            rhs_transposed@.len() == rhs.data@.len(),
            forall|b2: int, j: int, l: int|
                0 <= b2 < b && 0 <= j < n && 0 <= l < k ==> #[trigger] rhs_transposed@[batch_at(
                    b2,
                    j,
                    l,
                    n as int,
                    k as int,
                )] == rhs.data@[b2 * (k * n) + l * n + j],
        decreases rhs_batch_size - b,
    {
        proof {
            lemma_rm_row_end(b as int, rhs_batch_size as int, (k * n) as int);
        }
        let offset = b * rhs_matrix_size;
        let ghost before = rhs_transposed@;
        transpose_into(rhs.data.as_slice(), offset, &mut rhs_transposed, offset, k, n);
        proof {
            assert forall|b2: int, j: int, l: int|
                0 <= b2 < b + 1 && 0 <= j < n && 0 <= l < k implies #[trigger] rhs_transposed@[batch_at(
                b2,
                j,
                l,
                n as int,
                k as int,
            )] == rhs.data@[b2 * (k * n) + l * n + j] by {
                if b2 < b {
                    lemma_batch_before(b2, j, l, b as int, n as int, k as int);
                    lemma_batch_inside(b2, j, l, b as int, n as int, k as int);
                    assert(rhs_transposed@[batch_at(b2, j, l, n as int, k as int)] == before[batch_at(
                        b2,
                        j,
                        l,
                        n as int,
                        k as int,
                    )]);
                } else {
                    assert(batch_at(b2, j, l, n as int, k as int) == at(
                        offset as int,
                        j,
                        l,
                        k as int,
                    ));
                }
            }
        }
        b = b + 1;
    }

    let mut output: Vec<i32> = vec![0i32; batch_size * out_matrix_size];
    let mut b: usize = 0;
    while b < batch_size
        invariant
            b <= batch_size,
            batch_size as int == prod(ob),
            ob == out_batch(ls, rs),
            ls == lhs.shape@,
            rs == rhs.shape@,
            len == broadcast_len(batch_dims(ls), batch_dims(rs)),
            lhs_batch@ == batch_dims(ls),
            rhs_batch@ == batch_dims(rs),
            broadcast_shape_v@ == ob,
            m as int == rows(ls),
            k as int == cols(ls),
            n as int == cols(rs),
            lhs_matrix_size as int == m * k,
            rhs_matrix_size as int == k * n,
            out_matrix_size as int == m * n,
            k * n == n * k,
            lhs_strides@.len() == ob.len(),
            rhs_strides@.len() == ob.len(),
            usize_ints(lhs_strides@) == Seq::new(
                padded(lhs_batch@, len).len(),
                |i: int| broadcast_stride(padded(lhs_batch@, len), i),
            ),
            usize_ints(rhs_strides@) == Seq::new(
                padded(rhs_batch@, len).len(),
                |i: int| broadcast_stride(padded(rhs_batch@, len), i),
            ),
            lhs.data@.len() == prod(batch_dims(ls)) * (m * k),
            rhs.data@.len() == prod(batch_dims(rs)) * (k * n),
            rhs_transposed@.len() == rhs.data@.len(),
            prod(batch_dims(rs)) <= usize::MAX,
            prod(batch_dims(ls)) <= usize::MAX,
            int_matmul_supported(ls, rs),
            lhs_len == lhs.data@.len(),
            rhs_len == rhs.data@.len(),
            forall|b2: int| 0 <= b2 < prod(ob) ==> 0 <= #[trigger] lhs_source(ls, rs, b2) < prod(batch_dims(ls)),
            forall|b2: int| 0 <= b2 < prod(ob) ==> 0 <= #[trigger] rhs_source(ls, rs, b2) < prod(batch_dims(rs)),
            forall|b2: int, j: int, l: int|
                0 <= b2 < prod(batch_dims(rs)) && 0 <= j < n && 0 <= l < k ==> #[trigger] rhs_transposed@[batch_at(
                    b2,
                    j,
                    l,
                    n as int,
                    k as int,
                )] == rhs.data@[b2 * (k * n) + l * n + j],
            output@.len() == prod(ob) * (m * n),
            forall|b2: int, i: int, j: int|
                0 <= b2 < b && 0 <= i < m && 0 <= j < n ==> #[trigger] output@[batch_at(
                    b2,
                    i,
                    j,
                    m as int,
                    n as int,
                )] == entry_i32(lhs.data@, ls, rhs.data@, rs, b2, i, j),
        decreases batch_size - b,
    {
        assert(lhs_source(ls, rs, b as int) < prod(batch_dims(ls)));
        assert(rhs_source(ls, rs, b as int) < prod(batch_dims(rs)));
        proof {
            lemma_prod_pos_dims(ob);
        }
        let lhs_batch_idx = batch_index_to_offset(b, broadcast_shape_v.as_slice(), lhs_strides.as_slice());
        let rhs_batch_idx = batch_index_to_offset(b, broadcast_shape_v.as_slice(), rhs_strides.as_slice());
        assert(lhs_batch_idx as int == lhs_source(ls, rs, b as int));
        assert(rhs_batch_idx as int == rhs_source(ls, rs, b as int));
        proof {
            lemma_rm_row_end(lhs_batch_idx as int, prod(batch_dims(ls)), m * k);
            lemma_rm_row_end(rhs_batch_idx as int, prod(batch_dims(rs)), k * n);
            lemma_rm_row_end(b as int, batch_size as int, m * n);
        }
        let lhs_offset = lhs_batch_idx * lhs_matrix_size;
        let rhs_t_offset = rhs_batch_idx * rhs_matrix_size;
        let out_offset = b * out_matrix_size;
        let ghost before = output@;
        matmul_block_i32(
            lhs.data.as_slice(),
            lhs_offset,
            rhs_transposed.as_slice(),
            rhs_t_offset,
            &mut output,
            out_offset,
            m,
            k,
            n,
        );
        proof {
            assert forall|b2: int, i: int, j: int|
                0 <= b2 < b + 1 && 0 <= i < m && 0 <= j < n implies #[trigger] output@[batch_at(
                b2,
                i,
                j,
                m as int,
                n as int,
            )] == entry_i32(lhs.data@, ls, rhs.data@, rs, b2, i, j) by {
                lemma_batch_inside(b2, i, j, batch_size as int, m as int, n as int);
                if b2 < b {
                    lemma_batch_before(b2, i, j, b as int, m as int, n as int);
                    assert(output@[batch_at(b2, i, j, m as int, n as int)] == before[batch_at(
                        b2,
                        i,
                        j,
                        m as int,
                        n as int,
                    )]);
                } else {
                    assert(batch_at(b2, i, j, m as int, n as int) == at(
                        out_offset as int,
                        i,
                        j,
                        n as int,
                    ));
                    assert forall|j2: int, l: int|
                        0 <= j2 < n && 0 <= l < k implies #[trigger] rhs_transposed@[at(
                        rhs_t_offset as int,
                        j2,
                        l,
                        k as int,
                    )] == rhs.data@[rhs_t_offset + l * n + j2] by {
                        assert(at(rhs_t_offset as int, j2, l, k as int) == batch_at(
                            rhs_batch_idx as int,
                            j2,
                            l,
                            n as int,
                            k as int,
                        ));
                    }
                    lemma_transposed_row(
                        rhs_transposed@,
                        rhs_t_offset as int,
                        rhs.data@,
                        rhs_t_offset as int,
                        j,
                        k as int,
                        n as int,
                    );
                }
            }
        }
        b = b + 1;
    }

    let mut out_dims = broadcast_shape_v.clone();
    out_dims.push(m);
    out_dims.push(n);
    let r = DenseTensor { shape: out_dims, data: output };
    proof {
        assert(r.shape@ =~= matmul_out_shape(ls, rs));
    }
    r
}

/// 2D `i64` product `[M, K] x [K, N] -> [M, N]`, accumulated row by row
/// into zero-initialized output.
#[verifier::spinoff_prover]
fn matmul_2d_i64(lhs: &DenseTensor<i64>, rhs: &DenseTensor<i64>) -> (r: DenseTensor<i64>)
    requires
        lhs.wf(),
        rhs.wf(),
        lhs.shape@.len() == 2,
        rhs.shape@.len() == 2,
        int_matmul_supported(lhs.shape@, rhs.shape@),
    ensures
        is_product_i64(*lhs, *rhs, r),
{
    let ghost ls = lhs.shape@;
    let ghost rs = rhs.shape@;
    let m = lhs.shape[0];
    let k = lhs.shape[1];
    let n = rhs.shape[1];
    proof {
        lemma_operand_sizes(*lhs, *rhs);
        assert(batch_dims(ls) =~= Seq::<usize>::empty());
        assert(batch_dims(rs) =~= Seq::<usize>::empty());
        assert(out_batch(ls, rs) =~= Seq::<usize>::empty());
        assert(prod(Seq::<usize>::empty()) == 1);
    }
    let out_size = checked_size(m, n);
    let mut output: Vec<i64> = vec![0i64; out_size];
    let ghost zeros = output@;
    matmul_i64_into(lhs.data.as_slice(), 0, rhs.data.as_slice(), 0, output.as_mut_slice(), 0, m, k, n);
    let mut out_shape: Vec<usize> = Vec::new();
    out_shape.push(m);
    out_shape.push(n);
    let r = DenseTensor { shape: out_shape, data: output };
    proof {
        assert(out_shape@ =~= matmul_out_shape(ls, rs));
        assert forall|b: int, i: int, j: int|
            0 <= b < prod(out_batch(ls, rs)) && 0 <= i < rows(ls) && 0 <= j < cols(rs)
                implies #[trigger] r.data@[batch_at(b, i, j, rows(ls), cols(rs))] == entry_i64(
            lhs.data@,
            ls,
            rhs.data@,
            rs,
            b,
            i,
            j,
        ) by {
            assert(b == 0);
            assert(lhs_source(ls, rs, 0) == 0);
            assert(rhs_source(ls, rs, 0) == 0);
            lemma_rm_bound(i, j, m as int, n as int);
            assert(zeros[at(0, i, j, n as int)] == 0);
            assert(r.data@[at(0, i, j, n as int)] == wfold_i64(
                0,
                row_of(lhs.data@, 0, i, k as int),
                col_of(rhs.data@, 0, j, k as int, n as int),
            ));
        }
    }
    r
}

/// Batched `i64` product `[B..., M, K] x [B..., K, N] -> [B..., M, N]` with
/// broadcasting of the batch dimensions.
#[verifier::spinoff_prover]
fn matmul_batched_i64(lhs: &DenseTensor<i64>, rhs: &DenseTensor<i64>) -> (r: DenseTensor<i64>)
    requires
        lhs.wf(),
        rhs.wf(),
        int_matmul_supported(lhs.shape@, rhs.shape@),
    ensures
        is_product_i64(*lhs, *rhs, r),
{
    let ghost ls = lhs.shape@;
    let ghost rs = rhs.shape@;
    let lhs_rank = lhs.shape.len();
    let rhs_rank = rhs.shape.len();
    let m = lhs.shape[lhs_rank - 2];
    let k = lhs.shape[lhs_rank - 1];
    let n = rhs.shape[rhs_rank - 1];
    let lhs_batch = &lhs.shape.as_slice()[0..lhs_rank - 2];
    let rhs_batch = &rhs.shape.as_slice()[0..rhs_rank - 2];
    proof {
        assert(lhs_batch@ =~= batch_dims(ls));
        assert(rhs_batch@ =~= batch_dims(rs));
        lemma_operand_sizes(*lhs, *rhs);
    }
    let (broadcast_shape_v, lhs_strides, rhs_strides) = broadcast_batch_dims(lhs_batch, rhs_batch);
    let ghost len = broadcast_len(lhs_batch@, rhs_batch@);
    let ghost ob = out_batch(ls, rs);
    proof {
        lemma_strides_select_source(lhs_strides@, padded(lhs_batch@, len));
        lemma_strides_select_source(rhs_strides@, padded(rhs_batch@, len));
        lemma_broadcast_symmetric(lhs_batch@, rhs_batch@);
        lemma_suffix_prod_start(lhs_batch@);
        lemma_suffix_prod_start(rhs_batch@);
        assert(lhs_batch@.take(lhs_batch@.len() as int) =~= lhs_batch@);
        assert(rhs_batch@.take(rhs_batch@.len() as int) =~= rhs_batch@);
    }
    let batch_size = shape_product(broadcast_shape_v.as_slice());
    let lhs_matrix_size = checked_size(m, k);
    let rhs_matrix_size = checked_size(k, n);
    let out_matrix_size = checked_size(m, n);
    let lhs_len = lhs.data.len();
    let rhs_len = rhs.data.len();

    let mut output: Vec<i64> = vec![0i64; batch_size * out_matrix_size];
    let mut b: usize = 0;
    while b < batch_size
        invariant
            b <= batch_size,
            batch_size as int == prod(ob),
            ob == out_batch(ls, rs),
            ls == lhs.shape@,
            rs == rhs.shape@,
            int_matmul_supported(ls, rs),
            len == broadcast_len(batch_dims(ls), batch_dims(rs)),
            lhs_batch@ == batch_dims(ls),
            rhs_batch@ == batch_dims(rs),
            broadcast_shape_v@ == ob,
            m as int == rows(ls),
            k as int == cols(ls),
            n as int == cols(rs),
            lhs_matrix_size as int == m * k,
            rhs_matrix_size as int == k * n,
            out_matrix_size as int == m * n,
            lhs_strides@.len() == ob.len(),
            rhs_strides@.len() == ob.len(),
            usize_ints(lhs_strides@) == Seq::new(
                padded(lhs_batch@, len).len(),
                |i: int| broadcast_stride(padded(lhs_batch@, len), i),
            ),
            usize_ints(rhs_strides@) == Seq::new(
                padded(rhs_batch@, len).len(),
                |i: int| broadcast_stride(padded(rhs_batch@, len), i),
            ),
            lhs.data@.len() == prod(batch_dims(ls)) * (m * k),
            rhs.data@.len() == prod(batch_dims(rs)) * (k * n),
            prod(batch_dims(rs)) <= usize::MAX,
            prod(batch_dims(ls)) <= usize::MAX,
            lhs_len == lhs.data@.len(),
            rhs_len == rhs.data@.len(),
            forall|b2: int| 0 <= b2 < prod(ob) ==> 0 <= #[trigger] lhs_source(ls, rs, b2) < prod(batch_dims(ls)),
            forall|b2: int| 0 <= b2 < prod(ob) ==> 0 <= #[trigger] rhs_source(ls, rs, b2) < prod(batch_dims(rs)),
            output@.len() == prod(ob) * (m * n),
            forall|p: int| b * (m * n) <= p < output@.len() ==> #[trigger] output@[p] == 0,
            forall|b2: int, i: int, j: int|
                0 <= b2 < b && 0 <= i < m && 0 <= j < n ==> #[trigger] output@[batch_at(
                    b2,
                    i,
                    j,
                    m as int,
                    n as int,
                )] == entry_i64(lhs.data@, ls, rhs.data@, rs, b2, i, j),
        decreases batch_size - b,
    {
        assert(lhs_source(ls, rs, b as int) < prod(batch_dims(ls)));
        assert(rhs_source(ls, rs, b as int) < prod(batch_dims(rs)));
        proof {
            lemma_prod_pos_dims(ob);
        }
        let lhs_batch_idx = batch_index_to_offset(b, broadcast_shape_v.as_slice(), lhs_strides.as_slice());
        let rhs_batch_idx = batch_index_to_offset(b, broadcast_shape_v.as_slice(), rhs_strides.as_slice());
        assert(lhs_batch_idx as int == lhs_source(ls, rs, b as int));
        assert(rhs_batch_idx as int == rhs_source(ls, rs, b as int));
        proof {
            lemma_rm_row_end(lhs_batch_idx as int, prod(batch_dims(ls)), m * k);
            lemma_rm_row_end(rhs_batch_idx as int, prod(batch_dims(rs)), k * n);
            lemma_rm_row_end(b as int, batch_size as int, m * n);
            assert((b + 1) * (m * n) == b * (m * n) + m * n) by (nonlinear_arith);
        }
        let lhs_offset = lhs_batch_idx * lhs_matrix_size;
        let rhs_offset = rhs_batch_idx * rhs_matrix_size;
        let out_offset = b * out_matrix_size;
        let ghost before = output@;
        matmul_i64_into(
            lhs.data.as_slice(),
            lhs_offset,
            rhs.data.as_slice(),
            rhs_offset,
            output.as_mut_slice(),
            out_offset,
            m,
            k,
            n,
        );
        proof {
            assert forall|b2: int, i: int, j: int|
                0 <= b2 < b + 1 && 0 <= i < m && 0 <= j < n implies #[trigger] output@[batch_at(
                b2,
                i,
                j,
                m as int,
                n as int,
            )] == entry_i64(lhs.data@, ls, rhs.data@, rs, b2, i, j) by {
                lemma_batch_inside(b2, i, j, batch_size as int, m as int, n as int);
                if b2 < b {
                    lemma_batch_before(b2, i, j, b as int, m as int, n as int);
                    assert(output@[batch_at(b2, i, j, m as int, n as int)] == before[batch_at(
                        b2,
                        i,
                        j,
                        m as int,
                        n as int,
                    )]);
                } else {
                    assert(batch_at(b2, i, j, m as int, n as int) == at(
                        out_offset as int,
                        i,
                        j,
                        n as int,
                    ));
                    assert(before[at(out_offset as int, i, j, n as int)] == 0);
                }
            }
            assert forall|p: int| (b + 1) * (m * n) <= p < output@.len() implies #[trigger] output@[p] == 0 by {
                assert(output@[p] == before[p]);
            }
        }
        b = b + 1;
    }

    let mut out_dims = broadcast_shape_v.clone();
    out_dims.push(m);
    out_dims.push(n);
    let r = DenseTensor { shape: out_dims, data: output };
    proof {
        assert(r.shape@ =~= matmul_out_shape(ls, rs));
    }
    r
}

/// `i32` product: the 2D path for two matrices, the batched path otherwise.
fn matmul_i32(lhs: &DenseTensor<i32>, rhs: &DenseTensor<i32>) -> (r: DenseTensor<i32>)
    requires
        lhs.wf(),
        rhs.wf(),
        int_matmul_supported(lhs.shape@, rhs.shape@),
        prefix_prods_fit(batch_dims(rhs.shape@)),
    ensures
        is_product_i32(*lhs, *rhs, r),
{
    if lhs.shape.len() == 2 && rhs.shape.len() == 2 {
        matmul_2d_i32(lhs, rhs)
    } else {
        matmul_batched_i32(lhs, rhs)
    }
}

/// `i64` product: the 2D path for two matrices, the batched path otherwise.
fn matmul_i64(lhs: &DenseTensor<i64>, rhs: &DenseTensor<i64>) -> (r: DenseTensor<i64>)
    requires
        lhs.wf(),
        rhs.wf(),
        int_matmul_supported(lhs.shape@, rhs.shape@),
    ensures
        is_product_i64(*lhs, *rhs, r),
{
    if lhs.shape.len() == 2 && rhs.shape.len() == 2 {
        matmul_2d_i64(lhs, rhs)
    } else {
        matmul_batched_i64(lhs, rhs)
    }
}

/// Integer matrix product `[B..., M, K] x [B..., K, N] -> [B..., M, N]` of two
/// tensors of the same integer type, with wrapping arithmetic and broadcasting
/// of the batch dimensions. Entry `(i, j)` of output batch `b` is the wrapping
/// dot product of row `i` of the left-hand matrix and column `j` of the
/// right-hand matrix that broadcasting selects for `b`.
pub fn int_matmul_dense(lhs: IntTensor, rhs: IntTensor) -> (r: IntTensor)
    requires
        lhs.wf(),
        rhs.wf(),
        int_operands_supported(&lhs, &rhs),
    ensures
        r.wf(),
        match (lhs, rhs, r) {
            (IntTensor::I32(a), IntTensor::I32(b), IntTensor::I32(c)) => is_product_i32(a, b, c),
            (IntTensor::I64(a), IntTensor::I64(b), IntTensor::I64(c)) => is_product_i64(a, b, c),
            _ => false,
        },
{
    match (&lhs, &rhs) {
        (IntTensor::I32(a), IntTensor::I32(b)) => {
            let c = matmul_i32(a, b);
            proof {
                lemma_product_wf(a.shape@, b.shape@, c.shape@, c.data@.len() as int);
            }
            IntTensor::I32(c)
        },
        (IntTensor::I64(a), IntTensor::I64(b)) => {
            let c = matmul_i64(a, b);
            proof {
                lemma_product_wf(a.shape@, b.shape@, c.shape@, c.data@.len() as int);
            }
            IntTensor::I64(c)
        },
        _ => {
            proof {
                assert(false);
            }
            lhs
        },
    }
}

/// A host tensor view: elements `data` read through a strided `layout`
/// (a transposed or narrowed tensor shares the data of the tensor it views).
pub struct HostView<T> {
    pub data: Vec<T>,
    pub layout: StridedLayout,
}

impl<T> HostView<T> {
    /// The view is well formed and reads inside its data.
    pub open spec fn wf(&self) -> bool {
        view_fits(self.layout, self.data@.len() as int)
    }

    /// The view's elements in row-major order.
    pub open spec fn contents(&self) -> Seq<T> {
        gathered(self.data@, self.layout)
    }
}

/// A host tensor view of one of the integer element types.
pub enum IntView {
    I32(HostView<i32>),
    I64(HostView<i64>),
}

impl IntView {
    /// The view's shape.
    pub open spec fn shape(&self) -> Seq<usize> {
        match self {
            IntView::I32(v) => v.layout.shape@,
            IntView::I64(v) => v.layout.shape@,
        }
    }

    /// The view is well formed and reads inside its data.
    pub open spec fn wf(&self) -> bool {
        match self {
            IntView::I32(v) => v.wf(),
            IntView::I64(v) => v.wf(),
        }
    }

    /// Both views hold the same element type.
    pub open spec fn same_dtype(&self, other: &IntView) -> bool {
        (self is I32 && other is I32) || (self is I64 && other is I64)
    }

    /// Whether the view is well formed and reads inside its data.
    pub fn is_valid(&self) -> (r: bool)
        ensures
            r == self.wf(),
    {
        match self {
            IntView::I32(v) => view_in_bounds(&v.layout, v.data.len()),
            IntView::I64(v) => view_in_bounds(&v.layout, v.data.len()),
        }
    }
}

/// The views that [`int_matmul`] multiplies: the same element type and
/// supported shapes.
pub open spec fn int_view_operands_supported(lhs: &IntView, rhs: &IntView) -> bool {
    &&& lhs.same_dtype(rhs)
    &&& int_shapes_supported(lhs.shape(), rhs.shape(), lhs is I32)
}

/// The elements of a view, made contiguous.
fn to_dense<T: Copy>(v: HostView<T>) -> (r: DenseTensor<T>)
    requires
        v.wf(),
    ensures
        r.shape@ == v.layout.shape@,
        r.data@ == v.contents(),
        r.wf(),
{
    let data = gather(v.data.as_slice(), &v.layout);
    proof {
        lemma_prod_nonneg(v.layout.shape@);
    }
    DenseTensor { shape: v.layout.shape, data }
}

/// Integer matrix product `[B..., M, K] x [B..., K, N] -> [B..., M, N]` of two
/// views of the same integer type (transposed, narrowed or offset views
/// included), with wrapping arithmetic and broadcasting of the batch
/// dimensions. The views are read in row-major order; entry `(i, j)` of
/// output batch `b` is the wrapping dot product of row `i` of the left-hand
/// matrix and column `j` of the right-hand matrix that broadcasting selects
/// for `b`. The product is a contiguous tensor.
pub fn int_matmul(lhs: IntView, rhs: IntView) -> (r: IntTensor)
    requires
        lhs.wf(),
        rhs.wf(),
        int_view_operands_supported(&lhs, &rhs),
    ensures
        r.wf(),
        match (lhs, rhs, r) {
            (IntView::I32(a), IntView::I32(b), IntTensor::I32(c)) => is_product_of_i32(
                a.contents(),
                a.layout.shape@,
                b.contents(),
                b.layout.shape@,
                c,
            ),
            (IntView::I64(a), IntView::I64(b), IntTensor::I64(c)) => is_product_of_i64(
                a.contents(),
                a.layout.shape@,
                b.contents(),
                b.layout.shape@,
                c,
            ),
            _ => false,
        },
{
    match (lhs, rhs) {
        (IntView::I32(a), IntView::I32(b)) => int_matmul_dense(
            IntTensor::I32(to_dense(a)),
            IntTensor::I32(to_dense(b)),
        ),
        (IntView::I64(a), IntView::I64(b)) => int_matmul_dense(
            IntTensor::I64(to_dense(a)),
            IntTensor::I64(to_dense(b)),
        ),
        (IntView::I32(a), _) => {
            proof {
                assert(false);
            }
            IntTensor::I32(to_dense(a))
        },
        (IntView::I64(a), _) => {
            proof {
                assert(false);
            }
            IntTensor::I64(to_dense(a))
        },
    }
}

/// Checks the operands of [`int_matmul`]: `Ok` exactly when both views are
/// well formed and they have the same element type and supported shapes;
/// otherwise the first failing condition, in the order views, dtype, ranks,
/// inner dimensions, batch broadcasting, sizes.
pub fn check_int_views(lhs: &IntView, rhs: &IntView) -> (r: Result<(), IntMatmulError>)
    ensures
        r is Ok <==> (lhs.wf() && rhs.wf() && int_view_operands_supported(lhs, rhs)),
        r == Err::<(), IntMatmulError>(IntMatmulError::InvalidView) <==> !(lhs.wf() && rhs.wf()),
        r == Err::<(), IntMatmulError>(IntMatmulError::DTypeMismatch) <==> (lhs.wf() && rhs.wf()
            && !lhs.same_dtype(rhs)),
        r == Err::<(), IntMatmulError>(IntMatmulError::RankTooSmall) <==> (lhs.wf() && rhs.wf()
            && lhs.same_dtype(rhs) && (lhs.shape().len() < 2 || rhs.shape().len() < 2)),
        r == Err::<(), IntMatmulError>(IntMatmulError::InnerDimMismatch) <==> (lhs.wf() && rhs.wf()
            && lhs.same_dtype(rhs) && lhs.shape().len() >= 2 && rhs.shape().len() >= 2 && cols(
            lhs.shape(),
        ) != rows(rhs.shape())),
        r == Err::<(), IntMatmulError>(IntMatmulError::BatchNotBroadcastable) <==> (lhs.wf()
            && rhs.wf() && lhs.same_dtype(rhs) && lhs.shape().len() >= 2 && rhs.shape().len() >= 2
            && cols(lhs.shape()) == rows(rhs.shape()) && !broadcastable(
            batch_dims(lhs.shape()),
            batch_dims(rhs.shape()),
        )),
{
    if !lhs.is_valid() || !rhs.is_valid() {
        return Err(IntMatmulError::InvalidView);
    }
    match (lhs, rhs) {
        (IntView::I32(a), IntView::I32(b)) => check_int_shapes(
            a.layout.shape.as_slice(),
            b.layout.shape.as_slice(),
            true,
        ),
        (IntView::I64(a), IntView::I64(b)) => check_int_shapes(
            a.layout.shape.as_slice(),
            b.layout.shape.as_slice(),
            false,
        ),
        _ => Err(IntMatmulError::DTypeMismatch),
    }
}

/// The product's element count matches its shape.
proof fn lemma_product_wf(ls: Seq<usize>, rs: Seq<usize>, os: Seq<usize>, len: int)
    requires
        ls.len() >= 2,
        rs.len() >= 2,
        os == matmul_out_shape(ls, rs),
        len == prod(out_batch(ls, rs)) * (rows(ls) * cols(rs)),
    ensures
        len == prod(os),
{
    lemma_prod_split_matrix(os);
    assert(os.take(os.len() - 2) =~= out_batch(ls, rs));
}

/// Why the host integer matmul refuses a pair of operands.
#[derive(Debug, Clone, Copy, PartialEq, Eq)]
pub enum IntMatmulError {
    /// The operands hold different element types.
    DTypeMismatch,
    /// An operand has fewer than two dimensions.
    RankTooSmall,
    /// The left-hand columns differ from the right-hand rows.
    InnerDimMismatch,
    /// The batch dimensions are not broadcastable.
    BatchNotBroadcastable,
    /// A matrix, batch or output size does not fit in `usize`.
    SizeOverflow,
    /// An operand's view is malformed or reaches outside its data.
    InvalidView,
}

/// Whether every product of trailing dimensions of `s`, the whole product
/// included, fits in `usize`.
pub fn suffix_products_fit(s: &[usize]) -> (r: bool)
    ensures
        r == suffix_prods_fit(s@),
{
    let mut acc: usize = 1;
    let mut i = s.len();
    proof {
        lemma_suffix_prod_end(s@);
    }
    while i > 0
        invariant
            i <= s@.len(),
            acc as int == suffix_prod(s@, i as int),
            forall|j: int| i <= j <= s@.len() ==> #[trigger] suffix_prod(s@, j) <= usize::MAX,
        decreases i,
    {
        i = i - 1;
        proof {
            lemma_suffix_prod_step(s@, i as int);
        }
        match s[i].checked_mul(acc) {
            Some(v) => {
                acc = v;
            },
            None => {
                assert(suffix_prod(s@, i as int) > usize::MAX);
                return false;
            },
        }
    }
    true
}

/// Whether two batch shapes are broadcastable.
pub fn batches_broadcastable(a: &[usize], b: &[usize]) -> (r: bool)
    ensures
        r == broadcastable(a@, b@),
{
    let len = if a.len() >= b.len() {
        a.len()
    } else {
        b.len()
    };
    let mut i: usize = 0;
    while i < len
        invariant
            i <= len,
            len == broadcast_len(a@, b@),
            forall|j: int|
                0 <= j < i ==> {
                    let x = #[trigger] padded(a@, len as int)[j];
                    let y = padded(b@, len as int)[j];
                    x == y || x == 1 || y == 1
                },
        decreases len - i,
    {
        let x = padded_dim(a, len, i);
        let y = padded_dim(b, len, i);
        if !(x == y || x == 1 || y == 1) {
            return false;
        }
        i = i + 1;
    }
    true
}

/// Checks the shapes of an integer product (for `i32` elements when
/// `is_i32`): `Ok` exactly when they are supported; otherwise the first
/// failing condition, in the order ranks, inner dimensions, batch
/// broadcasting, sizes.
pub fn check_int_shapes(ls: &[usize], rs: &[usize], is_i32: bool) -> (r: Result<(), IntMatmulError>)
    ensures
        r is Ok <==> int_shapes_supported(ls@, rs@, is_i32),
        r != Err::<(), IntMatmulError>(IntMatmulError::DTypeMismatch),
        r != Err::<(), IntMatmulError>(IntMatmulError::InvalidView),
        r == Err::<(), IntMatmulError>(IntMatmulError::RankTooSmall) <==> (ls@.len() < 2 || rs@.len()
            < 2),
        r == Err::<(), IntMatmulError>(IntMatmulError::InnerDimMismatch) <==> (ls@.len() >= 2
            && rs@.len() >= 2 && cols(ls@) != rows(rs@)),
        r == Err::<(), IntMatmulError>(IntMatmulError::BatchNotBroadcastable) <==> (ls@.len() >= 2
            && rs@.len() >= 2 && cols(ls@) == rows(rs@) && !broadcastable(
            batch_dims(ls@),
            batch_dims(rs@),
        )),
{
    let lr = ls.len();
    let rr = rs.len();
    if lr < 2 || rr < 2 {
        return Err(IntMatmulError::RankTooSmall);
    }
    let m = ls[lr - 2];
    let k = ls[lr - 1];
    let n = rs[rr - 1];
    if k != rs[rr - 2] {
        return Err(IntMatmulError::InnerDimMismatch);
    }
    let lb = &ls[0..lr - 2];
    let rb = &rs[0..rr - 2];
    proof {
        assert(lb@ =~= batch_dims(ls@));
        assert(rb@ =~= batch_dims(rs@));
    }
    if !batches_broadcastable(lb, rb) {
        return Err(IntMatmulError::BatchNotBroadcastable);
    }
    if !suffix_products_fit(lb) || !suffix_products_fit(rb) {
        return Err(IntMatmulError::SizeOverflow);
    }
    if is_i32 && checked_product(rb).is_none() {
        return Err(IntMatmulError::SizeOverflow);
    }
    let (out, _, _) = broadcast_batch_dims(lb, rb);
    let batch = match checked_product(out.as_slice()) {
        Some(v) => v,
        None => {
            return Err(IntMatmulError::SizeOverflow);
        },
    };
    match (m.checked_mul(k), k.checked_mul(n), m.checked_mul(n)) {
        (Some(_), Some(_), Some(mn)) => {
            if batch.checked_mul(mn).is_none() {
                return Err(IntMatmulError::SizeOverflow);
            }
        },
        _ => {
            return Err(IntMatmulError::SizeOverflow);
        },
    }
    Ok(())
}

/// Checks the operands of [`int_matmul_dense`]: `Ok` exactly when they have
/// the same element type and supported shapes; otherwise the first failing
/// condition, in the order dtype, ranks, inner dimensions, batch
/// broadcasting, sizes.
pub fn check_int_matmul(lhs: &IntTensor, rhs: &IntTensor) -> (r: Result<(), IntMatmulError>)
    ensures
        r is Ok <==> int_operands_supported(lhs, rhs),
        r == Err::<(), IntMatmulError>(IntMatmulError::DTypeMismatch) <==> !lhs.same_dtype(rhs),
        r == Err::<(), IntMatmulError>(IntMatmulError::RankTooSmall) <==> (lhs.same_dtype(rhs) && (
        lhs.shape().len() < 2 || rhs.shape().len() < 2)),
        r == Err::<(), IntMatmulError>(IntMatmulError::InnerDimMismatch) <==> (lhs.same_dtype(rhs)
            && lhs.shape().len() >= 2 && rhs.shape().len() >= 2 && cols(lhs.shape()) != rows(
            rhs.shape(),
        )),
        r == Err::<(), IntMatmulError>(IntMatmulError::BatchNotBroadcastable) <==> (lhs.same_dtype(
            rhs,
        ) && lhs.shape().len() >= 2 && rhs.shape().len() >= 2 && cols(lhs.shape()) == rows(
            rhs.shape(),
        ) && !broadcastable(batch_dims(lhs.shape()), batch_dims(rhs.shape()))),
{
    match (lhs, rhs) {
        (IntTensor::I32(a), IntTensor::I32(b)) => check_int_shapes(a.shape.as_slice(), b.shape.as_slice(), true),
        (IntTensor::I64(a), IntTensor::I64(b)) => check_int_shapes(a.shape.as_slice(), b.shape.as_slice(), false),
        _ => Err(IntMatmulError::DTypeMismatch),
    }
}

/// Law: operands with the same batch dimensions are multiplied batch for
/// batch: output batch `b` reads batch `b` of both.
pub proof fn lemma_equal_batches_pair_batchwise(ls: Seq<usize>, rs: Seq<usize>, b: int)
    requires
        ls.len() >= 2,
        rs.len() >= 2,
        batch_dims(ls) == batch_dims(rs),
        0 <= b < prod(out_batch(ls, rs)),
    ensures
        lhs_source(ls, rs, b) == b,
        rhs_source(ls, rs, b) == b,
{
    let a = batch_dims(ls);
    let len = broadcast_len(a, a);
    assert(padded(a, len) =~= a);
    assert(broadcast_shape(a, a) =~= a);
    lemma_source_batch_identity(a, b);
}

/// A strided sum with only zero strides is zero.
proof fn lemma_strided_sum_zero(shape: Seq<usize>, st: Seq<int>, b: int, lo: int)
    requires
        st.len() == shape.len(),
        forall|i: int| 0 <= i < st.len() ==> st[i] == 0,
    ensures
        strided_sum(shape, st, b, lo) == 0,
    decreases shape.len() - lo,
{
    if 0 <= lo < shape.len() {
        lemma_strided_sum_zero(shape, st, b, lo + 1);
        let c = coord(shape, b, lo);
        assert(c * 0 == 0) by (nonlinear_arith);
    }
}

/// Law: a right-hand matrix without batch dimensions is shared by every
/// output batch.
pub proof fn lemma_matrix_rhs_shared(ls: Seq<usize>, rs: Seq<usize>, b: int)
    requires
        ls.len() >= 2,
        rs.len() == 2,
    ensures
        rhs_source(ls, rs, b) == 0,
{
    let a = batch_dims(ls);
    let r = batch_dims(rs);
    assert(r.len() == 0);
    let len = broadcast_len(a, r);
    let p = padded(r, len);
    let st = Seq::new(p.len(), |i: int| broadcast_stride(p, i));
    assert forall|i: int| 0 <= i < st.len() implies st[i] == 0 by {
        assert(p[i] == 1);
    }
    lemma_strided_sum_zero(out_batch(ls, rs), st, b, 0);
}

/// Law: with an empty contraction axis (`K = 0`), every entry of the product is zero.
pub proof fn lemma_empty_contraction_is_zero(
    lhs64: Seq<i64>,
    rhs64: Seq<i64>,
    lhs32: Seq<i32>,
    rhs32: Seq<i32>,
    ls: Seq<usize>,
    rs: Seq<usize>,
    b: int,
    i: int,
    j: int,
)
    requires
        ls.len() >= 2,
        rs.len() >= 2,
        cols(ls) == 0,
    ensures
        entry_i64(lhs64, ls, rhs64, rs, b, i, j) == 0,
        entry_i32(lhs32, ls, rhs32, rs, b, i, j) == 0,
{
    let m = rows(ls);
    let k = cols(ls);
    let off = lhs_source(ls, rs, b) * (m * k);
    assert(m * k == 0 && off == 0 && i * k == 0) by (nonlinear_arith)
        requires
            k == 0,
            off == lhs_source(ls, rs, b) * (m * k),
    ;
    assert(row_of(lhs64, off, i, k).len() == 0);
    assert(row_of(lhs32, off, i, k).len() == 0);
}

} // verus!
