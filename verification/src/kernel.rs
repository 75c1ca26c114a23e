//! Row-major `i64` matrix-product kernel with wrapping arithmetic.

use vstd::prelude::*;
use crate::arith::{col_of, row_of, wfold_i64};

verus! {

/// Flat position of entry `(i, j)` of a row-major matrix with `n` columns stored from `off`.
pub open spec fn at(off: int, i: int, j: int, n: int) -> int {
    off + i * n + j
}

/// Entry `(i, j)` of a row-major `rows x cols` matrix lies inside it.
pub proof fn lemma_rm_bound(i: int, j: int, rows: int, cols: int)
    requires
        0 <= i < rows,
        0 <= j < cols,
    ensures
        0 <= i * cols + j < rows * cols,
{
    lemma_rm_row_end(i, rows, cols);
}

/// Row `i` of a row-major `rows x cols` matrix ends inside it.
pub proof fn lemma_rm_row_end(i: int, rows: int, cols: int)
    requires
        0 <= i < rows,
        0 <= cols,
    ensures
        0 <= i * cols,
        i * cols + cols <= rows * cols,
{
    assert(0 <= i * cols) by (nonlinear_arith)
        requires
            0 <= i,
            0 <= cols,
    ;
    assert(i * cols + cols <= rows * cols) by (nonlinear_arith)
        requires
            0 <= i < rows,
            0 <= cols,
    ;
}

/// Entries of earlier rows come before the start of a later row.
pub proof fn lemma_rm_row_before(i2: int, j2: int, i: int, n: int)
    requires
        0 <= i2 < i,
        0 <= j2 < n,
    ensures
        i2 * n + j2 < i * n,
        0 <= i2 * n,
{
    assert(i2 * n + n <= i * n) by (nonlinear_arith)
        requires
            0 <= i2 < i,
            0 <= n,
    ;
    assert(0 <= i2 * n) by (nonlinear_arith)
        requires
            0 <= i2,
            0 <= n,
    ;
}

/// One more term of a wrapping fold over prefixes.
pub proof fn lemma_wfold_take_step(init: i64, a: Seq<i64>, b: Seq<i64>, l: int)
    requires
        0 <= l < a.len(),
        a.len() == b.len(),
    ensures
        wfold_i64(init, a.take(l + 1), b.take(l + 1)) == wfold_i64(init, a.take(l), b.take(l)).wrapping_add(
            a[l].wrapping_mul(b[l]),
        ),
{
    assert(a.take(l + 1).drop_last() =~= a.take(l));
    assert(b.take(l + 1).drop_last() =~= b.take(l));
    assert(a.take(l + 1).last() == a[l]);
    assert(b.take(l + 1)[l] == b[l]);
}

/// Accumulates, with wrapping arithmetic, the product of the row-major `m x k`
/// matrix at `lhs[lo..]` and the row-major `k x n` matrix at `rhs[ro..]` into the
/// row-major `m x n` block at `output[oo..]`; every other entry of `output` is
/// left unchanged. Each output entry receives its products in ascending order
/// of the contraction index, reading right-hand rows contiguously.
pub fn matmul_i64_into(
    lhs: &[i64],
    lo: usize,
    rhs: &[i64],
    ro: usize,
    output: &mut [i64],
    oo: usize,
    m: usize,
    k: usize,
    n: usize,
)
    requires
        lo + m * k <= lhs@.len(),
        ro + k * n <= rhs@.len(),
        oo + m * n <= old(output)@.len(),
    ensures
        final(output)@.len() == old(output)@.len(),
        forall|p: int|
            0 <= p < old(output)@.len() && (p < oo || oo + m * n <= p) ==> #[trigger] final(output)@[p] == old(output)@[p],
        forall|i: int, j: int|
            0 <= i < m && 0 <= j < n ==> #[trigger] final(output)@[at(oo as int, i, j, n as int)]
                == wfold_i64(
                old(output)@[at(oo as int, i, j, n as int)],
                row_of(lhs@, lo as int, i, k as int),
                col_of(rhs@, ro as int, j, k as int, n as int),
            ),
{
    if n == 0 {
        return ;
    }
    let lhs_len = lhs.len();
    let rhs_len = rhs.len();
    let out_len = output.len();
    let ghost old_out = output@;
    let ghost len = output@.len();
    let ghost (mi, ki, ni, ooi, loi, roi) = (m as int, k as int, n as int, oo as int, lo as int, ro as int);
    let mut i: usize = 0;
    while i < m
        invariant
            0 <= i <= m,
            n > 0,
            mi == m,
            ki == k,
            ni == n,
            ooi == oo,
            loi == lo,
            roi == ro,
            old_out.len() == len,
            output@.len() == len,
            lhs_len == lhs@.len(),
            out_len == len,
                rhs_len == rhs@.len(),
            lo + m * k <= lhs@.len(),
            ro + k * n <= rhs@.len(),
            oo + m * n <= len,
            forall|p: int|
                0 <= p < len && (p < oo || oo + i * n <= p) ==> #[trigger] output@[p]
                    == old_out[p],
            forall|i2: int, j2: int|
                0 <= i2 < i && 0 <= j2 < n ==> #[trigger] output@[at(ooi, i2, j2, ni)]
                    == wfold_i64(
                    old_out[at(ooi, i2, j2, ni)],
                    row_of(lhs@, loi, i2, ki),
                    col_of(rhs@, roi, j2, ki, ni),
                ),
        decreases m - i,
    {
        proof {
            lemma_rm_row_end(i as int, mi, ni);
            lemma_rm_row_end(i as int, mi, ki);
        }
        let ghost row = row_of(lhs@, loi, i as int, ki);
        let mut l: usize = 0;
        while l < k
            invariant
                0 <= i < m,
                0 <= l <= k,
                n > 0,
                mi == m,
                ki == k,
                ni == n,
                ooi == oo,
                loi == lo,
                roi == ro,
                row == row_of(lhs@, loi, i as int, ki),
                old_out.len() == len,
                output@.len() == len,
                lhs_len == lhs@.len(),
                out_len == len,
                rhs_len == rhs@.len(),
                lo + m * k <= lhs@.len(),
                ro + k * n <= rhs@.len(),
                oo + m * n <= len,
                i * k + k <= m * k,
                i * n + n <= m * n,
                forall|p: int|
                    0 <= p < len && (p < oo || oo + i * n + n <= p) ==> #[trigger] output@[p]
                        == old_out[p],
                forall|i2: int, j2: int|
                    0 <= i2 < i && 0 <= j2 < n ==> #[trigger] output@[at(ooi, i2, j2, ni)]
                        == wfold_i64(
                        old_out[at(ooi, i2, j2, ni)],
                        row_of(lhs@, loi, i2, ki),
                        col_of(rhs@, roi, j2, ki, ni),
                    ),
                forall|j2: int|
                    0 <= j2 < n ==> #[trigger] output@[at(ooi, i as int, j2, ni)] == wfold_i64(
                        old_out[at(ooi, i as int, j2, ni)],
                        row.take(l as int),
                        col_of(rhs@, roi, j2, ki, ni).take(l as int),
                    ),
            decreases k - l,
        {
            proof {
                lemma_rm_row_end(l as int, ki, ni);
            }
            let a = lhs[lo + i * k + l];
            assert(a == row[l as int]);
            let ghost out_l = output@;
            let mut j: usize = 0;
            while j < n
                invariant
                    0 <= i < m,
                    0 <= l < k,
                    0 <= j <= n,
                    mi == m,
                    ki == k,
                    ni == n,
                    ooi == oo,
                    loi == lo,
                    roi == ro,
                    a == row[l as int],
                    row == row_of(lhs@, loi, i as int, ki),
                    old_out.len() == len,
                    output@.len() == len,
                    out_len == len,
                rhs_len == rhs@.len(),
                    out_l.len() == len,
                    ro + k * n <= rhs@.len(),
                    oo + m * n <= len,
                    l * n + n <= k * n,
                    i * n + n <= m * n,
                    forall|p: int|
                        0 <= p < len && (p < oo + i * n || oo + i * n + j <= p)
                            ==> #[trigger] output@[p] == out_l[p],
                    forall|j2: int|
                        0 <= j2 < j ==> #[trigger] output@[at(ooi, i as int, j2, ni)]
                            == out_l[at(ooi, i as int, j2, ni)].wrapping_add(
                            a.wrapping_mul(rhs@[roi + l * ni + j2]),
                        ),
                decreases n - j,
            {
                let pos = oo + i * n + j;
                let b = rhs[ro + l * n + j];
                let v = output[pos].wrapping_add(a.wrapping_mul(b));
                output[pos] = v;
                j = j + 1;
            }
            proof {
                assert forall|j2: int| 0 <= j2 < n implies #[trigger] output@[at(
                    ooi,
                    i as int,
                    j2,
                    ni,
                )] == wfold_i64(
                    old_out[at(ooi, i as int, j2, ni)],
                    row.take(l + 1),
                    col_of(rhs@, roi, j2, ki, ni).take(l + 1),
                ) by {
                    let col = col_of(rhs@, roi, j2, ki, ni);
                    lemma_wfold_take_step(old_out[at(ooi, i as int, j2, ni)], row, col, l as int);
                    assert(col[l as int] == rhs@[roi + l * ni + j2]);
                }
                assert forall|i2: int, j2: int|
                    0 <= i2 < i && 0 <= j2 < n implies #[trigger] output@[at(ooi, i2, j2, ni)]
                    == wfold_i64(
                    old_out[at(ooi, i2, j2, ni)],
                    row_of(lhs@, loi, i2, ki),
                    col_of(rhs@, roi, j2, ki, ni),
                ) by {
                    lemma_rm_row_before(i2, j2, i as int, ni);
                    assert(out_l[at(ooi, i2, j2, ni)] == output@[at(ooi, i2, j2, ni)]);
                }
            }
            l = l + 1;
        }
        proof {
            assert forall|j2: int| 0 <= j2 < n implies #[trigger] output@[at(
                ooi,
                i as int,
                j2,
                ni,
            )] == wfold_i64(
                old_out[at(ooi, i as int, j2, ni)],
                row_of(lhs@, loi, i as int, ki),
                col_of(rhs@, roi, j2, ki, ni),
            ) by {
                assert(row.take(ki) =~= row);
                assert(col_of(rhs@, roi, j2, ki, ni).take(ki) =~= col_of(rhs@, roi, j2, ki, ni));
            }
            assert((i + 1) * n == i * n + n) by (nonlinear_arith);
        }
        i = i + 1;
    }
}

/// Accumulates, with wrapping arithmetic, the product of the row-major `m x k`
/// matrix `lhs` and the row-major `k x n` matrix `rhs` into the row-major
/// `m x n` matrix `output` (zero-initialized output receives the product).
/// Each output entry receives its products in ascending order of the
/// contraction index.
pub fn matmul_i64(lhs: &[i64], rhs: &[i64], output: &mut [i64], m: usize, k: usize, n: usize)
    requires
        lhs@.len() == m * k,
        rhs@.len() == k * n,
        old(output)@.len() == m * n,
    ensures
        final(output)@.len() == m * n,
        forall|i: int, j: int|
            0 <= i < m && 0 <= j < n ==> #[trigger] final(output)@[at(0, i, j, n as int)]
                == wfold_i64(
                old(output)@[at(0, i, j, n as int)],
                row_of(lhs@, 0, i, k as int),
                col_of(rhs@, 0, j, k as int, n as int),
            ),
{
    matmul_i64_into(lhs, 0, rhs, 0, output, 0, m, k, n);
}

} // verus!
