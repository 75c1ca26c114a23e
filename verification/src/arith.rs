//! Mathematical vocabulary shared by the shape and matrix-product code:
//! products of dimensions, row-major coordinates, broadcasting and
//! wrapping dot products.

use vstd::prelude::*;

verus! {

/// Product of all dimensions of a shape (1 for the empty shape).
pub open spec fn prod(s: Seq<usize>) -> int
    decreases s.len(),
{
    if s.len() == 0 {
        1
    } else {
        s[0] as int * prod(s.drop_first())
    }
}

/// Product of the dimensions `s[i..]`.
pub open spec fn suffix_prod(s: Seq<usize>, i: int) -> int {
    prod(s.subrange(i, s.len() as int))
}

/// Every product of trailing dimensions, the whole shape included, fits in `usize`.
pub open spec fn suffix_prods_fit(s: Seq<usize>) -> bool {
    forall|i: int| 0 <= i <= s.len() ==> #[trigger] suffix_prod(s, i) <= usize::MAX
}

/// Coordinate along axis `i` of the row-major flat index `b` in `shape`.
pub open spec fn coord(shape: Seq<usize>, b: int, i: int) -> int {
    (b / suffix_prod(shape, i + 1)) % (shape[i] as int)
}

/// `sum over axes j >= lo of coord(shape, b, j) * strides[j]`.
pub open spec fn strided_sum(shape: Seq<usize>, strides: Seq<int>, b: int, lo: int) -> int
    decreases shape.len() - lo,
{
    if lo < 0 || lo >= shape.len() {
        0
    } else {
        coord(shape, b, lo) * strides[lo] + strided_sum(shape, strides, b, lo + 1)
    }
}

/// `sum over axes j >= lo of (shape[j] - 1) * strides[j]`: the value of
/// `strided_sum` at the last index of the shape, every coordinate at its
/// largest.
pub open spec fn extent(shape: Seq<usize>, strides: Seq<int>, lo: int) -> int
    decreases shape.len() - lo,
{
    if lo < 0 || lo >= shape.len() {
        0
    } else {
        (shape[lo] - 1) * strides[lo] + extent(shape, strides, lo + 1)
    }
}

/// The batch shape `s` left-padded with ones to `len` axes.
pub open spec fn padded(s: Seq<usize>, len: int) -> Seq<usize> {
    Seq::new(
        len as nat,
        |i: int|
            if i < len - s.len() {
                1usize
            } else {
                s[i - (len - s.len())]
            },
    )
}

/// Number of axes of the broadcast of two batch shapes.
pub open spec fn broadcast_len(a: Seq<usize>, b: Seq<usize>) -> int {
    if a.len() >= b.len() {
        a.len() as int
    } else {
        b.len() as int
    }
}

/// Two batch shapes are broadcastable when, after left padding with ones,
/// each pair of dimensions is equal or one of them is 1.
pub open spec fn broadcastable(a: Seq<usize>, b: Seq<usize>) -> bool {
    let len = broadcast_len(a, b);
    forall|i: int|
        0 <= i < len ==> {
            let x = #[trigger] padded(a, len)[i];
            let y = padded(b, len)[i];
            x == y || x == 1 || y == 1
        }
}

/// The broadcast of one pair of dimensions: a dimension of 1 takes the other's size.
pub open spec fn broadcast_dim(x: usize, y: usize) -> usize {
    if x == 1 {
        y
    } else {
        x
    }
}

/// Broadcast shape of two batch shapes.
pub open spec fn broadcast_shape(a: Seq<usize>, b: Seq<usize>) -> Seq<usize> {
    let len = broadcast_len(a, b);
    Seq::new(len as nat, |i: int| broadcast_dim(padded(a, len)[i], padded(b, len)[i]))
}

/// Matrix-level stride of one (padded) batch shape inside a broadcast:
/// 0 along broadcast axes (dimension 1), the row-major stride elsewhere.
pub open spec fn broadcast_stride(p: Seq<usize>, i: int) -> int {
    if p[i] == 1 {
        0
    } else {
        suffix_prod(p, i + 1)
    }
}

/// A sequence of `usize` read as integers.
pub open spec fn usize_ints(s: Seq<usize>) -> Seq<int> {
    Seq::new(s.len(), |i: int| s[i] as int)
}

/// A sequence of `isize` read as integers.
pub open spec fn isize_ints(s: Seq<isize>) -> Seq<int> {
    Seq::new(s.len(), |i: int| s[i] as int)
}

/// Absolute value.
pub open spec fn abs(x: int) -> int {
    if x < 0 {
        -x
    } else {
        x
    }
}

/// Absolute values of a sequence of integers.
pub open spec fn abs_all(s: Seq<int>) -> Seq<int> {
    Seq::new(s.len(), |i: int| abs(s[i]))
}

/// Flat batch index inside the operand whose padded batch shape is `p`, of the
/// output batch with flat index `b` in the broadcast shape `out`: the operand
/// coordinate along each axis is the output coordinate, or 0 where the
/// operand is broadcast; those coordinates are combined in row-major order.
pub open spec fn source_batch(p: Seq<usize>, out: Seq<usize>, b: int) -> int {
    strided_sum(out, Seq::new(p.len(), |i: int| broadcast_stride(p, i)), b, 0)
}

/// Wrapping (two's complement) left fold `init + a[0]*b[0] + a[1]*b[1] + ...` in `i64`.
pub open spec fn wfold_i64(init: i64, a: Seq<i64>, b: Seq<i64>) -> i64
    decreases a.len(),
{
    if a.len() == 0 {
        init
    } else {
        wfold_i64(init, a.drop_last(), b.drop_last()).wrapping_add(
            a.last().wrapping_mul(b[a.len() - 1]),
        )
    }
}

/// Wrapping dot product of two `i64` sequences, accumulated from index 0 upwards.
pub open spec fn wdot_i64(a: Seq<i64>, b: Seq<i64>) -> i64 {
    wfold_i64(0, a, b)
}

/// Wrapping dot product of two `i32` sequences, accumulated from index 0 upwards.
pub open spec fn wdot_i32(a: Seq<i32>, b: Seq<i32>) -> i32
    decreases a.len(),
{
    if a.len() == 0 {
        0
    } else {
        wdot_i32(a.drop_last(), b.drop_last()).wrapping_add(a.last().wrapping_mul(b[a.len() - 1]))
    }
}

/// Row `i` of the row-major `? x k` matrix stored at `data[off..]`.
pub open spec fn row_of<T>(data: Seq<T>, off: int, i: int, k: int) -> Seq<T> {
    data.subrange(off + i * k, off + i * k + k)
}

/// Column `j` of the row-major `k x n` matrix stored at `data[off..]`.
pub open spec fn col_of<T>(data: Seq<T>, off: int, j: int, k: int, n: int) -> Seq<T> {
    Seq::new(k as nat, |l: int| data[off + l * n + j])
}

// ---------------------------------------------------------------------------
// Lemmas
// ---------------------------------------------------------------------------

/// Products of dimensions are non-negative.
pub proof fn lemma_prod_nonneg(s: Seq<usize>)
    ensures
        prod(s) >= 0,
    decreases s.len(),
{
    if s.len() > 0 {
        lemma_prod_nonneg(s.drop_first());
        let a = s[0] as int;
        let p = prod(s.drop_first());
        assert(a * p >= 0) by (nonlinear_arith)
            requires
                a >= 0,
                p >= 0,
        ;
    }
}

/// The product of no trailing dimensions is 1.
pub proof fn lemma_suffix_prod_end(s: Seq<usize>)
    ensures
        suffix_prod(s, s.len() as int) == 1,
{
    assert(s.subrange(s.len() as int, s.len() as int).len() == 0);
}

/// The product of all trailing dimensions is the whole product.
pub proof fn lemma_suffix_prod_start(s: Seq<usize>)
    ensures
        suffix_prod(s, 0) == prod(s),
{
    assert(s.subrange(0, s.len() as int) =~= s);
}

/// A trailing product is its first dimension times the next trailing product.
pub proof fn lemma_suffix_prod_step(s: Seq<usize>, i: int)
    requires
        0 <= i < s.len(),
    ensures
        suffix_prod(s, i) == s[i] as int * suffix_prod(s, i + 1),
{
    let t = s.subrange(i, s.len() as int);
    assert(t.drop_first() =~= s.subrange(i + 1, s.len() as int));
    assert(t[0] == s[i]);
}

/// Trailing products are non-negative.
pub proof fn lemma_suffix_prod_nonneg(s: Seq<usize>, i: int)
    ensures
        suffix_prod(s, i) >= 0,
{
    lemma_prod_nonneg(s.subrange(i, s.len() as int));
}

/// Appending a dimension multiplies the product by it.
pub proof fn lemma_prod_push(s: Seq<usize>, x: usize)
    ensures
        prod(s.push(x)) == prod(s) * x,
    decreases s.len(),
{
    if s.len() == 0 {
        assert(s.push(x).drop_first() =~= Seq::<usize>::empty());
        assert(prod(Seq::<usize>::empty()) == 1);
    } else {
        assert(s.push(x).drop_first() =~= s.drop_first().push(x));
        lemma_prod_push(s.drop_first(), x);
        let a = s[0] as int;
        let p = prod(s.drop_first());
        assert(a * (p * x) == (a * p) * x) by (nonlinear_arith);
    }
}

/// The product of two shapes laid end to end is the product of their products.
pub proof fn lemma_prod_concat(a: Seq<usize>, b: Seq<usize>)
    ensures
        prod(a + b) == prod(a) * prod(b),
    decreases a.len(),
{
    if a.len() == 0 {
        assert(a + b =~= b);
    } else {
        assert((a + b).drop_first() =~= a.drop_first() + b);
        assert((a + b)[0] == a[0]);
        lemma_prod_concat(a.drop_first(), b);
        let x = a[0] as int;
        let p = prod(a.drop_first());
        let q = prod(b);
        assert(x * (p * q) == (x * p) * q) by (nonlinear_arith);
    }
}

/// The product of the first `i + 1` dimensions is that of the first `i` times `s[i]`.
pub proof fn lemma_prod_take_step(s: Seq<usize>, i: int)
    requires
        0 <= i < s.len(),
    ensures
        prod(s.take(i + 1)) == prod(s.take(i)) * s[i],
{
    assert(s.take(i + 1) =~= s.take(i).push(s[i]));
    lemma_prod_push(s.take(i), s[i]);
}

/// A shape with a positive product has only positive dimensions.
pub proof fn lemma_prod_pos_dims(s: Seq<usize>)
    requires
        prod(s) > 0,
    ensures
        forall|i: int| 0 <= i < s.len() ==> s[i] > 0,
    decreases s.len(),
{
    if s.len() > 0 {
        lemma_prod_nonneg(s.drop_first());
        let a = s[0] as int;
        let p = prod(s.drop_first());
        assert(a > 0 && p > 0) by (nonlinear_arith)
            requires
                a >= 0,
                p >= 0,
                a * p > 0,
        ;
        lemma_prod_pos_dims(s.drop_first());
        assert forall|i: int| 0 <= i < s.len() implies s[i] > 0 by {
            if i > 0 {
                assert(s[i] == s.drop_first()[i - 1]);
            }
        }
    }
}

/// A shape whose dimensions are all positive has a positive product.
pub proof fn lemma_pos_dims_prod(s: Seq<usize>)
    requires
        forall|i: int| 0 <= i < s.len() ==> s[i] > 0,
    ensures
        prod(s) > 0,
    decreases s.len(),
{
    if s.len() > 0 {
        assert forall|i: int| 0 <= i < s.drop_first().len() implies s.drop_first()[i] > 0 by {
            assert(s.drop_first()[i] == s[i + 1]);
        }
        lemma_pos_dims_prod(s.drop_first());
        let a = s[0] as int;
        let p = prod(s.drop_first());
        assert(a * p > 0) by (nonlinear_arith)
            requires
                a > 0,
                p > 0,
        ;
    }
}

/// A shape with a positive product has positive trailing products.
pub proof fn lemma_suffix_prod_pos(s: Seq<usize>, i: int)
    requires
        prod(s) > 0,
        0 <= i <= s.len(),
    ensures
        suffix_prod(s, i) > 0,
    decreases s.len() - i,
{
    if i == s.len() {
        lemma_suffix_prod_end(s);
    } else {
        lemma_prod_pos_dims(s);
        lemma_suffix_prod_pos(s, i + 1);
        lemma_suffix_prod_step(s, i);
        let a = s[i] as int;
        let p = suffix_prod(s, i + 1);
        assert(a * p > 0) by (nonlinear_arith)
            requires
                a > 0,
                p > 0,
        ;
    }
}

/// Trailing products shrink (weakly) as axes are dropped, while all dimensions are positive.
pub proof fn lemma_suffix_prod_mono(s: Seq<usize>, i: int, j: int)
    requires
        prod(s) > 0,
        0 <= i <= j <= s.len(),
    ensures
        suffix_prod(s, j) <= suffix_prod(s, i),
    decreases j - i,
{
    if i < j {
        lemma_suffix_prod_mono(s, i + 1, j);
        lemma_suffix_prod_step(s, i);
        lemma_prod_pos_dims(s);
        lemma_suffix_prod_pos(s, i + 1);
        let a = s[i] as int;
        let p = suffix_prod(s, i + 1);
        assert(p <= a * p) by (nonlinear_arith)
            requires
                a >= 1,
                p > 0,
        ;
    }
}

/// Trailing products of a left-padded shape equal those of the shape itself.
pub proof fn lemma_padded_suffix_prod(s: Seq<usize>, len: int, i: int)
    requires
        s.len() <= len,
        0 <= i <= len,
    ensures
        suffix_prod(padded(s, len), i) == if i < len - s.len() {
            suffix_prod(s, 0)
        } else {
            suffix_prod(s, i - (len - s.len()))
        },
    decreases len - i,
{
    let p = padded(s, len);
    let off = len - s.len();
    if i == len {
        lemma_suffix_prod_end(p);
        lemma_suffix_prod_end(s);
    } else {
        lemma_padded_suffix_prod(s, len, i + 1);
        lemma_suffix_prod_step(p, i);
        if i >= off {
            assert(p[i] == s[i - off]);
            lemma_suffix_prod_step(s, i - off);
        } else {
            assert(p[i] == 1);
            assert(suffix_prod(p, i + 1) == suffix_prod(s, 0));
        }
    }
}

/// Every coordinate of an index inside the shape is below its dimension.
pub proof fn lemma_coord_bounds(shape: Seq<usize>, b: int, i: int)
    requires
        0 <= b,
        0 <= i < shape.len(),
        shape[i] > 0,
        suffix_prod(shape, i + 1) > 0,
    ensures
        0 <= coord(shape, b, i) < shape[i],
{
    let q = b / suffix_prod(shape, i + 1);
    assert(q >= 0) by (nonlinear_arith)
        requires
            b >= 0,
            suffix_prod(shape, i + 1) > 0,
            q == b / suffix_prod(shape, i + 1),
    ;
}

/// With non-negative strides, the partial sums of `strided_sum` grow as more axes are included.
pub proof fn lemma_strided_sum_mono(shape: Seq<usize>, strides: Seq<int>, b: int, lo: int, hi: int)
    requires
        0 <= b,
        forall|j: int| 0 <= j < shape.len() ==> shape[j] > 0,
        0 <= lo <= hi <= shape.len(),
        strides.len() == shape.len(),
        forall|j: int| 0 <= j < strides.len() ==> strides[j] >= 0,
    ensures
        0 <= strided_sum(shape, strides, b, hi) <= strided_sum(shape, strides, b, lo),
    decreases hi - lo + (shape.len() - hi),
{
    lemma_pos_dims_prod(shape);
    if hi < shape.len() {
        lemma_strided_sum_mono(shape, strides, b, hi + 1, hi + 1);
        lemma_suffix_prod_pos(shape, hi + 1);
        lemma_coord_bounds(shape, b, hi);
        let c = coord(shape, b, hi);
        let st = strides[hi];
        assert(c * st >= 0) by (nonlinear_arith)
            requires
                c >= 0,
                st >= 0,
        ;
    }
    if lo < hi {
        lemma_strided_sum_mono(shape, strides, b, lo + 1, hi);
        lemma_suffix_prod_pos(shape, lo + 1);
        lemma_coord_bounds(shape, b, lo);
        let c = coord(shape, b, lo);
        let st = strides[lo];
        assert(c * st >= 0) by (nonlinear_arith)
            requires
                c >= 0,
                st >= 0,
        ;
    }
}

/// Signed strided sums are bounded by the sums of absolute strides, term by term too.
pub proof fn lemma_strided_sum_abs(shape: Seq<usize>, strides: Seq<int>, b: int, lo: int)
    requires
        0 <= b,
        forall|j: int| 0 <= j < shape.len() ==> shape[j] > 0,
        0 <= lo <= shape.len(),
        strides.len() == shape.len(),
    ensures
        abs(strided_sum(shape, strides, b, lo)) <= strided_sum(shape, abs_all(strides), b, lo),
        lo < shape.len() ==> abs(coord(shape, b, lo) * strides[lo]) <= strided_sum(
            shape,
            abs_all(strides),
            b,
            lo,
        ),
    decreases shape.len() - lo,
{
    if lo < shape.len() {
        lemma_strided_sum_abs(shape, strides, b, lo + 1);
        lemma_pos_dims_prod(shape);
        lemma_suffix_prod_pos(shape, lo + 1);
        lemma_coord_bounds(shape, b, lo);
        let c = coord(shape, b, lo);
        let st = strides[lo];
        assert(abs_all(strides)[lo] == abs(st));
        assert(abs(c * st) == c * abs(st)) by (nonlinear_arith)
            requires
                c >= 0,
        ;
        assert(c * abs(st) >= 0) by (nonlinear_arith)
            requires
                c >= 0,
        ;
        lemma_strided_sum_mono(shape, abs_all(strides), b, lo + 1, lo + 1);
    }
}

/// With non-negative strides, no index reaches further than the extent.
pub proof fn lemma_strided_sum_le_extent(shape: Seq<usize>, strides: Seq<int>, b: int, lo: int)
    requires
        0 <= b,
        0 <= lo <= shape.len(),
        strides.len() == shape.len(),
        forall|j: int| 0 <= j < shape.len() ==> shape[j] > 0,
        forall|j: int| 0 <= j < strides.len() ==> strides[j] >= 0,
    ensures
        0 <= strided_sum(shape, strides, b, lo) <= extent(shape, strides, lo),
    decreases shape.len() - lo,
{
    if lo < shape.len() {
        lemma_strided_sum_le_extent(shape, strides, b, lo + 1);
        lemma_pos_dims_prod(shape);
        lemma_suffix_prod_pos(shape, lo + 1);
        lemma_coord_bounds(shape, b, lo);
        let c = coord(shape, b, lo);
        let d = shape[lo] as int;
        let st = strides[lo];
        assert(0 <= c * st <= (d - 1) * st) by (nonlinear_arith)
            requires
                0 <= c <= d - 1,
                st >= 0,
        ;
    }
}

/// The positive parts of a sequence of strides (negative strides count 0).
pub open spec fn pos_parts(s: Seq<int>) -> Seq<int> {
    Seq::new(s.len(), |i: int| if s[i] > 0 { s[i] } else { 0 })
}

/// The magnitudes of the negative strides of a sequence (others count 0).
pub open spec fn neg_parts(s: Seq<int>) -> Seq<int> {
    Seq::new(s.len(), |i: int| if s[i] < 0 { -s[i] } else { 0 })
}

/// A strided sum lies between minus the extent of the negative strides and
/// the extent of the positive ones.
pub proof fn lemma_strided_sum_bounds(shape: Seq<usize>, strides: Seq<int>, b: int, lo: int)
    requires
        0 <= b,
        0 <= lo <= shape.len(),
        strides.len() == shape.len(),
        forall|j: int| 0 <= j < shape.len() ==> shape[j] > 0,
    ensures
        -extent(shape, neg_parts(strides), lo) <= strided_sum(shape, strides, b, lo) <= extent(
            shape,
            pos_parts(strides),
            lo,
        ),
    decreases shape.len() - lo,
{
    if lo < shape.len() {
        lemma_strided_sum_bounds(shape, strides, b, lo + 1);
        lemma_pos_dims_prod(shape);
        lemma_suffix_prod_pos(shape, lo + 1);
        lemma_coord_bounds(shape, b, lo);
        let c = coord(shape, b, lo);
        let d = shape[lo] as int;
        let st = strides[lo];
        let p = pos_parts(strides)[lo];
        let q = neg_parts(strides)[lo];
        assert(-((d - 1) * q) <= c * st <= (d - 1) * p) by (nonlinear_arith)
            requires
                0 <= c <= d - 1,
                p == (if st > 0 { st } else { 0 }),
                q == (if st < 0 { -st } else { 0 }),
        ;
    }
}

/// With non-negative strides, the extent over more axes is at least the extent over fewer.
pub proof fn lemma_extent_mono(shape: Seq<usize>, strides: Seq<int>, lo: int, hi: int)
    requires
        0 <= lo <= hi <= shape.len(),
        strides.len() == shape.len(),
        forall|j: int| 0 <= j < shape.len() ==> shape[j] > 0,
        forall|j: int| 0 <= j < strides.len() ==> strides[j] >= 0,
    ensures
        0 <= extent(shape, strides, hi) <= extent(shape, strides, lo),
    decreases hi - lo + (shape.len() - hi),
{
    if hi < shape.len() {
        lemma_extent_mono(shape, strides, hi + 1, hi + 1);
        let d = shape[hi] as int;
        let st = strides[hi];
        assert((d - 1) * st >= 0) by (nonlinear_arith)
            requires
                d >= 1,
                st >= 0,
        ;
    }
    if lo < hi {
        lemma_extent_mono(shape, strides, lo + 1, hi);
        let d = shape[lo] as int;
        let st = strides[lo];
        assert((d - 1) * st >= 0) by (nonlinear_arith)
            requires
                d >= 1,
                st >= 0,
        ;
    }
}

/// Scaling every stride by `c` scales the strided sum by `c`.
pub proof fn lemma_strided_sum_scale(shape: Seq<usize>, s1: Seq<int>, s2: Seq<int>, c: int, b: int, lo: int)
    requires
        s1.len() == shape.len(),
        s2.len() == shape.len(),
        forall|j: int| 0 <= j < shape.len() ==> #[trigger] s1[j] == s2[j] * c,
    ensures
        strided_sum(shape, s1, b, lo) == strided_sum(shape, s2, b, lo) * c,
    decreases shape.len() - lo,
{
    if 0 <= lo < shape.len() {
        lemma_strided_sum_scale(shape, s1, s2, c, b, lo + 1);
        let x = coord(shape, b, lo);
        let t = s2[lo];
        let r = strided_sum(shape, s2, b, lo + 1);
        assert(x * (t * c) + r * c == (x * t + r) * c) by (nonlinear_arith);
    }
}

/// Trailing products of a shape of rank at least 2 that start inside its
/// batch axes split into the batch part and the matrix size.
pub proof fn lemma_suffix_prod_matrix(s: Seq<usize>, j: int)
    requires
        s.len() >= 2,
        0 <= j <= s.len() - 2,
    ensures
        suffix_prod(s, j) == suffix_prod(s.take(s.len() - 2), j) * (s[s.len() - 2] * s[s.len()
            - 1]),
    decreases s.len() - 2 - j,
{
    let r = s.len() as int;
    let t = s.take(r - 2);
    let mn = s[r - 2] * s[r - 1];
    if j == r - 2 {
        lemma_suffix_prod_step(s, r - 2);
        lemma_suffix_prod_step(s, r - 1);
        lemma_suffix_prod_end(s);
        lemma_suffix_prod_end(t);
        assert(s[r - 2] * (s[r - 1] * 1) == 1 * mn) by (nonlinear_arith)
            requires
                mn == s[r - 2] * s[r - 1],
        ;
    } else {
        lemma_suffix_prod_matrix(s, j + 1);
        lemma_suffix_prod_step(s, j);
        lemma_suffix_prod_step(t, j);
        let a = s[j] as int;
        let p = suffix_prod(t, j + 1);
        assert(a * (p * mn) == (a * p) * mn) by (nonlinear_arith);
    }
}

/// Partial strided sums of an operand's broadcast strides stay below the
/// operand's trailing products.
proof fn lemma_broadcast_partial_bound(a: Seq<usize>, o: Seq<usize>, bidx: int, lo: int)
    requires
        broadcastable(a, o),
        0 <= bidx < prod(broadcast_shape(a, o)),
        0 <= lo <= broadcast_len(a, o),
    ensures
        ({
            let len = broadcast_len(a, o);
            let p = padded(a, len);
            let out = broadcast_shape(a, o);
            0 <= strided_sum(out, Seq::new(p.len(), |i: int| broadcast_stride(p, i)), bidx, lo)
                < suffix_prod(p, lo)
        }),
    decreases broadcast_len(a, o) - lo,
{
    let len = broadcast_len(a, o);
    let p = padded(a, len);
    let q = padded(o, len);
    let out = broadcast_shape(a, o);
    let st = Seq::new(p.len(), |i: int| broadcast_stride(p, i));
    if lo == len {
        lemma_suffix_prod_end(p);
    } else {
        lemma_broadcast_partial_bound(a, o, bidx, lo + 1);
        lemma_prod_pos_dims(out);
        lemma_suffix_prod_pos(out, lo + 1);
        lemma_coord_bounds(out, bidx, lo);
        assert(out[lo] == broadcast_dim(p[lo], q[lo]));
        assert(p[lo] >= 1);
        lemma_suffix_prod_step(p, lo);
        lemma_suffix_prod_nonneg(p, lo + 1);
        let c = coord(out, bidx, lo);
        let sp = suffix_prod(p, lo + 1);
        let d = p[lo] as int;
        let rest = strided_sum(out, st, bidx, lo + 1);
        if p[lo] == 1 {
            assert(st[lo] == 0);
            assert(c * 0 == 0) by (nonlinear_arith);
            assert(d * sp == sp) by (nonlinear_arith)
                requires
                    d == 1,
            ;
        } else {
            assert(st[lo] == sp);
            assert(out[lo] == p[lo]);
            assert(c * sp + rest < d * sp) by (nonlinear_arith)
                requires
                    0 <= c < d,
                    0 <= rest < sp,
            ;
            assert(c * sp >= 0) by (nonlinear_arith)
                requires
                    c >= 0,
                    sp >= 0,
            ;
        }
    }
}

/// Law: the operand batch that broadcasting selects for any output batch
/// lies inside the operand's own batches.
pub proof fn lemma_source_batch_in_bounds(a: Seq<usize>, o: Seq<usize>, bidx: int)
    requires
        broadcastable(a, o),
        0 <= bidx < prod(broadcast_shape(a, o)),
    ensures
        0 <= source_batch(padded(a, broadcast_len(a, o)), broadcast_shape(a, o), bidx) < prod(a),
{
    let len = broadcast_len(a, o);
    lemma_broadcast_partial_bound(a, o, bidx, 0);
    lemma_padded_suffix_prod(a, len, 0);
    lemma_suffix_prod_start(a);
    lemma_suffix_prod_start(padded(a, len));
}

/// The product of a shape of rank at least 2 splits into its batch part and its matrix part.
pub proof fn lemma_prod_split_matrix(s: Seq<usize>)
    requires
        s.len() >= 2,
    ensures
        prod(s) == prod(s.take(s.len() - 2)) * (s[s.len() - 2] * s[s.len() - 1]),
{
    let r = s.len() as int;
    lemma_prod_take_step(s, r - 1);
    lemma_prod_take_step(s, r - 2);
    assert(s.take(r) =~= s);
    let p = prod(s.take(r - 2));
    let a = s[r - 2] as int;
    let b = s[r - 1] as int;
    assert(p * a * b == p * (a * b)) by (nonlinear_arith);
}

/// A shape's product is zero exactly when one of its dimensions is zero.
pub proof fn lemma_prod_zero(s: Seq<usize>)
    ensures
        (prod(s) == 0) == (exists|i: int| 0 <= i < s.len() && s[i] == 0),
    decreases s.len(),
{
    if s.len() > 0 {
        lemma_prod_zero(s.drop_first());
        lemma_prod_nonneg(s.drop_first());
        let a = s[0] as int;
        let p = prod(s.drop_first());
        assert((a * p == 0) == (a == 0 || p == 0)) by (nonlinear_arith);
        if exists|i: int| 0 <= i < s.drop_first().len() && s.drop_first()[i] == 0 {
            let i = choose|i: int| 0 <= i < s.drop_first().len() && s.drop_first()[i] == 0;
            assert(s[i + 1] == 0);
        }
        if exists|i: int| 0 <= i < s.len() && s[i] == 0 {
            let i = choose|i: int| 0 <= i < s.len() && s[i] == 0;
            if i > 0 {
                assert(s.drop_first()[i - 1] == 0);
            }
        }
    }
}

/// Law: broadcasting keeps an empty batch empty. When one operand has no
/// batches at all (a zero dimension), the broadcast shape has none either.
pub proof fn lemma_broadcast_keeps_empty(a: Seq<usize>, b: Seq<usize>)
    requires
        broadcastable(a, b),
        prod(a) == 0,
    ensures
        prod(broadcast_shape(a, b)) == 0,
{
    let len = broadcast_len(a, b);
    let off = len - a.len();
    lemma_prod_zero(a);
    let i = choose|i: int| 0 <= i < a.len() && a[i] == 0;
    assert(padded(a, len)[i + off] == 0);
    assert(broadcast_shape(a, b)[i + off] == 0);
    lemma_prod_zero(broadcast_shape(a, b));
}

/// Strided sums with row-major strides give the flat index modulo the trailing product.
proof fn lemma_row_major_partial(out: Seq<usize>, b: int, lo: int)
    requires
        0 <= b < prod(out),
        0 <= lo <= out.len(),
    ensures
        strided_sum(out, Seq::new(out.len(), |i: int| broadcast_stride(out, i)), b, lo) == b
            % suffix_prod(out, lo),
    decreases out.len() - lo,
{
    let st = Seq::new(out.len(), |i: int| broadcast_stride(out, i));
    lemma_prod_pos_dims(out);
    if lo == out.len() {
        lemma_suffix_prod_end(out);
    } else {
        lemma_row_major_partial(out, b, lo + 1);
        lemma_suffix_prod_pos(out, lo + 1);
        lemma_suffix_prod_step(out, lo);
        let s1 = suffix_prod(out, lo + 1);
        let d = out[lo] as int;
        let c = coord(out, b, lo);
        if d == 1 {
            assert(c == 0);
            assert(c * st[lo] == 0) by (nonlinear_arith)
                requires
                    c == 0,
            ;
            assert(d * s1 == s1);
        } else {
            assert(st[lo] == s1);
        }
        vstd::arithmetic::div_mod::lemma_mod_breakdown(b, s1, d);
        vstd::arithmetic::mul::lemma_mul_is_commutative(s1, d);
        vstd::arithmetic::mul::lemma_mul_is_commutative(c, s1);
    }
}

/// Law: an operand that is not broadcast along any axis is read batch for
/// batch: output batch `b` selects the operand's batch `b`.
pub proof fn lemma_source_batch_identity(out: Seq<usize>, b: int)
    requires
        0 <= b < prod(out),
    ensures
        source_batch(out, out, b) == b,
{
    lemma_row_major_partial(out, b, 0);
    lemma_suffix_prod_start(out);
    vstd::arithmetic::div_mod::lemma_small_mod(b as nat, prod(out) as nat);
}

} // verus!
