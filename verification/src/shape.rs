//! Shape and stride helpers of the batched host matrix product.

use vstd::prelude::*;
use crate::meta::{checked_product, prefix_prods_fit};
use crate::arith::{
    extent, lemma_extent_mono, lemma_prod_pos_dims, lemma_prod_zero, lemma_strided_sum_bounds,
    lemma_strided_sum_le_extent, neg_parts, pos_parts,
    lemma_prod_take_step,
    abs, abs_all, broadcast_dim, broadcast_len, broadcast_shape, broadcast_stride, broadcastable,
    coord, isize_ints, lemma_coord_bounds, lemma_padded_suffix_prod, lemma_pos_dims_prod,
    lemma_strided_sum_abs, lemma_strided_sum_mono, lemma_suffix_prod_end, lemma_suffix_prod_pos,
    lemma_suffix_prod_step, padded, prod, strided_sum, suffix_prod, suffix_prods_fit, usize_ints,
};

verus! {

/// Shape, element strides and start offset of a strided host tensor view.
pub struct StridedLayout {
    pub shape: Vec<usize>,
    pub strides: Vec<isize>,
    pub start_offset: usize,
}

/// Size of an `a x b` matrix. The product must fit in `usize`.
pub fn checked_size(a: usize, b: usize) -> (r: usize)
    requires
        a * b <= usize::MAX,
    ensures
        r == a * b,
{
    a * b
}

/// Row and column strides of the last two axes of a layout of rank at least 2.
pub fn get_2d_strides(layout: &StridedLayout) -> (r: (isize, isize))
    requires
        layout.strides@.len() >= 2,
    ensures
        r.0 == layout.strides@[layout.strides@.len() - 2],
        r.1 == layout.strides@[layout.strides@.len() - 1],
{
    let ndim = layout.strides.len();
    let row_stride = layout.strides[ndim - 2];
    let col_stride = layout.strides[ndim - 1];
    (row_stride, col_stride)
}

/// Dimension `i` of the batch shape `s` left-padded with ones to `len` axes.
pub fn padded_dim(s: &[usize], len: usize, i: usize) -> (d: usize)
    requires
        s@.len() <= len,
        i < len,
    ensures
        d == padded(s@, len as int)[i as int],
{
    let off = len - s.len();
    if i < off {
        1
    } else {
        s[i - off]
    }
}

/// Broadcast shape of two batch shapes, with the matrix-level strides that map
/// each output batch coordinate back to each operand (0 along broadcast axes).
pub fn broadcast_batch_dims(lhs_batch: &[usize], rhs_batch: &[usize]) -> (r: (
    Vec<usize>,
    Vec<usize>,
    Vec<usize>,
))
    requires
        broadcastable(lhs_batch@, rhs_batch@),
        suffix_prods_fit(lhs_batch@),
        suffix_prods_fit(rhs_batch@),
    ensures
        r.0@ == broadcast_shape(lhs_batch@, rhs_batch@),
        r.1@.len() == broadcast_len(lhs_batch@, rhs_batch@),
        r.2@.len() == broadcast_len(lhs_batch@, rhs_batch@),
        forall|i: int|
            0 <= i < r.1@.len() ==> #[trigger] r.1@[i] as int == broadcast_stride(
                padded(lhs_batch@, broadcast_len(lhs_batch@, rhs_batch@)),
                i,
            ),
        forall|i: int|
            0 <= i < r.2@.len() ==> #[trigger] r.2@[i] as int == broadcast_stride(
                padded(rhs_batch@, broadcast_len(lhs_batch@, rhs_batch@)),
                i,
            ),
{
    let ll = lhs_batch.len();
    let rl = rhs_batch.len();
    let max_len = if ll >= rl {
        ll
    } else {
        rl
    };
    let ghost len = max_len as int;
    let ghost pl = padded(lhs_batch@, len);
    let ghost pr = padded(rhs_batch@, len);

    let mut broadcast_shape_v: Vec<usize> = vec![0usize; max_len];
    let mut lhs_strides: Vec<usize> = vec![0usize; max_len];
    let mut rhs_strides: Vec<usize> = vec![0usize; max_len];

    // Strides are accumulated from the innermost axis outwards.
    let mut lhs_stride: usize = 1;
    let mut rhs_stride: usize = 1;
    let mut i = max_len;
    proof {
        lemma_suffix_prod_end(pl);
        lemma_suffix_prod_end(pr);
    }
    while i > 0
        invariant
            i <= max_len,
            max_len as int == len,
            len == broadcast_len(lhs_batch@, rhs_batch@),
            pl == padded(lhs_batch@, len),
            pr == padded(rhs_batch@, len),
            broadcastable(lhs_batch@, rhs_batch@),
            suffix_prods_fit(lhs_batch@),
            suffix_prods_fit(rhs_batch@),
            broadcast_shape_v@.len() == max_len,
            lhs_strides@.len() == max_len,
            rhs_strides@.len() == max_len,
            lhs_stride as int == suffix_prod(pl, i as int),
            rhs_stride as int == suffix_prod(pr, i as int),
            forall|j: int|
                i <= j < max_len ==> #[trigger] broadcast_shape_v@[j] == broadcast_dim(
                    pl[j],
                    pr[j],
                ),
            forall|j: int|
                i <= j < max_len ==> #[trigger] lhs_strides@[j] as int == broadcast_stride(pl, j),
            forall|j: int|
                i <= j < max_len ==> #[trigger] rhs_strides@[j] as int == broadcast_stride(pr, j),
        decreases i,
    {
        i = i - 1;
        let ld = padded_dim(lhs_batch, max_len, i);
        let rd = padded_dim(rhs_batch, max_len, i);
        broadcast_shape_v.set(i, if ld == 1 { rd } else { ld });
        lhs_strides.set(i, if ld == 1 { 0 } else { lhs_stride });
        rhs_strides.set(i, if rd == 1 { 0 } else { rhs_stride });
        proof {
            lemma_suffix_prod_step(pl, i as int);
            lemma_suffix_prod_step(pr, i as int);
            lemma_padded_suffix_prod(lhs_batch@, len, i as int);
            lemma_padded_suffix_prod(rhs_batch@, len, i as int);
            if i < len - lhs_batch@.len() {
                assert(suffix_prod(lhs_batch@, 0) <= usize::MAX);
            } else {
                assert(suffix_prod(lhs_batch@, i - (len - lhs_batch@.len())) <= usize::MAX);
            }
            if i < len - rhs_batch@.len() {
                assert(suffix_prod(rhs_batch@, 0) <= usize::MAX);
            } else {
                assert(suffix_prod(rhs_batch@, i - (len - rhs_batch@.len())) <= usize::MAX);
            }
            vstd::arithmetic::mul::lemma_mul_is_commutative(lhs_stride as int, ld as int);
            vstd::arithmetic::mul::lemma_mul_is_commutative(rhs_stride as int, rd as int);
        }
        lhs_stride = lhs_stride * ld;
        rhs_stride = rhs_stride * rd;
    }
    proof {
        assert(broadcast_shape_v@ =~= broadcast_shape(lhs_batch@, rhs_batch@));
    }
    (broadcast_shape_v, lhs_strides, rhs_strides)
}

/// Converts a flat batch index to an input batch offset: the sum, over the axes
/// of `broadcast_shape`, of the index's coordinate times the stride.
pub fn batch_index_to_offset(b: usize, broadcast_shape: &[usize], strides: &[usize]) -> (r: usize)
    requires
        strides@.len() == broadcast_shape@.len(),
        forall|j: int| 0 <= j < broadcast_shape@.len() ==> broadcast_shape@[j] > 0,
        strided_sum(broadcast_shape@, usize_ints(strides@), b as int, 0) <= usize::MAX,
    ensures
        r as int == strided_sum(broadcast_shape@, usize_ints(strides@), b as int, 0),
{
    let ghost shape = broadcast_shape@;
    let ghost st = usize_ints(strides@);
    let mut offset: usize = 0;
    let mut remaining = b;
    let mut i = broadcast_shape.len();
    proof {
        lemma_suffix_prod_end(shape);
        lemma_pos_dims_prod(shape);
    }
    while i > 0
        invariant
            i <= shape.len(),
            shape == broadcast_shape@,
            st == usize_ints(strides@),
            strides@.len() == shape.len(),
            prod(shape) > 0,
            strided_sum(shape, st, b as int, 0) <= usize::MAX,
            forall|j: int| 0 <= j < shape.len() ==> shape[j] > 0,
            remaining as int == b as int / suffix_prod(shape, i as int),
            offset as int == strided_sum(shape, st, b as int, i as int),
        decreases i,
    {
        i = i - 1;
        proof {
            lemma_suffix_prod_pos(shape, i + 1);
            lemma_coord_bounds(shape, b as int, i as int);
            lemma_strided_sum_mono(shape, st, b as int, 0, i as int);
            lemma_strided_sum_mono(shape, st, b as int, i + 1, i + 1);
            lemma_suffix_prod_step(shape, i as int);
            vstd::arithmetic::div_mod::lemma_div_denominator(
                b as int,
                suffix_prod(shape, i + 1),
                shape[i as int] as int,
            );
            vstd::arithmetic::mul::lemma_mul_is_commutative(
                suffix_prod(shape, i + 1),
                shape[i as int] as int,
            );
        }
        let idx = remaining % broadcast_shape[i];
        assert(idx as int == coord(shape, b as int, i as int));
        offset = offset + idx * strides[i];
        remaining = remaining / broadcast_shape[i];
    }
    offset
}

/// Element-level batch strides of an operand with batch shape `batch` and
/// layout strides `layout_strides` inside a broadcast of `len` batch axes: the
/// layout stride along axes where the batch dimension exceeds 1, 0 elsewhere.
pub open spec fn elem_batch_strides(batch: Seq<usize>, layout_strides: Seq<isize>, len: int) -> Seq<isize> {
    Seq::new(
        len as nat,
        |i: int|
            if padded(batch, len)[i] > 1 {
                layout_strides[i - (len - batch.len())]
            } else {
                0isize
            },
    )
}

/// Element-level batch strides of a (possibly non-contiguous) operand inside a
/// broadcast of `broadcast_len` batch axes: the operand's own layout stride
/// along axes where its batch dimension exceeds 1, and 0 elsewhere (padded or
/// broadcast axes).
pub fn broadcast_batch_elem_strides(
    batch_shape: &[usize],
    layout_strides: &[isize],
    broadcast_len: usize,
) -> (r: Vec<isize>)
    requires
        broadcast_len >= batch_shape@.len(),
        forall|j: int|
            0 <= j < batch_shape@.len() && #[trigger] batch_shape@[j] > 1 ==> j
                < layout_strides@.len(),
    ensures
        r@ == elem_batch_strides(batch_shape@, layout_strides@, broadcast_len as int),
{
    let batch_ndim = batch_shape.len();
    let off = broadcast_len - batch_ndim;
    let mut result: Vec<isize> = vec![0isize; broadcast_len];
    let mut i: usize = 0;
    while i < broadcast_len
        invariant
            i <= broadcast_len,
            off == broadcast_len - batch_shape@.len(),
            batch_ndim == batch_shape@.len(),
            forall|j: int|
                0 <= j < batch_shape@.len() && #[trigger] batch_shape@[j] > 1 ==> j
                    < layout_strides@.len(),
            result@.len() == broadcast_len,
            forall|j: int|
                0 <= j < i ==> #[trigger] result@[j] == if padded(
                    batch_shape@,
                    broadcast_len as int,
                )[j] > 1 {
                    layout_strides@[j - off]
                } else {
                    0isize
                },
            forall|j: int| i <= j < broadcast_len ==> #[trigger] result@[j] == 0isize,
        decreases broadcast_len - i,
    {
        if i >= off {
            let bi = i - off;
            if batch_shape[bi] > 1 {
                result.set(i, layout_strides[bi]);
            }
        }
        i = i + 1;
    }
    proof {
        assert(result@ =~= elem_batch_strides(batch_shape@, layout_strides@, broadcast_len as int));
    }
    result
}

/// Converts a flat batch index to an element offset: the sum, over the axes of
/// `broadcast_shape`, of the index's coordinate times the element stride.
pub fn batch_elem_offset(b: usize, broadcast_shape: &[usize], elem_strides: &[isize]) -> (r: isize)
    requires
        elem_strides@.len() == broadcast_shape@.len(),
        forall|j: int| 0 <= j < broadcast_shape@.len() ==> broadcast_shape@[j] > 0,
        strided_sum(broadcast_shape@, abs_all(isize_ints(elem_strides@)), b as int, 0)
            <= isize::MAX,
    ensures
        r as int == strided_sum(broadcast_shape@, isize_ints(elem_strides@), b as int, 0),
{
    let ghost shape = broadcast_shape@;
    let ghost st = isize_ints(elem_strides@);
    let mut offset: isize = 0;
    let mut remaining = b;
    let mut i = broadcast_shape.len();
    proof {
        lemma_suffix_prod_end(shape);
        lemma_pos_dims_prod(shape);
    }
    while i > 0
        invariant
            i <= shape.len(),
            shape == broadcast_shape@,
            st == isize_ints(elem_strides@),
            elem_strides@.len() == shape.len(),
            prod(shape) > 0,
            strided_sum(shape, abs_all(st), b as int, 0) <= isize::MAX,
            forall|j: int| 0 <= j < shape.len() ==> shape[j] > 0,
            remaining as int == b as int / suffix_prod(shape, i as int),
            offset as int == strided_sum(shape, st, b as int, i as int),
        decreases i,
    {
        i = i - 1;
        proof {
            lemma_suffix_prod_pos(shape, i + 1);
            lemma_coord_bounds(shape, b as int, i as int);
            lemma_strided_sum_abs(shape, st, b as int, i as int);
            lemma_strided_sum_mono(shape, abs_all(st), b as int, 0, i as int);
            assert forall|j: int| 0 <= j < abs_all(st).len() implies abs_all(st)[j] >= 0 by {}
            lemma_suffix_prod_step(shape, i as int);
            vstd::arithmetic::div_mod::lemma_div_denominator(
                b as int,
                suffix_prod(shape, i + 1),
                shape[i as int] as int,
            );
            vstd::arithmetic::mul::lemma_mul_is_commutative(
                suffix_prod(shape, i + 1),
                shape[i as int] as int,
            );
        }
        let idx = remaining % broadcast_shape[i];
        assert(idx as int == coord(shape, b as int, i as int));
        proof {
            // A coordinate that meets a nonzero stride is bounded by its term.
            let c = idx as int;
            let sv = st[i as int];
            assert(abs(c * sv) <= isize::MAX);
            if sv != 0 {
                assert(c <= abs(c * sv)) by (nonlinear_arith)
                    requires
                        c >= 0,
                        sv != 0,
                ;
            } else {
                assert(c * sv == 0) by (nonlinear_arith)
                    requires
                        sv == 0,
                ;
            }
        }
        // Axes with a zero stride contribute nothing, whatever their coordinate.
        let term: isize = if elem_strides[i] == 0 {
            0
        } else {
            idx as isize * elem_strides[i]
        };
        offset = offset + term;
        remaining = remaining / broadcast_shape[i];
    }
    offset
}

/// Product of all dimensions of a shape (the number of its elements).
pub fn shape_product(s: &[usize]) -> (r: usize)
    requires
        prefix_prods_fit(s@),
    ensures
        r as int == prod(s@),
{
    let mut acc: usize = 1;
    let mut i: usize = 0;
    proof {
        assert(s@.take(0) =~= Seq::<usize>::empty());
    }
    while i < s.len()
        invariant
            i <= s@.len(),
            prefix_prods_fit(s@),
            acc as int == prod(s@.take(i as int)),
        decreases s@.len() - i,
    {
        proof {
            lemma_prod_take_step(s@, i as int);
            assert(prod(s@.take(i + 1)) <= usize::MAX);
        }
        acc = acc * s[i];
        i = i + 1;
    }
    proof {
        assert(s@.take(s@.len() as int) =~= s@);
    }
    acc
}

/// Which part of each stride an extent measures.
#[derive(Clone, Copy, Debug, PartialEq, Eq, Structural)]
pub enum StridePart {
    /// Positive strides (others count 0).
    Positive,
    /// Magnitudes of negative strides (others count 0).
    Negative,
    /// Magnitudes of all strides.
    Magnitude,
}

/// The chosen part of each stride.
pub open spec fn stride_parts(s: Seq<int>, part: StridePart) -> Seq<int> {
    match part {
        StridePart::Positive => pos_parts(s),
        StridePart::Negative => neg_parts(s),
        StridePart::Magnitude => abs_all(s),
    }
}

/// Whether the extent of the chosen part of the strides inside `shape`
/// (every coordinate at its largest) is at most `bound`. The shape has no
/// zero dimension.
pub fn extent_within(shape: &[usize], strides: &[isize], part: StridePart, bound: usize) -> (r: bool)
    requires
        strides@.len() == shape@.len(),
        forall|j: int| 0 <= j < shape@.len() ==> shape@[j] > 0,
    ensures
        r == (extent(shape@, stride_parts(isize_ints(strides@), part), 0) <= bound),
{
    let ghost st = stride_parts(isize_ints(strides@), part);
    proof {
        assert forall|j: int| 0 <= j < st.len() implies st[j] >= 0 by {}
    }
    let len = shape.len();
    let mut acc: usize = 0;
    let mut i = len;
    while i > 0
        invariant
            i <= len,
            len == shape@.len(),
            st == stride_parts(isize_ints(strides@), part),
            st.len() == shape@.len(),
            strides@.len() == shape@.len(),
            forall|j: int| 0 <= j < shape@.len() ==> shape@[j] > 0,
            forall|j: int| 0 <= j < st.len() ==> st[j] >= 0,
            acc as int == extent(shape@, st, i as int),
            acc <= bound,
        decreases i,
    {
        i = i - 1;
        let d = shape[i] - 1;
        let sv = strides[i];
        let magnitude: usize = if sv >= 0 {
            sv as usize
        } else {
            (-(sv + 1)) as usize + 1
        };
        let a: usize = match part {
            StridePart::Positive => if sv > 0 {
                magnitude
            } else {
                0
            },
            StridePart::Negative => if sv < 0 {
                magnitude
            } else {
                0
            },
            StridePart::Magnitude => magnitude,
        };
        assert(a as int == st[i as int]);
        proof {
            lemma_extent_mono(shape@, st, 0, i as int);
            assert(extent(shape@, st, i as int) == (d as int) * (a as int) + extent(shape@, st, i + 1));
        }
        match d.checked_mul(a) {
            Some(t) => {
                if t > bound - acc {
                    return false;
                }
                acc = acc + t;
            },
            None => {
                return false;
            },
        }
    }
    true
}

/// Element offset, in the data, of the element with row-major index `f` of a view.
pub open spec fn view_offset(l: StridedLayout, f: int) -> int {
    l.start_offset + strided_sum(l.shape@, isize_ints(l.strides@), f, 0)
}

/// A view of `len` elements of data is well formed: a stride per axis, an
/// element count within `usize`, and, unless it is empty, every element
/// inside the data (the start lies past the reach of the negative strides,
/// and the reach of the positive ones stays before `len`), with offsets
/// within `isize`.
pub open spec fn view_fits(l: StridedLayout, len: int) -> bool {
    let st = isize_ints(l.strides@);
    &&& l.strides@.len() == l.shape@.len()
    &&& prefix_prods_fit(l.shape@)
    &&& prod(l.shape@) > 0 ==> {
        &&& extent(l.shape@, neg_parts(st), 0) <= l.start_offset
        &&& l.start_offset + extent(l.shape@, pos_parts(st), 0) < len
        &&& extent(l.shape@, abs_all(st), 0) <= isize::MAX
    }
}

/// The elements of a view in row-major order.
pub open spec fn gathered<T>(data: Seq<T>, l: StridedLayout) -> Seq<T> {
    Seq::new(prod(l.shape@) as nat, |f: int| data[view_offset(l, f)])
}

/// Whether a view of `len` elements of data is well formed (see [`view_fits`]).
pub fn view_in_bounds(l: &StridedLayout, len: usize) -> (r: bool)
    ensures
        r == view_fits(*l, len as int),
{
    if l.strides.len() != l.shape.len() {
        return false;
    }
    let count = match checked_product(l.shape.as_slice()) {
        Some(c) => c,
        None => {
            return false;
        },
    };
    if count == 0 {
        return true;
    }
    proof {
        lemma_prod_pos_dims(l.shape@);
    }
    if !extent_within(l.shape.as_slice(), l.strides.as_slice(), StridePart::Negative, l.start_offset) {
        return false;
    }
    if l.start_offset >= len {
        proof {
            let st = pos_parts(isize_ints(l.strides@));
            assert forall|j: int| 0 <= j < st.len() implies st[j] >= 0 by {}
            lemma_extent_mono(l.shape@, st, 0, l.shape@.len() as int);
        }
        return false;
    }
    if !extent_within(l.shape.as_slice(), l.strides.as_slice(), StridePart::Positive, len - 1 - l.start_offset) {
        return false;
    }
    extent_within(l.shape.as_slice(), l.strides.as_slice(), StridePart::Magnitude, isize::MAX as usize)
}

/// The elements of a well-formed view, copied in row-major order.
pub fn gather<T: Copy>(data: &[T], l: &StridedLayout) -> (r: Vec<T>)
    requires
        view_fits(*l, data@.len() as int),
    ensures
        r@ == gathered(data@, *l),
{
    let n = shape_product(l.shape.as_slice());
    let dlen = data.len();
    let ghost st = isize_ints(l.strides@);
    let mut out: Vec<T> = Vec::new();
    let mut f: usize = 0;
    while f < n
        invariant
            f <= n,
            n as int == prod(l.shape@),
            st == isize_ints(l.strides@),
            view_fits(*l, data@.len() as int),
            dlen == data@.len(),
            out@.len() == f,
            forall|g: int| 0 <= g < f ==> #[trigger] out@[g] == data@[view_offset(*l, g)],
        decreases n - f,
    {
        proof {
            lemma_prod_pos_dims(l.shape@);
            assert forall|j: int| 0 <= j < abs_all(st).len() implies abs_all(st)[j] >= 0 by {}
            lemma_strided_sum_le_extent(l.shape@, abs_all(st), f as int, 0);
            lemma_strided_sum_abs(l.shape@, st, f as int, 0);
            lemma_strided_sum_bounds(l.shape@, st, f as int, 0);
        }
        let o = batch_elem_offset(f, l.shape.as_slice(), l.strides.as_slice());
        let idx: usize = if o >= 0 {
            l.start_offset + o as usize
        } else {
            l.start_offset - ((-(o + 1)) as usize + 1)
        };
        assert(idx as int == view_offset(*l, f as int));
        out.push(data[idx]);
        f = f + 1;
    }
    proof {
        assert(out@ =~= gathered(data@, *l));
    }
    out
}

} // verus!
