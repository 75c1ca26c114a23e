//! Decisions of the cross product of 3-vectors along one axis: the size
//! check, the move of that axis to the innermost position for the device
//! kernel, and the number of vectors the kernel processes.

use vstd::prelude::*;
use crate::arith::{lemma_prod_concat, prod};
use crate::meta::{checked_product, prefix_prods_fit};

verus! {

/// The cross-product axis of an operand does not have size 3.
#[derive(Clone, Copy, Debug, PartialEq, Eq, Structural)]
pub struct CrossDimError {
    pub lhs_size: usize,
    pub rhs_size: usize,
}

/// What the device cross product does with its operands.
#[derive(Clone, Copy, Debug, PartialEq, Eq, Structural)]
pub enum CrossRoute {
    /// Swap axis `dim` with the innermost axis `last`, make both operands
    /// contiguous, take the product along `last`, and swap the result back.
    SwapToLast { dim: usize, last: usize },
    /// The axis is innermost: launch the kernel on the operands as they are.
    Launch,
}

/// The route of the device cross product of operands of shapes `ls` and
/// `rs` along axis `dim`.
pub open spec fn cross_route_spec(ls: Seq<usize>, rs: Seq<usize>, dim: int) -> Result<CrossRoute, CrossDimError> {
    if ls[dim] != 3 || rs[dim] != 3 {
        Err(CrossDimError { lhs_size: ls[dim], rhs_size: rs[dim] })
    } else if dim != ls.len() - 1 {
        Ok(CrossRoute::SwapToLast { dim: dim as usize, last: (ls.len() - 1) as usize })
    } else {
        Ok(CrossRoute::Launch)
    }
}

/// A shape with axes `i` and `j` exchanged.
pub open spec fn swap_axes(s: Seq<usize>, i: int, j: int) -> Seq<usize> {
    s.update(i, s[j]).update(j, s[i])
}

/// Whether axis `dim` of `shape` has size 3, the size of the vectors of a cross product.
pub fn is_cross_axis(shape: &[usize], dim: usize) -> (r: bool)
    requires
        dim < shape@.len(),
    ensures
        r == (shape@[dim as int] == 3),
{
    shape[dim] == 3
}

/// Route of the device cross product along `dim`: an error when the axis
/// of either operand does not have size 3; a swap to the innermost axis when
/// `dim` is not innermost; the kernel launch otherwise.
pub fn cross_route(lhs_shape: &[usize], rhs_shape: &[usize], dim: usize) -> (r: Result<CrossRoute, CrossDimError>)
    requires
        dim < lhs_shape@.len(),
        dim < rhs_shape@.len(),
    ensures
        r == cross_route_spec(lhs_shape@, rhs_shape@, dim as int),
        lhs_shape@[dim as int] == 3 && rhs_shape@[dim as int] == 3 ==> (r == Ok::<
            CrossRoute,
            CrossDimError,
        >(CrossRoute::Launch) <==> dim + 1 == lhs_shape@.len()),
        lhs_shape@[dim as int] == 3 && rhs_shape@[dim as int] == 3 && dim + 1 != lhs_shape@.len()
            ==> r == Ok::<CrossRoute, CrossDimError>(
            CrossRoute::SwapToLast { dim, last: (lhs_shape@.len() - 1) as usize },
        ),
        r is Err <==> (lhs_shape@[dim as int] != 3 || rhs_shape@[dim as int] != 3),
{
    if !is_cross_axis(lhs_shape, dim) || !is_cross_axis(rhs_shape, dim) {
        return Err(CrossDimError { lhs_size: lhs_shape[dim], rhs_size: rhs_shape[dim] });
    }
    let last = lhs_shape.len() - 1;
    if dim != last {
        Ok(CrossRoute::SwapToLast { dim, last })
    } else {
        Ok(CrossRoute::Launch)
    }
}

/// Number of 3-vectors of an output of shape `out_shape` (its element count
/// over 3); `None` when the element count overflows `usize`.
pub fn cross_vector_count(out_shape: &[usize]) -> (r: Option<usize>)
    ensures
        r is Some <==> prefix_prods_fit(out_shape@),
        r matches Some(v) ==> v as int == prod(out_shape@) / 3,
{
    match checked_product(out_shape) {
        Some(n) => Some(n / 3),
        None => None,
    }
}

/// Law: after the swap that the route asks for, the route of the swapped
/// operands along the innermost axis is the kernel launch: the device cross
/// product swaps at most once.
pub proof fn lemma_cross_swaps_once(ls: Seq<usize>, rs: Seq<usize>, dim: int)
    requires
        0 <= dim < ls.len(),
        ls.len() == rs.len(),
        cross_route_spec(ls, rs, dim) is Ok,
    ensures
        cross_route_spec(
            swap_axes(ls, dim, ls.len() - 1),
            swap_axes(rs, dim, ls.len() - 1),
            ls.len() - 1,
        ) == Ok::<CrossRoute, CrossDimError>(CrossRoute::Launch),
{
}

/// Splits a shape around the cross-product axis `dim`: the number of
/// elements before the axis (`outer`) and after it (`inner`), so that the
/// component `c` of vector `(o, i)` of a row-major tensor sits at flat
/// position `(o * 3 + c) * inner + i`. `None` when either count overflows
/// `usize`.
pub fn cross_split(shape: &[usize], dim: usize) -> (r: Option<(usize, usize)>)
    requires
        dim < shape@.len(),
    ensures
        r is Some <==> (prefix_prods_fit(shape@.take(dim as int)) && prefix_prods_fit(
            shape@.skip(dim + 1),
        )),
        r matches Some((outer, inner)) ==> outer as int == prod(shape@.take(dim as int))
            && inner as int == prod(shape@.skip(dim + 1)),
{
    let len = shape.len();
    let before = &shape[0..dim];
    let after = &shape[dim + 1..len];
    proof {
        assert(before@ =~= shape@.take(dim as int));
        assert(after@ =~= shape@.skip(dim + 1));
    }
    match (checked_product(before), checked_product(after)) {
        (Some(outer), Some(inner)) => Some((outer, inner)),
        _ => None,
    }
}

/// Law: a shape whose cross-product axis has size 3 holds `outer * 3 * inner`
/// elements: the split accounts for every element exactly once.
pub proof fn lemma_cross_split_covers(shape: Seq<usize>, dim: int)
    requires
        0 <= dim < shape.len(),
        shape[dim] == 3,
    ensures
        prod(shape) == prod(shape.take(dim)) * 3 * prod(shape.skip(dim + 1)),
{
    let a = shape.take(dim);
    let b = shape.skip(dim + 1);
    let mid = seq![shape[dim]];
    assert(shape =~= a + (mid + b));
    lemma_prod_concat(a, mid + b);
    lemma_prod_concat(mid, b);
    assert(prod(mid) == 3) by {
        assert(mid.drop_first() =~= Seq::<usize>::empty());
        assert(prod(Seq::<usize>::empty()) == 1);
        assert(mid[0] == 3);
    }
    let p = prod(a);
    let q = prod(b);
    assert(p * (3 * q) == p * 3 * q) by (nonlinear_arith);
}

/// Law: the device kernel reads 3-vectors along the innermost axis only. For
/// operands whose axis `dim` has size 3, the route launches the kernel
/// directly exactly when `dim` is the innermost axis (`rank - 1`); for every
/// other axis it first swaps `dim` with the innermost axis. An axis of any
/// other size is refused.
pub proof fn lemma_cross_route_innermost(ls: Seq<usize>, rs: Seq<usize>, dim: int)
    requires
        0 <= dim < ls.len(),
        dim < rs.len(),
    ensures
        (ls[dim] != 3 || rs[dim] != 3) ==> cross_route_spec(ls, rs, dim) is Err,
        (ls[dim] == 3 && rs[dim] == 3 && dim == ls.len() - 1) ==> cross_route_spec(ls, rs, dim)
            == Ok::<CrossRoute, CrossDimError>(CrossRoute::Launch),
        (ls[dim] == 3 && rs[dim] == 3 && dim < ls.len() - 1) ==> cross_route_spec(ls, rs, dim)
            == Ok::<CrossRoute, CrossDimError>(
            CrossRoute::SwapToLast { dim: dim as usize, last: (ls.len() - 1) as usize },
        ),
{
}

} // verus!
