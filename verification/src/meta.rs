//! Metadata of device tensors as plain values: what the launch checks read.

use vstd::prelude::*;
use crate::arith::prod;

verus! {

/// Element type of a tensor.
#[derive(Clone, Copy, Debug, PartialEq, Eq, Structural)]
pub enum DType {
    F64,
    F32,
    Flex32,
    F16,
    BF16,
    I64,
    I32,
    I16,
    I8,
    U64,
    U32,
    U16,
    U8,
    Bool,
}

/// Identity of a compute device: its kind and its index.
#[derive(Clone, Copy, Debug, PartialEq, Eq, Structural)]
pub struct DeviceId {
    pub type_id: u16,
    pub index_id: u32,
}

/// What the launch checks read of a device tensor.
#[derive(Clone, Debug)]
pub struct TensorMeta {
    pub shape: Vec<usize>,
    pub dtype: DType,
    pub device: DeviceId,
    /// The tensor carries quantization parameters.
    pub quantized: bool,
}

/// Every leading product of dimensions `s[..i]` fits in `usize` (the
/// condition under which a checked left-to-right product succeeds).
pub open spec fn prefix_prods_fit(s: Seq<usize>) -> bool {
    forall|i: int| 0 <= i <= s.len() ==> #[trigger] prod(s.take(i)) <= usize::MAX
}

/// The product of `s`, computed left to right with checked multiplication:
/// `None` exactly when some leading product overflows `usize`.
pub fn checked_product(s: &[usize]) -> (r: Option<usize>)
    ensures
        r is Some <==> prefix_prods_fit(s@),
        r matches Some(v) ==> v as int == prod(s@),
{
    let mut acc: usize = 1;
    let mut i: usize = 0;
    proof {
        assert(s@.take(0) =~= Seq::<usize>::empty());
    }
    while i < s.len()
        invariant
            i <= s@.len(),
            acc as int == prod(s@.take(i as int)),
            forall|j: int| 0 <= j <= i ==> #[trigger] prod(s@.take(j)) <= usize::MAX,
        decreases s@.len() - i,
    {
        proof {
            crate::arith::lemma_prod_take_step(s@, i as int);
        }
        match acc.checked_mul(s[i]) {
            Some(v) => {
                acc = v;
            },
            None => {
                assert(prod(s@.take(i + 1)) > usize::MAX);
                return None;
            },
        }
        i = i + 1;
    }
    proof {
        assert(s@.take(s@.len() as int) =~= s@);
    }
    Some(acc)
}

/// Whether the product of `s` is computable and at most `u32::MAX`.
pub open spec fn fits_u32_index(s: Seq<usize>) -> bool {
    prefix_prods_fit(s) && prod(s) <= u32::MAX
}

/// Whether the checked product of `s` exists and fits the kernels' `u32` indexing.
pub fn product_fits_u32(s: &[usize]) -> (r: bool)
    ensures
        r == fits_u32_index(s@),
{
    match checked_product(s) {
        Some(v) => v <= 0xffff_ffffusize,
        None => false,
    }
}

/// Whether a shape equals the given dimensions.
pub fn shape_eq(s: &[usize], dims: &[usize]) -> (r: bool)
    ensures
        r == (s@ == dims@),
{
    if s.len() != dims.len() {
        return false;
    }
    let mut i: usize = 0;
    while i < s.len()
        invariant
            i <= s@.len(),
            s@.len() == dims@.len(),
            forall|j: int| 0 <= j < i ==> s@[j] == dims@[j],
        decreases s@.len() - i,
    {
        if s[i] != dims[i] {
            return false;
        }
        i = i + 1;
    }
    proof {
        assert(s@ =~= dims@);
    }
    true
}

/// With no zero dimension, leading products never shrink.
proof fn lemma_prefix_prod_le(s: Seq<usize>, i: int, j: int)
    requires
        forall|t: int| 0 <= t < s.len() ==> s[t] >= 1,
        0 <= i <= j <= s.len(),
    ensures
        prod(s.take(i)) <= prod(s.take(j)),
    decreases j - i,
{
    if i < j {
        lemma_prefix_prod_le(s, i, j - 1);
        crate::arith::lemma_prod_take_step(s, j - 1);
        crate::arith::lemma_prod_nonneg(s.take(j - 1));
        let p = prod(s.take(j - 1));
        let d = s[j - 1] as int;
        assert(p <= p * d) by (nonlinear_arith)
            requires
                p >= 0,
                d >= 1,
        ;
    }
}

/// Whether a shape has exactly `len` elements.
pub fn shape_matches_len(s: &[usize], len: usize) -> (r: bool)
    ensures
        r == (prod(s@) == len),
{
    let mut i: usize = 0;
    while i < s.len()
        invariant
            i <= s@.len(),
            forall|t: int| 0 <= t < i ==> s@[t] >= 1,
        decreases s@.len() - i,
    {
        if s[i] == 0 {
            proof {
                crate::arith::lemma_prod_zero(s@);
            }
            return len == 0;
        }
        i = i + 1;
    }
    match checked_product(s) {
        Some(p) => p == len,
        None => {
            proof {
                let k = choose|k: int| 0 <= k <= s@.len() && !(#[trigger] prod(s@.take(k)) <= usize::MAX);
                lemma_prefix_prod_le(s@, k, s@.len() as int);
                assert(s@.take(s@.len() as int) =~= s@);
            }
            false
        },
    }
}

} // verus!
