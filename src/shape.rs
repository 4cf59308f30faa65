//! Row-major layout arithmetic: element counts, strides, and the conversions
//! between multi-indices and flat offsets.

use vstd::prelude::*;

verus! {

use vstd::arithmetic::div_mod::{lemma_mod_breakdown, lemma_small_mod, lemma_mod_pos_bound};

/// Number of elements of an array whose dimensions are `dims` (1 for no dimensions).
pub open spec fn product(dims: Seq<usize>) -> nat
    decreases dims.len(),
{
    if dims.len() == 0 {
        1
    } else {
        (dims[0] as nat) * product(dims.drop_first())
    }
}

/// Product of the dimensions from axis `k` on.
pub open spec fn suffix_product(dims: Seq<usize>, k: int) -> nat {
    product(dims.subrange(k, dims.len() as int))
}

/// Row-major stride of axis `i`: the product of the dimensions after it.
pub open spec fn stride(dims: Seq<usize>, i: int) -> nat {
    suffix_product(dims, i + 1)
}

/// Every stride, and the element count, of `dims` is representable as a `usize`.
pub open spec fn fits(dims: Seq<usize>) -> bool {
    forall|k: int| 0 <= k <= dims.len() ==> #[trigger] suffix_product(dims, k) <= usize::MAX
}

/// Every dimension is non-empty.
pub open spec fn all_positive(dims: Seq<usize>) -> bool {
    forall|i: int| 0 <= i < dims.len() ==> #[trigger] dims[i] > 0
}

/// `mult` holds the row-major strides of `dims`: the last one is 1, and each
/// other one is the next stride times the next dimension.
pub open spec fn is_row_major(dims: Seq<usize>, mult: Seq<usize>) -> bool {
    &&& mult.len() == dims.len()
    &&& dims.len() > 0 ==> mult[dims.len() - 1] == 1
    &&& forall|i: int|
        0 <= i < dims.len() - 1 ==> #[trigger] mult[i] == mult[i + 1] * dims[i + 1]
}

/// Sum of `idx[i] * mult[i]` over the first `k` axes.
pub open spec fn dot(idx: Seq<usize>, mult: Seq<usize>, k: int) -> int
    decreases k,
{
    if k <= 0 {
        0
    } else {
        dot(idx, mult, k - 1) + idx[k - 1] * mult[k - 1]
    }
}

/// Flat offset of the multi-index `idx` under the strides `mult`.
pub open spec fn ravel(idx: Seq<usize>, mult: Seq<usize>) -> int {
    dot(idx, mult, mult.len() as int)
}

/// Multi-index of the flat offset `x`: coordinate `i` is `(x / mult[i]) % dims[i]`.
pub open spec fn unravel(x: nat, dims: Seq<usize>, mult: Seq<usize>) -> Seq<usize> {
    Seq::new(dims.len(), |i: int| ((x as int / mult[i] as int) % (dims[i] as int)) as usize)
}

/// The suffix product from `k` is `dims[k]` times the suffix product from `k + 1`.
pub proof fn lemma_suffix_product_step(dims: Seq<usize>, k: int)
    requires
        0 <= k < dims.len(),
    ensures
        suffix_product(dims, k) == (dims[k] as nat) * suffix_product(dims, k + 1),
{
    let s = dims.subrange(k, dims.len() as int);
    assert(s.drop_first() =~= dims.subrange(k + 1, dims.len() as int));
}

/// The suffix product past the last axis is 1.
pub proof fn lemma_suffix_product_end(dims: Seq<usize>)
    ensures
        suffix_product(dims, dims.len() as int) == 1,
{
    assert(dims.subrange(dims.len() as int, dims.len() as int) =~= Seq::<usize>::empty());
}

/// The whole product is the suffix product from axis 0.
pub proof fn lemma_suffix_product_start(dims: Seq<usize>)
    ensures
        suffix_product(dims, 0) == product(dims),
{
    assert(dims.subrange(0, dims.len() as int) =~= dims);
}

/// Row-major strides are exactly the suffix products of the later dimensions.
pub proof fn lemma_row_major_strides(dims: Seq<usize>, mult: Seq<usize>)
    requires
        is_row_major(dims, mult),
    ensures
        forall|i: int| 0 <= i < dims.len() ==> #[trigger] mult[i] as int == stride(dims, i),
{
    let n = dims.len() as int;
    lemma_suffix_product_end(dims);
    assert forall|i: int| 0 <= i < n implies #[trigger] mult[i] as int == stride(dims, i) by {
        lemma_row_major_stride_at(dims, mult, i);
    }
}

proof fn lemma_row_major_stride_at(dims: Seq<usize>, mult: Seq<usize>, i: int)
    requires
        is_row_major(dims, mult),
        0 <= i < dims.len(),
    ensures
        mult[i] as int == stride(dims, i),
    decreases dims.len() - i,
{
    let n = dims.len() as int;
    if i == n - 1 {
        lemma_suffix_product_end(dims);
    } else {
        lemma_row_major_stride_at(dims, mult, i + 1);
        lemma_suffix_product_step(dims, i + 1);
        let a = mult[i + 1] as int;
        let b = dims[i + 1] as int;
        assert(mult[i] == mult[i + 1] * dims[i + 1]);
        assert(stride(dims, i) == b * stride(dims, i + 1));
        assert(a * b == b * a) by (nonlinear_arith);
    }
}

/// Partial sums of a dot product with non-negative terms never decrease.
pub proof fn lemma_dot_monotone(idx: Seq<usize>, mult: Seq<usize>, j: int, k: int)
    requires
        0 <= j <= k,
    ensures
        0 <= dot(idx, mult, j) <= dot(idx, mult, k),
    decreases k - j,
{
    if j < k {
        lemma_dot_monotone(idx, mult, j, k - 1);
        assert(idx[k - 1] * mult[k - 1] >= 0) by (nonlinear_arith);
    } else {
        lemma_dot_nonneg(idx, mult, k);
    }
}

proof fn lemma_dot_nonneg(idx: Seq<usize>, mult: Seq<usize>, k: int)
    ensures
        dot(idx, mult, k) >= 0,
    decreases k,
{
    if k > 0 {
        lemma_dot_nonneg(idx, mult, k - 1);
        assert(idx[k - 1] * mult[k - 1] >= 0) by (nonlinear_arith);
    }
}

/// Round trip: for non-empty dimensions with row-major strides, unravelling a
/// flat offset below the element count and ravelling the result gives the
/// offset back.
pub proof fn lemma_ravel_unravel(dims: Seq<usize>, mult: Seq<usize>, x: nat)
    requires
        is_row_major(dims, mult),
        all_positive(dims),
        x < product(dims),
    ensures
        ravel(unravel(x, dims, mult), mult) == x,
{
    let n = dims.len() as int;
    let u = unravel(x, dims, mult);
    lemma_row_major_strides(dims, mult);
    lemma_suffix_product_start(dims);
    lemma_suffix_product_end(dims);
    lemma_unravel_prefix(dims, mult, x, n);
    assert(x as int % 1 == 0);
}

/// With non-empty dimensions every suffix product is positive.
pub proof fn lemma_suffix_product_positive(dims: Seq<usize>, k: int)
    requires
        all_positive(dims),
        0 <= k <= dims.len(),
    ensures
        suffix_product(dims, k) > 0,
    decreases dims.len() - k,
{
    if k == dims.len() {
        lemma_suffix_product_end(dims);
    } else {
        lemma_suffix_product_positive(dims, k + 1);
        lemma_suffix_product_step(dims, k);
        let a = dims[k] as nat;
        let b = suffix_product(dims, k + 1);
        assert(a * b > 0) by (nonlinear_arith)
            requires
                a > 0,
                b > 0,
        ;
    }
}

proof fn lemma_unravel_prefix(dims: Seq<usize>, mult: Seq<usize>, x: nat, k: int)
    requires
        is_row_major(dims, mult),
        all_positive(dims),
        x < product(dims),
        0 <= k <= dims.len(),
        forall|i: int| 0 <= i < dims.len() ==> #[trigger] mult[i] as int == stride(dims, i),
    ensures
        dot(unravel(x, dims, mult), mult, k) == x as int - (x as int % suffix_product(dims, k) as int),
    decreases k,
{
    let u = unravel(x, dims, mult);
    if k == 0 {
        lemma_suffix_product_start(dims);
        lemma_small_mod(x, product(dims));
    } else {
        lemma_unravel_prefix(dims, mult, x, k - 1);
        // x % (d * m) == m * ((x / m) % d) + x % m, with m = mult[k-1], d = dims[k-1]
        let m = mult[k - 1] as int;
        let d = dims[k - 1] as int;
        lemma_suffix_product_positive(dims, k);
        lemma_suffix_product_step(dims, k - 1);
        assert(m == suffix_product(dims, k));
        assert(suffix_product(dims, k - 1) as int == d * m);
        lemma_mod_breakdown(x as int, m, d);
        assert(m * d == d * m) by (nonlinear_arith);
        assert(u[k - 1] as int == (x as int / m) % d) by {
            lemma_mod_pos_bound(x as int / m, d);
        }
        assert(u[k - 1] * mult[k - 1] == m * ((x as int / m) % d)) by (nonlinear_arith)
            requires
                u[k - 1] as int == (x as int / m) % d,
                m == mult[k - 1] as int,
        ;
    }
}

} // verus!
