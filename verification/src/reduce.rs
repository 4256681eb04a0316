//! Reductions of `[N, B, d]` arrays, in the order in which they are made.
use crate::scalar::{accumulate_products, mul_acc, Scalar};
use crate::tensor::{Arr3, Tensor3};
use vstd::prelude::*;

verus! {

/// Inner product of batch element `b` of two arrays over their first `i` slabs: row
/// after row, each from its first member to its last.
pub open spec fn batch_dot<S: Scalar>(a: Arr3<S>, c: Arr3<S>, b: int, i: nat) -> S
    decreases i,
{
    if i == 0 {
        S::spec_zero()
    } else {
        mul_acc(batch_dot(a, c, b, (i - 1) as nat), a.data[i - 1][b], c.data[i - 1][b], a.d)
    }
}

/// `acc` plus the squares of the first `j` rows of a slab.
pub open spec fn slab_squares<S: Scalar>(acc: S, slab: Seq<Seq<S>>, j: nat) -> S
    decreases j,
{
    if j == 0 {
        acc
    } else {
        mul_acc(slab_squares(acc, slab, (j - 1) as nat), slab[j - 1], slab[j - 1], slab[j - 1].len())
    }
}

/// Sum of the squares of the first `i` slabs, in memory order.
pub open spec fn sum_squares<S: Scalar>(r: Arr3<S>, i: nat) -> S
    decreases i,
{
    if i == 0 {
        S::spec_zero()
    } else {
        slab_squares(sum_squares(r, (i - 1) as nat), r.data[i - 1], r.b)
    }
}

/// Inner product of one batch element over agents and stalk dimensions.
pub fn batch_inner<S: Scalar>(a: &Tensor3<S>, c: &Tensor3<S>, b: usize) -> (r: S)
    requires
        a.wf(),
        c@.same_shape(a@),
        b < a@.b,
    ensures
        r == batch_dot(a@, c@, b as int, a@.n),
{
    let (n, _b, _d) = a.dim();
    let mut acc = S::zero();
    for i in 0..n
        invariant
            n == a@.n,
            a.wf(),
            c@.same_shape(a@),
            b < a@.b,
            acc == batch_dot(a@, c@, b as int, i as nat),
    {
        assert(a@.data[i as int][b as int].len() == a@.d);
        assert(c@.data[i as int][b as int].len() == a@.d);
        acc = accumulate_products(acc, a.row(i, b), c.row(i, b));
    }
    acc
}

/// Sum of the squares of all members, in memory order.
pub fn total_squares<S: Scalar>(r: &Tensor3<S>) -> (s: S)
    requires
        r.wf(),
    ensures
        s == sum_squares(r@, r@.n),
{
    let (n, b, _d) = r.dim();
    let mut acc = S::zero();
    for i in 0..n
        invariant
            n == r@.n,
            b == r@.b,
            r.wf(),
            acc == sum_squares(r@, i as nat),
    {
        let ghost before = acc;
        for j in 0..b
            invariant
                i < n,
                n == r@.n,
                b == r@.b,
                r.wf(),
                acc == slab_squares(before, r@.data[i as int], j as nat),
        {
            acc = accumulate_products(acc, r.row(i, j), r.row(i, j));
        }
    }
    acc
}

} // verus!
