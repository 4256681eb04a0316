//! Laws of numbers whose order goes with their operations: what is a sum of squares is not
//! negative. Rounded machine numbers keep their order so, and exact numbers do.
use super::geometry::laplacian_is_adjoint;
use super::lora::lora_laplacian_form_is_squares;
use super::ring::{batch_dot_total, exact, plus_zero, times_shift, times_zero, total};
use crate::encoder::{dense_rows_of, MlpEncoderV2};
use crate::geometry::{consistency_epsilon, energy_of, masked, rms_of, FixedModel, LoraModel};
use crate::layers::softplus_of;
use crate::reduce::{batch_dot, slab_squares, sum_squares};
use crate::scalar::{mul_acc, Scalar};
use crate::session::{node_rms, node_squares};
use crate::solvers::ObjectiveModel;
use crate::tensor::Arr3;
use vstd::prelude::*;

verus! {

/// The number is not below zero.
pub open spec fn not_negative<S: Scalar>(a: S) -> bool {
    !a.spec_less(S::spec_zero())
}

/// Squares are not negative, and sums, products, means and roots of numbers that are not
/// negative are not; adding such a number makes nothing smaller, and neither does a root of
/// the larger of two numbers.
#[verifier::opaque]
pub open spec fn order_kept<S: Scalar>() -> bool {
    &&& not_negative(S::spec_zero())
    &&& not_negative(S::spec_decimal(5, -1))
    &&& forall|a: S| not_negative(#[trigger] a.spec_times(a))
    &&& forall|a: S, b: S| not_negative(a) && not_negative(b) ==> not_negative(#[trigger] a.spec_plus(b))
    &&& forall|a: S, b: S| not_negative(a) && not_negative(b) ==> not_negative(#[trigger] a.spec_times(b))
    &&& forall|a: S, n: nat|
        not_negative(a) ==> not_negative(#[trigger] a.spec_over(S::spec_from_count(n)))
    &&& forall|a: S| not_negative(a) ==> not_negative(#[trigger] a.spec_sqrt())
    &&& forall|a: S, e: S| not_negative(a) ==> !(#[trigger] a.spec_plus(e)).spec_less(e)
    &&& forall|a: S, b: S|
        !a.spec_less(b) ==> !(#[trigger] a.spec_sqrt()).spec_less(#[trigger] b.spec_sqrt())
}

proof fn squares_accumulate<S: Scalar>(acc: S, x: Seq<S>, k: nat)
    requires
        order_kept::<S>(),
        not_negative(acc),
    ensures
        not_negative(mul_acc(acc, x, x, k)),
    decreases k,
{
    if k > 0 {
        squares_accumulate(acc, x, (k - 1) as nat);
        reveal(order_kept);
    }
}

/// An inner product of a batch element with itself is not negative.
pub proof fn batch_square_is_not_negative<S: Scalar>(a: Arr3<S>, b: int, n: nat)
    requires
        order_kept::<S>(),
    ensures
        not_negative(batch_dot(a, a, b, n)),
    decreases n,
{
    if n > 0 {
        batch_square_is_not_negative(a, b, (n - 1) as nat);
        squares_accumulate(batch_dot(a, a, b, (n - 1) as nat), a.data[n - 1][b], a.d);
    } else {
        reveal(order_kept);
    }
}

proof fn slab_is_not_negative<S: Scalar>(acc: S, slab: Seq<Seq<S>>, j: nat)
    requires
        order_kept::<S>(),
        not_negative(acc),
    ensures
        not_negative(slab_squares(acc, slab, j)),
    decreases j,
{
    if j > 0 {
        slab_is_not_negative(acc, slab, (j - 1) as nat);
        squares_accumulate(slab_squares(acc, slab, (j - 1) as nat), slab[j - 1], slab[j - 1].len());
    }
}

proof fn sum_is_not_negative<S: Scalar>(r: Arr3<S>, i: nat)
    requires
        order_kept::<S>(),
    ensures
        not_negative(sum_squares(r, i)),
    decreases i,
{
    if i > 0 {
        sum_is_not_negative(r, (i - 1) as nat);
        slab_is_not_negative(sum_squares(r, (i - 1) as nat), r.data[i - 1], r.b);
    } else {
        reveal(order_kept);
    }
}

/// The sheaf energy is not negative.
pub proof fn energy_is_not_negative<S: Scalar>(r: Arr3<S>)
    requires
        order_kept::<S>(),
    ensures
        not_negative(energy_of(r)),
{
    sum_is_not_negative(r, r.n);
    reveal(order_kept);
}

/// The energy of residuals that are all zero is zero.
pub proof fn energy_of_agreement<S: Scalar>(r: Arr3<S>)
    requires
        exact::<S>(),
        r.wf(),
        forall|e: int, b: int, i: int| 0 <= e < r.n && 0 <= b < r.b && 0 <= i < r.d ==> #[trigger] r.at(e, b, i)
            == S::spec_zero(),
    ensures
        energy_of(r) == S::spec_zero(),
{
    zero_squares(r, r.n);
    times_zero(S::spec_decimal(5, -1));
}

proof fn zero_squares<S: Scalar>(r: Arr3<S>, i: nat)
    requires
        exact::<S>(),
        r.wf(),
        i <= r.n,
        forall|e: int, b: int, i: int| 0 <= e < r.n && 0 <= b < r.b && 0 <= i < r.d ==> #[trigger] r.at(e, b, i)
            == S::spec_zero(),
    ensures
        sum_squares(r, i) == S::spec_zero(),
    decreases i,
{
    if i > 0 {
        zero_squares(r, (i - 1) as nat);
        zero_slab(r, i - 1, r.b);
    }
}

proof fn zero_slab<S: Scalar>(r: Arr3<S>, e: int, j: nat)
    requires
        exact::<S>(),
        r.wf(),
        0 <= e < r.n,
        j <= r.b,
        forall|e: int, b: int, i: int| 0 <= e < r.n && 0 <= b < r.b && 0 <= i < r.d ==> #[trigger] r.at(e, b, i)
            == S::spec_zero(),
    ensures
        slab_squares(S::spec_zero(), r.data[e], j) == S::spec_zero(),
    decreases j,
{
    if j > 0 {
        zero_slab(r, e, (j - 1) as nat);
        let row = r.data[e][j - 1];
        assert forall|i: int| 0 <= i < row.len() implies row[i] == S::spec_zero() by {
            assert(r.at(e, j - 1, i) == S::spec_zero());
        }
        zero_row(row, row.len());
    }
}

proof fn zero_row<S: Scalar>(row: Seq<S>, k: nat)
    requires
        exact::<S>(),
        k <= row.len(),
        forall|i: int| 0 <= i < row.len() ==> row[i] == S::spec_zero(),
    ensures
        mul_acc(S::spec_zero(), row, row, k) == S::spec_zero(),
    decreases k,
{
    if k > 0 {
        zero_row(row, (k - 1) as nat);
        times_zero(S::spec_zero());
        plus_zero(S::spec_zero());
    }
}

/// The consistency of a batch element is at least the root of its epsilon.
pub proof fn consistency_has_its_floor<S: Scalar>(r: Arr3<S>, b: int)
    requires
        order_kept::<S>(),
    ensures
        !rms_of(r, b).spec_less(consistency_epsilon::<S>().spec_sqrt()),
{
    batch_square_is_not_negative(r, b, r.n);
    reveal(order_kept);
}

proof fn node_squares_are_not_negative<S: Scalar>(r: Arr3<S>, edges: Seq<(int, int)>, node: int, e: nat)
    requires
        order_kept::<S>(),
    ensures
        not_negative(node_squares(r, edges, node, e)),
    decreases e,
{
    if e > 0 {
        node_squares_are_not_negative(r, edges, node, (e - 1) as nat);
        let row = r.data[e - 1][0];
        let before = node_squares(r, edges, node, (e - 1) as nat);
        squares_accumulate(before, row, r.d);
        squares_accumulate(mul_acc(before, row, row, r.d), row, r.d);
    } else {
        reveal(order_kept);
    }
}

/// The measure of an agent is not negative.
pub proof fn agent_measure_is_not_negative<S: Scalar>(r: Arr3<S>, edges: Seq<(int, int)>, node: int)
    requires
        order_kept::<S>(),
    ensures
        not_negative(node_rms(r, edges, node)),
{
    node_squares_are_not_negative(r, edges, node, edges.len());
    reveal(order_kept);
}

/// No factor of a mask is negative.
pub open spec fn mask_is_not_negative<S: Scalar>(mask: Option<Seq<S>>) -> bool {
    match mask {
        Some(m) => forall|e: int| 0 <= e < m.len() ==> not_negative(#[trigger] m[e]),
        None => true,
    }
}

proof fn total_is_not_negative<S: Scalar>(f: spec_fn(int) -> S, n: nat)
    requires
        order_kept::<S>(),
        forall|i: int| 0 <= i < n ==> not_negative(#[trigger] f(i)),
    ensures
        not_negative(total(f, n)),
    decreases n,
{
    if n > 0 {
        total_is_not_negative(f, (n - 1) as nat);
        assert(not_negative(f(n - 1)));
    }
    reveal(order_kept);
}

/// The quadratic form of the Laplacian is not negative, without a mask or with one that is not.
pub proof fn laplacian_form_is_not_negative<S: Scalar>(model: FixedModel<S>, z: Arr3<S>, b: int)
    requires
        exact::<S>(),
        order_kept::<S>(),
        model.wf(),
        mask_is_not_negative(model.mask),
        z.wf(),
        model.admits(z.n, z.b, z.d),
        0 <= b < z.b,
    ensures
        not_negative(batch_dot(z, model.laplacian(z), b, z.n)),
{
    laplacian_is_adjoint(model, z, z, b);
    let p = model.unmasked().residuals(z);
    let q = model.residuals(z);
    let n = model.edges.len();
    batch_dot_total(p, q, b, n);
    let rows = |e: int| total(|i: int| p.at(e, b, i).spec_times(q.at(e, b, i)), p.d);
    assert forall|e: int| 0 <= e < n implies not_negative(#[trigger] rows(e)) by {
        let f = |i: int| p.at(e, b, i).spec_times(q.at(e, b, i));
        assert forall|i: int| 0 <= i < p.d implies not_negative(#[trigger] f(i)) by {
            let x = p.at(e, b, i);
            assert(q.at(e, b, i) == masked(model.mask, e, x));
            reveal(order_kept);
            match model.mask {
                Some(m) => {
                    times_shift(x, x, m[e]);
                    assert(not_negative(m[e]));
                    assert(not_negative(x.spec_times(x)));
                    assert(not_negative(x.spec_times(x).spec_times(m[e])));
                },
                None => {},
            }
        }
        total_is_not_negative(f, p.d);
    }
    total_is_not_negative(rows, n);
}

/// The quadratic form of the Laplacian with modulated maps is not negative.
pub proof fn lora_laplacian_form_is_not_negative<S: Scalar>(model: LoraModel<S>, z: Arr3<S>, b: int)
    requires
        exact::<S>(),
        order_kept::<S>(),
        model.wf(),
        model.base.mask is None,
        z.wf(),
        model.admits(z.n, z.b, z.d),
        0 <= b < z.b,
    ensures
        not_negative(batch_dot(z, model.laplacian(z), b, z.n)),
{
    lora_laplacian_form_is_squares(model, z, b);
    batch_square_is_not_negative(model.residuals(z), b, model.base.edges.len());
}

/// The larger of a number and zero is not negative, exponentials are not, and neither is the
/// logarithm of one plus a number that is not.
pub open spec fn softplus_kept<S: Scalar>() -> bool {
    &&& forall|a: S| not_negative(#[trigger] a.spec_max(S::spec_zero()))
    &&& forall|a: S| not_negative(#[trigger] a.spec_exp())
    &&& forall|a: S| not_negative(a) ==> not_negative(#[trigger] a.spec_ln_1p())
}

/// Softplus is not negative.
pub proof fn softplus_is_not_negative<S: Scalar>(x: S)
    requires
        order_kept::<S>(),
        softplus_kept::<S>(),
    ensures
        not_negative(softplus_of(x)),
{
    reveal(order_kept);
}

/// The encoder sets every curvature to at least its floor, and no l1 weight and no upper bound
/// below zero.
pub proof fn objective_has_its_floor<S: Scalar>(
    encoder: &MlpEncoderV2<S>,
    patches: Arr3<S>,
    i: int,
    j: int,
    k: int,
)
    requires
        order_kept::<S>(),
        softplus_kept::<S>(),
        encoder.wf(),
        0 <= i < patches.n,
        0 <= j < patches.b,
        0 <= k < encoder.config.d_v,
    ensures
        encoder.objective_of(patches) matches ObjectiveModel::L1Box { q_diag, l1, upper, .. } && {
            &&& !q_diag.at(i, j, k).spec_less(encoder.config.q_epsilon)
            &&& not_negative(l1.at(i, j, k))
            &&& not_negative(upper.at(i, j, k))
        },
{
    let feats = encoder.trunk_of(patches);
    let p = &encoder.params;
    softplus_is_not_negative(dense_rows_of(p.q_diag_dense, feats).at(i, j, k));
    softplus_is_not_negative(dense_rows_of(p.l1_weight_dense, feats).at(i, j, k));
    softplus_is_not_negative(dense_rows_of(p.upper_bound_dense, feats).at(i, j, k));
    reveal(order_kept);
}

} // verus!
