//! Laws of the solvers and of the batch axis.
use super::ring::{
    batch_dot_total, cancel, exact, minus_plus, minus_plus_flip, minus_zero, plus_flip, plus_shift,
    plus_zero, times_flip, times_one, times_spread, times_spread_minus, times_zero, total,
    total_zero,
};
use crate::algebra::{advance3, batch_dots, diff3, retreat3, scaled3, zeros3};
use crate::geometry::{consistency_epsilon, consistency_of, scattered, FixedModel, Operators};
use crate::reduce::batch_dot;
use crate::scalar::Scalar;
use crate::solvers::{
    cg_epsilon, cg_iterate, consensus_of, prox_at, ratios, simple_of, spec_sign, spec_soft_threshold,
    system_of, ObjectiveModel, UnrolledCgParams,
};
use crate::tensor::{arr3_ext, Arr3};
use vstd::prelude::*;

verus! {

pub(crate) proof fn batch_rows<S>(z: Arr3<S>, b: int)
    requires
        z.wf(),
        0 <= b < z.b,
    ensures
        z.batch(b).has_shape(z.n, 1, z.d),
        forall|i: int| 0 <= i < z.n ==> #[trigger] z.batch(b).data[i][0] == z.data[i][b],
{
    assert forall|i: int| 0 <= i < z.n implies #[trigger] z.batch(b).data[i][0] == z.data[i][b] by {
        assert(z.data[i][b].len() == z.d);
        assert(z.batch(b).data[i][0] =~= z.data[i][b]);
    }
}

pub(crate) proof fn scattered_apart<S: Scalar>(
    edges: Seq<(int, int)>,
    at_u: Arr3<S>,
    at_v: Arr3<S>,
    one_u: Arr3<S>,
    one_v: Arr3<S>,
    node: int,
    b: int,
    k: int,
    e: nat,
)
    requires
        e <= edges.len(),
        forall|i: int| 0 <= i < edges.len() ==> #[trigger] one_u.at(i, 0, k) == at_u.at(i, b, k),
        forall|i: int| 0 <= i < edges.len() ==> #[trigger] one_v.at(i, 0, k) == at_v.at(i, b, k),
    ensures
        scattered(edges, one_u, one_v, node, 0, k, e) == scattered(edges, at_u, at_v, node, b, k, e),
    decreases e,
{
    if e > 0 {
        scattered_apart(edges, at_u, at_v, one_u, one_v, node, b, k, (e - 1) as nat);
        assert(one_u.at(e - 1, 0, k) == at_u.at(e - 1, b, k));
        assert(one_v.at(e - 1, 0, k) == at_v.at(e - 1, b, k));
    }
}

proof fn batch_dot_apart<S: Scalar>(a: Arr3<S>, one: Arr3<S>, b: int, n: nat)
    requires
        a.d == one.d,
        forall|i: int| 0 <= i < n ==> #[trigger] one.data[i][0] == a.data[i][b],
    ensures
        batch_dot(one, one, 0, n) == batch_dot(a, a, b, n),
    decreases n,
{
    if n > 0 {
        batch_dot_apart(a, one, b, (n - 1) as nat);
        assert(one.data[n - 1][0] == a.data[n - 1][b]);
    }
}

/// Batch elements do not mix, whatever the arithmetic: residuals, Laplacian and consistency of
/// one batch element are those of a run on that element alone.
pub proof fn batch_elements_are_apart<S: Scalar>(model: FixedModel<S>, z: Arr3<S>, b: int)
    requires
        model.wf(),
        z.wf(),
        model.admits(z.n, z.b, z.d),
        0 <= b < z.b,
    ensures
        model.residuals(z.batch(b)) == model.residuals(z).batch(b),
        model.laplacian(z.batch(b)) == model.laplacian(z).batch(b),
        consistency_of(model.residuals(z.batch(b)))[0] == consistency_of(model.residuals(z))[b],
{
    let one = z.batch(b);
    let r = model.residuals(z);
    let r1 = model.residuals(one);
    batch_rows(z, b);
    assert forall|e: int, j: int, i: int|
        0 <= e < r1.n && 0 <= j < r1.b && 0 <= i < r1.d implies #[trigger] r1.at(e, j, i) == r.batch(b).at(
        e,
        j,
        i,
    ) by {
        let (u, v) = model.edges[e];
        assert(one.data[u][0] == z.data[u][b]);
        assert(one.data[v][0] == z.data[v][b]);
    }
    arr3_ext(r1, r.batch(b));
    batch_rows(r, b);
    batch_dot_apart(r, r1, b, r.n);
    let l = model.laplacian(z);
    let l1 = model.laplacian(one);
    assert forall|i: int, j: int, k: int|
        0 <= i < l1.n && 0 <= j < l1.b && 0 <= k < l1.d implies #[trigger] l1.at(i, j, k) == l.batch(b).at(
        i,
        j,
        k,
    ) by {
        let pu = model.pulled_u(r);
        let pv = model.pulled_v(r);
        let pu1 = model.pulled_u(r1);
        let pv1 = model.pulled_v(r1);
        assert forall|e: int| 0 <= e < model.edges.len() implies #[trigger] pu1.at(e, 0, k) == pu.at(e, b, k) by {
            assert(r1.data[e][0] == r.data[e][b]);
        }
        assert forall|e: int| 0 <= e < model.edges.len() implies #[trigger] pv1.at(e, 0, k) == pv.at(e, b, k) by {
            assert(r1.data[e][0] == r.data[e][b]);
        }
        scattered_apart(model.edges, pu, pv, pu1, pv1, i, b, k, model.edges.len());
    }
    arr3_ext(l1, l.batch(b));
}

/// At perfect consensus the consistency measure is the root of its epsilon, where zero
/// divided by the number of residuals is zero.
pub proof fn consistency_of_nothing<S: Scalar>(e: nat, b: nat, d: nat, j: int)
    requires
        exact::<S>(),
        0 <= j < b,
        S::spec_zero().spec_over(S::spec_from_count(e * d)) == S::spec_zero(),
    ensures
        consistency_of(zeros3::<S>(e, b, d))[j] == consistency_epsilon::<S>().spec_sqrt(),
{
    let r = zeros3::<S>(e, b, d);
    batch_dot_of_zeros::<S>(e, b, d, j);
    plus_zero(consistency_epsilon::<S>());
}

proof fn batch_dot_of_zeros<S: Scalar>(n: nat, b: nat, d: nat, j: int)
    requires
        exact::<S>(),
        0 <= j < b,
    ensures
        batch_dot(zeros3::<S>(n, b, d), zeros3::<S>(n, b, d), j, n) == S::spec_zero(),
{
    let zero = S::spec_zero();
    let r = zeros3::<S>(n, b, d);
    batch_dot_total(r, r, j, n);
    let rows = |i: int| total(|k: int| r.at(i, j, k).spec_times(r.at(i, j, k)), r.d);
    assert forall|i: int| 0 <= i < n implies #[trigger] rows(i) == zero by {
        let row = |k: int| r.at(i, j, k).spec_times(r.at(i, j, k));
        assert forall|k: int| 0 <= k < d implies #[trigger] row(k) == zero by {
            times_zero(zero);
        }
        total_zero(row, d);
    }
    total_zero(rows, n);
}

/// The operators send zeros to zeros.
pub open spec fn fixes_zero<S: Scalar>(ops: Operators<S>, n: nat, b: nat, d: nat) -> bool {
    ops.laplacian_of(zeros3(n, b, d)) == zeros3::<S>(n, b, d)
}

proof fn system_of_zeros<S: Scalar>(ops: Operators<S>, params: UnrolledCgParams<S>, rho: S, n: nat, b: nat, d: nat)
    requires
        exact::<S>(),
        fixes_zero(ops, n, b, d),
    ensures
        system_of(ops, params, rho, zeros3(n, b, d)) == zeros3::<S>(n, b, d),
{
    let z = zeros3::<S>(n, b, d);
    let s = system_of(ops, params, rho, z);
    times_zero(params.tikhonov_eps);
    times_zero(params.gamma);
    times_zero(rho);
    plus_zero(S::spec_zero());
    assert forall|i: int, j: int, k: int|
        0 <= i < s.n && 0 <= j < s.b && 0 <= k < s.d implies #[trigger] s.at(i, j, k) == z.at(i, j, k) by {}
    arr3_ext(s, z);
}

proof fn cg_of_zeros<S: Scalar>(
    ops: Operators<S>,
    params: UnrolledCgParams<S>,
    rho: S,
    n: nat,
    b: nat,
    d: nat,
    t: nat,
)
    requires
        exact::<S>(),
        fixes_zero(ops, n, b, d),
        S::spec_zero().spec_over(cg_epsilon()) == S::spec_zero(),
    ensures
        ({
            let z = zeros3::<S>(n, b, d);
            let s = cg_iterate(ops, params, rho, z, z, t);
            &&& s.x == z
            &&& s.r == z
            &&& s.p == z
            &&& s.rtr == Seq::new(b, |j: int| S::spec_zero())
        }),
    decreases t,
{
    let zero = S::spec_zero();
    let z = zeros3::<S>(n, b, d);
    let none = Seq::new(b, |j: int| zero);
    system_of_zeros(ops, params, rho, n, b, d);
    plus_zero(zero);
    minus_zero(zero);
    times_zero(zero);
    plus_zero(cg_epsilon::<S>());
    assert forall|j: int| 0 <= j < b implies #[trigger] batch_dots(z, z)[j] == zero by {
        batch_dot_of_zeros::<S>(n, b, d, j);
    }
    assert(batch_dots(z, z) =~= none);
    assert(ratios(none, none) =~= none);
    arr3_ext(diff3(z, z), z);
    arr3_ext(advance3(z, none, z), z);
    arr3_ext(retreat3(z, none, z), z);
    if t > 0 {
        cg_of_zeros(ops, params, rho, n, b, d, (t - 1) as nat);
    }
}

/// A consensus update of zeros stays at zero: the guard keeps its quotients at zero over the
/// guard.
pub proof fn consensus_of_zeros<S: Scalar>(
    ops: Operators<S>,
    params: UnrolledCgParams<S>,
    rho: S,
    n: nat,
    b: nat,
    d: nat,
)
    requires
        exact::<S>(),
        fixes_zero(ops, n, b, d),
        S::spec_zero().spec_over(cg_epsilon()) == S::spec_zero(),
    ensures
        consensus_of(zeros3(n, b, d), zeros3(n, b, d), ops, params, rho) == zeros3::<S>(n, b, d),
{
    let zero = S::spec_zero();
    let z = zeros3::<S>(n, b, d);
    cg_of_zeros(ops, params, rho, n, b, d, params.num_iters as nat);
    minus_zero(zero);
    times_zero(rho);
    arr3_ext(diff3(z, z), z);
    arr3_ext(scaled3(rho, z), z);
}

/// Magnitude, maximum with zero and differences follow the order, and zero is the only number
/// that lies on neither side of zero.
pub open spec fn ordered<S: Scalar>() -> bool {
    let zero = S::spec_zero();
    &&& forall|a: S| zero.spec_less(a) ==> #[trigger] a.spec_abs() == a
    &&& forall|a: S| a.spec_less(zero) ==> #[trigger] a.spec_abs() == a.spec_negate()
    &&& forall|a: S| #[trigger] a.spec_less(zero) ==> zero.spec_less(a.spec_negate())
    &&& forall|a: S| !zero.spec_less(a) && !(#[trigger] a.spec_less(zero)) ==> a == zero
    &&& forall|a: S, b: S| zero.spec_less(#[trigger] a.spec_minus(b)) == b.spec_less(a)
    &&& forall|a: S| #[trigger]
        a.spec_max(zero) == if zero.spec_less(a) {
            a
        } else {
            zero
        }
}

/// Quotients by `a` are exact.
pub open spec fn divides<S: Scalar>(a: S) -> bool {
    &&& forall|x: S| (#[trigger] x.spec_over(a)).spec_times(a) == x
    &&& forall|x: S| (#[trigger] x.spec_times(a)).spec_over(a) == x
}

/// A number lies between the bounds of an objective.
pub open spec fn unclipped<S: Scalar>(objective: ObjectiveModel<S>, x: S, i: int, j: int, k: int) -> bool {
    x.spec_max(objective.lower()).spec_min(objective.upper_at(i, j, k)) == x
}

/// What `prox_at` thresholds: `(rho v - q) / (D + rho)`.
pub open spec fn unthresholded<S: Scalar>(objective: ObjectiveModel<S>, rho: S, v: S, i: int, j: int, k: int) -> S {
    rho.spec_times(v).spec_minus(objective.linear().at(i, j, k)).spec_over(
        objective.curvature().at(i, j, k).spec_plus(rho),
    )
}

/// The threshold of `prox_at`: `l1 / (D + rho)`.
pub open spec fn threshold_at<S: Scalar>(objective: ObjectiveModel<S>, rho: S, i: int, j: int, k: int) -> S {
    objective.l1_at(i, j, k).spec_over(objective.curvature().at(i, j, k).spec_plus(rho))
}

/// Taking away what is missing to zero adds.
proof fn minus_missing<S: Scalar>(a: S, b: S)
    requires
        exact::<S>(),
    ensures
        a.spec_minus(S::spec_zero().spec_minus(b)) == a.spec_plus(b),
{
    let zero = S::spec_zero();
    let m = zero.spec_minus(b);
    minus_plus(a, m);
    minus_plus(zero, b);
    plus_shift(a, b, m);
    plus_flip(b, m);
    plus_zero(a);
    cancel(a.spec_minus(m), a.spec_plus(b), m);
}

/// Minus one times a number is what it misses to zero.
proof fn minus_one_times<S: Scalar>(b: S)
    requires
        exact::<S>(),
    ensures
        S::spec_one().spec_negate().spec_times(b) == S::spec_zero().spec_minus(b),
{
    let (zero, one) = (S::spec_zero(), S::spec_one());
    negate_is_missing(one);
    times_spread_minus(b, zero, one);
    times_zero(b);
    times_one(b);
}

pub(crate) proof fn negate_is_missing<S: Scalar>(a: S)
    requires
        exact::<S>(),
    ensures
        a.spec_negate() == S::spec_zero().spec_minus(a),
{
    reveal(exact);
}

/// What the soft threshold yields: the number moved toward zero by the threshold, or zero.
proof fn soft_threshold_moves<S: Scalar>(t: S, th: S)
    requires
        exact::<S>(),
        ordered::<S>(),
    ensures
        ({
            let y = spec_soft_threshold(t, th);
            if th.spec_less(t.spec_abs()) {
                &&& S::spec_zero().spec_less(t) ==> y == t.spec_minus(th)
                &&& !S::spec_zero().spec_less(t) && t.spec_less(S::spec_zero()) ==> y == t.spec_plus(th)
                &&& !S::spec_zero().spec_less(t) && !t.spec_less(S::spec_zero()) ==> y == S::spec_zero()
            } else {
                y == S::spec_zero()
            }
        }),
{
    let zero = S::spec_zero();
    let gap = t.spec_abs().spec_minus(th);
    times_zero(spec_sign(t));
    times_zero(gap);
    times_one(gap);
    if zero.spec_less(gap) && !zero.spec_less(t) && t.spec_less(zero) {
        negate_is_missing(t);
        assert(gap == zero.spec_minus(t).spec_minus(th));
        minus_one_times(gap);
        // 0 - ((0 - t) - th) = t + th
        let m = zero.spec_minus(t);
        minus_plus(m, th);
        minus_plus(zero, t);
        minus_plus(zero, gap);
        plus_shift(t, th, gap);
        plus_flip(th, gap);
        plus_flip(t, m);
        cancel(zero.spec_minus(gap), t.spec_plus(th), gap);
    }
}

/// The pure quadratic proposal is stationary: `D x + q + rho (x - v) = 0`.
pub proof fn quadratic_is_stationary<S: Scalar>(
    q_diag: Arr3<S>,
    q: Arr3<S>,
    rho: S,
    v: S,
    i: int,
    j: int,
    k: int,
)
    requires
        exact::<S>(),
        ordered::<S>(),
        divides(q_diag.at(i, j, k).spec_plus(rho)),
        ({
            let objective = ObjectiveModel::Quadratic { q_diag, q };
            unclipped(objective, unthresholded(objective, rho, v, i, j, k), i, j, k)
        }),
    ensures
        ({
            let x = prox_at(v, rho, ObjectiveModel::Quadratic { q_diag, q }, i, j, k);
            q_diag.at(i, j, k).spec_times(x).spec_plus(q.at(i, j, k)).spec_plus(
                rho.spec_times(x.spec_minus(v)),
            ) == S::spec_zero()
        }),
{
    let zero = S::spec_zero();
    let d = q_diag.at(i, j, k);
    let a = d.spec_plus(rho);
    let num = rho.spec_times(v).spec_minus(q.at(i, j, k));
    let t = num.spec_over(a);
    let th = zero.spec_over(a);
    times_zero(a);
    assert(zero.spec_times(a).spec_over(a) == zero);
    soft_threshold_moves(t, th);
    minus_zero(t.spec_abs());
    minus_zero(t);
    plus_zero(t);
    assert(spec_soft_threshold(t, th) == t);
    minus_zero(num);
    stationary(d, q.at(i, j, k), zero, rho, v, t);
}

/// From `(d + rho) x = rho v - q - w` follows `d x + q + rho (x - v) = -w`; stated for the
/// sum with `w`.
proof fn stationary<S: Scalar>(d: S, q: S, w: S, rho: S, v: S, x: S)
    requires
        exact::<S>(),
        x.spec_times(d.spec_plus(rho)) == rho.spec_times(v).spec_minus(q).spec_minus(w),
    ensures
        d.spec_times(x).spec_plus(q).spec_plus(w).spec_plus(rho.spec_times(x.spec_minus(v)))
            == S::spec_zero(),
        w == S::spec_zero() ==> d.spec_times(x).spec_plus(q).spec_plus(rho.spec_times(x.spec_minus(v)))
            == S::spec_zero(),
{
    let zero = S::spec_zero();
    let rv = rho.spec_times(v);
    let dx = d.spec_times(x);
    let rx = rho.spec_times(x);
    // x (d + rho) = dx + rx
    times_spread(x, d, rho);
    times_flip(x, d);
    times_flip(x, rho);
    times_flip(x, d.spec_plus(rho));
    assert(x.spec_times(d.spec_plus(rho)) == dx.spec_plus(rx));
    // rho (x - v) = rx - rv
    times_spread_minus(rho, x, v);
    // dx + q + w + (rx - rv) = ((dx + rx) + q + w) - rv
    let left = dx.spec_plus(q).spec_plus(w);
    plus_flip(left, rx.spec_minus(rv));
    minus_plus_flip(rx, rv, left);
    plus_flip(rx, left);
    let sum = left.spec_plus(rx);
    // left + rx = (dx + rx) + (q + w)
    plus_shift(dx, q, w);
    let qw = q.spec_plus(w);
    plus_shift(dx, qw, rx);
    plus_flip(qw, rx);
    plus_shift(dx, rx, qw);
    assert(sum == dx.spec_plus(rx).spec_plus(qw));
    // (rv - q - w) + (q + w) = rv
    let rest = rv.spec_minus(q).spec_minus(w);
    plus_flip(q, w);
    plus_shift(rest, w, q);
    minus_plus(rv.spec_minus(q), w);
    minus_plus(rv, q);
    assert(rest.spec_plus(w.spec_plus(q)) == rv);
    assert(sum == rv);
    minus_zero(rv);
    minus_zero(rv.spec_minus(q));
    plus_zero(dx.spec_plus(q));
}

/// Beyond the threshold and inside the bounds, the proposal of an objective with l1 weight is
/// stationary on its side of zero: `D x + q + sign(t) l1 + rho (x - v) = 0`.
pub proof fn thresholded_is_stationary<S: Scalar>(
    objective: ObjectiveModel<S>,
    rho: S,
    v: S,
    i: int,
    j: int,
    k: int,
)
    requires
        exact::<S>(),
        ordered::<S>(),
        !(objective is Simple),
        divides(objective.curvature().at(i, j, k).spec_plus(rho)),
        ({
            let t = unthresholded(objective, rho, v, i, j, k);
            let th = threshold_at(objective, rho, i, j, k);
            &&& th.spec_less(t.spec_abs())
            &&& S::spec_zero().spec_less(t) || t.spec_less(S::spec_zero())
            &&& unclipped(objective, spec_soft_threshold(t, th), i, j, k)
        }),
    ensures
        ({
            let x = prox_at(v, rho, objective, i, j, k);
            let side = spec_sign(unthresholded(objective, rho, v, i, j, k));
            objective.curvature().at(i, j, k).spec_times(x).spec_plus(objective.linear().at(i, j, k)).spec_plus(
                side.spec_times(objective.l1_at(i, j, k)),
            ).spec_plus(rho.spec_times(x.spec_minus(v))) == S::spec_zero()
        }),
{
    let zero = S::spec_zero();
    let d = objective.curvature().at(i, j, k);
    let q = objective.linear().at(i, j, k);
    let l1 = objective.l1_at(i, j, k);
    let a = d.spec_plus(rho);
    let num = rho.spec_times(v).spec_minus(q);
    let t = num.spec_over(a);
    let th = l1.spec_over(a);
    soft_threshold_moves(t, th);
    if zero.spec_less(t) {
        times_one(l1);
        times_spread_minus(a, t, th);
        stationary(d, q, l1, rho, v, t.spec_minus(th));
    } else {
        minus_one_times(l1);
        minus_missing(num, l1);
        times_spread(a, t, th);
        stationary(d, q, zero.spec_minus(l1), rho, v, t.spec_plus(th));
    }
}

/// Multiplying by a positive number keeps the order, and scales magnitudes.
pub open spec fn order_scales<S: Scalar>() -> bool {
    &&& forall|a: S, b: S, c: S|
        S::spec_zero().spec_less(c) && !b.spec_less(a) ==> !(#[trigger] b.spec_times(c)).spec_less(
            #[trigger] a.spec_times(c),
        )
    &&& forall|a: S, c: S|
        S::spec_zero().spec_less(c) ==> #[trigger] a.spec_abs().spec_times(c) == a.spec_times(c).spec_abs()
}

/// Within the threshold the proposal is zero, and what pulls it off zero is no stronger than the
/// l1 weight: `|rho v - q| <= l1`.
pub proof fn dead_zone_is_zero<S: Scalar>(objective: ObjectiveModel<S>, rho: S, v: S, i: int, j: int, k: int)
    requires
        exact::<S>(),
        ordered::<S>(),
        order_scales::<S>(),
        !(objective is Simple),
        divides(objective.curvature().at(i, j, k).spec_plus(rho)),
        S::spec_zero().spec_less(objective.curvature().at(i, j, k).spec_plus(rho)),
        unclipped(objective, S::spec_zero(), i, j, k),
        !threshold_at(objective, rho, i, j, k).spec_less(
            unthresholded(objective, rho, v, i, j, k).spec_abs(),
        ),
    ensures
        prox_at(v, rho, objective, i, j, k) == S::spec_zero(),
        !objective.l1_at(i, j, k).spec_less(
            rho.spec_times(v).spec_minus(objective.linear().at(i, j, k)).spec_abs(),
        ),
{
    let a = objective.curvature().at(i, j, k).spec_plus(rho);
    let t = unthresholded(objective, rho, v, i, j, k);
    let th = threshold_at(objective, rho, i, j, k);
    soft_threshold_moves(t, th);
    assert(!th.spec_times(a).spec_less(t.spec_abs().spec_times(a)));
}

/// The tethered average solves `(beta + rho) x = beta h + rho (z - y)`, where quotients by
/// `beta + rho` are exact.
pub proof fn simple_solves_its_equation<S: Scalar>(
    z: Arr3<S>,
    y: Arr3<S>,
    rho: S,
    h: Arr3<S>,
    beta: S,
    i: int,
    j: int,
    k: int,
)
    requires
        exact::<S>(),
        0 <= i < z.n,
        0 <= j < z.b,
        0 <= k < z.d,
        divides(beta.spec_plus(rho)),
    ensures
        beta.spec_plus(rho).spec_times(simple_of(z, y, rho, h, beta).at(i, j, k)) == beta.spec_times(
            h.at(i, j, k),
        ).spec_plus(rho.spec_times(z.at(i, j, k).spec_minus(y.at(i, j, k)))),
{
    times_flip(beta.spec_plus(rho), simple_of(z, y, rho, h, beta).at(i, j, k));
}

/// Without a tether the proposal is the consensus target: at `beta = 0`, `x = z - y`.
pub proof fn untethered_proposal_is_target<S: Scalar>(
    z: Arr3<S>,
    y: Arr3<S>,
    rho: S,
    h: Arr3<S>,
    i: int,
    j: int,
    k: int,
)
    requires
        exact::<S>(),
        0 <= i < z.n,
        0 <= j < z.b,
        0 <= k < z.d,
        divides(rho),
    ensures
        simple_of(z, y, rho, h, S::spec_zero()).at(i, j, k) == z.at(i, j, k).spec_minus(y.at(i, j, k)),
{
    let t = z.at(i, j, k).spec_minus(y.at(i, j, k));
    times_zero(h.at(i, j, k));
    plus_zero(rho.spec_times(t));
    plus_zero(rho);
    times_flip(rho, t);
    assert(t.spec_times(rho).spec_over(rho) == t);
}

/// The larger of two numbers is not below the second, the smaller is not above it, and each
/// is one of the two.
pub open spec fn bounds_hold<S: Scalar>() -> bool {
    &&& forall|a: S, b: S| !(#[trigger] a.spec_max(b)).spec_less(b)
    &&& forall|a: S, b: S| !b.spec_less(#[trigger] a.spec_min(b))
    &&& forall|a: S, b: S| #[trigger] a.spec_min(b) == a || a.spec_min(b) == b
}

/// The clip comes last: every proposal is within its bounds, whatever the threshold did. The
/// upper bound always holds, the lower one where it is not above the upper.
pub proof fn proposals_are_in_bounds<S: Scalar>(objective: ObjectiveModel<S>, rho: S, v: S, i: int, j: int, k: int)
    requires
        bounds_hold::<S>(),
    ensures
        ({
            let x = prox_at(v, rho, objective, i, j, k);
            let upper = objective.upper_at(i, j, k);
            &&& !upper.spec_less(x)
            &&& !upper.spec_less(objective.lower()) ==> !x.spec_less(objective.lower())
        }),
{
    let a = objective.curvature().at(i, j, k).spec_plus(rho);
    let t = rho.spec_times(v).spec_minus(objective.linear().at(i, j, k)).spec_over(a);
    let y = spec_soft_threshold(t, objective.l1_at(i, j, k).spec_over(a));
    let lifted = y.spec_max(objective.lower());
    let x = lifted.spec_min(objective.upper_at(i, j, k));
    assert(x == lifted || x == objective.upper_at(i, j, k));
}

} // verus!
