//! Laws of the sheaf geometries under exact arithmetic: the Laplacian is the adjoint of the
//! coboundary after the coboundary, so it is symmetric and its quadratic form is the sum of
//! the squared residuals; a mask enters once; a modulation that is zero changes nothing.
use super::ring::{
    batch_dot_total, dot_sums, exact, minus_plus_flip, minus_zero, mul_acc_from_zero, mul_acc_total,
    plus_flip, plus_shift, plus_zero, times_flip, times_shift, times_spread, times_spread_minus, times_zero, total,
    total_minus, total_plus, total_same, total_single, total_swap, total_times, total_zero,
};
use crate::algebra::zeros3;
use crate::geometry::{adjoined, applied, energy_of, masked, scatter_of, scattered, FixedModel};
use crate::graph::pairs_below;
use crate::reduce::{batch_dot, slab_squares, sum_squares};
use crate::scalar::Scalar;
use crate::tensor::{arr3_ext, Arr2, Arr3};
use vstd::prelude::*;

verus! {

/// Member `i` of a map applied to a row, as a sum.
pub open spec fn lin<S: Scalar>(f: Arr2<S>, x: Seq<S>, i: int) -> S {
    total(|k: int| f.at(i, k).spec_times(x[k]), f.cols)
}

/// Member `k` of a transposed map applied to a row, as a sum.
pub open spec fn lin_t<S: Scalar>(f: Arr2<S>, r: Seq<S>, k: int) -> S {
    total(|i: int| f.at(i, k).spec_times(r[i]), f.rows)
}

pub(crate) proof fn applied_is_lin<S: Scalar>(f: Arr2<S>, x: Seq<S>, i: int)
    requires
        exact::<S>(),
        f.wf(),
        0 <= i < f.rows,
    ensures
        applied(f, x, i) == lin(f, x, i),
{
    let row = f.data[i];
    dot_sums(row, x);
    mul_acc_from_zero(row, x, f.cols);
    total_same(|k: int| row[k].spec_times(x[k]), |k: int| f.at(i, k).spec_times(x[k]), f.cols);
}

pub(crate) proof fn adjoined_is_lin_t<S: Scalar>(f: Arr2<S>, r: Seq<S>, k: int)
    requires
        exact::<S>(),
        f.wf(),
        0 <= k < f.cols,
    ensures
        adjoined(f, r, k) == lin_t(f, r, k),
{
    let col = f.column(k);
    mul_acc_from_zero(col, r, f.rows);
    total_same(|i: int| col[i].spec_times(r[i]), |i: int| f.at(i, k).spec_times(r[i]), f.rows);
}

/// `<a, F^T r> = <F a, r>` for one map.
pub(crate) proof fn one_map_adjoint<S: Scalar>(f: Arr2<S>, a: Seq<S>, r: Seq<S>)
    requires
        exact::<S>(),
    ensures
        total(|k: int| a[k].spec_times(lin_t(f, r, k)), f.cols) == total(
            |i: int| lin(f, a, i).spec_times(r[i]),
            f.rows,
        ),
{
    let g = |k: int, i: int| a[k].spec_times(f.at(i, k).spec_times(r[i]));
    let by_k = |k: int| total(|i: int| g(k, i), f.rows);
    let by_i = |i: int| total(|k: int| g(k, i), f.cols);
    total_swap(g, f.cols, f.rows);
    let left = |k: int| a[k].spec_times(lin_t(f, r, k));
    assert forall|k: int| 0 <= k < f.cols implies #[trigger] left(k) == by_k(k) by {
        let inner = |i: int| f.at(i, k).spec_times(r[i]);
        total_times(inner, a[k], f.rows);
        total_same(|i: int| a[k].spec_times(inner(i)), |i: int| g(k, i), f.rows);
    }
    total_same(left, by_k, f.cols);
    let right = |i: int| lin(f, a, i).spec_times(r[i]);
    assert forall|i: int| 0 <= i < f.rows implies #[trigger] right(i) == by_i(i) by {
        let inner = |k: int| f.at(i, k).spec_times(a[k]);
        total_times(inner, r[i], f.cols);
        times_flip(r[i], lin(f, a, i));
        assert forall|k: int| 0 <= k < f.cols implies #[trigger] r[i].spec_times(inner(k)) == g(k, i) by {
            let x = f.at(i, k);
            times_shift(a[k], x, r[i]);
            times_flip(a[k], x);
            times_flip(x.spec_times(a[k]), r[i]);
        }
        total_same(|k: int| r[i].spec_times(inner(k)), |k: int| g(k, i), f.cols);
    }
    total_same(right, by_i, f.rows);
}

/// The inner product of a node state with what the first `e` edges scatter.
pub(crate) open spec fn against<S: Scalar>(
    a: Arr3<S>,
    edges: Seq<(int, int)>,
    at_u: Arr3<S>,
    at_v: Arr3<S>,
    n: nat,
    b: int,
    e: nat,
) -> S {
    total(
        |i: int|
            total(
                |k: int| a.at(i, b, k).spec_times(scattered(edges, at_u, at_v, i, b, k, e)),
                a.d,
            ),
        n,
    )
}

/// What an edge contributes at one endpoint.
spec fn edge_part<S: Scalar>(a: Arr3<S>, at: Arr3<S>, node: int, b: int, e: int) -> S {
    total(|k: int| a.at(node, b, k).spec_times(at.at(e, b, k)), a.d)
}

proof fn against_step<S: Scalar>(
    a: Arr3<S>,
    edges: Seq<(int, int)>,
    at_u: Arr3<S>,
    at_v: Arr3<S>,
    n: nat,
    b: int,
    e: nat,
)
    requires
        exact::<S>(),
        e < edges.len(),
        pairs_below(edges, n),
    ensures
        against(a, edges, at_u, at_v, n, b, e + 1) == against(a, edges, at_u, at_v, n, b, e).spec_plus(
            edge_part(a, at_u, edges[e as int].0, b, e as int),
        ).spec_minus(edge_part(a, at_v, edges[e as int].1, b, e as int)),
{
    let (u, v) = edges[e as int];
    let zero = S::spec_zero();
    let ei = e as int;
    let old_row = |i: int|
        total(|k: int| a.at(i, b, k).spec_times(scattered(edges, at_u, at_v, i, b, k, e)), a.d);
    let new_row = |i: int|
        total(|k: int| a.at(i, b, k).spec_times(scattered(edges, at_u, at_v, i, b, k, e + 1)), a.d);
    let u_row = |i: int|
        if i == u {
            edge_part(a, at_u, u, b, ei)
        } else {
            zero
        };
    let v_row = |i: int|
        if i == v {
            edge_part(a, at_v, v, b, ei)
        } else {
            zero
        };
    let with_u = |i: int| old_row(i).spec_plus(u_row(i));
    let with_v = |i: int| with_u(i).spec_minus(v_row(i));
    assert forall|i: int| 0 <= i < n implies #[trigger] new_row(i) == with_v(i) by {
        let olds = |k: int| a.at(i, b, k).spec_times(scattered(edges, at_u, at_v, i, b, k, e));
        let us = |k: int| a.at(i, b, k).spec_times(at_u.at(ei, b, k));
        let vs = |k: int| a.at(i, b, k).spec_times(at_v.at(ei, b, k));
        let news = |k: int| a.at(i, b, k).spec_times(scattered(edges, at_u, at_v, i, b, k, e + 1));
        let mids = |k: int|
            if i == u {
                olds(k).spec_plus(us(k))
            } else {
                olds(k)
            };
        assert forall|k: int| 0 <= k < a.d implies #[trigger] news(k) == if i == v {
            mids(k).spec_minus(vs(k))
        } else {
            mids(k)
        } by {
            let x = a.at(i, b, k);
            let s = scattered(edges, at_u, at_v, i, b, k, e);
            let su = s.spec_plus(at_u.at(ei, b, k));
            times_spread(x, s, at_u.at(ei, b, k));
            times_spread_minus(x, s, at_v.at(ei, b, k));
            times_spread_minus(x, su, at_v.at(ei, b, k));
        }
        if i == u {
            total_plus(olds, us, a.d);
            total_same(mids, |k: int| olds(k).spec_plus(us(k)), a.d);
            assert(total(mids, a.d) == with_u(i));
        } else {
            total_same(mids, olds, a.d);
            plus_zero(old_row(i));
            assert(total(mids, a.d) == with_u(i));
        }
        if i == v {
            total_minus(mids, vs, a.d);
            total_same(news, |k: int| mids(k).spec_minus(vs(k)), a.d);
        } else {
            total_same(news, mids, a.d);
            minus_zero(with_u(i));
        }
    }
    total_same(new_row, with_v, n);
    total_minus(with_u, v_row, n);
    total_same(with_v, |i: int| with_u(i).spec_minus(v_row(i)), n);
    total_plus(old_row, u_row, n);
    total_same(with_u, |i: int| old_row(i).spec_plus(u_row(i)), n);
    total_single(u_row, u, n);
    total_single(v_row, v, n);
}

/// Scattering is adjoint to gathering: the inner product of a node state with what the edges
/// scatter is the sum over edges of what they contribute at their endpoints.
proof fn against_all<S: Scalar>(
    a: Arr3<S>,
    edges: Seq<(int, int)>,
    at_u: Arr3<S>,
    at_v: Arr3<S>,
    n: nat,
    b: int,
    e: nat,
)
    requires
        exact::<S>(),
        e <= edges.len(),
        pairs_below(edges, n),
    ensures
        against(a, edges, at_u, at_v, n, b, e) == total(
            |i: int|
                edge_part(a, at_u, edges[i].0, b, i).spec_minus(edge_part(a, at_v, edges[i].1, b, i)),
            e,
        ),
    decreases e,
{
    let parts = |i: int|
        edge_part(a, at_u, edges[i].0, b, i).spec_minus(edge_part(a, at_v, edges[i].1, b, i));
    if e == 0 {
        let rows = |i: int|
            total(|k: int| a.at(i, b, k).spec_times(scattered(edges, at_u, at_v, i, b, k, 0)), a.d);
        assert forall|i: int| 0 <= i < n implies #[trigger] rows(i) == S::spec_zero() by {
            let row = |k: int| a.at(i, b, k).spec_times(scattered(edges, at_u, at_v, i, b, k, 0));
            assert forall|k: int| 0 <= k < a.d implies #[trigger] row(k) == S::spec_zero() by {
                times_zero(a.at(i, b, k));
            }
            total_zero(row, a.d);
        }
        total_zero(rows, n);
    } else {
        let m = (e - 1) as nat;
        against_all(a, edges, at_u, at_v, n, b, m);
        against_step(a, edges, at_u, at_v, n, b, m);
        let before = total(parts, m);
        let pu = edge_part(a, at_u, edges[e - 1].0, b, e - 1);
        let pv = edge_part(a, at_v, edges[e - 1].1, b, e - 1);
        // (before + pu) - pv = before + (pu - pv)
        plus_flip(before, pu);
        minus_plus_flip(pu, pv, before);
        plus_flip(pu.spec_minus(pv), before);
    }
}

/// The coboundary with one pair of maps for each edge, in one batch element, against an edge
/// state.
pub(crate) open spec fn coupled<S: Scalar>(
    fu: spec_fn(int) -> Arr2<S>,
    fv: spec_fn(int) -> Arr2<S>,
    edges: Seq<(int, int)>,
    a: Arr3<S>,
    r: Arr3<S>,
    b: int,
    e: int,
    i: int,
) -> S {
    lin(fu(e), a.data[edges[e].0][b], i).spec_minus(lin(fv(e), a.data[edges[e].1][b], i)).spec_times(
        r.at(e, b, i),
    )
}

/// The adjoint law, for maps that may differ by batch element: where the contributions are
/// the transposed maps applied to an edge state, the inner product of a node state with
/// their scatter is the inner product of its coboundary with the edge state.
pub(crate) proof fn adjoint_law<S: Scalar>(
    fu: spec_fn(int) -> Arr2<S>,
    fv: spec_fn(int) -> Arr2<S>,
    edges: Seq<(int, int)>,
    at_u: Arr3<S>,
    at_v: Arr3<S>,
    a: Arr3<S>,
    r: Arr3<S>,
    n: nat,
    b: int,
    d_e: nat,
)
    requires
        exact::<S>(),
        pairs_below(edges, n),
        forall|e: int| 0 <= e < edges.len() ==> (#[trigger] fu(e)).has_shape(d_e, a.d),
        forall|e: int| 0 <= e < edges.len() ==> (#[trigger] fv(e)).has_shape(d_e, a.d),
        forall|e: int, k: int|
            0 <= e < edges.len() && 0 <= k < a.d ==> #[trigger] at_u.at(e, b, k) == lin_t(
                fu(e),
                r.data[e][b],
                k,
            ),
        forall|e: int, k: int|
            0 <= e < edges.len() && 0 <= k < a.d ==> #[trigger] at_v.at(e, b, k) == lin_t(
                fv(e),
                r.data[e][b],
                k,
            ),
    ensures
        against(a, edges, at_u, at_v, n, b, edges.len()) == total(
            |e: int| total(|i: int| coupled(fu, fv, edges, a, r, b, e, i), d_e),
            edges.len(),
        ),
{
    against_all(a, edges, at_u, at_v, n, b, edges.len());
    let parts = |e: int|
        edge_part(a, at_u, edges[e].0, b, e).spec_minus(edge_part(a, at_v, edges[e].1, b, e));
    let sums = |e: int| total(|i: int| coupled(fu, fv, edges, a, r, b, e, i), d_e);
    assert forall|e: int| 0 <= e < edges.len() implies #[trigger] parts(e) == sums(e) by {
        let (u, v) = edges[e];
        let au = a.data[u][b];
        let av = a.data[v][b];
        let row = r.data[e][b];
        one_map_adjoint(fu(e), au, row);
        one_map_adjoint(fv(e), av, row);
        total_same(
            |k: int| a.at(u, b, k).spec_times(at_u.at(e, b, k)),
            |k: int| au[k].spec_times(lin_t(fu(e), row, k)),
            a.d,
        );
        total_same(
            |k: int| a.at(v, b, k).spec_times(at_v.at(e, b, k)),
            |k: int| av[k].spec_times(lin_t(fv(e), row, k)),
            a.d,
        );
        let lu = |i: int| lin(fu(e), au, i).spec_times(row[i]);
        let lv = |i: int| lin(fv(e), av, i).spec_times(row[i]);
        total_minus(lu, lv, d_e);
        let both = |i: int| lu(i).spec_minus(lv(i));
        let want = |i: int| coupled(fu, fv, edges, a, r, b, e, i);
        assert forall|i: int| 0 <= i < d_e implies #[trigger] both(i) == want(i) by {
            times_spread_minus(row[i], lin(fu(e), au, i), lin(fv(e), av, i));
        }
        total_same(both, want, d_e);
    }
    total_same(parts, sums, edges.len());
}

/// The inner product with a scatter is the inner product with the scattered array.
pub(crate) proof fn against_is_batch_dot<S: Scalar>(
    a: Arr3<S>,
    edges: Seq<(int, int)>,
    at_u: Arr3<S>,
    at_v: Arr3<S>,
    n: nat,
    b: int,
)
    requires
        exact::<S>(),
        at_u.d == a.d,
        0 <= b < at_u.b,
    ensures
        batch_dot(a, scatter_of(edges, at_u, at_v, n), b, n) == against(
            a,
            edges,
            at_u,
            at_v,
            n,
            b,
            edges.len(),
        ),
{
    let s = scatter_of(edges, at_u, at_v, n);
    batch_dot_total(a, s, b, n);
    let left = |i: int| total(|k: int| a.at(i, b, k).spec_times(s.at(i, b, k)), a.d);
    let right = |i: int|
        total(
            |k: int| a.at(i, b, k).spec_times(scattered(edges, at_u, at_v, i, b, k, edges.len())),
            a.d,
        );
    assert forall|i: int| 0 <= i < n implies #[trigger] left(i) == right(i) by {
        total_same(
            |k: int| a.at(i, b, k).spec_times(s.at(i, b, k)),
            |k: int| a.at(i, b, k).spec_times(scattered(edges, at_u, at_v, i, b, k, edges.len())),
            a.d,
        );
    }
    total_same(left, right, n);
}

impl<S: Scalar> FixedModel<S> {
    /// The same maps without a mask.
    pub open spec fn unmasked(self) -> FixedModel<S> {
        FixedModel { mask: None, ..self }
    }
}

/// The Laplacian is the coboundary's adjoint after the coboundary: for all node states `a`
/// and `z`, `<a, L z> = <F a, r>`, where `F` is the coboundary without the mask and `r` the
/// residual of `z`, to which the mask was applied once.
pub proof fn laplacian_is_adjoint<S: Scalar>(model: FixedModel<S>, a: Arr3<S>, z: Arr3<S>, b: int)
    requires
        exact::<S>(),
        model.wf(),
        z.wf(),
        a.same_shape(z),
        model.admits(z.n, z.b, z.d),
        0 <= b < z.b,
    ensures
        batch_dot(a, model.laplacian(z), b, z.n) == batch_dot(
            model.unmasked().residuals(a),
            model.residuals(z),
            b,
            model.edges.len(),
        ),
{
    let r = model.residuals(z);
    let fu = |e: int| model.at_u[e];
    let fv = |e: int| model.at_v[e];
    let at_u = model.pulled_u(r);
    let at_v = model.pulled_v(r);
    assert forall|e: int, k: int| 0 <= e < model.edges.len() && 0 <= k < a.d implies #[trigger] at_u.at(e, b, k)
        == lin_t(fu(e), r.data[e][b], k) by {
        adjoined_is_lin_t(model.at_u[e], r.data[e][b], k);
    }
    assert forall|e: int, k: int| 0 <= e < model.edges.len() && 0 <= k < a.d implies #[trigger] at_v.at(e, b, k)
        == lin_t(fv(e), r.data[e][b], k) by {
        adjoined_is_lin_t(model.at_v[e], r.data[e][b], k);
    }
    adjoint_law(fu, fv, model.edges, at_u, at_v, a, r, z.n, b, model.d_e);
    against_is_batch_dot(a, model.edges, at_u, at_v, z.n, b);
    let fa = model.unmasked().residuals(a);
    batch_dot_total(fa, r, b, model.edges.len());
    let left = |e: int| total(|i: int| coupled(fu, fv, model.edges, a, r, b, e, i), model.d_e);
    let right = |e: int| total(|i: int| fa.at(e, b, i).spec_times(r.at(e, b, i)), fa.d);
    assert forall|e: int| 0 <= e < model.edges.len() implies #[trigger] left(e) == right(e) by {
        let l = |i: int| coupled(fu, fv, model.edges, a, r, b, e, i);
        let q = |i: int| fa.at(e, b, i).spec_times(r.at(e, b, i));
        assert forall|i: int| 0 <= i < model.d_e implies #[trigger] l(i) == q(i) by {
            applied_is_lin(model.at_u[e], a.data[model.edges[e].0][b], i);
            applied_is_lin(model.at_v[e], a.data[model.edges[e].1][b], i);
        }
        total_same(l, q, model.d_e);
    }
    total_same(left, right, model.edges.len());
}

/// The inner product of one batch element does not depend on the order of its arguments.
pub proof fn batch_dot_flip<S: Scalar>(a: Arr3<S>, c: Arr3<S>, b: int, n: nat)
    requires
        exact::<S>(),
        a.d == c.d,
    ensures
        batch_dot(a, c, b, n) == batch_dot(c, a, b, n),
{
    batch_dot_total(a, c, b, n);
    batch_dot_total(c, a, b, n);
    let left = |i: int| total(|k: int| a.at(i, b, k).spec_times(c.at(i, b, k)), a.d);
    let right = |i: int| total(|k: int| c.at(i, b, k).spec_times(a.at(i, b, k)), c.d);
    assert forall|i: int| 0 <= i < n implies #[trigger] left(i) == right(i) by {
        let l = |k: int| a.at(i, b, k).spec_times(c.at(i, b, k));
        let q = |k: int| c.at(i, b, k).spec_times(a.at(i, b, k));
        assert forall|k: int| 0 <= k < a.d implies #[trigger] l(k) == q(k) by {
            times_flip(a.at(i, b, k), c.at(i, b, k));
        }
        total_same(l, q, a.d);
    }
    total_same(left, right, n);
}

/// Moving a factor that belongs to the edge from one side of an inner product to the other.
pub(crate) proof fn mask_moves<S: Scalar>(p: Arr3<S>, pm: Arr3<S>, q: Arr3<S>, qm: Arr3<S>, m: Option<Seq<S>>, b: int, n: nat)
    requires
        exact::<S>(),
        p.d == qm.d,
        q.d == p.d,
        pm.d == p.d,
        forall|e: int, i: int|
            0 <= e < n && 0 <= i < p.d ==> #[trigger] pm.at(e, b, i) == masked(m, e, p.at(e, b, i)),
        forall|e: int, i: int|
            0 <= e < n && 0 <= i < p.d ==> #[trigger] qm.at(e, b, i) == masked(m, e, q.at(e, b, i)),
    ensures
        batch_dot(p, qm, b, n) == batch_dot(q, pm, b, n),
{
    batch_dot_total(p, qm, b, n);
    batch_dot_total(q, pm, b, n);
    let left = |e: int| total(|i: int| p.at(e, b, i).spec_times(qm.at(e, b, i)), p.d);
    let right = |e: int| total(|i: int| q.at(e, b, i).spec_times(pm.at(e, b, i)), q.d);
    assert forall|e: int| 0 <= e < n implies #[trigger] left(e) == right(e) by {
        let l = |i: int| p.at(e, b, i).spec_times(qm.at(e, b, i));
        let s = |i: int| q.at(e, b, i).spec_times(pm.at(e, b, i));
        assert forall|i: int| 0 <= i < p.d implies #[trigger] l(i) == s(i) by {
            let x = p.at(e, b, i);
            let y = q.at(e, b, i);
            assert(qm.at(e, b, i) == masked(m, e, y));
            assert(pm.at(e, b, i) == masked(m, e, x));
            match m {
                Some(mask) => {
                    times_shift(x, y, mask[e]);
                    times_flip(x, y);
                    times_shift(y, x, mask[e]);
                },
                None => {
                    times_flip(x, y);
                },
            }
        }
        total_same(l, s, p.d);
    }
    total_same(left, right, n);
}

/// The Laplacian is symmetric: `<a, L z> = <L a, z>`, with or without a mask.
pub proof fn laplacian_is_symmetric<S: Scalar>(model: FixedModel<S>, a: Arr3<S>, z: Arr3<S>, b: int)
    requires
        exact::<S>(),
        model.wf(),
        z.wf(),
        a.same_shape(z),
        model.admits(z.n, z.b, z.d),
        0 <= b < z.b,
    ensures
        batch_dot(a, model.laplacian(z), b, z.n) == batch_dot(model.laplacian(a), z, b, z.n),
{
    laplacian_is_adjoint(model, a, z, b);
    laplacian_is_adjoint(model, z, a, b);
    mask_moves(
        model.unmasked().residuals(a),
        model.residuals(a),
        model.unmasked().residuals(z),
        model.residuals(z),
        model.mask,
        b,
        model.edges.len(),
    );
    batch_dot_flip(model.laplacian(a), z, b, z.n);
}

/// The quadratic form of the Laplacian is the sum of the squared residuals.
pub proof fn laplacian_form_is_squares<S: Scalar>(model: FixedModel<S>, z: Arr3<S>, b: int)
    requires
        exact::<S>(),
        model.wf(),
        model.mask is None,
        z.wf(),
        model.admits(z.n, z.b, z.d),
        0 <= b < z.b,
    ensures
        batch_dot(z, model.laplacian(z), b, z.n) == batch_dot(
            model.residuals(z),
            model.residuals(z),
            b,
            model.edges.len(),
        ),
{
    laplacian_is_adjoint(model, z, z, b);
    assert(model.unmasked() =~= model);
}

/// The mask multiplies the residual once: the Laplacian pulls the masked residual back
/// through the maps as they are.
pub proof fn mask_enters_once<S: Scalar>(model: FixedModel<S>, mask: Seq<S>, z: Arr3<S>, e: int, b: int, i: int)
    requires
        model.wf(),
        model.mask == Some(mask),
        0 <= e < model.edges.len(),
        0 <= b < z.b,
        0 <= i < model.d_e,
    ensures
        model.residuals(z).at(e, b, i) == model.unmasked().residuals(z).at(e, b, i).spec_times(mask[e]),
        model.laplacian(z) == scatter_of(
            model.edges,
            model.unmasked().pulled_u(model.residuals(z)),
            model.unmasked().pulled_v(model.residuals(z)),
            z.n,
        ),
        exact::<S>() && mask[e] == S::spec_zero() ==> model.residuals(z).at(e, b, i) == S::spec_zero(),
{
    let r = model.residuals(z);
    arr3_ext(model.pulled_u(r), model.unmasked().pulled_u(r));
    arr3_ext(model.pulled_v(r), model.unmasked().pulled_v(r));
    if exact::<S>() {
        times_zero(model.unmasked().residuals(z).at(e, b, i));
    }
}

/// A state of zeros has no residual and no Laplacian.
pub proof fn zero_state_is_flat<S: Scalar>(model: FixedModel<S>, n: nat, b: nat)
    requires
        exact::<S>(),
        model.wf(),
        model.admits(n, b, model.d_v),
    ensures
        model.residuals(zeros3(n, b, model.d_v)) == zeros3::<S>(model.edges.len(), b, model.d_e),
        model.laplacian(zeros3(n, b, model.d_v)) == zeros3::<S>(n, b, model.d_v),
{
    let zero = S::spec_zero();
    let z = zeros3::<S>(n, b, model.d_v);
    let r = model.residuals(z);
    let flat = zeros3::<S>(model.edges.len(), b, model.d_e);
    assert forall|e: int, j: int, i: int|
        0 <= e < r.n && 0 <= j < r.b && 0 <= i < r.d implies #[trigger] r.at(e, j, i) == flat.at(e, j, i) by {
        let (u, v) = model.edges[e];
        lin_of_zero(model.at_u[e], z.data[u][j], i);
        lin_of_zero(model.at_v[e], z.data[v][j], i);
        applied_is_lin(model.at_u[e], z.data[u][j], i);
        applied_is_lin(model.at_v[e], z.data[v][j], i);
        minus_zero(zero);
        match model.mask {
            Some(m) => {
                times_zero(m[e]);
            },
            None => {},
        }
    }
    arr3_ext(r, flat);
    let at_u = model.pulled_u(r);
    let at_v = model.pulled_v(r);
    let l = model.laplacian(z);
    assert forall|i: int, j: int, k: int|
        0 <= i < l.n && 0 <= j < l.b && 0 <= k < l.d implies #[trigger] l.at(i, j, k) == z.at(i, j, k) by {
        assert forall|e: int| 0 <= e < model.edges.len() implies #[trigger] at_u.at(e, j, k) == zero && at_v.at(
            e,
            j,
            k,
        ) == zero by {
            adjoined_is_lin_t(model.at_u[e], r.data[e][j], k);
            adjoined_is_lin_t(model.at_v[e], r.data[e][j], k);
            lin_t_of_zero(model.at_u[e], r.data[e][j], k);
            lin_t_of_zero(model.at_v[e], r.data[e][j], k);
        }
        scattered_zero(model.edges, at_u, at_v, i, j, k, model.edges.len());
    }
    arr3_ext(l, z);
}

pub(crate) proof fn lin_of_zero<S: Scalar>(f: Arr2<S>, x: Seq<S>, i: int)
    requires
        exact::<S>(),
        forall|k: int| 0 <= k < f.cols ==> #[trigger] x[k] == S::spec_zero(),
    ensures
        lin(f, x, i) == S::spec_zero(),
{
    let g = |k: int| f.at(i, k).spec_times(x[k]);
    assert forall|k: int| 0 <= k < f.cols implies #[trigger] g(k) == S::spec_zero() by {
        times_zero(f.at(i, k));
    }
    total_zero(g, f.cols);
}

pub(crate) proof fn lin_t_of_zero<S: Scalar>(f: Arr2<S>, x: Seq<S>, k: int)
    requires
        exact::<S>(),
        forall|i: int| 0 <= i < f.rows ==> #[trigger] x[i] == S::spec_zero(),
    ensures
        lin_t(f, x, k) == S::spec_zero(),
{
    let g = |i: int| f.at(i, k).spec_times(x[i]);
    assert forall|i: int| 0 <= i < f.rows implies #[trigger] g(i) == S::spec_zero() by {
        times_zero(f.at(i, k));
    }
    total_zero(g, f.rows);
}

proof fn scattered_zero<S: Scalar>(
    edges: Seq<(int, int)>,
    at_u: Arr3<S>,
    at_v: Arr3<S>,
    node: int,
    b: int,
    k: int,
    e: nat,
)
    requires
        exact::<S>(),
        e <= edges.len(),
        forall|i: int|
            0 <= i < edges.len() ==> #[trigger] at_u.at(i, b, k) == S::spec_zero() && at_v.at(i, b, k)
                == S::spec_zero(),
    ensures
        scattered(edges, at_u, at_v, node, b, k, e) == S::spec_zero(),
    decreases e,
{
    if e > 0 {
        scattered_zero(edges, at_u, at_v, node, b, k, (e - 1) as nat);
        assert(at_u.at(e - 1, b, k) == S::spec_zero());
        plus_zero(S::spec_zero());
        minus_zero(S::spec_zero());
    }
}

/// The squares of all members, batch element by batch element.
pub(crate) proof fn squares_are_batch_dots<S: Scalar>(r: Arr3<S>)
    requires
        exact::<S>(),
        r.wf(),
    ensures
        sum_squares(r, r.n) == total(|b: int| batch_dot(r, r, b, r.n), r.b),
{
    let f = |e: int, b: int| total(|i: int| r.at(e, b, i).spec_times(r.at(e, b, i)), r.d);
    squares_are_sums(r, r.n);
    let nested = |e: int|
        total(|b: int| total(|i: int| r.at(e, b, i).spec_times(r.at(e, b, i)), r.d), r.b);
    let by_edge = |e: int| total(|b: int| f(e, b), r.b);
    assert forall|e: int| 0 <= e < r.n implies #[trigger] nested(e) == by_edge(e) by {
        total_same(
            |b: int| total(|i: int| r.at(e, b, i).spec_times(r.at(e, b, i)), r.d),
            |b: int| f(e, b),
            r.b,
        );
    }
    total_same(nested, by_edge, r.n);
    total_swap(f, r.n, r.b);
    let by_batch = |b: int| total(|e: int| f(e, b), r.n);
    let dots = |b: int| batch_dot(r, r, b, r.n);
    assert forall|b: int| 0 <= b < r.b implies #[trigger] by_batch(b) == dots(b) by {
        batch_dot_total(r, r, b, r.n);
        total_same(
            |e: int| f(e, b),
            |e: int| total(|k: int| r.at(e, b, k).spec_times(r.at(e, b, k)), r.d),
            r.n,
        );
    }
    total_same(by_batch, dots, r.b);
}

proof fn slab_is_sum<S: Scalar>(r: Arr3<S>, acc: S, e: int, j: nat)
    requires
        exact::<S>(),
        r.wf(),
        0 <= e < r.n,
        j <= r.b,
    ensures
        slab_squares(acc, r.data[e], j) == acc.spec_plus(
            total(|b: int| total(|i: int| r.at(e, b, i).spec_times(r.at(e, b, i)), r.d), j),
        ),
    decreases j,
{
    let f = |b: int| total(|i: int| r.at(e, b, i).spec_times(r.at(e, b, i)), r.d);
    if j == 0 {
        plus_zero(acc);
    } else {
        let m = (j - 1) as nat;
        slab_is_sum(r, acc, e, m);
        let row = r.data[e][j - 1];
        assert(row.len() == r.d);
        mul_acc_total(slab_squares(acc, r.data[e], m), row, row, r.d);
        total_same(
            |i: int| row[i].spec_times(row[i]),
            |i: int| r.at(e, j - 1, i).spec_times(r.at(e, j - 1, i)),
            r.d,
        );
        plus_shift(acc, total(f, m), f(j - 1));
    }
}

proof fn squares_are_sums<S: Scalar>(r: Arr3<S>, n: nat)
    requires
        exact::<S>(),
        r.wf(),
        n <= r.n,
    ensures
        sum_squares(r, n) == total(
            |e: int| total(|b: int| total(|i: int| r.at(e, b, i).spec_times(r.at(e, b, i)), r.d), r.b),
            n,
        ),
    decreases n,
{
    if n > 0 {
        squares_are_sums(r, (n - 1) as nat);
        slab_is_sum(r, sum_squares(r, (n - 1) as nat), n - 1, r.b);
    }
}

/// The sheaf energy is one half of the quadratic form of the Laplacian, summed over the batch:
/// `E(z) = 1/2 <z, L z>`.
pub proof fn energy_is_half_the_form<S: Scalar>(model: FixedModel<S>, z: Arr3<S>)
    requires
        exact::<S>(),
        model.wf(),
        model.mask is None,
        z.wf(),
        model.admits(z.n, z.b, z.d),
    ensures
        energy_of(model.residuals(z)) == S::spec_decimal(5, -1).spec_times(
            total(|b: int| batch_dot(z, model.laplacian(z), b, z.n), z.b),
        ),
{
    let r = model.residuals(z);
    squares_are_batch_dots(r);
    let squares = |b: int| batch_dot(r, r, b, r.n);
    let forms = |b: int| batch_dot(z, model.laplacian(z), b, z.n);
    assert forall|b: int| 0 <= b < z.b implies #[trigger] squares(b) == forms(b) by {
        laplacian_form_is_squares(model, z, b);
    }
    total_same(squares, forms, z.b);
}

} // verus!
