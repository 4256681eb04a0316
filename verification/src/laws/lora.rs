//! Laws of the modulated geometry under exact arithmetic: it acts as the materialized maps
//! `R + scale gate A B^T` would, and a modulation that is zero leaves the base geometry.
use super::geometry::{
    adjoined_is_lin_t, adjoint_law, against_is_batch_dot, applied_is_lin, batch_dot_flip, coupled,
    lin, lin_of_zero, lin_t, mask_moves, one_map_adjoint, squares_are_batch_dots,
};
use super::ring::{
    batch_dot_total, exact, plus_zero, times_flip, times_shift, times_spread, times_zero, total,
    total_plus, total_same, total_times, total_zero,
};
use crate::geometry::{
    adjoined, applied, energy_of, gated, gated_pull, lora_adjoined, lora_applied, modulation, projected,
    LoraModel,
};
use crate::reduce::batch_dot;
use crate::scalar::Scalar;
use crate::tensor::{arr3_ext, Arr2, Arr3};
use vstd::prelude::*;

verus! {

/// The materialized map `R + m A B^T`.
pub open spec fn materialized<S: Scalar>(r: Arr2<S>, a: Arr2<S>, bf: Arr2<S>, m: S) -> Arr2<S> {
    Arr2::build(
        r.rows,
        r.cols,
        |i: int, k: int| r.at(i, k).spec_plus(m.spec_times(lin(bf, a.data[i], k))),
    )
}

/// Applying the factors is applying the materialized map.
pub proof fn factored_apply_is_dense<S: Scalar>(r: Arr2<S>, a: Arr2<S>, bf: Arr2<S>, m: S, z: Seq<S>, i: int)
    requires
        exact::<S>(),
        r.wf(),
        a.has_shape(r.rows, bf.cols),
        bf.has_shape(r.cols, bf.cols),
        0 <= i < r.rows,
    ensures
        lora_applied(r, a, projected(bf, z), m, z, i) == lin(materialized(r, a, bf, m), z, i),
{
    let bz = projected(bf, z);
    let row = a.data[i];
    applied_is_lin(r, z, i);
    applied_is_lin(a, bz, i);
    // A (B^T z) at i is the sum over k of (A B^T)[i, k] z[k].
    let by_j = |j: int| row[j].spec_times(lin_t(bf, z, j));
    assert forall|j: int| 0 <= j < bf.cols implies bz[j] == lin_t(bf, z, j) by {
        adjoined_is_lin_t(bf, z, j);
    }
    total_same(|j: int| a.at(i, j).spec_times(bz[j]), by_j, bf.cols);
    one_map_adjoint(bf, row, z);
    let low = |k: int| lin(bf, row, k).spec_times(z[k]);
    assert(applied(a, bz, i) == total(low, bf.rows));
    total_times(low, m, r.cols);
    let base = |k: int| r.at(i, k).spec_times(z[k]);
    let added = |k: int| m.spec_times(low(k));
    total_plus(base, added, r.cols);
    let full = materialized(r, a, bf, m);
    let want = |k: int| full.at(i, k).spec_times(z[k]);
    let both = |k: int| base(k).spec_plus(added(k));
    assert forall|k: int| 0 <= k < r.cols implies #[trigger] both(k) == want(k) by {
        let l = lin(bf, row, k);
        times_shift(m, l, z[k]);
        times_spread(z[k], r.at(i, k), m.spec_times(l));
    }
    total_same(both, want, r.cols);
    total_same(added, |k: int| m.spec_times(low(k)), r.cols);
}

/// The factor that a gate leaves of a number: the number times it, or the number itself.
proof fn gate_scales<S: Scalar>(scale: S, gate: Option<Arr2<S>>, e: int, b: int, y: S)
    requires
        exact::<S>(),
    ensures
        scale.spec_times(gated(gate, e, b, y)) == modulation(scale, gate, e, b).spec_times(y),
{
    match gate {
        Some(g) => {
            times_shift(scale, g.at(e, b), y);
        },
        None => {},
    }
}

/// Applying the adjoint of the factors is applying the transposed materialized map: it makes
/// no difference that gates stand on the side of `A^T r`.
pub proof fn factored_adjoint_is_dense<S: Scalar>(
    r: Arr2<S>,
    a: Arr2<S>,
    bf: Arr2<S>,
    scale: S,
    gate: Option<Arr2<S>>,
    e: int,
    b: int,
    x: Seq<S>,
    k: int,
)
    requires
        exact::<S>(),
        r.wf(),
        a.has_shape(r.rows, bf.cols),
        bf.has_shape(r.cols, bf.cols),
        0 <= k < r.cols,
    ensures
        lora_adjoined(r, bf, gated_pull(a, gate, e, b, x), scale, x, k) == lin_t(
            materialized(r, a, bf, modulation(scale, gate, e, b)),
            x,
            k,
        ),
{
    let s = gated_pull(a, gate, e, b, x);
    let m = modulation(scale, gate, e, b);
    let row = bf.data[k];
    adjoined_is_lin_t(r, x, k);
    applied_is_lin(bf, s, k);
    // scale * sum_j B[k, j] gate (A^T x)[j] = m * sum_j B[k, j] (A^T x)[j]
    let plain = |j: int| row[j].spec_times(lin_t(a, x, j));
    let scaled = |j: int| m.spec_times(plain(j));
    let stored = |j: int| bf.at(k, j).spec_times(s[j]);
    let outside = |j: int| scale.spec_times(stored(j));
    total_times(stored, scale, bf.cols);
    assert forall|j: int| 0 <= j < bf.cols implies #[trigger] outside(j) == scaled(j) by {
        adjoined_is_lin_t(a, x, j);
        let y = lin_t(a, x, j);
        let gy = gated(gate, e, b, y);
        assert(s[j] == gy);
        times_shift(scale, row[j], gy);
        times_flip(scale, row[j]);
        times_shift(row[j], scale, gy);
        gate_scales(scale, gate, e, b, y);
        times_shift(row[j], m, y);
        times_flip(row[j], m);
        times_shift(m, row[j], y);
    }
    total_same(outside, scaled, bf.cols);
    total_times(plain, m, bf.cols);
    one_map_adjoint(a, row, x);
    let low = |i: int| lin(a, row, i).spec_times(x[i]);
    assert(scale.spec_times(applied(bf, s, k)) == m.spec_times(total(low, a.rows)));
    total_times(low, m, r.rows);
    let base = |i: int| r.at(i, k).spec_times(x[i]);
    let added = |i: int| m.spec_times(low(i));
    total_plus(base, added, r.rows);
    let full = materialized(r, a, bf, m);
    let want = |i: int| full.at(i, k).spec_times(x[i]);
    let both = |i: int| base(i).spec_plus(added(i));
    assert forall|i: int| 0 <= i < r.rows implies #[trigger] both(i) == want(i) by {
        let ra = a.data[i];
        // (A B^T)[i, k] summed in either order of factors.
        let f = |j: int| a.at(i, j).spec_times(row[j]);
        let g = |j: int| bf.at(k, j).spec_times(ra[j]);
        assert forall|j: int| 0 <= j < bf.cols implies #[trigger] f(j) == g(j) by {
            times_flip(a.at(i, j), row[j]);
        }
        total_same(f, g, bf.cols);
        let l = lin(bf, ra, k);
        assert(lin(a, row, i) == l);
        times_shift(m, l, x[i]);
        times_spread(x[i], r.at(i, k), m.spec_times(l));
    }
    total_same(both, want, r.rows);
}

impl<S: Scalar> LoraModel<S> {
    /// The same model without a mask.
    pub open spec fn unmasked(self) -> LoraModel<S> {
        LoraModel { base: self.base.unmasked(), ..self }
    }

    /// The materialized map at the u-endpoint of an edge.
    pub open spec fn dense_u(self, e: int, b: int) -> Arr2<S> {
        materialized(
            self.base.at_u[e],
            self.a_u[e][b],
            self.b_u[e][b],
            modulation(self.scale(), self.gate_u, e, b),
        )
    }

    /// The materialized map at the v-endpoint of an edge.
    pub open spec fn dense_v(self, e: int, b: int) -> Arr2<S> {
        materialized(
            self.base.at_v[e],
            self.a_v[e][b],
            self.b_v[e][b],
            modulation(self.scale(), self.gate_v, e, b),
        )
    }
}

/// Without a mask, the residual of an edge is the difference of the materialized maps applied
/// at its endpoints.
pub proof fn lora_residual_is_dense<S: Scalar>(model: LoraModel<S>, z: Arr3<S>, e: int, b: int, i: int)
    requires
        exact::<S>(),
        model.wf(),
        model.base.mask is None,
        model.admits(z.n, z.b, z.d),
        0 <= e < model.base.edges.len(),
        0 <= b < z.b,
        0 <= i < model.base.d_e,
    ensures
        model.residuals(z).at(e, b, i) == lin(model.dense_u(e, b), z.data[model.base.edges[e].0][b], i).spec_minus(
            lin(model.dense_v(e, b), z.data[model.base.edges[e].1][b], i),
        ),
{
    let zu = z.data[model.base.edges[e].0][b];
    let zv = z.data[model.base.edges[e].1][b];
    assert(model.a_u[e][b].has_shape(model.base.d_e, model.rank));
    assert(model.b_u[e][b].has_shape(model.base.d_v, model.rank));
    assert(model.a_v[e][b].has_shape(model.base.d_e, model.rank));
    assert(model.b_v[e][b].has_shape(model.base.d_v, model.rank));
    factored_apply_is_dense(
        model.base.at_u[e],
        model.a_u[e][b],
        model.b_u[e][b],
        modulation(model.scale(), model.gate_u, e, b),
        zu,
        i,
    );
    factored_apply_is_dense(
        model.base.at_v[e],
        model.a_v[e][b],
        model.b_v[e][b],
        modulation(model.scale(), model.gate_v, e, b),
        zv,
        i,
    );
}

/// The modulated Laplacian is the coboundary's adjoint after the coboundary:
/// `<a, L z> = <F a, r>`, where `F` is the coboundary without the mask and `r` the residual
/// of `z`.
pub proof fn lora_laplacian_is_adjoint<S: Scalar>(model: LoraModel<S>, a: Arr3<S>, z: Arr3<S>, b: int)
    requires
        exact::<S>(),
        model.wf(),
        z.wf(),
        a.same_shape(z),
        model.admits(z.n, z.b, z.d),
        0 <= b < z.b,
    ensures
        batch_dot(a, model.laplacian(z), b, z.n) == batch_dot(
            model.unmasked().residuals(a),
            model.residuals(z),
            b,
            model.base.edges.len(),
        ),
{
    let edges = model.base.edges;
    let d_e = model.base.d_e;
    let r = model.residuals(z);
    let fu = |e: int| model.dense_u(e, b);
    let fv = |e: int| model.dense_v(e, b);
    let at_u = model.pulled_u(r);
    let at_v = model.pulled_v(r);
    assert forall|e: int, k: int| 0 <= e < edges.len() && 0 <= k < a.d implies #[trigger] at_u.at(e, b, k)
        == lin_t(fu(e), r.data[e][b], k) by {
        assert(model.a_u[e][b].has_shape(d_e, model.rank));
        assert(model.b_u[e][b].has_shape(model.base.d_v, model.rank));
        factored_adjoint_is_dense(
            model.base.at_u[e],
            model.a_u[e][b],
            model.b_u[e][b],
            model.scale(),
            model.gate_u,
            e,
            b,
            r.data[e][b],
            k,
        );
    }
    assert forall|e: int, k: int| 0 <= e < edges.len() && 0 <= k < a.d implies #[trigger] at_v.at(e, b, k)
        == lin_t(fv(e), r.data[e][b], k) by {
        assert(model.a_v[e][b].has_shape(d_e, model.rank));
        assert(model.b_v[e][b].has_shape(model.base.d_v, model.rank));
        factored_adjoint_is_dense(
            model.base.at_v[e],
            model.a_v[e][b],
            model.b_v[e][b],
            model.scale(),
            model.gate_v,
            e,
            b,
            r.data[e][b],
            k,
        );
    }
    adjoint_law(fu, fv, edges, at_u, at_v, a, r, z.n, b, d_e);
    against_is_batch_dot(a, edges, at_u, at_v, z.n, b);
    let plain = model.unmasked();
    let fa = plain.residuals(a);
    batch_dot_total(fa, r, b, edges.len());
    let left = |e: int| total(|i: int| coupled(fu, fv, edges, a, r, b, e, i), d_e);
    let right = |e: int| total(|i: int| fa.at(e, b, i).spec_times(r.at(e, b, i)), fa.d);
    assert forall|e: int| 0 <= e < edges.len() implies #[trigger] left(e) == right(e) by {
        let l = |i: int| coupled(fu, fv, edges, a, r, b, e, i);
        let q = |i: int| fa.at(e, b, i).spec_times(r.at(e, b, i));
        assert forall|i: int| 0 <= i < d_e implies #[trigger] l(i) == q(i) by {
            lora_residual_is_dense(plain, a, e, b, i);
        }
        total_same(l, q, d_e);
    }
    total_same(left, right, edges.len());
}

/// The modulated Laplacian is symmetric: `<a, L z> = <L a, z>`.
pub proof fn lora_laplacian_is_symmetric<S: Scalar>(model: LoraModel<S>, a: Arr3<S>, z: Arr3<S>, b: int)
    requires
        exact::<S>(),
        model.wf(),
        z.wf(),
        a.same_shape(z),
        model.admits(z.n, z.b, z.d),
        0 <= b < z.b,
    ensures
        batch_dot(a, model.laplacian(z), b, z.n) == batch_dot(model.laplacian(a), z, b, z.n),
{
    lora_laplacian_is_adjoint(model, a, z, b);
    lora_laplacian_is_adjoint(model, z, a, b);
    mask_moves(
        model.unmasked().residuals(a),
        model.residuals(a),
        model.unmasked().residuals(z),
        model.residuals(z),
        model.base.mask,
        b,
        model.base.edges.len(),
    );
    batch_dot_flip(model.laplacian(a), z, b, z.n);
}

/// The quadratic form of the modulated Laplacian is the sum of the squared residuals.
pub proof fn lora_laplacian_form_is_squares<S: Scalar>(model: LoraModel<S>, z: Arr3<S>, b: int)
    requires
        exact::<S>(),
        model.wf(),
        model.base.mask is None,
        z.wf(),
        model.admits(z.n, z.b, z.d),
        0 <= b < z.b,
    ensures
        batch_dot(z, model.laplacian(z), b, z.n) == batch_dot(
            model.residuals(z),
            model.residuals(z),
            b,
            model.base.edges.len(),
        ),
{
    lora_laplacian_is_adjoint(model, z, z, b);
    assert(model.unmasked() =~= model);
}

/// Every member of a matrix is zero.
pub open spec fn all_zero<S: Scalar>(f: Arr2<S>) -> bool {
    forall|i: int, j: int| 0 <= i < f.rows && 0 <= j < f.cols ==> #[trigger] f.at(i, j) == S::spec_zero()
}

/// The modulation of one endpoint is zero: its B factor is, or its gate is.
pub open spec fn vanishes<S: Scalar>(bf: Arr2<S>, gate: Option<Arr2<S>>, e: int, b: int) -> bool {
    all_zero(bf) || (gate matches Some(g) && g.at(e, b) == S::spec_zero())
}

proof fn vanishing_apply<S: Scalar>(
    r: Arr2<S>,
    a: Arr2<S>,
    bf: Arr2<S>,
    scale: S,
    gate: Option<Arr2<S>>,
    e: int,
    b: int,
    z: Seq<S>,
    i: int,
)
    requires
        exact::<S>(),
        a.has_shape(r.rows, bf.cols),
        bf.wf(),
        0 <= i < r.rows,
        vanishes(bf, gate, e, b),
    ensures
        lora_applied(r, a, projected(bf, z), modulation(scale, gate, e, b), z, i) == applied(r, z, i),
{
    let m = modulation(scale, gate, e, b);
    let bz = projected(bf, z);
    if all_zero(bf) {
        applied_is_lin(a, bz, i);
        assert forall|j: int| 0 <= j < a.cols implies #[trigger] bz[j] == S::spec_zero() by {
            adjoined_is_lin_t(bf, z, j);
            let g = |k: int| bf.at(k, j).spec_times(z[k]);
            assert forall|k: int| 0 <= k < bf.rows implies #[trigger] g(k) == S::spec_zero() by {
                assert(bf.at(k, j) == S::spec_zero());
                times_zero(z[k]);
            }
            total_zero(g, bf.rows);
        }
        lin_of_zero(a, bz, i);
        times_zero(m);
    } else {
        times_zero(scale);
        times_zero(applied(a, bz, i));
    }
    plus_zero(applied(r, z, i));
}

proof fn vanishing_adjoint<S: Scalar>(
    r: Arr2<S>,
    a: Arr2<S>,
    bf: Arr2<S>,
    scale: S,
    gate: Option<Arr2<S>>,
    e: int,
    b: int,
    x: Seq<S>,
    k: int,
)
    requires
        exact::<S>(),
        a.has_shape(r.rows, bf.cols),
        bf.has_shape(r.cols, bf.cols),
        0 <= k < r.cols,
        vanishes(bf, gate, e, b),
    ensures
        lora_adjoined(r, bf, gated_pull(a, gate, e, b, x), scale, x, k) == adjoined(r, x, k),
{
    let s = gated_pull(a, gate, e, b, x);
    applied_is_lin(bf, s, k);
    if all_zero(bf) {
        let g = |j: int| bf.at(k, j).spec_times(s[j]);
        assert forall|j: int| 0 <= j < bf.cols implies #[trigger] g(j) == S::spec_zero() by {
            assert(bf.at(k, j) == S::spec_zero());
            times_zero(s[j]);
        }
        total_zero(g, bf.cols);
    } else {
        assert forall|j: int| 0 <= j < bf.cols implies #[trigger] s[j] == S::spec_zero() by {
            times_zero(adjoined(a, x, j));
        }
        lin_of_zero(bf, s, k);
    }
    times_zero(scale);
    plus_zero(adjoined(r, x, k));
}

/// Where every modulation is zero, by its B factor or by its gate, the modulated geometry is
/// the base geometry.
pub proof fn vanishing_modulation_is_fixed<S: Scalar>(model: LoraModel<S>, z: Arr3<S>)
    requires
        exact::<S>(),
        model.wf(),
        model.admits(z.n, z.b, z.d),
        forall|e: int, b: int|
            0 <= e < model.base.edges.len() && 0 <= b < model.batch ==> vanishes(
                #[trigger] model.b_u[e][b],
                model.gate_u,
                e,
                b,
            ),
        forall|e: int, b: int|
            0 <= e < model.base.edges.len() && 0 <= b < model.batch ==> vanishes(
                #[trigger] model.b_v[e][b],
                model.gate_v,
                e,
                b,
            ),
    ensures
        model.residuals(z) == model.base.residuals(z),
        model.laplacian(z) == model.base.laplacian(z),
{
    let edges = model.base.edges;
    let r = model.residuals(z);
    let base = model.base;
    assert forall|e: int, b: int, i: int|
        0 <= e < r.n && 0 <= b < r.b && 0 <= i < r.d implies #[trigger] r.at(e, b, i) == base.residuals(z).at(
        e,
        b,
        i,
    ) by {
        assert(model.a_u[e][b].has_shape(base.d_e, model.rank));
        assert(model.b_u[e][b].has_shape(base.d_v, model.rank));
        assert(model.a_v[e][b].has_shape(base.d_e, model.rank));
        assert(model.b_v[e][b].has_shape(base.d_v, model.rank));
        vanishing_apply(
            base.at_u[e],
            model.a_u[e][b],
            model.b_u[e][b],
            model.scale(),
            model.gate_u,
            e,
            b,
            z.data[edges[e].0][b],
            i,
        );
        vanishing_apply(
            base.at_v[e],
            model.a_v[e][b],
            model.b_v[e][b],
            model.scale(),
            model.gate_v,
            e,
            b,
            z.data[edges[e].1][b],
            i,
        );
    }
    arr3_ext(r, base.residuals(z));
    let pu = model.pulled_u(r);
    let pv = model.pulled_v(r);
    assert forall|e: int, b: int, k: int|
        0 <= e < pu.n && 0 <= b < pu.b && 0 <= k < pu.d implies #[trigger] pu.at(e, b, k) == base.pulled_u(r).at(
        e,
        b,
        k,
    ) by {
        assert(model.a_u[e][b].has_shape(base.d_e, model.rank));
        assert(model.b_u[e][b].has_shape(base.d_v, model.rank));
        vanishing_adjoint(
            base.at_u[e],
            model.a_u[e][b],
            model.b_u[e][b],
            model.scale(),
            model.gate_u,
            e,
            b,
            r.data[e][b],
            k,
        );
    }
    assert forall|e: int, b: int, k: int|
        0 <= e < pv.n && 0 <= b < pv.b && 0 <= k < pv.d implies #[trigger] pv.at(e, b, k) == base.pulled_v(r).at(
        e,
        b,
        k,
    ) by {
        assert(model.a_v[e][b].has_shape(base.d_e, model.rank));
        assert(model.b_v[e][b].has_shape(base.d_v, model.rank));
        vanishing_adjoint(
            base.at_v[e],
            model.a_v[e][b],
            model.b_v[e][b],
            model.scale(),
            model.gate_v,
            e,
            b,
            r.data[e][b],
            k,
        );
    }
    arr3_ext(pu, base.pulled_u(r));
    arr3_ext(pv, base.pulled_v(r));
}

/// With modulated maps too, the sheaf energy is one half of the quadratic form of the
/// Laplacian, summed over the batch.
pub proof fn lora_energy_is_half_the_form<S: Scalar>(model: LoraModel<S>, z: Arr3<S>)
    requires
        exact::<S>(),
        model.wf(),
        model.base.mask is None,
        z.wf(),
        model.admits(z.n, z.b, z.d),
    ensures
        energy_of(model.residuals(z)) == S::spec_decimal(5, -1).spec_times(
            total(|b: int| batch_dot(z, model.laplacian(z), b, z.n), z.b),
        ),
{
    let r = model.residuals(z);
    squares_are_batch_dots(r);
    let squares = |b: int| batch_dot(r, r, b, r.n);
    let forms = |b: int| batch_dot(z, model.laplacian(z), b, z.n);
    assert forall|b: int| 0 <= b < z.b implies #[trigger] squares(b) == forms(b) by {
        lora_laplacian_form_is_squares(model, z, b);
    }
    total_same(squares, forms, z.b);
}

} // verus!
