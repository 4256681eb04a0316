//! Batch elements stay apart through the whole loop, whatever the arithmetic: a run on a batch
//! is, element by element, a run on that element alone.
use super::solvers::{batch_elements_are_apart, batch_rows, scattered_apart};
use crate::admm::{Iterate, Problem, XSolverKind};
use crate::algebra::{
    advance3, batch_dots, blend3, diff3, retreat3, scaled3, sum3, zeros3,
};
use crate::geometry::{FixedModel, LoraModel, Operators};
use crate::reduce::batch_dot;
use crate::scalar::Scalar;
use crate::solvers::{
    cg_iterate, cg_next, consensus_of, ratios, system_of, CgState, ObjectiveModel, UnrolledCgParams,
    ZMode,
};
use crate::tensor::{arr3_ext, Arr2, Arr3};
use vstd::prelude::*;

verus! {

/// What one geometry does to a batch element is what another does to that element alone.
pub open spec fn apart<S: Scalar>(ops: Operators<S>, one: Operators<S>, n: nat, bs: nat, d: nat, b: int) -> bool {
    forall|z: Arr3<S>|
        z.has_shape(n, bs, d) ==> {
            let l = #[trigger] ops.laplacian_of(z);
            l.has_shape(n, bs, d) && one.laplacian_of(z.batch(b)) == l.batch(b)
        }
}

/// Fixed maps treat every batch element alike.
pub proof fn fixed_maps_keep_apart<S: Scalar>(model: FixedModel<S>, n: nat, bs: nat, d: nat, b: int)
    requires
        model.wf(),
        model.admits(n, bs, d),
        0 <= b < bs,
    ensures
        apart(model.operators(), model.operators(), n, bs, d, b),
{
    assert forall|z: Arr3<S>| z.has_shape(n, bs, d) implies {
        let l = #[trigger] model.operators().laplacian_of(z);
        l.has_shape(n, bs, d) && model.operators().laplacian_of(z.batch(b)) == l.batch(b)
    } by {
        batch_elements_are_apart(model, z, b);
    }
}

impl<S: Scalar> LoraModel<S> {
    /// The modulated maps of one batch element alone.
    pub open spec fn single(self, b: int) -> LoraModel<S> {
        let e_cnt = self.base.edges.len();
        LoraModel {
            batch: 1,
            a_u: Seq::new(e_cnt, |e: int| seq![self.a_u[e][b]]),
            a_v: Seq::new(e_cnt, |e: int| seq![self.a_v[e][b]]),
            b_u: Seq::new(e_cnt, |e: int| seq![self.b_u[e][b]]),
            b_v: Seq::new(e_cnt, |e: int| seq![self.b_v[e][b]]),
            gate_u: single_gate(self.gate_u, b),
            gate_v: single_gate(self.gate_v, b),
            ..self
        }
    }
}

/// Gates of one batch element alone.
pub open spec fn single_gate<S: Scalar>(gate: Option<Arr2<S>>, b: int) -> Option<Arr2<S>> {
    match gate {
        Some(g) => Some(Arr2::build(g.rows, 1, |e: int, one: int| g.at(e, b))),
        None => None,
    }
}

/// Modulated maps treat a batch element as the maps of that element alone do.
pub proof fn modulated_maps_keep_apart<S: Scalar>(model: LoraModel<S>, n: nat, bs: nat, d: nat, b: int)
    requires
        model.wf(),
        model.admits(n, bs, d),
        0 <= b < bs,
    ensures
        apart(model.operators(), model.single(b).operators(), n, bs, d, b),
{
    assert forall|z: Arr3<S>| z.has_shape(n, bs, d) implies {
        let l = #[trigger] model.operators().laplacian_of(z);
        l.has_shape(n, bs, d) && model.single(b).operators().laplacian_of(z.batch(b)) == l.batch(b)
    } by {
        modulated_apart(model, z, b);
    }
}

proof fn modulated_apart<S: Scalar>(model: LoraModel<S>, z: Arr3<S>, b: int)
    requires
        model.wf(),
        z.wf(),
        model.admits(z.n, z.b, z.d),
        0 <= b < z.b,
    ensures
        model.single(b).residuals(z.batch(b)) == model.residuals(z).batch(b),
        model.single(b).laplacian(z.batch(b)) == model.laplacian(z).batch(b),
{
    let m1 = model.single(b);
    let one = z.batch(b);
    let r = model.residuals(z);
    let r1 = m1.residuals(one);
    batch_rows(z, b);
    assert forall|e: int, j: int, i: int|
        0 <= e < r1.n && 0 <= j < r1.b && 0 <= i < r1.d implies #[trigger] r1.at(e, j, i) == r.batch(b).at(
        e,
        j,
        i,
    ) by {
        let (u, v) = model.base.edges[e];
        assert(one.data[u][0] == z.data[u][b]);
        assert(one.data[v][0] == z.data[v][b]);
        assert(m1.a_u[e][0] == model.a_u[e][b] && m1.b_u[e][0] == model.b_u[e][b]);
        assert(m1.a_v[e][0] == model.a_v[e][b] && m1.b_v[e][0] == model.b_v[e][b]);
        assert(m1.u_member(one, e, 0, i) == model.u_member(z, e, b, i));
        assert(m1.v_member(one, e, 0, i) == model.v_member(z, e, b, i));
    }
    arr3_ext(r1, r.batch(b));
    batch_rows(r, b);
    let l = model.laplacian(z);
    let l1 = m1.laplacian(one);
    assert forall|i: int, j: int, k: int|
        0 <= i < l1.n && 0 <= j < l1.b && 0 <= k < l1.d implies #[trigger] l1.at(i, j, k) == l.batch(b).at(
        i,
        j,
        k,
    ) by {
        let pu = model.pulled_u(r);
        let pv = model.pulled_v(r);
        let pu1 = m1.pulled_u(r1);
        let pv1 = m1.pulled_v(r1);
        assert forall|e: int| 0 <= e < model.base.edges.len() implies #[trigger] pu1.at(e, 0, k) == pu.at(
            e,
            b,
            k,
        ) by {
            assert(r1.data[e][0] == r.data[e][b]);
            same_pull(model.a_u, model.gate_u, e, b, r.data[e][b]);
        }
        assert forall|e: int| 0 <= e < model.base.edges.len() implies #[trigger] pv1.at(e, 0, k) == pv.at(
            e,
            b,
            k,
        ) by {
            assert(r1.data[e][0] == r.data[e][b]);
            same_pull(model.a_v, model.gate_v, e, b, r.data[e][b]);
        }
        scattered_apart(model.base.edges, pu, pv, pu1, pv1, i, b, k, model.base.edges.len());
    }
    arr3_ext(l1, l.batch(b));
}

proof fn same_pull<S: Scalar>(a: Seq<Seq<Arr2<S>>>, gate: Option<Arr2<S>>, e: int, b: int, r: Seq<S>)
    requires
        gate matches Some(g) ==> 0 <= e < g.rows,
    ensures
        crate::geometry::gated_pull(a[e][b], single_gate(gate, b), e, 0, r) == crate::geometry::gated_pull(
            a[e][b],
            gate,
            e,
            b,
            r,
        ),
{
    assert(crate::geometry::gated_pull(a[e][b], single_gate(gate, b), e, 0, r)
        =~= crate::geometry::gated_pull(a[e][b], gate, e, b, r));
}

/// Member by member operations keep batch elements apart.
proof fn members_apart<S: Scalar>(a: Arr3<S>, c: Arr3<S>, f: S, g: S, s: Seq<S>, b: int)
    requires
        a.wf(),
        c.same_shape(a),
        0 <= b < a.b,
    ensures
        sum3(a, c).batch(b) == sum3(a.batch(b), c.batch(b)),
        diff3(a, c).batch(b) == diff3(a.batch(b), c.batch(b)),
        blend3(f, a, g, c).batch(b) == blend3(f, a.batch(b), g, c.batch(b)),
        scaled3(f, a).batch(b) == scaled3(f, a.batch(b)),
        advance3(a, s, c).batch(b) == advance3(a.batch(b), seq![s[b]], c.batch(b)),
        retreat3(a, s, c).batch(b) == retreat3(a.batch(b), seq![s[b]], c.batch(b)),
{
    arr3_ext(sum3(a, c).batch(b), sum3(a.batch(b), c.batch(b)));
    arr3_ext(diff3(a, c).batch(b), diff3(a.batch(b), c.batch(b)));
    arr3_ext(blend3(f, a, g, c).batch(b), blend3(f, a.batch(b), g, c.batch(b)));
    arr3_ext(scaled3(f, a).batch(b), scaled3(f, a.batch(b)));
    arr3_ext(advance3(a, s, c).batch(b), advance3(a.batch(b), seq![s[b]], c.batch(b)));
    arr3_ext(retreat3(a, s, c).batch(b), retreat3(a.batch(b), seq![s[b]], c.batch(b)));
}

proof fn dot_apart<S: Scalar>(a: Arr3<S>, c: Arr3<S>, b: int, n: nat)
    requires
        a.wf(),
        c.same_shape(a),
        0 <= b < a.b,
        n <= a.n,
    ensures
        batch_dot(a.batch(b), c.batch(b), 0, n) == batch_dot(a, c, b, n),
    decreases n,
{
    if n > 0 {
        dot_apart(a, c, b, (n - 1) as nat);
        batch_rows(a, b);
        batch_rows(c, b);
        assert(a.batch(b).data[n - 1][0] == a.data[n - 1][b]);
        assert(c.batch(b).data[n - 1][0] == c.data[n - 1][b]);
    }
}

proof fn dots_apart<S: Scalar>(a: Arr3<S>, c: Arr3<S>, b: int)
    requires
        a.wf(),
        c.same_shape(a),
        0 <= b < a.b,
    ensures
        batch_dots(a.batch(b), c.batch(b)) == seq![batch_dots(a, c)[b]],
{
    dot_apart(a, c, b, a.n);
    assert(batch_dots(a.batch(b), c.batch(b)) =~= seq![batch_dots(a, c)[b]]);
}

proof fn ratios_apart<S: Scalar>(num: Seq<S>, den: Seq<S>, b: int)
    requires
        0 <= b < num.len(),
        den.len() == num.len(),
    ensures
        ratios(seq![num[b]], seq![den[b]]) == seq![ratios(num, den)[b]],
{
    assert(ratios(seq![num[b]], seq![den[b]]) =~= seq![ratios(num, den)[b]]);
}

/// One batch element of what the iteration carries.
spec fn cg_batch<S: Scalar>(s: CgState<S>, b: int) -> CgState<S> {
    CgState { x: s.x.batch(b), r: s.r.batch(b), p: s.p.batch(b), rtr: seq![s.rtr[b]] }
}

spec fn cg_fits<S: Scalar>(s: CgState<S>, n: nat, bs: nat, d: nat) -> bool {
    s.x.has_shape(n, bs, d) && s.r.has_shape(n, bs, d) && s.p.has_shape(n, bs, d) && s.rtr.len() == bs
}

proof fn system_apart<S: Scalar>(
    ops: Operators<S>,
    one: Operators<S>,
    params: UnrolledCgParams<S>,
    rho: S,
    x: Arr3<S>,
    b: int,
)
    requires
        x.wf(),
        0 <= b < x.b,
        apart(ops, one, x.n, x.b, x.d, b),
    ensures
        system_of(ops, params, rho, x).same_shape(x),
        system_of(one, params, rho, x.batch(b)) == system_of(ops, params, rho, x).batch(b),
{
    let l = ops.laplacian_of(x);
    assert(l.has_shape(x.n, x.b, x.d));
    members_apart(l, x, params.gamma, rho, Seq::empty(), b);
    let ex = scaled3(params.tikhonov_eps, x);
    members_apart(x, x, params.tikhonov_eps, rho, Seq::empty(), b);
    members_apart(l, ex, params.gamma, rho, Seq::empty(), b);
}

proof fn cg_apart<S: Scalar>(
    ops: Operators<S>,
    one: Operators<S>,
    params: UnrolledCgParams<S>,
    rho: S,
    c: Arr3<S>,
    x0: Arr3<S>,
    b: int,
    t: nat,
)
    requires
        c.wf(),
        x0.same_shape(c),
        0 <= b < c.b,
        apart(ops, one, c.n, c.b, c.d, b),
    ensures
        cg_fits(cg_iterate(ops, params, rho, c, x0, t), c.n, c.b, c.d),
        cg_iterate(one, params, rho, c.batch(b), x0.batch(b), t) == cg_batch(
            cg_iterate(ops, params, rho, c, x0, t),
            b,
        ),
    decreases t,
{
    if t == 0 {
        let ax = system_of(ops, params, rho, x0);
        system_apart(ops, one, params, rho, x0, b);
        members_apart(c, ax, rho, rho, Seq::empty(), b);
        let r = diff3(c, ax);
        dots_apart(r, r, b);
    } else {
        let m = (t - 1) as nat;
        cg_apart(ops, one, params, rho, c, x0, b, m);
        let s = cg_iterate(ops, params, rho, c, x0, m);
        let ap = system_of(ops, params, rho, s.p);
        system_apart(ops, one, params, rho, s.p, b);
        dots_apart(s.p, ap, b);
        let pap = batch_dots(s.p, ap);
        ratios_apart(s.rtr, pap, b);
        let alpha = ratios(s.rtr, pap);
        members_apart(s.x, s.p, rho, rho, alpha, b);
        members_apart(s.r, ap, rho, rho, alpha, b);
        let r = retreat3(s.r, alpha, ap);
        dots_apart(r, r, b);
        let rtr = batch_dots(r, r);
        ratios_apart(rtr, s.rtr, b);
        members_apart(r, s.p, rho, rho, ratios(rtr, s.rtr), b);
        assert(cg_next(one, params, rho, cg_batch(s, b)) == cg_batch(cg_next(ops, params, rho, s), b));
    }
}

/// A consensus step on a batch is, element by element, a step on that element alone.
pub proof fn consensus_keeps_apart<S: Scalar>(
    ops: Operators<S>,
    one: Operators<S>,
    params: UnrolledCgParams<S>,
    rho: S,
    target: Arr3<S>,
    prev: Arr3<S>,
    b: int,
)
    requires
        target.wf(),
        prev.same_shape(target),
        0 <= b < target.b,
        apart(ops, one, target.n, target.b, target.d, b),
    ensures
        consensus_of(target, prev, ops, params, rho).same_shape(target),
        consensus_of(target.batch(b), prev.batch(b), one, params, rho) == consensus_of(
            target,
            prev,
            ops,
            params,
            rho,
        ).batch(b),
{
    let t = params.num_iters as nat;
    members_apart(target, prev, rho, rho, Seq::empty(), b);
    match params.mode {
        ZMode::Project => {
            let c = ops.laplacian_of(target);
            assert(c.has_shape(target.n, target.b, target.d));
            let x0 = diff3(target, prev);
            cg_apart(ops, one, params, rho, c, x0, b, t);
            members_apart(target, cg_iterate(ops, params, rho, c, x0, t).x, rho, rho, Seq::empty(), b);
        },
        ZMode::Prox => {
            cg_apart(ops, one, params, rho, scaled3(rho, target), target, b, t);
        },
    }
}

impl<S: Scalar> ObjectiveModel<S> {
    /// The objective of one batch element alone.
    pub open spec fn batch(self, b: int) -> ObjectiveModel<S> {
        match self {
            ObjectiveModel::Simple { beta } => ObjectiveModel::Simple { beta },
            ObjectiveModel::Quadratic { q_diag, q } => ObjectiveModel::Quadratic {
                q_diag: q_diag.batch(b),
                q: q.batch(b),
            },
            ObjectiveModel::Lasso { q_diag, q, l1 } => ObjectiveModel::Lasso {
                q_diag: q_diag.batch(b),
                q: q.batch(b),
                l1,
            },
            ObjectiveModel::NonNeg { q_diag, q } => ObjectiveModel::NonNeg {
                q_diag: q_diag.batch(b),
                q: q.batch(b),
            },
            ObjectiveModel::L1Box { q_diag, q, l1, upper } => ObjectiveModel::L1Box {
                q_diag: q_diag.batch(b),
                q: q.batch(b),
                l1: l1.batch(b),
                upper: upper.batch(b),
            },
        }
    }
}

impl<S: Scalar> Iterate<S> {
    /// The state of one batch element alone.
    pub open spec fn batch(self, b: int) -> Iterate<S> {
        Iterate { x: self.x.batch(b), z: self.z.batch(b), y: self.y.batch(b) }
    }
}

/// The problem of one batch element alone, with the geometry of that element.
pub open spec fn single_problem<S: Scalar>(problem: Problem<S>, one: Operators<S>, b: int) -> Problem<S> {
    Problem { h: problem.h.batch(b), objective: problem.objective.batch(b), ops: one, ..problem }
}

proof fn proposal_apart<S: Scalar>(problem: Problem<S>, one: Operators<S>, s: Iterate<S>, b: int)
    requires
        s.z.wf(),
        s.y.same_shape(s.z),
        0 <= b < s.z.b,
        problem.solvable(s.z.n, s.z.b, s.z.d),
    ensures
        problem.proposal(s).same_shape(s.z),
        single_problem(problem, one, b).proposal(s.batch(b)) == problem.proposal(s).batch(b),
{
    let p1 = single_problem(problem, one, b);
    let x = problem.proposal(s);
    let x1 = p1.proposal(s.batch(b));
    assert forall|i: int, j: int, k: int|
        0 <= i < x1.n && 0 <= j < x1.b && 0 <= k < x1.d implies #[trigger] x1.at(i, j, k) == x.batch(b).at(
        i,
        j,
        k,
    ) by {
        assert(s.z.batch(b).at(i, 0, k) == s.z.at(i, b, k));
        assert(s.y.batch(b).at(i, 0, k) == s.y.at(i, b, k));
        match problem.x_solver {
            XSolverKind::DiagonalProx => {
                let o = problem.objective;
                assert(o.batch(b).curvature().at(i, 0, k) == o.curvature().at(i, b, k));
                assert(o.batch(b).linear().at(i, 0, k) == o.linear().at(i, b, k));
                assert(o.batch(b).l1_at(i, 0, k) == o.l1_at(i, b, k));
                assert(o.batch(b).upper_at(i, 0, k) == o.upper_at(i, b, k));
                assert(o.batch(b).lower() == o.lower());
            },
            XSolverKind::Simple => {
                assert(problem.h.batch(b).at(i, 0, k) == problem.h.at(i, b, k));
            },
        }
    }
    arr3_ext(x1, x.batch(b));
}

/// A run on a batch is, element by element, a run on that element alone: after any number of
/// steps the state of an element is that of its own problem.
pub proof fn runs_keep_apart<S: Scalar>(problem: Problem<S>, one: Operators<S>, z_init: Arr3<S>, b: int, t: nat)
    requires
        z_init.wf(),
        0 <= b < z_init.b,
        problem.solvable(z_init.n, z_init.b, z_init.d),
        apart(problem.ops, one, z_init.n, z_init.b, z_init.d, b),
    ensures
        problem.iterate(z_init, t).has_shape(z_init.n, z_init.b, z_init.d),
        single_problem(problem, one, b).iterate(z_init.batch(b), t) == problem.iterate(z_init, t).batch(b),
    decreases t,
{
    let p1 = single_problem(problem, one, b);
    if t == 0 {
        arr3_ext(
            zeros3::<S>(z_init.n, z_init.b, z_init.d).batch(b),
            zeros3(z_init.n, 1, z_init.d),
        );
    } else {
        runs_keep_apart(problem, one, z_init, b, (t - 1) as nat);
        let s = problem.iterate(z_init, (t - 1) as nat);
        proposal_apart(problem, one, s, b);
        let x = problem.proposal(s);
        let rest = S::spec_one().spec_minus(problem.alpha);
        members_apart(x, s.z, problem.alpha, rest, Seq::empty(), b);
        let xr = problem.relaxed(s);
        assert(p1.relaxed(s.batch(b)) == xr.batch(b));
        members_apart(xr, s.y, problem.alpha, rest, Seq::empty(), b);
        let target = sum3(xr, s.y);
        consensus_keeps_apart(problem.ops, one, problem.z_params, problem.rho, target, s.z, b);
        let z = consensus_of(target, s.z, problem.ops, problem.z_params, problem.rho);
        members_apart(xr, z, problem.alpha, rest, Seq::empty(), b);
        members_apart(s.y, diff3(xr, z), problem.alpha, rest, Seq::empty(), b);
    }
}

} // verus!
