//! Unrolled conjugate-gradient z-solver.
//!
//! A fixed number of iterations without early stopping. Inner products reduce over
//! agents and stalk dimensions, one for each batch element.
//!
//! - The denominator guard is exactly one hundred-millionth.
//! - Project mode is deliberately no idempotent projector: its warm start keeps kernel
//!   components.
//! - Prox mode starts at its target.
use crate::algebra::{
    advance, advance3, batch_dots, bdot, blend3, blend_of, diff3, diff_of, retreat, retreat3, scaled3,
    scaled_of, sum3,
};
use crate::geometry::{Operators, SheafGeometry};
use crate::scalar::Scalar;
use crate::tensor::{Arr3, Tensor3};
use vstd::prelude::*;

verus! {

/// How the consensus update treats disagreement.
#[derive(Debug, Clone, Copy, PartialEq, Eq, Structural)]
pub enum ZMode {
    /// Hard consensus: solve `(L + eps I) w = L z_target`, return `z_target - w`, from
    /// the warm start `w0 = z_target - z_prev`.
    Project,
    /// Soft consensus: solve `(gamma L + rho I) z = rho z_target`, from `z_target`.
    Prox,
}

#[derive(Debug, Clone, Copy)]
pub struct UnrolledCgParams<S> {
    pub mode: ZMode,
    /// Soft-consensus weight.
    pub gamma: S,
    /// The fixed unroll length.
    pub num_iters: usize,
    /// Project-mode regularizer, distinct from the denominator guard.
    pub tikhonov_eps: S,
}

impl<S: Scalar> Default for UnrolledCgParams<S> {
    /// Prox mode, gamma 1, five iterations, regularizer 1e-5.
    fn default() -> (r: Self)
        ensures
            r.mode == ZMode::Prox,
            r.gamma == S::spec_one(),
            r.num_iters == 5,
            r.tikhonov_eps == S::spec_decimal(1, -5),
    {
        UnrolledCgParams { mode: ZMode::Prox, gamma: S::one(), num_iters: 5, tikhonov_eps: S::decimal(1, -5) }
    }
}

/// Denominator guard: one hundred-millionth.
pub open spec fn cg_epsilon<S: Scalar>() -> S {
    S::spec_decimal(1, -8)
}

/// `num / (den + guard)`, for each batch element.
pub open spec fn ratios<S: Scalar>(num: Seq<S>, den: Seq<S>) -> Seq<S> {
    Seq::new(num.len(), |b: int| num[b].spec_over(den[b].spec_plus(cg_epsilon())))
}

/// The operator that is inverted: `L x + eps x` in project mode, `gamma L x + rho x` in
/// prox mode.
pub open spec fn system_of<S: Scalar>(
    ops: Operators<S>,
    params: UnrolledCgParams<S>,
    rho: S,
    x: Arr3<S>,
) -> Arr3<S> {
    match params.mode {
        ZMode::Project => sum3(ops.laplacian_of(x), scaled3(params.tikhonov_eps, x)),
        ZMode::Prox => blend3(params.gamma, ops.laplacian_of(x), rho, x),
    }
}

/// What the iteration carries: iterate, residual, direction, squared residual.
pub ghost struct CgState<S> {
    pub x: Arr3<S>,
    pub r: Arr3<S>,
    pub p: Arr3<S>,
    pub rtr: Seq<S>,
}

pub open spec fn cg_initial<S: Scalar>(
    ops: Operators<S>,
    params: UnrolledCgParams<S>,
    rho: S,
    b: Arr3<S>,
    x0: Arr3<S>,
) -> CgState<S> {
    let r = diff3(b, system_of(ops, params, rho, x0));
    CgState { x: x0, r, p: r, rtr: batch_dots(r, r) }
}

/// One iteration: a step along the direction, then a new direction conjugate to it.
pub open spec fn cg_next<S: Scalar>(
    ops: Operators<S>,
    params: UnrolledCgParams<S>,
    rho: S,
    s: CgState<S>,
) -> CgState<S> {
    let ap = system_of(ops, params, rho, s.p);
    let alpha = ratios(s.rtr, batch_dots(s.p, ap));
    let x = advance3(s.x, alpha, s.p);
    let r = retreat3(s.r, alpha, ap);
    let rtr = batch_dots(r, r);
    let beta = ratios(rtr, s.rtr);
    CgState { x, r, p: advance3(r, beta, s.p), rtr }
}

pub open spec fn cg_iterate<S: Scalar>(
    ops: Operators<S>,
    params: UnrolledCgParams<S>,
    rho: S,
    b: Arr3<S>,
    x0: Arr3<S>,
    t: nat,
) -> CgState<S>
    decreases t,
{
    if t == 0 {
        cg_initial(ops, params, rho, b, x0)
    } else {
        cg_next(ops, params, rho, cg_iterate(ops, params, rho, b, x0, (t - 1) as nat))
    }
}

/// One consensus update.
pub open spec fn consensus_of<S: Scalar>(
    z_target: Arr3<S>,
    z_prev: Arr3<S>,
    ops: Operators<S>,
    params: UnrolledCgParams<S>,
    rho: S,
) -> Arr3<S> {
    let t = params.num_iters as nat;
    match params.mode {
        ZMode::Project => diff3(
            z_target,
            cg_iterate(
                ops,
                params,
                rho,
                ops.laplacian_of(z_target),
                diff3(z_target, z_prev),
                t,
            ).x,
        ),
        ZMode::Prox => cg_iterate(ops, params, rho, scaled3(rho, z_target), z_target, t).x,
    }
}

/// The Laplacian product as an array of its own.
fn lap<S: Scalar, G: SheafGeometry<S>>(geometry: &G, z: &Tensor3<S>) -> (r: Tensor3<S>)
    requires
        geometry.wf(),
        z.wf(),
        geometry.admits(z@.n, z@.b, z@.d),
    ensures
        r@.same_shape(z@),
        r@ == geometry.operators().laplacian_of(z@),
{
    let (n, b, d) = z.dim();
    let mut out = Tensor3::from_elem(n, b, d, S::zero());
    geometry.laplacian_apply(z, &mut out);
    out
}

/// Applies the operator that is inverted.
pub fn system_apply<S: Scalar, G: SheafGeometry<S>>(
    geometry: &G,
    params: &UnrolledCgParams<S>,
    rho: S,
    x: &Tensor3<S>,
) -> (r: Tensor3<S>)
    requires
        geometry.wf(),
        x.wf(),
        geometry.admits(x@.n, x@.b, x@.d),
    ensures
        r@.same_shape(x@),
        r@ == system_of(geometry.operators(), *params, rho, x@),
{
    let lx = lap(geometry, x);
    match params.mode {
        ZMode::Project => {
            let ex = scaled_of(params.tikhonov_eps, x);
            crate::algebra::sum_of(&lx, &ex)
        },
        ZMode::Prox => blend_of(params.gamma, &lx, rho, x),
    }
}

/// `num / (den + guard)`, for each batch element.
fn guarded_ratios<S: Scalar>(num: &Vec<S>, den: &Vec<S>) -> (r: Vec<S>)
    requires
        num@.len() == den@.len(),
    ensures
        r@ == ratios(num@, den@),
{
    let eps = S::decimal(1, -8);
    let mut out: Vec<S> = Vec::new();
    for b in 0..num.len()
        invariant
            num@.len() == den@.len(),
            eps == cg_epsilon::<S>(),
            out@.len() == b,
            forall|x: int|
                0 <= x < b ==> #[trigger] out@[x] == num@[x].spec_over(den@[x].spec_plus(cg_epsilon())),
    {
        out.push(num[b].over(den[b].plus(eps)));
    }
    out
}

/// Batched conjugate gradients for `A x = b`, with a fixed number of iterations.
pub fn batched_cg<S: Scalar, G: SheafGeometry<S>>(
    geometry: &G,
    params: &UnrolledCgParams<S>,
    rho: S,
    b: &Tensor3<S>,
    x0: Tensor3<S>,
    num_iters: usize,
) -> (x: Tensor3<S>)
    requires
        geometry.wf(),
        b.wf(),
        geometry.admits(b@.n, b@.b, b@.d),
        x0@.same_shape(b@),
    ensures
        x@.same_shape(b@),
        x@ == cg_iterate(geometry.operators(), *params, rho, b@, x0@, num_iters as nat).x,
{
    let ghost start = x0@;
    let ax = system_apply(geometry, params, rho, &x0);
    let mut x = x0;
    let mut r = diff_of(b, &ax);
    let mut p = r.clone();
    let mut rtr = bdot(&r, &r);
    for t in 0..num_iters
        invariant
            geometry.wf(),
            b.wf(),
            geometry.admits(b@.n, b@.b, b@.d),
            x@.same_shape(b@),
            r@.same_shape(b@),
            p@.same_shape(b@),
            rtr@.len() == b@.b,
            (CgState { x: x@, r: r@, p: p@, rtr: rtr@ }) == cg_iterate(
                geometry.operators(),
                *params,
                rho,
                b@,
                start,
                t as nat,
            ),
    {
        let ap = system_apply(geometry, params, rho, &p);
        let ptap = bdot(&p, &ap);
        let alpha = guarded_ratios(&rtr, &ptap);
        x = advance(&x, &alpha, &p);
        r = retreat(&r, &alpha, &ap);
        let rtr_new = bdot(&r, &r);
        let beta = guarded_ratios(&rtr_new, &rtr);
        p = advance(&r, &beta, &p);
        rtr = rtr_new;
    }
    x
}

/// One z-update: conjugate-gradient steps against the geometry's matrix-free Laplacian.
pub fn unrolled_cg_solve<S: Scalar, G: SheafGeometry<S>>(
    z_target: &Tensor3<S>,
    z_prev: &Tensor3<S>,
    geometry: &G,
    params: &UnrolledCgParams<S>,
    rho: S,
) -> (r: Tensor3<S>)
    requires
        geometry.wf(),
        z_target.wf(),
        z_prev@.same_shape(z_target@),
        geometry.admits(z_target@.n, z_target@.b, z_target@.d),
    ensures
        r@.same_shape(z_target@),
        r@ == consensus_of(z_target@, z_prev@, geometry.operators(), *params, rho),
{
    match params.mode {
        ZMode::Project => {
            let b = lap(geometry, z_target);
            let w0 = diff_of(z_target, z_prev);
            let w = batched_cg(geometry, params, rho, &b, w0, params.num_iters);
            diff_of(z_target, &w)
        },
        ZMode::Prox => {
            let b = scaled_of(rho, z_target);
            batched_cg(geometry, params, rho, &b, z_target.clone(), params.num_iters)
        },
    }
}

} // verus!
