//! How the steps of a run hang together, for exact numbers: what the duals collect, how far
//! blending goes, what the tethered proposal solves, and where the consensus starts and what it
//! carries along.
use super::ring::{
    exact, minus_pairs, minus_plus, minus_plus_flip, plus_flip, plus_shift, plus_zero, times_flip,
    times_one, times_spread_minus, times_zero, total,
};
use super::solvers::{divides, simple_solves_its_equation};
use crate::admm::{Iterate, Problem, XSolverKind};
use crate::algebra::{advance3, batch_dots, diff3, retreat3};
use crate::geometry::Operators;
use crate::scalar::Scalar;
use crate::solvers::{
    cg_iterate, cg_next, consensus_of, ratios, system_of, ObjectiveModel, UnrolledCgParams, ZMode,
};
use crate::tensor::{arr3_ext, Arr3};
use vstd::prelude::*;

verus! {

/// `(a - b) - c = a - (b + c)`.
proof fn take_both<S: Scalar>(a: S, b: S, c: S)
    requires
        exact::<S>(),
    ensures
        a.spec_minus(b).spec_minus(c) == a.spec_minus(b.spec_plus(c)),
{
    let zero = S::spec_zero();
    minus_pairs(a, zero, b, c);
    plus_zero(a);
    let d = a.spec_minus(b);
    minus_plus(zero, c);
    plus_shift(d, zero.spec_minus(c), c);
    plus_zero(d);
    minus_plus(d.spec_plus(zero.spec_minus(c)), c);
}

/// How far the blended proposals of step `t` are from the consensus that the step leaves.
pub open spec fn gap_at<S: Scalar>(problem: Problem<S>, seed: Arr3<S>, t: int, i: int, j: int, k: int) -> S {
    problem.relaxed(problem.iterate(seed, t as nat)).at(i, j, k).spec_minus(
        problem.iterate(seed, (t + 1) as nat).z.at(i, j, k),
    )
}

/// All duals and blended proposals of the first `n` steps have the extents of the seed.
pub open spec fn keeps_extents<S: Scalar>(problem: Problem<S>, seed: Arr3<S>, n: nat) -> bool {
    forall|t: nat|
        t <= n ==> {
            let s = #[trigger] problem.iterate(seed, t);
            &&& (s.y.n, s.y.b, s.y.d) == (seed.n, seed.b, seed.d)
            &&& (problem.relaxed(s).n, problem.relaxed(s).b, problem.relaxed(s).d) == (seed.n, seed.b, seed.d)
        }
}

/// The duals collect the gaps: a dual starts at zero, and is the sum of how far the blended
/// proposals were from the consensus in all steps so far.
pub proof fn duals_collect_the_gaps<S: Scalar>(problem: Problem<S>, seed: Arr3<S>, n: nat, i: int, j: int, k: int)
    requires
        exact::<S>(),
        keeps_extents(problem, seed, n),
        0 <= i < seed.n,
        0 <= j < seed.b,
        0 <= k < seed.d,
    ensures
        problem.iterate(seed, n).y.at(i, j, k) == total(|t: int| gap_at(problem, seed, t, i, j, k), n),
    decreases n,
{
    if n > 0 {
        let m = (n - 1) as nat;
        duals_collect_the_gaps(problem, seed, m, i, j, k);
        let s = problem.iterate(seed, m);
        assert(problem.iterate(seed, n) == problem.next(s));
        assert((m + 1) as nat == n);
    }
}

/// Blending goes `alpha` of the way from the consensus to the proposals.
pub proof fn blending_goes_part_of_the_way<S: Scalar>(problem: Problem<S>, s: Iterate<S>, i: int, j: int, k: int)
    requires
        exact::<S>(),
        problem.alpha.spec_same(S::spec_one()) ==> problem.alpha == S::spec_one(),
        0 <= i < problem.proposal(s).n,
        0 <= j < problem.proposal(s).b,
        0 <= k < problem.proposal(s).d,
    ensures
        problem.relaxed(s).at(i, j, k).spec_minus(s.z.at(i, j, k)) == problem.alpha.spec_times(
            problem.proposal(s).at(i, j, k).spec_minus(s.z.at(i, j, k)),
        ),
{
    let a = problem.alpha;
    let one = S::spec_one();
    let x = problem.proposal(s).at(i, j, k);
    let z = s.z.at(i, j, k);
    if a.spec_same(one) {
        times_flip(one, x.spec_minus(z));
        times_one(x.spec_minus(z));
    } else {
        let ax = a.spec_times(x);
        let az = a.spec_times(z);
        times_spread_minus(z, one, a);
        times_one(z);
        times_flip(z, one);
        times_flip(z, a);
        assert(one.spec_minus(a).spec_times(z) == z.spec_minus(az));
        times_spread_minus(a, x, z);
        let rest = z.spec_minus(az);
        minus_plus_flip(z, az, ax);
        plus_flip(ax, rest);
        assert(ax.spec_plus(rest) == z.spec_plus(ax).spec_minus(az));
        plus_flip(z, ax);
        take_both(ax.spec_plus(z), az, z);
        plus_flip(az, z);
        take_both(ax.spec_plus(z), z, az);
        minus_plus(ax, z);
    }
}

/// The tethered proposals of a step solve `(beta + rho) x = beta h + rho (z - y)`.
pub proof fn tethered_steps_solve_their_equation<S: Scalar>(
    problem: Problem<S>,
    s: Iterate<S>,
    beta: S,
    i: int,
    j: int,
    k: int,
)
    requires
        exact::<S>(),
        problem.x_solver == XSolverKind::Simple,
        problem.objective == (ObjectiveModel::<S>::Simple { beta }),
        divides(beta.spec_plus(problem.rho)),
        0 <= i < s.z.n,
        0 <= j < s.z.b,
        0 <= k < s.z.d,
    ensures
        beta.spec_plus(problem.rho).spec_times(problem.next(s).x.at(i, j, k)) == beta.spec_times(
            problem.h.at(i, j, k),
        ).spec_plus(problem.rho.spec_times(s.z.at(i, j, k).spec_minus(s.y.at(i, j, k)))),
{
    simple_solves_its_equation(s.z, s.y, problem.rho, problem.h, beta, i, j, k);
}

/// Without iterations the hard consensus stays where it was: it starts from what the last
/// consensus took away from the target.
pub proof fn hard_consensus_starts_where_it_was<S: Scalar>(
    z_target: Arr3<S>,
    z_prev: Arr3<S>,
    ops: Operators<S>,
    params: UnrolledCgParams<S>,
    rho: S,
)
    requires
        exact::<S>(),
        params.mode == ZMode::Project,
        params.num_iters == 0,
        z_prev.wf(),
        z_target.same_shape(z_prev),
    ensures
        consensus_of(z_target, z_prev, ops, params, rho) == z_prev,
{
    let r = consensus_of(z_target, z_prev, ops, params, rho);
    let start = diff3(z_target, z_prev);
    assert forall|i: int, j: int, k: int| 0 <= i < z_prev.n && 0 <= j < z_prev.b && 0 <= k < z_prev.d implies #[trigger] z_prev.at(
        i,
        j,
        k,
    ) == r.at(i, j, k) by {
        let (t, p) = (z_target.at(i, j, k), z_prev.at(i, j, k));
        let d = t.spec_minus(p);
        assert(start.at(i, j, k) == d);
        minus_plus(t, p);
        plus_flip(d, p);
        minus_plus(p, d);
    }
    arr3_ext(z_prev, r);
}

/// The inverted systems weigh their two parts: where the Laplacian of a state is zero, what is
/// left is the regularizer or the penalty times the state; and without those, the Laplacian, as
/// often as the weight of the soft consensus says.
pub proof fn systems_weigh_their_parts<S: Scalar>(
    ops: Operators<S>,
    params: UnrolledCgParams<S>,
    rho: S,
    x: Arr3<S>,
    i: int,
    j: int,
    k: int,
)
    requires
        exact::<S>(),
        (ops.laplacian_of(x).n, ops.laplacian_of(x).b, ops.laplacian_of(x).d) == (x.n, x.b, x.d),
        0 <= i < x.n,
        0 <= j < x.b,
        0 <= k < x.d,
    ensures
        ({
            let zero = S::spec_zero();
            let l = ops.laplacian_of(x).at(i, j, k);
            let a = system_of(ops, params, rho, x).at(i, j, k);
            match params.mode {
                ZMode::Project => {
                    &&& l == zero ==> a == params.tikhonov_eps.spec_times(x.at(i, j, k))
                    &&& params.tikhonov_eps == zero ==> a == l
                },
                ZMode::Prox => {
                    &&& l == zero ==> a == rho.spec_times(x.at(i, j, k))
                    &&& rho == zero ==> a == params.gamma.spec_times(l)
                },
            }
        }),
{
    let l = ops.laplacian_of(x).at(i, j, k);
    let v = x.at(i, j, k);
    plus_zero(l);
    plus_zero(params.gamma.spec_times(l));
    plus_zero(params.tikhonov_eps.spec_times(v));
    plus_zero(rho.spec_times(v));
    times_zero(params.gamma);
    times_zero(v);
    times_flip(v, S::spec_zero());
}

/// The system goes along with directions: that of a state moved along a direction is moved along
/// that of the direction.
#[verifier::opaque]
pub open spec fn goes_along<S: Scalar>(ops: Operators<S>, params: UnrolledCgParams<S>, rho: S, like: Arr3<S>) -> bool {
    &&& forall|x: Arr3<S>| x.same_shape(like) ==> (#[trigger] system_of(ops, params, rho, x)).same_shape(like)
    &&& forall|x: Arr3<S>, s: Seq<S>, p: Arr3<S>|
        x.same_shape(like) && p.same_shape(like) ==> (#[trigger] system_of(ops, params, rho, advance3(x, s, p)))
            == advance3(system_of(ops, params, rho, x), s, system_of(ops, params, rho, p))
}

proof fn moved_system<S: Scalar>(
    ops: Operators<S>,
    params: UnrolledCgParams<S>,
    rho: S,
    like: Arr3<S>,
    x: Arr3<S>,
    s: Seq<S>,
    p: Arr3<S>,
)
    requires
        goes_along(ops, params, rho, like),
        x.same_shape(like),
        p.same_shape(like),
    ensures
        system_of(ops, params, rho, x).same_shape(like),
        system_of(ops, params, rho, p).same_shape(like),
        system_of(ops, params, rho, advance3(x, s, p)) == advance3(
            system_of(ops, params, rho, x),
            s,
            system_of(ops, params, rho, p),
        ),
{
    reveal(goes_along);
}

proof fn moved_residual<S: Scalar>(b: Arr3<S>, ax: Arr3<S>, s: Seq<S>, ap: Arr3<S>)
    requires
        exact::<S>(),
        b.wf(),
        ax.same_shape(b),
        ap.same_shape(b),
    ensures
        retreat3(diff3(b, ax), s, ap) == diff3(b, advance3(ax, s, ap)),
{
    let r = retreat3(diff3(b, ax), s, ap);
    let want = diff3(b, advance3(ax, s, ap));
    assert forall|i: int, j: int, k: int| 0 <= i < b.n && 0 <= j < b.b && 0 <= k < b.d implies #[trigger] r.at(
        i,
        j,
        k,
    ) == want.at(i, j, k) by {
        take_both(b.at(i, j, k), ax.at(i, j, k), ap.at(i, j, k).spec_times(s[j]));
    }
    arr3_ext(r, want);
}

/// What the iterations of a consensus carry along is what they say: the residual of the iterate,
/// which is what the right-hand side exceeds its system by.
pub proof fn carried_residual_is_the_residual<S: Scalar>(
    ops: Operators<S>,
    params: UnrolledCgParams<S>,
    rho: S,
    b: Arr3<S>,
    x0: Arr3<S>,
    t: nat,
)
    requires
        exact::<S>(),
        b.wf(),
        x0.same_shape(b),
        goes_along(ops, params, rho, b),
    ensures
        ({
            let s = cg_iterate(ops, params, rho, b, x0, t);
            &&& s.x.same_shape(b)
            &&& s.p.same_shape(b)
            &&& s.r == diff3(b, system_of(ops, params, rho, s.x))
        }),
    decreases t,
{
    if t == 0 {
        moved_system(ops, params, rho, b, x0, Seq::empty(), x0);
    } else {
        carried_residual_is_the_residual(ops, params, rho, b, x0, (t - 1) as nat);
        let before = cg_iterate(ops, params, rho, b, x0, (t - 1) as nat);
        let ap = system_of(ops, params, rho, before.p);
        let ax = system_of(ops, params, rho, before.x);
        let alpha = ratios(before.rtr, batch_dots(before.p, ap));
        moved_system(ops, params, rho, b, before.x, alpha, before.p);
        moved_residual(b, ax, alpha, ap);
        let s = cg_iterate(ops, params, rho, b, x0, t);
        assert(s == cg_next(ops, params, rho, before));
        assert(s.x == advance3(before.x, alpha, before.p));
        assert(s.r == retreat3(before.r, alpha, ap));
    }
}

} // verus!
