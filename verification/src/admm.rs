//! The unrolled coordination loop.
//!
//! ```text
//! z_prev  = z
//! x       = x_solver(z - y; rho)
//! x_relax = if alpha == 1 { x } else { alpha x + (1 - alpha) z_prev }
//! z       = z_solver(x_relax + y, z_prev; geometry, rho)
//! y       = y + (x_relax - z)
//! ```
//! It starts at `x = z = z_init`, `y = 0`.
use crate::algebra::{blend3, blend_of, diff3, diff_of, sum3, sum_of, zeros3};
use crate::geometry::{consistency_of, Operators, SheafGeometry};
use crate::scalar::{mul_acc, Scalar};
use crate::solvers::{
    consensus_of, diagonal_prox_solve, prox_of, simple_of, simple_solve, unrolled_cg_solve, EncoderOutput,
    Objective, ObjectiveModel, UnrolledCgParams,
};
use crate::tensor::{Arr2, Arr3, Matrix, Tensor3};
use vstd::prelude::*;

verus! {

/// Which x-update to run.
#[derive(Debug, Clone, Copy, PartialEq, Eq, Structural)]
pub enum XSolverKind {
    /// Closed-form diagonal prox.
    DiagonalProx,
    /// Tethered average.
    Simple,
}

/// Loop parameters. `rho` is the penalty, `alpha` the over-relaxation (at exactly one
/// the blend is skipped), `gamma` the soft-consensus weight (the same number that the
/// z-solver is given), `k` the number of iterations.
#[derive(Debug, Clone, Copy)]
pub struct AdmmParams<S> {
    pub rho: S,
    pub alpha: S,
    pub gamma: S,
    pub k: usize,
}

/// Per-agent variables, each `[N, B, d_v]`.
#[derive(Debug)]
pub struct AdmmState<S> {
    /// Local proposal.
    pub x: Tensor3<S>,
    /// Consensus iterate.
    pub z: Tensor3<S>,
    /// Scaled dual accumulator.
    pub y: Tensor3<S>,
}

/// The contents of the per-agent variables.
#[verifier::ext_equal]
pub ghost struct Iterate<S> {
    pub x: Arr3<S>,
    pub z: Arr3<S>,
    pub y: Arr3<S>,
}

impl<S: Scalar> View for AdmmState<S> {
    type V = Iterate<S>;

    open spec fn view(&self) -> Iterate<S> {
        Iterate { x: self.x@, z: self.z@, y: self.y@ }
    }
}

impl<S> Iterate<S> {
    /// The three variables have this shape.
    pub open spec fn has_shape(self, n: nat, b: nat, d: nat) -> bool {
        self.x.has_shape(n, b, d) && self.z.has_shape(n, b, d) && self.y.has_shape(n, b, d)
    }
}

/// Per-iteration trajectory, oldest first.
#[derive(Debug)]
pub struct AdmmHistory<S> {
    pub x: Vec<Tensor3<S>>,
    pub z: Vec<Tensor3<S>>,
    pub y: Vec<Tensor3<S>>,
    /// `||x_relaxed - z||` over d_v, per agent and batch element.
    pub primal_res: Vec<Matrix<S>>,
    /// `rho ||z - z_prev||` over d_v, per agent and batch element.
    pub dual_res: Vec<Matrix<S>>,
    /// Geometry disagreement of z, per batch element.
    pub consistency_rms: Vec<Vec<S>>,
}

/// What stays the same from step to step.
#[verifier::reject_recursive_types(S)]
pub ghost struct Problem<S> {
    pub h: Arr3<S>,
    pub objective: ObjectiveModel<S>,
    pub ops: Operators<S>,
    pub x_solver: XSolverKind,
    pub z_params: UnrolledCgParams<S>,
    pub rho: S,
    pub alpha: S,
}

/// The problem that an encoder output and a geometry pose.
pub open spec fn problem_of<S: Scalar, G: SheafGeometry<S>>(
    enc: EncoderOutput<S>,
    geometry: G,
    x_solver: XSolverKind,
    z_params: UnrolledCgParams<S>,
    rho: S,
    alpha: S,
) -> Problem<S> {
    Problem {
        h: enc.h@,
        objective: enc.objective@,
        ops: geometry.operators(),
        x_solver,
        z_params,
        rho,
        alpha,
    }
}

impl<S: Scalar> Problem<S> {
    /// The x-solver can work on the objective, at this shape.
    pub open spec fn solvable(self, n: nat, b: nat, d: nat) -> bool {
        match self.x_solver {
            XSolverKind::DiagonalProx => self.objective.diagonal_fits(n, b, d),
            XSolverKind::Simple => self.objective is Simple && self.h.has_shape(n, b, d),
        }
    }

    /// The local proposals at a state.
    pub open spec fn proposal(self, s: Iterate<S>) -> Arr3<S> {
        match self.x_solver {
            XSolverKind::DiagonalProx => prox_of(s.z, s.y, self.rho, self.objective),
            XSolverKind::Simple => simple_of(s.z, s.y, self.rho, self.h, self.objective->beta),
        }
    }

    /// The proposals blended with the consensus before the step; at `alpha == 1`, the
    /// proposals themselves.
    pub open spec fn relaxed(self, s: Iterate<S>) -> Arr3<S> {
        let x = self.proposal(s);
        if self.alpha.spec_same(S::spec_one()) {
            x
        } else {
            blend3(self.alpha, x, S::spec_one().spec_minus(self.alpha), s.z)
        }
    }

    /// The state after one step.
    pub open spec fn next(self, s: Iterate<S>) -> Iterate<S> {
        let xr = self.relaxed(s);
        let z = consensus_of(sum3(xr, s.y), s.z, self.ops, self.z_params, self.rho);
        Iterate { x: self.proposal(s), z, y: sum3(s.y, diff3(xr, z)) }
    }

    /// The state after `t` steps from `z_init`.
    pub open spec fn iterate(self, z_init: Arr3<S>, t: nat) -> Iterate<S>
        decreases t,
    {
        if t == 0 {
            initial(z_init)
        } else {
            self.next(self.iterate(z_init, (t - 1) as nat))
        }
    }
}

/// Where the loop starts.
pub open spec fn initial<S: Scalar>(z_init: Arr3<S>) -> Iterate<S> {
    Iterate { x: z_init, z: z_init, y: zeros3(z_init.n, z_init.b, z_init.d) }
}

/// Squared distance of two rows, member after member.
pub open spec fn squared_distance<S: Scalar>(a: Seq<S>, c: Seq<S>) -> S {
    let d = Seq::new(a.len(), |k: int| a[k].spec_minus(c[k]));
    mul_acc(S::spec_zero(), d, d, a.len())
}

/// `||a - c||` over the last axis.
pub open spec fn distances<S: Scalar>(a: Arr3<S>, c: Arr3<S>) -> Arr2<S> {
    Arr2::build(a.n, a.b, |i: int, j: int| squared_distance(a.data[i][j], c.data[i][j]).spec_sqrt())
}

/// `rho ||a - c||` over the last axis.
pub open spec fn weighted_distances<S: Scalar>(rho: S, a: Arr3<S>, c: Arr3<S>) -> Arr2<S> {
    Arr2::build(
        a.n,
        a.b,
        |i: int, j: int| rho.spec_times(squared_distance(a.data[i][j], c.data[i][j]).spec_sqrt()),
    )
}

/// Computes the distance of two rows.
fn row_distance<S: Scalar>(a: &[S], c: &[S]) -> (r: S)
    requires
        a@.len() == c@.len(),
    ensures
        r == squared_distance(a@, c@).spec_sqrt(),
{
    let ghost d = Seq::new(a@.len(), |k: int| a@[k].spec_minus(c@[k]));
    let mut acc = S::zero();
    for k in 0..a.len()
        invariant
            a@.len() == c@.len(),
            d == Seq::new(a@.len(), |k: int| a@[k].spec_minus(c@[k])),
            acc == mul_acc(S::spec_zero(), d, d, k as nat),
    {
        let diff = a[k].minus(c[k]);
        acc = acc.plus(diff.times(diff));
    }
    acc.sqrt()
}

/// One step. Returns the new state and the relaxed proposals.
fn admm_step<S: Scalar, G: SheafGeometry<S>>(
    state: &AdmmState<S>,
    enc: &EncoderOutput<S>,
    geometry: &G,
    x_solver: XSolverKind,
    z_params: &UnrolledCgParams<S>,
    rho: S,
    alpha: S,
) -> (r: (AdmmState<S>, Tensor3<S>))
    requires
        geometry.wf(),
        state@.has_shape(state.z@.n, state.z@.b, state.z@.d),
        geometry.admits(state.z@.n, state.z@.b, state.z@.d),
        problem_of(*enc, *geometry, x_solver, *z_params, rho, alpha).solvable(
            state.z@.n,
            state.z@.b,
            state.z@.d,
        ),
    ensures
        r.0@.has_shape(state.z@.n, state.z@.b, state.z@.d),
        r.1@.same_shape(state.z@),
        ({
            let problem = problem_of(*enc, *geometry, x_solver, *z_params, rho, alpha);
            r.0@ == problem.next(state@) && r.1@ == problem.relaxed(state@)
        }),
{
    let x = match x_solver {
        XSolverKind::DiagonalProx => diagonal_prox_solve(&state.z, &state.y, rho, &enc.objective),
        XSolverKind::Simple => match &enc.objective {
            Objective::Simple { beta } => simple_solve(&state.z, &state.y, rho, &enc.h, *beta),
            _ => state.z.clone(),
        },
    };
    let one = S::one();
    let x_relaxed = if alpha.same(one) {
        x.clone()
    } else {
        blend_of(alpha, &x, one.minus(alpha), &state.z)
    };
    let z_target = sum_of(&x_relaxed, &state.y);
    let z = unrolled_cg_solve(&z_target, &state.z, geometry, z_params, rho);
    let gap = diff_of(&x_relaxed, &z);
    let y = sum_of(&state.y, &gap);
    (AdmmState { x, z, y }, x_relaxed)
}

fn init_state<S: Scalar>(z_init: &Tensor3<S>) -> (r: AdmmState<S>)
    requires
        z_init.wf(),
    ensures
        r@ == initial(z_init@),
        r@.has_shape(z_init@.n, z_init@.b, z_init@.d),
{
    let (n, b, d) = z_init.dim();
    AdmmState { x: z_init.clone(), z: z_init.clone(), y: Tensor3::from_elem(n, b, d, S::zero()) }
}

/// Runs `params.k` steps. Returns the final state and the last `loss_window` proposals,
/// oldest first, with the window clamped to `k`.
pub fn run_admm<S: Scalar, G: SheafGeometry<S>>(
    enc: &EncoderOutput<S>,
    geometry: &G,
    x_solver: XSolverKind,
    z_params: &UnrolledCgParams<S>,
    params: &AdmmParams<S>,
    z_init: &Tensor3<S>,
    loss_window: usize,
) -> (r: (AdmmState<S>, Vec<Tensor3<S>>))
    requires
        params.gamma.spec_same(z_params.gamma),
        geometry.wf(),
        z_init.wf(),
        geometry.admits(z_init@.n, z_init@.b, z_init@.d),
        params.k > 0 ==> problem_of(*enc, *geometry, x_solver, *z_params, params.rho, params.alpha).solvable(
            z_init@.n,
            z_init@.b,
            z_init@.d,
        ),
    ensures
        r.0@.has_shape(z_init@.n, z_init@.b, z_init@.d),
        r.1@.len() == if loss_window < params.k {
            loss_window
        } else {
            params.k
        },
        ({
            let problem = problem_of(*enc, *geometry, x_solver, *z_params, params.rho, params.alpha);
            &&& r.0@ == problem.iterate(z_init@, params.k as nat)
            &&& forall|i: int|
                0 <= i < r.1@.len() ==> (#[trigger] r.1@[i])@ == problem.iterate(
                    z_init@,
                    (params.k - r.1@.len() + i + 1) as nat,
                ).x && r.1@[i]@.same_shape(z_init@)
        }),
        r.1@.len() > 0 ==> r.1@.last()@ == r.0@.x,
{
    let ghost problem = problem_of(*enc, *geometry, x_solver, *z_params, params.rho, params.alpha);
    let mut state = init_state(z_init);
    let window = if loss_window < params.k {
        loss_window
    } else {
        params.k
    };
    let n_pre = params.k - window;
    let mut x_window: Vec<Tensor3<S>> = Vec::new();
    let k = params.k;
    for i in 0..k
        invariant
            k == params.k,
            window <= k,
            n_pre == k - window,
            geometry.wf(),
            geometry.admits(z_init@.n, z_init@.b, z_init@.d),
            k > 0 ==> problem.solvable(z_init@.n, z_init@.b, z_init@.d),
            problem == problem_of(*enc, *geometry, x_solver, *z_params, params.rho, params.alpha),
            state@.has_shape(z_init@.n, z_init@.b, z_init@.d),
            state@ == problem.iterate(z_init@, i as nat),
            x_window@.len() == if i <= n_pre {
                0
            } else {
                i - n_pre
            },
            forall|j: int|
                0 <= j < x_window@.len() ==> (#[trigger] x_window@[j])@ == problem.iterate(
                    z_init@,
                    (n_pre + j + 1) as nat,
                ).x && x_window@[j]@.same_shape(z_init@),
    {
        let (new_state, _x_relaxed) = admm_step(
            &state,
            enc,
            geometry,
            x_solver,
            z_params,
            params.rho,
            params.alpha,
        );
        state = new_state;
        if i >= n_pre {
            x_window.push(state.x.clone());
        }
    }
    (state, x_window)
}

impl<S: Scalar> AdmmHistory<S> {
    /// The history records the first `t` steps of a problem from `z_init`.
    pub open spec fn records(&self, problem: Problem<S>, z_init: Arr3<S>, t: nat) -> bool {
        &&& self.x@.len() == t
        &&& self.z@.len() == t
        &&& self.y@.len() == t
        &&& self.primal_res@.len() == t
        &&& self.dual_res@.len() == t
        &&& self.consistency_rms@.len() == t
        &&& forall|i: int| 0 <= i < t ==> #[trigger] self.records_step(problem, z_init, i)
    }

    /// Entry `i` of the history is step `i + 1`: the state after it, the distance of
    /// the relaxed proposals from the consensus, the weighted move of the consensus,
    /// and the disagreement that is left.
    pub open spec fn records_step(&self, problem: Problem<S>, z_init: Arr3<S>, i: int) -> bool {
        let before = problem.iterate(z_init, i as nat);
        let after = problem.iterate(z_init, (i + 1) as nat);
        &&& self.x@[i]@ == after.x
        &&& self.z@[i]@ == after.z
        &&& self.y@[i]@ == after.y
        &&& after.has_shape(z_init.n, z_init.b, z_init.d)
        &&& self.primal_res@[i]@ == distances(problem.relaxed(before), after.z)
        &&& self.dual_res@[i]@ == weighted_distances(problem.rho, after.z, before.z)
        &&& self.consistency_rms@[i]@ == consistency_of(problem.ops.residuals_of(after.z))
    }
}

/// Runs `params.k` steps recording the whole trajectory.
pub fn run_admm_history<S: Scalar, G: SheafGeometry<S>>(
    enc: &EncoderOutput<S>,
    geometry: &G,
    x_solver: XSolverKind,
    z_params: &UnrolledCgParams<S>,
    params: &AdmmParams<S>,
    z_init: &Tensor3<S>,
) -> (r: (AdmmState<S>, AdmmHistory<S>))
    requires
        params.gamma.spec_same(z_params.gamma),
        geometry.wf(),
        z_init.wf(),
        geometry.admits(z_init@.n, z_init@.b, z_init@.d),
        params.k > 0 ==> problem_of(*enc, *geometry, x_solver, *z_params, params.rho, params.alpha).solvable(
            z_init@.n,
            z_init@.b,
            z_init@.d,
        ),
        geometry.edge_count() * geometry.edge_dim() <= usize::MAX,
    ensures
        r.0@.has_shape(z_init@.n, z_init@.b, z_init@.d),
        ({
            let problem = problem_of(*enc, *geometry, x_solver, *z_params, params.rho, params.alpha);
            &&& r.0@ == problem.iterate(z_init@, params.k as nat)
            &&& r.1.records(problem, z_init@, params.k as nat)
        }),
{
    let ghost problem = problem_of(*enc, *geometry, x_solver, *z_params, params.rho, params.alpha);
    let (n, b, _d) = z_init.dim();
    let mut state = init_state(z_init);
    let mut history = AdmmHistory {
        x: Vec::new(),
        z: Vec::new(),
        y: Vec::new(),
        primal_res: Vec::new(),
        dual_res: Vec::new(),
        consistency_rms: Vec::new(),
    };
    let k = params.k;
    let rho = params.rho;
    for ki in 0..k
        invariant
            n == z_init@.n,
            b == z_init@.b,
            k == params.k,
            rho == params.rho,
            geometry.wf(),
            geometry.admits(z_init@.n, z_init@.b, z_init@.d),
            k > 0 ==> problem.solvable(z_init@.n, z_init@.b, z_init@.d),
            geometry.edge_count() * geometry.edge_dim() <= usize::MAX,
            problem == problem_of(*enc, *geometry, x_solver, *z_params, params.rho, params.alpha),
            state@.has_shape(z_init@.n, z_init@.b, z_init@.d),
            state@ == problem.iterate(z_init@, ki as nat),
            history.records(problem, z_init@, ki as nat),
    {
        let ghost before = history;
        let (new_state, x_relaxed) = admm_step(&state, enc, geometry, x_solver, z_params, rho, params.alpha);
        let primal = Matrix::from_shape_fn(
            n,
            b,
            |i: usize, j: usize| -> (v: S)
                requires
                    x_relaxed@.same_shape(new_state.z@),
                    new_state.z.wf(),
                    i < new_state.z@.n,
                    j < new_state.z@.b,
                ensures
                    v == squared_distance(
                        x_relaxed@.data[i as int][j as int],
                        new_state.z@.data[i as int][j as int],
                    ).spec_sqrt()
                {
                    assert(x_relaxed@.data[i as int][j as int].len() == x_relaxed@.d);
                    assert(new_state.z@.data[i as int][j as int].len() == x_relaxed@.d);
                    row_distance(x_relaxed.row(i, j), new_state.z.row(i, j))
                },
        );
        let dual = Matrix::from_shape_fn(
            n,
            b,
            |i: usize, j: usize| -> (v: S)
                requires
                    state.z@.same_shape(new_state.z@),
                    new_state.z.wf(),
                    i < new_state.z@.n,
                    j < new_state.z@.b,
                ensures
                    v == rho.spec_times(
                        squared_distance(
                            new_state.z@.data[i as int][j as int],
                            state.z@.data[i as int][j as int],
                        ).spec_sqrt(),
                    )
                {
                    assert(state.z@.data[i as int][j as int].len() == state.z@.d);
                    assert(new_state.z@.data[i as int][j as int].len() == state.z@.d);
                    rho.times(row_distance(new_state.z.row(i, j), state.z.row(i, j)))
                },
        );
        assert(primal@ == distances(x_relaxed@, new_state.z@));
        assert(dual@ == weighted_distances(rho, new_state.z@, state.z@));
        let rms = geometry.consistency_rms(&new_state.z);
        state = new_state;
        history.x.push(state.x.clone());
        history.z.push(state.z.clone());
        history.y.push(state.y.clone());
        history.primal_res.push(primal);
        history.dual_res.push(dual);
        history.consistency_rms.push(rms);
        assert forall|i: int| 0 <= i < ki + 1 implies #[trigger] history.records_step(problem, z_init@, i) by {
            if i < ki {
                assert(before.records_step(problem, z_init@, i));
            }
        }
    }
    (state, history)
}

/// A history and a plain run of one problem agree: each recorded proposal is the one
/// that the plain run's window holds for that step, and the last record is the final
/// state.
pub proof fn history_matches_run<S: Scalar>(
    history: AdmmHistory<S>,
    window: Seq<Tensor3<S>>,
    state: AdmmState<S>,
    problem: Problem<S>,
    z_init: Arr3<S>,
    k: nat,
)
    requires
        history.records(problem, z_init, k),
        state@ == problem.iterate(z_init, k),
        window.len() <= k,
        forall|i: int|
            0 <= i < window.len() ==> (#[trigger] window[i])@ == problem.iterate(
                z_init,
                (k - window.len() + i + 1) as nat,
            ).x,
    ensures
        forall|i: int|
            0 <= i < window.len() ==> (#[trigger] window[i])@ == history.x@[k - window.len() + i]@,
        k > 0 ==> history.x@[k - 1]@ == state@.x && history.z@[k - 1]@ == state@.z && history.y@[k - 1]@
            == state@.y,
{
    assert forall|i: int| 0 <= i < window.len() implies (#[trigger] window[i])@ == history.x@[k
        - window.len() + i]@ by {
        assert(history.records_step(problem, z_init, k - window.len() + i));
    }
    if k > 0 {
        assert(history.records_step(problem, z_init, k - 1));
    }
}

/// A longer history of a problem begins as a shorter one: what an iteration leaves behind does
/// not depend on how many follow.
pub proof fn longer_history_extends<S: Scalar>(
    short: AdmmHistory<S>,
    long: AdmmHistory<S>,
    problem: Problem<S>,
    z_init: Arr3<S>,
    k: nat,
    longer: nat,
    i: int,
)
    requires
        short.records(problem, z_init, k),
        long.records(problem, z_init, longer),
        k <= longer,
        0 <= i < k,
    ensures
        short.x@[i]@ == long.x@[i]@,
        short.z@[i]@ == long.z@[i]@,
        short.y@[i]@ == long.y@[i]@,
        short.primal_res@[i]@ == long.primal_res@[i]@,
        short.dual_res@[i]@ == long.dual_res@[i]@,
        short.consistency_rms@[i]@ == long.consistency_rms@[i]@,
{
    assert(short.records_step(problem, z_init, i));
    assert(long.records_step(problem, z_init, i));
}

/// Without over-relaxation the recorded primal residual is the distance of the proposal
/// from the consensus, and the dual residual is `rho` times the distance of the
/// consensus from the one recorded before it (from the start, for the first record).
pub proof fn residuals_without_relaxation<S: Scalar>(
    history: AdmmHistory<S>,
    problem: Problem<S>,
    z_init: Arr3<S>,
    k: nat,
    i: int,
)
    requires
        history.records(problem, z_init, k),
        0 <= i < k,
        problem.alpha.spec_same(S::spec_one()),
    ensures
        history.primal_res@[i]@ == distances(history.x@[i]@, history.z@[i]@),
        history.dual_res@[i]@ == weighted_distances(
            problem.rho,
            history.z@[i]@,
            if i == 0 {
                z_init
            } else {
                history.z@[i - 1]@
            },
        ),
        history.consistency_rms@[i]@ == consistency_of(problem.ops.residuals_of(history.z@[i]@)),
{
    assert(history.records_step(problem, z_init, i));
    if i > 0 {
        assert(history.records_step(problem, z_init, i - 1));
    }
}

} // verus!
