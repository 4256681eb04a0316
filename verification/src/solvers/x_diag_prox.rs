//! Closed-form diagonal proximal x-update.
//!
//! ```text
//! v = z - y
//! a = D + rho
//! t = (rho * v - q) / a
//! x = clip(soft_threshold(t, l1 / a), lo, hi)
//! ```
//! The clip comes after the soft threshold.
use super::{Objective, ObjectiveModel};
use crate::scalar::Scalar;
use crate::tensor::{Arr3, Tensor3};
use vstd::prelude::*;

verus! {

/// 1, -1 or 0 by the side of zero on which `x` lies; 0 where it lies on neither.
pub open spec fn spec_sign<S: Scalar>(x: S) -> S {
    if S::spec_zero().spec_less(x) {
        S::spec_one()
    } else if x.spec_less(S::spec_zero()) {
        S::spec_one().spec_negate()
    } else {
        S::spec_zero()
    }
}

/// `sign(x) * max(|x| - threshold, 0)`.
pub open spec fn spec_soft_threshold<S: Scalar>(x: S, threshold: S) -> S {
    spec_sign(x).spec_times(x.spec_abs().spec_minus(threshold).spec_max(S::spec_zero()))
}

/// `soft_threshold(x, th) = sign(x) * max(|x| - th, 0)`, where the sign of zero is zero.
pub fn soft_threshold<S: Scalar>(x: S, threshold: S) -> (r: S)
    ensures
        r == spec_soft_threshold(x, threshold),
{
    let zero = S::zero();
    let sign = if zero.less(x) {
        S::one()
    } else if x.less(zero) {
        S::one().negate()
    } else {
        zero
    };
    sign.times(x.abs().minus(threshold).max(zero))
}

impl<S: Scalar> ObjectiveModel<S> {
    /// Curvature D.
    pub open spec fn curvature(self) -> Arr3<S> {
        match self {
            ObjectiveModel::Simple { .. } => arbitrary(),
            ObjectiveModel::Quadratic { q_diag, .. } => q_diag,
            ObjectiveModel::Lasso { q_diag, .. } => q_diag,
            ObjectiveModel::NonNeg { q_diag, .. } => q_diag,
            ObjectiveModel::L1Box { q_diag, .. } => q_diag,
        }
    }

    /// Linear term q.
    pub open spec fn linear(self) -> Arr3<S> {
        match self {
            ObjectiveModel::Simple { .. } => arbitrary(),
            ObjectiveModel::Quadratic { q, .. } => q,
            ObjectiveModel::Lasso { q, .. } => q,
            ObjectiveModel::NonNeg { q, .. } => q,
            ObjectiveModel::L1Box { q, .. } => q,
        }
    }

    /// The l1 weight at one member; zero where the objective has none.
    pub open spec fn l1_at(self, i: int, j: int, k: int) -> S {
        match self {
            ObjectiveModel::Lasso { l1, .. } => l1,
            ObjectiveModel::L1Box { l1, .. } => l1.at(i, j, k),
            _ => S::spec_zero(),
        }
    }

    /// The lower bound.
    pub open spec fn lower(self) -> S {
        match self {
            ObjectiveModel::NonNeg { .. } => S::spec_zero(),
            ObjectiveModel::L1Box { .. } => S::spec_zero(),
            _ => S::spec_neg_infinity(),
        }
    }

    /// The upper bound at one member.
    pub open spec fn upper_at(self, i: int, j: int, k: int) -> S {
        match self {
            ObjectiveModel::L1Box { upper, .. } => upper.at(i, j, k),
            _ => S::spec_infinity(),
        }
    }
}

/// The minimizer at one member, for target `v`.
pub open spec fn prox_at<S: Scalar>(v: S, rho: S, objective: ObjectiveModel<S>, i: int, j: int, k: int) -> S {
    let a = objective.curvature().at(i, j, k).spec_plus(rho);
    let t = rho.spec_times(v).spec_minus(objective.linear().at(i, j, k)).spec_over(a);
    spec_soft_threshold(t, objective.l1_at(i, j, k).spec_over(a)).spec_max(objective.lower()).spec_min(
        objective.upper_at(i, j, k),
    )
}

/// The minimizer at `v = z - y`.
pub open spec fn prox_of<S: Scalar>(z: Arr3<S>, y: Arr3<S>, rho: S, objective: ObjectiveModel<S>) -> Arr3<S> {
    Arr3::build(
        z.n,
        z.b,
        z.d,
        |i: int, j: int, k: int|
            prox_at(z.at(i, j, k).spec_minus(y.at(i, j, k)), rho, objective, i, j, k),
    )
}

/// Solves the diagonal-prox x-update at `v = z - y`. The tethered objective has its own
/// solver.
pub fn diagonal_prox_solve<S: Scalar>(
    z: &Tensor3<S>,
    y: &Tensor3<S>,
    rho: S,
    objective: &Objective<S>,
) -> (x: Tensor3<S>)
    requires
        z.wf(),
        y@.same_shape(z@),
        objective@.diagonal_fits(z@.n, z@.b, z@.d),
    ensures
        x.wf(),
        x@ == prox_of(z@, y@, rho, objective@),
{
    let zero = S::zero();
    let (n, b, d) = z.dim();
    Tensor3::from_shape_fn(
        n,
        b,
        d,
        |i: usize, j: usize, k: usize| -> (x: S)
            requires
                z.wf(),
                y@.same_shape(z@),
                objective@.diagonal_fits(z@.n, z@.b, z@.d),
                i < z@.n,
                j < z@.b,
                k < z@.d,
            ensures
                x == prox_at(
                    z@.at(i as int, j as int, k as int).spec_minus(y@.at(i as int, j as int, k as int)),
                    rho,
                    objective@,
                    i as int,
                    j as int,
                    k as int,
                )
            {
                let (curvature, linear) = match objective {
                    Objective::Simple { .. } => (zero, zero),
                    Objective::Quadratic { q_diag, q } => (q_diag.get(i, j, k), q.get(i, j, k)),
                    Objective::Lasso { q_diag, q, .. } => (q_diag.get(i, j, k), q.get(i, j, k)),
                    Objective::NonNeg { q_diag, q } => (q_diag.get(i, j, k), q.get(i, j, k)),
                    Objective::L1Box { q_diag, q, .. } => (q_diag.get(i, j, k), q.get(i, j, k)),
                };
                let (l1, lower, upper) = match objective {
                    Objective::Lasso { l1, .. } => (*l1, S::neg_infinity(), S::infinity()),
                    Objective::NonNeg { .. } => (zero, zero, S::infinity()),
                    Objective::L1Box { l1, upper, .. } => (l1.get(i, j, k), zero, upper.get(i, j, k)),
                    _ => (zero, S::neg_infinity(), S::infinity()),
                };
                let v = z.get(i, j, k).minus(y.get(i, j, k));
                let a = curvature.plus(rho);
                let t = rho.times(v).minus(linear).over(a);
                soft_threshold(t, l1.over(a)).max(lower).min(upper)
            },
    )
}

} // verus!
