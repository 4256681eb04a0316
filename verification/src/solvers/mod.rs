//! Local (x) and consensus (z) solvers.
use crate::geometry::FactorGrid;
use crate::scalar::Scalar;
use crate::tensor::{Arr3, Tensor3};
use vstd::prelude::*;

mod x_diag_prox;
mod x_simple;
mod z_cg;

pub use x_diag_prox::{
    diagonal_prox_solve, prox_at, prox_of, soft_threshold, spec_sign, spec_soft_threshold,
};
pub use x_simple::{simple_of, simple_solve};
pub use z_cg::{
    batched_cg, cg_epsilon, cg_initial, cg_iterate, cg_next, consensus_of, ratios, system_apply,
    system_of, unrolled_cg_solve, CgState, UnrolledCgParams, ZMode,
};

verus! {

/// Parameters of the local objective that the encoder sets, one variant for each kind.
///
/// Every `q_diag` already holds the encoder head's positive floor. The lower bound is
/// 0 for `NonNeg` and `L1Box`.
#[allow(inconsistent_fields)]
pub enum Objective<S> {
    /// `x = (beta h + rho (z - y)) / (beta + rho)`.
    Simple { beta: S },
    Quadratic { q_diag: Tensor3<S>, q: Tensor3<S> },
    /// One l1 weight for all dimensions.
    Lasso { q_diag: Tensor3<S>, q: Tensor3<S>, l1: S },
    /// Lower bound 0, no upper bound.
    NonNeg { q_diag: Tensor3<S>, q: Tensor3<S> },
    /// Per-dimension l1 weight and upper bound, lower bound 0.
    L1Box { q_diag: Tensor3<S>, q: Tensor3<S>, l1: Tensor3<S>, upper: Tensor3<S> },
}

/// Per-node low-rank factors: for each of K slots, `[N, B]` matrices, `[d_e, r]` in `a`
/// and `[d_v, r]` in `b`; gates are `[N, B, K]`.
pub struct LoraFactors<S> {
    pub a: Vec<FactorGrid<S>>,
    pub b: Vec<FactorGrid<S>>,
    pub gate: Option<Tensor3<S>>,
    pub lora_alpha: S,
}

/// Everything that the coordination loop consumes from the encoder.
pub struct EncoderOutput<S> {
    /// Consensus seed and tether, `[N, B, d_v]`.
    pub h: Tensor3<S>,
    pub objective: Objective<S>,
    pub lora: Option<LoraFactors<S>>,
}

/// The contents of an objective.
#[allow(inconsistent_fields)]
pub ghost enum ObjectiveModel<S> {
    Simple { beta: S },
    Quadratic { q_diag: Arr3<S>, q: Arr3<S> },
    Lasso { q_diag: Arr3<S>, q: Arr3<S>, l1: S },
    NonNeg { q_diag: Arr3<S>, q: Arr3<S> },
    L1Box { q_diag: Arr3<S>, q: Arr3<S>, l1: Arr3<S>, upper: Arr3<S> },
}

impl<S: Scalar> View for Objective<S> {
    type V = ObjectiveModel<S>;

    open spec fn view(&self) -> ObjectiveModel<S> {
        match self {
            Objective::Simple { beta } => ObjectiveModel::Simple { beta: *beta },
            Objective::Quadratic { q_diag, q } => ObjectiveModel::Quadratic { q_diag: q_diag@, q: q@ },
            Objective::Lasso { q_diag, q, l1 } => ObjectiveModel::Lasso { q_diag: q_diag@, q: q@, l1: *l1 },
            Objective::NonNeg { q_diag, q } => ObjectiveModel::NonNeg { q_diag: q_diag@, q: q@ },
            Objective::L1Box { q_diag, q, l1, upper } => ObjectiveModel::L1Box {
                q_diag: q_diag@,
                q: q@,
                l1: l1@,
                upper: upper@,
            },
        }
    }
}

impl<S: Scalar> ObjectiveModel<S> {
    /// The objective is diagonal, and its arrays have this shape.
    pub open spec fn diagonal_fits(self, n: nat, b: nat, d: nat) -> bool {
        match self {
            ObjectiveModel::Simple { .. } => false,
            ObjectiveModel::Quadratic { q_diag, q } => q_diag.has_shape(n, b, d) && q.has_shape(n, b, d),
            ObjectiveModel::Lasso { q_diag, q, .. } => q_diag.has_shape(n, b, d) && q.has_shape(n, b, d),
            ObjectiveModel::NonNeg { q_diag, q } => q_diag.has_shape(n, b, d) && q.has_shape(n, b, d),
            ObjectiveModel::L1Box { q_diag, q, l1, upper } => {
                &&& q_diag.has_shape(n, b, d)
                &&& q.has_shape(n, b, d)
                &&& l1.has_shape(n, b, d)
                &&& upper.has_shape(n, b, d)
            },
        }
    }
}

} // verus!
