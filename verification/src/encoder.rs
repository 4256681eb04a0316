//! Encoders. The maze encoder is a one-layer trunk with objective and modulation heads.
//!
//! Trunk: RMS norm, dense layer, GELU. The communication head (dense layer, layer norm)
//! yields `h`; the objective heads read the trunk features; the modulation heads read
//! the trunk features through a layer norm of their own.
//!
//! - `q_diag = softplus(q_diag_dense(feats)) + q_epsilon`
//! - `q = q_dense(feats)`
//! - `l1 = softplus(l1_weight_dense(feats))`
//! - `upper = softplus(upper_bound_dense(feats))`
use crate::geometry::{grid_build, FactorGrid};
use crate::layers::{
    gelu_forward_row, gelu_row, softplus, softplus_of, Dense, LayerNorm, MlpBlock, MlpMixerBlock, RmsNorm,
};
use crate::scalar::Scalar;
use crate::solvers::{EncoderOutput, LoraFactors, Objective, ObjectiveModel};
use crate::tensor::{Arr2, Arr3, Matrix, Tensor3};
use vstd::prelude::*;

verus! {

/// Weights of the maze encoder.
#[derive(Debug)]
pub struct MlpEncoderV2Params<S> {
    pub input_norm: RmsNorm<S>,
    pub dense: Dense<S>,
    pub comm_dense: Dense<S>,
    pub comm_norm: LayerNorm<S>,
    pub q_diag_dense: Dense<S>,
    pub q_dense: Dense<S>,
    pub l1_weight_dense: Dense<S>,
    pub upper_bound_dense: Dense<S>,
    pub lora_pre_ln: LayerNorm<S>,
    /// `[hidden, K * d_e * r]`.
    pub lora_a_dense: Dense<S>,
    /// `[hidden, K * d_v * r]`.
    pub lora_b_dense: Dense<S>,
}

/// What the encoder needs at run time.
#[derive(Debug, Clone, Copy)]
pub struct MlpEncoderV2Config<S> {
    pub d_v: usize,
    pub d_e: usize,
    pub num_directions: usize,
    pub lora_rank: usize,
    pub lora_alpha: S,
    pub q_epsilon: S,
}

#[derive(Debug)]
pub struct MlpEncoderV2<S> {
    pub params: MlpEncoderV2Params<S>,
    pub config: MlpEncoderV2Config<S>,
}

/// Weights of the mnist encoder.
#[derive(Debug)]
pub struct MlpEncoderParams<S> {
    pub input_proj: Dense<S>,
    pub blocks: Vec<MlpBlock<S>>,
    pub comm_dense: Dense<S>,
    pub comm_norm: LayerNorm<S>,
    pub q_diag_dense: Dense<S>,
    pub q_dense: Dense<S>,
    pub lora_pre_ln: LayerNorm<S>,
    pub lora_a_dense: Dense<S>,
    pub lora_b_dense: Dense<S>,
}

/// What the mnist encoder needs at run time.
#[derive(Debug, Clone, Copy)]
pub struct MlpEncoderConfig<S> {
    pub d_v: usize,
    pub d_e: usize,
    pub num_directions: usize,
    pub lora_rank: usize,
    pub lora_alpha: S,
    pub q_epsilon: S,
    pub l1_weight: S,
}

#[derive(Debug)]
pub struct MlpEncoder<S> {
    pub params: MlpEncoderParams<S>,
    pub config: MlpEncoderConfig<S>,
}

/// Modulation heads of the sudoku encoder.
#[derive(Debug)]
pub struct SudokuLoraHeads<S> {
    pub lora_pre_norm: RmsNorm<S>,
    pub lora_a_dense: Dense<S>,
    pub lora_b_dense: Dense<S>,
}

/// Weights of the sudoku encoder.
#[derive(Debug)]
pub struct SudokuEncoderParams<S> {
    pub token_embed: Dense<S>,
    /// `[81, d_model]`.
    pub global_pos_embed: Matrix<S>,
    /// `[9, d_model]`.
    pub pos_embed: Matrix<S>,
    pub mixer_blocks: Vec<MlpMixerBlock<S>>,
    pub pre_flat_norm: RmsNorm<S>,
    pub cell_proj: Dense<S>,
    pub cell_norm: RmsNorm<S>,
    pub comm_dense: Dense<S>,
    pub comm_norm: LayerNorm<S>,
    pub q_diag_dense: Dense<S>,
    pub q_dense: Dense<S>,
    /// Present where the maps are modulated.
    pub lora: Option<SudokuLoraHeads<S>>,
}

/// What the sudoku encoder needs at run time.
#[derive(Debug, Clone, Copy)]
pub struct SudokuEncoderConfig<S> {
    pub d_v: usize,
    pub d_e: usize,
    pub d_model: usize,
    pub num_slots: usize,
    pub lora_rank: usize,
    pub lora_alpha: S,
    pub q_epsilon: S,
}

#[derive(Debug)]
pub struct SudokuEncoder<S> {
    pub params: SudokuEncoderParams<S>,
    pub config: SudokuEncoderConfig<S>,
}

/// The `[rows, rank]` matrix of slot `k` in a row that holds one such matrix for each
/// slot, row-major.
pub open spec fn slot_factor<S>(row: Seq<S>, k: int, rows: nat, rank: nat) -> Arr2<S> {
    Arr2::build(rows, rank, |p: int, q: int| row[(k * rows + p) * rank + q])
}

/// Member `(k, p, q)` of a `[slots, rows, rank]` array lies within its flat row.
pub proof fn slot_index_fits(slots: int, rows: int, rank: int, k: int, p: int, q: int)
    requires
        0 <= k < slots,
        0 <= p < rows,
        0 <= q < rank,
    ensures
        0 <= k * rows,
        k * rows + p < slots * rows,
        0 <= (k * rows + p) * rank,
        (k * rows + p) * rank + q < slots * rows * rank,
{
    assert(0 <= k * rows && k * rows + p < slots * rows) by (nonlinear_arith)
        requires
            0 <= k < slots,
            0 <= p < rows,
    ;
    let m = k * rows + p;
    let n = slots * rows;
    assert(0 <= m * rank && m * rank + q < n * rank) by (nonlinear_arith)
        requires
            0 <= m < n,
            0 <= q < rank,
    ;
}

/// Rows of a dense layer over the rows of an array.
pub open spec fn dense_rows_of<S: Scalar>(layer: Dense<S>, x: Arr3<S>) -> Arr3<S> {
    Arr3::from_rows(x.n, x.b, layer.kernel@.cols, |i: int, j: int| layer.row_of(x.data[i][j]))
}

/// A dense layer over the rows of an array: one set of weights for all agents.
pub fn dense_rows<S: Scalar>(layer: &Dense<S>, x: &Tensor3<S>) -> (r: Tensor3<S>)
    requires
        layer.wf(),
        x.wf(),
        x@.d == layer.kernel@.rows,
    ensures
        r.wf(),
        r@ == dense_rows_of(*layer, x@),
{
    let (n, b, _d) = x.dim();
    Tensor3::from_rows_fn(
        n,
        b,
        layer.kernel.ncols(),
        |i: usize, j: usize| -> (v: Vec<S>)
            requires
                layer.wf(),
                x.wf(),
                x@.d == layer.kernel@.rows,
                i < x@.n,
                j < x@.b,
            ensures
                v@ == layer.row_of(x@.data[i as int][j as int])
            {
                assert(x@.data[i as int][j as int].len() == x@.d);
                layer.forward_row(x.row(i, j))
            },
    )
}

/// Layer norm over the rows of an array.
pub open spec fn layer_norm_rows_of<S: Scalar>(layer: LayerNorm<S>, x: Arr3<S>) -> Arr3<S> {
    Arr3::from_rows(x.n, x.b, x.d, |i: int, j: int| layer.row_of(x.data[i][j]))
}

pub fn layer_norm_rows<S: Scalar>(layer: &LayerNorm<S>, x: &Tensor3<S>) -> (r: Tensor3<S>)
    requires
        x.wf(),
        layer.maps(x@.d),
    ensures
        r.wf(),
        r@ == layer_norm_rows_of(*layer, x@),
{
    let (n, b, d) = x.dim();
    Tensor3::from_rows_fn(
        n,
        b,
        d,
        |i: usize, j: usize| -> (v: Vec<S>)
            requires
                x.wf(),
                layer.maps(x@.d),
                i < x@.n,
                j < x@.b,
            ensures
                v@ == layer.row_of(x@.data[i as int][j as int]),
                v@.len() == x@.d
            {
                assert(x@.data[i as int][j as int].len() == x@.d);
                layer.forward_row(x.row(i, j))
            },
    )
}

/// Softplus, member by member.
pub open spec fn softplus3<S: Scalar>(x: Arr3<S>) -> Arr3<S> {
    Arr3::build(x.n, x.b, x.d, |i: int, j: int, k: int| softplus_of(x.at(i, j, k)))
}

/// Softplus plus a floor, member by member.
pub open spec fn floored_softplus3<S: Scalar>(x: Arr3<S>, floor: S) -> Arr3<S> {
    Arr3::build(x.n, x.b, x.d, |i: int, j: int, k: int| softplus_of(x.at(i, j, k)).spec_plus(floor))
}

/// Softplus of an array.
pub fn softplus_all<S: Scalar>(x: &Tensor3<S>) -> (r: Tensor3<S>)
    requires
        x.wf(),
    ensures
        r.wf(),
        r@ == softplus3(x@),
{
    let (n, b, d) = x.dim();
    Tensor3::from_shape_fn(
        n,
        b,
        d,
        |i: usize, j: usize, k: usize| -> (v: S)
            requires
                x.wf(),
                i < x@.n,
                j < x@.b,
                k < x@.d,
            ensures
                v == softplus_of(x@.at(i as int, j as int, k as int))
            { softplus(x.get(i, j, k)) },
    )
}

/// Softplus of an array plus a floor.
pub fn floored_softplus<S: Scalar>(x: &Tensor3<S>, floor: S) -> (r: Tensor3<S>)
    requires
        x.wf(),
    ensures
        r.wf(),
        r@ == floored_softplus3(x@, floor),
{
    let (n, b, d) = x.dim();
    Tensor3::from_shape_fn(
        n,
        b,
        d,
        |i: usize, j: usize, k: usize| -> (v: S)
            requires
                x.wf(),
                i < x@.n,
                j < x@.b,
                k < x@.d,
            ensures
                v == softplus_of(x@.at(i as int, j as int, k as int)).spec_plus(floor)
            { softplus(x.get(i, j, k)).plus(floor) },
    )
}

/// The matrices of slot `k`, for each agent and batch element.
pub open spec fn slot_grid<S>(rows: Arr3<S>, k: int, height: nat, rank: nat) -> Seq<Seq<Arr2<S>>> {
    grid_build(rows.n, rows.b, |i: int, j: int| slot_factor(rows.data[i][j], k, height, rank))
}

/// Splits flat rows into one grid of matrices for each slot.
pub fn split_slots<S: Scalar>(rows: &Tensor3<S>, slots: usize, height: usize, rank: usize) -> (r: Vec<
    FactorGrid<S>,
>)
    requires
        rows.wf(),
        rows@.d == slots * height * rank,
    ensures
        r@.len() == slots,
        forall|k: int|
            0 <= k < slots ==> (#[trigger] r@[k]).has_shape(rows@.n, rows@.b, height as nat, rank as nat)
                && r@[k]@ == slot_grid(rows@, k, height as nat, rank as nat),
{
    let (n, b, width) = rows.dim();
    let mut out: Vec<FactorGrid<S>> = Vec::new();
    for k in 0..slots
        invariant
            n == rows@.n,
            b == rows@.b,
            rows.wf(),
            rows@.d == slots * height * rank,
            rows@.d == width,
            out@.len() == k,
            forall|x: int|
                0 <= x < k ==> (#[trigger] out@[x]).has_shape(rows@.n, rows@.b, height as nat, rank as nat)
                    && out@[x]@ == slot_grid(rows@, x, height as nat, rank as nat),
    {
        let grid = FactorGrid::from_shape_fn(
            n,
            b,
            height,
            rank,
            |i: usize, j: usize| -> (m: Matrix<S>)
                requires
                    k < slots,
                    rows.wf(),
                    rows@.d == slots * height * rank,
                    rows@.d == width,
                    i < rows@.n,
                    j < rows@.b,
                ensures
                    m@ == slot_factor(rows@.data[i as int][j as int], k as int, height as nat, rank as nat),
                    m@.has_shape(height as nat, rank as nat)
                {
                    Matrix::from_shape_fn(
                        height,
                        rank,
                        |p: usize, q: usize| -> (v: S)
                            requires
                                k < slots,
                                rows.wf(),
                                rows@.d == slots * height * rank,
                                rows@.d == width,
                                i < rows@.n,
                                j < rows@.b,
                                p < height,
                                q < rank,
                            ensures
                                v == rows@.data[i as int][j as int][(k * height + p) * rank + q]
                            {
                                proof {
                                    slot_index_fits(
                                        slots as int,
                                        height as int,
                                        rank as int,
                                        k as int,
                                        p as int,
                                        q as int,
                                    );
                                    assert(k * height + p <= (k * height + p) * rank) by (nonlinear_arith)
                                        requires
                                            0 <= k * height + p,
                                            0 < rank,
                                    ;
                                }
                                rows.get(i, j, (k * height + p) * rank + q)
                            },
                    )
                },
        );
        assert(grid@ == slot_grid(rows@, k as int, height as nat, rank as nat));
        out.push(grid);
    }
    out
}

impl<S: Scalar> MlpEncoderV2<S> {
    /// Width of the patches it reads.
    pub open spec fn in_feats(&self) -> nat {
        self.params.input_norm.scale@.len()
    }

    /// The layers fit each other and the configuration.
    pub open spec fn wf(&self) -> bool {
        let p = &self.params;
        let c = &self.config;
        let hidden = p.dense.kernel@.cols;
        let d_v = c.d_v as nat;
        &&& p.dense.maps(self.in_feats(), hidden)
        &&& p.comm_dense.maps(hidden, d_v)
        &&& p.comm_norm.maps(d_v)
        &&& p.q_diag_dense.maps(hidden, d_v)
        &&& p.q_dense.maps(hidden, d_v)
        &&& p.l1_weight_dense.maps(hidden, d_v)
        &&& p.upper_bound_dense.maps(hidden, d_v)
        &&& p.lora_pre_ln.maps(hidden)
        &&& p.lora_a_dense.maps(hidden, (c.num_directions * c.d_e * c.lora_rank) as nat)
        &&& p.lora_b_dense.maps(hidden, (c.num_directions * c.d_v * c.lora_rank) as nat)
    }

    /// Trunk features of one patch.
    pub open spec fn trunk_row(&self, x: Seq<S>) -> Seq<S> {
        gelu_row(self.params.dense.row_of(self.params.input_norm.row_of(x)))
    }

    /// Trunk features of every patch.
    pub open spec fn trunk_of(&self, patches: Arr3<S>) -> Arr3<S> {
        Arr3::from_rows(
            patches.n,
            patches.b,
            self.params.dense.kernel@.cols,
            |i: int, j: int| self.trunk_row(patches.data[i][j]),
        )
    }

    /// The consensus seed.
    pub open spec fn h_of(&self, patches: Arr3<S>) -> Arr3<S> {
        layer_norm_rows_of(
            self.params.comm_norm,
            dense_rows_of(self.params.comm_dense, self.trunk_of(patches)),
        )
    }

    /// The local objective.
    pub open spec fn objective_of(&self, patches: Arr3<S>) -> ObjectiveModel<S> {
        let feats = self.trunk_of(patches);
        ObjectiveModel::L1Box {
            q_diag: floored_softplus3(
                dense_rows_of(self.params.q_diag_dense, feats),
                self.config.q_epsilon,
            ),
            q: dense_rows_of(self.params.q_dense, feats),
            l1: softplus3(dense_rows_of(self.params.l1_weight_dense, feats)),
            upper: softplus3(dense_rows_of(self.params.upper_bound_dense, feats)),
        }
    }

    /// The flat A factors of every patch.
    pub open spec fn a_rows(&self, patches: Arr3<S>) -> Arr3<S> {
        dense_rows_of(
            self.params.lora_a_dense,
            layer_norm_rows_of(self.params.lora_pre_ln, self.trunk_of(patches)),
        )
    }

    /// The flat B factors of every patch.
    pub open spec fn b_rows(&self, patches: Arr3<S>) -> Arr3<S> {
        dense_rows_of(
            self.params.lora_b_dense,
            layer_norm_rows_of(self.params.lora_pre_ln, self.trunk_of(patches)),
        )
    }

    /// These are the factors of the patches: for each slot the matrices cut from the
    /// flat rows, no gates, and the configured weight.
    pub open spec fn factors_match(&self, patches: Arr3<S>, lora: LoraFactors<S>) -> bool {
        let c = &self.config;
        &&& lora.gate is None
        &&& lora.lora_alpha == c.lora_alpha
        &&& lora.a@.len() == c.num_directions
        &&& lora.b@.len() == c.num_directions
        &&& forall|k: int|
            0 <= k < c.num_directions ==> (#[trigger] lora.a@[k]).has_shape(
                patches.n,
                patches.b,
                c.d_e as nat,
                c.lora_rank as nat,
            ) && lora.a@[k]@ == slot_grid(self.a_rows(patches), k, c.d_e as nat, c.lora_rank as nat)
        &&& forall|k: int|
            0 <= k < c.num_directions ==> (#[trigger] lora.b@[k]).has_shape(
                patches.n,
                patches.b,
                c.d_v as nat,
                c.lora_rank as nat,
            ) && lora.b@[k]@ == slot_grid(self.b_rows(patches), k, c.d_v as nat, c.lora_rank as nat)
    }

    /// Encodes patches `[N, B, ph * pw * C]`. The encoder is shared: every agent and
    /// batch element goes through the same weights.
    pub fn forward(&self, patches: &Tensor3<S>) -> (r: EncoderOutput<S>)
        requires
            self.wf(),
            patches.wf(),
            patches@.d == self.in_feats(),
        ensures
            r.h@ == self.h_of(patches@),
            r.h@.has_shape(patches@.n, patches@.b, self.config.d_v as nat),
            r.objective@ == self.objective_of(patches@),
            r.objective@.diagonal_fits(patches@.n, patches@.b, self.config.d_v as nat),
            r.lora matches Some(lora) && self.factors_match(patches@, lora),
    {
        let (n, b, _d) = patches.dim();
        let p = &self.params;
        let c = &self.config;
        let feats = Tensor3::from_rows_fn(
            n,
            b,
            p.dense.kernel.ncols(),
            |i: usize, j: usize| -> (v: Vec<S>)
                requires
                    self.wf(),
                    patches.wf(),
                    patches@.d == self.in_feats(),
                    i < patches@.n,
                    j < patches@.b,
                ensures
                    v@ == self.trunk_row(patches@.data[i as int][j as int]),
                    v@.len() == self.params.dense.kernel@.cols
                {
                    assert(patches@.data[i as int][j as int].len() == patches@.d);
                    let normed = self.params.input_norm.forward_row(patches.row(i, j));
                    let hidden = self.params.dense.forward_row(normed.as_slice());
                    gelu_forward_row(hidden.as_slice())
                },
        );
        assert(feats@ == self.trunk_of(patches@));
        let comm = dense_rows(&p.comm_dense, &feats);
        let h = layer_norm_rows(&p.comm_norm, &comm);
        let q_diag = floored_softplus(&dense_rows(&p.q_diag_dense, &feats), c.q_epsilon);
        let q = dense_rows(&p.q_dense, &feats);
        let l1 = softplus_all(&dense_rows(&p.l1_weight_dense, &feats));
        let upper = softplus_all(&dense_rows(&p.upper_bound_dense, &feats));
        let feats_ln = layer_norm_rows(&p.lora_pre_ln, &feats);
        let a_rows = dense_rows(&p.lora_a_dense, &feats_ln);
        let b_rows = dense_rows(&p.lora_b_dense, &feats_ln);
        let a = split_slots(&a_rows, c.num_directions, c.d_e, c.lora_rank);
        let b_factors = split_slots(&b_rows, c.num_directions, c.d_v, c.lora_rank);
        EncoderOutput {
            h,
            objective: Objective::L1Box { q_diag, q, l1, upper },
            lora: Some(LoraFactors { a, b: b_factors, gate: None, lora_alpha: c.lora_alpha }),
        }
    }
}

} // verus!
