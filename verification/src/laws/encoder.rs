//! What the encoder is for: every head is read off its own weights and the shared hidden
//! features, every agent is treated alike and on its own, and the hidden features act through
//! their activation alone.
use super::layers::{
    alike, alike_but_for, dense_alike, dense_of_zeros_is_bias, hidden_input, kernel_is_zero,
    norm_alike, norm_keeps_zeros, norm_without_scale_is_bias, norms_alike, row_is_zero, scale_alike,
    scales_alike, silenced, silenced_numbers_vanish, zero_divides, zero_input_has_no_say,
};
use super::ring::exact;
use crate::encoder::{slot_grid, MlpEncoderV2};
use crate::layers::{softplus_of, Dense, RmsNorm};
use crate::scalar::Scalar;
use crate::solvers::ObjectiveModel;
use crate::tensor::Arr3;
use vstd::prelude::*;

verus! {

/// Member `(i, j, k)` of each part of an objective with boxes.
pub open spec fn box_at<S: Scalar>(o: ObjectiveModel<S>, i: int, j: int, k: int) -> (S, S, S, S) {
    match o {
        ObjectiveModel::L1Box { q_diag, q, l1, upper } => (
            q_diag.at(i, j, k),
            q.at(i, j, k),
            l1.at(i, j, k),
            upper.at(i, j, k),
        ),
        _ => arbitrary(),
    }
}

/// Two encoders read patches into the same hidden features.
pub open spec fn trunks_alike<S: Scalar>(a: MlpEncoderV2<S>, b: MlpEncoderV2<S>) -> bool {
    scales_alike(a.params.input_norm, b.params.input_norm) && alike(a.params.dense, b.params.dense)
}

proof fn trunk_alike<S: Scalar>(a: MlpEncoderV2<S>, b: MlpEncoderV2<S>, row: Seq<S>)
    requires
        trunks_alike(a, b),
    ensures
        a.trunk_row(row) == b.trunk_row(row),
{
    scale_alike(a.params.input_norm, b.params.input_norm, row);
    dense_alike(a.params.dense, b.params.dense, a.params.input_norm.row_of(row));
}

/// Every head is read off its own weights and the shared hidden features: encoders that agree on
/// these give the same result of that head, whatever the weights of the other heads are. And
/// every agent and batch element goes through the same weights on its own: the results for one
/// patch are those for the same patch anywhere else.
pub proof fn heads_read_their_own_weights<S: Scalar>(
    a: MlpEncoderV2<S>,
    b: MlpEncoderV2<S>,
    pa: Arr3<S>,
    pb: Arr3<S>,
    i: int,
    j: int,
    u: int,
    w: int,
    k: int,
)
    requires
        a.wf(),
        b.wf(),
        trunks_alike(a, b),
        pa.has_shape(pa.n, pa.b, a.in_feats()),
        pb.has_shape(pb.n, pb.b, a.in_feats()),
        0 <= i < pa.n,
        0 <= j < pa.b,
        0 <= u < pb.n,
        0 <= w < pb.b,
        pa.data[i][j] == pb.data[u][w],
        0 <= k < a.config.d_v,
        a.config.d_v == b.config.d_v,
    ensures
        a.objective_of(pa) is L1Box,
        ({
            let (p, q) = (a.params, b.params);
            let (oa, ob) = (box_at(a.objective_of(pa), i, j, k), box_at(b.objective_of(pb), u, w, k));
            &&& alike(p.q_diag_dense, q.q_diag_dense) && a.config.q_epsilon == b.config.q_epsilon ==> oa.0
                == ob.0
            &&& alike(p.q_dense, q.q_dense) ==> oa.1 == ob.1
            &&& alike(p.l1_weight_dense, q.l1_weight_dense) ==> oa.2 == ob.2
            &&& alike(p.upper_bound_dense, q.upper_bound_dense) ==> oa.3 == ob.3
            &&& alike(p.comm_dense, q.comm_dense) && norms_alike(p.comm_norm, q.comm_norm) ==> a.h_of(
                pa,
            ).data[i][j] == b.h_of(pb).data[u][w]
            &&& alike(p.lora_a_dense, q.lora_a_dense) && norms_alike(p.lora_pre_ln, q.lora_pre_ln)
                ==> a.a_rows(pa).data[i][j] == b.a_rows(pb).data[u][w]
            &&& alike(p.lora_b_dense, q.lora_b_dense) && norms_alike(p.lora_pre_ln, q.lora_pre_ln)
                ==> a.b_rows(pa).data[i][j] == b.b_rows(pb).data[u][w]
        }),
{
    let row = pa.data[i][j];
    trunk_alike(a, b, row);
    let feats = a.trunk_row(row);
    let (p, q) = (a.params, b.params);
    if alike(p.q_diag_dense, q.q_diag_dense) {
        dense_alike(p.q_diag_dense, q.q_diag_dense, feats);
    }
    if alike(p.q_dense, q.q_dense) {
        dense_alike(p.q_dense, q.q_dense, feats);
    }
    if alike(p.l1_weight_dense, q.l1_weight_dense) {
        dense_alike(p.l1_weight_dense, q.l1_weight_dense, feats);
    }
    if alike(p.upper_bound_dense, q.upper_bound_dense) {
        dense_alike(p.upper_bound_dense, q.upper_bound_dense, feats);
    }
    if alike(p.comm_dense, q.comm_dense) && norms_alike(p.comm_norm, q.comm_norm) {
        dense_alike(p.comm_dense, q.comm_dense, feats);
        norm_alike(p.comm_norm, q.comm_norm, p.comm_dense.row_of(feats));
    }
    if norms_alike(p.lora_pre_ln, q.lora_pre_ln) {
        norm_alike(p.lora_pre_ln, q.lora_pre_ln, feats);
        let normed = p.lora_pre_ln.row_of(feats);
        if alike(p.lora_a_dense, q.lora_a_dense) {
            dense_alike(p.lora_a_dense, q.lora_a_dense, normed);
        }
        if alike(p.lora_b_dense, q.lora_b_dense) {
            dense_alike(p.lora_b_dense, q.lora_b_dense, normed);
        }
    }
}

/// A head without a kernel yields its bias for every patch: as it is for the linear term, through
/// softplus for the l1 weight and the upper bound, and with the floor on top for the curvature.
/// The seed is then the norm's bias where the norm has no scale.
pub proof fn heads_without_kernels_yield_their_biases<S: Scalar>(
    e: MlpEncoderV2<S>,
    patches: Arr3<S>,
    i: int,
    j: int,
    k: int,
)
    requires
        exact::<S>(),
        e.wf(),
        patches.has_shape(patches.n, patches.b, e.in_feats()),
        0 <= i < patches.n,
        0 <= j < patches.b,
        0 <= k < e.config.d_v,
    ensures
        ({
            let p = e.params;
            let o = box_at(e.objective_of(patches), i, j, k);
            &&& kernel_is_zero(p.q_diag_dense) ==> o.0 == softplus_of(p.q_diag_dense.bias@[k]).spec_plus(
                e.config.q_epsilon,
            )
            &&& kernel_is_zero(p.q_dense) ==> o.1 == p.q_dense.bias@[k]
            &&& kernel_is_zero(p.l1_weight_dense) ==> o.2 == softplus_of(p.l1_weight_dense.bias@[k])
            &&& kernel_is_zero(p.upper_bound_dense) ==> o.3 == softplus_of(p.upper_bound_dense.bias@[k])
            &&& row_is_zero(p.comm_norm.scale@) ==> e.h_of(patches).at(i, j, k) == p.comm_norm.bias@[k]
        }),
{
    let p = e.params;
    let feats = e.trunk_row(patches.data[i][j]);
    assert(feats.len() == p.dense.kernel@.cols);
    if kernel_is_zero(p.q_diag_dense) {
        dense_of_zeros_is_bias(p.q_diag_dense, feats);
    }
    if kernel_is_zero(p.q_dense) {
        dense_of_zeros_is_bias(p.q_dense, feats);
    }
    if kernel_is_zero(p.l1_weight_dense) {
        dense_of_zeros_is_bias(p.l1_weight_dense, feats);
    }
    if kernel_is_zero(p.upper_bound_dense) {
        dense_of_zeros_is_bias(p.upper_bound_dense, feats);
    }
    if row_is_zero(p.comm_norm.scale@) {
        norm_without_scale_is_bias(p.comm_norm, p.comm_dense.row_of(feats));
    }
}

/// A factor head without a kernel yields its bias, cut into one matrix for each slot: slot, row
/// and rank one after the other, the rank running fastest.
pub proof fn factor_heads_without_kernels_yield_their_biases<S: Scalar>(
    e: MlpEncoderV2<S>,
    patches: Arr3<S>,
    i: int,
    j: int,
    slot: int,
    row: int,
    q: int,
)
    requires
        exact::<S>(),
        e.wf(),
        patches.has_shape(patches.n, patches.b, e.in_feats()),
        0 <= i < patches.n,
        0 <= j < patches.b,
        0 <= slot < e.config.num_directions,
        0 <= row,
        0 <= q < e.config.lora_rank,
    ensures
        ({
            let (c, p) = (e.config, e.params);
            let r = c.lora_rank as nat;
            let a = slot_grid(e.a_rows(patches), slot, c.d_e as nat, r)[i][j];
            let b = slot_grid(e.b_rows(patches), slot, c.d_v as nat, r)[i][j];
            &&& row < c.d_e && kernel_is_zero(p.lora_a_dense) ==> a.at(row, q) == p.lora_a_dense.bias@[slot
                * c.d_e * r + row * r + q]
            &&& row < c.d_v && kernel_is_zero(p.lora_b_dense) ==> b.at(row, q) == p.lora_b_dense.bias@[slot
                * c.d_v * r + row * r + q]
        }),
{
    let (c, p) = (e.config, e.params);
    let r = c.lora_rank as int;
    let feats = e.trunk_row(patches.data[i][j]);
    let normed = p.lora_pre_ln.row_of(feats);
    assert(normed.len() == p.dense.kernel@.cols);
    if row < c.d_e && kernel_is_zero(p.lora_a_dense) {
        dense_of_zeros_is_bias(p.lora_a_dense, normed);
        let d = c.d_e as int;
        assert((slot * d + row) * r + q == slot * d * r + row * r + q) by (nonlinear_arith);
    }
    if row < c.d_v && kernel_is_zero(p.lora_b_dense) {
        dense_of_zeros_is_bias(p.lora_b_dense, normed);
        let d = c.d_v as int;
        assert((slot * d + row) * r + q == slot * d * r + row * r + q) by (nonlinear_arith);
    }
}

/// The heads see the hidden features only through their activation: a hidden unit that is
/// silenced for a patch has no say in any of them, whatever the heads do with it.
pub proof fn silenced_units_have_no_say<S: Scalar>(
    a: MlpEncoderV2<S>,
    b: MlpEncoderV2<S>,
    patches: Arr3<S>,
    i: int,
    j: int,
    k: int,
    u: int,
)
    requires
        exact::<S>(),
        a.wf(),
        b.wf(),
        trunks_alike(a, b),
        a.config.d_v == b.config.d_v,
        a.config.q_epsilon == b.config.q_epsilon,
        patches.has_shape(patches.n, patches.b, a.in_feats()),
        0 <= i < patches.n,
        0 <= j < patches.b,
        0 <= k < a.config.d_v,
        0 <= u < a.params.dense.kernel@.cols,
        silenced(hidden_input(a.params.input_norm, a.params.dense, patches.data[i][j], u)),
    ensures
        ({
            let (p, q) = (a.params, b.params);
            let (oa, ob) = (
                box_at(a.objective_of(patches), i, j, k),
                box_at(b.objective_of(patches), i, j, k),
            );
            &&& alike_but_for(p.q_diag_dense, q.q_diag_dense, u) ==> oa.0 == ob.0
            &&& alike_but_for(p.q_dense, q.q_dense, u) ==> oa.1 == ob.1
            &&& alike_but_for(p.l1_weight_dense, q.l1_weight_dense, u) ==> oa.2 == ob.2
            &&& alike_but_for(p.upper_bound_dense, q.upper_bound_dense, u) ==> oa.3 == ob.3
            &&& alike_but_for(p.comm_dense, q.comm_dense, u) && norms_alike(p.comm_norm, q.comm_norm)
                ==> a.h_of(patches).data[i][j] == b.h_of(patches).data[i][j]
        }),
{
    let row = patches.data[i][j];
    trunk_alike(a, b, row);
    let feats = a.trunk_row(row);
    silenced_numbers_vanish(hidden_input(a.params.input_norm, a.params.dense, row, u));
    let (p, q) = (a.params, b.params);
    if alike_but_for(p.q_diag_dense, q.q_diag_dense, u) {
        zero_input_has_no_say(p.q_diag_dense, q.q_diag_dense, feats, u);
    }
    if alike_but_for(p.q_dense, q.q_dense, u) {
        zero_input_has_no_say(p.q_dense, q.q_dense, feats, u);
    }
    if alike_but_for(p.l1_weight_dense, q.l1_weight_dense, u) {
        zero_input_has_no_say(p.l1_weight_dense, q.l1_weight_dense, feats, u);
    }
    if alike_but_for(p.upper_bound_dense, q.upper_bound_dense, u) {
        zero_input_has_no_say(p.upper_bound_dense, q.upper_bound_dense, feats, u);
    }
    if alike_but_for(p.comm_dense, q.comm_dense, u) && norms_alike(p.comm_norm, q.comm_norm) {
        zero_input_has_no_say(p.comm_dense, q.comm_dense, feats, u);
        norm_alike(p.comm_norm, q.comm_norm, p.comm_dense.row_of(feats));
    }
}

/// The factor heads read normed features: where the norm in front of them has no scale, the
/// factors are the same for all patches.
pub proof fn factors_read_normed_features<S: Scalar>(
    e: MlpEncoderV2<S>,
    pa: Arr3<S>,
    pb: Arr3<S>,
    i: int,
    j: int,
    u: int,
    w: int,
)
    requires
        exact::<S>(),
        e.wf(),
        row_is_zero(e.params.lora_pre_ln.scale@),
        pa.has_shape(pa.n, pa.b, e.in_feats()),
        pb.has_shape(pb.n, pb.b, e.in_feats()),
        0 <= i < pa.n,
        0 <= j < pa.b,
        0 <= u < pb.n,
        0 <= w < pb.b,
    ensures
        e.a_rows(pa).data[i][j] == e.a_rows(pb).data[u][w],
        e.b_rows(pa).data[i][j] == e.b_rows(pb).data[u][w],
{
    norm_without_scale_is_bias(e.params.lora_pre_ln, e.trunk_row(pa.data[i][j]));
    norm_without_scale_is_bias(e.params.lora_pre_ln, e.trunk_row(pb.data[u][w]));
}

/// The hidden features read normed patches: a feature whose scale is zero has no say, so where
/// all scales are zero the seed is the same for all patches.
pub proof fn features_read_normed_patches<S: Scalar>(
    e: MlpEncoderV2<S>,
    pa: Arr3<S>,
    pb: Arr3<S>,
    i: int,
    j: int,
    u: int,
    w: int,
)
    requires
        exact::<S>(),
        zero_divides::<S>(),
        e.wf(),
        row_is_zero(e.params.input_norm.scale@),
        pa.has_shape(pa.n, pa.b, e.in_feats()),
        pb.has_shape(pb.n, pb.b, e.in_feats()),
        0 <= i < pa.n,
        0 <= j < pa.b,
        0 <= u < pb.n,
        0 <= w < pb.b,
    ensures
        e.trunk_of(pa).data[i][j] == e.trunk_of(pb).data[u][w],
        e.h_of(pa).data[i][j] == e.h_of(pb).data[u][w],
{
    dense_of_scaleless(e.params.input_norm, e.params.dense, pa.data[i][j]);
    dense_of_scaleless(e.params.input_norm, e.params.dense, pb.data[u][w]);
}

pub(crate) proof fn dense_of_scaleless<S: Scalar>(norm: RmsNorm<S>, dense: Dense<S>, row: Seq<S>)
    requires
        exact::<S>(),
        zero_divides::<S>(),
        dense.wf(),
        row.len() == norm.scale@.len(),
        dense.kernel@.rows == row.len(),
        row_is_zero(norm.scale@),
    ensures
        dense.row_of(norm.row_of(row)) == dense.bias@,
{
    let normed = norm.row_of(row);
    assert forall|k: int| 0 <= k < row.len() implies #[trigger] normed[k] == S::spec_zero() by {
        assert(norm.scale@[k] == S::spec_zero());
        norm_keeps_zeros(norm, row, k);
    }
    dense_of_zeros_is_bias(dense, normed);
}

} // verus!
