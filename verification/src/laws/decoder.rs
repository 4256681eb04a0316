//! What the decoder is for: the patch comes before the state, every agent is decoded alike and on
//! its own, and the hidden layer acts through its activation alone.
use super::encoder::dense_of_scaleless;
use super::layers::{
    alike, alike_but_for, dense_alike, dense_of_zeros_is_bias, hidden_input, kernel_is_zero,
    norm_keeps_zeros, row_is_zero, scale_alike, scales_alike, silenced, silenced_numbers_vanish,
    zero_divides, zero_input_has_no_say,
};
use super::ring::exact;
use crate::decoder::ConcatMlpDecoderV2;
use crate::layers::{gelu_row, Dense, RmsNorm};
use crate::scalar::Scalar;
use crate::tensor::Arr3;
use vstd::prelude::*;

verus! {

/// The logits see the hidden layer only through its activation: a hidden unit that is silenced
/// for a patch and a state has no say in any logit, whatever the output layer does with it.
pub proof fn silenced_units_have_no_say_in_logits<S: Scalar>(
    a: ConcatMlpDecoderV2<S>,
    b: ConcatMlpDecoderV2<S>,
    patches: Arr3<S>,
    x: Arr3<S>,
    i: int,
    j: int,
    u: int,
)
    requires
        exact::<S>(),
        a.wf(),
        b.wf(),
        a.output_shape == b.output_shape,
        scales_alike(a.params.input_norm, b.params.input_norm),
        alike(a.params.dense, b.params.dense),
        alike_but_for(a.params.output_dense, b.params.output_dense, u),
        x.wf(),
        patches.has_shape(x.n, x.b, patches.d),
        patches.d + x.d == a.in_feats(),
        0 <= i < x.n,
        0 <= j < x.b,
        0 <= u < a.params.dense.kernel@.cols,
        silenced(
            hidden_input(a.params.input_norm, a.params.dense, patches.data[i][j] + x.data[i][j], u),
        ),
    ensures
        a.logits_of(x, patches).data[i][j] == b.logits_of(x, patches).data[i][j],
{
    let row = patches.data[i][j] + x.data[i][j];
    let (p, q) = (a.params, b.params);
    scale_alike(p.input_norm, q.input_norm, row);
    dense_alike(p.dense, q.dense, p.input_norm.row_of(row));
    let hidden = p.dense.row_of(p.input_norm.row_of(row));
    silenced_numbers_vanish(hidden[u]);
    let active = gelu_row(hidden);
    zero_input_has_no_say(p.output_dense, q.output_dense, active, u);
}

/// Every agent and batch element is decoded on its own and alike: the logits for one patch and
/// state are those for the same patch and state anywhere else.
pub proof fn agents_are_decoded_alike<S: Scalar>(
    a: ConcatMlpDecoderV2<S>,
    pa: Arr3<S>,
    xa: Arr3<S>,
    pb: Arr3<S>,
    xb: Arr3<S>,
    i: int,
    j: int,
    u: int,
    w: int,
)
    requires
        0 <= i < xa.n,
        0 <= j < xa.b,
        0 <= u < xb.n,
        0 <= w < xb.b,
        pa.data[i][j] == pb.data[u][w],
        xa.data[i][j] == xb.data[u][w],
    ensures
        a.logits_of(xa, pa).data[i][j] == a.logits_of(xb, pb).data[u][w],
{
}

/// Without an output kernel the logits are the output bias.
pub proof fn logits_without_kernel_are_bias<S: Scalar>(
    a: ConcatMlpDecoderV2<S>,
    patches: Arr3<S>,
    x: Arr3<S>,
    i: int,
    j: int,
)
    requires
        exact::<S>(),
        a.wf(),
        kernel_is_zero(a.params.output_dense),
        0 <= i < x.n,
        0 <= j < x.b,
    ensures
        a.logits_of(x, patches).data[i][j] == a.params.output_dense.bias@,
{
    let p = &a.params;
    let row = patches.data[i][j] + x.data[i][j];
    let active = gelu_row(p.dense.row_of(p.input_norm.row_of(row)));
    dense_of_zeros_is_bias(p.output_dense, active);
}

/// The rows of a kernel from `lo` to `hi` are zero.
pub open spec fn rows_are_zero<S: Scalar>(a: Dense<S>, lo: int, hi: int) -> bool {
    forall|i: int, j: int|
        lo <= i < hi && 0 <= j < a.kernel@.cols ==> #[trigger] a.kernel@.at(i, j) == S::spec_zero()
}

proof fn hidden_is_bias<S: Scalar>(norm: RmsNorm<S>, dense: Dense<S>, row: Seq<S>)
    requires
        exact::<S>(),
        zero_divides::<S>(),
        dense.wf(),
        row.len() == norm.scale@.len(),
        dense.kernel@.rows == row.len(),
        forall|i: int, j: int|
            0 <= i < row.len() && 0 <= j < dense.kernel@.cols ==> #[trigger] dense.kernel@.at(i, j)
                == S::spec_zero() || row[i] == S::spec_zero(),
    ensures
        dense.row_of(norm.row_of(row)) == dense.bias@,
{
    let normed = norm.row_of(row);
    assert forall|i: int, j: int| 0 <= i < row.len() && 0 <= j < dense.kernel@.cols implies #[trigger]
        dense.kernel@.at(i, j) == S::spec_zero() || normed[i] == S::spec_zero() by {
        if row[i] == S::spec_zero() {
            norm_keeps_zeros(norm, row, i);
        }
    }
    dense_of_zeros_is_bias(dense, normed);
}

/// The patch comes first and the state behind it: the first rows of the hidden kernel, as many as
/// a patch has features, weigh the patch, and the others the state. Where the former are zero and
/// the state is, the logits are the same for all patches; where the latter are zero and the patch
/// is, they are the same for all states.
pub proof fn patch_comes_before_state<S: Scalar>(
    a: ConcatMlpDecoderV2<S>,
    pa: Arr3<S>,
    xa: Arr3<S>,
    pb: Arr3<S>,
    xb: Arr3<S>,
    i: int,
    j: int,
)
    requires
        exact::<S>(),
        zero_divides::<S>(),
        a.wf(),
        xa.wf(),
        xb.same_shape(xa),
        pa.has_shape(xa.n, xa.b, pa.d),
        pb.same_shape(pa),
        pa.d + xa.d == a.in_feats(),
        0 <= i < xa.n,
        0 <= j < xa.b,
        ({
            ||| {
                &&& rows_are_zero(a.params.dense, 0, pa.d as int)
                &&& row_is_zero(xa.data[i][j])
                &&& row_is_zero(xb.data[i][j])
            }
            ||| {
                &&& rows_are_zero(a.params.dense, pa.d as int, a.in_feats() as int)
                &&& row_is_zero(pa.data[i][j])
                &&& row_is_zero(pb.data[i][j])
            }
        }),
    ensures
        a.logits_of(xa, pa).data[i][j] == a.logits_of(xb, pb).data[i][j],
{
    let p = &a.params;
    let (ra, rb) = (pa.data[i][j] + xa.data[i][j], pb.data[i][j] + xb.data[i][j]);
    assert(pa.data[i][j].len() == pa.d && pb.data[i][j].len() == pa.d);
    assert(xa.data[i][j].len() == xa.d && xb.data[i][j].len() == xa.d);
    assert forall|r: int, c: int| 0 <= r < ra.len() && 0 <= c < p.dense.kernel@.cols implies #[trigger]
        p.dense.kernel@.at(r, c) == S::spec_zero() || ra[r] == S::spec_zero() && rb[r] == S::spec_zero() by {
        if r < pa.d {
            assert(ra[r] == pa.data[i][j][r] && rb[r] == pb.data[i][j][r]);
        } else {
            assert(ra[r] == xa.data[i][j][r - pa.d] && rb[r] == xb.data[i][j][r - pa.d]);
        }
    }
    hidden_is_bias(p.input_norm, p.dense, ra);
    hidden_is_bias(p.input_norm, p.dense, rb);
}

/// The hidden layer reads patch and state through one norm: where that has no scale, all patches
/// and states have the same logits.
pub proof fn logits_read_normed_input<S: Scalar>(
    a: ConcatMlpDecoderV2<S>,
    pa: Arr3<S>,
    xa: Arr3<S>,
    pb: Arr3<S>,
    xb: Arr3<S>,
    i: int,
    j: int,
)
    requires
        exact::<S>(),
        zero_divides::<S>(),
        a.wf(),
        row_is_zero(a.params.input_norm.scale@),
        xa.wf(),
        xb.same_shape(xa),
        pa.has_shape(xa.n, xa.b, pa.d),
        pb.same_shape(pa),
        pa.d + xa.d == a.in_feats(),
        0 <= i < xa.n,
        0 <= j < xa.b,
    ensures
        a.logits_of(xa, pa).data[i][j] == a.logits_of(xb, pb).data[i][j],
{
    let p = &a.params;
    assert(pa.data[i][j].len() == pa.d && pb.data[i][j].len() == pa.d);
    assert(xa.data[i][j].len() == xa.d && xb.data[i][j].len() == xa.d);
    dense_of_scaleless(p.input_norm, p.dense, pa.data[i][j] + xa.data[i][j]);
    dense_of_scaleless(p.input_norm, p.dense, pb.data[i][j] + xb.data[i][j]);
}

} // verus!
