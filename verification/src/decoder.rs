//! Decoders. The maze decoder reads the patch and the agent's state together.
//!
//! RMS norm of the concatenation (patch first, then state), dense layer, GELU, output
//! layer; the output row is `[ph, pw, num_classes]`, flat.
use crate::layers::{gelu_forward_row, gelu_row, Dense, MlpBlock, RmsNorm};
use crate::scalar::Scalar;
use crate::tensor::{copy_row, Arr3, Tensor3};
use vstd::prelude::*;

verus! {

#[derive(Debug)]
pub struct ConcatMlpDecoderV2Params<S> {
    pub input_norm: RmsNorm<S>,
    pub dense: Dense<S>,
    pub output_dense: Dense<S>,
}

#[derive(Debug)]
pub struct ConcatMlpDecoderV2<S> {
    pub params: ConcatMlpDecoderV2Params<S>,
    /// (ph, pw, num_classes).
    pub output_shape: (usize, usize, usize),
}

/// What a classification head reads.
#[derive(Debug, Clone, Copy, PartialEq, Eq, Structural)]
pub enum ReadoutMode {
    /// The agent's state alone.
    XOnly,
    /// The patch features and the state.
    Concat,
}

#[derive(Debug)]
pub struct ClassificationDecoderParams<S> {
    pub cls_output: Dense<S>,
}

/// Linear classification head.
#[derive(Debug)]
pub struct ClassificationDecoder<S> {
    pub params: ClassificationDecoderParams<S>,
    pub readout_mode: ReadoutMode,
    pub num_classes: usize,
}

#[derive(Debug)]
pub struct SudokuDecoderParams<S> {
    pub blocks: Vec<MlpBlock<S>>,
    pub output_dense: Dense<S>,
}

/// Per-cell digit head.
#[derive(Debug)]
pub struct SudokuDecoder<S> {
    pub params: SudokuDecoderParams<S>,
    pub num_classes: usize,
}

impl<S: Scalar> ConcatMlpDecoderV2<S> {
    /// Width of the concatenated input.
    pub open spec fn in_feats(&self) -> nat {
        self.params.input_norm.scale@.len()
    }

    /// Width of the flat output.
    pub open spec fn out_feats(&self) -> nat {
        (self.output_shape.0 * self.output_shape.1 * self.output_shape.2) as nat
    }

    /// The layers fit each other and the output shape.
    pub open spec fn wf(&self) -> bool {
        let hidden = self.params.dense.kernel@.cols;
        &&& self.params.dense.maps(self.in_feats(), hidden)
        &&& self.params.output_dense.maps(hidden, self.out_feats())
    }

    /// The logits of one agent.
    pub open spec fn logits_row(&self, patch: Seq<S>, x: Seq<S>) -> Seq<S> {
        let p = &self.params;
        p.output_dense.row_of(gelu_row(p.dense.row_of(p.input_norm.row_of(patch + x))))
    }

    /// The logits of every agent and batch element.
    pub open spec fn logits_of(&self, x: Arr3<S>, patches: Arr3<S>) -> Arr3<S> {
        Arr3::from_rows(
            x.n,
            x.b,
            self.out_feats(),
            |i: int, j: int| self.logits_row(patches.data[i][j], x.data[i][j]),
        )
    }

    /// Decodes one slab of agent states: `x [N, B, d_v]` and `patches [N, B, ph * pw * C]`
    /// to logits `[N, B, ph * pw * num_classes]`. The decoder is shared across agents.
    pub fn forward(&self, x: &Tensor3<S>, patches: &Tensor3<S>) -> (r: Tensor3<S>)
        requires
            self.wf(),
            x.wf(),
            patches@.has_shape(x@.n, x@.b, patches@.d),
            patches@.d + x@.d == self.in_feats(),
        ensures
            r.wf(),
            r@ == self.logits_of(x@, patches@),
    {
        let (n, b, _d) = x.dim();
        Tensor3::from_rows_fn(
            n,
            b,
            self.params.output_dense.kernel.ncols(),
            |i: usize, j: usize| -> (v: Vec<S>)
                requires
                    self.wf(),
                    x.wf(),
                    patches@.has_shape(x@.n, x@.b, patches@.d),
                    patches@.d + x@.d == self.in_feats(),
                    i < x@.n,
                    j < x@.b,
                ensures
                    v@ == self.logits_row(patches@.data[i as int][j as int], x@.data[i as int][j as int]),
                    v@.len() == self.out_feats()
                {
                    assert(patches@.data[i as int][j as int].len() == patches@.d);
                    assert(x@.data[i as int][j as int].len() == x@.d);
                    let mut input = copy_row(patches.row(i, j));
                    let mut state = copy_row(x.row(i, j));
                    input.append(&mut state);
                    let normed = self.params.input_norm.forward_row(input.as_slice());
                    let hidden = self.params.dense.forward_row(normed.as_slice());
                    let active = gelu_forward_row(hidden.as_slice());
                    self.params.output_dense.forward_row(active.as_slice())
                },
        )
    }
}

} // verus!
