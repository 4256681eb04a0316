//! Shared neural building blocks.
//!
//! Layers work on rows of features: `[B', feat]`, with one row for each agent and batch
//! element. Kernels are stored `[in, out]` (`y = x W + b`).
use crate::geometry::{adjoined, adjoint_member};
use crate::scalar::{accumulate, accumulate_products, mul_acc, sum_acc, Scalar};
use crate::tensor::{Arr2, Matrix};
use vstd::prelude::*;

verus! {

/// Affine layer: `y = x * kernel + bias`.
#[derive(Debug)]
pub struct Dense<S> {
    /// `[in, out]`.
    pub kernel: Matrix<S>,
    pub bias: Vec<S>,
}

impl<S: Scalar> Dense<S> {
    /// The layer takes rows of `inputs` features to rows of `outputs`.
    pub open spec fn maps(&self, inputs: nat, outputs: nat) -> bool {
        self.kernel@.has_shape(inputs, outputs) && self.bias@.len() == outputs
    }

    /// The layer has one bias for each output.
    pub open spec fn wf(&self) -> bool {
        self.maps(self.kernel@.rows, self.kernel@.cols)
    }

    /// One row through the layer.
    pub open spec fn row_of(&self, x: Seq<S>) -> Seq<S> {
        Seq::new(
            self.kernel@.cols,
            |j: int| adjoined(self.kernel@, x, j).spec_plus(self.bias@[j]),
        )
    }

    pub fn new(kernel: Matrix<S>, bias: Vec<S>) -> (r: Self)
        requires
            kernel.wf(),
            bias@.len() == kernel@.cols,
        ensures
            r.wf(),
            r.kernel == kernel,
            r.bias == bias,
    {
        Dense { kernel, bias }
    }

    pub fn forward_row(&self, x: &[S]) -> (r: Vec<S>)
        requires
            self.wf(),
            x@.len() == self.kernel@.rows,
        ensures
            r@ == self.row_of(x@),
    {
        let mut out: Vec<S> = Vec::new();
        for j in 0..self.bias.len()
            invariant
                self.wf(),
                x@.len() == self.kernel@.rows,
                out@.len() == j,
                forall|i: int|
                    0 <= i < j ==> #[trigger] out@[i] == adjoined(self.kernel@, x@, i).spec_plus(self.bias@[i]),
        {
            out.push(adjoint_member(&self.kernel, x, j).plus(self.bias[j]));
        }
        assert(out@ =~= self.row_of(x@));
        out
    }

    /// `[B', in]` to `[B', out]`.
    pub fn forward(&self, x: &Matrix<S>) -> (r: Matrix<S>)
        requires
            self.wf(),
            x.wf(),
            x@.cols == self.kernel@.rows,
        ensures
            r.wf(),
            r@ == Arr2::from_rows(x@.rows, self.kernel@.cols, |i: int| self.row_of(x@.data[i])),
    {
        Matrix::from_rows_fn(
            x.nrows(),
            self.kernel.ncols(),
            |i: usize| -> (v: Vec<S>)
                requires
                    self.wf(),
                    x.wf(),
                    x@.cols == self.kernel@.rows,
                    i < x@.rows,
                ensures
                    v@ == self.row_of(x@.data[i as int])
                { self.forward_row(x.row(i)) },
        )
    }
}

/// Mean of the squares of a row.
pub open spec fn mean_square<S: Scalar>(x: Seq<S>) -> S {
    mul_acc(S::spec_zero(), x, x, x.len()).spec_over(S::spec_from_count(x.len()))
}

/// Root-mean-square normalization with a learned scale for each channel:
/// `x / sqrt(mean(x^2) + eps) * scale`.
#[derive(Debug)]
pub struct RmsNorm<S> {
    pub scale: Vec<S>,
    pub eps: S,
}

impl<S: Scalar> RmsNorm<S> {
    /// One row through the layer.
    pub open spec fn row_of(&self, x: Seq<S>) -> Seq<S> {
        let root = mean_square(x).spec_plus(self.eps).spec_sqrt();
        Seq::new(x.len(), |k: int| x[k].spec_over(root).spec_times(self.scale@[k]))
    }

    /// A layer with the standard epsilon, one millionth.
    pub fn new(scale: Vec<S>) -> (r: Self)
        ensures
            r.scale == scale,
            r.eps == S::spec_decimal(1, -6),
    {
        RmsNorm { scale, eps: S::decimal(1, -6) }
    }

    pub fn forward_row(&self, x: &[S]) -> (r: Vec<S>)
        requires
            x@.len() == self.scale@.len(),
        ensures
            r@ == self.row_of(x@),
    {
        let mean = accumulate_products(S::zero(), x, x).over(S::from_count(x.len()));
        let root = mean.plus(self.eps).sqrt();
        let mut out: Vec<S> = Vec::new();
        for k in 0..x.len()
            invariant
                x@.len() == self.scale@.len(),
                out@.len() == k,
                forall|i: int|
                    0 <= i < k ==> #[trigger] out@[i] == x@[i].spec_over(root).spec_times(self.scale@[i]),
        {
            out.push(x[k].over(root).times(self.scale[k]));
        }
        assert(out@ =~= self.row_of(x@));
        out
    }

    pub fn forward(&self, x: &Matrix<S>) -> (r: Matrix<S>)
        requires
            x.wf(),
            x@.cols == self.scale@.len(),
        ensures
            r.wf(),
            r@ == Arr2::from_rows(x@.rows, x@.cols, |i: int| self.row_of(x@.data[i])),
    {
        Matrix::from_rows_fn(
            x.nrows(),
            x.ncols(),
            |i: usize| -> (v: Vec<S>)
                requires
                    x.wf(),
                    x@.cols == self.scale@.len(),
                    i < x@.rows,
                ensures
                    v@ == self.row_of(x@.data[i as int])
                { self.forward_row(x.row(i)) },
        )
    }
}

/// The mean of a row.
pub open spec fn mean<S: Scalar>(x: Seq<S>) -> S {
    sum_acc(S::spec_zero(), x, x.len()).spec_over(S::spec_from_count(x.len()))
}

/// A row less a number.
pub open spec fn centered<S: Scalar>(x: Seq<S>, m: S) -> Seq<S> {
    Seq::new(x.len(), |k: int| x[k].spec_minus(m))
}

/// Normalization by mean and variance with a learned scale and bias for each channel:
/// `(x - mean) / sqrt(var + eps) * scale + bias`.
#[derive(Debug)]
pub struct LayerNorm<S> {
    pub scale: Vec<S>,
    pub bias: Vec<S>,
    pub eps: S,
}

impl<S: Scalar> LayerNorm<S> {
    /// The layer works on rows of `feats` features.
    pub open spec fn maps(&self, feats: nat) -> bool {
        self.scale@.len() == feats && self.bias@.len() == feats
    }

    /// One row through the layer.
    pub open spec fn row_of(&self, x: Seq<S>) -> Seq<S> {
        let c = centered(x, mean(x));
        let root = mean_square(c).spec_plus(self.eps).spec_sqrt();
        Seq::new(
            x.len(),
            |k: int| c[k].spec_over(root).spec_times(self.scale@[k]).spec_plus(self.bias@[k]),
        )
    }

    /// A layer with the standard epsilon, one millionth.
    pub fn new(scale: Vec<S>, bias: Vec<S>) -> (r: Self)
        ensures
            r.scale == scale,
            r.bias == bias,
            r.eps == S::spec_decimal(1, -6),
    {
        LayerNorm { scale, bias, eps: S::decimal(1, -6) }
    }

    pub fn forward_row(&self, x: &[S]) -> (r: Vec<S>)
        requires
            self.maps(x@.len()),
        ensures
            r@ == self.row_of(x@),
    {
        let count = S::from_count(x.len());
        let m = accumulate(S::zero(), x).over(count);
        let mut c: Vec<S> = Vec::new();
        for k in 0..x.len()
            invariant
                c@.len() == k,
                forall|i: int| 0 <= i < k ==> #[trigger] c@[i] == x@[i].spec_minus(m),
        {
            c.push(x[k].minus(m));
        }
        assert(c@ =~= centered(x@, m));
        let var = accumulate_products(S::zero(), c.as_slice(), c.as_slice()).over(count);
        let root = var.plus(self.eps).sqrt();
        let mut out: Vec<S> = Vec::new();
        for k in 0..x.len()
            invariant
                self.maps(x@.len()),
                c@.len() == x@.len(),
                out@.len() == k,
                forall|i: int|
                    0 <= i < k ==> #[trigger] out@[i] == c@[i].spec_over(root).spec_times(
                        self.scale@[i],
                    ).spec_plus(self.bias@[i]),
        {
            out.push(c[k].over(root).times(self.scale[k]).plus(self.bias[k]));
        }
        assert(out@ =~= self.row_of(x@));
        out
    }

    pub fn forward(&self, x: &Matrix<S>) -> (r: Matrix<S>)
        requires
            x.wf(),
            self.maps(x@.cols),
        ensures
            r.wf(),
            r@ == Arr2::from_rows(x@.rows, x@.cols, |i: int| self.row_of(x@.data[i])),
    {
        Matrix::from_rows_fn(
            x.nrows(),
            x.ncols(),
            |i: usize| -> (v: Vec<S>)
                requires
                    x.wf(),
                    self.maps(x@.cols),
                    i < x@.rows,
                ensures
                    v@ == self.row_of(x@.data[i as int])
                { self.forward_row(x.row(i)) },
        )
    }
}

/// Residual block: norm, two dense layers, and a projection on the residual path where the
/// width changes.
#[derive(Debug)]
pub struct MlpBlock<S> {
    pub norm: RmsNorm<S>,
    pub dense1: Dense<S>,
    pub dense2: Dense<S>,
    pub residual_proj: Option<Dense<S>>,
}

/// Gated linear unit: one layer yields gates and values, one projects back.
#[derive(Debug)]
pub struct SwiGlu<S> {
    pub gate_up: Dense<S>,
    pub down: Dense<S>,
}

/// Mixer block: a gated unit across tokens and one across channels, each with a norm.
#[derive(Debug)]
pub struct MlpMixerBlock<S> {
    pub token_mlp: SwiGlu<S>,
    pub token_norm: RmsNorm<S>,
    pub channel_mlp: SwiGlu<S>,
    pub channel_norm: RmsNorm<S>,
}

/// `0.5 x (1 + tanh(sqrt(2/pi) (x + 0.044715 x^3)))`.
pub open spec fn gelu_of<S: Scalar>(x: S) -> S {
    let inner = S::spec_decimal(7978845608028654, -16).spec_times(
        x.spec_plus(S::spec_decimal(44715, -6).spec_times(x.spec_times(x).spec_times(x))),
    );
    S::spec_decimal(5, -1).spec_times(x).spec_times(S::spec_one().spec_plus(inner.spec_tanh()))
}

/// GELU in its tanh approximation.
pub fn gelu_tanh<S: Scalar>(x: S) -> (r: S)
    ensures
        r == gelu_of(x),
{
    let cube = x.times(x).times(x);
    let inner = S::decimal(7978845608028654, -16).times(x.plus(S::decimal(44715, -6).times(cube)));
    S::decimal(5, -1).times(x).times(S::one().plus(inner.tanh()))
}

/// `max(x, 0) + log1p(exp(-|x|))`.
pub open spec fn softplus_of<S: Scalar>(x: S) -> S {
    x.spec_max(S::spec_zero()).spec_plus(x.spec_abs().spec_negate().spec_exp().spec_ln_1p())
}

/// Numerically stable softplus.
pub fn softplus<S: Scalar>(x: S) -> (r: S)
    ensures
        r == softplus_of(x),
{
    x.max(S::zero()).plus(x.abs().negate().exp().ln_1p())
}

/// The inverse of softplus, with inputs clamped to at least 1e-7: the identity above 20,
/// else `ln(exp(x) - 1)`.
pub open spec fn inverse_softplus_of<S: Scalar>(x: S) -> S {
    let clamped = x.spec_max(S::spec_decimal(1, -7));
    if S::spec_from_int(20).spec_less(clamped) {
        clamped
    } else {
        clamped.spec_exp().spec_minus(S::spec_one()).spec_ln()
    }
}

/// Inverse of softplus for scalar reparameterizations.
pub fn inverse_softplus<S: Scalar>(x: S) -> (r: S)
    ensures
        r == inverse_softplus_of(x),
{
    let clamped = x.max(S::decimal(1, -7));
    if S::from_int(20).less(clamped) {
        clamped
    } else {
        clamped.exp().minus(S::one()).ln()
    }
}

/// `1 / (1 + exp(-x))`.
pub open spec fn sigmoid_of<S: Scalar>(x: S) -> S {
    S::spec_one().spec_over(S::spec_one().spec_plus(x.spec_negate().spec_exp()))
}

pub fn sigmoid<S: Scalar>(x: S) -> (r: S)
    ensures
        r == sigmoid_of(x),
{
    S::one().over(S::one().plus(x.negate().exp()))
}

/// A row through GELU, member by member.
pub open spec fn gelu_row<S: Scalar>(x: Seq<S>) -> Seq<S> {
    Seq::new(x.len(), |k: int| gelu_of(x[k]))
}

pub fn gelu_forward_row<S: Scalar>(x: &[S]) -> (r: Vec<S>)
    ensures
        r@ == gelu_row(x@),
{
    let mut out: Vec<S> = Vec::new();
    for k in 0..x.len()
        invariant
            out@.len() == k,
            forall|i: int| 0 <= i < k ==> #[trigger] out@[i] == gelu_of(x@[i]),
    {
        out.push(gelu_tanh(x[k]));
    }
    assert(out@ =~= gelu_row(x@));
    out
}

} // verus!
