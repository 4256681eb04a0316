//! What the layers are for: the activation silences, softplus and sigmoid mirror, an input that
//! is zero has no say, and norms act by their scales.
use super::ring::{
    cancel, exact, minus_plus, plus_flip, plus_pairs, plus_shift, plus_zero, times_flip, times_one,
    times_shift, times_spread, times_zero,
};
use super::solvers::{divides, negate_is_missing};
use crate::layers::{
    centered, gelu_of, mean, mean_square, sigmoid_of, softplus_of, Dense, LayerNorm, RmsNorm,
};
use crate::scalar::{mul_acc, Scalar};
use vstd::prelude::*;

verus! {

/// Two dense layers hold the same numbers.
pub open spec fn alike<S: Scalar>(a: Dense<S>, b: Dense<S>) -> bool {
    a.kernel@ == b.kernel@ && a.bias@ == b.bias@
}

/// Two norms with mean and variance hold the same numbers.
pub open spec fn norms_alike<S: Scalar>(a: LayerNorm<S>, b: LayerNorm<S>) -> bool {
    a.scale@ == b.scale@ && a.bias@ == b.bias@ && a.eps == b.eps
}

/// Two norms hold the same numbers.
pub open spec fn scales_alike<S: Scalar>(a: RmsNorm<S>, b: RmsNorm<S>) -> bool {
    a.scale@ == b.scale@ && a.eps == b.eps
}

/// Every member of the kernel is zero.
pub open spec fn kernel_is_zero<S: Scalar>(a: Dense<S>) -> bool {
    forall|i: int, j: int|
        0 <= i < a.kernel@.rows && 0 <= j < a.kernel@.cols ==> #[trigger] a.kernel@.at(i, j)
            == S::spec_zero()
}

/// Two dense layers hold the same numbers but for what they do with input `u`.
pub open spec fn alike_but_for<S: Scalar>(a: Dense<S>, b: Dense<S>, u: int) -> bool {
    &&& a.kernel@.rows == b.kernel@.rows
    &&& a.kernel@.cols == b.kernel@.cols
    &&& a.bias@ == b.bias@
    &&& forall|i: int, j: int|
        0 <= i < a.kernel@.rows && i != u && 0 <= j < a.kernel@.cols ==> #[trigger] a.kernel@.at(i, j)
            == b.kernel@.at(i, j)
}

/// Every number of a row is zero.
pub open spec fn row_is_zero<S: Scalar>(row: Seq<S>) -> bool {
    forall|k: int| 0 <= k < row.len() ==> #[trigger] row[k] == S::spec_zero()
}

/// Quotients of zero are zero.
pub open spec fn zero_divides<S: Scalar>() -> bool {
    forall|a: S| #[trigger] S::spec_zero().spec_over(a) == S::spec_zero()
}

/// The activation silences a number: its hyperbolic tangent term is minus one.
pub open spec fn silenced<S: Scalar>(x: S) -> bool {
    let cube = x.spec_times(x).spec_times(x);
    let reach = S::spec_decimal(7978845608028654, -16).spec_times(
        x.spec_plus(S::spec_decimal(44715, -6).spec_times(cube)),
    );
    S::spec_one().spec_plus(reach.spec_tanh()) == S::spec_zero()
}

/// The activation of zero, and of a number that it silences, is zero.
pub proof fn silenced_numbers_vanish<S: Scalar>(x: S)
    requires
        exact::<S>(),
        silenced(x) || x == S::spec_zero(),
    ensures
        gelu_of(x) == S::spec_zero(),
{
    let half = S::spec_decimal(5, -1);
    times_zero(half);
    times_zero(half.spec_times(x));
    let cube = x.spec_times(x).spec_times(x);
    let reach = S::spec_decimal(7978845608028654, -16).spec_times(
        x.spec_plus(S::spec_decimal(44715, -6).spec_times(cube)),
    );
    times_zero(S::spec_one().spec_plus(reach.spec_tanh()));
}

proof fn missing_is_negative<S: Scalar>(a: S)
    requires
        exact::<S>(),
    ensures
        a.spec_negate() == S::spec_zero().spec_minus(a),
        a.spec_plus(a.spec_negate()) == S::spec_zero(),
        a.spec_negate().spec_plus(a) == S::spec_zero(),
{
    negate_is_missing(a);
    minus_plus(S::spec_zero(), a);
    plus_flip(a, a.spec_negate());
}

/// What completes a number to zero is its negation.
proof fn negation_is_one<S: Scalar>(a: S, m: S)
    requires
        exact::<S>(),
        m.spec_plus(a) == S::spec_zero(),
    ensures
        m == a.spec_negate(),
{
    missing_is_negative(a);
    cancel(m, a.spec_negate(), a);
}

proof fn negated_factor<S: Scalar>(a: S, b: S)
    requires
        exact::<S>(),
    ensures
        a.spec_times(b.spec_negate()) == a.spec_times(b).spec_negate(),
        b.spec_negate().spec_times(a) == b.spec_times(a).spec_negate(),
{
    missing_is_negative(b);
    times_spread(a, b.spec_negate(), b);
    times_zero(a);
    negation_is_one(a.spec_times(b), a.spec_times(b.spec_negate()));
    times_flip(a, b);
    times_flip(a, b.spec_negate());
}

proof fn twice_negated<S: Scalar>(a: S)
    requires
        exact::<S>(),
    ensures
        a.spec_negate().spec_negate() == a,
{
    missing_is_negative(a);
    negation_is_one(a.spec_negate(), a);
}

proof fn negated_sum<S: Scalar>(a: S, b: S)
    requires
        exact::<S>(),
    ensures
        a.spec_negate().spec_plus(b.spec_negate()) == a.spec_plus(b).spec_negate(),
{
    missing_is_negative(a);
    missing_is_negative(b);
    plus_pairs(a.spec_negate(), b.spec_negate(), a, b);
    plus_zero(S::spec_zero());
    negation_is_one(a.spec_plus(b), a.spec_negate().spec_plus(b.spec_negate()));
}

/// The activation of a number and that of its negation differ by the number: what is silent on
/// one side of zero passes on the other.
pub proof fn activations_of_opposites<S: Scalar>(x: S)
    requires
        exact::<S>(),
        forall|a: S| #[trigger] a.spec_negate().spec_tanh() == a.spec_tanh().spec_negate(),
        S::spec_decimal(5, -1).spec_plus(S::spec_decimal(5, -1)) == S::spec_one(),
    ensures
        gelu_of(x) == gelu_of(x.spec_negate()).spec_plus(x),
{
    let half = S::spec_decimal(5, -1);
    let (f, g) = (S::spec_decimal(7978845608028654, -16), S::spec_decimal(44715, -6));
    let m = x.spec_negate();
    let cube = x.spec_times(x).spec_times(x);
    let mcube = m.spec_times(m).spec_times(m);
    // The cube of the negation is the negated cube.
    negated_factor(m, x);
    negated_factor(x, x);
    twice_negated(x.spec_times(x));
    assert(m.spec_times(m) == x.spec_times(x));
    negated_factor(x.spec_times(x), x);
    assert(mcube == cube.spec_negate());
    negated_factor(g, cube);
    negated_sum(x, g.spec_times(cube));
    let reach = f.spec_times(x.spec_plus(g.spec_times(cube)));
    negated_factor(f, x.spec_plus(g.spec_times(cube)));
    assert(f.spec_times(m.spec_plus(g.spec_times(mcube))) == reach.spec_negate());
    let t = reach.spec_tanh();
    let one = S::spec_one();
    let a = half.spec_times(x);
    negated_factor(half, x);
    assert(half.spec_times(m) == a.spec_negate());
    // a (1 + t) = a + a t, and (-a) (1 - t) = -a + a t.
    times_spread(a, one, t);
    times_one(a);
    let at = a.spec_times(t);
    times_spread(a.spec_negate(), one, t.spec_negate());
    times_one(a.spec_negate());
    negated_factor(a.spec_negate(), t);
    negated_factor(t, a);
    twice_negated(a.spec_times(t));
    assert(gelu_of(x) == a.spec_plus(at));
    assert(gelu_of(m) == a.spec_negate().spec_plus(at));
    // x = a + a.
    times_spread(x, half, half);
    times_flip(half, x);
    times_one(x);
    times_flip(x, one);
    assert(a.spec_plus(a) == x);
    plus_flip(a.spec_negate(), at);
    plus_shift(at, a.spec_negate(), a.spec_plus(a));
    plus_shift(a.spec_negate(), a, a);
    missing_is_negative(a);
    plus_zero(a);
    plus_flip(at, a);
}

/// Softplus of a number and of its negation differ by the number.
pub proof fn softplus_of_opposites<S: Scalar>(x: S)
    requires
        exact::<S>(),
        x.spec_negate().spec_abs() == x.spec_abs(),
        x.spec_max(S::spec_zero()) == x.spec_negate().spec_max(S::spec_zero()).spec_plus(x),
    ensures
        softplus_of(x) == softplus_of(x.spec_negate()).spec_plus(x),
{
    let low = x.spec_negate().spec_max(S::spec_zero());
    let rest = x.spec_abs().spec_negate().spec_exp().spec_ln_1p();
    plus_shift(low, x, rest);
    plus_flip(x, rest);
    plus_shift(low, rest, x);
}

/// The odds of a number are its exponential: `sigmoid(x) = exp(x) sigmoid(-x)`.
pub proof fn sigmoid_of_opposites<S: Scalar>(x: S)
    requires
        exact::<S>(),
        x.spec_exp().spec_times(x.spec_negate().spec_exp()) == S::spec_one(),
        divides(S::spec_one().spec_plus(x.spec_exp())),
        divides(S::spec_one().spec_plus(x.spec_negate().spec_exp())),
    ensures
        sigmoid_of(x) == x.spec_exp().spec_times(sigmoid_of(x.spec_negate())),
{
    let one = S::spec_one();
    let (e, r) = (x.spec_exp(), x.spec_negate().spec_exp());
    twice_negated(x);
    let (p, q) = (one.spec_plus(r), one.spec_plus(e));
    let s = one.spec_over(q);
    assert(sigmoid_of(x.spec_negate()) == s);
    assert(s.spec_times(q) == one);
    // (e s) (1 + r) = s (e + e r) = s (1 + e) = 1.
    times_flip(e, s);
    times_shift(s, e, p);
    times_spread(e, one, r);
    times_one(e);
    plus_flip(e, one);
    assert(e.spec_times(s).spec_times(p) == one);
    let es = e.spec_times(s);
    assert(es.spec_times(p).spec_over(p) == es);
}

/// A sum of products does not see what stands against a zero.
proof fn products_skip_zero<S: Scalar>(acc: S, x: Seq<S>, y: Seq<S>, row: Seq<S>, u: int, k: nat)
    requires
        exact::<S>(),
        forall|i: int| 0 <= i < k && i != u ==> #[trigger] x[i] == y[i],
        row[u] == S::spec_zero(),
    ensures
        mul_acc(acc, x, row, k) == mul_acc(acc, y, row, k),
    decreases k,
{
    if k > 0 {
        products_skip_zero(acc, x, y, row, u, (k - 1) as nat);
        if k - 1 == u {
            times_zero(x[u]);
            times_zero(y[u]);
        } else {
            assert(x[k - 1] == y[k - 1]);
        }
    }
}

/// A sum of products with zeros is zero.
proof fn products_of_zero<S: Scalar>(x: Seq<S>, row: Seq<S>, k: nat)
    requires
        exact::<S>(),
        forall|i: int| 0 <= i < k ==> #[trigger] x[i] == S::spec_zero() || row[i] == S::spec_zero(),
    ensures
        mul_acc(S::spec_zero(), x, row, k) == S::spec_zero(),
    decreases k,
{
    if k > 0 {
        products_of_zero(x, row, (k - 1) as nat);
        assert(x[k - 1] == S::spec_zero() || row[k - 1] == S::spec_zero());
        times_zero(x[k - 1]);
        times_zero(row[k - 1]);
        plus_zero(S::spec_zero());
    }
}

/// An input that is zero has no say in a dense layer.
pub proof fn zero_input_has_no_say<S: Scalar>(a: Dense<S>, b: Dense<S>, row: Seq<S>, u: int)
    requires
        exact::<S>(),
        alike_but_for(a, b, u),
        0 <= u < row.len(),
        row[u] == S::spec_zero(),
    ensures
        a.row_of(row) == b.row_of(row),
{
    let n = a.kernel@.rows;
    assert forall|j: int| 0 <= j < a.kernel@.cols implies a.row_of(row)[j] == b.row_of(row)[j] by {
        let (x, y) = (a.kernel@.column(j), b.kernel@.column(j));
        assert forall|i: int| 0 <= i < n && i != u implies #[trigger] x[i] == y[i] by {
            assert(a.kernel@.at(i, j) == b.kernel@.at(i, j));
        }
        products_skip_zero(S::spec_zero(), x, y, row, u, n);
    }
    assert(a.row_of(row) =~= b.row_of(row));
}

/// A dense layer whose every product has a zero in it yields its bias.
pub proof fn dense_of_zeros_is_bias<S: Scalar>(a: Dense<S>, row: Seq<S>)
    requires
        exact::<S>(),
        a.wf(),
        row.len() == a.kernel@.rows,
        forall|i: int, j: int|
            0 <= i < a.kernel@.rows && 0 <= j < a.kernel@.cols ==> #[trigger] a.kernel@.at(i, j)
                == S::spec_zero() || row[i] == S::spec_zero(),
    ensures
        a.row_of(row) == a.bias@,
{
    assert forall|j: int| 0 <= j < a.kernel@.cols implies a.row_of(row)[j] == a.bias@[j] by {
        let x = a.kernel@.column(j);
        assert forall|i: int| 0 <= i < a.kernel@.rows implies #[trigger] x[i] == S::spec_zero() || row[i]
            == S::spec_zero() by {
            assert(a.kernel@.at(i, j) == S::spec_zero() || row[i] == S::spec_zero());
        }
        products_of_zero(x, row, a.kernel@.rows);
        plus_zero(a.bias@[j]);
    }
    assert(a.row_of(row) =~= a.bias@);
}

/// A norm whose scale is zero yields its bias, whatever goes in.
pub proof fn norm_without_scale_is_bias<S: Scalar>(a: LayerNorm<S>, row: Seq<S>)
    requires
        exact::<S>(),
        a.maps(row.len()),
        row_is_zero(a.scale@),
    ensures
        a.row_of(row) == a.bias@,
{
    assert forall|k: int| 0 <= k < row.len() implies a.row_of(row)[k] == a.bias@[k] by {
        let c = centered(row, mean(row));
        let root = mean_square(c).spec_plus(a.eps).spec_sqrt();
        assert(a.scale@[k] == S::spec_zero());
        times_zero(c[k].spec_over(root));
        plus_zero(a.bias@[k]);
    }
    assert(a.row_of(row) =~= a.bias@);
}

/// A root-mean-square norm leaves zeros where its input or its scale has them.
pub proof fn norm_keeps_zeros<S: Scalar>(a: RmsNorm<S>, row: Seq<S>, k: int)
    requires
        exact::<S>(),
        zero_divides::<S>(),
        0 <= k < row.len(),
        row[k] == S::spec_zero() || a.scale@[k] == S::spec_zero(),
    ensures
        a.row_of(row)[k] == S::spec_zero(),
{
    let root = mean_square(row).spec_plus(a.eps).spec_sqrt();
    times_zero(row[k].spec_over(root));
    times_zero(a.scale@[k]);
}

pub(crate) proof fn dense_alike<S: Scalar>(a: Dense<S>, b: Dense<S>, row: Seq<S>)
    requires
        alike(a, b),
    ensures
        a.row_of(row) == b.row_of(row),
{
    assert(a.row_of(row) =~= b.row_of(row));
}

pub(crate) proof fn norm_alike<S: Scalar>(a: LayerNorm<S>, b: LayerNorm<S>, row: Seq<S>)
    requires
        norms_alike(a, b),
    ensures
        a.row_of(row) == b.row_of(row),
{
    assert(a.row_of(row) =~= b.row_of(row));
}

pub(crate) proof fn scale_alike<S: Scalar>(a: RmsNorm<S>, b: RmsNorm<S>, row: Seq<S>)
    requires
        scales_alike(a, b),
    ensures
        a.row_of(row) == b.row_of(row),
{
    assert(a.row_of(row) =~= b.row_of(row));
}

/// What goes into the activation of hidden unit `u` for a row of features.
pub open spec fn hidden_input<S: Scalar>(norm: RmsNorm<S>, dense: Dense<S>, row: Seq<S>, u: int) -> S {
    dense.row_of(norm.row_of(row))[u]
}

} // verus!
