//! Exact arithmetic, and finite sums over it.
use crate::reduce::batch_dot;
use crate::scalar::{mul_acc, sum_acc, Scalar};
use crate::tensor::Arr3;
use vstd::prelude::*;

verus! {

/// The number type computes exactly: addition and multiplication form a commutative ring,
/// subtraction undoes addition, and the preferred inner product is the sum of products.
#[verifier::opaque]
pub open spec fn exact<S: Scalar>() -> bool {
    let zero = S::spec_zero();
    &&& forall|a: S, b: S| #[trigger] a.spec_plus(b) == b.spec_plus(a)
    &&& forall|a: S, b: S, c: S| #[trigger] a.spec_plus(b).spec_plus(c) == a.spec_plus(b.spec_plus(c))
    &&& forall|a: S| #[trigger] a.spec_plus(zero) == a
    &&& forall|a: S, b: S| #[trigger] a.spec_minus(b).spec_plus(b) == a
    &&& forall|a: S, b: S| #[trigger] a.spec_plus(b).spec_minus(b) == a
    &&& forall|a: S| #[trigger] a.spec_negate() == zero.spec_minus(a)
    &&& forall|a: S, b: S| #[trigger] a.spec_times(b) == b.spec_times(a)
    &&& forall|a: S, b: S, c: S| #[trigger] a.spec_times(b).spec_times(c) == a.spec_times(b.spec_times(c))
    &&& forall|a: S, b: S, c: S| #[trigger]
        a.spec_times(b.spec_plus(c)) == a.spec_times(b).spec_plus(a.spec_times(c))
    &&& forall|a: S| #[trigger] a.spec_times(S::spec_one()) == a
    &&& forall|x: Seq<S>, y: Seq<S>| #[trigger]
        S::spec_dot(x, y) == mul_acc(zero, x, y, x.len())
    &&& forall|x: Seq<S>| #[trigger] S::spec_sum(x) == sum_acc(zero, x, x.len())
}

pub proof fn plus_flip<S: Scalar>(a: S, b: S)
    requires
        exact::<S>(),
    ensures
        a.spec_plus(b) == b.spec_plus(a),
{
    reveal(exact);
}

pub proof fn plus_shift<S: Scalar>(a: S, b: S, c: S)
    requires
        exact::<S>(),
    ensures
        a.spec_plus(b).spec_plus(c) == a.spec_plus(b.spec_plus(c)),
{
    reveal(exact);
}

pub proof fn plus_zero<S: Scalar>(a: S)
    requires
        exact::<S>(),
    ensures
        a.spec_plus(S::spec_zero()) == a,
        S::spec_zero().spec_plus(a) == a,
{
    reveal(exact);
    assert(S::spec_zero().spec_plus(a) == a.spec_plus(S::spec_zero()));
}

pub proof fn minus_plus<S: Scalar>(a: S, b: S)
    requires
        exact::<S>(),
    ensures
        a.spec_minus(b).spec_plus(b) == a,
        a.spec_plus(b).spec_minus(b) == a,
{
    reveal(exact);
}

/// What is added can be taken away again, on both sides of an equation.
pub proof fn cancel<S: Scalar>(a: S, b: S, c: S)
    requires
        exact::<S>(),
        a.spec_plus(c) == b.spec_plus(c),
    ensures
        a == b,
{
    minus_plus(a, c);
    minus_plus(b, c);
}

pub proof fn times_flip<S: Scalar>(a: S, b: S)
    requires
        exact::<S>(),
    ensures
        a.spec_times(b) == b.spec_times(a),
{
    reveal(exact);
}

pub proof fn times_shift<S: Scalar>(a: S, b: S, c: S)
    requires
        exact::<S>(),
    ensures
        a.spec_times(b).spec_times(c) == a.spec_times(b.spec_times(c)),
{
    reveal(exact);
}

pub proof fn times_spread<S: Scalar>(a: S, b: S, c: S)
    requires
        exact::<S>(),
    ensures
        a.spec_times(b.spec_plus(c)) == a.spec_times(b).spec_plus(a.spec_times(c)),
        b.spec_plus(c).spec_times(a) == b.spec_times(a).spec_plus(c.spec_times(a)),
{
    reveal(exact);
    times_flip(a, b);
    times_flip(a, c);
    times_flip(a, b.spec_plus(c));
}

pub proof fn times_one<S: Scalar>(a: S)
    requires
        exact::<S>(),
    ensures
        a.spec_times(S::spec_one()) == a,
        S::spec_one().spec_times(a) == a,
{
    reveal(exact);
    times_flip(a, S::spec_one());
}

pub proof fn dot_sums<S: Scalar>(x: Seq<S>, y: Seq<S>)
    requires
        exact::<S>(),
    ensures
        S::spec_dot(x, y) == mul_acc(S::spec_zero(), x, y, x.len()),
{
    reveal(exact);
}

pub proof fn times_zero<S: Scalar>(a: S)
    requires
        exact::<S>(),
    ensures
        a.spec_times(S::spec_zero()) == S::spec_zero(),
        S::spec_zero().spec_times(a) == S::spec_zero(),
{
    let zero = S::spec_zero();
    let p = a.spec_times(zero);
    plus_zero(zero);
    times_spread(a, zero, zero);
    plus_zero(p);
    assert(p.spec_plus(p) == zero.spec_plus(p));
    cancel(p, zero, p);
    times_flip(a, zero);
}

/// `(a + b) - (c + d) = (a - c) + (b - d)`.
pub proof fn minus_pairs<S: Scalar>(a: S, b: S, c: S, d: S)
    requires
        exact::<S>(),
    ensures
        a.spec_plus(b).spec_minus(c.spec_plus(d)) == a.spec_minus(c).spec_plus(b.spec_minus(d)),
{
    let x = a.spec_minus(c);
    let y = b.spec_minus(d);
    minus_plus(a, c);
    minus_plus(b, d);
    // (x + y) + (c + d) = (x + c) + (y + d) = a + b
    plus_pairs(x, y, c, d);
    minus_plus(x.spec_plus(y), c.spec_plus(d));
}

/// `(a + b) + (c + d) = (a + c) + (b + d)`.
pub proof fn plus_pairs<S: Scalar>(a: S, b: S, c: S, d: S)
    requires
        exact::<S>(),
    ensures
        a.spec_plus(b).spec_plus(c.spec_plus(d)) == a.spec_plus(c).spec_plus(b.spec_plus(d)),
{
    plus_shift(a, b, c.spec_plus(d));
    plus_shift(b, c, d);
    plus_flip(b, c);
    plus_shift(c, b, d);
    plus_shift(a, c, b.spec_plus(d));
}

/// `a (b - c) = a b - a c`.
pub proof fn times_spread_minus<S: Scalar>(a: S, b: S, c: S)
    requires
        exact::<S>(),
    ensures
        a.spec_times(b.spec_minus(c)) == a.spec_times(b).spec_minus(a.spec_times(c)),
        b.spec_minus(c).spec_times(a) == b.spec_times(a).spec_minus(c.spec_times(a)),
{
    let d = b.spec_minus(c);
    minus_plus(b, c);
    times_spread(a, d, c);
    minus_plus(a.spec_times(d), a.spec_times(c));
    times_flip(a, d);
    times_flip(a, b);
    times_flip(a, c);
}

pub proof fn minus_zero<S: Scalar>(a: S)
    requires
        exact::<S>(),
    ensures
        a.spec_minus(S::spec_zero()) == a,
        a.spec_minus(a) == S::spec_zero(),
{
    plus_zero(a);
    minus_plus(a, S::spec_zero());
    minus_plus(S::spec_zero(), a);
}

/// `(a - b) + c = (a + c) - b`.
pub proof fn minus_plus_flip<S: Scalar>(a: S, b: S, c: S)
    requires
        exact::<S>(),
    ensures
        a.spec_minus(b).spec_plus(c) == a.spec_plus(c).spec_minus(b),
{
    let zero = S::spec_zero();
    minus_pairs(a, c, b, zero);
    plus_zero(b);
    minus_zero(c);
}

/// The sum of `f(0)` to `f(n - 1)`.
pub open spec fn total<S: Scalar>(f: spec_fn(int) -> S, n: nat) -> S
    decreases n,
{
    if n == 0 {
        S::spec_zero()
    } else {
        total(f, (n - 1) as nat).spec_plus(f(n - 1))
    }
}

pub proof fn total_same<S: Scalar>(f: spec_fn(int) -> S, g: spec_fn(int) -> S, n: nat)
    requires
        forall|i: int| 0 <= i < n ==> #[trigger] f(i) == g(i),
    ensures
        total(f, n) == total(g, n),
    decreases n,
{
    if n > 0 {
        total_same(f, g, (n - 1) as nat);
    }
}

pub proof fn total_plus<S: Scalar>(f: spec_fn(int) -> S, g: spec_fn(int) -> S, n: nat)
    requires
        exact::<S>(),
    ensures
        total(|i: int| f(i).spec_plus(g(i)), n) == total(f, n).spec_plus(total(g, n)),
    decreases n,
{
    if n == 0 {
        plus_zero(S::spec_zero());
    } else {
        let m = (n - 1) as nat;
        total_plus(f, g, m);
        plus_pairs(total(f, m), total(g, m), f(n - 1), g(n - 1));
    }
}

pub proof fn total_minus<S: Scalar>(f: spec_fn(int) -> S, g: spec_fn(int) -> S, n: nat)
    requires
        exact::<S>(),
    ensures
        total(|i: int| f(i).spec_minus(g(i)), n) == total(f, n).spec_minus(total(g, n)),
    decreases n,
{
    if n == 0 {
        minus_zero(S::spec_zero());
    } else {
        let m = (n - 1) as nat;
        total_minus(f, g, m);
        minus_pairs(total(f, m), f(n - 1), total(g, m), g(n - 1));
    }
}

pub proof fn total_times<S: Scalar>(f: spec_fn(int) -> S, a: S, n: nat)
    requires
        exact::<S>(),
    ensures
        total(|i: int| a.spec_times(f(i)), n) == a.spec_times(total(f, n)),
    decreases n,
{
    if n == 0 {
        times_zero(a);
    } else {
        let m = (n - 1) as nat;
        total_times(f, a, m);
        times_spread(a, total(f, m), f(n - 1));
    }
}

pub proof fn total_zero<S: Scalar>(f: spec_fn(int) -> S, n: nat)
    requires
        exact::<S>(),
        forall|i: int| 0 <= i < n ==> #[trigger] f(i) == S::spec_zero(),
    ensures
        total(f, n) == S::spec_zero(),
    decreases n,
{
    if n > 0 {
        total_zero(f, (n - 1) as nat);
        plus_zero(S::spec_zero());
    }
}

/// A double sum can be formed by rows or by columns.
pub proof fn total_swap<S: Scalar>(f: spec_fn(int, int) -> S, n: nat, m: nat)
    requires
        exact::<S>(),
    ensures
        total(|i: int| total(|j: int| f(i, j), m), n) == total(|j: int| total(|i: int| f(i, j), n), m),
    decreases n,
{
    let outer = |i: int| total(|j: int| f(i, j), m);
    let flipped = |j: int| total(|i: int| f(i, j), n);
    if n == 0 {
        total_zero(flipped, m);
    } else {
        let n1 = (n - 1) as nat;
        total_swap(f, n1, m);
        let before = |j: int| total(|i: int| f(i, j), n1);
        let last = |j: int| f(n - 1, j);
        total_plus(before, last, m);
        let both = |j: int| before(j).spec_plus(last(j));
        assert forall|j: int| 0 <= j < m implies #[trigger] both(j) == flipped(j) by {
            let column = |i: int| f(i, j);
            assert(total(column, n) == total(column, n1).spec_plus(f(n - 1, j)));
        }
        total_same(both, flipped, m);
        let row = |j: int| f(n - 1, j);
        assert(outer(n - 1) == total(row, m));
    }
}

/// A sum in which only member `at` counts.
pub proof fn total_single<S: Scalar>(f: spec_fn(int) -> S, at: int, n: nat)
    requires
        exact::<S>(),
        forall|i: int| 0 <= i < n && i != at ==> #[trigger] f(i) == S::spec_zero(),
    ensures
        total(f, n) == if 0 <= at < n {
            f(at)
        } else {
            S::spec_zero()
        },
    decreases n,
{
    if n > 0 {
        total_single(f, at, (n - 1) as nat);
        if n - 1 == at {
            plus_zero(f(at));
        } else {
            assert(f(n - 1) == S::spec_zero());
            plus_zero(total(f, (n - 1) as nat));
        }
    }
}

/// An ordered accumulation is its start plus a sum.
pub proof fn mul_acc_total<S: Scalar>(acc: S, x: Seq<S>, y: Seq<S>, k: nat)
    requires
        exact::<S>(),
    ensures
        mul_acc(acc, x, y, k) == acc.spec_plus(total(|i: int| x[i].spec_times(y[i]), k)),
    decreases k,
{
    let f = |i: int| x[i].spec_times(y[i]);
    if k == 0 {
        plus_zero(acc);
    } else {
        let m = (k - 1) as nat;
        mul_acc_total(acc, x, y, m);
        plus_shift(acc, total(f, m), f(k - 1));
    }
}

/// An ordered accumulation from zero is a sum.
pub proof fn mul_acc_from_zero<S: Scalar>(x: Seq<S>, y: Seq<S>, k: nat)
    requires
        exact::<S>(),
    ensures
        mul_acc(S::spec_zero(), x, y, k) == total(|i: int| x[i].spec_times(y[i]), k),
{
    mul_acc_total(S::spec_zero(), x, y, k);
    plus_zero(total(|i: int| x[i].spec_times(y[i]), k));
}

/// The inner product of one batch element is a double sum.
pub proof fn batch_dot_total<S: Scalar>(a: Arr3<S>, c: Arr3<S>, b: int, n: nat)
    requires
        exact::<S>(),
    ensures
        batch_dot(a, c, b, n) == total(
            |i: int| total(|k: int| a.at(i, b, k).spec_times(c.at(i, b, k)), a.d),
            n,
        ),
    decreases n,
{
    let f = |i: int| total(|k: int| a.at(i, b, k).spec_times(c.at(i, b, k)), a.d);
    if n > 0 {
        let m = (n - 1) as nat;
        batch_dot_total(a, c, b, m);
        let x = a.data[n - 1][b];
        let y = c.data[n - 1][b];
        mul_acc_total(batch_dot(a, c, b, m), x, y, a.d);
        total_same(
            |i: int| x[i].spec_times(y[i]),
            |k: int| a.at(n - 1, b, k).spec_times(c.at(n - 1, b, k)),
            a.d,
        );
    }
}

} // verus!
