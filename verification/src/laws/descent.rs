//! Laws of numbers that stand for the real numbers.
//!
//! A soft consensus step never raises the sheaf energy of its target, for numbers that are
//! exact and ordered as the real numbers are. The guard of the denominators only shortens the
//! steps, so each of them goes down.
use super::geometry::{laplacian_form_is_squares, laplacian_is_symmetric};
use super::lora::{lora_laplacian_form_is_squares, lora_laplacian_is_symmetric};
use super::reals::{
    between, factor_is_not_negative, flip, mixture, negated, prod, product_is_not_negative, share,
    spread, spread_minus, square_is_not_negative, swap, unit,
};
use super::ring::exact;
use crate::algebra::{advance3, batch_dots, diff3, retreat3, scaled3};
use crate::geometry::{energy_of, FixedModel, LoraModel, Operators};
use crate::graph::mirrors;
use crate::reduce::{batch_dot, slab_squares, sum_squares};
use crate::scalar::{mul_acc, Scalar};
use crate::solvers::{
    cg_epsilon, cg_initial, cg_iterate, cg_next, consensus_of, ratios, simple_of, system_of, CgState,
    UnrolledCgParams, ZMode,
};
use crate::tensor::Arr3;
use vstd::prelude::*;

verus! {

/// Every number stands for a real number, and the operations and the order are those of the
/// real numbers.
#[verifier::opaque]
pub open spec fn stands_for<S: Scalar>(v: spec_fn(S) -> real) -> bool {
    &&& v(S::spec_zero()) == 0real
    &&& forall|a: S, b: S| v(#[trigger] a.spec_plus(b)) == v(a) + v(b)
    &&& forall|a: S, b: S| v(#[trigger] a.spec_minus(b)) == v(a) - v(b)
    &&& forall|a: S, b: S| v(#[trigger] a.spec_times(b)) == prod(v(a), v(b))
    &&& forall|a: S, b: S| v(b) > 0real ==> prod(v(#[trigger] a.spec_over(b)), v(b)) == v(a)
    &&& forall|a: S, b: S| #[trigger] a.spec_less(b) == (v(a) < v(b))
    &&& v(cg_epsilon::<S>()) > 0real
    &&& v(S::spec_decimal(5, -1)) > 0real
}

/// The inner product of a batch element, as a real number.
pub open spec fn inner<S: Scalar>(v: spec_fn(S) -> real, a: Arr3<S>, c: Arr3<S>, b: int) -> real {
    v(batch_dot(a, c, b, a.n))
}

proof fn mixes(y: real, a: real, c: real, f: real, g: real, p: real, q: real)
    ensures
        (prod(f, p) + prod(g, q)) + prod(y, prod(f, a) + prod(g, c)) == prod(f, p + prod(y, a)) + prod(
            g,
            q + prod(y, c),
        ),
{
    spread(y, prod(f, a), prod(g, c));
    swap(y, f, a);
    swap(y, g, c);
    spread(f, p, prod(y, a));
    spread(g, q, prod(y, c));
}

proof fn row_mix<S: Scalar>(
    v: spec_fn(S) -> real,
    y: Seq<S>,
    e: Seq<S>,
    a: Seq<S>,
    c: Seq<S>,
    f: real,
    g: real,
    se: S,
    sa: S,
    sc: S,
    k: nat,
)
    requires
        stands_for(v),
        v(se) == prod(f, v(sa)) + prod(g, v(sc)),
        forall|i: int| 0 <= i < k ==> v(#[trigger] e[i]) == prod(f, v(a[i])) + prod(g, v(c[i])),
    ensures
        v(mul_acc(se, y, e, k)) == prod(f, v(mul_acc(sa, y, a, k))) + prod(g, v(mul_acc(sc, y, c, k))),
    decreases k,
{
    if k > 0 {
        row_mix(v, y, e, a, c, f, g, se, sa, sc, (k - 1) as nat);
        reveal(stands_for);
        assert(v(e[k - 1]) == prod(f, v(a[k - 1])) + prod(g, v(c[k - 1])));
        mixes(
            v(y[k - 1]),
            v(a[k - 1]),
            v(c[k - 1]),
            f,
            g,
            v(mul_acc(sa, y, a, (k - 1) as nat)),
            v(mul_acc(sc, y, c, (k - 1) as nat)),
        );
    }
}

/// The inner product with a mixture of two states is the mixture of the inner products.
proof fn dot_mix<S: Scalar>(
    v: spec_fn(S) -> real,
    y: Arr3<S>,
    e: Arr3<S>,
    a: Arr3<S>,
    c: Arr3<S>,
    f: real,
    g: real,
    b: int,
    n: nat,
)
    requires
        stands_for(v),
        forall|i: int, k: int|
            0 <= i < n && 0 <= k < y.d ==> v(#[trigger] e.at(i, b, k)) == prod(f, v(a.at(i, b, k))) + prod(
                g,
                v(c.at(i, b, k)),
            ),
    ensures
        v(batch_dot(y, e, b, n)) == prod(f, v(batch_dot(y, a, b, n))) + prod(g, v(batch_dot(y, c, b, n))),
    decreases n,
{
    if n > 0 {
        let m = (n - 1) as nat;
        dot_mix(v, y, e, a, c, f, g, b, m);
        assert forall|k: int| 0 <= k < y.d implies v(#[trigger] e.data[n - 1][b][k]) == prod(
            f,
            v(a.data[n - 1][b][k]),
        ) + prod(g, v(c.data[n - 1][b][k])) by {
            assert(v(e.at(n - 1, b, k)) == prod(f, v(a.at(n - 1, b, k))) + prod(g, v(c.at(n - 1, b, k))));
        }
        row_mix(
            v,
            y.data[n - 1][b],
            e.data[n - 1][b],
            a.data[n - 1][b],
            c.data[n - 1][b],
            f,
            g,
            batch_dot(y, e, b, m),
            batch_dot(y, a, b, m),
            batch_dot(y, c, b, m),
            y.d,
        );
    } else {
        reveal(stands_for);
        unit(f);
        unit(g);
    }
}

proof fn row_flip<S: Scalar>(v: spec_fn(S) -> real, x: Seq<S>, y: Seq<S>, s: S, t: S, k: nat)
    requires
        stands_for(v),
        v(s) == v(t),
    ensures
        v(mul_acc(s, x, y, k)) == v(mul_acc(t, y, x, k)),
    decreases k,
{
    if k > 0 {
        row_flip(v, x, y, s, t, (k - 1) as nat);
        reveal(stands_for);
        flip(v(x[k - 1]), v(y[k - 1]));
    }
}

proof fn dot_flip<S: Scalar>(v: spec_fn(S) -> real, a: Arr3<S>, c: Arr3<S>, b: int, n: nat)
    requires
        stands_for(v),
        a.d == c.d,
    ensures
        v(batch_dot(a, c, b, n)) == v(batch_dot(c, a, b, n)),
    decreases n,
{
    if n > 0 {
        let m = (n - 1) as nat;
        dot_flip(v, a, c, b, m);
        row_flip(v, a.data[n - 1][b], c.data[n - 1][b], batch_dot(a, c, b, m), batch_dot(c, a, b, m), a.d);
    }
}

proof fn row_squares_rise<S: Scalar>(v: spec_fn(S) -> real, x: Seq<S>, s: S, k: nat)
    requires
        stands_for(v),
    ensures
        v(mul_acc(s, x, x, k)) >= v(s),
    decreases k,
{
    if k > 0 {
        row_squares_rise(v, x, s, (k - 1) as nat);
        reveal(stands_for);
        square_is_not_negative(v(x[k - 1]));
    }
}

proof fn dot_square<S: Scalar>(v: spec_fn(S) -> real, a: Arr3<S>, b: int, n: nat)
    requires
        stands_for(v),
    ensures
        v(batch_dot(a, a, b, n)) >= 0real,
    decreases n,
{
    if n > 0 {
        dot_square(v, a, b, (n - 1) as nat);
        row_squares_rise(v, a.data[n - 1][b], batch_dot(a, a, b, (n - 1) as nat), a.d);
    } else {
        reveal(stands_for);
    }
}

/// A system of soft consensus on states of one shape.
#[verifier::reject_recursive_types(S)]
ghost struct Soft<S> {
    v: spec_fn(S) -> real,
    ops: Operators<S>,
    params: UnrolledCgParams<S>,
    rho: S,
    n: nat,
    bs: nat,
    d: nat,
}

impl<S: Scalar> Soft<S> {
    /// The Laplacian is self-adjoint and its form is not negative; the weights are not.
    spec fn wf(self) -> bool {
        let v = self.v;
        &&& stands_for(v)
        &&& self.params.mode == ZMode::Prox
        &&& v(self.params.gamma) > 0real
        &&& v(self.rho) >= 0real
        &&& forall|z: Arr3<S>|
            z.has_shape(self.n, self.bs, self.d) ==> (#[trigger] self.ops.laplacian_of(z)).has_shape(
                self.n,
                self.bs,
                self.d,
            )
        &&& forall|a: Arr3<S>, z: Arr3<S>, b: int|
            a.has_shape(self.n, self.bs, self.d) && z.has_shape(self.n, self.bs, self.d) && 0 <= b < self.bs
                ==> #[trigger] inner(v, a, self.ops.laplacian_of(z), b) == inner(
                v,
                self.ops.laplacian_of(a),
                z,
                b,
            )
        &&& forall|z: Arr3<S>, b: int|
            z.has_shape(self.n, self.bs, self.d) && 0 <= b < self.bs ==> #[trigger] self.form(z, b) >= 0real
    }

    /// The state has the shape of the system.
    spec fn fits(self, z: Arr3<S>) -> bool {
        z.has_shape(self.n, self.bs, self.d)
    }

    /// The quadratic form of the Laplacian.
    spec fn form(self, z: Arr3<S>, b: int) -> real {
        inner(self.v, z, self.ops.laplacian_of(z), b)
    }

    /// The operator that is inverted.
    spec fn apply(self, z: Arr3<S>) -> Arr3<S> {
        system_of(self.ops, self.params, self.rho, z)
    }

    /// What the steps bring down: `<x, A x> - 2 <x, c>`.
    spec fn height(self, c: Arr3<S>, x: Arr3<S>, b: int) -> real {
        inner(self.v, x, self.apply(x), b) - 2real * inner(self.v, x, c, b)
    }

    /// The inner product with the system applied to a state.
    proof fn tested(self, y: Arr3<S>, z: Arr3<S>, b: int)
        requires
            self.wf(),
            self.fits(y),
            self.fits(z),
            0 <= b < self.bs,
        ensures
            self.fits(self.apply(z)),
            inner(self.v, y, self.apply(z), b) == prod(
                (self.v)(self.params.gamma),
                inner(self.v, y, self.ops.laplacian_of(z), b),
            ) + prod((self.v)(self.rho), inner(self.v, y, z, b)),
    {
        let lz = self.ops.laplacian_of(z);
        let e = self.apply(z);
        let (f, g) = ((self.v)(self.params.gamma), (self.v)(self.rho));
        assert(lz.has_shape(self.n, self.bs, self.d));
        assert forall|i: int, k: int| 0 <= i < self.n && 0 <= k < y.d implies (self.v)(#[trigger] e.at(i, b, k)) == prod(
            f,
            (self.v)(lz.at(i, b, k)),
        ) + prod(g, (self.v)(z.at(i, b, k))) by {
            reveal(stands_for);
        }
        dot_mix(self.v, y, e, lz, z, f, g, b, self.n);
    }

    /// The system is self-adjoint.
    proof fn self_adjoint(self, a: Arr3<S>, z: Arr3<S>, b: int)
        requires
            self.wf(),
            self.fits(a),
            self.fits(z),
            0 <= b < self.bs,
        ensures
            inner(self.v, a, self.apply(z), b) == inner(self.v, z, self.apply(a), b),
    {
        self.tested(a, z, b);
        self.tested(z, a, b);
        let la = self.ops.laplacian_of(a);
        assert(la.has_shape(self.n, self.bs, self.d));
        assert(inner(self.v, a, self.ops.laplacian_of(z), b) == inner(self.v, la, z, b));
        dot_flip(self.v, la, z, b, self.n);
        dot_flip(self.v, a, z, b, self.n);
    }

    /// The form of the system is not negative.
    proof fn system_form(self, z: Arr3<S>, b: int)
        requires
            self.wf(),
            self.fits(z),
            0 <= b < self.bs,
        ensures
            inner(self.v, z, self.apply(z), b) >= 0real,
    {
        self.tested(z, z, b);
        assert(self.form(z, b) >= 0real);
        dot_square(self.v, z, b, self.n);
        let (f, g, p, q) = (
            (self.v)(self.params.gamma),
            (self.v)(self.rho),
            self.form(z, b),
            inner(self.v, z, z, b),
        );
        product_is_not_negative(f, p);
        product_is_not_negative(g, q);
    }

    /// The inner product with a state moved along another.
    proof fn advanced(self, y: Arr3<S>, a: Arr3<S>, s: Seq<S>, p: Arr3<S>, b: int)
        requires
            stands_for(self.v),
            self.fits(y),
            self.fits(a),
            self.fits(p),
            0 <= b < self.bs,
        ensures
            inner(self.v, y, advance3(a, s, p), b) == inner(self.v, y, a, b) + prod(
                (self.v)(s[b]),
                inner(self.v, y, p, b),
            ),
    {
        let e = advance3(a, s, p);
        let w = (self.v)(s[b]);
        assert forall|i: int, k: int| 0 <= i < self.n && 0 <= k < y.d implies (self.v)(#[trigger] e.at(i, b, k))
            == prod(1real, (self.v)(a.at(i, b, k))) + prod(w, (self.v)(p.at(i, b, k))) by {
            reveal(stands_for);
            flip((self.v)(p.at(i, b, k)), w);
            unit((self.v)(a.at(i, b, k)));
        }
        dot_mix(self.v, y, e, a, p, 1real, w, b, self.n);
        unit(inner(self.v, y, a, b));
    }

    /// The inner product with a state moved back along another.
    proof fn retreated(self, y: Arr3<S>, a: Arr3<S>, s: Seq<S>, p: Arr3<S>, b: int)
        requires
            stands_for(self.v),
            self.fits(y),
            self.fits(a),
            self.fits(p),
            0 <= b < self.bs,
        ensures
            inner(self.v, y, retreat3(a, s, p), b) == inner(self.v, y, a, b) - prod(
                (self.v)(s[b]),
                inner(self.v, y, p, b),
            ),
    {
        let e = retreat3(a, s, p);
        let w = (self.v)(s[b]);
        assert forall|i: int, k: int| 0 <= i < self.n && 0 <= k < y.d implies (self.v)(#[trigger] e.at(i, b, k))
            == prod(1real, (self.v)(a.at(i, b, k))) + prod(-w, (self.v)(p.at(i, b, k))) by {
            reveal(stands_for);
            flip((self.v)(p.at(i, b, k)), w);
            negated(w, (self.v)(p.at(i, b, k)));
            unit((self.v)(a.at(i, b, k)));
        }
        dot_mix(self.v, y, e, a, p, 1real, -w, b, self.n);
        unit(inner(self.v, y, a, b));
        negated(w, inner(self.v, y, p, b));
    }

    /// What the iteration keeps.
    spec fn on_course(self, c: Arr3<S>, x0: Arr3<S>, s: CgState<S>, b: int) -> bool {
        &&& self.fits(s.x)
        &&& self.fits(s.r)
        &&& self.fits(s.p)
        &&& s.rtr == batch_dots(s.r, s.r)
        &&& forall|y: Arr3<S>|
            self.fits(y) ==> #[trigger] inner(self.v, y, s.r, b) == inner(self.v, y, c, b) - inner(
                self.v,
                y,
                self.apply(s.x),
                b,
            )
        &&& inner(self.v, s.p, s.r, b) >= inner(self.v, s.r, s.r, b)
        &&& self.height(c, s.x, b) <= self.height(c, x0, b)
    }

    proof fn starts(self, c: Arr3<S>, x0: Arr3<S>, b: int)
        requires
            self.wf(),
            self.fits(c),
            self.fits(x0),
            0 <= b < self.bs,
        ensures
            self.on_course(c, x0, cg_initial(self.ops, self.params, self.rho, c, x0), b),
    {
        let s = cg_initial(self.ops, self.params, self.rho, c, x0);
        self.tested(x0, x0, b);
        let ax = self.apply(x0);
        assert forall|y: Arr3<S>| self.fits(y) implies #[trigger] inner(self.v, y, s.r, b) == inner(
            self.v,
            y,
            c,
            b,
        ) - inner(self.v, y, ax, b) by {
            assert forall|i: int, k: int| 0 <= i < self.n && 0 <= k < y.d implies (self.v)(
                #[trigger] s.r.at(i, b, k),
            ) == prod(1real, (self.v)(c.at(i, b, k))) + prod(-1real, (self.v)(ax.at(i, b, k))) by {
                reveal(stands_for);
                unit((self.v)(c.at(i, b, k)));
                unit((self.v)(ax.at(i, b, k)));
            }
            dot_mix(self.v, y, s.r, c, ax, 1real, -1real, b, self.n);
            unit(inner(self.v, y, c, b));
            unit(inner(self.v, y, ax, b));
        }
    }

    /// The length of a step: not negative, and no longer than the guard leaves it.
    proof fn step_length(self, s: CgState<S>, b: int)
        requires
            self.wf(),
            self.fits(s.r),
            self.fits(s.p),
            s.rtr == batch_dots(s.r, s.r),
            0 <= b < self.bs,
        ensures
            ({
                let ap = self.apply(s.p);
                let a = (self.v)(ratios(s.rtr, batch_dots(s.p, ap))[b]);
                &&& a >= 0real
                &&& prod(a, inner(self.v, s.p, ap, b)) <= inner(self.v, s.r, s.r, b)
            }),
    {
        let ap = self.apply(s.p);
        self.system_form(s.p, b);
        let rr = inner(self.v, s.r, s.r, b);
        let q = inner(self.v, s.p, ap, b);
        let a = (self.v)(ratios(s.rtr, batch_dots(s.p, ap))[b]);
        let eps = (self.v)(cg_epsilon::<S>());
        dot_square(self.v, s.r, b, self.n);
        assert(eps > 0real && prod(a, q + eps) == rr) by {
            reveal(stands_for);
        }
        factor_is_not_negative(a, q + eps);
        spread(a, q, eps);
        product_is_not_negative(a, eps);
    }

    /// The residual stays the true one.
    proof fn residual_goes_on(self, c: Arr3<S>, x0: Arr3<S>, s: CgState<S>, b: int, y: Arr3<S>)
        requires
            self.wf(),
            0 <= b < self.bs,
            self.on_course(c, x0, s, b),
            self.fits(y),
        ensures
            ({
                let t = cg_next(self.ops, self.params, self.rho, s);
                inner(self.v, y, t.r, b) == inner(self.v, y, c, b) - inner(self.v, y, self.apply(t.x), b)
            }),
    {
        let ap = self.apply(s.p);
        let alpha = ratios(s.rtr, batch_dots(s.p, ap));
        self.tested(s.p, s.p, b);
        self.retreated(y, s.r, alpha, ap, b);
        self.moved(y, s.x, alpha, s.p, b);
        assert(inner(self.v, y, s.r, b) == inner(self.v, y, c, b) - inner(self.v, y, self.apply(s.x), b));
    }

    /// The new direction still leads down.
    proof fn direction_goes_on(self, c: Arr3<S>, x0: Arr3<S>, s: CgState<S>, b: int)
        requires
            self.wf(),
            0 <= b < self.bs,
            self.on_course(c, x0, s, b),
        ensures
            ({
                let t = cg_next(self.ops, self.params, self.rho, s);
                inner(self.v, t.p, t.r, b) >= inner(self.v, t.r, t.r, b)
            }),
    {
        let v = self.v;
        let t = cg_next(self.ops, self.params, self.rho, s);
        let ap = self.apply(s.p);
        let alpha = ratios(s.rtr, batch_dots(s.p, ap));
        let beta = ratios(t.rtr, s.rtr);
        self.tested(s.p, s.p, b);
        self.step_length(s, b);
        assert(self.fits(t.r));
        assert(self.fits(t.p));
        let rr = inner(v, s.r, s.r, b);
        let rr2 = inner(v, t.r, t.r, b);
        let w = v(beta[b]);
        let eps = v(cg_epsilon::<S>());
        self.retreated(s.p, s.r, alpha, ap, b);
        let pr2 = inner(v, s.p, t.r, b);
        assert(pr2 >= 0real);
        dot_square(v, s.r, b, self.n);
        dot_square(v, t.r, b, self.n);
        assert(eps > 0real && prod(w, rr + eps) == rr2) by {
            reveal(stands_for);
        }
        factor_is_not_negative(w, rr + eps);
        product_is_not_negative(w, pr2);
        dot_flip(v, t.p, t.r, b, self.n);
        self.advanced(t.r, t.r, beta, s.p, b);
        dot_flip(v, t.r, s.p, b, self.n);
    }

    /// The step itself goes down.
    proof fn height_goes_on(self, c: Arr3<S>, x0: Arr3<S>, s: CgState<S>, b: int)
        requires
            self.wf(),
            self.fits(c),
            0 <= b < self.bs,
            self.on_course(c, x0, s, b),
        ensures
            self.height(c, cg_next(self.ops, self.params, self.rho, s).x, b) <= self.height(c, s.x, b),
    {
        let v = self.v;
        let t = cg_next(self.ops, self.params, self.rho, s);
        let ap = self.apply(s.p);
        let ax = self.apply(s.x);
        let alpha = ratios(s.rtr, batch_dots(s.p, ap));
        let a = v(alpha[b]);
        self.tested(s.p, s.p, b);
        self.tested(s.x, s.x, b);
        self.step_length(s, b);
        assert(self.fits(t.x));
        self.moved(t.x, s.x, alpha, s.p, b);
        self.advance_flipped(s.x, alpha, s.p, ax, b);
        self.advance_flipped(s.x, alpha, s.p, ap, b);
        self.advance_flipped(s.x, alpha, s.p, c, b);
        self.self_adjoint(s.x, s.p, b);
        let rr = inner(v, s.r, s.r, b);
        let q = inner(v, s.p, ap, b);
        let pr = inner(v, s.p, s.r, b);
        let pax = inner(v, s.p, ax, b);
        let pc = inner(v, s.p, c, b);
        assert(pr == pc - pax);
        dot_square(v, s.r, b, self.n);
        // a (a q) <= a rr <= a pr = a pc - a pax
        spread(a, pax, prod(a, q));
        spread_minus(a, rr, prod(a, q));
        product_is_not_negative(a, rr - prod(a, q));
        spread_minus(a, pr, rr);
        product_is_not_negative(a, pr - rr);
        product_is_not_negative(a, pr);
        spread_minus(a, pc, pax);
    }

    /// One step keeps the course.
    proof fn goes_on(self, c: Arr3<S>, x0: Arr3<S>, s: CgState<S>, b: int)
        requires
            self.wf(),
            self.fits(c),
            self.fits(x0),
            0 <= b < self.bs,
            self.on_course(c, x0, s, b),
        ensures
            self.on_course(c, x0, cg_next(self.ops, self.params, self.rho, s), b),
    {
        let t = cg_next(self.ops, self.params, self.rho, s);
        self.tested(s.p, s.p, b);
        self.direction_goes_on(c, x0, s, b);
        self.height_goes_on(c, x0, s, b);
        assert forall|y: Arr3<S>| self.fits(y) implies #[trigger] inner(self.v, y, t.r, b) == inner(
            self.v,
            y,
            c,
            b,
        ) - inner(self.v, y, self.apply(t.x), b) by {
            self.residual_goes_on(c, x0, s, b, y);
        }
    }

    /// The inner product with the system applied to a moved state.
    proof fn moved(self, y: Arr3<S>, x: Arr3<S>, s: Seq<S>, p: Arr3<S>, b: int)
        requires
            self.wf(),
            self.fits(y),
            self.fits(x),
            self.fits(p),
            0 <= b < self.bs,
        ensures
            inner(self.v, y, self.apply(advance3(x, s, p)), b) == inner(self.v, y, self.apply(x), b) + prod(
                (self.v)(s[b]),
                inner(self.v, y, self.apply(p), b),
            ),
    {
        let e = advance3(x, s, p);
        self.self_adjoint(y, e, b);
        self.self_adjoint(y, x, b);
        self.self_adjoint(y, p, b);
        self.tested(y, y, b);
        let ay = self.apply(y);
        dot_flip(self.v, e, ay, b, self.n);
        dot_flip(self.v, x, ay, b, self.n);
        dot_flip(self.v, p, ay, b, self.n);
        self.advanced(ay, x, s, p, b);
    }

    /// The inner product of a moved state.
    proof fn advance_flipped(self, x: Arr3<S>, s: Seq<S>, p: Arr3<S>, y: Arr3<S>, b: int)
        requires
            stands_for(self.v),
            self.fits(y),
            self.fits(x),
            self.fits(p),
            0 <= b < self.bs,
        ensures
            inner(self.v, advance3(x, s, p), y, b) == inner(self.v, x, y, b) + prod(
                (self.v)(s[b]),
                inner(self.v, p, y, b),
            ),
    {
        dot_flip(self.v, advance3(x, s, p), y, b, self.n);
        dot_flip(self.v, x, y, b, self.n);
        dot_flip(self.v, p, y, b, self.n);
        self.advanced(y, x, s, p, b);
    }

    proof fn stays(self, c: Arr3<S>, x0: Arr3<S>, b: int, t: nat)
        requires
            self.wf(),
            self.fits(c),
            self.fits(x0),
            0 <= b < self.bs,
        ensures
            self.on_course(c, x0, cg_iterate(self.ops, self.params, self.rho, c, x0, t), b),
        decreases t,
    {
        if t == 0 {
            self.starts(c, x0, b);
        } else {
            self.stays(c, x0, b, (t - 1) as nat);
            self.goes_on(c, x0, cg_iterate(self.ops, self.params, self.rho, c, x0, (t - 1) as nat), b);
        }
    }

    /// The form of a batch element does not rise.
    proof fn form_falls(self, target: Arr3<S>, prev: Arr3<S>, b: int)
        requires
            self.wf(),
            self.fits(target),
            0 <= b < self.bs,
        ensures
            self.fits(consensus_of(target, prev, self.ops, self.params, self.rho)),
            self.form(consensus_of(target, prev, self.ops, self.params, self.rho), b) <= self.form(target, b),
    {
        let v = self.v;
        let c = scaled3(self.rho, target);
        let x = consensus_of(target, prev, self.ops, self.params, self.rho);
        self.stays(c, target, b, self.params.num_iters as nat);
        self.tested(x, x, b);
        self.tested(target, target, b);
        let (g, f) = (v(self.rho), v(self.params.gamma));
        self.scaled(x, target, b);
        self.scaled(target, target, b);
        // rho |x - target|^2 is not negative.
        let e = diff3(x, target);
        assert(self.fits(e));
        dot_square(v, e, b, self.n);
        self.difference(e, x, target, b);
        self.difference(x, x, target, b);
        self.difference(target, x, target, b);
        dot_flip(v, e, x, b, self.n);
        dot_flip(v, e, target, b, self.n);
        dot_flip(v, x, target, b, self.n);
        let (xx, xt, tt) = (inner(v, x, x, b), inner(v, x, target, b), inner(v, target, target, b));
        assert(inner(v, e, e, b) == xx - 2real * xt + tt);
        let (qx, qt) = (self.form(x, b), self.form(target, b));
        spread(g, xx - 2real * xt, tt);
        spread_minus(g, xx, 2real * xt);
        spread(g, xt, xt);
        product_is_not_negative(g, xx - 2real * xt + tt);
        spread_minus(f, qt, qx);
        flip(f, qt - qx);
        factor_is_not_negative(qt - qx, f);
    }

    proof fn scaled(self, y: Arr3<S>, z: Arr3<S>, b: int)
        requires
            stands_for(self.v),
            self.fits(y),
            self.fits(z),
            0 <= b < self.bs,
        ensures
            inner(self.v, y, scaled3(self.rho, z), b) == prod((self.v)(self.rho), inner(self.v, y, z, b)),
    {
        let e = scaled3(self.rho, z);
        let g = (self.v)(self.rho);
        assert forall|i: int, k: int| 0 <= i < self.n && 0 <= k < y.d implies (self.v)(#[trigger] e.at(i, b, k)) == prod(
            g,
            (self.v)(z.at(i, b, k)),
        ) + prod(0real, (self.v)(z.at(i, b, k))) by {
            reveal(stands_for);
            unit((self.v)(z.at(i, b, k)));
        }
        dot_mix(self.v, y, e, z, z, g, 0real, b, self.n);
        unit(inner(self.v, y, z, b));
    }

    proof fn difference(self, y: Arr3<S>, x: Arr3<S>, z: Arr3<S>, b: int)
        requires
            stands_for(self.v),
            self.fits(y),
            self.fits(x),
            self.fits(z),
            0 <= b < self.bs,
        ensures
            inner(self.v, y, diff3(x, z), b) == inner(self.v, y, x, b) - inner(self.v, y, z, b),
    {
        let e = diff3(x, z);
        assert forall|i: int, k: int| 0 <= i < self.n && 0 <= k < y.d implies (self.v)(#[trigger] e.at(i, b, k))
            == prod(1real, (self.v)(x.at(i, b, k))) + prod(-1real, (self.v)(z.at(i, b, k))) by {
            reveal(stands_for);
            unit((self.v)(x.at(i, b, k)));
            unit((self.v)(z.at(i, b, k)));
        }
        dot_mix(self.v, y, e, x, z, 1real, -1real, b, self.n);
        unit(inner(self.v, y, x, b));
        unit(inner(self.v, y, z, b));
    }
}

/// The sum of the squared residuals of the first `j` batch elements over the first `e` edges.
spec fn by_batch<S: Scalar>(v: spec_fn(S) -> real, r: Arr3<S>, j: nat, e: nat) -> real
    decreases j,
{
    if j == 0 {
        0real
    } else {
        by_batch(v, r, (j - 1) as nat, e) + v(batch_dot(r, r, j - 1, e))
    }
}

/// Adding to a sum of squares adds to where the sum started.
proof fn row_offset<S: Scalar>(v: spec_fn(S) -> real, x: Seq<S>, s: S, t: S, k: nat)
    requires
        stands_for(v),
    ensures
        v(mul_acc(s, x, x, k)) - v(s) == v(mul_acc(t, x, x, k)) - v(t),
    decreases k,
{
    if k > 0 {
        row_offset(v, x, s, t, (k - 1) as nat);
        reveal(stands_for);
    }
}

proof fn slab_by_batch<S: Scalar>(v: spec_fn(S) -> real, r: Arr3<S>, acc: S, e: nat, j: nat)
    requires
        stands_for(v),
        r.wf(),
        0 < e <= r.n,
        j <= r.b,
    ensures
        v(slab_squares(acc, r.data[e - 1], j)) == v(acc) + by_batch(v, r, j, e) - by_batch(
            v,
            r,
            j,
            (e - 1) as nat,
        ),
    decreases j,
{
    if j > 0 {
        slab_by_batch(v, r, acc, e, (j - 1) as nat);
        let row = r.data[e - 1][j - 1];
        assert(row.len() == r.d);
        row_offset(
            v,
            row,
            slab_squares(acc, r.data[e - 1], (j - 1) as nat),
            batch_dot(r, r, j - 1, (e - 1) as nat),
            r.d,
        );
    }
}

proof fn none_by_batch<S: Scalar>(v: spec_fn(S) -> real, r: Arr3<S>, j: nat)
    requires
        stands_for(v),
    ensures
        by_batch(v, r, j, 0) == 0real,
    decreases j,
{
    reveal(stands_for);
    if j > 0 {
        none_by_batch(v, r, (j - 1) as nat);
    }
}

proof fn squares_by_batch<S: Scalar>(v: spec_fn(S) -> real, r: Arr3<S>, e: nat)
    requires
        stands_for(v),
        r.wf(),
        e <= r.n,
    ensures
        v(sum_squares(r, e)) == by_batch(v, r, r.b, e),
    decreases e,
{
    if e > 0 {
        squares_by_batch(v, r, (e - 1) as nat);
        slab_by_batch(v, r, sum_squares(r, (e - 1) as nat), e, r.b);
    } else {
        reveal(stands_for);
        none_by_batch(v, r, r.b);
    }
}

proof fn batches_compare<S: Scalar>(v: spec_fn(S) -> real, r: Arr3<S>, q: Arr3<S>, j: nat, e: nat)
    requires
        forall|b: int| 0 <= b < j ==> v(#[trigger] batch_dot(r, r, b, e)) <= v(batch_dot(q, q, b, e)),
    ensures
        by_batch(v, r, j, e) <= by_batch(v, q, j, e),
    decreases j,
{
    if j > 0 {
        batches_compare(v, r, q, (j - 1) as nat, e);
        assert(v(batch_dot(r, r, j - 1, e)) <= v(batch_dot(q, q, j - 1, e)));
    }
}

/// Residuals whose squares are no larger in any batch element have no larger energy.
proof fn energies_compare<S: Scalar>(v: spec_fn(S) -> real, r: Arr3<S>, q: Arr3<S>)
    requires
        stands_for(v),
        r.wf(),
        q.same_shape(r),
        forall|b: int| 0 <= b < r.b ==> v(#[trigger] batch_dot(r, r, b, r.n)) <= v(batch_dot(q, q, b, r.n)),
    ensures
        !energy_of(q).spec_less(energy_of(r)),
{
    squares_by_batch(v, r, r.n);
    squares_by_batch(v, q, r.n);
    batches_compare(v, r, q, r.b, r.n);
    let half = v(S::spec_decimal(5, -1));
    let (a, c) = (v(sum_squares(r, r.n)), v(sum_squares(q, r.n)));
    spread_minus(half, c, a);
    assert(half > 0real) by {
        reveal(stands_for);
    }
    product_is_not_negative(half, c - a);
    reveal(stands_for);
}

/// A soft consensus step never raises the sheaf energy of its target, whatever the number of
/// its iterations.
pub proof fn consensus_never_raises_energy<S: Scalar>(
    v: spec_fn(S) -> real,
    model: FixedModel<S>,
    target: Arr3<S>,
    prev: Arr3<S>,
    params: UnrolledCgParams<S>,
    rho: S,
)
    requires
        exact::<S>(),
        stands_for(v),
        model.wf(),
        model.mask is None,
        target.wf(),
        model.admits(target.n, target.b, target.d),
        params.mode == ZMode::Prox,
        S::spec_zero().spec_less(params.gamma),
        !rho.spec_less(S::spec_zero()),
    ensures
        ({
            let z = consensus_of(target, prev, model.operators(), params, rho);
            !energy_of(model.residuals(target)).spec_less(energy_of(model.residuals(z)))
        }),
{
    let (n, bs, d) = (target.n, target.b, target.d);
    let soft = Soft { v, ops: model.operators(), params, rho, n, bs, d };
    let z = consensus_of(target, prev, model.operators(), params, rho);
    assert(v(params.gamma) > 0real && v(rho) >= 0real) by {
        reveal(stands_for);
    }
    assert forall|a: Arr3<S>, c: Arr3<S>, b: int|
        a.has_shape(n, bs, d) && c.has_shape(n, bs, d) && 0 <= b < bs implies #[trigger] inner(
        v,
        a,
        soft.ops.laplacian_of(c),
        b,
    ) == inner(v, soft.ops.laplacian_of(a), c, b) by {
        laplacian_is_symmetric(model, a, c, b);
    }
    assert forall|c: Arr3<S>, b: int| c.has_shape(n, bs, d) && 0 <= b < bs implies #[trigger] soft.form(c, b)
        >= 0real by {
        laplacian_form_is_squares(model, c, b);
        dot_square(v, model.residuals(c), b, model.edges.len());
    }
    assert(soft.wf());
    let (r, q) = (model.residuals(z), model.residuals(target));
    soft_shape(soft, scaled3(rho, target), target, params.num_iters as nat);
    assert forall|b: int| 0 <= b < bs implies v(#[trigger] batch_dot(r, r, b, r.n)) <= v(
        batch_dot(q, q, b, r.n),
    ) by {
        soft.form_falls(target, prev, b);
        laplacian_form_is_squares(model, z, b);
        laplacian_form_is_squares(model, target, b);
    }
    energies_compare(v, r, q);
}

/// The iterates have the shape of the system.
proof fn soft_shape<S: Scalar>(soft: Soft<S>, c: Arr3<S>, x0: Arr3<S>, t: nat)
    requires
        soft.wf(),
        soft.fits(c),
        soft.fits(x0),
    ensures
        ({
            let s = cg_iterate(soft.ops, soft.params, soft.rho, c, x0, t);
            soft.fits(s.x) && soft.fits(s.r) && soft.fits(s.p)
        }),
    decreases t,
{
    assert(soft.ops.laplacian_of(x0).has_shape(soft.n, soft.bs, soft.d));
    if t > 0 {
        soft_shape(soft, c, x0, (t - 1) as nat);
        let s = cg_iterate(soft.ops, soft.params, soft.rho, c, x0, (t - 1) as nat);
        assert(soft.ops.laplacian_of(s.p).has_shape(soft.n, soft.bs, soft.d));
    }
}

/// The same of modulated maps.
pub proof fn lora_consensus_never_raises_energy<S: Scalar>(
    v: spec_fn(S) -> real,
    model: LoraModel<S>,
    target: Arr3<S>,
    prev: Arr3<S>,
    params: UnrolledCgParams<S>,
    rho: S,
)
    requires
        exact::<S>(),
        stands_for(v),
        model.wf(),
        model.base.mask is None,
        target.wf(),
        model.admits(target.n, target.b, target.d),
        params.mode == ZMode::Prox,
        S::spec_zero().spec_less(params.gamma),
        !rho.spec_less(S::spec_zero()),
    ensures
        ({
            let z = consensus_of(target, prev, model.operators(), params, rho);
            !energy_of(model.residuals(target)).spec_less(energy_of(model.residuals(z)))
        }),
{
    let (n, bs, d) = (target.n, target.b, target.d);
    let soft = Soft { v, ops: model.operators(), params, rho, n, bs, d };
    let z = consensus_of(target, prev, model.operators(), params, rho);
    assert(v(params.gamma) > 0real && v(rho) >= 0real) by {
        reveal(stands_for);
    }
    assert forall|a: Arr3<S>, c: Arr3<S>, b: int|
        a.has_shape(n, bs, d) && c.has_shape(n, bs, d) && 0 <= b < bs implies #[trigger] inner(
        v,
        a,
        soft.ops.laplacian_of(c),
        b,
    ) == inner(v, soft.ops.laplacian_of(a), c, b) by {
        lora_laplacian_is_symmetric(model, a, c, b);
    }
    assert forall|c: Arr3<S>, b: int| c.has_shape(n, bs, d) && 0 <= b < bs implies #[trigger] soft.form(c, b)
        >= 0real by {
        lora_laplacian_form_is_squares(model, c, b);
        dot_square(v, model.residuals(c), b, model.base.edges.len());
    }
    assert(soft.wf());
    let (r, q) = (model.residuals(z), model.residuals(target));
    soft_shape(soft, scaled3(rho, target), target, params.num_iters as nat);
    assert forall|b: int| 0 <= b < bs implies v(#[trigger] batch_dot(r, r, b, r.n)) <= v(
        batch_dot(q, q, b, r.n),
    ) by {
        soft.form_falls(target, prev, b);
        lora_laplacian_form_is_squares(model, z, b);
        lora_laplacian_form_is_squares(model, target, b);
    }
    energies_compare(v, r, q);
}

/// Negation mirrors the order of such numbers, so an edge seen from its other end points into
/// the opposite slot for all of them.
pub proof fn exact_numbers_mirror<S: Scalar>(v: spec_fn(S) -> real, d: S)
    requires
        exact::<S>(),
        stands_for(v),
    ensures
        mirrors(d),
{
    reveal(exact);
    reveal(stands_for);
    assert(d.spec_negate() == S::spec_zero().spec_minus(d));
}

/// The tethered average is a convex combination of the tether and the consensus target: its
/// weights are shares of `beta` and `rho`, so it lies between `h` and `z - y`.
pub proof fn tethered_average_lies_between<S: Scalar>(
    v: spec_fn(S) -> real,
    z: Arr3<S>,
    y: Arr3<S>,
    rho: S,
    h: Arr3<S>,
    beta: S,
    i: int,
    j: int,
    k: int,
)
    requires
        stands_for(v),
        0 <= i < z.n,
        0 <= j < z.b,
        0 <= k < z.d,
        !beta.spec_less(S::spec_zero()),
        S::spec_zero().spec_less(rho),
    ensures
        ({
            let x = simple_of(z, y, rho, h, beta).at(i, j, k);
            let t = z.at(i, j, k).spec_minus(y.at(i, j, k));
            let w = v(rho.spec_over(beta.spec_plus(rho)));
            &&& 0real < w <= 1real
            &&& v(x) == prod(1real - w, v(h.at(i, j, k))) + prod(w, v(t))
            &&& !t.spec_less(h.at(i, j, k)) ==> !x.spec_less(h.at(i, j, k)) && !t.spec_less(x)
            &&& !h.at(i, j, k).spec_less(t) ==> !x.spec_less(t) && !h.at(i, j, k).spec_less(x)
        }),
{
    let hi = h.at(i, j, k);
    let t = z.at(i, j, k).spec_minus(y.at(i, j, k));
    let s = beta.spec_plus(rho);
    let num = beta.spec_times(hi).spec_plus(rho.spec_times(t));
    let x = num.spec_over(s);
    assert(simple_of(z, y, rho, h, beta).at(i, j, k) == x);
    let w = v(rho.spec_over(s));
    let (vs, vb, vr, vh, vt, vx) = (v(s), v(beta), v(rho), v(hi), v(t), v(x));
    assert(vb >= 0real && vr > 0real && vs == vb + vr) by {
        reveal(stands_for);
    }
    assert(prod(w, vs) == vr && prod(vx, vs) == prod(vb, vh) + prod(vr, vt)) by {
        reveal(stands_for);
    }
    share(w, vs, vb, vr);
    mixture(w, vs, vb, vr, vh, vt, vx);
    between(w, vh, vt);
    reveal(stands_for);
}

} // verus!
