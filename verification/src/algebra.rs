//! Member-by-member arithmetic on `[N, B, d]` arrays.
use crate::reduce::{batch_dot, batch_inner};
use crate::scalar::Scalar;
use crate::tensor::{Arr3, Tensor3};
use vstd::prelude::*;

verus! {

/// `a + c`.
pub open spec fn sum3<S: Scalar>(a: Arr3<S>, c: Arr3<S>) -> Arr3<S> {
    Arr3::build(a.n, a.b, a.d, |i: int, j: int, k: int| a.at(i, j, k).spec_plus(c.at(i, j, k)))
}

/// `a - c`.
pub open spec fn diff3<S: Scalar>(a: Arr3<S>, c: Arr3<S>) -> Arr3<S> {
    Arr3::build(a.n, a.b, a.d, |i: int, j: int, k: int| a.at(i, j, k).spec_minus(c.at(i, j, k)))
}

/// `f * a + g * c` for numbers `f` and `g`.
pub open spec fn blend3<S: Scalar>(f: S, a: Arr3<S>, g: S, c: Arr3<S>) -> Arr3<S> {
    Arr3::build(
        a.n,
        a.b,
        a.d,
        |i: int, j: int, k: int| f.spec_times(a.at(i, j, k)).spec_plus(g.spec_times(c.at(i, j, k))),
    )
}

/// `f * a` for a number `f`.
pub open spec fn scaled3<S: Scalar>(f: S, a: Arr3<S>) -> Arr3<S> {
    Arr3::build(a.n, a.b, a.d, |i: int, j: int, k: int| f.spec_times(a.at(i, j, k)))
}

/// `a + v * s`, with one factor `s` for each batch element.
pub open spec fn advance3<S: Scalar>(a: Arr3<S>, s: Seq<S>, v: Arr3<S>) -> Arr3<S> {
    Arr3::build(
        a.n,
        a.b,
        a.d,
        |i: int, j: int, k: int| a.at(i, j, k).spec_plus(v.at(i, j, k).spec_times(s[j])),
    )
}

/// `a - v * s`, with one factor `s` for each batch element.
pub open spec fn retreat3<S: Scalar>(a: Arr3<S>, s: Seq<S>, v: Arr3<S>) -> Arr3<S> {
    Arr3::build(
        a.n,
        a.b,
        a.d,
        |i: int, j: int, k: int| a.at(i, j, k).spec_minus(v.at(i, j, k).spec_times(s[j])),
    )
}

/// Inner products of each batch element over agents and stalk dimensions.
pub open spec fn batch_dots<S: Scalar>(a: Arr3<S>, c: Arr3<S>) -> Seq<S> {
    Seq::new(a.b, |b: int| batch_dot(a, c, b, a.n))
}

/// The array of zeros.
pub open spec fn zeros3<S: Scalar>(n: nat, b: nat, d: nat) -> Arr3<S> {
    Arr3::build(n, b, d, |i: int, j: int, k: int| S::spec_zero())
}

pub fn sum_of<S: Scalar>(a: &Tensor3<S>, c: &Tensor3<S>) -> (r: Tensor3<S>)
    requires
        a.wf(),
        c@.same_shape(a@),
    ensures
        r.wf(),
        r@ == sum3(a@, c@),
{
    let (n, b, d) = a.dim();
    Tensor3::from_shape_fn(
        n,
        b,
        d,
        |i: usize, j: usize, k: usize| -> (v: S)
            requires
                i < n,
                j < b,
                k < d,
            ensures
                v == a@.at(i as int, j as int, k as int).spec_plus(c@.at(i as int, j as int, k as int))
            { a.get(i, j, k).plus(c.get(i, j, k)) },
    )
}

pub fn diff_of<S: Scalar>(a: &Tensor3<S>, c: &Tensor3<S>) -> (r: Tensor3<S>)
    requires
        a.wf(),
        c@.same_shape(a@),
    ensures
        r.wf(),
        r@ == diff3(a@, c@),
{
    let (n, b, d) = a.dim();
    Tensor3::from_shape_fn(
        n,
        b,
        d,
        |i: usize, j: usize, k: usize| -> (v: S)
            requires
                i < n,
                j < b,
                k < d,
            ensures
                v == a@.at(i as int, j as int, k as int).spec_minus(c@.at(i as int, j as int, k as int))
            { a.get(i, j, k).minus(c.get(i, j, k)) },
    )
}

pub fn blend_of<S: Scalar>(f: S, a: &Tensor3<S>, g: S, c: &Tensor3<S>) -> (r: Tensor3<S>)
    requires
        a.wf(),
        c@.same_shape(a@),
    ensures
        r.wf(),
        r@ == blend3(f, a@, g, c@),
{
    let (n, b, d) = a.dim();
    Tensor3::from_shape_fn(
        n,
        b,
        d,
        |i: usize, j: usize, k: usize| -> (v: S)
            requires
                i < n,
                j < b,
                k < d,
            ensures
                v == f.spec_times(a@.at(i as int, j as int, k as int)).spec_plus(
                    g.spec_times(c@.at(i as int, j as int, k as int)),
                )
            { f.times(a.get(i, j, k)).plus(g.times(c.get(i, j, k))) },
    )
}

pub fn scaled_of<S: Scalar>(f: S, a: &Tensor3<S>) -> (r: Tensor3<S>)
    requires
        a.wf(),
    ensures
        r.wf(),
        r@ == scaled3(f, a@),
{
    let (n, b, d) = a.dim();
    Tensor3::from_shape_fn(
        n,
        b,
        d,
        |i: usize, j: usize, k: usize| -> (v: S)
            requires
                i < n,
                j < b,
                k < d,
            ensures
                v == f.spec_times(a@.at(i as int, j as int, k as int))
            { f.times(a.get(i, j, k)) },
    )
}

pub fn advance<S: Scalar>(a: &Tensor3<S>, s: &Vec<S>, v: &Tensor3<S>) -> (r: Tensor3<S>)
    requires
        a.wf(),
        v@.same_shape(a@),
        s@.len() == a@.b,
    ensures
        r.wf(),
        r@ == advance3(a@, s@, v@),
{
    let (n, b, d) = a.dim();
    Tensor3::from_shape_fn(
        n,
        b,
        d,
        |i: usize, j: usize, k: usize| -> (w: S)
            requires
                i < n,
                j < b,
                k < d,
            ensures
                w == a@.at(i as int, j as int, k as int).spec_plus(
                    v@.at(i as int, j as int, k as int).spec_times(s@[j as int]),
                )
            { a.get(i, j, k).plus(v.get(i, j, k).times(s[j])) },
    )
}

pub fn retreat<S: Scalar>(a: &Tensor3<S>, s: &Vec<S>, v: &Tensor3<S>) -> (r: Tensor3<S>)
    requires
        a.wf(),
        v@.same_shape(a@),
        s@.len() == a@.b,
    ensures
        r.wf(),
        r@ == retreat3(a@, s@, v@),
{
    let (n, b, d) = a.dim();
    Tensor3::from_shape_fn(
        n,
        b,
        d,
        |i: usize, j: usize, k: usize| -> (w: S)
            requires
                i < n,
                j < b,
                k < d,
            ensures
                w == a@.at(i as int, j as int, k as int).spec_minus(
                    v@.at(i as int, j as int, k as int).spec_times(s@[j as int]),
                )
            { a.get(i, j, k).minus(v.get(i, j, k).times(s[j])) },
    )
}

/// Batched inner product: over agents and stalk dimensions, one for each batch element.
pub fn bdot<S: Scalar>(a: &Tensor3<S>, c: &Tensor3<S>) -> (r: Vec<S>)
    requires
        a.wf(),
        c@.same_shape(a@),
    ensures
        r@ == batch_dots(a@, c@),
{
    let (_n, b, _d) = a.dim();
    let mut out: Vec<S> = Vec::new();
    for j in 0..b
        invariant
            b == a@.b,
            a.wf(),
            c@.same_shape(a@),
            out@.len() == j,
            forall|x: int| 0 <= x < j ==> #[trigger] out@[x] == batch_dot(a@, c@, x, a@.n),
    {
        out.push(batch_inner(a, c, j));
    }
    out
}

} // verus!
