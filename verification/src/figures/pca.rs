//! Joint projection of proposals and consensus to two dimensions.
//!
//! One shared basis is fit over both, so all panels have one frame. The basis is made of the
//! leading singular vectors of the Gram matrix of the centered points; the decomposition is
//! the caller's, the matrix and the projection are made here.
use crate::scalar::{Scalar, Widens};
use crate::tensor::{Arr2, Arr3, Matrix, Tensor3};
use vstd::prelude::*;

verus! {

/// A basis of two directions and the point that they start from.
#[derive(Debug)]
pub struct Basis<S> {
    pub mean: Vec<S>,
    /// `[d, 2]`.
    pub components: Matrix<S>,
}

/// Row `m` of the points of both arrays: first all of `x`, then all of `z`, slab by slab.
pub open spec fn point_of<S>(x: Arr3<S>, z: Arr3<S>, m: int) -> Seq<S> {
    let half = x.n * x.b;
    if m < half {
        x.data[m / x.b as int][m % x.b as int]
    } else {
        z.data[(m - half) / x.b as int][(m - half) % x.b as int]
    }
}

/// Sum of coordinate `k` over the first `m` points.
pub open spec fn coordinate_sum<S: Scalar>(x: Arr3<S>, z: Arr3<S>, k: int, m: nat) -> S
    decreases m,
{
    if m == 0 {
        S::spec_zero()
    } else {
        coordinate_sum(x, z, k, (m - 1) as nat).spec_plus(point_of(x, z, m - 1)[k])
    }
}

/// The mean of the points.
pub open spec fn mean_point<S: Scalar>(x: Arr3<S>, z: Arr3<S>) -> Seq<S> {
    let m = 2 * (x.n * x.b);
    Seq::new(x.d, |k: int| coordinate_sum(x, z, k, m).spec_over(S::spec_from_count(m)))
}

/// A centered coordinate, in the wider type.
pub open spec fn centered_of<S: Widens<W>, W: Scalar>(x: Arr3<S>, z: Arr3<S>, mean: Seq<S>, m: int, k: int) -> W {
    point_of(x, z, m)[k].spec_minus(mean[k]).spec_widen()
}

/// Member `(i, j)` of the Gram matrix of the first `m` centered points.
pub open spec fn gram_member<S: Widens<W>, W: Scalar>(
    x: Arr3<S>,
    z: Arr3<S>,
    mean: Seq<S>,
    i: int,
    j: int,
    m: nat,
) -> W
    decreases m,
{
    if m == 0 {
        W::spec_zero()
    } else {
        gram_member::<S, W>(x, z, mean, i, j, (m - 1) as nat).spec_plus(
            centered_of::<S, W>(x, z, mean, m - 1, i).spec_times(
                centered_of::<S, W>(x, z, mean, m - 1, j),
            ),
        )
    }
}

proof fn point_index(n: int, b: int, m: int)
    requires
        0 <= m < n * b,
        0 <= b,
        0 <= n,
    ensures
        0 < b,
        0 <= m / b < n,
        0 <= m % b < b,
{
    assert(0 < b) by (nonlinear_arith)
        requires
            0 <= m < n * b,
            0 <= b,
    ;
    assert(0 <= m / b < n && 0 <= m % b < b) by (nonlinear_arith)
        requires
            0 <= m < n * b,
            0 < b,
    ;
}

/// Fetches a point of either array.
pub(crate) fn point<'a, S: Scalar>(x: &'a Tensor3<S>, z: &'a Tensor3<S>, half: usize, m: usize) -> (r: &'a [S])
    requires
        x.wf(),
        z@.same_shape(x@),
        half == x@.n * x@.b,
        m < 2 * half,
    ensures
        r@ == point_of(x@, z@, m as int),
        r@.len() == x@.d,
{
    let (_n, b, _d) = x.dim();
    proof {
        if m < half {
            point_index(x@.n as int, x@.b as int, m as int);
            assert(x@.data[m as int / b as int][m as int % b as int].len() == x@.d);
        } else {
            point_index(x@.n as int, x@.b as int, m - half);
            assert(z@.data[(m - half) / b as int][(m - half) % b as int].len() == x@.d);
        }
    }
    if m < half {
        x.row(m / b, m % b)
    } else {
        z.row((m - half) / b, (m - half) % b)
    }
}

/// Mean and Gram matrix of the points of both arrays.
pub fn principal_inputs<S: Widens<W>, W: Scalar>(x: &Tensor3<S>, z: &Tensor3<S>) -> (r: (Vec<S>, Matrix<W>))
    requires
        x.wf(),
        z@.same_shape(x@),
        2 * (x@.n * x@.b) <= usize::MAX,
    ensures
        r.0@ == mean_point(x@, z@),
        r.1.wf(),
        r.1@ == Arr2::build(
            x@.d,
            x@.d,
            |i: int, j: int|
                gram_member::<S, W>(x@, z@, mean_point(x@, z@), i, j, 2 * (x@.n * x@.b)),
        ),
{
    let (n, b, d) = x.dim();
    let half = n * b;
    let total = 2 * half;
    let count = S::from_count(total);
    let mut mean: Vec<S> = Vec::new();
    for k in 0..d
        invariant
            x.wf(),
            z@.same_shape(x@),
            half == x@.n * x@.b,
            total == 2 * half,
            d == x@.d,
            count == S::spec_from_count(total as nat),
            mean@.len() == k,
            forall|i: int|
                0 <= i < k ==> #[trigger] mean@[i] == coordinate_sum(x@, z@, i, total as nat).spec_over(count),
    {
        let mut sum = S::zero();
        for m in 0..total
            invariant
                k < d,
                x.wf(),
                z@.same_shape(x@),
                half == x@.n * x@.b,
                total == 2 * half,
                d == x@.d,
                sum == coordinate_sum(x@, z@, k as int, m as nat),
        {
            sum = sum.plus(point(x, z, half, m)[k]);
        }
        mean.push(sum.over(count));
    }
    assert(mean@ =~= mean_point(x@, z@));
    let gram = Matrix::from_shape_fn(
        d,
        d,
        |i: usize, j: usize| -> (v: W)
            requires
                x.wf(),
                z@.same_shape(x@),
                half == x@.n * x@.b,
                total == 2 * half,
                mean@.len() == x@.d,
                i < x@.d,
                j < x@.d,
            ensures
                v == gram_member::<S, W>(x@, z@, mean@, i as int, j as int, total as nat)
            { gram_sum(x, z, half, total, mean.as_slice(), i, j) },
    );
    (mean, gram)
}

fn gram_sum<S: Widens<W>, W: Scalar>(
    x: &Tensor3<S>,
    z: &Tensor3<S>,
    half: usize,
    total: usize,
    mean: &[S],
    i: usize,
    j: usize,
) -> (r: W)
    requires
        x.wf(),
        z@.same_shape(x@),
        half == x@.n * x@.b,
        total == 2 * half,
        mean@.len() == x@.d,
        i < x@.d,
        j < x@.d,
    ensures
        r == gram_member::<S, W>(x@, z@, mean@, i as int, j as int, total as nat),
{
    let mut sum = W::zero();
    for m in 0..total
        invariant
            x.wf(),
            z@.same_shape(x@),
            half == x@.n * x@.b,
            total == 2 * half,
            mean@.len() == x@.d,
            i < x@.d,
            j < x@.d,
            sum == gram_member::<S, W>(x@, z@, mean@, i as int, j as int, m as nat),
    {
        let p = point(x, z, half, m);
        let a: W = p[i].minus(mean[i]).widen();
        let c: W = p[j].minus(mean[j]).widen();
        sum = sum.plus(a.times(c));
    }
    sum
}

/// Coordinate `c` of a point in a basis: the sum over the first `k` dimensions.
pub open spec fn along_component<S: Scalar>(p: Seq<S>, mean: Seq<S>, comps: Arr2<S>, c: int, k: nat) -> S
    decreases k,
{
    if k == 0 {
        S::spec_zero()
    } else {
        along_component(p, mean, comps, c, (k - 1) as nat).spec_plus(
            p[k - 1].spec_minus(mean[k - 1]).spec_times(comps.at(k - 1, c)),
        )
    }
}

/// The basis fits points of this dimension.
pub open spec fn basis_fits<S: Scalar>(basis: Basis<S>, d: nat) -> bool {
    basis.mean@.len() == d && basis.components@.has_shape(d, 2)
}

/// An array in two dimensions: as it is, where it has two; with a zero, where it has one; else
/// in the basis.
pub open spec fn flattened<S: Scalar>(a: Arr3<S>, basis: Option<Basis<S>>) -> Arr3<S> {
    Arr3::build(
        a.n,
        a.b,
        2,
        |k: int, n: int, c: int|
            if a.d == 2 {
                a.at(k, n, c)
            } else if a.d == 1 {
                if c == 0 {
                    a.at(k, n, 0)
                } else {
                    S::spec_zero()
                }
            } else {
                along_component(
                    a.data[k][n],
                    basis->0.mean@,
                    basis->0.components@,
                    c,
                    a.d,
                )
            },
    )
}

fn flatten<S: Scalar>(a: &Tensor3<S>, basis: Option<&Basis<S>>) -> (r: Tensor3<S>)
    requires
        a.wf(),
        a@.d > 0,
        a@.d > 2 ==> (basis matches Some(f) && basis_fits(*f, a@.d)),
    ensures
        r.wf(),
        r@ == flattened(
            a@,
            match basis {
                Some(f) => Some(*f),
                None => None,
            },
        ),
{
    let (k, n, d) = a.dim();
    Tensor3::from_shape_fn(
        k,
        n,
        2,
        |ki: usize, ni: usize, c: usize| -> (v: S)
            requires
                a.wf(),
                d == a@.d,
                d > 0,
                a@.d > 2 ==> (basis matches Some(f) && basis_fits(*f, a@.d)),
                ki < a@.n,
                ni < a@.b,
                c < 2,
            ensures
                v == flattened(
                    a@,
                    match basis {
                        Some(f) => Some(*f),
                        None => None,
                    },
                ).at(ki as int, ni as int, c as int)
            {
                if d == 2 {
                    a.get(ki, ni, c)
                } else if d == 1 {
                    if c == 0 {
                        a.get(ki, ni, 0)
                    } else {
                        S::zero()
                    }
                } else {
                    assert(a@.data[ki as int][ni as int].len() == a@.d);
                    match basis {
                        Some(f) => coordinate(a.row(ki, ni), f, c),
                        None => S::zero(),
                    }
                }
            },
    )
}

fn coordinate<S: Scalar>(p: &[S], basis: &Basis<S>, c: usize) -> (r: S)
    requires
        basis_fits(*basis, p@.len()),
        c < 2,
    ensures
        r == along_component(p@, basis.mean@, basis.components@, c as int, p@.len()),
{
    let mut sum = S::zero();
    for k in 0..p.len()
        invariant
            basis_fits(*basis, p@.len()),
            c < 2,
            sum == along_component(p@, basis.mean@, basis.components@, c as int, k as nat),
    {
        sum = sum.plus(p[k].minus(basis.mean[k]).times(basis.components.get(k, c)));
    }
    sum
}

/// Projects `[K, N, d]` proposals and consensus to two dimensions with one shared basis, which
/// is needed where there are more than two.
pub fn project_xz<S: Scalar>(x: &Tensor3<S>, z: &Tensor3<S>, basis: Option<&Basis<S>>) -> (r: (
    Tensor3<S>,
    Tensor3<S>,
))
    requires
        x.wf(),
        z@.same_shape(x@),
        x@.d > 0,
        x@.d > 2 ==> (basis matches Some(f) && basis_fits(*f, x@.d)),
    ensures
        ({
            let shared = match basis {
                Some(f) => Some(*f),
                None => None,
            };
            &&& r.0.wf()
            &&& r.1.wf()
            &&& r.0@ == flattened(x@, shared)
            &&& r.1@ == flattened(z@, shared)
        }),
{
    (flatten(x, basis), flatten(z, basis))
}

} // verus!
