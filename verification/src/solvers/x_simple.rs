//! Tethered-average x-update.
//!
//! `x = (beta h + rho (z - y)) / (beta + rho)`: a combination of the encoder tether and
//! the consensus target.
use crate::scalar::Scalar;
use crate::tensor::{Arr3, Tensor3};
use vstd::prelude::*;

verus! {

/// `(beta h + rho (z - y)) / (beta + rho)`.
pub open spec fn simple_of<S: Scalar>(z: Arr3<S>, y: Arr3<S>, rho: S, h: Arr3<S>, beta: S) -> Arr3<S> {
    Arr3::build(
        z.n,
        z.b,
        z.d,
        |i: int, j: int, k: int|
            beta.spec_times(h.at(i, j, k)).spec_plus(
                rho.spec_times(z.at(i, j, k).spec_minus(y.at(i, j, k))),
            ).spec_over(beta.spec_plus(rho)),
    )
}

pub fn simple_solve<S: Scalar>(z: &Tensor3<S>, y: &Tensor3<S>, rho: S, h: &Tensor3<S>, beta: S) -> (x: Tensor3<
    S,
>)
    requires
        z.wf(),
        y@.same_shape(z@),
        h@.same_shape(z@),
    ensures
        x.wf(),
        x@ == simple_of(z@, y@, rho, h@, beta),
{
    let denom = beta.plus(rho);
    let (n, b, d) = z.dim();
    Tensor3::from_shape_fn(
        n,
        b,
        d,
        |i: usize, j: usize, k: usize| -> (x: S)
            requires
                i < n,
                j < b,
                k < d,
            ensures
                x == beta.spec_times(h@.at(i as int, j as int, k as int)).spec_plus(
                    rho.spec_times(
                        z@.at(i as int, j as int, k as int).spec_minus(y@.at(i as int, j as int, k as int)),
                    ),
                ).spec_over(denom)
            {
                beta.times(h.get(i, j, k)).plus(rho.times(z.get(i, j, k).minus(y.get(i, j, k)))).over(denom)
            },
    )
}

} // verus!
