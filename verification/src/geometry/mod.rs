//! Sheaf geometries: the coboundary and Laplacian operators that the consensus
//! update needs.
//!
//! The sheaf Laplacian is never materialized: both implementations are matrix-free
//! per-edge products with a scatter (added at u, subtracted at v; duplicate node
//! indices accumulate).
use crate::graph::{endpoints_below, pairs_below, pairs_of};
use crate::par::map_batches;
use crate::reduce::{batch_dot, batch_inner, sum_squares, total_squares};
use crate::scalar::Scalar;
use crate::tensor::{arr2_ext, Arr2, Arr3, Matrix, Tensor3};
use vstd::prelude::*;

mod fixed;
mod lora;

pub use fixed::{adjoined, adjoint_member, applied, mask_view, masked, FixedGeometry, FixedModel};
pub use lora::{
    factors_fit, gate_fits, gate_view, gated, gated_pull, grid_build, grid_shape, lora_adjoined,
    lora_applied, modulation, projected, FactorGrid, LoraGeometry, LoraModel,
};

verus! {

/// Epsilon under the square root of the consistency measure: one millionth.
pub open spec fn consistency_epsilon<S: Scalar>() -> S {
    S::spec_decimal(1, -6)
}

/// `1/2` times the sum of the squared residuals, over edges, batch and dimensions.
pub open spec fn energy_of<S: Scalar>(r: Arr3<S>) -> S {
    S::spec_decimal(5, -1).spec_times(sum_squares(r, r.n))
}

/// Root mean square of batch element `b` of the residuals.
pub open spec fn rms_of<S: Scalar>(r: Arr3<S>, b: int) -> S {
    batch_dot(r, r, b, r.n).spec_over(S::spec_from_count(r.n * r.d)).spec_plus(
        consistency_epsilon(),
    ).spec_sqrt()
}

/// Root mean square of the residuals, for each batch element.
pub open spec fn consistency_of<S: Scalar>(r: Arr3<S>) -> Seq<S> {
    Seq::new(r.b, |b: int| rms_of(r, b))
}

/// The two maps that a geometry stands for.
#[verifier::reject_recursive_types(S)]
pub ghost struct Operators<S> {
    /// The coboundary of a node state.
    pub residuals: spec_fn(Arr3<S>) -> Arr3<S>,
    /// The Laplacian of a node state.
    pub laplacian: spec_fn(Arr3<S>) -> Arr3<S>,
}

impl<S: Scalar> Operators<S> {
    pub open spec fn residuals_of(self, z: Arr3<S>) -> Arr3<S> {
        (self.residuals)(z)
    }

    pub open spec fn laplacian_of(self, z: Arr3<S>) -> Arr3<S> {
        (self.laplacian)(z)
    }
}

/// The sheaf-geometry interface.
pub trait SheafGeometry<S: Scalar> {
    /// The geometry is well formed.
    spec fn wf(&self) -> bool;

    /// Number of edges.
    spec fn edge_count(&self) -> nat;

    /// Dimension of the edge stalks.
    spec fn edge_dim(&self) -> nat;

    /// Whether node states of this shape fit the geometry.
    spec fn admits(&self, n: nat, b: nat, d: nat) -> bool;

    /// What the geometry does to node states.
    spec fn operators(&self) -> Operators<S>;

    /// Per-edge disagreement `F_{u->e} z_u - F_{v->e} z_v`, from `[N, B, d_v]` to
    /// `[E, B, d_e]`. An edge mask multiplies the residual here, once, and not again
    /// on the adjoint.
    fn edge_residuals(&self, z: &Tensor3<S>) -> (r: Tensor3<S>)
        requires
            self.wf(),
            z.wf(),
            self.admits(z@.n, z@.b, z@.d),
        ensures
            r.wf(),
            r@ == self.operators().residuals_of(z@),
            r@.n == self.edge_count(),
            r@.b == z@.b,
            r@.d == self.edge_dim(),
    ;

    /// Sheaf Laplacian product `L z`, written into `out`, whatever it held.
    fn laplacian_apply(&self, z: &Tensor3<S>, out: &mut Tensor3<S>)
        requires
            self.wf(),
            z.wf(),
            self.admits(z@.n, z@.b, z@.d),
            old(out)@.same_shape(z@),
        ensures
            final(out)@.same_shape(z@),
            final(out)@ == self.operators().laplacian_of(z@),
    ;

    /// Sheaf energy: half the squared residuals, summed in memory order.
    fn energy(&self, z: &Tensor3<S>) -> (r: S)
        requires
            self.wf(),
            z.wf(),
            self.admits(z@.n, z@.b, z@.d),
        ensures
            r == energy_of(self.operators().residuals_of(z@)),
    {
        let r = self.edge_residuals(z);
        S::decimal(5, -1).times(total_squares(&r))
    }

    /// Per-batch root mean square disagreement `sqrt(mean(r^2) + 1e-6)`. The mean is
    /// over edges and edge dimensions; the epsilon is under the root.
    fn consistency_rms(&self, z: &Tensor3<S>) -> (r: Vec<S>)
        requires
            self.wf(),
            z.wf(),
            self.admits(z@.n, z@.b, z@.d),
            self.edge_count() * self.edge_dim() <= usize::MAX,
        ensures
            r@ == consistency_of(self.operators().residuals_of(z@)),
    {
        let r = self.edge_residuals(z);
        let (e, b, d_e) = r.dim();
        let denom = S::from_count(e * d_e);
        let eps = S::decimal(1, -6);
        let out = map_batches(
            b,
            |bi: usize| -> (v: S)
                requires
                    r.wf(),
                    bi < r@.b,
                ensures
                    v == batch_dot(r@, r@, bi as int, r@.n).spec_over(denom).spec_plus(eps).spec_sqrt()
                { batch_inner(&r, &r, bi).over(denom).plus(eps).sqrt() },
        );
        assert forall|i: int| 0 <= i < b implies out@[i] == rms_of(r@, i) by {
            assert(out@[i as usize as int] == out@[i]);
        }
        assert(out@ =~= consistency_of(r@));
        out
    }
}

/// The two maps of one edge, each `[d_e, d_v]`.
#[derive(Debug)]
pub struct EdgeMaps<S> {
    /// Map at the u-endpoint.
    pub u: Matrix<S>,
    /// Map at the v-endpoint.
    pub v: Matrix<S>,
}

/// Restriction maps of every edge.
#[derive(Debug)]
pub struct RestrictionMaps<S> {
    pub d_e: usize,
    pub d_v: usize,
    pub maps: Vec<EdgeMaps<S>>,
}

impl<S: Scalar> RestrictionMaps<S> {
    /// Every map is `[d_e, d_v]`, and the residuals of one batch element can be
    /// counted.
    pub open spec fn wf(&self) -> bool {
        &&& forall|e: int|
            0 <= e < self.maps@.len() ==> (#[trigger] self.maps@[e]).u@.has_shape(
                self.d_e as nat,
                self.d_v as nat,
            ) && self.maps@[e].v@.has_shape(self.d_e as nat, self.d_v as nat)
        &&& self.maps@.len() * self.d_e <= usize::MAX
    }

    /// The maps at the u-endpoints.
    pub open spec fn at_u(&self) -> Seq<Arr2<S>> {
        Seq::new(self.maps@.len(), |e: int| self.maps@[e].u@)
    }

    /// The maps at the v-endpoints.
    pub open spec fn at_v(&self) -> Seq<Arr2<S>> {
        Seq::new(self.maps@.len(), |e: int| self.maps@[e].v@)
    }
}

/// What the first `e` edges leave at member `k` of `node` in batch element `b`:
/// starting from zero, each edge adds at its u-endpoint, then subtracts at its
/// v-endpoint.
pub open spec fn scattered<S: Scalar>(
    edges: Seq<(int, int)>,
    at_u: Arr3<S>,
    at_v: Arr3<S>,
    node: int,
    b: int,
    k: int,
    e: nat,
) -> S
    decreases e,
{
    if e == 0 {
        S::spec_zero()
    } else {
        let before = scattered(edges, at_u, at_v, node, b, k, (e - 1) as nat);
        let with_u = if edges[e - 1].0 == node {
            before.spec_plus(at_u.at(e - 1, b, k))
        } else {
            before
        };
        if edges[e - 1].1 == node {
            with_u.spec_minus(at_v.at(e - 1, b, k))
        } else {
            with_u
        }
    }
}

/// Edge contributions `[E, B, d]` gathered at `n` nodes.
pub open spec fn scatter_of<S: Scalar>(edges: Seq<(int, int)>, at_u: Arr3<S>, at_v: Arr3<S>, n: nat) -> Arr3<
    S,
> {
    Arr3::build(
        n,
        at_u.b,
        at_u.d,
        |i: int, b: int, k: int| scattered(edges, at_u, at_v, i, b, k, edges.len()),
    )
}

/// Endpoints below a bound are so as arrays and as pairs.
pub proof fn below_as_pairs(edges: Seq<[u32; 2]>, n: nat)
    ensures
        endpoints_below(edges, n) == pairs_below(pairs_of(edges), n),
{
    if pairs_below(pairs_of(edges), n) {
        assert forall|e: int| 0 <= e < edges.len() implies (#[trigger] edges[e])@[0] < n && edges[e]@[1] < n by {
            assert(pairs_of(edges)[e] == (edges[e]@[0] as int, edges[e]@[1] as int));
        }
    }
}

/// Scatters one batch element.
fn scatter_slab<S: Scalar>(
    edges: &[[u32; 2]],
    at_u: &Tensor3<S>,
    at_v: &Tensor3<S>,
    n: usize,
    b: usize,
) -> (r: Matrix<S>)
    requires
        endpoints_below(edges@, n as nat),
        at_u.wf(),
        at_v@.same_shape(at_u@),
        at_u@.n == edges@.len(),
        b < at_u@.b,
    ensures
        r.wf(),
        r@ == Arr2::build(
            n as nat,
            at_u@.d,
            |i: int, k: int| scattered(pairs_of(edges@), at_u@, at_v@, i, b as int, k, edges@.len()),
        ),
{
    let (_e, _b, d) = at_u.dim();
    let mut out = Matrix::from_elem(n, d, S::zero());
    for e in 0..edges.len()
        invariant
            endpoints_below(edges@, n as nat),
            at_u.wf(),
            at_v@.same_shape(at_u@),
            at_u@.n == edges@.len(),
            b < at_u@.b,
            d == at_u@.d,
            out@.has_shape(n as nat, d as nat),
            forall|i: int, k: int|
                0 <= i < n && 0 <= k < d ==> #[trigger] out@.at(i, k) == scattered(
                    pairs_of(edges@),
                    at_u@,
                    at_v@,
                    i,
                    b as int,
                    k,
                    e as nat,
                ),
    {
        let u = edges[e][0] as usize;
        let v = edges[e][1] as usize;
        let ghost before = out@;
        for k in 0..d
            invariant
                e < edges@.len(),
                u < n,
                at_u.wf(),
                at_u@.n == edges@.len(),
                b < at_u@.b,
                d == at_u@.d,
                out@.has_shape(n as nat, d as nat),
                forall|i: int, j: int|
                    0 <= i < n && 0 <= j < d ==> #[trigger] out@.at(i, j) == if i == u && j < k {
                        before.at(i, j).spec_plus(at_u@.at(e as int, b as int, j))
                    } else {
                        before.at(i, j)
                    },
        {
            out.set(u, k, out.get(u, k).plus(at_u.get(e, b, k)));
        }
        let ghost middle = out@;
        for k in 0..d
            invariant
                e < edges@.len(),
                v < n,
                at_v.wf(),
                at_v@.n == edges@.len(),
                b < at_v@.b,
                d == at_v@.d,
                out@.has_shape(n as nat, d as nat),
                forall|i: int, j: int|
                    0 <= i < n && 0 <= j < d ==> #[trigger] out@.at(i, j) == if i == v && j < k {
                        middle.at(i, j).spec_minus(at_v@.at(e as int, b as int, j))
                    } else {
                        middle.at(i, j)
                    },
        {
            out.set(v, k, out.get(v, k).minus(at_v.get(e, b, k)));
        }
        assert forall|i: int, k: int| 0 <= i < n && 0 <= k < d implies #[trigger] out@.at(i, k) == scattered(
            pairs_of(edges@),
            at_u@,
            at_v@,
            i,
            b as int,
            k,
            (e + 1) as nat,
        ) by {
            let m = middle.at(i, k);
            let w = before.at(i, k);
            assert(pairs_of(edges@)[e as int] == (u as int, v as int));
        }
    }
    proof {
        arr2_ext(
            out@,
            Arr2::build(
                n as nat,
                at_u@.d,
                |i: int, k: int| scattered(pairs_of(edges@), at_u@, at_v@, i, b as int, k, edges@.len()),
            ),
        );
    }
    out
}

/// Scatters edge contributions to the endpoints of their edges.
fn scatter_edges<S: Scalar>(edges: &[[u32; 2]], at_u: &Tensor3<S>, at_v: &Tensor3<S>, n: usize) -> (r:
    Tensor3<S>)
    requires
        endpoints_below(edges@, n as nat),
        at_u.wf(),
        at_v@.same_shape(at_u@),
        at_u@.n == edges@.len(),
    ensures
        r.wf(),
        r@ == scatter_of(pairs_of(edges@), at_u@, at_v@, n as nat),
{
    let (_e, b, d) = at_u.dim();
    let slabs = map_batches(
        b,
        |bi: usize| -> (m: Matrix<S>)
            requires
                bi < at_u@.b,
            ensures
                m.wf(),
                m@ == Arr2::build(
                    n as nat,
                    at_u@.d,
                    |i: int, k: int| scattered(pairs_of(edges@), at_u@, at_v@, i, bi as int, k, edges@.len()),
                )
            { scatter_slab(edges, at_u, at_v, n, bi) },
    );
    let out = Tensor3::from_shape_fn(
        n,
        b,
        d,
        |i: usize, bi: usize, k: usize| -> (v: S)
            requires
                i < n,
                bi < b,
                k < d,
            ensures
                v == scattered(pairs_of(edges@), at_u@, at_v@, i as int, bi as int, k as int, edges@.len())
            { slabs[bi].get(i, k) },
    );
    out
}

} // verus!
