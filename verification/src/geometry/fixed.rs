//! Geometry with fixed (input-independent) restriction maps.
use super::{scatter_edges, scatter_of, Operators, RestrictionMaps, SheafGeometry};
use crate::graph::{pairs_below, pairs_of, AgentGraph};
use crate::scalar::{mul_acc, Scalar};
use crate::tensor::{Arr2, Arr3, Matrix, Tensor3};
use std::sync::Arc;
use vstd::prelude::*;

verus! {

/// Member `i` of the product of a map with a vector.
pub open spec fn applied<S: Scalar>(f: Arr2<S>, x: Seq<S>, i: int) -> S {
    S::spec_dot(f.data[i], x)
}

/// Member `k` of the product of a transposed map with a vector: down column `k`,
/// from the first row to the last.
pub open spec fn adjoined<S: Scalar>(f: Arr2<S>, r: Seq<S>, k: int) -> S {
    mul_acc(S::spec_zero(), f.column(k), r, f.rows)
}

/// `value` under an optional edge mask.
pub open spec fn masked<S: Scalar>(mask: Option<Seq<S>>, e: int, value: S) -> S {
    match mask {
        Some(m) => value.spec_times(m[e]),
        None => value,
    }
}

/// Computes member `k` of the product of a transposed map with a vector.
pub fn adjoint_member<S: Scalar>(f: &Matrix<S>, r: &[S], k: usize) -> (out: S)
    requires
        f.wf(),
        r@.len() == f@.rows,
        k < f@.cols,
    ensures
        out == adjoined(f@, r@, k as int),
{
    let mut sum = S::zero();
    for i in 0..r.len()
        invariant
            f.wf(),
            r@.len() == f@.rows,
            k < f@.cols,
            sum == mul_acc(S::spec_zero(), f@.column(k as int), r@, i as nat),
    {
        sum = sum.plus(f.get(i, k).times(r[i]));
    }
    sum
}

/// Sheaf geometry with learned but input-independent restriction maps.
pub struct FixedGeometry<S> {
    pub graph: Arc<AgentGraph<S>>,
    pub restriction_maps: RestrictionMaps<S>,
    /// Optional mask of one number for each edge, multiplied onto the residual once
    /// and not again on the adjoint.
    pub edge_mask: Option<Vec<S>>,
}

impl<S: Scalar> FixedGeometry<S> {
    pub fn new(graph: Arc<AgentGraph<S>>, restriction_maps: RestrictionMaps<S>) -> (r: Self)
        requires
            graph.wf(),
            restriction_maps.wf(),
            restriction_maps.maps@.len() == graph.edges@.len(),
        ensures
            r.wf(),
            r.graph == graph,
            r.restriction_maps == restriction_maps,
            r.edge_mask is None,
    {
        FixedGeometry { graph, restriction_maps, edge_mask: None }
    }
}

/// The mask of an optional vector.
pub open spec fn mask_view<S>(mask: Option<Vec<S>>) -> Option<Seq<S>> {
    match mask {
        Some(m) => Some(m@),
        None => None,
    }
}

/// What a geometry with fixed maps consists of.
#[verifier::ext_equal]
pub ghost struct FixedModel<S> {
    pub edges: Seq<(int, int)>,
    pub d_e: nat,
    pub d_v: nat,
    /// `[d_e, d_v]` map at the u-endpoint of each edge.
    pub at_u: Seq<Arr2<S>>,
    /// `[d_e, d_v]` map at the v-endpoint of each edge.
    pub at_v: Seq<Arr2<S>>,
    pub mask: Option<Seq<S>>,
}

impl<S: Scalar> FixedModel<S> {
    /// There is one pair of maps for each edge, all of the one shape, and one mask
    /// number for each edge where there is a mask.
    pub open spec fn wf(self) -> bool {
        &&& self.at_u.len() == self.edges.len()
        &&& self.at_v.len() == self.edges.len()
        &&& forall|e: int|
            0 <= e < self.edges.len() ==> (#[trigger] self.at_u[e]).has_shape(self.d_e, self.d_v)
        &&& forall|e: int|
            0 <= e < self.edges.len() ==> (#[trigger] self.at_v[e]).has_shape(self.d_e, self.d_v)
        &&& self.mask matches Some(m) ==> m.len() == self.edges.len()
    }

    /// Node states of this shape fit the model.
    pub open spec fn admits(self, n: nat, b: nat, d: nat) -> bool {
        pairs_below(self.edges, n) && d == self.d_v
    }

    /// Member `i` of the residual of edge `e` in batch element `b`.
    pub open spec fn residual_at(self, z: Arr3<S>, e: int, b: int, i: int) -> S {
        let (u, v) = self.edges[e];
        let from_u = applied(self.at_u[e], z.data[u][b], i);
        let from_v = applied(self.at_v[e], z.data[v][b], i);
        masked(self.mask, e, from_u.spec_minus(from_v))
    }

    /// The coboundary of a node state.
    pub open spec fn residuals(self, z: Arr3<S>) -> Arr3<S> {
        Arr3::build(
            self.edges.len(),
            z.b,
            self.d_e,
            |e: int, b: int, i: int| self.residual_at(z, e, b, i),
        )
    }

    /// The residuals pulled back through the unmasked maps at the u-endpoints.
    pub open spec fn pulled_u(self, r: Arr3<S>) -> Arr3<S> {
        Arr3::build(
            self.edges.len(),
            r.b,
            self.d_v,
            |e: int, b: int, k: int| adjoined(self.at_u[e], r.data[e][b], k),
        )
    }

    /// The residuals pulled back through the unmasked maps at the v-endpoints.
    pub open spec fn pulled_v(self, r: Arr3<S>) -> Arr3<S> {
        Arr3::build(
            self.edges.len(),
            r.b,
            self.d_v,
            |e: int, b: int, k: int| adjoined(self.at_v[e], r.data[e][b], k),
        )
    }

    /// The Laplacian of a node state.
    pub open spec fn laplacian(self, z: Arr3<S>) -> Arr3<S> {
        let r = self.residuals(z);
        scatter_of(self.edges, self.pulled_u(r), self.pulled_v(r), z.n)
    }

    pub open spec fn operators(self) -> Operators<S> {
        Operators {
            residuals: |z: Arr3<S>| self.residuals(z),
            laplacian: |z: Arr3<S>| self.laplacian(z),
        }
    }
}

impl<S: Scalar> View for FixedGeometry<S> {
    type V = FixedModel<S>;

    open spec fn view(&self) -> FixedModel<S> {
        FixedModel {
            edges: pairs_of(self.graph.edges@),
            d_e: self.restriction_maps.d_e as nat,
            d_v: self.restriction_maps.d_v as nat,
            at_u: self.restriction_maps.at_u(),
            at_v: self.restriction_maps.at_v(),
            mask: mask_view(self.edge_mask),
        }
    }
}

impl<S: Scalar> SheafGeometry<S> for FixedGeometry<S> {
    open spec fn wf(&self) -> bool {
        &&& self.graph.wf()
        &&& self.restriction_maps.wf()
        &&& self.restriction_maps.maps@.len() == self.graph.edges@.len()
        &&& match self.edge_mask {
            Some(mask) => mask@.len() == self.graph.edges@.len(),
            None => true,
        }
    }

    open spec fn edge_count(&self) -> nat {
        self.graph.edges@.len()
    }

    open spec fn edge_dim(&self) -> nat {
        self.restriction_maps.d_e as nat
    }

    open spec fn admits(&self, n: nat, b: nat, d: nat) -> bool {
        self@.admits(n, b, d)
    }

    open spec fn operators(&self) -> Operators<S> {
        self@.operators()
    }

    fn edge_residuals(&self, z: &Tensor3<S>) -> (r: Tensor3<S>) {
        let (_n, b, _d) = z.dim();
        let e_cnt = self.graph.num_edges();
        let d_e = self.restriction_maps.d_e;
        Tensor3::from_shape_fn(
            e_cnt,
            b,
            d_e,
            |e: usize, bi: usize, i: usize| -> (v: S)
                requires
                    self.wf(),
                    z.wf(),
                    self.admits(z@.n, z@.b, z@.d),
                    e < self.edge_count(),
                    bi < z@.b,
                    i < self.edge_dim(),
                ensures
                    v == self@.residual_at(z@, e as int, bi as int, i as int)
                {
                    assert(self@.edges[e as int] == (
                        self.graph.edges@[e as int]@[0] as int,
                        self.graph.edges@[e as int]@[1] as int,
                    ));
                    let edge_u = self.graph.edges[e][0] as usize;
                    let edge_v = self.graph.edges[e][1] as usize;
                    let maps = &self.restriction_maps.maps[e];
                    assert(z@.data[edge_u as int][bi as int].len() == z@.d);
                    assert(z@.data[edge_v as int][bi as int].len() == z@.d);
                    let at_u = S::dot(maps.u.row(i), z.row(edge_u, bi));
                    let at_v = S::dot(maps.v.row(i), z.row(edge_v, bi));
                    let diff = at_u.minus(at_v);
                    match &self.edge_mask {
                        Some(mask) => diff.times(mask[e]),
                        None => diff,
                    }
                },
        )
    }

    fn laplacian_apply(&self, z: &Tensor3<S>, out: &mut Tensor3<S>) {
        let r = self.edge_residuals(z);
        let (n, b, d_v) = z.dim();
        let e_cnt = self.graph.num_edges();
        let at_u = Tensor3::from_shape_fn(
            e_cnt,
            b,
            d_v,
            |e: usize, bi: usize, k: usize| -> (v: S)
                requires
                    self.wf(),
                    r.wf(),
                    r@.n == self.edge_count(),
                    r@.d == self.edge_dim(),
                    e < self.edge_count(),
                    bi < r@.b,
                    k < self.restriction_maps.d_v,
                ensures
                    v == adjoined(self@.at_u[e as int], r@.data[e as int][bi as int], k as int)
                {
                    assert(r@.data[e as int][bi as int].len() == r@.d);
                    adjoint_member(&self.restriction_maps.maps[e].u, r.row(e, bi), k)
                },
        );
        let at_v = Tensor3::from_shape_fn(
            e_cnt,
            b,
            d_v,
            |e: usize, bi: usize, k: usize| -> (v: S)
                requires
                    self.wf(),
                    r.wf(),
                    r@.n == self.edge_count(),
                    r@.d == self.edge_dim(),
                    e < self.edge_count(),
                    bi < r@.b,
                    k < self.restriction_maps.d_v,
                ensures
                    v == adjoined(self@.at_v[e as int], r@.data[e as int][bi as int], k as int)
                {
                    assert(r@.data[e as int][bi as int].len() == r@.d);
                    adjoint_member(&self.restriction_maps.maps[e].v, r.row(e, bi), k)
                },
        );
        assert(at_u@ == self@.pulled_u(r@));
        assert(at_v@ == self@.pulled_v(r@));
        proof {
            crate::geometry::below_as_pairs(self.graph.edges@, n as nat);
        }
        *out = scatter_edges(self.graph.edges.as_slice(), &at_u, &at_v, n);
    }
}

} // verus!
