//! Geometry with input-modulated maps `F = R + (alpha / r) A B^T`.
//!
//! F is never materialized: the low-rank update is applied factored, as two rank-r
//! products.
use super::fixed::{adjoined, adjoint_member, applied, mask_view, masked, FixedModel};
use super::{scatter_edges, scatter_of, Operators, RestrictionMaps, SheafGeometry};
use crate::graph::{endpoints_below, pairs_of, AgentGraph};
use crate::scalar::Scalar;
use crate::tensor::{Arr2, Arr3, Matrix, Tensor3};
use std::sync::Arc;
use vstd::prelude::*;

verus! {

/// A `[rows, cols]` matrix for each member of an outer axis and batch element.
#[derive(Debug)]
pub struct FactorGrid<S> {
    outer: usize,
    batch: usize,
    rows: usize,
    cols: usize,
    data: Vec<Vec<Matrix<S>>>,
}

/// The grid whose matrix at `(i, b)` is `g(i, b)`.
pub open spec fn grid_build<S>(outer: nat, batch: nat, g: spec_fn(int, int) -> Arr2<S>) -> Seq<Seq<Arr2<S>>> {
    Seq::new(outer, |i: int| Seq::new(batch, |b: int| g(i, b)))
}

impl<S: Scalar> View for FactorGrid<S> {
    type V = Seq<Seq<Arr2<S>>>;

    /// The matrices, by outer axis and batch element.
    closed spec fn view(&self) -> Seq<Seq<Arr2<S>>> {
        Seq::new(self.data@.len(), |i: int| Seq::new(self.data@[i]@.len(), |b: int| self.data@[i]@[b]@))
    }
}

impl<S: Scalar> FactorGrid<S> {
    pub closed spec fn outer(&self) -> nat {
        self.outer as nat
    }

    pub closed spec fn batch(&self) -> nat {
        self.batch as nat
    }

    pub closed spec fn rows(&self) -> nat {
        self.rows as nat
    }

    pub closed spec fn cols(&self) -> nat {
        self.cols as nat
    }

    /// The matrix at `(i, b)`.
    pub open spec fn at(&self, i: int, b: int) -> Arr2<S> {
        self@[i][b]
    }

    /// There are as many matrices as the extents say, all of the one shape.
    pub closed spec fn wf(&self) -> bool {
        &&& self.data@.len() == self.outer
        &&& forall|i: int| 0 <= i < self.outer ==> (#[trigger] self.data@[i])@.len() == self.batch
        &&& forall|i: int, b: int|
            0 <= i < self.outer && 0 <= b < self.batch ==> (#[trigger] self.data@[i]@[b])@.has_shape(
                self.rows as nat,
                self.cols as nat,
            )
    }

    pub open spec fn has_shape(&self, outer: nat, batch: nat, rows: nat, cols: nat) -> bool {
        &&& self.wf()
        &&& self.outer() == outer
        &&& self.batch() == batch
        &&& self.rows() == rows
        &&& self.cols() == cols
    }

    /// Builds the grid whose matrix at `(i, b)` is `f(i, b)`.
    pub fn from_shape_fn<F: Fn(usize, usize) -> Matrix<S>>(
        outer: usize,
        batch: usize,
        rows: usize,
        cols: usize,
        f: F,
    ) -> (r: Self)
        requires
            forall|i: usize, b: usize| i < outer && b < batch ==> #[trigger] f.requires((i, b)),
            forall|i: usize, b: usize, m: Matrix<S>|
                i < outer && b < batch && #[trigger] f.ensures((i, b), m) ==> m@.has_shape(
                    rows as nat,
                    cols as nat,
                ),
        ensures
            r.has_shape(outer as nat, batch as nat, rows as nat, cols as nat),
            forall|g: spec_fn(int, int) -> Arr2<S>|
                (forall|i: usize, b: usize, m: Matrix<S>|
                    i < outer && b < batch && #[trigger] f.ensures((i, b), m) ==> m@ == g(i as int, b as int))
                    ==> r@ == #[trigger] grid_build(outer as nat, batch as nat, g),
    {
        let mut data: Vec<Vec<Matrix<S>>> = Vec::new();
        for i in 0..outer
            invariant
                forall|i: usize, b: usize| i < outer && b < batch ==> #[trigger] f.requires((i, b)),
                forall|i: usize, b: usize, m: Matrix<S>|
                    i < outer && b < batch && #[trigger] f.ensures((i, b), m) ==> m@.has_shape(
                        rows as nat,
                        cols as nat,
                    ),
                data@.len() == i,
                forall|x: int| 0 <= x < i ==> (#[trigger] data@[x])@.len() == batch,
                forall|x: usize, y: usize|
                    x < i && y < batch ==> f.ensures((x, y), #[trigger] data@[x as int]@[y as int]),
        {
            let mut line: Vec<Matrix<S>> = Vec::new();
            for b in 0..batch
                invariant
                    i < outer,
                    forall|i: usize, b: usize| i < outer && b < batch ==> #[trigger] f.requires((i, b)),
                    line@.len() == b,
                    forall|y: usize| y < b ==> f.ensures((i, y), #[trigger] line@[y as int]),
            {
                line.push(f(i, b));
            }
            data.push(line);
        }
        let r = FactorGrid { outer, batch, rows, cols, data };
        proof {
            assert forall|x: int, y: int| 0 <= x < outer && 0 <= y < batch implies f.ensures(
                (x as usize, y as usize),
                #[trigger] r.data@[x]@[y],
            ) by {
                assert(f.ensures((x as usize, y as usize), data@[x as usize as int]@[y as usize as int]));
            }
            assert forall|g: spec_fn(int, int) -> Arr2<S>|
                (forall|i: usize, b: usize, m: Matrix<S>|
                    i < outer && b < batch && #[trigger] f.ensures((i, b), m) ==> m@ == g(i as int, b as int))
                implies r@ == #[trigger] grid_build(outer as nat, batch as nat, g) by {
                assert forall|x: int| 0 <= x < outer implies r@[x] == Seq::new(
                    batch as nat,
                    |y: int| g(x, y),
                ) by {
                    assert forall|y: int| 0 <= y < batch implies r@[x][y] == g(x, y) by {
                        assert(f.ensures((x as usize, y as usize), r.data@[x]@[y]));
                    }
                    assert(r@[x] =~= Seq::new(batch as nat, |y: int| g(x, y)));
                }
                assert(r@ =~= grid_build(outer as nat, batch as nat, g));
            }
        }
        r
    }

    pub fn get(&self, i: usize, b: usize) -> (r: &Matrix<S>)
        requires
            self.wf(),
            i < self.outer(),
            b < self.batch(),
        ensures
            r@ == self.at(i as int, b as int),
            r@.has_shape(self.rows(), self.cols()),
    {
        assert(self.data@[i as int]@.len() == self.batch);
        &self.data[i][b]
    }

    /// The four extents: outer axis, batch, rows, columns.
    pub fn dim(&self) -> (r: (usize, usize, usize, usize))
        ensures
            r.0 == self.outer(),
            r.1 == self.batch(),
            r.2 == self.rows(),
            r.3 == self.cols(),
    {
        (self.outer, self.batch, self.rows, self.cols)
    }

    /// The matrices of a well-formed grid are as many as its extents say, and of its
    /// shape.
    pub proof fn entries_wf(&self)
        requires
            self.wf(),
        ensures
            grid_shape(self@, self.outer(), self.batch(), self.rows(), self.cols()),
    {
        assert forall|i: int, b: int|
            0 <= i < self.outer() && 0 <= b < self.batch() implies (#[trigger] self@[i][b]).has_shape(
            self.rows(),
            self.cols(),
        ) by {
            assert(self.data@[i]@[b]@.has_shape(self.rows as nat, self.cols as nat));
        }
    }
}

/// Sheaf geometry with per-agent low-rank modulated restriction maps.
///
/// The edge factors are gathered once, when the geometry is made: each edge holds the
/// factors of its endpoints in the slot it uses.
///
/// - Apply: `F z = R z + scale * gate * A (B^T z)`.
/// - Adjoint: `F^T r = R^T r + scale * B (gate * (A^T r))`.
/// - `scale = lora_alpha / rank`.
pub struct LoraGeometry<S> {
    pub graph: Arc<AgentGraph<S>>,
    /// Base maps R.
    pub restriction_maps: RestrictionMaps<S>,
    pub lora_alpha: S,
    /// `[E, B]` of `[d_e, r]`.
    pub a_u_edge: FactorGrid<S>,
    pub a_v_edge: FactorGrid<S>,
    /// `[E, B]` of `[d_v, r]`.
    pub b_u_edge: FactorGrid<S>,
    pub b_v_edge: FactorGrid<S>,
    /// `[E, B]`.
    pub gate_u_edge: Option<Matrix<S>>,
    pub gate_v_edge: Option<Matrix<S>>,
    /// One number for each edge; applied once, to the residual.
    pub edge_mask: Option<Vec<S>>,
}

/// Member `j` of `B^T z`: down column `j`.
pub open spec fn projected<S: Scalar>(b: Arr2<S>, z: Seq<S>) -> Seq<S> {
    Seq::new(b.cols, |j: int| adjoined(b, z, j))
}

/// Gate numbers of an optional matrix.
pub open spec fn gate_view<S: Scalar>(gate: Option<Matrix<S>>) -> Option<Arr2<S>> {
    match gate {
        Some(g) => Some(g@),
        None => None,
    }
}

/// `gate` times a number, where there is a gate.
pub open spec fn gated<S: Scalar>(gate: Option<Arr2<S>>, e: int, b: int, value: S) -> S {
    match gate {
        Some(g) => g.at(e, b).spec_times(value),
        None => value,
    }
}

/// `scale * gate`, where there is a gate.
pub open spec fn modulation<S: Scalar>(scale: S, gate: Option<Arr2<S>>, e: int, b: int) -> S {
    match gate {
        Some(g) => scale.spec_times(g.at(e, b)),
        None => scale,
    }
}

/// Member `i` of `R z + m A (B^T z)`.
pub open spec fn lora_applied<S: Scalar>(r: Arr2<S>, a: Arr2<S>, bz: Seq<S>, m: S, z: Seq<S>, i: int) -> S {
    applied(r, z, i).spec_plus(m.spec_times(applied(a, bz, i)))
}

/// `gate * (A^T r)`.
pub open spec fn gated_pull<S: Scalar>(
    a: Arr2<S>,
    gate: Option<Arr2<S>>,
    e: int,
    b: int,
    r: Seq<S>,
) -> Seq<S> {
    Seq::new(a.cols, |j: int| gated(gate, e, b, adjoined(a, r, j)))
}

/// Member `k` of `R^T r + scale * B s`.
pub open spec fn lora_adjoined<S: Scalar>(f: Arr2<S>, bf: Arr2<S>, s: Seq<S>, scale: S, r: Seq<S>, k: int) -> S {
    adjoined(f, r, k).spec_plus(scale.spec_times(applied(bf, s, k)))
}

/// An optional edge gate has one number for each edge and batch element.
pub open spec fn gate_fits<S: Scalar>(gate: Option<Arr2<S>>, e: nat, b: nat) -> bool {
    match gate {
        Some(g) => g.has_shape(e, b),
        None => true,
    }
}

/// Computes `B^T z` for each edge and batch element at the endpoint `side`.
fn project<S: Scalar>(edges: &[[u32; 2]], side: usize, grid: &FactorGrid<S>, z: &Tensor3<S>) -> (r: Tensor3<
    S,
>)
    requires
        side < 2,
        z.wf(),
        endpoints_below(edges@, z@.n),
        grid.has_shape(edges@.len(), z@.b, z@.d, grid.cols()),
    ensures
        r@.has_shape(edges@.len(), z@.b, grid.cols()),
        forall|e: int, b: int|
            0 <= e < edges@.len() && 0 <= b < z@.b ==> #[trigger] r@.data[e][b] == projected(
                grid.at(e, b),
                z@.data[edges@[e]@[side as int] as int][b],
            ),
{
    let (_n, batch, _d) = z.dim();
    let (_e, _b, _r, rank) = grid.dim();
    let out = Tensor3::from_shape_fn(
        edges.len(),
        batch,
        rank,
        |e: usize, b: usize, j: usize| -> (v: S)
            requires
                side < 2,
                z.wf(),
                endpoints_below(edges@, z@.n),
                grid.has_shape(edges@.len(), z@.b, z@.d, grid.cols()),
                e < edges@.len(),
                b < z@.b,
                j < grid.cols(),
            ensures
                v == adjoined(
                    grid.at(e as int, b as int),
                    z@.data[edges@[e as int]@[side as int] as int][b as int],
                    j as int,
                )
            {
                assert(edges@[e as int]@[side as int] < z@.n);
                let node = edges[e][side] as usize;
                assert(z@.data[node as int][b as int].len() == z@.d);
                adjoint_member(grid.get(e, b), z.row(node, b), j)
            },
    );
    assert forall|e: int, b: int| 0 <= e < edges@.len() && 0 <= b < z@.b implies #[trigger] out@.data[e][b]
        == projected(grid.at(e, b), z@.data[edges@[e]@[side as int] as int][b]) by {
        let want = projected(grid.at(e, b), z@.data[edges@[e]@[side as int] as int][b]);
        grid.entries_wf();
        assert forall|j: int| 0 <= j < rank implies out@.data[e][b][j] == want[j] by {
            assert(out@.at(e as usize as int, b as usize as int, j as usize as int) == out@.at(e, b, j));
        }
        assert(out@.data[e][b] =~= want);
    }
    out
}

/// Computes `gate * (A^T r)` for each edge and batch element.
fn pull_gated<S: Scalar>(grid: &FactorGrid<S>, gate: &Option<Matrix<S>>, r: &Tensor3<S>) -> (out: Tensor3<S>)
    requires
        r.wf(),
        grid.has_shape(r@.n, r@.b, r@.d, grid.cols()),
        gate_fits(gate_view(*gate), r@.n, r@.b),
    ensures
        out@.has_shape(r@.n, r@.b, grid.cols()),
        forall|e: int, b: int|
            0 <= e < r@.n && 0 <= b < r@.b ==> #[trigger] out@.data[e][b] == gated_pull(
                grid.at(e, b),
                gate_view(*gate),
                e,
                b,
                r@.data[e][b],
            ),
{
    let (n, batch, _d) = r.dim();
    let (_e, _b, _r, rank) = grid.dim();
    let out = Tensor3::from_shape_fn(
        n,
        batch,
        rank,
        |e: usize, b: usize, j: usize| -> (v: S)
            requires
                r.wf(),
                grid.has_shape(r@.n, r@.b, r@.d, grid.cols()),
                gate_fits(gate_view(*gate), r@.n, r@.b),
                e < r@.n,
                b < r@.b,
                j < grid.cols(),
            ensures
                v == gated(
                    gate_view(*gate),
                    e as int,
                    b as int,
                    adjoined(grid.at(e as int, b as int), r@.data[e as int][b as int], j as int),
                )
            {
                assert(r@.data[e as int][b as int].len() == r@.d);
                let value = adjoint_member(grid.get(e, b), r.row(e, b), j);
                match gate {
                    Some(g) => g.get(e, b).times(value),
                    None => value,
                }
            },
    );
    assert forall|e: int, b: int| 0 <= e < r@.n && 0 <= b < r@.b implies #[trigger] out@.data[e][b]
        == gated_pull(grid.at(e, b), gate_view(*gate), e, b, r@.data[e][b]) by {
        let want = gated_pull(grid.at(e, b), gate_view(*gate), e, b, r@.data[e][b]);
        grid.entries_wf();
        assert forall|j: int| 0 <= j < rank implies out@.data[e][b][j] == want[j] by {
            assert(out@.at(e as usize as int, b as usize as int, j as usize as int) == out@.at(e, b, j));
        }
        assert(out@.data[e][b] =~= want);
    }
    out
}

/// `R^T r + scale * B (gate * (A^T r))` for each edge and batch element, with the base
/// maps of the endpoint `side`.
fn pull_back<S: Scalar>(
    maps: &RestrictionMaps<S>,
    side: usize,
    b_grid: &FactorGrid<S>,
    s: &Tensor3<S>,
    scale: S,
    r: &Tensor3<S>,
) -> (out: Tensor3<S>)
    requires
        side < 2,
        maps.wf(),
        r@.has_shape(maps.maps@.len(), r@.b, maps.d_e as nat),
        b_grid.has_shape(r@.n, r@.b, maps.d_v as nat, b_grid.cols()),
        s@.has_shape(r@.n, r@.b, b_grid.cols()),
    ensures
        out@ == Arr3::build(
            r@.n,
            r@.b,
            maps.d_v as nat,
            |e: int, b: int, k: int|
                lora_adjoined(
                    if side == 0 {
                        maps.at_u()[e]
                    } else {
                        maps.at_v()[e]
                    },
                    b_grid.at(e, b),
                    s@.data[e][b],
                    scale,
                    r@.data[e][b],
                    k,
                ),
        ),
{
    let (n, batch, _d) = r.dim();
    Tensor3::from_shape_fn(
        n,
        batch,
        maps.d_v,
        |e: usize, b: usize, k: usize| -> (v: S)
            requires
                maps.wf(),
                r@.has_shape(maps.maps@.len(), r@.b, maps.d_e as nat),
                b_grid.has_shape(r@.n, r@.b, maps.d_v as nat, b_grid.cols()),
                s@.has_shape(r@.n, r@.b, b_grid.cols()),
                e < r@.n,
                b < r@.b,
                k < maps.d_v,
            ensures
                v == lora_adjoined(
                    if side == 0 {
                        maps.at_u()[e as int]
                    } else {
                        maps.at_v()[e as int]
                    },
                    b_grid.at(e as int, b as int),
                    s@.data[e as int][b as int],
                    scale,
                    r@.data[e as int][b as int],
                    k as int,
                )
            {
                assert(r@.data[e as int][b as int].len() == r@.d);
                assert(s@.data[e as int][b as int].len() == s@.d);
                let f = if side == 0 {
                    &maps.maps[e].u
                } else {
                    &maps.maps[e].v
                };
                let base = adjoint_member(f, r.row(e, b), k);
                base.plus(scale.times(S::dot(b_grid.get(e, b).row(k), s.row(e, b))))
            },
    )
}

/// Node factors in one slot for each edge: the factors of endpoint `side` in the slot
/// that `slots` gives the edge.
fn gather<S: Scalar>(
    factors: &Vec<FactorGrid<S>>,
    edges: &[[u32; 2]],
    side: usize,
    slots: &[u8],
    batch: usize,
    rows: usize,
    cols: usize,
) -> (r: FactorGrid<S>)
    requires
        side < 2,
        slots@.len() == edges@.len(),
        factors_fit(factors@, edges@, slots@, slots@, batch as nat, rows as nat, cols as nat),
    ensures
        r.has_shape(edges@.len(), batch as nat, rows as nat, cols as nat),
        forall|e: int, b: int|
            0 <= e < edges@.len() && 0 <= b < batch ==> #[trigger] r.at(e, b) == factors@[slots@[e] as int].at(
                edges@[e]@[side as int] as int,
                b,
            ),
{
    let out = FactorGrid::from_shape_fn(
        edges.len(),
        batch,
        rows,
        cols,
        |e: usize, b: usize| -> (m: Matrix<S>)
            requires
                side < 2,
                slots@.len() == edges@.len(),
                factors_fit(factors@, edges@, slots@, slots@, batch as nat, rows as nat, cols as nat),
                e < edges@.len(),
                b < batch,
            ensures
                m@ == factors@[slots@[e as int] as int].at(edges@[e as int]@[side as int] as int, b as int),
                m@.has_shape(rows as nat, cols as nat)
            {
                assert(edges@[e as int]@[side as int] < factors@[slots@[e as int] as int].outer());
                let node = edges[e][side] as usize;
                factors[slots[e] as usize].get(node, b).clone()
            },
    );
    assert(out@ == grid_build(
        edges@.len(),
        batch as nat,
        |e: int, b: int| factors@[slots@[e] as int].at(edges@[e]@[side as int] as int, b),
    ));
    out
}

/// Node gates in one slot for each edge.
fn gather_gate<S: Scalar>(gate: &Tensor3<S>, edges: &[[u32; 2]], side: usize, slots: &[u8]) -> (r: Matrix<S>)
    requires
        side < 2,
        gate.wf(),
        slots@.len() == edges@.len(),
        endpoints_below(edges@, gate@.n),
        forall|e: int| 0 <= e < slots@.len() ==> (#[trigger] slots@[e]) < gate@.d,
    ensures
        r.wf(),
        r@ == Arr2::build(
            edges@.len(),
            gate@.b,
            |e: int, b: int| gate@.at(edges@[e]@[side as int] as int, b, slots@[e] as int),
        ),
{
    let (_n, batch, _k) = gate.dim();
    Matrix::from_shape_fn(
        edges.len(),
        batch,
        |e: usize, b: usize| -> (v: S)
            requires
                side < 2,
                gate.wf(),
                slots@.len() == edges@.len(),
                endpoints_below(edges@, gate@.n),
                forall|e: int| 0 <= e < slots@.len() ==> (#[trigger] slots@[e]) < gate@.d,
                e < edges@.len(),
                b < gate@.b,
            ensures
                v == gate@.at(edges@[e as int]@[side as int] as int, b as int, slots@[e as int] as int)
            {
                assert(edges@[e as int]@[side as int] < gate@.n);
                gate.get(edges[e][side] as usize, b, slots[e] as usize)
            },
    )
}

/// Node factors cover every slot that the edges use, all of one shape.
pub open spec fn factors_fit<S: Scalar>(
    factors: Seq<FactorGrid<S>>,
    edges: Seq<[u32; 2]>,
    dir_uv: Seq<u8>,
    dir_vu: Seq<u8>,
    batch: nat,
    rows: nat,
    cols: nat,
) -> bool {
    &&& forall|e: int| 0 <= e < dir_uv.len() ==> (#[trigger] dir_uv[e]) < factors.len()
    &&& forall|e: int| 0 <= e < dir_vu.len() ==> (#[trigger] dir_vu[e]) < factors.len()
    &&& forall|k: int|
        0 <= k < factors.len() ==> (#[trigger] factors[k]).has_shape(
            factors[k].outer(),
            batch,
            rows,
            cols,
        ) && endpoints_below(edges, factors[k].outer())
}

impl<S: Scalar> LoraGeometry<S> {
    /// `scale = lora_alpha / rank`, where the rank is the trailing axis of the A factors.
    pub fn scale(&self) -> (r: S)
        ensures
            r == self@.scale(),
    {
        let (_e, _b, _d, rank) = self.a_u_edge.dim();
        self.lora_alpha.over(S::from_count(rank))
    }

    /// Directional geometry: gathers per-node factors into edge factors by the
    /// graph's slot tables. `a` and `b` hold, for each slot, `[N, B]` matrices
    /// (`[d_e, r]` and `[d_v, r]`); `gate` is `[N, B, K]`.
    pub fn create_directional(
        graph: Arc<AgentGraph<S>>,
        restriction_maps: RestrictionMaps<S>,
        a: &Vec<FactorGrid<S>>,
        b: &Vec<FactorGrid<S>>,
        gate: Option<&Tensor3<S>>,
        lora_alpha: S,
        batch: usize,
        rank: usize,
    ) -> (r: Self)
        requires
            graph.wf(),
            graph.dir_uv@.len() == graph.edges@.len(),
            restriction_maps.wf(),
            restriction_maps.maps@.len() == graph.edges@.len(),
            factors_fit(
                a@,
                graph.edges@,
                graph.dir_uv@,
                graph.dir_vu@,
                batch as nat,
                restriction_maps.d_e as nat,
                rank as nat,
            ),
            factors_fit(
                b@,
                graph.edges@,
                graph.dir_uv@,
                graph.dir_vu@,
                batch as nat,
                restriction_maps.d_v as nat,
                rank as nat,
            ),
            match gate {
                Some(g) => {
                    &&& g.wf()
                    &&& g@.b == batch
                    &&& endpoints_below(graph.edges@, g@.n)
                    &&& forall|e: int| 0 <= e < graph.dir_uv@.len() ==> (#[trigger] graph.dir_uv@[e]) < g@.d
                    &&& forall|e: int| 0 <= e < graph.dir_vu@.len() ==> (#[trigger] graph.dir_vu@[e]) < g@.d
                },
                None => true,
            },
        ensures
            r.wf(),
            r.graph == graph,
            r.restriction_maps == restriction_maps,
            r.lora_alpha == lora_alpha,
            r.edge_mask is None,
            r.a_u_edge.batch() == batch,
            r.a_u_edge.cols() == rank,
            forall|e: int, j: int|
                0 <= e < graph.edges@.len() && 0 <= j < batch ==> #[trigger] r.a_u_edge.at(e, j)
                    == a@[graph.dir_uv@[e] as int].at(graph.edges@[e]@[0] as int, j),
            forall|e: int, j: int|
                0 <= e < graph.edges@.len() && 0 <= j < batch ==> #[trigger] r.a_v_edge.at(e, j)
                    == a@[graph.dir_vu@[e] as int].at(graph.edges@[e]@[1] as int, j),
            forall|e: int, j: int|
                0 <= e < graph.edges@.len() && 0 <= j < batch ==> #[trigger] r.b_u_edge.at(e, j)
                    == b@[graph.dir_uv@[e] as int].at(graph.edges@[e]@[0] as int, j),
            forall|e: int, j: int|
                0 <= e < graph.edges@.len() && 0 <= j < batch ==> #[trigger] r.b_v_edge.at(e, j)
                    == b@[graph.dir_vu@[e] as int].at(graph.edges@[e]@[1] as int, j),
            match gate {
                Some(g) => {
                    &&& r.gate_u_edge matches Some(gu) && gu@ == Arr2::build(
                        graph.edges@.len(),
                        batch as nat,
                        |e: int, j: int| g@.at(graph.edges@[e]@[0] as int, j, graph.dir_uv@[e] as int),
                    )
                    &&& r.gate_v_edge matches Some(gv) && gv@ == Arr2::build(
                        graph.edges@.len(),
                        batch as nat,
                        |e: int, j: int| g@.at(graph.edges@[e]@[1] as int, j, graph.dir_vu@[e] as int),
                    )
                },
                None => r.gate_u_edge is None && r.gate_v_edge is None,
            },
    {
        let d_e = restriction_maps.d_e;
        let d_v = restriction_maps.d_v;
        let edges = graph.edges.as_slice();
        let uv = graph.dir_uv.as_slice();
        let vu = graph.dir_vu.as_slice();
        let a_u_edge = gather(a, edges, 0, uv, batch, d_e, rank);
        let a_v_edge = gather(a, edges, 1, vu, batch, d_e, rank);
        let b_u_edge = gather(b, edges, 0, uv, batch, d_v, rank);
        let b_v_edge = gather(b, edges, 1, vu, batch, d_v, rank);
        let (gate_u_edge, gate_v_edge) = match gate {
            Some(g) => (Some(gather_gate(g, edges, 0, uv)), Some(gather_gate(g, edges, 1, vu))),
            None => (None, None),
        };
        LoraGeometry {
            graph,
            restriction_maps,
            lora_alpha,
            a_u_edge,
            a_v_edge,
            b_u_edge,
            b_v_edge,
            gate_u_edge,
            gate_v_edge,
            edge_mask: None,
        }
    }
}

/// What a geometry with modulated maps consists of.
#[verifier::ext_equal]
pub ghost struct LoraModel<S> {
    /// Edges, base maps R and mask.
    pub base: FixedModel<S>,
    pub lora_alpha: S,
    pub batch: nat,
    pub rank: nat,
    /// For each edge and batch element, `[d_e, rank]`.
    pub a_u: Seq<Seq<Arr2<S>>>,
    pub a_v: Seq<Seq<Arr2<S>>>,
    /// For each edge and batch element, `[d_v, rank]`.
    pub b_u: Seq<Seq<Arr2<S>>>,
    pub b_v: Seq<Seq<Arr2<S>>>,
    pub gate_u: Option<Arr2<S>>,
    pub gate_v: Option<Arr2<S>>,
}

/// A `[rows, cols]` matrix for each of `outer` edges and `batch` batch elements.
pub open spec fn grid_shape<S>(grid: Seq<Seq<Arr2<S>>>, outer: nat, batch: nat, rows: nat, cols: nat) -> bool {
    &&& grid.len() == outer
    &&& forall|e: int| 0 <= e < outer ==> (#[trigger] grid[e]).len() == batch
    &&& forall|e: int, b: int|
        0 <= e < outer && 0 <= b < batch ==> (#[trigger] grid[e][b]).has_shape(rows, cols)
}

impl<S: Scalar> LoraModel<S> {
    /// The base maps are well formed and the factors have their shapes.
    pub open spec fn wf(self) -> bool {
        let e = self.base.edges.len();
        &&& self.base.wf()
        &&& grid_shape(self.a_u, e, self.batch, self.base.d_e, self.rank)
        &&& grid_shape(self.a_v, e, self.batch, self.base.d_e, self.rank)
        &&& grid_shape(self.b_u, e, self.batch, self.base.d_v, self.rank)
        &&& grid_shape(self.b_v, e, self.batch, self.base.d_v, self.rank)
        &&& gate_fits(self.gate_u, e, self.batch)
        &&& gate_fits(self.gate_v, e, self.batch)
    }

    /// Node states of this shape fit the model.
    pub open spec fn admits(self, n: nat, b: nat, d: nat) -> bool {
        self.base.admits(n, b, d) && b == self.batch
    }

    /// `lora_alpha / rank`.
    pub open spec fn scale(self) -> S {
        self.lora_alpha.spec_over(S::spec_from_count(self.rank))
    }

    /// Member `i` of `F_u z_u` on edge `e` in batch element `b`.
    pub open spec fn u_member(self, z: Arr3<S>, e: int, b: int, i: int) -> S {
        let zu = z.data[self.base.edges[e].0][b];
        lora_applied(
            self.base.at_u[e],
            self.a_u[e][b],
            projected(self.b_u[e][b], zu),
            modulation(self.scale(), self.gate_u, e, b),
            zu,
            i,
        )
    }

    /// Member `i` of `F_v z_v` on edge `e` in batch element `b`.
    pub open spec fn v_member(self, z: Arr3<S>, e: int, b: int, i: int) -> S {
        let zv = z.data[self.base.edges[e].1][b];
        lora_applied(
            self.base.at_v[e],
            self.a_v[e][b],
            projected(self.b_v[e][b], zv),
            modulation(self.scale(), self.gate_v, e, b),
            zv,
            i,
        )
    }

    /// Member `i` of the residual of edge `e` in batch element `b`.
    pub open spec fn residual_at(self, z: Arr3<S>, e: int, b: int, i: int) -> S {
        masked(
            self.base.mask,
            e,
            self.u_member(z, e, b, i).spec_minus(self.v_member(z, e, b, i)),
        )
    }

    /// The coboundary of a node state.
    pub open spec fn residuals(self, z: Arr3<S>) -> Arr3<S> {
        Arr3::build(
            self.base.edges.len(),
            z.b,
            self.base.d_e,
            |e: int, b: int, i: int| self.residual_at(z, e, b, i),
        )
    }

    /// Member `k` of edge `e`'s residual pulled back through the unmasked map at its
    /// u-endpoint.
    pub open spec fn u_pull(self, r: Seq<S>, e: int, b: int, k: int) -> S {
        lora_adjoined(
            self.base.at_u[e],
            self.b_u[e][b],
            gated_pull(self.a_u[e][b], self.gate_u, e, b, r),
            self.scale(),
            r,
            k,
        )
    }

    /// The same at its v-endpoint.
    pub open spec fn v_pull(self, r: Seq<S>, e: int, b: int, k: int) -> S {
        lora_adjoined(
            self.base.at_v[e],
            self.b_v[e][b],
            gated_pull(self.a_v[e][b], self.gate_v, e, b, r),
            self.scale(),
            r,
            k,
        )
    }

    /// The residuals pulled back at the u-endpoints.
    pub open spec fn pulled_u(self, r: Arr3<S>) -> Arr3<S> {
        Arr3::build(
            self.base.edges.len(),
            r.b,
            self.base.d_v,
            |e: int, b: int, k: int| self.u_pull(r.data[e][b], e, b, k),
        )
    }

    /// The residuals pulled back at the v-endpoints.
    pub open spec fn pulled_v(self, r: Arr3<S>) -> Arr3<S> {
        Arr3::build(
            self.base.edges.len(),
            r.b,
            self.base.d_v,
            |e: int, b: int, k: int| self.v_pull(r.data[e][b], e, b, k),
        )
    }

    /// The Laplacian of a node state.
    pub open spec fn laplacian(self, z: Arr3<S>) -> Arr3<S> {
        let r = self.residuals(z);
        scatter_of(self.base.edges, self.pulled_u(r), self.pulled_v(r), z.n)
    }

    pub open spec fn operators(self) -> Operators<S> {
        Operators {
            residuals: |z: Arr3<S>| self.residuals(z),
            laplacian: |z: Arr3<S>| self.laplacian(z),
        }
    }
}

impl<S: Scalar> View for LoraGeometry<S> {
    type V = LoraModel<S>;

    open spec fn view(&self) -> LoraModel<S> {
        LoraModel {
            base: FixedModel {
                edges: pairs_of(self.graph.edges@),
                d_e: self.restriction_maps.d_e as nat,
                d_v: self.restriction_maps.d_v as nat,
                at_u: self.restriction_maps.at_u(),
                at_v: self.restriction_maps.at_v(),
                mask: mask_view(self.edge_mask),
            },
            lora_alpha: self.lora_alpha,
            batch: self.a_u_edge.batch(),
            rank: self.a_u_edge.cols(),
            a_u: self.a_u_edge@,
            a_v: self.a_v_edge@,
            b_u: self.b_u_edge@,
            b_v: self.b_v_edge@,
            gate_u: gate_view(self.gate_u_edge),
            gate_v: gate_view(self.gate_v_edge),
        }
    }
}

impl<S: Scalar> SheafGeometry<S> for LoraGeometry<S> {
    open spec fn wf(&self) -> bool {
        let e = self.graph.edges@.len();
        let b = self.a_u_edge.batch();
        let rank = self.a_u_edge.cols();
        let (d_e, d_v) = (self.restriction_maps.d_e as nat, self.restriction_maps.d_v as nat);
        &&& self.graph.wf()
        &&& self.restriction_maps.wf()
        &&& self.restriction_maps.maps@.len() == e
        &&& self.a_u_edge.has_shape(e, b, d_e, rank)
        &&& self.a_v_edge.has_shape(e, b, d_e, rank)
        &&& self.b_u_edge.has_shape(e, b, d_v, rank)
        &&& self.b_v_edge.has_shape(e, b, d_v, rank)
        &&& gate_fits(gate_view(self.gate_u_edge), e, b)
        &&& gate_fits(gate_view(self.gate_v_edge), e, b)
        &&& match self.edge_mask {
            Some(mask) => mask@.len() == e,
            None => true,
        }
    }

    open spec fn edge_count(&self) -> nat {
        self.graph.edges@.len()
    }

    open spec fn edge_dim(&self) -> nat {
        self.restriction_maps.d_e as nat
    }

    open spec fn admits(&self, n: nat, b: nat, d: nat) -> bool {
        self@.admits(n, b, d)
    }

    open spec fn operators(&self) -> Operators<S> {
        self@.operators()
    }

    fn edge_residuals(&self, z: &Tensor3<S>) -> (r: Tensor3<S>) {
        let (_n, batch, _d) = z.dim();
        let edges = self.graph.edges.as_slice();
        let scale = self.scale();
        proof {
            crate::geometry::below_as_pairs(self.graph.edges@, z@.n);
        }
        let bz_u = project(edges, 0, &self.b_u_edge, z);
        let bz_v = project(edges, 1, &self.b_v_edge, z);
        Tensor3::from_shape_fn(
            edges.len(),
            batch,
            self.restriction_maps.d_e,
            |e: usize, b: usize, i: usize| -> (v: S)
                requires
                    self.wf(),
                    z.wf(),
                    self.admits(z@.n, z@.b, z@.d),
                    e < self.edge_count(),
                    b < z@.b,
                    i < self.edge_dim(),
                ensures
                    v == self@.residual_at(z@, e as int, b as int, i as int)
                {
                    assert(self@.base.edges[e as int] == (
                        self.graph.edges@[e as int]@[0] as int,
                        self.graph.edges@[e as int]@[1] as int,
                    ));
                    let node_u = self.graph.edges[e][0] as usize;
                    let node_v = self.graph.edges[e][1] as usize;
                    let maps = &self.restriction_maps.maps[e];
                    assert(z@.data[node_u as int][b as int].len() == z@.d);
                    assert(z@.data[node_v as int][b as int].len() == z@.d);
                    assert(bz_u@.data[e as int][b as int].len() == bz_u@.d);
                    assert(bz_v@.data[e as int][b as int].len() == bz_v@.d);
                    let m_u = match &self.gate_u_edge {
                        Some(g) => scale.times(g.get(e, b)),
                        None => scale,
                    };
                    let m_v = match &self.gate_v_edge {
                        Some(g) => scale.times(g.get(e, b)),
                        None => scale,
                    };
                    let low_u = S::dot(self.a_u_edge.get(e, b).row(i), bz_u.row(e, b));
                    let low_v = S::dot(self.a_v_edge.get(e, b).row(i), bz_v.row(e, b));
                    let at_u = S::dot(maps.u.row(i), z.row(node_u, b)).plus(m_u.times(low_u));
                    let at_v = S::dot(maps.v.row(i), z.row(node_v, b)).plus(m_v.times(low_v));
                    let diff = at_u.minus(at_v);
                    match &self.edge_mask {
                        Some(mask) => diff.times(mask[e]),
                        None => diff,
                    }
                },
        )
    }

    fn laplacian_apply(&self, z: &Tensor3<S>, out: &mut Tensor3<S>) {
        let r = self.edge_residuals(z);
        let (n, _b, _d) = z.dim();
        let scale = self.scale();
        let s_u = pull_gated(&self.a_u_edge, &self.gate_u_edge, &r);
        let s_v = pull_gated(&self.a_v_edge, &self.gate_v_edge, &r);
        let at_u = pull_back(&self.restriction_maps, 0, &self.b_u_edge, &s_u, scale, &r);
        let at_v = pull_back(&self.restriction_maps, 1, &self.b_v_edge, &s_v, scale, &r);
        proof {
            crate::tensor::arr3_ext(at_u@, self@.pulled_u(r@));
            crate::tensor::arr3_ext(at_v@, self@.pulled_v(r@));
        }
        proof {
            crate::geometry::below_as_pairs(self.graph.edges@, n as nat);
        }
        *out = scatter_edges(self.graph.edges.as_slice(), &at_u, &at_v, n);
    }
}

} // verus!
