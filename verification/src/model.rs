//! The end-to-end maze model: encode, assemble the geometry, coordinate, decode.
use crate::admm::{
    run_admm, run_admm_history, AdmmHistory, AdmmParams, AdmmState, Problem, XSolverKind,
};
use crate::algebra::zeros3;
use crate::config::ExportedConfig;
use crate::decoder::{ClassificationDecoder, ConcatMlpDecoderV2, SudokuDecoder};
use crate::encoder::{slot_grid, MlpEncoder, MlpEncoderV2, SudokuEncoder};
use crate::geometry::{
    grid_build, EdgeMaps, FixedGeometry, FixedModel, LoraGeometry, LoraModel, Operators,
    RestrictionMaps, SheafGeometry,
};
use crate::graph::{AgentGraph, GraphModel};
use crate::restriction_maps::{build_directional_restriction_maps, slots_covered};
use crate::scalar::Scalar;
use crate::solvers::{EncoderOutput, UnrolledCgParams, ZMode};
use crate::tensor::{Arr2, Arr3, Matrix, Tensor3};
use crate::text::text_is;
use std::sync::Arc;
use vstd::prelude::*;

verus! {

/// Learned base restriction maps, `[d_e, d_v]` each, in direction order.
#[derive(Debug)]
pub struct RmParams<S> {
    pub r_stack: Vec<Matrix<S>>,
}

/// The full maze model: weights, baked scalars, configuration.
#[derive(Debug)]
pub struct SheafAdmmModel<S> {
    pub config: ExportedConfig<S>,
    pub encoder: MlpEncoderV2<S>,
    pub decoder: ConcatMlpDecoderV2<S>,
    pub rm: RmParams<S>,
    /// The baked penalty.
    pub rho: S,
}

/// The mnist model: one base map shared by all edges.
#[derive(Debug)]
pub struct MnistSheafModel<S> {
    pub config: ExportedConfig<S>,
    pub encoder: MlpEncoder<S>,
    pub decoder: ClassificationDecoder<S>,
    /// `[d_e, d_v]`.
    pub rm_shared: Matrix<S>,
    pub rho: S,
}

/// The sudoku model: one base map for each of nine shared-cell slots.
#[derive(Debug)]
pub struct SudokuSheafModel<S> {
    pub config: ExportedConfig<S>,
    pub encoder: SudokuEncoder<S>,
    pub decoder: SudokuDecoder<S>,
    /// Nine of `[d_e, d_v]`.
    pub r_indices: Vec<Matrix<S>>,
    /// `[27, 9]` cells of the agents: rows, columns, boxes.
    pub cell_ids: Matrix<i64>,
    pub rho: S,
}

/// Everything that one forward pass yields.
pub struct MazeForward<S> {
    pub history: AdmmHistory<S>,
    /// Per-agent logits of each iteration, `[N, B, ph * pw * num_classes]`, read off the
    /// local proposals.
    pub logits_per_iter: Vec<Tensor3<S>>,
    pub final_state: AdmmState<S>,
    pub base_restriction_maps: RestrictionMaps<S>,
}

impl<S: Scalar> MazeForward<S> {
    /// Per-agent logits of the final iteration.
    pub fn logits_final(&self) -> (r: Tensor3<S>)
        requires
            self.logits_per_iter@.len() > 0,
        ensures
            r@ == self.logits_per_iter@.last()@,
    {
        self.logits_per_iter[self.logits_per_iter.len() - 1].clone()
    }
}

/// Either of the two geometries.
pub enum Geometry<S> {
    Fixed(FixedGeometry<S>),
    Lora(LoraGeometry<S>),
}

impl<S: Scalar> SheafGeometry<S> for Geometry<S> {
    open spec fn wf(&self) -> bool {
        match self {
            Geometry::Fixed(g) => g.wf(),
            Geometry::Lora(g) => g.wf(),
        }
    }

    open spec fn edge_count(&self) -> nat {
        match self {
            Geometry::Fixed(g) => g.edge_count(),
            Geometry::Lora(g) => g.edge_count(),
        }
    }

    open spec fn edge_dim(&self) -> nat {
        match self {
            Geometry::Fixed(g) => g.edge_dim(),
            Geometry::Lora(g) => g.edge_dim(),
        }
    }

    open spec fn admits(&self, n: nat, b: nat, d: nat) -> bool {
        match self {
            Geometry::Fixed(g) => g.admits(n, b, d),
            Geometry::Lora(g) => g.admits(n, b, d),
        }
    }

    open spec fn operators(&self) -> Operators<S> {
        match self {
            Geometry::Fixed(g) => g.operators(),
            Geometry::Lora(g) => g.operators(),
        }
    }

    fn edge_residuals(&self, z: &Tensor3<S>) -> (r: Tensor3<S>) {
        match self {
            Geometry::Fixed(g) => {
                assert(self.edge_count() == g.edge_count());
                assert(self.edge_dim() == g.edge_dim());
                g.edge_residuals(z)
            },
            Geometry::Lora(g) => g.edge_residuals(z),
        }
    }

    fn laplacian_apply(&self, z: &Tensor3<S>, out: &mut Tensor3<S>) {
        match self {
            Geometry::Fixed(g) => g.laplacian_apply(z, out),
            Geometry::Lora(g) => g.laplacian_apply(z, out),
        }
    }
}

/// Grids with the same matrices are the same.
proof fn grids_equal<S>(a: Seq<Seq<Arr2<S>>>, b: Seq<Seq<Arr2<S>>>, outer: nat, batch: nat)
    requires
        a.len() == outer,
        b.len() == outer,
        forall|i: int| 0 <= i < outer ==> (#[trigger] a[i]).len() == batch,
        forall|i: int| 0 <= i < outer ==> (#[trigger] b[i]).len() == batch,
        forall|i: int, j: int| 0 <= i < outer && 0 <= j < batch ==> #[trigger] a[i][j] == b[i][j],
    ensures
        a == b,
{
    assert forall|i: int| 0 <= i < outer implies a[i] == b[i] by {
        assert(a[i] =~= b[i]);
    }
    assert(a =~= b);
}

/// Copies restriction maps.
fn copy_maps<S: Scalar>(maps: &RestrictionMaps<S>) -> (r: RestrictionMaps<S>)
    requires
        maps.wf(),
    ensures
        r.wf(),
        r.d_e == maps.d_e,
        r.d_v == maps.d_v,
        r.maps@.len() == maps.maps@.len(),
        r.at_u() == maps.at_u(),
        r.at_v() == maps.at_v(),
{
    let mut out: Vec<EdgeMaps<S>> = Vec::new();
    for e in 0..maps.maps.len()
        invariant
            out@.len() == e,
            forall|i: int|
                0 <= i < e ==> (#[trigger] out@[i]).u@ == maps.maps@[i].u@ && out@[i].v@ == maps.maps@[i].v@,
    {
        let pair = &maps.maps[e];
        out.push(EdgeMaps { u: pair.u.clone(), v: pair.v.clone() });
    }
    let r = RestrictionMaps { d_e: maps.d_e, d_v: maps.d_v, maps: out };
    assert(r.at_u() =~= maps.at_u());
    assert(r.at_v() =~= maps.at_v());
    r
}

/// Stacks a window of states, oldest first.
pub fn stack_states<S: Scalar>(window: &[Tensor3<S>]) -> (r: Vec<Tensor3<S>>)
    requires
        window@.len() > 0,
    ensures
        r@.len() == window@.len(),
        forall|i: int| 0 <= i < r@.len() ==> (#[trigger] r@[i])@ == window@[i]@,
{
    let mut out: Vec<Tensor3<S>> = Vec::new();
    for i in 0..window.len()
        invariant
            out@.len() == i,
            forall|j: int| 0 <= j < i ==> (#[trigger] out@[j])@ == window@[j]@,
    {
        out.push(window[i].clone());
    }
    out
}

/// What the two forward passes share.
struct Setup<S> {
    enc: EncoderOutput<S>,
    geometry: Geometry<S>,
    base: RestrictionMaps<S>,
    z_params: UnrolledCgParams<S>,
    params: AdmmParams<S>,
    x_solver: XSolverKind,
    z_init: Tensor3<S>,
}

impl<S: Scalar> SheafAdmmModel<S> {
    /// The base maps on a graph: at each endpoint of an edge the map of the slot that
    /// the edge uses there.
    pub open spec fn base_model(&self, graph: GraphModel) -> FixedModel<S> {
        FixedModel {
            edges: graph.edges,
            d_e: self.encoder.config.d_e as nat,
            d_v: self.encoder.config.d_v as nat,
            at_u: Seq::new(graph.edges.len(), |e: int| self.rm.r_stack@[graph.dir_uv[e] as int]@),
            at_v: Seq::new(graph.edges.len(), |e: int| self.rm.r_stack@[graph.dir_vu[e] as int]@),
            mask: None,
        }
    }

    /// The base maps modulated by the factors of the patches: each endpoint of an edge
    /// contributes its own factors in the slot that the edge uses there.
    pub open spec fn lora_model(&self, graph: GraphModel, patches: Arr3<S>) -> LoraModel<S> {
        let c = &self.encoder.config;
        let (d_e, d_v, rank) = (c.d_e as nat, c.d_v as nat, c.lora_rank as nat);
        let a = self.encoder.a_rows(patches);
        let b = self.encoder.b_rows(patches);
        let e_cnt = graph.edges.len();
        LoraModel {
            base: self.base_model(graph),
            lora_alpha: c.lora_alpha,
            batch: patches.b,
            rank,
            a_u: grid_build(
                e_cnt,
                patches.b,
                |e: int, j: int|
                    slot_grid(a, graph.dir_uv[e] as int, d_e, rank)[graph.edges[e].0][j],
            ),
            a_v: grid_build(
                e_cnt,
                patches.b,
                |e: int, j: int|
                    slot_grid(a, graph.dir_vu[e] as int, d_e, rank)[graph.edges[e].1][j],
            ),
            b_u: grid_build(
                e_cnt,
                patches.b,
                |e: int, j: int|
                    slot_grid(b, graph.dir_uv[e] as int, d_v, rank)[graph.edges[e].0][j],
            ),
            b_v: grid_build(
                e_cnt,
                patches.b,
                |e: int, j: int|
                    slot_grid(b, graph.dir_vu[e] as int, d_v, rank)[graph.edges[e].1][j],
            ),
            gate_u: None,
            gate_v: None,
        }
    }

    /// The geometry that the configuration asks for.
    pub open spec fn operators(&self, graph: GraphModel, patches: Arr3<S>) -> Operators<S> {
        if self.config.model.rm_mode@ == "context"@ {
            self.lora_model(graph, patches).operators()
        } else {
            self.base_model(graph).operators()
        }
    }

    /// The coordination problem that patches on a graph pose.
    pub open spec fn problem(&self, graph: GraphModel, patches: Arr3<S>) -> Problem<S> {
        let m = &self.config.model;
        Problem {
            h: self.encoder.h_of(patches),
            objective: self.encoder.objective_of(patches),
            ops: self.operators(graph, patches),
            x_solver: if m.x_solver@ == "diagonal_prox"@ {
                XSolverKind::DiagonalProx
            } else {
                XSolverKind::Simple
            },
            z_params: UnrolledCgParams {
                mode: if m.z_mode@ == "prox"@ {
                    ZMode::Prox
                } else {
                    ZMode::Project
                },
                gamma: m.gamma,
                num_iters: m.cg_iters,
                tikhonov_eps: m.tikhonov_eps,
            },
            rho: self.rho,
            alpha: m.relaxation_alpha,
        }
    }

    /// Where the loop starts: the encoder embedding, or zeros.
    pub open spec fn seed(&self, patches: Arr3<S>) -> Arr3<S> {
        if self.config.model.z_init@ == "h"@ {
            self.encoder.h_of(patches)
        } else {
            zeros3(patches.n, patches.b, self.encoder.config.d_v as nat)
        }
    }

    /// The weights fit each other and the configuration names known modes.
    pub open spec fn wf(&self) -> bool {
        let m = &self.config.model;
        let c = &self.encoder.config;
        &&& self.encoder.wf()
        &&& self.decoder.wf()
        &&& c.num_directions == m.num_directions
        &&& self.rm.r_stack@.len() == m.num_directions
        &&& forall|k: int|
            0 <= k < self.rm.r_stack@.len() ==> (#[trigger] self.rm.r_stack@[k])@.has_shape(
                c.d_e as nat,
                c.d_v as nat,
            )
        &&& self.decoder.in_feats() == self.encoder.in_feats() + c.d_v
        &&& m.rm_mode@ == "context"@ || m.rm_mode@ == "fixed"@
        &&& m.z_mode@ == "prox"@ || m.z_mode@ == "project"@
        &&& m.x_solver@ == "diagonal_prox"@ || m.x_solver@ == "simple"@
        &&& m.gamma.spec_same(m.gamma)
    }

    /// The model can run `num_iters` iterations on these patches and this graph. The
    /// encoder's objective has no tethered form, so the tethered solver runs none.
    pub open spec fn runnable(&self, graph: &AgentGraph<S>, patches: Arr3<S>, num_iters: usize) -> bool {
        &&& self.wf()
        &&& patches.has_shape(graph.num_nodes as nat, patches.b, self.encoder.in_feats())
        &&& graph.wf()
        &&& slots_covered(graph, self.rm.r_stack@.len())
        &&& graph.edges@.len() * self.encoder.config.d_e <= usize::MAX
        &&& num_iters > 0 ==> self.config.model.x_solver@ == "diagonal_prox"@
    }

    /// Encodes, assembles the base maps, builds the geometry, picks the start and the
    /// solver parameters.
    fn setup_admm(&self, patches: &Tensor3<S>, graph: &Arc<AgentGraph<S>>, num_iters: usize) -> (r: Setup<S>)
        requires
            self.runnable(&**graph, patches@, num_iters),
        ensures
            r.params.k == num_iters,
            r.params.rho == self.rho,
            r.params.alpha == self.config.model.relaxation_alpha,
            r.params.gamma.spec_same(r.z_params.gamma),
            r.geometry.wf(),
            r.z_init@.has_shape(patches@.n, patches@.b, self.encoder.config.d_v as nat),
            r.z_init@ == self.seed(patches@),
            r.geometry.admits(patches@.n, patches@.b, self.encoder.config.d_v as nat),
            r.geometry.edge_count() == graph@.edges.len(),
            r.geometry.edge_dim() == self.encoder.config.d_e,
            r.enc.objective@.diagonal_fits(patches@.n, patches@.b, self.encoder.config.d_v as nat),
            crate::admm::problem_of(
                r.enc,
                r.geometry,
                r.x_solver,
                r.z_params,
                r.params.rho,
                r.params.alpha,
            ) == self.problem(graph@, patches@),
            r.base.wf(),
            r.base.at_u() == self.base_model(graph@).at_u,
            r.base.at_v() == self.base_model(graph@).at_v,
    {
        let m = &self.config.model;
        let c = &self.encoder.config;
        let enc = self.encoder.forward(patches);
        let base = build_directional_restriction_maps(&self.rm.r_stack, graph, c.d_e, c.d_v);
        assert(base.at_u() =~= self.base_model(graph@).at_u);
        assert(base.at_v() =~= self.base_model(graph@).at_v);
        let maps = copy_maps(&base);
        let geometry = if text_is(&m.rm_mode, "context") {
            match &enc.lora {
                Some(lora) => {
                    let (_n, batch, _d) = patches.dim();
                    let g = LoraGeometry::create_directional(
                        graph.clone(),
                        maps,
                        &lora.a,
                        &lora.b,
                        None,
                        lora.lora_alpha,
                        batch,
                        c.lora_rank,
                    );
                    proof {
                        g.a_u_edge.entries_wf();
                        g.a_v_edge.entries_wf();
                        g.b_u_edge.entries_wf();
                        g.b_v_edge.entries_wf();
                        let want = self.lora_model(graph@, patches@);
                        assert forall|e: int, j: int|
                            0 <= e < graph.edges@.len() && 0 <= j < batch implies #[trigger] g@.a_u[e][j]
                            == want.a_u[e][j] by {
                            assert(g.a_u_edge.at(e, j) == lora.a@[graph.dir_uv@[e] as int].at(
                                graph.edges@[e]@[0] as int,
                                j,
                            ));
                        }
                        grids_equal(g@.a_u, want.a_u, graph.edges@.len(), patches@.b);
                        assert forall|e: int, j: int|
                            0 <= e < graph.edges@.len() && 0 <= j < batch implies #[trigger] g@.a_v[e][j]
                            == want.a_v[e][j] by {
                            assert(g.a_v_edge.at(e, j) == lora.a@[graph.dir_vu@[e] as int].at(
                                graph.edges@[e]@[1] as int,
                                j,
                            ));
                        }
                        grids_equal(g@.a_v, want.a_v, graph.edges@.len(), patches@.b);
                        assert forall|e: int, j: int|
                            0 <= e < graph.edges@.len() && 0 <= j < batch implies #[trigger] g@.b_u[e][j]
                            == want.b_u[e][j] by {
                            assert(g.b_u_edge.at(e, j) == lora.b@[graph.dir_uv@[e] as int].at(
                                graph.edges@[e]@[0] as int,
                                j,
                            ));
                        }
                        grids_equal(g@.b_u, want.b_u, graph.edges@.len(), patches@.b);
                        assert forall|e: int, j: int|
                            0 <= e < graph.edges@.len() && 0 <= j < batch implies #[trigger] g@.b_v[e][j]
                            == want.b_v[e][j] by {
                            assert(g.b_v_edge.at(e, j) == lora.b@[graph.dir_vu@[e] as int].at(
                                graph.edges@[e]@[1] as int,
                                j,
                            ));
                        }
                        grids_equal(g@.b_v, want.b_v, graph.edges@.len(), patches@.b);
                        assert(g@ =~= want);
                    }
                    Geometry::Lora(g)
                },
                None => Geometry::Fixed(FixedGeometry::new(graph.clone(), maps)),
            }
        } else {
            let g = FixedGeometry::new(graph.clone(), maps);
            assert(g@ =~= self.base_model(graph@));
            Geometry::Fixed(g)
        };
        let z_init = if text_is(&m.z_init, "h") {
            enc.h.clone()
        } else {
            let (n, b, d) = enc.h.dim();
            Tensor3::from_elem(n, b, d, S::zero())
        };
        let mode = if text_is(&m.z_mode, "prox") {
            ZMode::Prox
        } else {
            ZMode::Project
        };
        let z_params = UnrolledCgParams {
            mode,
            gamma: m.gamma,
            num_iters: m.cg_iters,
            tikhonov_eps: m.tikhonov_eps,
        };
        let params = AdmmParams { rho: self.rho, alpha: m.relaxation_alpha, gamma: m.gamma, k: num_iters };
        let x_solver = if text_is(&m.x_solver, "diagonal_prox") {
            XSolverKind::DiagonalProx
        } else {
            XSolverKind::Simple
        };
        Setup { enc, geometry, base, z_params, params, x_solver, z_init }
    }

    /// The geometry that the configuration asks for, on these patches.
    pub fn geometry(&self, patches: &Tensor3<S>, graph: &Arc<AgentGraph<S>>) -> (r: Geometry<S>)
        requires
            self.runnable(&**graph, patches@, 0),
        ensures
            r.wf(),
            r.admits(patches@.n, patches@.b, self.encoder.config.d_v as nat),
            r.operators() == self.operators(graph@, patches@),
            r.edge_count() == graph@.edges.len(),
            r.edge_dim() == self.encoder.config.d_e,
    {
        let s = self.setup_admm(patches, graph, 0);
        s.geometry
    }

    /// Full forward pass with per-iteration history; every recorded proposal is decoded.
    /// Patches are `[N, B, ph * pw * C]`.
    pub fn forward(&self, patches: &Tensor3<S>, graph: Arc<AgentGraph<S>>, num_iters: usize) -> (r: MazeForward<
        S,
    >)
        requires
            self.runnable(&*graph, patches@, num_iters),
        ensures
            r.history.records(self.problem(graph@, patches@), self.seed(patches@), num_iters as nat),
            r.final_state@ == self.problem(graph@, patches@).iterate(self.seed(patches@), num_iters as nat),
            r.logits_per_iter@.len() == num_iters,
            forall|i: int|
                0 <= i < num_iters ==> (#[trigger] r.logits_per_iter@[i])@ == self.decoder.logits_of(
                    r.history.x@[i]@,
                    patches@,
                ) && r.logits_per_iter@[i].wf(),
            r.base_restriction_maps.at_u() == self.base_model(graph@).at_u,
            r.base_restriction_maps.at_v() == self.base_model(graph@).at_v,
    {
        let s = self.setup_admm(patches, &graph, num_iters);
        let (final_state, history) = run_admm_history(
            &s.enc,
            &s.geometry,
            s.x_solver,
            &s.z_params,
            &s.params,
            &s.z_init,
        );
        proof {
            let problem = self.problem(graph@, patches@);
            assert forall|i: int| 0 <= i < history.x@.len() implies (#[trigger] history.x@[i])@.has_shape(
                patches@.n,
                patches@.b,
                self.encoder.config.d_v as nat,
            ) by {
                assert(history.records_step(problem, self.seed(patches@), i));
            }
        }
        let logits_per_iter = self.decode_x_iterates(&history.x, patches);
        MazeForward { history, logits_per_iter, final_state, base_restriction_maps: s.base }
    }

    /// Runs `num_iters` steps and decodes only the last `loss_window` proposals, oldest
    /// first, the window clamped to `num_iters`.
    pub fn forward_window(
        &self,
        patches: &Tensor3<S>,
        graph: Arc<AgentGraph<S>>,
        num_iters: usize,
        loss_window: usize,
    ) -> (r: (AdmmState<S>, Vec<Tensor3<S>>))
        requires
            self.runnable(&*graph, patches@, num_iters),
            num_iters > 0,
            loss_window > 0,
        ensures
            r.0@ == self.problem(graph@, patches@).iterate(self.seed(patches@), num_iters as nat),
            r.1@.len() == if loss_window < num_iters {
                loss_window
            } else {
                num_iters
            },
            forall|i: int|
                0 <= i < r.1@.len() ==> (#[trigger] r.1@[i])@ == self.decoder.logits_of(
                    self.problem(graph@, patches@).iterate(
                        self.seed(patches@),
                        (num_iters - r.1@.len() + i + 1) as nat,
                    ).x,
                    patches@,
                ),
    {
        let s = self.setup_admm(patches, &graph, num_iters);
        let (final_state, x_window) = run_admm(
            &s.enc,
            &s.geometry,
            s.x_solver,
            &s.z_params,
            &s.params,
            &s.z_init,
            loss_window,
        );
        let stacked = stack_states(x_window.as_slice());
        let logits = self.decode_x_iterates(&stacked, patches);
        (final_state, logits)
    }

    /// Decodes a stack of proposals through the shared decoder, one slab after the other.
    pub fn decode_x_iterates(&self, xs: &Vec<Tensor3<S>>, patches: &Tensor3<S>) -> (r: Vec<Tensor3<S>>)
        requires
            self.decoder.wf(),
            patches.wf(),
            forall|i: int|
                0 <= i < xs@.len() ==> (#[trigger] xs@[i])@.has_shape(
                    patches@.n,
                    patches@.b,
                    (self.decoder.in_feats() - patches@.d) as nat,
                ),
            patches@.d <= self.decoder.in_feats(),
        ensures
            r@.len() == xs@.len(),
            forall|i: int|
                0 <= i < r@.len() ==> (#[trigger] r@[i])@ == self.decoder.logits_of(xs@[i]@, patches@)
                    && r@[i].wf(),
    {
        let mut out: Vec<Tensor3<S>> = Vec::new();
        for i in 0..xs.len()
            invariant
                self.decoder.wf(),
                patches.wf(),
                forall|i: int|
                    0 <= i < xs@.len() ==> (#[trigger] xs@[i])@.has_shape(
                        patches@.n,
                        patches@.b,
                        (self.decoder.in_feats() - patches@.d) as nat,
                    ),
                patches@.d <= self.decoder.in_feats(),
                out@.len() == i,
                forall|j: int|
                    0 <= j < i ==> (#[trigger] out@[j])@ == self.decoder.logits_of(xs@[j]@, patches@)
                        && out@[j].wf(),
        {
            out.push(self.decoder.forward(&xs[i], patches));
        }
        out
    }
}

/// A forward pass over a window ends as the pass with history does: the same final state, and
/// the logits of the last iterations.
pub proof fn window_is_end_of_history<S: Scalar>(
    model: &SheafAdmmModel<S>,
    graph: GraphModel,
    patches: Arr3<S>,
    k: nat,
    full: MazeForward<S>,
    state: AdmmState<S>,
    window: Seq<Tensor3<S>>,
)
    requires
        full.history.records(model.problem(graph, patches), model.seed(patches), k),
        full.final_state@ == model.problem(graph, patches).iterate(model.seed(patches), k),
        full.logits_per_iter@.len() == k,
        forall|i: int|
            0 <= i < k ==> (#[trigger] full.logits_per_iter@[i])@ == model.decoder.logits_of(
                full.history.x@[i]@,
                patches,
            ),
        state@ == model.problem(graph, patches).iterate(model.seed(patches), k),
        window.len() <= k,
        forall|i: int|
            0 <= i < window.len() ==> (#[trigger] window[i])@ == model.decoder.logits_of(
                model.problem(graph, patches).iterate(
                    model.seed(patches),
                    (k - window.len() + i + 1) as nat,
                ).x,
                patches,
            ),
    ensures
        state@ == full.final_state@,
        forall|i: int|
            0 <= i < window.len() ==> (#[trigger] window[i])@ == full.logits_per_iter@[k - window.len() + i]@,
{
    assert forall|i: int| 0 <= i < window.len() implies (#[trigger] window[i])@ == full.logits_per_iter@[k
        - window.len() + i]@ by {
        let at = k - window.len() + i;
        assert(full.history.records_step(model.problem(graph, patches), model.seed(patches), at));
        assert(full.logits_per_iter@[at]@ == model.decoder.logits_of(full.history.x@[at]@, patches));
    }
}

} // verus!
