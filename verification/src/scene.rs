//! Mazes as a model sees them: agents on a grid, the graph that joins them, their patches.
use crate::config::ExportedConfig;
use crate::graph::{endpoints_below, slots_uv, slots_vu, AgentGraph, GraphModel};
use crate::model::SheafAdmmModel;
use crate::scalar::Scalar;
use crate::tensor::{Arr2, Arr3, Matrix, Tensor3};
use crate::text::text_is;
use crate::views::{
    build_grid_edge_indices, center_count, centers_in, centers_inside, centers_of, grid_agent_centers,
    grid_edges, grid_edges_few, grid_edges_join_centers, patches_of, prepare_maze_patches, span_fits,
};
use crate::weights::{loaded_maze_fits, maze_countable, maze_model_is, Source};
use std::sync::Arc;
use vstd::prelude::*;

verus! {

/// What a batch of mazes is turned into before a model runs on it.
pub ghost struct SceneModel<S> {
    pub centers: Arr2<i64>,
    pub graph: GraphModel,
    pub patches: Arr3<S>,
}

/// Center positions as numbers.
pub open spec fn positions_of<S: Scalar>(centers: Arr2<i64>) -> Arr2<S> {
    Arr2::build(centers.rows, 2, |i: int, k: int| S::spec_from_int(centers.at(i, k) as int))
}

/// The agents, their graph and their patches. Tokens are `[B, H, W]`.
pub open spec fn scene_of<S: Scalar>(config: &ExportedConfig<S>, tokens: Arr3<i64>) -> SceneModel<S> {
    let t = &config.task;
    let centers = centers_of(tokens.b as int, tokens.d as int, t.stride as int, t.patch_size as int);
    let edges = grid_edges(centers, t.stride as int, t.connectivity, centers.rows);
    let positions = positions_of::<S>(centers);
    let nd = config.model.num_directions;
    SceneModel {
        centers,
        graph: GraphModel {
            edges,
            dir_uv: slots_uv(edges, positions, nd),
            dir_vu: slots_vu(edges, positions, nd),
            num_nodes: centers.rows,
        },
        patches: patches_of::<S>(tokens, centers, t.patch_size as int, t.num_classes as int),
    }
}

/// The weights fit the configuration.
pub open spec fn weights_fit<S: Scalar>(model: &SheafAdmmModel<S>) -> bool {
    let m = &model.config.model;
    let t = &model.config.task;
    let c = &model.encoder.config;
    &&& maze_countable(&model.config)
    &&& model.encoder.wf()
    &&& model.decoder.wf()
    &&& c.num_directions == m.num_directions
    &&& c.d_e == m.d_e
    &&& c.d_v == m.d_v
    &&& c.lora_rank == m.lora_rank
    &&& model.rm.r_stack@.len() == m.num_directions
    &&& forall|k: int|
        0 <= k < model.rm.r_stack@.len() ==> (#[trigger] model.rm.r_stack@[k])@.has_shape(
            m.d_e as nat,
            m.d_v as nat,
        )
    &&& model.encoder.in_feats() == t.patch_size * t.patch_size * t.num_classes
    &&& model.decoder.in_feats() == model.encoder.in_feats() + m.d_v
    &&& model.decoder.output_shape == (t.patch_size, t.patch_size, m.num_classes)
}

/// The weights of a loaded model fit its configuration.
pub proof fn loaded_weights_fit<S: Scalar>(model: SheafAdmmModel<S>, config: ExportedConfig<S>, source: Source)
    requires
        maze_countable(&config),
        maze_model_is(model, config, source),
    ensures
        weights_fit(&model),
{
    loaded_maze_fits(model, config, source);
}

/// The configuration names modes in which a model can run on a grid.
pub open spec fn config_runs<S: Scalar>(config: &ExportedConfig<S>) -> bool {
    let m = &config.model;
    &&& m.rm_mode@ == "context"@ || m.rm_mode@ == "fixed"@
    &&& m.z_mode@ == "prox"@ || m.z_mode@ == "project"@
    &&& m.x_solver@ == "diagonal_prox"@
    &&& m.gamma.spec_same(m.gamma)
    &&& config.task.stride > 0
    &&& config.task.connectivity == 4 || config.task.connectivity == 8
}

/// Tests whether the configuration names modes in which a model can run on a grid.
pub fn modes_run<S: Scalar>(config: &ExportedConfig<S>) -> (r: bool)
    ensures
        r == config_runs(config),
{
    let m = &config.model;
    let t = &config.task;
    let maps = text_is(&m.rm_mode, "context") || text_is(&m.rm_mode, "fixed");
    let consensus = text_is(&m.z_mode, "prox") || text_is(&m.z_mode, "project");
    let grid = t.stride > 0 && (t.connectivity == 4 || t.connectivity == 8);
    maps && consensus && text_is(&m.x_solver, "diagonal_prox") && m.gamma.same(m.gamma) && grid
}

/// How many edges join the agents on a grid of this size.
pub open spec fn edge_total<S>(config: &ExportedConfig<S>, h: int, w: int) -> nat {
    let t = &config.task;
    let centers = centers_of(h, w, t.stride as int, t.patch_size as int);
    grid_edges(centers, t.stride as int, t.connectivity, centers.rows).len()
}

/// A grid of this size can be counted: agents and endpoints of edges in 32 bits, cells,
/// residuals and positions in machine numbers.
pub open spec fn grid_fits<S>(config: &ExportedConfig<S>, h: int, w: int) -> bool {
    let t = &config.task;
    &&& h * w <= usize::MAX
    &&& centers_of(h, w, t.stride as int, t.patch_size as int).rows < u32::MAX
    &&& 2 * edge_total(config, h, w) <= u32::MAX
    &&& 2 * edge_total(config, h, w) * config.model.d_e <= usize::MAX
    &&& span_fits(h, t.patch_size as int)
    &&& span_fits(w, t.patch_size as int)
    &&& t.num_classes <= i64::MAX
    &&& t.stride + h <= i64::MAX
    &&& t.stride + w <= i64::MAX
}

/// Tests whether a grid of this size can be counted.
pub fn grid_countable<S: Scalar>(config: &ExportedConfig<S>, h: usize, w: usize) -> (r: bool)
    requires
        config_runs(config),
    ensures
        r == grid_fits(config, h as int, w as int),
{
    let t = &config.task;
    let d_e = config.model.d_e;
    let bound = i64::MAX as u64;
    let spans = h <= usize::MAX - t.patch_size && w <= usize::MAX - t.patch_size && (h + t.patch_size) as u64
        <= bound && (w + t.patch_size) as u64 <= bound;
    if !spans || t.num_classes as u64 > bound || t.stride as u64 > bound - h as u64 || t.stride as u64 > bound
        - w as u64 {
        return false;
    }
    if h.checked_mul(w).is_none() {
        return false;
    }
    let ghost centers = centers_of(h as int, w as int, t.stride as int, t.patch_size as int);
    proof {
        centers_inside(h as int, w as int, t.stride as int, t.patch_size as int);
        grid_edges_few(centers, t.stride as int, t.connectivity, centers.rows);
    }
    let n = center_count((h, w), t.stride, t.patch_size);
    if n as u64 >= u32::MAX as u64 {
        return false;
    }
    let most = 8 * n as u64;
    if most <= u32::MAX as u64 && (most as usize).checked_mul(d_e).is_some() {
        proof {
            let e = edge_total(config, h as int, w as int) as int;
            assert(2 * e * d_e <= most * d_e) by (nonlinear_arith)
                requires
                    0 <= 2 * e <= most,
                    0 <= d_e,
            ;
        }
        return true;
    }
    // Close to the limit the edges themselves are counted.
    let list = grid_agent_centers((h, w), t.stride, t.patch_size);
    proof {
        assert forall|i: int| 0 <= i < list@.rows implies 0 <= #[trigger] list@.at(i, 0) <= i64::MAX - t.stride
            && 0 <= list@.at(i, 1) <= i64::MAX - t.stride by {}
    }
    let edges = build_grid_edge_indices(&list, t.stride, t.connectivity);
    let e = edges.len();
    assert(e == edge_total(config, h as int, w as int));
    if e as u64 > (u32::MAX / 2) as u64 {
        return false;
    }
    (2 * e).checked_mul(d_e).is_some()
}

/// A batch of mazes, ready for a model.
pub struct Scene<S> {
    /// `[N, 2]`, y before x.
    pub centers: Matrix<i64>,
    pub graph: Arc<AgentGraph<S>>,
    /// `[N, B, ps * ps * C]`.
    pub patches: Tensor3<S>,
}

impl<S: Scalar> View for Scene<S> {
    type V = SceneModel<S>;

    open spec fn view(&self) -> SceneModel<S> {
        SceneModel { centers: self.centers@, graph: self.graph@, patches: self.patches@ }
    }
}

impl<S: Scalar> Scene<S> {
    /// The parts belong together, and lie in an image of this size.
    pub open spec fn wf(&self, h: int, w: int) -> bool {
        let n = self.centers@.rows;
        &&& centers_in(self.centers@, h, w)
        &&& self.graph.wf()
        &&& self.graph.num_nodes == n
        &&& self.patches.wf()
        &&& self.patches@.n == n
        &&& n <= h * w
        &&& endpoints_below(self.graph.edges@, n)
    }
}

/// Turns center positions into numbers.
pub fn make_positions<S: Scalar>(centers: &Matrix<i64>) -> (r: Matrix<S>)
    requires
        centers.wf(),
        centers@.cols == 2,
    ensures
        r.wf(),
        r@ == positions_of::<S>(centers@),
{
    Matrix::from_shape_fn(
        centers.nrows(),
        2,
        |i: usize, k: usize| -> (v: S)
            requires
                centers.wf(),
                centers@.cols == 2,
                i < centers@.rows,
                k < 2,
            ensures
                v == S::spec_from_int(centers@.at(i as int, k as int) as int)
            { S::from_int(centers.get(i, k)) },
    )
}

/// Places the agents on a batch of mazes, joins them, and cuts their patches.
pub fn prepare_scene<S: Scalar>(config: &ExportedConfig<S>, tokens: &Tensor3<i64>) -> (r: Scene<S>)
    requires
        tokens.wf(),
        config_runs(config),
        maze_countable(config),
        grid_fits(config, tokens@.b as int, tokens@.d as int),
    ensures
        r.wf(tokens@.b as int, tokens@.d as int),
        r@ == scene_of(config, tokens@),
        r.graph.dir_uv@.len() == r.graph.edges@.len(),
        forall|e: int|
            0 <= e < r.graph.edges@.len() ==> (#[trigger] r.graph.dir_uv@[e]) < config.model.num_directions,
        forall|e: int|
            0 <= e < r.graph.edges@.len() ==> (#[trigger] r.graph.dir_vu@[e]) < config.model.num_directions,
{
    let t = &config.task;
    let (_b, h, w) = tokens.dim();
    let centers = grid_agent_centers((h, w), t.stride, t.patch_size);
    proof {
        centers_inside(h as int, w as int, t.stride as int, t.patch_size as int);
        assert forall|i: int| 0 <= i < centers@.rows implies 0 <= #[trigger] centers@.at(i, 0) <= i64::MAX
            - t.stride && 0 <= centers@.at(i, 1) <= i64::MAX - t.stride by {}
    }
    let edges = build_grid_edge_indices(&centers, t.stride, t.connectivity);
    proof {
        grid_edges_join_centers(edges@, centers@, t.stride as int, t.connectivity);
    }
    let positions = make_positions::<S>(&centers);
    let graph = Arc::new(AgentGraph::new_grid(edges, positions, config.model.num_directions));
    let patches: Tensor3<S> = prepare_maze_patches(tokens, &centers, t.patch_size, t.num_classes);
    let scene = Scene { centers, graph, patches };
    assert(scene@.graph =~= scene_of(config, tokens@).graph);
    scene
}

/// A model whose weights fit its configuration can run on a prepared scene.
pub proof fn scene_is_runnable<S: Scalar>(model: &SheafAdmmModel<S>, scene: Scene<S>, tokens: Arr3<i64>, k: usize)
    requires
        weights_fit(model),
        config_runs(&model.config),
        grid_fits(&model.config, tokens.b as int, tokens.d as int),
        scene.wf(tokens.b as int, tokens.d as int),
        scene@ == scene_of(&model.config, tokens),
        scene.graph.dir_uv@.len() == scene.graph.edges@.len(),
        forall|e: int|
            0 <= e < scene.graph.edges@.len() ==> (#[trigger] scene.graph.dir_uv@[e])
                < model.config.model.num_directions,
        forall|e: int|
            0 <= e < scene.graph.edges@.len() ==> (#[trigger] scene.graph.dir_vu@[e])
                < model.config.model.num_directions,
    ensures
        model.runnable(&*scene.graph, scene.patches@, k),
        2 * scene.graph.edges@.len() * model.config.model.d_e <= usize::MAX,
        2 * scene.graph.edges@.len() <= u32::MAX,
{
    let e = scene.graph.edges@.len();
    let d = model.config.model.d_e as int;
    assert(scene@.graph.edges.len() == e);
    assert(e * d <= usize::MAX) by (nonlinear_arith)
        requires
            0 <= e,
            0 <= d,
            2 * e * d <= usize::MAX,
    ;
}

} // verus!
