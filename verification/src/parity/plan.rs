//! Which arrays of a run are compared, in which order and how closely.
use super::checks::{numbers_in, Archive, CheckModel, WantedModel};
use super::gather::{cube_of, gathered};
use crate::admm::{distances, weighted_distances};
use crate::config::ExportedConfig;
use crate::encoder::slot_grid;
use crate::geometry::consistency_of;
use crate::model::SheafAdmmModel;
use crate::npz::Npz;
use crate::plain::{
    chained, flat2, flat3, flat_grid, flat_list3, flat_maps, flat_slots, plain_line_of, PlainModel,
};
use crate::readout::classes_of;
use crate::report::iter_tol_of;
use crate::scalar::Scalar;
use crate::scene::{positions_of, scene_of, SceneModel};
use crate::solvers::ObjectiveModel;
use crate::tensor::{Arr2, Arr3};
use crate::text::numeral;
use crate::views::reassembled;
use vstd::prelude::*;
use vstd::string::*;

verus! {

/// Numbers against the recorded array of the same name.
pub open spec fn numbers_check<S: Scalar>(name: Seq<char>, got: PlainModel<S>, archive: Archive, tol: S) -> CheckModel<
    S,
> {
    CheckModel::Numbers { name, got, want: WantedModel::Stored { archive, name }, tol }
}

/// Integers against the recorded array of the same name.
pub open spec fn integers_check<S: Scalar>(name: Seq<char>, got: PlainModel<i64>, archive: Archive) -> CheckModel<S> {
    CheckModel::Integers { name, got, archive, stored: name }
}

/// The label of an array at an iteration.
pub open spec fn step_label(name: Seq<char>, k: nat) -> Seq<char> {
    name + "[k="@ + numeral(k) + "]"@
}

/// Numbers of one iteration against their slab of a recorded array.
pub open spec fn slab_check<S: Scalar>(
    label: Seq<char>,
    stored: Seq<char>,
    k: nat,
    got: PlainModel<S>,
    tol: S,
) -> CheckModel<S> {
    CheckModel::Numbers { name: step_label(label, k), got, want: WantedModel::Slab { name: stored, index: k }, tol }
}

/// Numbers that only pass from one place to another are compared exactly.
pub open spec fn exactly<S: Scalar>() -> S {
    S::spec_zero()
}

/// The tolerance of what the encoder computes.
pub open spec fn encoder_tolerance<S: Scalar>() -> S {
    S::spec_decimal(1, -5)
}

pub open spec fn plain2<T>(a: Arr2<T>) -> PlainModel<T> {
    PlainModel { shape: seq![a.rows as usize, a.cols as usize], data: flat2(a) }
}

pub open spec fn plain3<T>(a: Arr3<T>) -> PlainModel<T> {
    PlainModel { shape: seq![a.n as usize, a.b as usize, a.d as usize], data: flat3(a) }
}

/// Patches or logits of agents as an array of rank 5.
pub open spec fn plain5<T>(a: Arr3<T>, patch_size: usize, classes: usize) -> PlainModel<T> {
    PlainModel { shape: seq![a.n as usize, a.b as usize, patch_size, patch_size, classes], data: flat3(a) }
}

/// Edges as an array of rank 2.
pub open spec fn plain_edges(edges: Seq<(int, int)>) -> PlainModel<i64> {
    PlainModel {
        shape: seq![edges.len() as usize, 2],
        data: chained(Seq::new(edges.len(), |e: int| seq![edges[e].0 as i64, edges[e].1 as i64]), edges.len()),
    }
}

/// Slots as an array of rank 1.
pub open spec fn plain_dirs(dirs: Seq<u8>) -> PlainModel<i64> {
    PlainModel { shape: seq![dirs.len() as usize], data: dirs.map_values(|d: u8| d as i64) }
}

/// Agents, edges, positions, patches and slot tables.
pub open spec fn scene_checks<S: Scalar>(config: &ExportedConfig<S>, scene: SceneModel<S>) -> Seq<CheckModel<S>> {
    seq![
        integers_check("centers"@, plain2(scene.centers), Archive::Batch),
        integers_check("edges"@, plain_edges(scene.graph.edges), Archive::Batch),
        numbers_check("node_positions"@, plain2(positions_of::<S>(scene.centers)), Archive::Batch, exactly()),
        numbers_check(
            "patches"@,
            plain5(scene.patches, config.task.patch_size, config.task.num_classes),
            Archive::Batch,
            exactly(),
        ),
        integers_check("dir_uv"@, plain_dirs(scene.graph.dir_uv), Archive::Batch),
        integers_check("dir_vu"@, plain_dirs(scene.graph.dir_vu), Archive::Batch),
    ]
}

/// The local objective that the encoder sets.
pub open spec fn objective_checks<S: Scalar>(objective: ObjectiveModel<S>) -> Seq<CheckModel<S>> {
    match objective {
        ObjectiveModel::L1Box { q_diag, q, l1, upper } => seq![
            numbers_check("enc_q_diag"@, plain3(q_diag), Archive::Trace, encoder_tolerance()),
            numbers_check("enc_q"@, plain3(q), Archive::Trace, encoder_tolerance()),
            numbers_check("enc_l1_weight"@, plain3(l1), Archive::Trace, encoder_tolerance()),
            numbers_check("enc_upper"@, plain3(upper), Archive::Trace, encoder_tolerance()),
        ],
        _ => Seq::empty(),
    }
}

/// Flat factor rows as an array of rank 5: agents, batch elements, slots, rows, rank.
pub open spec fn plain_factors<S: Scalar>(rows: Arr3<S>, slots: usize, height: usize, rank: usize) -> PlainModel<S> {
    PlainModel {
        shape: seq![rows.n as usize, rows.b as usize, slots, height, rank],
        data: flat_slots(
            Seq::new(slots as nat, |k: int| slot_grid(rows, k, height as nat, rank as nat)),
            rows.n,
            rows.b,
        ),
    }
}

/// Low-rank factors and base maps.
pub open spec fn map_checks<S: Scalar>(model: &SheafAdmmModel<S>, scene: SceneModel<S>) -> Seq<CheckModel<S>> {
    let c = &model.encoder.config;
    let base = model.base_model(scene.graph);
    seq![
        numbers_check(
            "lora_A"@,
            plain_factors(model.encoder.a_rows(scene.patches), c.num_directions, c.d_e, c.lora_rank),
            Archive::Trace,
            encoder_tolerance(),
        ),
        numbers_check(
            "lora_B"@,
            plain_factors(model.encoder.b_rows(scene.patches), c.num_directions, c.d_v, c.lora_rank),
            Archive::Trace,
            encoder_tolerance(),
        ),
        numbers_check(
            "base_restriction_maps"@,
            PlainModel {
                shape: seq![scene.graph.edges.len() as usize, 2, c.d_e, c.d_v],
                data: flat_maps(base.at_u, base.at_v),
            },
            Archive::Trace,
            exactly(),
        ),
    ]
}

/// The factors of one end of each edge, cut from recorded per-agent factors by the geometry.
pub open spec fn edge_factors<S: Scalar>(
    rows: Arr3<S>,
    ends: Seq<int>,
    dirs: Seq<u8>,
    height: usize,
    rank: usize,
) -> PlainModel<S> {
    PlainModel {
        shape: seq![ends.len() as usize, rows.b as usize, height, rank],
        data: flat_grid(
            crate::geometry::grid_build(
                ends.len(),
                rows.b,
                |e: int, j: int| slot_grid(rows, dirs[e] as int, height as nat, rank as nat)[ends[e]][j],
            ),
        ),
    }
}

/// The factors of one end of each edge, taken from the recorded array by its layout.
pub open spec fn edge_blocks_of<S: Scalar>(
    data: Seq<S>,
    ends: Seq<int>,
    dirs: Seq<u8>,
    b: nat,
    slots: usize,
    height: usize,
    rank: usize,
) -> PlainModel<S> {
    PlainModel {
        shape: seq![ends.len() as usize, b as usize, height, rank],
        data: gathered(data, ends, dirs, b, slots as int, height * rank),
    }
}

pub open spec fn gather_check<S: Scalar>(
    name: Seq<char>,
    data: Seq<S>,
    ends: Seq<int>,
    dirs: Seq<u8>,
    n: nat,
    b: nat,
    slots: usize,
    height: usize,
    rank: usize,
) -> CheckModel<S> {
    CheckModel::Numbers {
        name,
        got: edge_factors(cube_of(data, n, b, (slots * (height * rank)) as nat), ends, dirs, height, rank),
        want: WantedModel::Given { array: edge_blocks_of(data, ends, dirs, b, slots, height, rank) },
        tol: exactly(),
    }
}

/// The endpoints of edges on one side.
pub open spec fn ends_u(edges: Seq<(int, int)>) -> Seq<int> {
    edges.map_values(|p: (int, int)| p.0)
}

pub open spec fn ends_v(edges: Seq<(int, int)>) -> Seq<int> {
    edges.map_values(|p: (int, int)| p.1)
}

/// Arrays of the trace that are read together before any of them is compared: the first that
/// cannot be had ends the comparison.
pub open spec fn awaited<S: Scalar>(trace: &Npz, names: Seq<Seq<char>>) -> Seq<CheckModel<S>>
    decreases names.len(),
{
    if names.len() == 0 {
        Seq::empty()
    } else if numbers_in::<S>(trace, names[0]) is Err {
        seq![CheckModel::Unfit { stored: names[0] }]
    } else {
        awaited(trace, names.skip(1))
    }
}

/// The recorded factors.
pub open spec fn factor_names() -> Seq<Seq<char>> {
    seq!["lora_A"@, "lora_B"@]
}

/// The recorded iterations, but for the proposals.
pub open spec fn step_names() -> Seq<Seq<char>> {
    seq!["z"@, "y"@, "primal_res"@, "dual_res"@, "consistency"@, "logits_per_iter"@]
}

/// The edge factors of recorded per-agent factors; those of another shape end the comparison.
pub open spec fn gather_checks<S: Scalar>(model: &SheafAdmmModel<S>, scene: SceneModel<S>, trace: &Npz) -> Seq<
    CheckModel<S>,
> {
    let c = &model.encoder.config;
    let (slots, d_e, d_v, rank) = (c.num_directions, c.d_e, c.d_v, c.lora_rank);
    let (n, b) = (scene.patches.n, scene.patches.b);
    let g = scene.graph;
    let (u, v) = (ends_u(g.edges), ends_v(g.edges));
    match (numbers_in::<S>(trace, "lora_A"@), numbers_in::<S>(trace, "lora_B"@)) {
        (Ok(a), Ok(f)) => if a.shape != seq![n as usize, b as usize, slots, d_e, rank] {
            seq![CheckModel::Unfit { stored: "lora_A"@ }]
        } else if f.shape != seq![n as usize, b as usize, slots, d_v, rank] {
            seq![CheckModel::Unfit { stored: "lora_B"@ }]
        } else {
            seq![
                gather_check("lora_A_u_edge"@, a.data, u, g.dir_uv, n, b, slots, d_e, rank),
                gather_check("lora_A_v_edge"@, a.data, v, g.dir_vu, n, b, slots, d_e, rank),
                gather_check("lora_B_u_edge"@, f.data, u, g.dir_uv, n, b, slots, d_v, rank),
                gather_check("lora_B_v_edge"@, f.data, v, g.dir_vu, n, b, slots, d_v, rank),
            ]
        },
        _ => Seq::empty(),
    }
}

/// The states, measures and logits after iteration `k`, the tolerance widening with `k`.
pub open spec fn step_checks<S: Scalar>(model: &SheafAdmmModel<S>, scene: SceneModel<S>, k: nat, total: nat) -> Seq<
    CheckModel<S>,
> {
    let problem = model.problem(scene.graph, scene.patches);
    let seed = model.seed(scene.patches);
    let before = problem.iterate(seed, k);
    let after = problem.iterate(seed, k + 1);
    let tol = iter_tol_of::<S>(k, total);
    let consistency = consistency_of(problem.ops.residuals_of(after.z));
    seq![
        slab_check("x"@, "x"@, k, plain3(after.x), tol),
        slab_check("z"@, "z"@, k, plain3(after.z), tol),
        slab_check("y"@, "y"@, k, plain3(after.y), tol),
        slab_check("primal_res"@, "primal_res"@, k, plain2(distances(problem.relaxed(before), after.z)), tol),
        slab_check(
            "dual_res"@,
            "dual_res"@,
            k,
            plain2(weighted_distances(problem.rho, after.z, before.z)),
            tol,
        ),
        slab_check(
            "consistency"@,
            "consistency"@,
            k,
            PlainModel { shape: seq![consistency.len() as usize], data: consistency },
            tol,
        ),
        slab_check(
            "logits"@,
            "logits_per_iter"@,
            k,
            plain5(
                model.decoder.logits_of(after.x, scene.patches),
                model.config.task.patch_size,
                model.config.model.num_classes,
            ),
            tol,
        ),
    ]
}

/// The global logits of every maze.
pub open spec fn all_reassembled<S: Scalar>(
    model: &SheafAdmmModel<S>,
    scene: SceneModel<S>,
    logits: Arr3<S>,
    b: nat,
    h: nat,
    w: nat,
) -> Seq<Arr3<S>> {
    Seq::new(
        b,
        |i: int|
            reassembled(
                logits,
                scene.centers,
                model.config.task.patch_size as int,
                model.config.model.num_classes as nat,
                i,
                h,
                w,
            ),
    )
}

/// The final logits, per agent and put together, and the classes read off them.
pub open spec fn final_checks<S: Scalar>(
    model: &SheafAdmmModel<S>,
    scene: SceneModel<S>,
    tokens: Arr3<i64>,
    total: nat,
) -> Seq<CheckModel<S>> {
    let t = &model.config.task;
    let m = &model.config.model;
    let problem = model.problem(scene.graph, scene.patches);
    let x = problem.iterate(model.seed(scene.patches), total).x;
    let logits = model.decoder.logits_of(x, scene.patches);
    let grids = all_reassembled(model, scene, logits, tokens.n, tokens.b, tokens.d);
    let classes = grids.map_values(|g: Arr3<S>| classes_of(g, t.num_classes as nat));
    let tol = iter_tol_of::<S>((total - 1) as nat, total);
    seq![
        numbers_check("logits_final"@, plain5(logits, t.patch_size, m.num_classes), Archive::Trace, tol),
        numbers_check(
            "reassembled_final"@,
            PlainModel {
                shape: seq![tokens.n as usize, tokens.b as usize, tokens.d as usize, m.num_classes],
                data: flat_list3(grids),
            },
            Archive::Trace,
            tol,
        ),
        integers_check(
            "pred_grid"@,
            plain_line_of(classes, tokens.b as usize, tokens.d as usize),
            Archive::Trace,
        ),
    ]
}

/// The seed of the run and the encoder's other heads.
pub open spec fn encoder_checks<S: Scalar>(model: &SheafAdmmModel<S>, scene: SceneModel<S>) -> Seq<CheckModel<S>> {
    seq![numbers_check("enc_h"@, plain3(model.encoder.h_of(scene.patches)), Archive::Trace, encoder_tolerance())]
        + objective_checks(model.encoder.objective_of(scene.patches))
}

/// All comparisons of a run of `total` iterations on these mazes, in the order of computation.
pub open spec fn plan_of<S: Scalar>(model: &SheafAdmmModel<S>, tokens: Arr3<i64>, total: nat, trace: &Npz) -> Seq<
    CheckModel<S>,
> {
    let scene = scene_of(&model.config, tokens);
    scene_checks(&model.config, scene) + encoder_checks(model, scene) + awaited(trace, factor_names())
        + map_checks(model, scene) + gather_checks(model, scene, trace) + seq![
        CheckModel::Pattern { name: "rho"@, got: model.rho.spec_to_bits(), stored: "rho"@ },
    ] + awaited(trace, step_names()) + chained(Seq::new(total, |k: int| step_checks(model, scene, k as nat, total)), total) + final_checks(
        model,
        scene,
        tokens,
        total,
    )
}

} // verus!
