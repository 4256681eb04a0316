//! Planning the comparisons of a run, and making them.
use super::checks::{
    error_says, fetch_numbers, integers_in, replay, replayed, Archive, Check, CheckModel,
    Comparison, Lack, Wanted,
};
use super::gather::{cube_of, gather_blocks, unflatten};
use super::plan::{
    all_reassembled, awaited, edge_factors, encoder_checks, ends_u, ends_v, factor_names, final_checks, gather_check,
    gather_checks, integers_check, map_checks, numbers_check, objective_checks, plain_dirs,
    plain_edges, plan_of, scene_checks, slab_check, step_checks, step_names,
};
use crate::config::ExportedConfig;
use crate::encoder::{slot_grid, split_slots};
use crate::geometry::{grid_build, FactorGrid, LoraGeometry, SheafGeometry};
use crate::graph::{pairs_of, AgentGraph};
use crate::model::{MazeForward, SheafAdmmModel};
use crate::npz::{Npz, NpzError};
use crate::plain::{
    chained, counts_by_rank, plain_cube, plain_grid, plain_line, plain_list, plain_list3, plain_maps,
    plain_matrix, plain_slots, plain_tensor, same_shape, Plain, PlainModel,
};
use crate::readout::{argmax_grid, classes_of};
use crate::report::{iter_tol, Report};
use crate::restriction_maps::build_directional_restriction_maps;
use crate::scalar::Scalar;
use crate::scene::{
    config_runs, grid_countable, grid_fits, make_positions, prepare_scene, scene_is_runnable,
    weights_fit, Scene,
};
use crate::solvers::{EncoderOutput, Objective};
use crate::tensor::{Arr3, Matrix, Tensor3};
use crate::text::{decimal_text, joined};
use crate::views::reassemble_logits;
use vstd::prelude::*;
use vstd::string::*;

verus! {

/// The comparisons are the planned ones, and can be made.
pub open spec fn planned<S: Scalar>(checks: Seq<Check<S>>, plan: Seq<CheckModel<S>>) -> bool {
    &&& checks.map_values(|c: Check<S>| c@) == plan
    &&& forall|i: int| 0 <= i < checks.len() ==> (#[trigger] checks[i])@.wf()
}

/// Puts planned comparisons behind others.
fn follow<S: Scalar>(
    checks: &mut Vec<Check<S>>,
    more: Vec<Check<S>>,
    Ghost(a): Ghost<Seq<CheckModel<S>>>,
    Ghost(b): Ghost<Seq<CheckModel<S>>>,
)
    requires
        planned(old(checks)@, a),
        planned(more@, b),
    ensures
        planned(final(checks)@, a + b),
{
    let ghost before = checks@;
    let ghost added = more@;
    let mut more = more;
    checks.append(&mut more);
    proof {
        assert(checks@.map_values(|c: Check<S>| c@) =~= a + b);
        assert forall|i: int| 0 <= i < checks@.len() implies (#[trigger] checks@[i])@.wf() by {
            if i < before.len() {
                assert(checks@[i] == before[i]);
            } else {
                assert(checks@[i] == added[i - before.len()]);
            }
        }
    }
}

fn stored_numbers<S: Scalar>(name: &str, got: Plain<S>, archive: Archive, tol: S) -> (r: Check<S>)
    requires
        got@.wf(),
    ensures
        r@ == numbers_check(name@, got@, archive, tol),
        r@.wf(),
{
    Check::Numbers { name: name.to_owned(), got, want: Wanted::Stored { archive, name: name.to_owned() }, tol }
}

fn stored_integers<S: Scalar>(name: &str, got: Plain<i64>, archive: Archive) -> (r: Check<S>)
    requires
        got@.wf(),
    ensures
        r@ == integers_check::<S>(name@, got@, archive),
        r@.wf(),
{
    Check::Integers { name: name.to_owned(), got, archive, stored: name.to_owned() }
}

fn stored_slab<S: Scalar>(label: &str, stored: &str, k: usize, got: Plain<S>, tol: S) -> (r: Check<S>)
    requires
        got@.wf(),
    ensures
        r@ == slab_check(label@, stored@, k as nat, got@, tol),
        r@.wf(),
{
    let mut name = joined(label, "[k=");
    name.append(decimal_text(k).as_str());
    name.append("]");
    Check::Numbers { name, got, want: Wanted::Slab { name: stored.to_owned(), index: k }, tol }
}

/// Edges as an array of rank 2.
fn edge_array(edges: &Vec<[u32; 2]>) -> (r: Plain<i64>)
    ensures
        r@ == plain_edges(pairs_of(edges@)),
        r@.wf(),
{
    let ghost pairs = pairs_of(edges@);
    let ghost parts = Seq::new(pairs.len(), |e: int| seq![pairs[e].0 as i64, pairs[e].1 as i64]);
    let mut data: Vec<i64> = Vec::new();
    assert(data@ =~= chained(parts, 0));
    for e in 0..edges.len()
        invariant
            pairs == pairs_of(edges@),
            parts == Seq::new(pairs.len(), |e: int| seq![pairs[e].0 as i64, pairs[e].1 as i64]),
            data@ == chained(parts, e as nat),
    {
        assert(pairs[e as int] == (edges@[e as int]@[0] as int, edges@[e as int]@[1] as int));
        data.push(edges[e][0] as i64);
        data.push(edges[e][1] as i64);
        assert(data@ =~= chained(parts, (e + 1) as nat));
    }
    let shape = vec![edges.len(), 2];
    proof {
        counts_by_rank(shape@);
        crate::plain::chained_length(parts, parts.len(), 2);
        assert(shape@ =~= seq![pairs.len() as usize, 2]);
    }
    Plain { shape, data }
}

/// Slots as an array of rank 1.
fn dir_array(dirs: &Vec<u8>) -> (r: Plain<i64>)
    ensures
        r@ == plain_dirs(dirs@),
        r@.wf(),
{
    let mut data: Vec<i64> = Vec::new();
    for e in 0..dirs.len()
        invariant
            data@.len() == e,
            forall|i: int| 0 <= i < e ==> #[trigger] data@[i] == dirs@[i] as i64,
    {
        data.push(dirs[e] as i64);
    }
    assert(data@ =~= dirs@.map_values(|d: u8| d as i64));
    let r = plain_list(data.as_slice());
    r
}

/// Patches or logits of agents as an array of rank 5.
fn agent_array<S: Scalar>(a: &Tensor3<S>, patch_size: usize, classes: usize) -> (r: Plain<S>)
    requires
        a.wf(),
        a@.d == patch_size * patch_size * classes,
    ensures
        r@ == super::plan::plain5(a@, patch_size, classes),
        r@.wf(),
{
    let (n, b, d) = a.dim();
    let shape = vec![n, b, patch_size, patch_size, classes];
    proof {
        counts_by_rank(shape@);
        let (p, c) = (patch_size as int, classes as int);
        assert(n * b * p * p * c == n * (b * (p * p * c))) by (nonlinear_arith);
        assert(shape@ =~= seq![n, b, patch_size, patch_size, classes]);
    }
    plain_tensor(a, shape)
}

/// Plans the comparison of agents, graph and patches.
fn plan_scene<S: Scalar>(
    config: &ExportedConfig<S>,
    scene: &Scene<S>,
    Ghost(h): Ghost<int>,
    Ghost(w): Ghost<int>,
) -> (r: Vec<Check<S>>)
    requires
        scene.wf(h, w),
        scene.patches@.d == config.task.patch_size * config.task.patch_size * config.task.num_classes,
    ensures
        planned(r@, scene_checks(config, scene@)),
{
    let t = &config.task;
    let positions: Matrix<S> = make_positions(&scene.centers);
    let checks = vec![
        stored_integers("centers", plain_matrix(&scene.centers), Archive::Batch),
        stored_integers("edges", edge_array(&scene.graph.edges), Archive::Batch),
        stored_numbers("node_positions", plain_matrix(&positions), Archive::Batch, S::zero()),
        stored_numbers(
            "patches",
            agent_array(&scene.patches, t.patch_size, t.num_classes),
            Archive::Batch,
            S::zero(),
        ),
        stored_integers("dir_uv", dir_array(&scene.graph.dir_uv), Archive::Batch),
        stored_integers("dir_vu", dir_array(&scene.graph.dir_vu), Archive::Batch),
    ];
    assert(checks@.map_values(|c: Check<S>| c@) =~= scene_checks(config, scene@));
    checks
}

/// Plans the comparison of the encoder's heads.
fn plan_encoder<S: Scalar>(model: &SheafAdmmModel<S>, enc: &EncoderOutput<S>, scene: &Scene<S>) -> (r: Vec<Check<S>>)
    requires
        enc.h@ == model.encoder.h_of(scene.patches@),
        enc.h.wf(),
        enc.objective@ == model.encoder.objective_of(scene.patches@),
        enc.objective@.diagonal_fits(
            scene.patches@.n,
            scene.patches@.b,
            model.encoder.config.d_v as nat,
        ),
    ensures
        planned(r@, encoder_checks(model, scene@)),
{
    let tol = S::decimal(1, -5);
    let mut checks = vec![stored_numbers("enc_h", plain_cube(&enc.h), Archive::Trace, tol)];
    let heads = match &enc.objective {
        Objective::L1Box { q_diag, q, l1, upper } => {
            let heads = vec![
                stored_numbers("enc_q_diag", plain_cube(q_diag), Archive::Trace, tol),
                stored_numbers("enc_q", plain_cube(q), Archive::Trace, tol),
                stored_numbers("enc_l1_weight", plain_cube(l1), Archive::Trace, tol),
                stored_numbers("enc_upper", plain_cube(upper), Archive::Trace, tol),
            ];
            assert(heads@.map_values(|c: Check<S>| c@) =~= objective_checks(enc.objective@));
            heads
        },
        _ => Vec::new(),
    };
    let ghost first = seq![
        numbers_check(
            "enc_h"@,
            super::plan::plain3(model.encoder.h_of(scene@.patches)),
            Archive::Trace,
            super::plan::encoder_tolerance(),
        ),
    ];
    assert(checks@.map_values(|c: Check<S>| c@) =~= first);
    follow(&mut checks, heads, Ghost(first), Ghost(objective_checks(enc.objective@)));
    checks
}

/// Plans the end of a comparison at the first array that cannot be had.
fn plan_awaited<S: Scalar>(trace: &Npz, names: Vec<&str>) -> (r: Vec<Check<S>>)
    requires
        trace.wf(),
    ensures
        planned(r@, awaited::<S>(trace, names@.map_values(|n: &str| n@))),
{
    let ghost all = names@.map_values(|n: &str| n@);
    let mut checks: Vec<Check<S>> = Vec::new();
    assert(all.skip(0) =~= all);
    for i in 0..names.len()
        invariant
            trace.wf(),
            all == names@.map_values(|n: &str| n@),
            checks@.len() == 0,
            awaited::<S>(trace, all.skip(i as int)) == awaited::<S>(trace, all),
    {
        assert(all.skip(i as int)[0] == names@[i as int]@);
        assert(all.skip(i as int).skip(1) =~= all.skip(i + 1));
        match trace.f32_bits(names[i]) {
            Ok(_) => {},
            Err(_) => {
                checks.push(Check::Unfit { stored: names[i].to_owned() });
                assert(checks@.map_values(|c: Check<S>| c@) =~= awaited::<S>(trace, all));
                return checks;
            },
        }
    }
    assert(checks@.map_values(|c: Check<S>| c@) =~= awaited::<S>(trace, all));
    checks
}

/// Plans the comparison of low-rank factors and base maps.
fn plan_maps<S: Scalar>(model: &SheafAdmmModel<S>, enc: &EncoderOutput<S>, scene: &Scene<S>) -> (r: Vec<Check<S>>)
    requires
        model.runnable(&*scene.graph, scene.patches@, 0),
        enc.lora matches Some(lora) && model.encoder.factors_match(scene.patches@, lora),
    ensures
        planned(r@, map_checks(model, scene@)),
{
    let c = &model.encoder.config;
    let tol = S::decimal(1, -5);
    let (n, b, _d) = scene.patches.dim();
    let base = build_directional_restriction_maps(&model.rm.r_stack, &scene.graph, c.d_e, c.d_v);
    assert(base.at_u() =~= model.base_model(scene@.graph).at_u);
    assert(base.at_v() =~= model.base_model(scene@.graph).at_v);
    let mut checks: Vec<Check<S>> = Vec::new();
    match &enc.lora {
        Some(lora) => {
            proof {
                let a_rows = model.encoder.a_rows(scene@.patches);
                let b_rows = model.encoder.b_rows(scene@.patches);
                let (slots, d_e, d_v, rank) = (
                    c.num_directions as nat,
                    c.d_e as nat,
                    c.d_v as nat,
                    c.lora_rank as nat,
                );
                assert(lora.a@.map_values(|g: FactorGrid<S>| g@) =~= Seq::new(
                    slots,
                    |k: int| slot_grid(a_rows, k, d_e, rank),
                ));
                assert(lora.b@.map_values(|g: FactorGrid<S>| g@) =~= Seq::new(
                    slots,
                    |k: int| slot_grid(b_rows, k, d_v, rank),
                ));
            }
            checks.push(
                stored_numbers("lora_A", plain_slots(&lora.a, n, b, c.d_e, c.lora_rank), Archive::Trace, tol),
            );
            checks.push(
                stored_numbers("lora_B", plain_slots(&lora.b, n, b, c.d_v, c.lora_rank), Archive::Trace, tol),
            );
        },
        None => {},
    }
    checks.push(stored_numbers("base_restriction_maps", plain_maps(&base), Archive::Trace, S::zero()));
    assert(checks@.map_values(|c: Check<S>| c@) =~= map_checks(model, scene@));
    checks
}

/// Plans the comparison of one end's factors.
fn plan_end<S: Scalar>(
    name: &str,
    gold: &Plain<S>,
    grid: &FactorGrid<S>,
    graph: &AgentGraph<S>,
    side: usize,
    n: usize,
    b: usize,
    slots: usize,
    height: usize,
    rank: usize,
) -> (r: Check<S>)
    requires
        side < 2,
        graph.wf(),
        graph.num_nodes == n,
        graph.dir_uv@.len() == graph.edges@.len(),
        forall|e: int| 0 <= e < graph.edges@.len() ==> (#[trigger] graph.dir_uv@[e]) < slots,
        forall|e: int| 0 <= e < graph.edges@.len() ==> (#[trigger] graph.dir_vu@[e]) < slots,
        gold@.wf(),
        gold@.shape == seq![n, b, slots, height, rank],
        n * b <= usize::MAX,
        slots * (height * rank) <= usize::MAX,
        height * rank <= usize::MAX,
        grid.has_shape(graph.edges@.len(), b as nat, height as nat, rank as nat),
        ({
            let rows = cube_of(gold@.data, n as nat, b as nat, (slots * (height * rank)) as nat);
            let dirs = if side == 0 {
                graph.dir_uv@
            } else {
                graph.dir_vu@
            };
            forall|e: int, j: int|
                0 <= e < graph.edges@.len() && 0 <= j < b ==> #[trigger] grid.at(e, j) == slot_grid(
                    rows,
                    dirs[e] as int,
                    height as nat,
                    rank as nat,
                )[graph.edges@[e]@[side as int] as int][j]
        }),
    ensures
        r@.wf(),
        r@ == gather_check(
            name@,
            gold@.data,
            if side == 0 {
                ends_u(graph@.edges)
            } else {
                ends_v(graph@.edges)
            },
            if side == 0 {
                graph.dir_uv@
            } else {
                graph.dir_vu@
            },
            n as nat,
            b as nat,
            slots,
            height,
            rank,
        ),
{
    let dirs = if side == 0 {
        &graph.dir_uv
    } else {
        &graph.dir_vu
    };
    proof {
        counts_by_rank(gold@.shape);
        let (h, w, d) = (height as int, rank as int, slots as int);
        assert(n * b * d * h * w == n * b * (d * (h * w))) by (nonlinear_arith);
    }
    let want = gather_blocks(&gold.data, &graph.edges, side, dirs, n, b, slots, height, rank);
    let got = plain_grid(grid);
    proof {
        let rows = cube_of(gold@.data, n as nat, b as nat, (slots * (height * rank)) as nat);
        let ends = if side == 0 {
            ends_u(graph@.edges)
        } else {
            ends_v(graph@.edges)
        };
        assert(ends =~= Seq::new(graph.edges@.len(), |e: int| graph.edges@[e]@[side as int] as int));
        let model = grid_build(
            ends.len(),
            rows.b,
            |e: int, j: int| slot_grid(rows, dirs@[e] as int, height as nat, rank as nat)[ends[e]][j],
        );
        grid.entries_wf();
        assert forall|e: int| 0 <= e < grid@.len() implies grid@[e] == model[e] by {
            assert forall|j: int| 0 <= j < b implies grid@[e][j] == model[e][j] by {
                assert(grid.at(e, j) == model[e][j]);
            }
            assert(grid@[e] =~= model[e]);
        }
        assert(grid@ =~= model);
        assert(got@ =~= edge_factors(rows, ends, dirs@, height, rank));
    }
    Check::Numbers { name: name.to_owned(), got, want: Wanted::Given { array: want }, tol: S::zero() }
}

/// Plans the comparison of the factors that a geometry gathers from recorded ones.
fn plan_gather<S: Scalar>(model: &SheafAdmmModel<S>, scene: &Scene<S>, trace: &Npz) -> (r: Vec<Check<S>>)
    requires
        trace.wf(),
        model.runnable(&*scene.graph, scene.patches@, 0),
        scene.patches@.n * scene.patches@.b <= usize::MAX,
        crate::weights::product_fits(
            model.encoder.config.num_directions,
            model.encoder.config.d_e,
            model.encoder.config.lora_rank,
        ),
        crate::weights::product_fits(
            model.encoder.config.num_directions,
            model.encoder.config.d_v,
            model.encoder.config.lora_rank,
        ),
        model.encoder.config.num_directions > 0,
    ensures
        planned(r@, gather_checks(model, scene@, trace)),
{
    let c = &model.encoder.config;
    let (slots, d_e, d_v, rank) = (c.num_directions, c.d_e, c.d_v, c.lora_rank);
    let (n, b, _d) = scene.patches.dim();
    let graph = &scene.graph;
    let mut checks: Vec<Check<S>> = Vec::new();
    let ghost want = gather_checks(model, scene@, trace);
    let a: Plain<S> = match fetch_numbers(trace, "lora_A") {
        Ok(a) => a,
        Err(_) => {
            assert(checks@.map_values(|c: Check<S>| c@) =~= want);
            return checks;
        },
    };
    let f: Plain<S> = match fetch_numbers(trace, "lora_B") {
        Ok(f) => f,
        Err(_) => {
            assert(checks@.map_values(|c: Check<S>| c@) =~= want);
            return checks;
        },
    };
    let a_shape = vec![n, b, slots, d_e, rank];
    let f_shape = vec![n, b, slots, d_v, rank];
    assert(a_shape@ =~= seq![n, b, slots, d_e, rank]);
    assert(f_shape@ =~= seq![n, b, slots, d_v, rank]);
    if !same_shape(a.shape.as_slice(), a_shape.as_slice()) {
        checks.push(Check::Unfit { stored: "lora_A".to_owned() });
        assert(checks@.map_values(|c: Check<S>| c@) =~= want);
        return checks;
    }
    if !same_shape(f.shape.as_slice(), f_shape.as_slice()) {
        checks.push(Check::Unfit { stored: "lora_B".to_owned() });
        assert(checks@.map_values(|c: Check<S>| c@) =~= want);
        return checks;
    }
    proof {
        factor_sizes(n, b, slots, d_e, rank, a@);
        factor_sizes(n, b, slots, d_v, rank, f@);
    }
    let a_rows = unflatten(&a.data, n, b, slots * (d_e * rank));
    let f_rows = unflatten(&f.data, n, b, slots * (d_v * rank));
    let a_slots = split_slots(&a_rows, slots, d_e, rank);
    let f_slots = split_slots(&f_rows, slots, d_v, rank);
    let base = build_directional_restriction_maps(&model.rm.r_stack, graph, d_e, d_v);
    let g = LoraGeometry::create_directional(
        graph.clone(),
        base,
        &a_slots,
        &f_slots,
        None,
        c.lora_alpha,
        b,
        rank,
    );
    checks.push(plan_end("lora_A_u_edge", &a, &g.a_u_edge, graph, 0, n, b, slots, d_e, rank));
    checks.push(plan_end("lora_A_v_edge", &a, &g.a_v_edge, graph, 1, n, b, slots, d_e, rank));
    checks.push(plan_end("lora_B_u_edge", &f, &g.b_u_edge, graph, 0, n, b, slots, d_v, rank));
    checks.push(plan_end("lora_B_v_edge", &f, &g.b_v_edge, graph, 1, n, b, slots, d_v, rank));
    assert(checks@.map_values(|c: Check<S>| c@) =~= want);
    checks
}

/// Recorded factors of the right shape have as many members as rows of factors ask for.
proof fn factor_sizes<S>(n: usize, b: usize, slots: usize, height: usize, rank: usize, a: PlainModel<S>)
    requires
        a.wf(),
        a.shape == seq![n, b, slots, height, rank],
        crate::weights::product_fits(slots, height, rank),
        slots > 0,
    ensures
        a.data.len() == n * b * (slots * (height * rank)),
        slots * (height * rank) == slots * height * rank,
        slots * (height * rank) <= usize::MAX,
        height * rank <= usize::MAX,
{
    counts_by_rank(a.shape);
    let (h, w, d) = (height as int, rank as int, slots as int);
    assert(n * b * d * h * w == n * b * (d * (h * w))) by (nonlinear_arith);
    assert(d * (h * w) == d * h * w) by (nonlinear_arith);
    assert(h * w <= d * (h * w)) by (nonlinear_arith)
        requires
            d >= 1,
            0 <= h,
            0 <= w,
    ;
}

/// A forward pass recorded `total` iterations on a scene.
spec fn passed_through<S: Scalar>(model: &SheafAdmmModel<S>, scene: Scene<S>, fwd: MazeForward<S>, total: nat) -> bool {
    let problem = model.problem(scene@.graph, scene@.patches);
    let seed = model.seed(scene@.patches);
    let t = &model.config.task;
    &&& seed.n == scene@.patches.n
    &&& seed.b == scene@.patches.b
    &&& model.decoder.wf()
    &&& model.decoder.output_shape == (t.patch_size, t.patch_size, model.config.model.num_classes)
    &&& fwd.history.records(problem, seed, total)
    &&& fwd.logits_per_iter@.len() == total
    &&& forall|i: int|
        0 <= i < total ==> (#[trigger] fwd.logits_per_iter@[i])@ == model.decoder.logits_of(
            fwd.history.x@[i]@,
            scene@.patches,
        ) && fwd.logits_per_iter@[i].wf()
}

/// Plans the comparison of one iteration.
fn plan_step<S: Scalar>(
    model: &SheafAdmmModel<S>,
    scene: &Scene<S>,
    fwd: &MazeForward<S>,
    k: usize,
    total: usize,
) -> (r: Vec<Check<S>>)
    requires
        passed_through(model, *scene, *fwd, total as nat),
        k < total,
    ensures
        planned(r@, step_checks(model, scene@, k as nat, total as nat)),
{
    let ghost problem = model.problem(scene@.graph, scene@.patches);
    let ghost seed = model.seed(scene@.patches);
    let history = &fwd.history;
    assert(history.records_step(problem, seed, k as int));
    assert(fwd.logits_per_iter@[k as int].wf());
    let tol: S = iter_tol(k, total);
    let checks = vec![
        stored_slab("x", "x", k, plain_cube(&history.x[k]), tol),
        stored_slab("z", "z", k, plain_cube(&history.z[k]), tol),
        stored_slab("y", "y", k, plain_cube(&history.y[k]), tol),
        stored_slab("primal_res", "primal_res", k, plain_matrix(&history.primal_res[k]), tol),
        stored_slab("dual_res", "dual_res", k, plain_matrix(&history.dual_res[k]), tol),
        stored_slab("consistency", "consistency", k, plain_list(history.consistency_rms[k].as_slice()), tol),
        stored_slab(
            "logits",
            "logits_per_iter",
            k,
            agent_array(
                &fwd.logits_per_iter[k],
                model.config.task.patch_size,
                model.config.model.num_classes,
            ),
            tol,
        ),
    ];
    assert(checks@.map_values(|c: Check<S>| c@) =~= step_checks(model, scene@, k as nat, total as nat));
    checks
}

/// Plans the comparison of what the last iteration is decoded to.
fn plan_final<S: Scalar>(
    model: &SheafAdmmModel<S>,
    scene: &Scene<S>,
    fwd: &MazeForward<S>,
    tokens: &Tensor3<i64>,
    total: usize,
) -> (r: Vec<Check<S>>)
    requires
        passed_through(model, *scene, *fwd, total as nat),
        total > 0,
        tokens.wf(),
        scene.wf(tokens@.b as int, tokens@.d as int),
        scene.patches@.b == tokens@.n,
        weights_fit(model),
        grid_fits(&model.config, tokens@.b as int, tokens@.d as int),
        model.config.task.num_classes <= model.config.model.num_classes,
    ensures
        planned(r@, final_checks(model, scene@, tokens@, total as nat)),
{
    let t = &model.config.task;
    let m = &model.config.model;
    let (_b, h, w) = tokens.dim();
    let ghost problem = model.problem(scene@.graph, scene@.patches);
    let ghost seed = model.seed(scene@.patches);
    assert(fwd.history.records_step(problem, seed, total - 1));
    assert(fwd.logits_per_iter@[total - 1].wf());
    let tol: S = iter_tol(total - 1, total);
    let logits = fwd.logits_final();
    let grids = reassemble_logits(&logits, &scene.centers, t.patch_size, m.num_classes, (h, w));
    let ghost all = all_reassembled(model, scene@, logits@, tokens@.n, tokens@.b, tokens@.d);
    proof {
        assert forall|i: int| 0 <= i < grids@.len() implies (#[trigger] grids@[i])@.has_shape(
            h as nat,
            w as nat,
            m.num_classes as nat,
        ) && grids@[i]@ == all[i] by {}
        assert(grids@.map_values(|g: Tensor3<S>| g@) =~= all);
    }
    let mut classes: Vec<Matrix<i64>> = Vec::new();
    for i in 0..grids.len()
        invariant
            all == grids@.map_values(|g: Tensor3<S>| g@),
            t.num_classes <= m.num_classes,
            t.num_classes <= i64::MAX,
            forall|i: int|
                0 <= i < grids@.len() ==> (#[trigger] grids@[i])@.has_shape(
                    h as nat,
                    w as nat,
                    m.num_classes as nat,
                ),
            classes@.len() == i,
            forall|j: int|
                0 <= j < i ==> (#[trigger] classes@[j])@ == classes_of(all[j], t.num_classes as nat)
                    && classes@[j]@.has_shape(h as nat, w as nat),
    {
        assert(grids@[i as int]@.has_shape(h as nat, w as nat, m.num_classes as nat));
        classes.push(argmax_grid(&grids[i], t.num_classes));
    }
    assert(classes@.map_values(|c: Matrix<i64>| c@) =~= all.map_values(
        |g: Arr3<S>| classes_of(g, t.num_classes as nat),
    ));
    let checks = vec![
        stored_numbers("logits_final", agent_array(&logits, t.patch_size, m.num_classes), Archive::Trace, tol),
        stored_numbers("reassembled_final", plain_list3(&grids, h, w, m.num_classes), Archive::Trace, tol),
        stored_integers("pred_grid", plain_line(&classes, h, w), Archive::Trace),
    ];
    assert(checks@.map_values(|c: Check<S>| c@) =~= final_checks(model, scene@, tokens@, total as nat));
    checks
}

/// The recorded mazes, `[B, H, W]`.
pub open spec fn recorded_tokens(batch: &Npz) -> Result<Arr3<i64>, Lack> {
    match integers_in(batch, "tokens"@) {
        Ok(a) => if a.shape.len() == 3 {
            Ok(cube_of(a.data, a.shape[0] as nat, a.shape[1] as nat, a.shape[2] as nat))
        } else {
            Err(Lack::WrongShape)
        },
        Err(lack) => Err(lack),
    }
}

/// How many iterations were recorded: the first extent of the states.
pub open spec fn recorded_steps(trace: &Npz) -> Result<nat, Lack> {
    match trace.entry("x"@) {
        None => Err(Lack::Missing),
        Some(e) => match e.data {
            crate::npz::NpzData::Single(_) => if e.shape@.len() >= 2 && e.shape@[0] > 0 {
                Ok(e.shape@[0] as nat)
            } else {
                Err(Lack::WrongShape)
            },
            crate::npz::NpzData::Integer(_) => Err(Lack::WrongType),
        },
    }
}

/// A comparison that ended before it began, for want of a recorded array.
pub open spec fn refused<S: Scalar>(c: Comparison<S>, name: Seq<char>, lack: Lack) -> bool {
    &&& c.rows@.len() == 0
    &&& c.tallied()
    &&& c.stopped matches Some(error) && error_says(error, name, lack)
}

fn refuse<S: Scalar>(error: NpzError, Ghost(name): Ghost<Seq<char>>, Ghost(lack): Ghost<Lack>) -> (r: Comparison<S>)
    requires
        error_says(error, name, lack),
    ensures
        refused(r, name, lack),
{
    let r = Comparison { rows: Vec::new(), report: Report::new(), stopped: Some(error) };
    assert(r.report.failures@.map_values(|name: String| name@) =~= Seq::empty());
    r
}

/// Runs a model on mazes and plans the comparison of everything that it computes.
pub fn plan_run<S: Scalar>(model: &SheafAdmmModel<S>, tokens: &Tensor3<i64>, total: usize, trace: &Npz) -> (r: Vec<
    Check<S>,
>)
    requires
        trace.wf(),
        tokens.wf(),
        tokens@.n * (tokens@.b * tokens@.d) <= usize::MAX,
        total > 0,
        weights_fit(model),
        config_runs(&model.config),
        grid_fits(&model.config, tokens@.b as int, tokens@.d as int),
        model.config.task.num_classes <= model.config.model.num_classes,
    ensures
        planned(r@, plan_of(model, tokens@, total as nat, trace)),
{
    let (b, h, w) = tokens.dim();
    let scene = prepare_scene(&model.config, tokens);
    proof {
        scene_is_runnable(model, scene, tokens@, 0);
        scene_is_runnable(model, scene, tokens@, total);
        let n = scene@.patches.n;
        assert(n * b <= usize::MAX) by (nonlinear_arith)
            requires
                0 <= n <= h * w,
                0 <= b,
                b * (h * w) <= usize::MAX,
        ;
    }
    let enc = model.encoder.forward(&scene.patches);
    let fwd = model.forward(&scene.patches, scene.graph.clone(), total);
    let ghost view = scene@;
    assert(passed_through(model, scene, fwd, total as nat));
    let mut checks = plan_scene(&model.config, &scene, Ghost(tokens@.b as int), Ghost(tokens@.d as int));
    let ghost mut plan = scene_checks(&model.config, view);
    let encoder = plan_encoder(model, &enc, &scene);
    follow(&mut checks, encoder, Ghost(plan), Ghost(encoder_checks(model, view)));
    proof {
        plan = plan + encoder_checks(model, view);
    }
    let factors = plan_awaited(trace, vec!["lora_A", "lora_B"]);
    let ghost names = seq!["lora_A", "lora_B"].map_values(|n: &str| n@);
    assert(names =~= factor_names());
    follow(&mut checks, factors, Ghost(plan), Ghost(awaited(trace, factor_names())));
    proof {
        plan = plan + awaited(trace, factor_names());
    }
    let maps = plan_maps(model, &enc, &scene);
    follow(&mut checks, maps, Ghost(plan), Ghost(map_checks(model, view)));
    proof {
        plan = plan + map_checks(model, view);
    }
    let gathers = plan_gather(model, &scene, trace);
    follow(&mut checks, gathers, Ghost(plan), Ghost(gather_checks(model, view, trace)));
    proof {
        plan = plan + gather_checks(model, view, trace);
    }
    let penalty = vec![
        Check::<S>::Pattern { name: "rho".to_owned(), got: model.rho.to_bits(), stored: "rho".to_owned() },
    ];
    let ghost penalty_plan = seq![
        CheckModel::<S>::Pattern { name: "rho"@, got: model.rho.spec_to_bits(), stored: "rho"@ },
    ];
    assert(penalty@.map_values(|c: Check<S>| c@) =~= penalty_plan);
    follow(&mut checks, penalty, Ghost(plan), Ghost(penalty_plan));
    proof {
        plan = plan + penalty_plan;
    }
    let iterations = plan_awaited(
        trace,
        vec!["z", "y", "primal_res", "dual_res", "consistency", "logits_per_iter"],
    );
    let ghost names = seq!["z", "y", "primal_res", "dual_res", "consistency", "logits_per_iter"].map_values(
        |n: &str| n@,
    );
    assert(names =~= step_names());
    follow(&mut checks, iterations, Ghost(plan), Ghost(awaited(trace, step_names())));
    proof {
        plan = plan + awaited(trace, step_names());
    }
    let ghost steps_plan = Seq::new(total as nat, |k: int| step_checks(model, view, k as nat, total as nat));
    assert(plan + chained(steps_plan, 0) =~= plan);
    for k in 0..total
        invariant
            passed_through(model, scene, fwd, total as nat),
            view == scene@,
            steps_plan == Seq::new(total as nat, |k: int| step_checks(model, view, k as nat, total as nat)),
            planned(checks@, plan + chained(steps_plan, k as nat)),
    {
        let step = plan_step(model, &scene, &fwd, k, total);
        let ghost before = plan + chained(steps_plan, k as nat);
        follow(&mut checks, step, Ghost(before), Ghost(steps_plan[k as int]));
        assert(before + steps_plan[k as int] =~= plan + chained(steps_plan, (k + 1) as nat));
    }
    proof {
        plan = plan + chained(steps_plan, total as nat);
    }
    let last = plan_final(model, &scene, &fwd, tokens, total);
    follow(&mut checks, last, Ghost(plan), Ghost(final_checks(model, view, tokens@, total as nat)));
    assert(plan + final_checks(model, view, tokens@, total as nat) == plan_of(
        model,
        tokens@,
        total as nat,
        trace,
    ));
    checks
}

/// Runs a model on recorded mazes, as many iterations as were recorded, and compares every array
/// with its recorded one.
pub fn compare_run<S: Scalar>(model: &SheafAdmmModel<S>, batch: &Npz, trace: &Npz) -> (r: Comparison<S>)
    requires
        batch.wf(),
        trace.wf(),
        weights_fit(model),
        config_runs(&model.config),
        model.config.task.num_classes <= model.config.model.num_classes,
    ensures
        match recorded_tokens(batch) {
            Err(lack) => refused(r, "tokens"@, lack),
            Ok(tokens) => match recorded_steps(trace) {
                Err(lack) => refused(r, "x"@, lack),
                Ok(total) => if grid_fits(&model.config, tokens.b as int, tokens.d as int) {
                    replayed(r, plan_of(model, tokens, total, trace), batch, trace)
                } else {
                    refused(r, "tokens"@, Lack::WrongShape)
                },
            },
        },
{
    let (shape, values) = match batch.i64("tokens") {
        Ok(found) => found,
        Err(error) => {
            return refuse(error, Ghost("tokens"@), Ghost(recorded_tokens(batch)->Err_0));
        },
    };
    if shape.len() != 3 {
        return refuse(
            NpzError::WrongShape { name: "tokens".to_owned() },
            Ghost("tokens"@),
            Ghost(Lack::WrongShape),
        );
    }
    let (steps, _states) = match trace.f32_bits("x") {
        Ok(found) => found,
        Err(error) => {
            return refuse(error, Ghost("x"@), Ghost(recorded_steps(trace)->Err_0));
        },
    };
    if steps.len() < 2 || steps[0] == 0 {
        return refuse(NpzError::WrongShape { name: "x".to_owned() }, Ghost("x"@), Ghost(Lack::WrongShape));
    }
    let total = steps[0];
    let (b, h, w) = (shape[0], shape[1], shape[2]);
    if !grid_countable(&model.config, h, w) {
        return refuse(
            NpzError::WrongShape { name: "tokens".to_owned() },
            Ghost("tokens"@),
            Ghost(Lack::WrongShape),
        );
    }
    let size = values.len();
    proof {
        counts_by_rank(shape@);
        assert(size == b * h * w);
    }
    let tokens = unflatten(values, b, h, w);
    proof {
        assert(b * h * w == b * (h * w)) by (nonlinear_arith);
    }
    let checks = plan_run(model, &tokens, total, trace);
    replay(&checks, batch, trace)
}

} // verus!
