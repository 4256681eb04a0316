//! What the maze model is for: the configuration's modes pick what they name, every edge uses the
//! maps of the direction in which it leads, and every setting reaches the step it belongs to.
use super::iterations::{blending_goes_part_of_the_way, systems_weigh_their_parts};
use super::ring::exact;
use crate::algebra::{diff3, scaled3, sum3};
use crate::encoder::slot_grid;
use crate::admm::{Iterate, XSolverKind};
use crate::graph::{mirrors, GraphModel};
use crate::model::SheafAdmmModel;
use crate::restriction_maps::{compass, names_tell_directions};
use crate::scalar::Scalar;
use crate::scene::scene_of;
use crate::solvers::{cg_iterate, cg_next, cg_initial, consensus_of, system_of, ZMode};
use crate::tensor::{Arr2, Arr3};
use crate::views::{edge_step, edge_steps, grid_edges_once, leads_on, patches_of, TOKEN_WALL};
use vstd::prelude::*;
use vstd::string::*;

verus! {

/// The mode names are different texts.
proof fn mode_names_differ()
    ensures
        "context"@ != "fixed"@,
        "prox"@ != "project"@,
        "diagonal_prox"@ != "simple"@,
        "h"@ != "zeros"@,
{
    reveal_strlit("context");
    reveal_strlit("fixed");
    reveal_strlit("prox");
    reveal_strlit("project");
    reveal_strlit("diagonal_prox");
    reveal_strlit("simple");
    reveal_strlit("h");
    reveal_strlit("zeros");
    assert("context"@.len() != "fixed"@.len());
    assert("prox"@.len() != "project"@.len());
    assert("diagonal_prox"@.len() != "simple"@.len());
    assert("h"@.len() != "zeros"@.len());
}

/// In mode `context` the model runs on the maps that the factors of its patches modulate, and in
/// mode `fixed` on the base maps alone.
pub proof fn map_mode_picks_the_geometry<S: Scalar>(model: &SheafAdmmModel<S>, graph: GraphModel, patches: Arr3<S>)
    ensures
        model.config.model.rm_mode@ == "context"@ ==> model.problem(graph, patches).ops == model.lora_model(
            graph,
            patches,
        ).operators(),
        model.config.model.rm_mode@ == "fixed"@ ==> model.problem(graph, patches).ops == model.base_model(
            graph,
        ).operators(),
{
    mode_names_differ();
}

/// Two stacks of base maps hold the same numbers.
pub open spec fn stacks_alike<S: Scalar>(a: &SheafAdmmModel<S>, b: &SheafAdmmModel<S>) -> bool {
    &&& a.rm.r_stack@.len() == b.rm.r_stack@.len()
    &&& forall|k: int| 0 <= k < a.rm.r_stack@.len() ==> (#[trigger] a.rm.r_stack@[k])@ == b.rm.r_stack@[k]@
}

/// In mode `fixed` the geometry depends on the graph and the base maps alone: neither the patches
/// nor any weight of the encoder has a say in it.
pub proof fn fixed_maps_ignore_patches<S: Scalar>(
    a: &SheafAdmmModel<S>,
    b: &SheafAdmmModel<S>,
    graph: GraphModel,
    pa: Arr3<S>,
    pb: Arr3<S>,
)
    requires
        a.config.model.rm_mode@ == "fixed"@,
        b.config.model.rm_mode@ == "fixed"@,
        stacks_alike(a, b),
        a.encoder.config.d_e == b.encoder.config.d_e,
        a.encoder.config.d_v == b.encoder.config.d_v,
        forall|e: int|
            0 <= e < graph.edges.len() ==> (#[trigger] graph.dir_uv[e]) < a.rm.r_stack@.len() && graph.dir_vu[e]
                < a.rm.r_stack@.len(),
    ensures
        a.problem(graph, pa).ops == b.problem(graph, pb).ops,
{
    mode_names_differ();
    let (x, y) = (a.base_model(graph), b.base_model(graph));
    assert forall|e: int| 0 <= e < graph.edges.len() implies x.at_u[e] == y.at_u[e] && x.at_v[e] == y.at_v[e] by {
        assert(graph.dir_uv[e] < a.rm.r_stack@.len());
        let (k, l) = (graph.dir_uv[e] as int, graph.dir_vu[e] as int);
        assert(a.rm.r_stack@[k]@ == b.rm.r_stack@[k]@);
        assert(a.rm.r_stack@[l]@ == b.rm.r_stack@[l]@);
    }
    assert(x.at_u =~= y.at_u);
    assert(x.at_v =~= y.at_v);
    assert(x == y);
}

/// The other modes pick what they name: soft or hard consensus, the proximal or the tethered
/// proposal, a start at the embedding or at zero.
pub proof fn modes_pick_what_they_name<S: Scalar>(model: &SheafAdmmModel<S>, graph: GraphModel, patches: Arr3<S>)
    ensures
        ({
            let m = &model.config.model;
            let problem = model.problem(graph, patches);
            let seed = model.seed(patches);
            &&& m.z_mode@ == "prox"@ ==> problem.z_params.mode == ZMode::Prox
            &&& m.z_mode@ == "project"@ ==> problem.z_params.mode == ZMode::Project
            &&& m.x_solver@ == "diagonal_prox"@ ==> problem.x_solver == XSolverKind::DiagonalProx
            &&& m.x_solver@ == "simple"@ ==> problem.x_solver == XSolverKind::Simple
            &&& m.z_init@ == "h"@ ==> seed == model.encoder.h_of(patches)
            &&& m.z_init@ == "zeros"@ ==> {
                &&& seed.has_shape(patches.n, patches.b, model.encoder.config.d_v as nat)
                &&& forall|i: int, j: int, k: int|
                    0 <= i < seed.n && 0 <= j < seed.b && 0 <= k < seed.d ==> #[trigger] seed.at(i, j, k)
                        == S::spec_zero()
            }
        }),
{
    mode_names_differ();
}

/// The seed, the tether and the objective of a run are what the encoder makes of the patches.
pub proof fn runs_start_from_the_encoder<S: Scalar>(model: &SheafAdmmModel<S>, graph: GraphModel, patches: Arr3<S>)
    ensures
        model.problem(graph, patches).h == model.encoder.h_of(patches),
        model.problem(graph, patches).objective == model.encoder.objective_of(patches),
{
}

/// Proposals answer to the penalty and the encoder alone: models that agree on these make the
/// same proposals at every state, whatever their other settings are. Blending answers to the
/// relaxation on top; at a relaxation of one there is none.
pub proof fn proposals_answer_to_the_penalty<S: Scalar>(
    a: &SheafAdmmModel<S>,
    b: &SheafAdmmModel<S>,
    ga: GraphModel,
    gb: GraphModel,
    patches: Arr3<S>,
    s: Iterate<S>,
)
    requires
        a.encoder == b.encoder,
        a.rho == b.rho,
        a.config.model.x_solver@ == b.config.model.x_solver@,
    ensures
        a.problem(ga, patches).proposal(s) == b.problem(gb, patches).proposal(s),
        a.config.model.relaxation_alpha == b.config.model.relaxation_alpha ==> a.problem(ga, patches).relaxed(s)
            == b.problem(gb, patches).relaxed(s),
        a.config.model.relaxation_alpha.spec_same(S::spec_one()) ==> a.problem(ga, patches).relaxed(s)
            == a.problem(ga, patches).proposal(s),
{
}

/// Consensus answers to its own settings: the soft one to weight, penalty and number of
/// iterations, the hard one to regularizer and number of iterations; neither to the settings of
/// the other.
pub proof fn consensus_answers_to_its_settings<S: Scalar>(
    a: &SheafAdmmModel<S>,
    b: &SheafAdmmModel<S>,
    ga: GraphModel,
    gb: GraphModel,
    patches: Arr3<S>,
    target: Arr3<S>,
    prev: Arr3<S>,
)
    requires
        a.problem(ga, patches).ops == b.problem(gb, patches).ops,
        a.config.model.cg_iters == b.config.model.cg_iters,
        ({
            let (m, n) = (&a.config.model, &b.config.model);
            ||| m.z_mode@ == "prox"@ && n.z_mode@ == "prox"@ && m.gamma == n.gamma && a.rho == b.rho
            ||| m.z_mode@ == "project"@ && n.z_mode@ == "project"@ && m.tikhonov_eps == n.tikhonov_eps
        }),
    ensures
        ({
            let (p, q) = (a.problem(ga, patches), b.problem(gb, patches));
            consensus_of(target, prev, p.ops, p.z_params, p.rho) == consensus_of(
                target,
                prev,
                q.ops,
                q.z_params,
                q.rho,
            )
        }),
{
    mode_names_differ();
    let (p, q) = (a.problem(ga, patches), b.problem(gb, patches));
    let t = p.z_params.num_iters as nat;
    let soft = a.config.model.z_mode@ == "prox"@;
    assert forall|x: Arr3<S>| #[trigger] system_of(p.ops, p.z_params, p.rho, x) == system_of(
        q.ops,
        q.z_params,
        q.rho,
        x,
    ) by {}
    if soft {
        solves_alike(a, b, ga, gb, patches, scaled3(p.rho, target), target, t);
    } else {
        let x0 = diff3(target, prev);
        solves_alike(a, b, ga, gb, patches, p.ops.laplacian_of(target), x0, t);
    }
}

proof fn solves_alike<S: Scalar>(
    a: &SheafAdmmModel<S>,
    b: &SheafAdmmModel<S>,
    ga: GraphModel,
    gb: GraphModel,
    patches: Arr3<S>,
    c: Arr3<S>,
    x0: Arr3<S>,
    t: nat,
)
    requires
        ({
            let (p, q) = (a.problem(ga, patches), b.problem(gb, patches));
            forall|x: Arr3<S>| #[trigger]
                system_of(p.ops, p.z_params, p.rho, x) == system_of(q.ops, q.z_params, q.rho, x)
        }),
    ensures
        ({
            let (p, q) = (a.problem(ga, patches), b.problem(gb, patches));
            cg_iterate(p.ops, p.z_params, p.rho, c, x0, t) == cg_iterate(
                q.ops,
                q.z_params,
                q.rho,
                c,
                x0,
                t,
            )
        }),
    decreases t,
{
    let (p, q) = (a.problem(ga, patches), b.problem(gb, patches));
    if t > 0 {
        solves_alike(a, b, ga, gb, patches, c, x0, (t - 1) as nat);
        let s = cg_iterate(p.ops, p.z_params, p.rho, c, x0, (t - 1) as nat);
        assert(cg_next(p.ops, p.z_params, p.rho, s) == cg_next(q.ops, q.z_params, q.rho, s));
    } else {
        assert(cg_initial(p.ops, p.z_params, p.rho, c, x0) == cg_initial(
            q.ops,
            q.z_params,
            q.rho,
            c,
            x0,
        ));
    }
}

/// Without iterations the soft consensus is its target: the blended proposals plus the dual.
pub proof fn soft_consensus_starts_at_its_target<S: Scalar>(
    model: &SheafAdmmModel<S>,
    graph: GraphModel,
    patches: Arr3<S>,
    s: Iterate<S>,
)
    requires
        model.config.model.z_mode@ == "prox"@,
        model.config.model.cg_iters == 0,
    ensures
        ({
            let problem = model.problem(graph, patches);
            problem.next(s).z == sum3(problem.relaxed(s), s.y)
        }),
{
}

/// The order of differences of whole positions is that of the positions, and negation mirrors it.
pub open spec fn tells_positions<S: Scalar>() -> bool {
    forall|a: int, b: int|
        {
            let d = #[trigger] S::spec_from_int(a).spec_minus(S::spec_from_int(b));
            &&& d.spec_less(S::spec_zero()) == (a < b)
            &&& S::spec_zero().spec_less(d) == (b < a)
            &&& mirrors(d)
        }
}

/// The letters of a direction's name tell where it leads on a grid: north to smaller `y`, south to
/// larger, east to larger `x`, west to smaller. With four directions the vertical ones go first.
pub open spec fn name_leads(num_directions: usize, k: int, dy: int, dx: int) -> bool {
    let name = compass(num_directions)[k];
    &&& 0 <= k < num_directions
    &&& name.contains('N') == (dy < 0)
    &&& name.contains('S') == (dy > 0)
    &&& name.contains('E') == (dx > 0 && (num_directions == 8 || dy == 0))
    &&& name.contains('W') == (dx < 0 && (num_directions == 8 || dy == 0))
}

/// Every edge of a scene joins two centers one stride apart, and its slots at both ends are those
/// of the direction in which it leads: at its first end from there to the other, at its other end
/// back.
pub proof fn scene_slots_tell_directions<S: Scalar>(model: &SheafAdmmModel<S>, tokens: Arr3<i64>, e: int)
    requires
        tells_positions::<S>(),
        model.config.model.num_directions == 4 || model.config.model.num_directions == 8,
        model.config.task.connectivity == 4 || model.config.task.connectivity == 8,
        model.config.task.stride > 0,
        0 <= e < scene_of(&model.config, tokens).graph.edges.len(),
    ensures
        ({
            let scene = scene_of(&model.config, tokens);
            let nd = model.config.model.num_directions;
            let (u, v) = scene.graph.edges[e];
            let dy = scene.centers.at(v, 0) - scene.centers.at(u, 0);
            let dx = scene.centers.at(v, 1) - scene.centers.at(u, 1);
            let stride = model.config.task.stride as int;
            &&& 0 <= u < scene.centers.rows
            &&& 0 <= v < scene.centers.rows
            &&& dy == 0 || dy == stride
            &&& dx == 0 || dx == stride || dx == -stride
            &&& dy != 0 || dx == stride
            &&& name_leads(nd, scene.graph.dir_uv[e] as int, dy, dx)
            &&& name_leads(nd, scene.graph.dir_vu[e] as int, -dy, -dx)
        }),
{
    let scene = scene_of(&model.config, tokens);
    let nd = model.config.model.num_directions;
    let t = &model.config.task;
    let stride = t.stride as int;
    grid_edges_once(scene.centers, stride, t.connectivity, scene.centers.rows);
    assert(leads_on(scene.centers, stride, t.connectivity, scene.graph.edges[e]));
    let (u, v) = scene.graph.edges[e];
    let k = choose|k: int|
        0 <= k < edge_steps(t.connectivity) && scene.centers.at(v, 0) == scene.centers.at(u, 0)
            + (#[trigger] edge_step(k)).0 * stride && scene.centers.at(v, 1) == scene.centers.at(
            u,
            1,
        ) + edge_step(k).1 * stride;
    assert(0 * stride == 0 && 1 * stride == stride && (-1) * stride == -stride);
    let (yu, yv) = (scene.centers.at(u, 0) as int, scene.centers.at(v, 0) as int);
    let (xu, xv) = (scene.centers.at(u, 1) as int, scene.centers.at(v, 1) as int);
    let dy = S::spec_from_int(yv).spec_minus(S::spec_from_int(yu));
    let dx = S::spec_from_int(xv).spec_minus(S::spec_from_int(xu));
    names_tell_directions(dy, dx, nd);
    names_tell_directions(dy.spec_negate(), dx.spec_negate(), nd);
}

/// Every edge of a scene uses the base maps of the direction in which it leads: an edge that leads
/// north has the north map at its first end and the south map at the other.
pub proof fn edges_use_the_maps_of_their_directions<S: Scalar>(model: &SheafAdmmModel<S>, tokens: Arr3<i64>, e: int)
    requires
        tells_positions::<S>(),
        model.config.model.num_directions == 4 || model.config.model.num_directions == 8,
        model.config.task.connectivity == 4 || model.config.task.connectivity == 8,
        model.config.task.stride > 0,
        0 <= e < scene_of(&model.config, tokens).graph.edges.len(),
    ensures
        ({
            let scene = scene_of(&model.config, tokens);
            let nd = model.config.model.num_directions;
            let base = model.base_model(scene.graph);
            let (u, v) = scene.graph.edges[e];
            let dy = scene.centers.at(v, 0) - scene.centers.at(u, 0);
            let dx = scene.centers.at(v, 1) - scene.centers.at(u, 1);
            &&& base.edges == scene.graph.edges
            &&& base.mask is None
            &&& exists|k: int| #[trigger]
                name_leads(nd, k, dy, dx) && base.at_u[e] == model.rm.r_stack@[k]@
            &&& exists|k: int| #[trigger]
                name_leads(nd, k, -dy, -dx) && base.at_v[e] == model.rm.r_stack@[k]@
        }),
{
    scene_slots_tell_directions(model, tokens, e);
}

/// Each end of an edge is modulated by the factors of its own agent, in the slot of the direction
/// in which the edge leads from there.
pub proof fn edges_use_the_factors_of_their_ends<S: Scalar>(
    model: &SheafAdmmModel<S>,
    tokens: Arr3<i64>,
    e: int,
    j: int,
)
    requires
        tells_positions::<S>(),
        model.config.model.num_directions == 4 || model.config.model.num_directions == 8,
        model.config.task.connectivity == 4 || model.config.task.connectivity == 8,
        model.config.task.stride > 0,
        0 <= e < scene_of(&model.config, tokens).graph.edges.len(),
        0 <= j < scene_of(&model.config, tokens).patches.b,
    ensures
        ({
            let scene = scene_of(&model.config, tokens);
            let nd = model.config.model.num_directions;
            let c = &model.encoder.config;
            let (d_e, d_v, r) = (c.d_e as nat, c.d_v as nat, c.lora_rank as nat);
            let lora = model.lora_model(scene.graph, scene.patches);
            let (a, b) = (model.encoder.a_rows(scene.patches), model.encoder.b_rows(scene.patches));
            let (u, v) = scene.graph.edges[e];
            let dy = scene.centers.at(v, 0) - scene.centers.at(u, 0);
            let dx = scene.centers.at(v, 1) - scene.centers.at(u, 1);
            &&& lora.base == model.base_model(scene.graph)
            &&& lora.gate_u is None && lora.gate_v is None
            &&& lora.lora_alpha == c.lora_alpha
            &&& exists|k: int| #[trigger]
                name_leads(nd, k, dy, dx) && lora.a_u[e][j] == slot_grid(a, k, d_e, r)[u][j]
                    && lora.b_u[e][j] == slot_grid(b, k, d_v, r)[u][j]
            &&& exists|k: int| #[trigger]
                name_leads(nd, k, -dy, -dx) && lora.a_v[e][j] == slot_grid(a, k, d_e, r)[v][j]
                    && lora.b_v[e][j] == slot_grid(b, k, d_v, r)[v][j]
        }),
{
    scene_slots_tell_directions(model, tokens, e);
    let scene = scene_of(&model.config, tokens);
    let nd = model.config.model.num_directions;
    let (u, v) = scene.graph.edges[e];
    let dy = scene.centers.at(v, 0) - scene.centers.at(u, 0);
    let dx = scene.centers.at(v, 1) - scene.centers.at(u, 1);
    assert(name_leads(nd, scene.graph.dir_uv[e] as int, dy, dx));
    assert(name_leads(nd, scene.graph.dir_vu[e] as int, -dy, -dx));
}

/// The member of a patch for the cell at offset `(oy, ox)` from its center and a class is one where
/// the token there is that class, and zero where it is not; cells beyond the maze count as walls.
pub proof fn patches_show_what_is_around<S: Scalar>(
    tokens: Arr3<i64>,
    centers: Arr2<i64>,
    half: int,
    classes: int,
    n: int,
    b: int,
    oy: int,
    ox: int,
    c: int,
)
    requires
        0 <= half,
        0 < classes,
        0 <= n < centers.rows,
        0 <= b < tokens.n,
        -half <= oy <= half,
        -half <= ox <= half,
        0 <= c < classes,
    ensures
        ({
            let size = 2 * half + 1;
            let (y, x) = (centers.at(n, 0) + oy, centers.at(n, 1) + ox);
            let inside = 0 <= y < tokens.b && 0 <= x < tokens.d;
            let token = if inside {
                tokens.at(b, y, x)
            } else {
                TOKEN_WALL
            };
            patches_of::<S>(tokens, centers, size, classes).at(
                n,
                b,
                ((oy + half) * size + (ox + half)) * classes + c,
            ) == if token == c {
                S::spec_one()
            } else {
                S::spec_zero()
            }
        }),
{
    let size = 2 * half + 1;
    let cell = (oy + half) * size + (ox + half);
    let k = cell * classes + c;
    assert(size / 2 == half);
    assert(0 <= cell < size * size && cell / size == oy + half && cell % size == ox + half) by (nonlinear_arith)
        requires
            cell == (oy + half) * size + (ox + half),
            0 <= oy + half < size,
            0 <= ox + half < size,
    ;
    assert(0 <= k < size * size * classes && k / classes == cell && k % classes == c) by (nonlinear_arith)
        requires
            k == cell * classes + c,
            0 <= cell < size * size,
            0 <= c < classes,
    ;
}

/// A run answers to the configured settings and to the loaded penalty: blending goes the
/// configured part of the way, the soft consensus weighs the Laplacian by `gamma` against the
/// penalty, the hard one adds the regularizer, and both take the configured number of iterations.
pub proof fn runs_answer_to_the_configuration<S: Scalar>(
    model: &SheafAdmmModel<S>,
    graph: GraphModel,
    patches: Arr3<S>,
    s: Iterate<S>,
    i: int,
    j: int,
    k: int,
)
    requires
        exact::<S>(),
        model.config.model.relaxation_alpha.spec_same(S::spec_one()) ==> model.config.model.relaxation_alpha
            == S::spec_one(),
        ({
            let problem = model.problem(graph, patches);
            let x = problem.proposal(s);
            let l = problem.ops.laplacian_of(s.z);
            &&& 0 <= i < s.z.n
            &&& 0 <= j < s.z.b
            &&& 0 <= k < s.z.d
            &&& (x.n, x.b, x.d) == (s.z.n, s.z.b, s.z.d)
            &&& (l.n, l.b, l.d) == (s.z.n, s.z.b, s.z.d)
        }),
    ensures
        ({
            let m = &model.config.model;
            let zero = S::spec_zero();
            let problem = model.problem(graph, patches);
            let z = s.z.at(i, j, k);
            let l = problem.ops.laplacian_of(s.z).at(i, j, k);
            let a = system_of(problem.ops, problem.z_params, problem.rho, s.z).at(i, j, k);
            &&& problem.relaxed(s).at(i, j, k).spec_minus(z) == m.relaxation_alpha.spec_times(
                problem.proposal(s).at(i, j, k).spec_minus(z),
            )
            &&& problem.rho == model.rho
            &&& problem.z_params.num_iters == m.cg_iters
            &&& m.z_mode@ == "prox"@ && l == zero ==> a == model.rho.spec_times(z)
            &&& m.z_mode@ == "prox"@ && model.rho == zero ==> a == m.gamma.spec_times(l)
            &&& m.z_mode@ == "project"@ && l == zero ==> a == m.tikhonov_eps.spec_times(z)
            &&& m.z_mode@ == "project"@ && m.tikhonov_eps == zero ==> a == l
        }),
{
    mode_names_differ();
    let problem = model.problem(graph, patches);
    blending_goes_part_of_the_way(problem, s, i, j, k);
    systems_weigh_their_parts(problem.ops, problem.z_params, problem.rho, s.z, i, j, k);
}

} // verus!
