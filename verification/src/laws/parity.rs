//! What a comparison with a recorded run that finds no fault shows of the recorded arrays, and
//! how arrays lie in a row.
use super::report::{all_close, passing_arrays_are_close};
use crate::admm::{distances, weighted_distances};
use crate::config::ExportedConfig;
use crate::geometry::consistency_of;
use crate::model::SheafAdmmModel;
use crate::npz::{Npz, NpzData};
use crate::parity::{
    all_reassembled, archive_of, awaited, cube_of, encoder_checks, encoder_tolerance, factor_names, failed_names, final_checks, gather_checks,
    integers_check, integers_in, map_checks, numbers_check, numbers_in, objective_checks, plain2, plain3, plain5, plain_dirs,
    plain_edges, plan_of, replayed, row_is, scene_checks, slab_check, step_checks, step_names, wanted_of, Archive,
    CheckModel, Comparison, Row, Verdict,
};
use crate::plain::{chained, chained_length, flat2, flat3, flat_line, flat_list3, plain_line_of, PlainModel};
use crate::readout::classes_of;
use crate::report::iter_tol_of;
use crate::scalar::Scalar;
use crate::scene::{positions_of, scene_of, SceneModel};
use crate::solvers::ObjectiveModel;
use crate::tensor::{arr3_ext, Arr2, Arr3};
use crate::views::reassembled;
use crate::weights::member_count;
use vstd::prelude::*;
use vstd::string::*;

verus! {

proof fn chained_at<T>(parts: Seq<Seq<T>>, n: nat, m: nat, i: int, j: int)
    requires
        n <= parts.len(),
        forall|p: int| 0 <= p < n ==> (#[trigger] parts[p]).len() == m,
        0 <= i < n,
        0 <= j < m,
    ensures
        0 <= i * m + j < n * m,
        chained(parts, n)[i * m + j] == parts[i][j],
    decreases n,
{
    chained_length(parts, n, m);
    chained_length(parts, (n - 1) as nat, m);
    assert(0 <= i * m + j < n * m) by (nonlinear_arith)
        requires
            0 <= i < n,
            0 <= j < m,
    ;
    if i < n - 1 {
        chained_at(parts, (n - 1) as nat, m, i, j);
    }
}

/// Member `(i, j)` of a matrix with `c` columns lies at `i c + j`.
pub proof fn matrices_lie_row_by_row<T>(a: Arr2<T>, i: int, j: int)
    requires
        a.wf(),
        0 <= i < a.rows,
        0 <= j < a.cols,
    ensures
        0 <= i * a.cols + j < flat2(a).len(),
        flat2(a)[i * a.cols + j] == a.at(i, j),
{
    chained_length(a.data, a.rows, a.cols);
    chained_at(a.data, a.rows, a.cols, i, j);
}

/// Member `(i, j, k)` of an array of rank 3 whose last extents are `b` and `d` lies at
/// `(i b + j) d + k`.
pub proof fn cubes_lie_row_by_row<T>(a: Arr3<T>, i: int, j: int, k: int)
    requires
        a.wf(),
        0 <= i < a.n,
        0 <= j < a.b,
        0 <= k < a.d,
    ensures
        0 <= (i * a.b + j) * a.d + k < flat3(a).len(),
        flat3(a)[(i * a.b + j) * a.d + k] == a.at(i, j, k),
{
    let parts = Seq::new(a.n, |p: int| chained(a.data[p], a.b));
    let m = a.b * a.d;
    assert forall|p: int| 0 <= p < a.n implies (#[trigger] parts[p]).len() == m by {
        assert forall|q: int| 0 <= q < a.b implies (#[trigger] a.data[p][q]).len() == a.d by {}
        chained_length(a.data[p], a.b, a.d);
    }
    assert forall|q: int| 0 <= q < a.b implies (#[trigger] a.data[i][q]).len() == a.d by {}
    chained_at(a.data[i], a.b, a.d, j, k);
    chained_length(parts, a.n, m);
    chained_at(parts, a.n, m, i, j * a.d + k);
    assert(i * (a.b * a.d) + (j * a.d + k) == (i * a.b + j) * a.d + k) by (nonlinear_arith);
}

/// An array of rank 3 laid out in a row and cut by its extents is that array again.
pub proof fn cubes_are_restored<T>(a: Arr3<T>)
    requires
        a.wf(),
    ensures
        cube_of(flat3(a), a.n, a.b, a.d) == a,
{
    let c = cube_of(flat3(a), a.n, a.b, a.d);
    assert forall|i: int, j: int, k: int| 0 <= i < a.n && 0 <= j < a.b && 0 <= k < a.d implies #[trigger] c.at(
        i,
        j,
        k,
    ) == a.at(i, j, k) by {
        cubes_lie_row_by_row(a, i, j, k);
    }
    arr3_ext(c, a);
}

/// Every comparison was made, and none failed.
pub open spec fn finds_no_fault<S: Scalar>(c: Comparison<S>) -> bool {
    c.stopped is None && c.report.failures@.len() == 0
}

/// The recorded array of this name has this shape, and members within the tolerance of these.
#[verifier::opaque]
pub open spec fn shows<S: Scalar>(npz: &Npz, name: Seq<char>, shape: Seq<usize>, data: Seq<S>, tol: S) -> bool {
    numbers_in::<S>(npz, name) matches Ok(a) && a.shape == shape && all_close(data, a.data, tol, tol)
}

/// Along its first axis, entry `k` of the recorded array of this name has this shape, and members
/// within the tolerance of these.
#[verifier::opaque]
pub open spec fn shows_at<S: Scalar>(
    npz: &Npz,
    name: Seq<char>,
    k: nat,
    shape: Seq<usize>,
    data: Seq<S>,
    tol: S,
) -> bool {
    let m = member_count(shape);
    numbers_in::<S>(npz, name) matches Ok(a) && {
        &&& a.shape.len() > 0
        &&& k < a.shape[0]
        &&& a.shape.skip(1) == shape
        &&& all_close(data, a.data.subrange((k * m) as int, (k * m + m) as int), tol, tol)
    }
}

/// The recorded array of this name has this shape and these members.
pub open spec fn holds(npz: &Npz, name: Seq<char>, shape: Seq<usize>, data: Seq<i64>) -> bool {
    integers_in(npz, name) matches Ok(a) && a.shape == shape && a.data == data
}

pub open spec fn extents2<T>(a: Arr2<T>) -> Seq<usize> {
    seq![a.rows as usize, a.cols as usize]
}

pub open spec fn extents3<T>(a: Arr3<T>) -> Seq<usize> {
    seq![a.n as usize, a.b as usize, a.d as usize]
}

proof fn no_names_failed<S: Scalar>(rows: Seq<Row<S>>, n: nat)
    requires
        failed_names(rows, n).len() == 0,
    ensures
        forall|i: int| 0 <= i < n ==> (#[trigger] rows[i]).passes(),
    decreases n,
{
    if n > 0 {
        no_names_failed(rows, (n - 1) as nat);
    }
}

/// The comparison was made, and passed.
#[verifier::opaque]
pub open spec fn check_shows<S: Scalar>(check: CheckModel<S>, batch: &Npz, trace: &Npz) -> bool {
    exists|row: Row<S>| #[trigger] row_is(row, check, batch, trace) && row.passes()
}

proof fn every_check_shows<S: Scalar>(
    c: Comparison<S>,
    checks: Seq<CheckModel<S>>,
    batch: &Npz,
    trace: &Npz,
)
    requires
        replayed(c, checks, batch, trace),
        finds_no_fault(c),
    ensures
        all_show(checks, batch, trace),
{
    reveal(check_shows);
    let names = c.report.failures@.map_values(|name: String| name@);
    assert(names.len() == 0);
    no_names_failed(c.rows@, c.rows@.len());
    assert forall|i: int| 0 <= i < checks.len() implies check_shows(#[trigger] checks[i], batch, trace) by {
        assert(row_is(c.rows@[i], checks[i], batch, trace));
        assert(c.rows@[i].passes());
    }
}

proof fn numbers_show<S: Scalar>(check: CheckModel<S>, batch: &Npz, trace: &Npz)
    requires
        check_shows(check, batch, trace),
    ensures
        match check {
            CheckModel::Numbers { got, want, tol, .. } => wanted_of(want, batch, trace) matches Ok(w)
                && w.shape == got.shape && all_close(got.data, w.data, tol, tol),
            CheckModel::Integers { got, archive, stored, .. } => holds(
                archive_of(archive, batch, trace),
                stored,
                got.shape,
                got.data,
            ),
            CheckModel::Pattern { got, stored, .. } => trace.entry(stored) matches Some(e) && (e.data matches NpzData::Single(
                bits,
            ) && bits@.len() > 0 && bits@[0] == got),
            CheckModel::Unfit { .. } => false,
        },
{
    reveal(check_shows);
    let row = choose|row: Row<S>| #[trigger] row_is(row, check, batch, trace) && row.passes();
    match (check, row.verdict) {
        (CheckModel::Numbers { got, want, tol, .. }, Verdict::Numbers { outcome, .. }) => {
            let w = wanted_of(want, batch, trace)->Ok_0;
            passing_arrays_are_close(got.shape, got.data, w.shape, w.data, tol, tol, outcome);
        },
        _ => {},
    }
}

proof fn slab_shows<S: Scalar>(
    label: Seq<char>,
    stored: Seq<char>,
    k: nat,
    got: PlainModel<S>,
    tol: S,
    batch: &Npz,
    trace: &Npz,
)
    requires
        check_shows(slab_check(label, stored, k, got, tol), batch, trace),
    ensures
        shows_at(trace, stored, k, got.shape, got.data, tol),
{
    reveal(shows_at);
    numbers_show(slab_check(label, stored, k, got, tol), batch, trace);
}

proof fn stored_shows<S: Scalar>(
    name: Seq<char>,
    got: PlainModel<S>,
    archive: Archive,
    tol: S,
    batch: &Npz,
    trace: &Npz,
)
    requires
        check_shows(numbers_check(name, got, archive, tol), batch, trace),
    ensures
        shows(archive_of(archive, batch, trace), name, got.shape, got.data, tol),
{
    reveal(shows);
    numbers_show(numbers_check(name, got, archive, tol), batch, trace);
}

proof fn batch_holds<S: Scalar>(name: Seq<char>, got: PlainModel<i64>, batch: &Npz, trace: &Npz)
    requires
        check_shows(integers_check::<S>(name, got, Archive::Batch), batch, trace),
    ensures
        holds(batch, name, got.shape, got.data),
{
    numbers_show(integers_check::<S>(name, got, Archive::Batch), batch, trace);
}

/// All of the comparisons were made, and passed.
pub open spec fn all_show<S: Scalar>(checks: Seq<CheckModel<S>>, batch: &Npz, trace: &Npz) -> bool {
    forall|j: int| 0 <= j < checks.len() ==> check_shows(#[trigger] checks[j], batch, trace)
}

proof fn halves_show<S: Scalar>(a: Seq<CheckModel<S>>, b: Seq<CheckModel<S>>, batch: &Npz, trace: &Npz)
    requires
        all_show(a + b, batch, trace),
    ensures
        all_show(a, batch, trace),
        all_show(b, batch, trace),
{
    assert forall|j: int| 0 <= j < a.len() implies check_shows(#[trigger] a[j], batch, trace) by {
        assert((a + b)[j] == a[j]);
    }
    assert forall|j: int| 0 <= j < b.len() implies check_shows(#[trigger] b[j], batch, trace) by {
        assert((a + b)[a.len() + j] == b[j]);
    }
}

proof fn parts_show<S: Scalar>(parts: Seq<Seq<CheckModel<S>>>, n: nat, batch: &Npz, trace: &Npz, k: int)
    requires
        n <= parts.len(),
        0 <= k < n,
        all_show(chained(parts, n), batch, trace),
    ensures
        all_show(parts[k], batch, trace),
    decreases n,
{
    halves_show(chained(parts, (n - 1) as nat), parts[n - 1], batch, trace);
    if k < n - 1 {
        parts_show(parts, (n - 1) as nat, batch, trace, k);
    }
}

/// Every section of the plan was made and passed.
#[verifier::opaque]
spec fn sections_show<S: Scalar>(
    model: &SheafAdmmModel<S>,
    tokens: Arr3<i64>,
    total: nat,
    batch: &Npz,
    trace: &Npz,
) -> bool {
    let scene = scene_of(&model.config, tokens);
    &&& all_show(scene_checks(&model.config, scene), batch, trace)
    &&& all_show(encoder_checks(model, scene), batch, trace)
    &&& all_show(map_checks(model, scene), batch, trace)
    &&& all_show(
        seq![CheckModel::<S>::Pattern { name: "rho"@, got: model.rho.spec_to_bits(), stored: "rho"@ }],
        batch,
        trace,
    )
    &&& all_show(
        chained(Seq::new(total, |k: int| step_checks(model, scene, k as nat, total)), total),
        batch,
        trace,
    )
    &&& all_show(final_checks(model, scene, tokens, total), batch, trace)
}

proof fn nine_sections_show<S: Scalar>(
    s1: Seq<CheckModel<S>>,
    s2: Seq<CheckModel<S>>,
    s3: Seq<CheckModel<S>>,
    s4: Seq<CheckModel<S>>,
    s5: Seq<CheckModel<S>>,
    s6: Seq<CheckModel<S>>,
    s7: Seq<CheckModel<S>>,
    s8: Seq<CheckModel<S>>,
    s9: Seq<CheckModel<S>>,
    batch: &Npz,
    trace: &Npz,
)
    requires
        all_show(s1 + s2 + s3 + s4 + s5 + s6 + s7 + s8 + s9, batch, trace),
    ensures
        all_show(s1, batch, trace),
        all_show(s2, batch, trace),
        all_show(s4, batch, trace),
        all_show(s6, batch, trace),
        all_show(s8, batch, trace),
        all_show(s9, batch, trace),
{
    halves_show(s1 + s2 + s3 + s4 + s5 + s6 + s7 + s8, s9, batch, trace);
    halves_show(s1 + s2 + s3 + s4 + s5 + s6 + s7, s8, batch, trace);
    halves_show(s1 + s2 + s3 + s4 + s5 + s6, s7, batch, trace);
    halves_show(s1 + s2 + s3 + s4 + s5, s6, batch, trace);
    halves_show(s1 + s2 + s3 + s4, s5, batch, trace);
    halves_show(s1 + s2 + s3, s4, batch, trace);
    halves_show(s1 + s2, s3, batch, trace);
    halves_show(s1, s2, batch, trace);
}

proof fn whole_plan_shows<S: Scalar>(
    c: Comparison<S>,
    model: &SheafAdmmModel<S>,
    tokens: Arr3<i64>,
    total: nat,
    batch: &Npz,
    trace: &Npz,
)
    requires
        replayed(c, plan_of(model, tokens, total, trace), batch, trace),
        finds_no_fault(c),
    ensures
        sections_show(model, tokens, total, batch, trace),
{
    reveal(sections_show);
    every_check_shows(c, plan_of(model, tokens, total, trace), batch, trace);
    let scene = scene_of(&model.config, tokens);
    nine_sections_show(
        scene_checks(&model.config, scene),
        encoder_checks(model, scene),
        awaited::<S>(trace, factor_names()),
        map_checks(model, scene),
        gather_checks(model, scene, trace),
        seq![CheckModel::<S>::Pattern { name: "rho"@, got: model.rho.spec_to_bits(), stored: "rho"@ }],
        awaited::<S>(trace, step_names()),
        chained(Seq::new(total, |k: int| step_checks(model, scene, k as nat, total)), total),
        final_checks(model, scene, tokens, total),
        batch,
        trace,
    );
}

proof fn scene_shows<S: Scalar>(config: &ExportedConfig<S>, scene: SceneModel<S>, batch: &Npz, trace: &Npz)
    requires
        all_show(scene_checks(config, scene), batch, trace),
    ensures
        holds(batch, "centers"@, extents2(scene.centers), flat2(scene.centers)),
        holds(batch, "edges"@, plain_edges(scene.graph.edges).shape, plain_edges(scene.graph.edges).data),
        shows(
            batch,
            "node_positions"@,
            plain2(positions_of::<S>(scene.centers)).shape,
            flat2(positions_of::<S>(scene.centers)),
            S::spec_zero(),
        ),
        shows(
            batch,
            "patches"@,
            plain5(scene.patches, config.task.patch_size, config.task.num_classes).shape,
            flat3(scene.patches),
            S::spec_zero(),
        ),
        holds(batch, "dir_uv"@, plain_dirs(scene.graph.dir_uv).shape, plain_dirs(scene.graph.dir_uv).data),
        holds(batch, "dir_vu"@, plain_dirs(scene.graph.dir_vu).shape, plain_dirs(scene.graph.dir_vu).data),
{
    let s = scene_checks(config, scene);
    let t = &config.task;
    let g = scene.graph;
    assert(check_shows(s[0], batch, trace) && check_shows(s[1], batch, trace) && check_shows(s[2], batch, trace));
    assert(check_shows(s[3], batch, trace) && check_shows(s[4], batch, trace) && check_shows(s[5], batch, trace));
    batch_holds::<S>("centers"@, plain2(scene.centers), batch, trace);
    batch_holds::<S>("edges"@, plain_edges(g.edges), batch, trace);
    stored_shows(
        "node_positions"@,
        plain2(positions_of::<S>(scene.centers)),
        Archive::Batch,
        S::spec_zero(),
        batch,
        trace,
    );
    stored_shows(
        "patches"@,
        plain5(scene.patches, t.patch_size, t.num_classes),
        Archive::Batch,
        S::spec_zero(),
        batch,
        trace,
    );
    batch_holds::<S>("dir_uv"@, plain_dirs(g.dir_uv), batch, trace);
    batch_holds::<S>("dir_vu"@, plain_dirs(g.dir_vu), batch, trace);
}

proof fn edges_lie_in_pairs(edges: Seq<(int, int)>, e: int)
    requires
        0 <= e < edges.len(),
    ensures
        plain_edges(edges).data[2 * e] == edges[e].0 as i64,
        plain_edges(edges).data[2 * e + 1] == edges[e].1 as i64,
{
    let pairs = Seq::new(edges.len(), |e: int| seq![edges[e].0 as i64, edges[e].1 as i64]);
    chained_at(pairs, edges.len(), 2, e, 0);
    chained_at(pairs, edges.len(), 2, e, 1);
}

proof fn steps_show<S: Scalar>(
    k: nat,
    x: Arr3<S>,
    z: Arr3<S>,
    y: Arr3<S>,
    primal: Arr2<S>,
    dual: Arr2<S>,
    consistency: PlainModel<S>,
    logits: PlainModel<S>,
    tol: S,
    batch: &Npz,
    trace: &Npz,
)
    requires
        all_show(
            seq![
                slab_check("x"@, "x"@, k, plain3(x), tol),
                slab_check("z"@, "z"@, k, plain3(z), tol),
                slab_check("y"@, "y"@, k, plain3(y), tol),
                slab_check("primal_res"@, "primal_res"@, k, plain2(primal), tol),
                slab_check("dual_res"@, "dual_res"@, k, plain2(dual), tol),
                slab_check("consistency"@, "consistency"@, k, consistency, tol),
                slab_check("logits"@, "logits_per_iter"@, k, logits, tol),
            ],
            batch,
            trace,
        ),
    ensures
        shows_at(trace, "x"@, k, extents3(x), flat3(x), tol),
        shows_at(trace, "z"@, k, extents3(z), flat3(z), tol),
        shows_at(trace, "y"@, k, extents3(y), flat3(y), tol),
        shows_at(trace, "primal_res"@, k, extents2(primal), flat2(primal), tol),
        shows_at(trace, "dual_res"@, k, extents2(dual), flat2(dual), tol),
        shows_at(trace, "consistency"@, k, consistency.shape, consistency.data, tol),
        shows_at(trace, "logits_per_iter"@, k, logits.shape, logits.data, tol),
{
    let s = seq![
        slab_check("x"@, "x"@, k, plain3(x), tol),
        slab_check("z"@, "z"@, k, plain3(z), tol),
        slab_check("y"@, "y"@, k, plain3(y), tol),
        slab_check("primal_res"@, "primal_res"@, k, plain2(primal), tol),
        slab_check("dual_res"@, "dual_res"@, k, plain2(dual), tol),
        slab_check("consistency"@, "consistency"@, k, consistency, tol),
        slab_check("logits"@, "logits_per_iter"@, k, logits, tol),
    ];
    assert(check_shows(s[0], batch, trace) && check_shows(s[1], batch, trace) && check_shows(s[2], batch, trace));
    assert(check_shows(s[3], batch, trace) && check_shows(s[4], batch, trace) && check_shows(s[5], batch, trace));
    assert(check_shows(s[6], batch, trace));
    slab_shows("x"@, "x"@, k, plain3(x), tol, batch, trace);
    slab_shows("z"@, "z"@, k, plain3(z), tol, batch, trace);
    slab_shows("y"@, "y"@, k, plain3(y), tol, batch, trace);
    slab_shows("primal_res"@, "primal_res"@, k, plain2(primal), tol, batch, trace);
    slab_shows("dual_res"@, "dual_res"@, k, plain2(dual), tol, batch, trace);
    slab_shows("consistency"@, "consistency"@, k, consistency, tol, batch, trace);
    slab_shows("logits"@, "logits_per_iter"@, k, logits, tol, batch, trace);
}

proof fn encoding_shows<S: Scalar>(
    h: Arr3<S>,
    q_diag: Arr3<S>,
    q: Arr3<S>,
    l1: Arr3<S>,
    upper: Arr3<S>,
    batch: &Npz,
    trace: &Npz,
)
    requires
        all_show(
            seq![numbers_check("enc_h"@, plain3(h), Archive::Trace, encoder_tolerance())] + objective_checks(
                ObjectiveModel::L1Box { q_diag, q, l1, upper },
            ),
            batch,
            trace,
        ),
    ensures
        shows(trace, "enc_h"@, extents3(h), flat3(h), S::spec_decimal(1, -5)),
        shows(trace, "enc_q_diag"@, extents3(q_diag), flat3(q_diag), S::spec_decimal(1, -5)),
        shows(trace, "enc_q"@, extents3(q), flat3(q), S::spec_decimal(1, -5)),
        shows(trace, "enc_l1_weight"@, extents3(l1), flat3(l1), S::spec_decimal(1, -5)),
        shows(trace, "enc_upper"@, extents3(upper), flat3(upper), S::spec_decimal(1, -5)),
{
    let tol = S::spec_decimal(1, -5);
    let o = objective_checks(ObjectiveModel::L1Box { q_diag, q, l1, upper });
    let a = seq![numbers_check("enc_h"@, plain3(h), Archive::Trace, encoder_tolerance())];
    halves_show(a, o, batch, trace);
    assert(check_shows(a[0], batch, trace) && check_shows(o[0], batch, trace) && check_shows(o[1], batch, trace));
    assert(check_shows(o[2], batch, trace) && check_shows(o[3], batch, trace));
    stored_shows("enc_h"@, plain3(h), Archive::Trace, tol, batch, trace);
    stored_shows("enc_q_diag"@, plain3(q_diag), Archive::Trace, tol, batch, trace);
    stored_shows("enc_q"@, plain3(q), Archive::Trace, tol, batch, trace);
    stored_shows("enc_l1_weight"@, plain3(l1), Archive::Trace, tol, batch, trace);
    stored_shows("enc_upper"@, plain3(upper), Archive::Trace, tol, batch, trace);
}

proof fn steps_of_scene_show<S: Scalar>(
    model: &SheafAdmmModel<S>,
    scene: SceneModel<S>,
    k: nat,
    total: nat,
    batch: &Npz,
    trace: &Npz,
)
    requires
        all_show(step_checks(model, scene, k, total), batch, trace),
    ensures
        ({
            let problem = model.problem(scene.graph, scene.patches);
            let seed = model.seed(scene.patches);
            let before = problem.iterate(seed, k);
            let after = problem.iterate(seed, k + 1);
            let tol = iter_tol_of::<S>(k, total);
            let primal = distances(problem.relaxed(before), after.z);
            let dual = weighted_distances(problem.rho, after.z, before.z);
            let consistency = consistency_of(problem.ops.residuals_of(after.z));
            let logits = model.decoder.logits_of(after.x, scene.patches);
            let side = model.config.task.patch_size;
            &&& shows_at(trace, "x"@, k, extents3(after.x), flat3(after.x), tol)
            &&& shows_at(trace, "z"@, k, extents3(after.z), flat3(after.z), tol)
            &&& shows_at(trace, "y"@, k, extents3(after.y), flat3(after.y), tol)
            &&& shows_at(trace, "primal_res"@, k, extents2(primal), flat2(primal), tol)
            &&& shows_at(trace, "dual_res"@, k, extents2(dual), flat2(dual), tol)
            &&& shows_at(trace, "consistency"@, k, seq![consistency.len() as usize], consistency, tol)
            &&& shows_at(
                trace,
                "logits_per_iter"@,
                k,
                seq![logits.n as usize, logits.b as usize, side, side, model.config.model.num_classes],
                flat3(logits),
                tol,
            )
        }),
{
    let problem = model.problem(scene.graph, scene.patches);
    let seed = model.seed(scene.patches);
    let before = problem.iterate(seed, k);
    let after = problem.iterate(seed, k + 1);
    let tol = iter_tol_of::<S>(k, total);
    let primal = distances(problem.relaxed(before), after.z);
    let dual = weighted_distances(problem.rho, after.z, before.z);
    let consistency = consistency_of(problem.ops.residuals_of(after.z));
    let logits = model.decoder.logits_of(after.x, scene.patches);
    let side = model.config.task.patch_size;
    steps_show(
        k,
        after.x,
        after.z,
        after.y,
        primal,
        dual,
        PlainModel { shape: seq![consistency.len() as usize], data: consistency },
        plain5(logits, side, model.config.model.num_classes),
        tol,
        batch,
        trace,
    );
}

proof fn step_section_shows<S: Scalar>(
    model: &SheafAdmmModel<S>,
    scene: SceneModel<S>,
    k: nat,
    total: nat,
    batch: &Npz,
    trace: &Npz,
)
    requires
        k < total,
        all_show(
            chained(Seq::new(total, |k: int| step_checks(model, scene, k as nat, total)), total),
            batch,
            trace,
        ),
    ensures
        all_show(step_checks(model, scene, k, total), batch, trace),
{
    let parts = Seq::new(total, |k: int| step_checks(model, scene, k as nat, total));
    parts_show(parts, total, batch, trace, k as int);
    assert(parts[k as int] == step_checks(model, scene, k, total));
}

/// The batch holds the agents, edges, positions, patches and slots of the scene.
#[verifier::opaque]
pub open spec fn holds_scene<S: Scalar>(config: &ExportedConfig<S>, scene: SceneModel<S>, batch: &Npz) -> bool {
    let zero = S::spec_zero();
    let t = &config.task;
    let patches = scene.patches;
    &&& holds(batch, "centers"@, extents2(scene.centers), flat2(scene.centers))
    &&& integers_in(batch, "edges"@) matches Ok(a) && {
        &&& a.shape == seq![scene.graph.edges.len() as usize, 2usize]
        &&& forall|e: int|
            0 <= e < scene.graph.edges.len() ==> {
                &&& a.data[2 * e] == (#[trigger] scene.graph.edges[e]).0 as i64
                &&& a.data[2 * e + 1] == scene.graph.edges[e].1 as i64
            }
    }
    &&& shows(
        batch,
        "node_positions"@,
        extents2(positions_of::<S>(scene.centers)),
        flat2(positions_of::<S>(scene.centers)),
        zero,
    )
    &&& shows(
        batch,
        "patches"@,
        seq![patches.n as usize, patches.b as usize, t.patch_size, t.patch_size, t.num_classes],
        flat3(patches),
        zero,
    )
    &&& integers_in(batch, "dir_uv"@) matches Ok(a) && forall|e: int|
        0 <= e < scene.graph.dir_uv.len() ==> #[trigger] a.data[e] == scene.graph.dir_uv[e] as i64
    &&& integers_in(batch, "dir_vu"@) matches Ok(a) && forall|e: int|
        0 <= e < scene.graph.dir_vu.len() ==> #[trigger] a.data[e] == scene.graph.dir_vu[e] as i64
}

proof fn scene_is_held<S: Scalar>(config: &ExportedConfig<S>, scene: SceneModel<S>, batch: &Npz, trace: &Npz)
    requires
        all_show(scene_checks(config, scene), batch, trace),
    ensures
        holds_scene(config, scene, batch),
{
    reveal(holds_scene);
    scene_shows(config, scene, batch, trace);
    assert forall|e: int| 0 <= e < scene.graph.edges.len() implies {
        let d = plain_edges(scene.graph.edges).data;
        &&& d[2 * e] == (#[trigger] scene.graph.edges[e]).0 as i64
        &&& d[2 * e + 1] == scene.graph.edges[e].1 as i64
    } by {
        edges_lie_in_pairs(scene.graph.edges, e);
    }
}

/// A comparison that finds no fault shows that the batch holds the agents, edges, positions,
/// patches and slots that its mazes have, to the bit.
pub proof fn faultless_batches_hold_the_scene<S: Scalar>(
    c: Comparison<S>,
    model: &SheafAdmmModel<S>,
    tokens: Arr3<i64>,
    total: nat,
    batch: &Npz,
    trace: &Npz,
)
    requires
        replayed(c, plan_of(model, tokens, total, trace), batch, trace),
        finds_no_fault(c),
    ensures
        holds_scene(&model.config, scene_of(&model.config, tokens), batch),
{
    whole_plan_shows(c, model, tokens, total, batch, trace);
    let scene = scene_of(&model.config, tokens);
    assert(all_show(scene_checks(&model.config, scene), batch, trace)) by {
        reveal(sections_show);
    }
    scene_is_held(&model.config, scene, batch, trace);
}

/// A comparison that finds no fault shows that the trace holds what the encoder yields for the
/// patches, each head under its own name, and the penalty to the bit.
pub proof fn faultless_traces_hold_the_encoding<S: Scalar>(
    c: Comparison<S>,
    model: &SheafAdmmModel<S>,
    tokens: Arr3<i64>,
    total: nat,
    batch: &Npz,
    trace: &Npz,
)
    requires
        replayed(c, plan_of(model, tokens, total, trace), batch, trace),
        finds_no_fault(c),
    ensures
        ({
            let patches = scene_of(&model.config, tokens).patches;
            let tol = S::spec_decimal(1, -5);
            let h = model.encoder.h_of(patches);
            &&& shows(trace, "enc_h"@, extents3(h), flat3(h), tol)
            &&& model.encoder.objective_of(patches) matches ObjectiveModel::L1Box { q_diag, q, l1, upper } && {
                &&& shows(trace, "enc_q_diag"@, extents3(q_diag), flat3(q_diag), tol)
                &&& shows(trace, "enc_q"@, extents3(q), flat3(q), tol)
                &&& shows(trace, "enc_l1_weight"@, extents3(l1), flat3(l1), tol)
                &&& shows(trace, "enc_upper"@, extents3(upper), flat3(upper), tol)
            }
            &&& trace.entry("rho"@) matches Some(e) && (e.data matches NpzData::Single(bits) && bits@.len() > 0
                && bits@[0] == model.rho.spec_to_bits())
        }),
{
    whole_plan_shows(c, model, tokens, total, batch, trace);
    let scene = scene_of(&model.config, tokens);
    let p = seq![CheckModel::<S>::Pattern { name: "rho"@, got: model.rho.spec_to_bits(), stored: "rho"@ }];
    assert(all_show(encoder_checks(model, scene), batch, trace) && all_show(p, batch, trace)) by {
        reveal(sections_show);
    }
    let h = model.encoder.h_of(scene.patches);
    match model.encoder.objective_of(scene.patches) {
        ObjectiveModel::L1Box { q_diag, q, l1, upper } => {
            encoding_shows(h, q_diag, q, l1, upper, batch, trace);
        },
        _ => {},
    }
    numbers_show(p[0], batch, trace);
}

/// A comparison that finds no fault shows that entry `k` of the trace holds the state after
/// iteration `k`, how far it moved in that iteration, and what is decoded from it, within the
/// tolerance of that iteration.
pub proof fn faultless_traces_hold_the_iterates<S: Scalar>(
    c: Comparison<S>,
    model: &SheafAdmmModel<S>,
    tokens: Arr3<i64>,
    total: nat,
    batch: &Npz,
    trace: &Npz,
    k: nat,
)
    requires
        replayed(c, plan_of(model, tokens, total, trace), batch, trace),
        finds_no_fault(c),
        k < total,
    ensures
        ({
            let scene = scene_of(&model.config, tokens);
            let problem = model.problem(scene.graph, scene.patches);
            let seed = model.seed(scene.patches);
            let before = problem.iterate(seed, k);
            let after = problem.iterate(seed, k + 1);
            let tol = iter_tol_of::<S>(k, total);
            let primal = distances(problem.relaxed(before), after.z);
            let dual = weighted_distances(problem.rho, after.z, before.z);
            let consistency = consistency_of(problem.ops.residuals_of(after.z));
            let logits = model.decoder.logits_of(after.x, scene.patches);
            let side = model.config.task.patch_size;
            &&& shows_at(trace, "x"@, k, extents3(after.x), flat3(after.x), tol)
            &&& shows_at(trace, "z"@, k, extents3(after.z), flat3(after.z), tol)
            &&& shows_at(trace, "y"@, k, extents3(after.y), flat3(after.y), tol)
            &&& shows_at(trace, "primal_res"@, k, extents2(primal), flat2(primal), tol)
            &&& shows_at(trace, "dual_res"@, k, extents2(dual), flat2(dual), tol)
            &&& shows_at(trace, "consistency"@, k, seq![consistency.len() as usize], consistency, tol)
            &&& shows_at(
                trace,
                "logits_per_iter"@,
                k,
                seq![logits.n as usize, logits.b as usize, side, side, model.config.model.num_classes],
                flat3(logits),
                tol,
            )
        }),
{
    whole_plan_shows(c, model, tokens, total, batch, trace);
    let scene = scene_of(&model.config, tokens);
    assert(all_show(step_checks(model, scene, k, total), batch, trace)) by {
        reveal(sections_show);
        step_section_shows(model, scene, k, total, batch, trace);
    }
    steps_of_scene_show(model, scene, k, total, batch, trace);
}

proof fn finals_show<S: Scalar>(
    logits: PlainModel<S>,
    grids: PlainModel<S>,
    classes: PlainModel<i64>,
    tol: S,
    batch: &Npz,
    trace: &Npz,
)
    requires
        all_show(
            seq![
                numbers_check("logits_final"@, logits, Archive::Trace, tol),
                numbers_check("reassembled_final"@, grids, Archive::Trace, tol),
                integers_check("pred_grid"@, classes, Archive::Trace),
            ],
            batch,
            trace,
        ),
    ensures
        shows(trace, "logits_final"@, logits.shape, logits.data, tol),
        shows(trace, "reassembled_final"@, grids.shape, grids.data, tol),
        holds(trace, "pred_grid"@, classes.shape, classes.data),
{
    let s = seq![
        numbers_check("logits_final"@, logits, Archive::Trace, tol),
        numbers_check("reassembled_final"@, grids, Archive::Trace, tol),
        integers_check("pred_grid"@, classes, Archive::Trace),
    ];
    assert(check_shows(s[0], batch, trace) && check_shows(s[1], batch, trace) && check_shows(s[2], batch, trace));
    stored_shows("logits_final"@, logits, Archive::Trace, tol, batch, trace);
    stored_shows("reassembled_final"@, grids, Archive::Trace, tol, batch, trace);
    numbers_show(s[2], batch, trace);
}

/// The trace holds the logits of these proposals, agent by agent and put together for every
/// maze, and the classes that are read off the grids.
#[verifier::opaque]
pub open spec fn holds_answer<S: Scalar>(
    model: &SheafAdmmModel<S>,
    scene: SceneModel<S>,
    tokens: Arr3<i64>,
    x: Arr3<S>,
    tol: S,
    trace: &Npz,
) -> bool {
    let t = &model.config.task;
    let m = &model.config.model;
    let logits = model.decoder.logits_of(x, scene.patches);
    let grids = Seq::new(
        tokens.n,
        |b: int|
            reassembled(
                logits,
                scene.centers,
                t.patch_size as int,
                m.num_classes as nat,
                b,
                tokens.b,
                tokens.d,
            ),
    );
    let classes = Seq::new(tokens.n, |b: int| classes_of(grids[b], t.num_classes as nat));
    &&& shows(
        trace,
        "logits_final"@,
        seq![logits.n as usize, logits.b as usize, t.patch_size, t.patch_size, m.num_classes],
        flat3(logits),
        tol,
    )
    &&& shows(
        trace,
        "reassembled_final"@,
        seq![tokens.n as usize, tokens.b as usize, tokens.d as usize, m.num_classes],
        flat_list3(grids),
        tol,
    )
    &&& holds(
        trace,
        "pred_grid"@,
        seq![tokens.n as usize, tokens.b as usize, tokens.d as usize],
        flat_line(classes),
    )
}

proof fn answer_is_held<S: Scalar>(
    model: &SheafAdmmModel<S>,
    scene: SceneModel<S>,
    tokens: Arr3<i64>,
    total: nat,
    batch: &Npz,
    trace: &Npz,
)
    requires
        total > 0,
        all_show(final_checks(model, scene, tokens, total), batch, trace),
    ensures
        holds_answer(
            model,
            scene,
            tokens,
            model.problem(scene.graph, scene.patches).iterate(model.seed(scene.patches), total).x,
            iter_tol_of::<S>((total - 1) as nat, total),
            trace,
        ),
{
    reveal(holds_answer);
    let t = &model.config.task;
    let m = &model.config.model;
    let x = model.problem(scene.graph, scene.patches).iterate(model.seed(scene.patches), total).x;
    let logits = model.decoder.logits_of(x, scene.patches);
    let grids = all_reassembled(model, scene, logits, tokens.n, tokens.b, tokens.d);
    let classes = grids.map_values(|g: Arr3<S>| classes_of(g, t.num_classes as nat));
    assert(classes =~= Seq::new(tokens.n, |b: int| classes_of(grids[b], t.num_classes as nat)));
    finals_show(
        plain5(logits, t.patch_size, m.num_classes),
        PlainModel {
            shape: seq![tokens.n as usize, tokens.b as usize, tokens.d as usize, m.num_classes],
            data: flat_list3(grids),
        },
        plain_line_of(classes, tokens.b as usize, tokens.d as usize),
        iter_tol_of::<S>((total - 1) as nat, total),
        batch,
        trace,
    );
}

/// A comparison that finds no fault shows that the trace holds the answer of the run: what its
/// last state decodes to.
pub proof fn faultless_traces_hold_the_answer<S: Scalar>(
    c: Comparison<S>,
    model: &SheafAdmmModel<S>,
    tokens: Arr3<i64>,
    total: nat,
    batch: &Npz,
    trace: &Npz,
)
    requires
        replayed(c, plan_of(model, tokens, total, trace), batch, trace),
        finds_no_fault(c),
        total > 0,
    ensures
        ({
            let scene = scene_of(&model.config, tokens);
            let problem = model.problem(scene.graph, scene.patches);
            holds_answer(
                model,
                scene,
                tokens,
                problem.iterate(model.seed(scene.patches), total).x,
                iter_tol_of::<S>((total - 1) as nat, total),
                trace,
            )
        }),
{
    whole_plan_shows(c, model, tokens, total, batch, trace);
    let scene = scene_of(&model.config, tokens);
    assert(all_show(final_checks(model, scene, tokens, total), batch, trace)) by {
        reveal(sections_show);
    }
    answer_is_held(model, scene, tokens, total, batch, trace);
}

} // verus!
