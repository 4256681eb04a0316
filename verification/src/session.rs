//! A session over one maze model: one solve at a time, with per-iteration results kept for
//! polling.
use crate::admm::{distances, weighted_distances, Problem};
use crate::config::ExportedConfig;
use crate::demo::run_frame;
use crate::geometry::{consistency_of, SheafGeometry};
use crate::graph::{incidences, pairs_of, AgentGraph, Endpoint};
use crate::laws::order::{agent_measure_is_not_negative, not_negative, order_kept};
use crate::model::{Geometry, MazeForward, SheafAdmmModel};
use crate::readout::{argmax_frame, best_of, frame_of};
use crate::scalar::{accumulate_products, mul_acc, Scalar};
use crate::scene::{
    config_runs, grid_countable, grid_fits, loaded_weights_fit, modes_run, prepare_scene, scene_is_runnable, scene_of, weights_fit, Scene,
    SceneModel,
};
use crate::tensor::{Arr2, Arr3, Matrix, Tensor3};
use crate::text::{decimal_text, joined, numeral, wide_decimal_text};
use crate::views::{
    axis_count, centers_in, centers_of, reassemble_logits, reassembled, span_fits, TOKEN_GOAL, TOKEN_PATH,
    TOKEN_START,
};
use crate::weights::{
    first_mismatch, foreign, load_maze_model_from_bytes, maze_countable,
    maze_dims_of, maze_keys, maze_model_is, maze_scope, only_collections, product_fits,
    reports_mismatch, source_of, stored_tensors, WeightCollection, WeightsError,
};
use vstd::prelude::*;
use vstd::string::*;

verus! {

/// The most iterations that one solve may run.
pub const MAX_ITERATIONS: usize = 1000;

/// Why a session refused a request.
#[derive(Debug, Clone, Copy, PartialEq, Eq, Structural)]
pub enum SessionError {
    ZeroIterations,
    TooManyIterations { k: usize },
    GridTooSmall { height: usize, width: usize, patch_size: usize },
    LengthMismatch { found: usize, height: usize, width: usize },
    InvalidToken { token: u8, num_classes: usize },
    MissingEndpoints,
    NoAgents { height: usize, width: usize },
    NonFinite { iteration: usize },
    NotSolved,
    OutOfRange { iter: usize, k: usize },
}

impl SessionError {
    /// The text of an error.
    pub open spec fn text(self) -> Seq<char> {
        match self {
            SessionError::ZeroIterations => "k must be >= 1"@,
            SessionError::TooManyIterations { k } => "k="@ + numeral(k as nat) + " too large (max 1000)"@,
            SessionError::GridTooSmall { height, width, patch_size } => "grid "@ + numeral(height as nat) + "x"@
                + numeral(width as nat) + " smaller than patch_size "@ + numeral(patch_size as nat),
            SessionError::LengthMismatch { found, height, width } => "tokens length "@ + numeral(found as nat)
                + " != height*width = "@ + numeral((height * width) as nat),
            SessionError::InvalidToken { token, num_classes } => "invalid token "@ + numeral(token as nat)
                + " (tokens are 0.."@ + numeral(
                (if num_classes == 0 {
                    0int
                } else {
                    num_classes - 1
                }) as nat,
            ) + ")"@,
            SessionError::MissingEndpoints => "maze must contain a start (3) and a goal (4) cell"@,
            SessionError::NoAgents { height, width } => "grid "@ + numeral(height as nat) + "x"@ + numeral(
                width as nat,
            ) + " yields no agents"@,
            SessionError::NonFinite { iteration } => "non-finite residuals at iteration "@ + numeral(
                iteration as nat,
            ),
            SessionError::NotSolved => "no solve() has run yet"@,
            SessionError::OutOfRange { iter, k } => "iter "@ + numeral(iter as nat) + " out of range (k="@
                + numeral(k as nat) + ")"@,
        }
    }

    /// Describes the error.
    pub fn message(&self) -> (r: String)
        ensures
            r@ == self.text(),
    {
        match self {
            SessionError::ZeroIterations => "k must be >= 1".to_owned(),
            SessionError::TooManyIterations { k } => {
                let mut out = joined("k=", decimal_text(*k).as_str());
                out.append(" too large (max 1000)");
                out
            },
            SessionError::GridTooSmall { height, width, patch_size } => {
                let mut out = joined("grid ", decimal_text(*height).as_str());
                out.append("x");
                out.append(decimal_text(*width).as_str());
                out.append(" smaller than patch_size ");
                out.append(decimal_text(*patch_size).as_str());
                out
            },
            SessionError::LengthMismatch { found, height, width } => {
                let mut out = joined("tokens length ", decimal_text(*found).as_str());
                out.append(" != height*width = ");
                assert(*height * *width <= u128::MAX) by (nonlinear_arith)
                    requires
                        0 <= *height <= 0xFFFF_FFFF_FFFF_FFFF,
                        0 <= *width <= 0xFFFF_FFFF_FFFF_FFFF,
                ;
                out.append(wide_decimal_text(*height as u128 * *width as u128).as_str());
                out
            },
            SessionError::InvalidToken { token, num_classes } => {
                let mut out = joined("invalid token ", decimal_text(*token as usize).as_str());
                out.append(" (tokens are 0..");
                let last = if *num_classes == 0 {
                    0
                } else {
                    *num_classes - 1
                };
                out.append(decimal_text(last).as_str());
                out.append(")");
                out
            },
            SessionError::MissingEndpoints => "maze must contain a start (3) and a goal (4) cell".to_owned(),
            SessionError::NoAgents { height, width } => {
                let mut out = joined("grid ", decimal_text(*height).as_str());
                out.append("x");
                out.append(decimal_text(*width).as_str());
                out.append(" yields no agents");
                out
            },
            SessionError::NonFinite { iteration } => joined(
                "non-finite residuals at iteration ",
                decimal_text(*iteration).as_str(),
            ),
            SessionError::NotSolved => "no solve() has run yet".to_owned(),
            SessionError::OutOfRange { iter, k } => {
                let mut out = joined("iter ", decimal_text(*iter).as_str());
                out.append(" out of range (k=");
                out.append(decimal_text(*k).as_str());
                out.append(")");
                out
            },
        }
    }
}

/// What one solve leaves behind.
#[derive(Debug)]
struct SolveCache<S> {
    k: usize,
    /// Best class of each cell, for each iteration.
    frames: Vec<Vec<u8>>,
    /// Rows of consistency, primal and dual measure, for each iteration.
    residuals: Vec<S>,
    /// Root mean square edge residual of each agent, for each iteration.
    agent_cons: Vec<Vec<S>>,
    /// Rows of center y, center x and patch size, for each agent.
    agent_meta: Vec<u32>,
}

/// The contents of what one solve leaves behind.
#[verifier::ext_equal]
pub ghost struct SolveModel<S> {
    pub k: nat,
    pub frames: Seq<Seq<u8>>,
    pub residuals: Seq<S>,
    pub agent_cons: Seq<Seq<S>>,
    pub agent_meta: Seq<u32>,
}

impl<S: Scalar> SolveCache<S> {
    spec fn contents(&self) -> SolveModel<S> {
        SolveModel {
            k: self.k as nat,
            frames: self.frames@.map_values(|f: Vec<u8>| f@),
            residuals: self.residuals@,
            agent_cons: self.agent_cons@.map_values(|f: Vec<S>| f@),
            agent_meta: self.agent_meta@,
        }
    }
}

/// Session over one maze model.
#[derive(Debug)]
pub struct SessionCore<S> {
    model: SheafAdmmModel<S>,
    cache: Option<SolveCache<S>>,
}

/// The tokens as a batch of one image.
pub open spec fn image_of(tokens: Seq<u8>, height: nat, width: nat) -> Arr3<i64> {
    Arr3::build(1, height, width, |b: int, y: int, x: int| tokens[y * width + x] as i64)
}

/// Root mean square of the first batch column.
pub open spec fn column_rms<S: Scalar>(a: Arr2<S>) -> S {
    mul_acc(S::spec_zero(), a.column(0), a.column(0), a.rows).spec_over(
        S::spec_from_count(a.rows),
    ).spec_sqrt()
}

/// Squared residuals of the first `e` edges at each endpoint that is `node`.
pub open spec fn node_squares<S: Scalar>(r: Arr3<S>, edges: Seq<(int, int)>, node: int, e: nat) -> S
    decreases e,
{
    if e == 0 {
        S::spec_zero()
    } else {
        let row = r.data[e - 1][0];
        let before = node_squares(r, edges, node, (e - 1) as nat);
        let with_u = if edges[e - 1].0 == node {
            mul_acc(before, row, row, r.d)
        } else {
            before
        };
        if edges[e - 1].1 == node {
            mul_acc(with_u, row, row, r.d)
        } else {
            with_u
        }
    }
}

/// How many of the first `e` edges' endpoints are `node`.
pub open spec fn node_degree(edges: Seq<(int, int)>, node: int, e: nat) -> nat
    decreases e,
{
    if e == 0 {
        0
    } else {
        node_degree(edges, node, (e - 1) as nat) + (if edges[e - 1].0 == node {
            1nat
        } else {
            0
        }) + (if edges[e - 1].1 == node {
            1nat
        } else {
            0
        })
    }
}

/// Root mean square of the residuals at a node; the sum over nothing is divided by one.
pub open spec fn node_rms<S: Scalar>(r: Arr3<S>, edges: Seq<(int, int)>, node: int) -> S {
    let count = node_degree(edges, node, edges.len()) * r.d;
    node_squares(r, edges, node, edges.len()).spec_over(
        S::spec_from_count(
            if count == 0 {
                1
            } else {
                count
            },
        ),
    ).spec_sqrt()
}

/// Root mean square of the residuals at every node.
pub open spec fn agents_rms<S: Scalar>(r: Arr3<S>, edges: Seq<(int, int)>, n: nat) -> Seq<S> {
    Seq::new(n, |i: int| node_rms(r, edges, i))
}

/// Center y, center x and patch size of every agent.
pub open spec fn meta_of(centers: Arr2<i64>, patch_size: usize) -> Seq<u32> {
    Seq::new(
        3 * centers.rows,
        |j: int|
            (if j % 3 == 0 {
                centers.at(j / 3, 0) as int
            } else if j % 3 == 1 {
                centers.at(j / 3, 1) as int
            } else {
                patch_size as int
            } % 0x1_0000_0000) as u32,
    )
}

/// The three measures of one iteration: consistency, primal, dual.
pub open spec fn measures<S: Scalar>(problem: Problem<S>, seed: Arr3<S>, i: int) -> (S, S, S) {
    let before = problem.iterate(seed, i as nat);
    let after = problem.iterate(seed, (i + 1) as nat);
    (
        consistency_of(problem.ops.residuals_of(after.z))[0],
        column_rms(distances(problem.relaxed(before), after.z)),
        column_rms(weighted_distances(problem.rho, after.z, before.z)),
    )
}

pub open spec fn all_finite<S: Scalar>(m: (S, S, S)) -> bool {
    m.0.spec_is_finite() && m.1.spec_is_finite() && m.2.spec_is_finite()
}

/// What a solve of `k` iterations computes.
pub open spec fn solve_of<S: Scalar>(
    model: &SheafAdmmModel<S>,
    tokens: Seq<u8>,
    height: nat,
    width: nat,
    k: nat,
) -> SolveModel<S> {
    let config = &model.config;
    let scene = scene_of(config, image_of(tokens, height, width));
    let problem = model.problem(scene.graph, scene.patches);
    let seed = model.seed(scene.patches);
    SolveModel {
        k,
        frames: Seq::new(
            k,
            |i: int|
                frame_of(
                    reassembled(
                        model.decoder.logits_of(problem.iterate(seed, (i + 1) as nat).x, scene.patches),
                        scene.centers,
                        config.task.patch_size as int,
                        config.model.num_classes as nat,
                        0,
                        height,
                        width,
                    ),
                ),
        ),
        residuals: Seq::new(
            3 * k,
            |j: int|
                {
                    let m = measures(problem, seed, j / 3);
                    if j % 3 == 0 {
                        m.0
                    } else if j % 3 == 1 {
                        m.1
                    } else {
                        m.2
                    }
                },
        ),
        agent_cons: Seq::new(
            k,
            |i: int|
                agents_rms(
                    problem.ops.residuals_of(problem.iterate(seed, (i + 1) as nat).z),
                    scene.graph.edges,
                    scene.centers.rows,
                ),
        ),
        agent_meta: meta_of(scene.centers, config.task.patch_size),
    }
}

/// The measures of iteration `i` of a solve.
pub open spec fn measures_at<S: Scalar>(
    model: &SheafAdmmModel<S>,
    tokens: Seq<u8>,
    height: nat,
    width: nat,
    i: int,
) -> (S, S, S) {
    let scene = scene_of(&model.config, image_of(tokens, height, width));
    measures(model.problem(scene.graph, scene.patches), model.seed(scene.patches), i)
}

/// The first token that is no class, if there is one.
pub open spec fn first_bad(tokens: Seq<u8>, num_classes: usize) -> Option<u8>
    decreases tokens.len(),
{
    if tokens.len() == 0 {
        None
    } else if tokens[0] >= num_classes {
        Some(tokens[0])
    } else {
        first_bad(tokens.skip(1), num_classes)
    }
}

/// Why a request is refused before the model runs, if it is.
pub open spec fn refusal<S>(config: &ExportedConfig<S>, tokens: Seq<u8>, height: usize, width: usize, k: usize) -> Option<
    SessionError,
> {
    let t = &config.task;
    if k == 0 {
        Some(SessionError::ZeroIterations)
    } else if k > MAX_ITERATIONS {
        Some(SessionError::TooManyIterations { k })
    } else if height < t.patch_size || width < t.patch_size {
        Some(SessionError::GridTooSmall { height, width, patch_size: t.patch_size })
    } else if tokens.len() != height * width {
        Some(SessionError::LengthMismatch { found: tokens.len() as usize, height, width })
    } else {
        match first_bad(tokens, t.num_classes) {
            Some(token) => Some(SessionError::InvalidToken { token, num_classes: t.num_classes }),
            None => if !tokens.contains(TOKEN_START as u8) || !tokens.contains(TOKEN_GOAL as u8) {
                Some(SessionError::MissingEndpoints)
            } else if t.stride > 0 && centers_of(
                height as int,
                width as int,
                t.stride as int,
                t.patch_size as int,
            ).rows == 0 {
                Some(SessionError::NoAgents { height, width })
            } else {
                None
            },
        }
    }
}

/// What is answered to a request for a row of an iteration.
pub open spec fn row_reply<T>(solved: Option<(nat, Seq<Seq<T>>)>, iter: usize) -> Result<Seq<T>, SessionError> {
    match solved {
        None => Err(SessionError::NotSolved),
        Some((k, rows)) => if iter < k {
            Ok(rows[iter as int])
        } else {
            Err(SessionError::OutOfRange { iter, k: k as usize })
        },
    }
}

/// What is answered to a request for a frame.
pub open spec fn frame_reply<S>(solved: Option<SolveModel<S>>, iter: usize) -> Result<Seq<u8>, SessionError> {
    match solved {
        None => row_reply(None, iter),
        Some(s) => row_reply(Some((s.k, s.frames)), iter),
    }
}

/// What is answered to a request for the agents' measures.
pub open spec fn agents_reply<S>(solved: Option<SolveModel<S>>, iter: usize) -> Result<Seq<S>, SessionError> {
    match solved {
        None => row_reply(None, iter),
        Some(s) => row_reply(Some((s.k, s.agent_cons)), iter),
    }
}

/// What is answered to a request for the residuals.
pub open spec fn residuals_reply<S>(solved: Option<SolveModel<S>>) -> Result<Seq<S>, SessionError> {
    match solved {
        None => Err(SessionError::NotSolved),
        Some(s) => Ok(s.residuals),
    }
}

/// What is answered to a request for the agents' places.
pub open spec fn meta_reply<S>(solved: Option<SolveModel<S>>) -> Result<Seq<u32>, SessionError> {
    match solved {
        None => Err(SessionError::NotSolved),
        Some(s) => Ok(s.agent_meta),
    }
}

/// A slice or an error is what was to be answered.
pub open spec fn answers<T>(r: Result<&[T], SessionError>, reply: Result<Seq<T>, SessionError>) -> bool {
    match (r, reply) {
        (Ok(a), Ok(b)) => a@ == b,
        (Err(a), Err(b)) => a == b,
        _ => false,
    }
}

/// How many cells of a decoded frame are path cells.
pub fn path_cells(frame: &[u8]) -> (r: usize)
    ensures
        r == frame@.filter(|v: u8| v == TOKEN_PATH).len(),
{
    let mut count: usize = 0;
    for i in 0..frame.len()
        invariant
            count == frame@.take(i as int).filter(|v: u8| v == TOKEN_PATH).len(),
            count <= i,
    {
        proof {
            reveal(Seq::filter);
            assert(frame@.take(i + 1).drop_last() =~= frame@.take(i as int));
        }
        if frame[i] as i64 == TOKEN_PATH {
            count += 1;
        }
    }
    assert(frame@.take(frame@.len() as int) =~= frame@);
    count
}

/// Finds the first token that is no class.
fn find_bad(tokens: &[u8], num_classes: usize) -> (r: Option<u8>)
    ensures
        r == first_bad(tokens@, num_classes),
{
    assert(tokens@.skip(0) =~= tokens@);
    for i in 0..tokens.len()
        invariant
            first_bad(tokens@.skip(i as int), num_classes) == first_bad(tokens@, num_classes),
    {
        assert(tokens@.skip(i as int).skip(1) =~= tokens@.skip(i + 1));
        assert(tokens@.skip(i as int)[0] == tokens@[i as int]);
        if tokens[i] as usize >= num_classes {
            return Some(tokens[i]);
        }
    }
    None
}

/// Whether a token occurs.
fn has_token(tokens: &[u8], token: u8) -> (r: bool)
    ensures
        r == tokens@.contains(token),
{
    for i in 0..tokens.len()
        invariant
            forall|j: int| 0 <= j < i ==> tokens@[j] != token,
    {
        if tokens[i] == token {
            return true;
        }
    }
    false
}

/// Turns tokens into a batch of one image.
fn make_image(tokens: &[u8], height: usize, width: usize) -> (r: Tensor3<i64>)
    requires
        tokens@.len() == height * width,
    ensures
        r.wf(),
        r@ == image_of(tokens@, height as nat, width as nat),
{
    let size = tokens.len();
    Tensor3::from_shape_fn(
        1,
        height,
        width,
        |b: usize, y: usize, x: usize| -> (v: i64)
            requires
                size == tokens@.len(),
                tokens@.len() == height * width,
                y < height,
                x < width,
            ensures
                v == tokens@[y * width + x]
            {
                assert(0 <= y * width && y * width + x < height * width) by (nonlinear_arith)
                    requires
                        0 <= y < height,
                        0 <= x < width,
                ;
                tokens[y * width + x] as i64
            },
    )
}

/// Computes the root mean square of the first batch column.
fn first_column_rms<S: Scalar>(a: &Matrix<S>) -> (r: S)
    requires
        a.wf(),
        a@.cols > 0,
    ensures
        r == column_rms(a@),
{
    let n = a.nrows();
    let mut sum = S::zero();
    for i in 0..n
        invariant
            a.wf(),
            a@.cols > 0,
            n == a@.rows,
            sum == mul_acc(S::spec_zero(), a@.column(0), a@.column(0), i as nat),
    {
        let v = a.get(i, 0);
        sum = sum.plus(v.times(v));
    }
    sum.over(S::from_count(n)).sqrt()
}

/// Squared residuals along a node's row of the incidence table.
spec fn row_squares<S: Scalar>(r: Arr3<S>, row: Seq<(u32, Endpoint)>, j: nat) -> S
    decreases j,
{
    if j == 0 {
        S::spec_zero()
    } else {
        let line = r.data[row[j - 1].0 as int][0];
        mul_acc(row_squares(r, row, (j - 1) as nat), line, line, r.d)
    }
}

proof fn row_squares_prefix<S: Scalar>(r: Arr3<S>, a: Seq<(u32, Endpoint)>, b: Seq<(u32, Endpoint)>, j: nat)
    requires
        j <= a.len(),
        j <= b.len(),
        forall|i: int| 0 <= i < j ==> a[i] == b[i],
    ensures
        row_squares(r, a, j) == row_squares(r, b, j),
    decreases j,
{
    if j > 0 {
        row_squares_prefix(r, a, b, (j - 1) as nat);
    }
}

/// A node's row of the incidence table visits its edges in edge order.
proof fn row_squares_are_node_squares<S: Scalar>(r: Arr3<S>, edges: Seq<[u32; 2]>, node: int, e: nat)
    requires
        e <= edges.len(),
        edges.len() <= u32::MAX,
    ensures
        row_squares(r, incidences(edges, node, e), incidences(edges, node, e).len()) == node_squares(
            r,
            pairs_of(edges),
            node,
            e,
        ),
        incidences(edges, node, e).len() == node_degree(pairs_of(edges), node, e),
    decreases e,
{
    if e > 0 {
        row_squares_are_node_squares(r, edges, node, (e - 1) as nat);
        let before = incidences(edges, node, (e - 1) as nat);
        let after = incidences(edges, node, e);
        let pair = pairs_of(edges)[e - 1];
        assert(pair == (edges[e - 1]@[0] as int, edges[e - 1]@[1] as int));
        row_squares_prefix(r, before, after, before.len());
        let with_u = if pair.0 == node {
            before.push(((e - 1) as u32, Endpoint::U))
        } else {
            before
        };
        row_squares_prefix(r, before, with_u, before.len());
        row_squares_prefix(r, with_u, after, with_u.len());
    }
}

/// Computes the root mean square residual of every agent.
fn make_agent_rms<S: Scalar>(r: &Tensor3<S>, graph: &AgentGraph<S>) -> (out: Vec<S>)
    requires
        graph.wf(),
        r@.has_shape(graph.edges@.len(), r@.b, r@.d),
        r@.b > 0,
        2 * graph.edges@.len() * r@.d <= usize::MAX,
        2 * graph.edges@.len() <= u32::MAX,
    ensures
        out@ == agents_rms(r@, pairs_of(graph.edges@), graph.num_nodes as nat),
{
    let (_e, _b, d_e) = r.dim();
    let inc = &graph.node_edges;
    let mut out: Vec<S> = Vec::new();
    for n in 0..graph.num_nodes
        invariant
            graph.wf(),
            inc == &graph.node_edges,
            r@.has_shape(graph.edges@.len(), r@.b, r@.d),
            r@.b > 0,
            d_e == r@.d,
            2 * graph.edges@.len() * r@.d <= usize::MAX,
            2 * graph.edges@.len() <= u32::MAX,
            out@.len() == n,
            forall|i: int| 0 <= i < n ==> #[trigger] out@[i] == node_rms(r@, pairs_of(graph.edges@), i),
    {
        let row = inc.incident(n);
        proof {
            row_squares_are_node_squares(r@, graph.edges@, n as int, graph.edges@.len());
            crate::graph::incidences_are_sound(graph.edges@, n as int, graph.edges@.len());
            assert(inc.row(n as int) == incidences(graph.edges@, n as int, graph.edges@.len()));
            assert(row@.len() <= 2 * graph.edges@.len());
            assert(row@.len() * d_e <= 2 * graph.edges@.len() * d_e) by (nonlinear_arith)
                requires
                    0 <= row@.len() <= 2 * graph.edges@.len(),
                    0 <= d_e,
            ;
        }
        let mut sum = S::zero();
        for j in 0..row.len()
            invariant
                r@.has_shape(graph.edges@.len(), r@.b, r@.d),
                r@.b > 0,
                forall|i: int| 0 <= i < row@.len() ==> (#[trigger] row@[i]).0 < graph.edges@.len(),
                sum == row_squares(r@, row@, j as nat),
        {
            let e = row[j].0 as usize;
            assert(row@[j as int].0 < graph.edges@.len());
            assert(r@.data[e as int][0].len() == r@.d);
            let line = r.row(e, 0);
            sum = accumulate_products(sum, line, line);
        }
        let count = row.len() * d_e;
        let divisor = S::from_count(
            if count == 0 {
                1
            } else {
                count
            },
        );
        out.push(sum.over(divisor).sqrt());
    }
    assert(out@ =~= agents_rms(r@, pairs_of(graph.edges@), graph.num_nodes as nat));
    out
}

/// Lists center and patch size of every agent.
fn make_meta(centers: &Matrix<i64>, h: usize, w: usize, patch_size: usize) -> (r: Vec<u32>)
    requires
        centers_in(centers@, h as int, w as int),
    ensures
        r@ == meta_of(centers@, patch_size),
{
    let n = centers.nrows();
    let mut out: Vec<u32> = Vec::new();
    for i in 0..n
        invariant
            centers_in(centers@, h as int, w as int),
            n == centers@.rows,
            out@.len() == 3 * i,
            forall|j: int| 0 <= j < 3 * i ==> #[trigger] out@[j] == meta_of(centers@, patch_size)[j],
    {
        assert(0 <= centers@.at(i as int, 0) < h);
        let ghost before = out@;
        out.push((centers.get(i, 0) % 0x1_0000_0000) as u32);
        out.push((centers.get(i, 1) % 0x1_0000_0000) as u32);
        out.push((patch_size as u64 % 0x1_0000_0000) as u32);
        assert forall|j: int| 0 <= j < 3 * i + 3 implies #[trigger] out@[j] == meta_of(centers@, patch_size)[j] by {
            if j < 3 * i {
                assert(out@[j] == before[j]);
            }
        }
    }
    assert(out@ =~= meta_of(centers@, patch_size));
    out
}

/// A grid that a patch fits into has a center.
proof fn some_agent(h: int, w: int, stride: int, patch_size: int)
    requires
        0 <= patch_size <= h,
        patch_size <= w,
        0 < h,
        0 < w,
    ensures
        stride > 0 ==> centers_of(h, w, stride, patch_size).rows > 0,
{
    if stride > 0 {
        let ny = axis_count(h, stride, patch_size);
        let nx = axis_count(w, stride, patch_size);
        assert((h - patch_size / 2 - 1) / stride >= 0) by (nonlinear_arith)
            requires
                h - patch_size / 2 - 1 >= 0,
                stride > 0,
        ;
        assert((w - patch_size / 2 - 1) / stride >= 0) by (nonlinear_arith)
            requires
                w - patch_size / 2 - 1 >= 0,
                stride > 0,
        ;
        assert(ny * nx > 0) by (nonlinear_arith)
            requires
                ny >= 1,
                nx >= 1,
        ;
    }
}

/// The results of one iteration.
struct IterationResult<S> {
    frame: Vec<u8>,
    consistency: S,
    primal: S,
    dual: S,
    agents: Vec<S>,
}

/// What an iteration of a solve is computed from.
struct IterationInputs<'a, S> {
    fwd: &'a MazeForward<S>,
    geometry: &'a Geometry<S>,
    graph: &'a AgentGraph<S>,
    centers: &'a Matrix<i64>,
    patch_size: usize,
    classes: usize,
    height: usize,
    width: usize,
}

/// A recorded run of a problem on one maze, from which the results of its iterations can be
/// computed.
spec fn inputs_fit<S: Scalar>(
    inputs: IterationInputs<S>,
    model: &SheafAdmmModel<S>,
    scene: SceneModel<S>,
    problem: Problem<S>,
    seed: Arr3<S>,
    k: nat,
) -> bool {
    let n = inputs.centers@.rows;
    &&& n > 0
    &&& seed.n == n
    &&& seed.b == 1
    &&& inputs.height * inputs.width <= usize::MAX
    &&& centers_in(inputs.centers@, inputs.height as int, inputs.width as int)
    &&& inputs.centers@ == scene.centers
    &&& span_fits(inputs.height as int, inputs.patch_size as int)
    &&& span_fits(inputs.width as int, inputs.patch_size as int)
    &&& product_fits(inputs.patch_size, inputs.patch_size, inputs.classes)
    &&& model.decoder.output_shape == (inputs.patch_size, inputs.patch_size, inputs.classes)
    &&& inputs.graph.wf()
    &&& inputs.graph@ == scene.graph
    &&& inputs.graph.num_nodes == n
    &&& inputs.geometry.wf()
    &&& inputs.geometry.admits(n, 1, seed.d)
    &&& inputs.geometry.operators() == problem.ops
    &&& inputs.geometry.edge_count() == inputs.graph.edges@.len()
    &&& 2 * inputs.graph.edges@.len() * inputs.geometry.edge_dim() <= usize::MAX
    &&& 2 * inputs.graph.edges@.len() <= u32::MAX
    &&& inputs.fwd.history.records(problem, seed, k)
    &&& inputs.fwd.logits_per_iter@.len() == k
    &&& forall|i: int|
        0 <= i < k ==> (#[trigger] inputs.fwd.logits_per_iter@[i])@ == model.decoder.logits_of(
            inputs.fwd.history.x@[i]@,
            scene.patches,
        ) && inputs.fwd.logits_per_iter@[i].wf()
}

/// Computes the results of one iteration.
fn iteration_result<S: Scalar>(
    inputs: &IterationInputs<S>,
    ki: usize,
    Ghost(model): Ghost<&SheafAdmmModel<S>>,
    Ghost(scene): Ghost<SceneModel<S>>,
    Ghost(problem): Ghost<Problem<S>>,
    Ghost(seed): Ghost<Arr3<S>>,
    Ghost(k): Ghost<nat>,
) -> (r: IterationResult<S>)
    requires
        inputs_fit(*inputs, model, scene, problem, seed, k),
        ki < k,
    ensures
        r.frame@ == frame_of(
            reassembled(
                model.decoder.logits_of(problem.iterate(seed, (ki + 1) as nat).x, scene.patches),
                scene.centers,
                inputs.patch_size as int,
                inputs.classes as nat,
                0,
                inputs.height as nat,
                inputs.width as nat,
            ),
        ),
        (r.consistency, r.primal, r.dual) == measures(problem, seed, ki as int),
        r.agents@ == agents_rms(
            problem.ops.residuals_of(problem.iterate(seed, (ki + 1) as nat).z),
            scene.graph.edges,
            scene.centers.rows,
        ),
{
    let history = &inputs.fwd.history;
    assert(history.records_step(problem, seed, ki as int));
    assert(inputs.fwd.logits_per_iter@[ki as int].wf());
    let grids = reassemble_logits(
        &inputs.fwd.logits_per_iter[ki],
        inputs.centers,
        inputs.patch_size,
        inputs.classes,
        (inputs.height, inputs.width),
    );
    let frame = argmax_frame(&grids[0]);
    let consistency = history.consistency_rms[ki][0];
    let primal = first_column_rms(&history.primal_res[ki]);
    let dual = first_column_rms(&history.dual_res[ki]);
    let r = inputs.geometry.edge_residuals(&history.z[ki]);
    let agents = make_agent_rms(&r, inputs.graph);
    IterationResult { frame, consistency, primal, dual, agents }
}

impl<S: Scalar> SessionCore<S> {
    pub closed spec fn model(&self) -> SheafAdmmModel<S> {
        self.model
    }

    /// What the last successful solve left behind.
    pub closed spec fn solved(&self) -> Option<SolveModel<S>> {
        match self.cache {
            Some(cache) => Some(cache.contents()),
            None => None,
        }
    }

    /// The weights fit the configuration, and there is one frame and one row of agent
    /// measures for each iteration of the last solve.
    pub closed spec fn wf(&self) -> bool {
        &&& weights_fit(&self.model)
        &&& self.cache matches Some(cache) ==> cache.frames@.len() == cache.k && cache.agent_cons@.len()
            == cache.k
    }

    /// Makes a session from a configuration and stored weights, of which the averaged
    /// collection is read.
    pub fn from_bytes(config: ExportedConfig<S>, weights: &[u8]) -> (r: Result<Self, WeightsError>)
        requires
            first_mismatch(maze_scope(&config)) is None ==> maze_countable(&config),
        ensures
            ({
                let mismatch = first_mismatch(maze_scope(&config));
                let stored = stored_tensors(weights@);
                let keys = maze_keys(maze_dims_of(&config));
                match r {
                    Ok(session) => {
                        &&& mismatch is None
                        &&& stored is Some
                        &&& only_collections(stored->0)
                        &&& source_of(stored->0, WeightCollection::Ema).complete(keys)
                        &&& maze_model_is(
                            session.model(),
                            config,
                            source_of(stored->0, WeightCollection::Ema),
                        )
                        &&& session.wf()
                        &&& session.solved() is None
                    },
                    Err(error) => {
                        ||| mismatch is Some && reports_mismatch(error, mismatch)
                        ||| mismatch is None && stored is None && error is Malformed
                        ||| {
                            &&& mismatch is None
                            &&& stored is Some
                            &&& error matches WeightsError::ForeignKey { name } && stored->0.dom().contains(
                                name@,
                            ) && foreign(name@)
                        }
                        ||| {
                            &&& mismatch is None
                            &&& stored is Some
                            &&& only_collections(stored->0)
                            &&& !source_of(stored->0, WeightCollection::Ema).complete(keys)
                            &&& source_of(stored->0, WeightCollection::Ema).violated(keys, error)
                        }
                    },
                }
            }),
    {
        match load_maze_model_from_bytes(config, weights, WeightCollection::Ema) {
            Ok(model) => {
                proof {
                    loaded_weights_fit(
                        model,
                        config,
                        source_of(stored_tensors(weights@)->0, WeightCollection::Ema),
                    );
                }
                Ok(SessionCore { model, cache: None })
            },
            Err(error) => Err(error),
        }
    }

    /// Tests whether the session can run on a maze of this size.
    pub fn can_run(&self, height: usize, width: usize) -> (r: bool)
        ensures
            r == (config_runs(&self.model().config) && grid_fits(
                &self.model().config,
                height as int,
                width as int,
            )),
    {
        modes_run(&self.model.config) && grid_countable(&self.model.config, height, width)
    }

    /// Why a request is refused before the model runs, if it is.
    pub fn refused(&self, tokens: &[u8], height: usize, width: usize, k: usize) -> (r: Option<SessionError>)
        ensures
            r == refusal(&self.model().config, tokens@, height, width, k),
    {
        let t = &self.model.config.task;
        if k == 0 {
            return Some(SessionError::ZeroIterations);
        }
        if k > MAX_ITERATIONS {
            return Some(SessionError::TooManyIterations { k });
        }
        if height < t.patch_size || width < t.patch_size {
            return Some(SessionError::GridTooSmall { height, width, patch_size: t.patch_size });
        }
        match height.checked_mul(width) {
            Some(cells) => {
                if tokens.len() != cells {
                    return Some(SessionError::LengthMismatch { found: tokens.len(), height, width });
                }
            },
            None => {
                return Some(SessionError::LengthMismatch { found: tokens.len(), height, width });
            },
        }
        match find_bad(tokens, t.num_classes) {
            Some(token) => {
                return Some(SessionError::InvalidToken { token, num_classes: t.num_classes });
            },
            None => {},
        }
        if !has_token(tokens, TOKEN_START as u8) || !has_token(tokens, TOKEN_GOAL as u8) {
            return Some(SessionError::MissingEndpoints);
        }
        proof {
            assert(tokens@.len() > 0);
            assert(0 < height <= height * width && 0 < width <= height * width) by (nonlinear_arith)
                requires
                    0 < height * width,
                    0 <= height,
                    0 <= width,
            ;
        }
        proof {
            some_agent(height as int, width as int, t.stride as int, t.patch_size as int);
        }
        None
    }

    /// Runs `k` iterations on one maze and keeps the per-iteration results. The grid, the
    /// graph and the patches are rebuilt for each call. Returns `k`.
    ///
    /// On any error the results of the solve before are left as they were.
    #[verifier::rlimit(60)]
    pub fn solve(&mut self, tokens: &[u8], height: usize, width: usize, k: usize) -> (r: Result<
        usize,
        SessionError,
    >)
        requires
            old(self).wf(),
            refusal(&old(self).model().config, tokens@, height, width, k) is None ==> config_runs(
                &old(self).model().config,
            ) && grid_fits(&old(self).model().config, height as int, width as int),
        ensures
            final(self).wf(),
            final(self).model() == old(self).model(),
            r is Err ==> final(self).solved() == old(self).solved(),
            ({
                let model = &old(self).model();
                match refusal(&model.config, tokens@, height, width, k) {
                    Some(error) => r == Err::<usize, SessionError>(error),
                    None => match r {
                        Ok(count) => {
                            &&& count == k
                            &&& forall|i: int|
                                0 <= i < k ==> all_finite(
                                    #[trigger] measures_at(model, tokens@, height as nat, width as nat, i),
                                )
                            &&& final(self).solved() == Some(
                                solve_of(model, tokens@, height as nat, width as nat, k as nat),
                            )
                        },
                        Err(SessionError::NonFinite { iteration }) => {
                            &&& iteration < k
                            &&& !all_finite(
                                measures_at(model, tokens@, height as nat, width as nat, iteration as int),
                            )
                            &&& forall|i: int|
                                0 <= i < iteration ==> all_finite(
                                    #[trigger] measures_at(model, tokens@, height as nat, width as nat, i),
                                )
                        },
                        Err(_) => false,
                    },
                }
            }),
    {
        let ghost model0 = self.model;
        let t = &self.model.config.task;
        let m = &self.model.config.model;
        match self.refused(tokens, height, width, k) {
            Some(error) => {
                return Err(error);
            },
            None => {},
        }
        proof {
            let early = refusal(&model0.config, tokens@, height, width, k);
            assert(early is None);
            assert(tokens@.len() == height * width);
        }
        let image = make_image(tokens, height, width);
        let scene = prepare_scene(&self.model.config, &image);
        proof {
            scene_is_runnable(&self.model, scene, image@, k);
            scene_is_runnable(&self.model, scene, image@, 0);
        }
        let ghost view = scene@;
        let Scene { centers, graph, patches } = scene;
        let fwd = self.model.forward(&patches, graph.clone(), k);
        let geometry = self.model.geometry(&patches, &graph);
        let ghost problem = self.model.problem(view.graph, view.patches);
        let ghost seed = self.model.seed(view.patches);
        let patch_size = t.patch_size;
        let inputs = IterationInputs {
            fwd: &fwd,
            geometry: &geometry,
            graph: &graph,
            centers: &centers,
            patch_size,
            classes: m.num_classes,
            height,
            width,
        };
        let mut frames: Vec<Vec<u8>> = Vec::new();
        let mut residuals: Vec<S> = Vec::new();
        let mut agent_cons: Vec<Vec<S>> = Vec::new();
        let ghost want = solve_of(&model0, tokens@, height as nat, width as nat, k as nat);
        assert(inputs_fit(inputs, &model0, view, problem, seed, k as nat));
        for ki in 0..k
            invariant
                self.model == model0,
                self.cache == old(self).cache,
                old(self).wf(),
                old(self).model == model0,
                refusal(&model0.config, tokens@, height, width, k) is None,
                view == scene_of(&model0.config, image_of(tokens@, height as nat, width as nat)),
                problem == model0.problem(view.graph, view.patches),
                seed == model0.seed(view.patches),
                want == solve_of(&model0, tokens@, height as nat, width as nat, k as nat),
                inputs_fit(inputs, &model0, view, problem, seed, k as nat),
                inputs.patch_size == model0.config.task.patch_size,
                inputs.classes == model0.config.model.num_classes,
                inputs.height == height,
                inputs.width == width,
                frames@.len() == ki,
                agent_cons@.len() == ki,
                residuals@.len() == 3 * ki,
                forall|i: int| 0 <= i < ki ==> (#[trigger] frames@[i])@ == want.frames[i],
                forall|i: int| 0 <= i < ki ==> (#[trigger] agent_cons@[i])@ == want.agent_cons[i],
                forall|j: int| 0 <= j < 3 * ki ==> #[trigger] residuals@[j] == want.residuals[j],
                forall|i: int| 0 <= i < ki ==> all_finite(#[trigger] measures(problem, seed, i)),
        {
            let result = iteration_result(
                &inputs,
                ki,
                Ghost(&model0),
                Ghost(view),
                Ghost(problem),
                Ghost(seed),
                Ghost(k as nat),
            );
            if !(result.consistency.is_finite() && result.primal.is_finite() && result.dual.is_finite()) {
                proof {
                    assert(measures_at(&model0, tokens@, height as nat, width as nat, ki as int) == measures(
                        problem,
                        seed,
                        ki as int,
                    ));
                    assert forall|i: int| 0 <= i < ki implies all_finite(
                        #[trigger] measures_at(&model0, tokens@, height as nat, width as nat, i),
                    ) by {
                        assert(all_finite(measures(problem, seed, i)));
                    }
                }
                return Err(SessionError::NonFinite { iteration: ki });
            }
            let ghost had = residuals@;
            frames.push(result.frame);
            residuals.push(result.consistency);
            residuals.push(result.primal);
            residuals.push(result.dual);
            agent_cons.push(result.agents);
            assert forall|j: int| 0 <= j < 3 * ki + 3 implies #[trigger] residuals@[j] == want.residuals[j] by {
                if j < 3 * ki {
                    assert(residuals@[j] == had[j]);
                }
            }
        }
        let agent_meta = make_meta(&centers, height, width, patch_size);
        let cache = SolveCache { k, frames, residuals, agent_cons, agent_meta };
        proof {
            assert(cache.contents().frames =~= want.frames);
            assert(cache.contents().residuals =~= want.residuals);
            assert(cache.contents().agent_cons =~= want.agent_cons);
            assert(cache.contents() =~= want);
            assert forall|i: int| 0 <= i < k implies all_finite(
                #[trigger] measures_at(&model0, tokens@, height as nat, width as nat, i),
            ) by {
                assert(all_finite(measures(problem, seed, i)));
            }
        }
        self.cache = Some(cache);
        Ok(k)
    }

    /// Best class of each cell at an iteration, row-major.
    pub fn frame(&self, iter: usize) -> (r: Result<&[u8], SessionError>)
        requires
            self.wf(),
        ensures
            answers(r, frame_reply(self.solved(), iter)),
    {
        match &self.cache {
            None => Err(SessionError::NotSolved),
            Some(c) => if iter < c.frames.len() {
                Ok(c.frames[iter].as_slice())
            } else {
                Err(SessionError::OutOfRange { iter, k: c.k })
            },
        }
    }

    /// Rows of consistency, primal and dual measure, for each iteration.
    pub fn residuals(&self) -> (r: Result<&[S], SessionError>)
        ensures
            answers(r, residuals_reply(self.solved())),
    {
        match &self.cache {
            None => Err(SessionError::NotSolved),
            Some(c) => Ok(c.residuals.as_slice()),
        }
    }

    /// Root mean square edge residual of each agent at an iteration.
    pub fn agent_consistency(&self, iter: usize) -> (r: Result<&[S], SessionError>)
        requires
            self.wf(),
        ensures
            answers(r, agents_reply(self.solved(), iter)),
    {
        match &self.cache {
            None => Err(SessionError::NotSolved),
            Some(c) => if iter < c.agent_cons.len() {
                Ok(c.agent_cons[iter].as_slice())
            } else {
                Err(SessionError::OutOfRange { iter, k: c.k })
            },
        }
    }

    /// Rows of center y, center x and patch size, for each agent.
    pub fn agent_meta(&self) -> (r: Result<&[u32], SessionError>)
        ensures
            answers(r, meta_reply(self.solved())),
    {
        match &self.cache {
            None => Err(SessionError::NotSolved),
            Some(c) => Ok(c.agent_meta.as_slice()),
        }
    }
}

/// A solve that failed changes no answer: frames, residuals and agents are answered as before,
/// whatever was solved before.
pub proof fn failed_solves_change_no_answer<S: Scalar>(before: SessionCore<S>, after: SessionCore<S>, iter: usize)
    requires
        after.solved() == before.solved(),
    ensures
        frame_reply(after.solved(), iter) == frame_reply(before.solved(), iter),
        agents_reply(after.solved(), iter) == agents_reply(before.solved(), iter),
        residuals_reply(after.solved()) == residuals_reply(before.solved()),
        meta_reply(after.solved()) == meta_reply(before.solved()),
{
}

/// A solve leaves exactly its own results: a frame of classes and a row of agent measures for
/// each of its iterations and no other, three residuals for each, finite where its measures
/// are, and center and patch size of each agent. No measure of an agent is negative, where the order goes with the operations.
pub proof fn solves_leave_their_results<S: Scalar>(
    model: &SheafAdmmModel<S>,
    tokens: Seq<u8>,
    height: nat,
    width: nat,
    k: nat,
    iter: usize,
    agent: int,
)
    requires
        k <= usize::MAX,
    ensures
        ({
            let solved = Some(solve_of(model, tokens, height, width, k));
            let centers = scene_of(&model.config, image_of(tokens, height, width)).centers;
            &&& frame_reply(solved, iter) is Ok <==> iter < k
            &&& agents_reply(solved, iter) is Ok <==> iter < k
            &&& frame_reply(solved, iter) matches Ok(frame) ==> frame.len() == height * width
            &&& agents_reply(solved, iter) matches Ok(agents) ==> {
                &&& agents.len() == centers.rows
                &&& order_kept::<S>() && 0 <= agent < agents.len() ==> not_negative(agents[agent])
            }
            &&& frame_reply(solved, iter) matches Ok(frame) ==> forall|p: int|
                0 <= p < height * width && model.config.model.num_classes > 0 ==> #[trigger] frame[p]
                    < model.config.model.num_classes
            &&& residuals_reply(solved) matches Ok(r) && r.len() == 3 * k && forall|j: int|
                0 <= j < 3 * k && all_finite(measures_at(model, tokens, height, width, j / 3)) ==> (
                #[trigger] r[j]).spec_is_finite()
            &&& meta_reply(solved) matches Ok(m) && m.len() == 3 * centers.rows && m == meta_of(
                centers,
                model.config.task.patch_size,
            )
        }),
{
    let scene = scene_of(&model.config, image_of(tokens, height, width));
    let problem = model.problem(scene.graph, scene.patches);
    let seed = model.seed(scene.patches);
    let r = problem.ops.residuals_of(problem.iterate(seed, (iter + 1) as nat).z);
    if order_kept::<S>() {
        agent_measure_is_not_negative(r, scene.graph.edges, agent);
    }
    let solve = solve_of(model, tokens, height, width, k);
    if iter < k && model.config.model.num_classes > 0 {
        assert forall|p: int| 0 <= p < height * width implies #[trigger] solve.frames[iter as int][p]
            < model.config.model.num_classes by {
            frames_hold_classes(model, tokens, height, width, k, iter as int, p);
        }
    }
    assert forall|j: int|
        0 <= j < 3 * k && all_finite(measures_at(model, tokens, height, width, j / 3)) implies (
    #[trigger] solve.residuals[j]).spec_is_finite() by {}
}

/// A longer solve of a maze begins as a shorter one: frames, residuals and agent measures of
/// the shorter are those of the first iterations of the longer.
pub proof fn longer_solve_extends<S: Scalar>(
    model: &SheafAdmmModel<S>,
    tokens: Seq<u8>,
    height: nat,
    width: nat,
    k: nat,
    longer: nat,
)
    requires
        k <= longer,
    ensures
        ({
            let a = solve_of(model, tokens, height, width, k);
            let b = solve_of(model, tokens, height, width, longer);
            &&& a.frames == b.frames.take(k as int)
            &&& a.residuals == b.residuals.take(3 * k as int)
            &&& a.agent_cons == b.agent_cons.take(k as int)
            &&& a.agent_meta == b.agent_meta
        }),
{
    let a = solve_of(model, tokens, height, width, k);
    let b = solve_of(model, tokens, height, width, longer);
    assert(a.frames =~= b.frames.take(k as int));
    assert(a.residuals =~= b.residuals.take(3 * k as int));
    assert(a.agent_cons =~= b.agent_cons.take(k as int));
}

/// A solve decodes a maze as a run on a batch with that maze in front does, where input and
/// output classes are the same and fit a byte.
pub proof fn solve_decodes_as_a_run<S: Scalar>(
    model: &SheafAdmmModel<S>,
    tokens: Seq<u8>,
    height: nat,
    width: nat,
    k: nat,
    i: int,
    y: int,
    x: int,
)
    requires
        0 <= i < k,
        0 <= y < height,
        0 <= x < width,
        model.config.task.num_classes == model.config.model.num_classes,
        model.config.model.num_classes <= 256,
    ensures
        solve_of(model, tokens, height, width, k).frames[i][y * width + x] == run_frame(
            model,
            image_of(tokens, height, width),
            i,
        ).at(y, x),
{
    let scene = scene_of(&model.config, image_of(tokens, height, width));
    let problem = model.problem(scene.graph, scene.patches);
    let logits = model.decoder.logits_of(
        problem.iterate(model.seed(scene.patches), (i + 1) as nat).x,
        scene.patches,
    );
    let classes = model.config.model.num_classes as nat;
    let grid = reassembled(
        logits,
        scene.centers,
        model.config.task.patch_size as int,
        classes,
        0,
        height,
        width,
    );
    let p = y * width + x;
    assert(0 <= p < height * width && p / width as int == y && p % width as int == x) by (nonlinear_arith)
        requires
            p == y * width + x,
            0 <= y < height,
            0 <= x < width,
    ;
    best_is_class(grid.data[y][x], classes);
}

/// The frames of a solve have one class for each cell.
pub proof fn frames_hold_classes<S: Scalar>(
    model: &SheafAdmmModel<S>,
    tokens: Seq<u8>,
    height: nat,
    width: nat,
    k: nat,
    i: int,
    p: int,
)
    requires
        0 <= i < k,
        0 <= p < height * width,
        0 < model.config.model.num_classes,
    ensures
        ({
            let frames = solve_of(model, tokens, height, width, k).frames;
            &&& frames.len() == k
            &&& frames[i].len() == height * width
            &&& frames[i][p] < model.config.model.num_classes
        }),
{
    let scene = scene_of(&model.config, image_of(tokens, height, width));
    let problem = model.problem(scene.graph, scene.patches);
    let logits = model.decoder.logits_of(
        problem.iterate(model.seed(scene.patches), (i + 1) as nat).x,
        scene.patches,
    );
    let classes = model.config.model.num_classes as nat;
    let grid = reassembled(
        logits,
        scene.centers,
        model.config.task.patch_size as int,
        classes,
        0,
        height,
        width,
    );
    best_is_class(grid.data[p / width as int][p % width as int], classes);
}

/// The best of some classes is one of them; class 0 where there is none.
proof fn best_is_class<S: Scalar>(row: Seq<S>, c: nat)
    ensures
        0 <= best_of(row, c).0,
        best_of(row, c).0 < c || c == 0 && best_of(row, c).0 == 0,
    decreases c,
{
    if c > 0 {
        best_is_class(row, (c - 1) as nat);
    }
}

} // verus!
