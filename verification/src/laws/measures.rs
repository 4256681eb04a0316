//! What the measures of a run are for: the primal one vanishes where proposals and consensus
//! agree, the dual one where the consensus does not move, and the agents share the disagreement
//! of their edges.
use super::layers::zero_divides;
use super::ring::{
    exact, minus_zero, mul_acc_total, plus_shift, plus_zero, times_zero, total, total_plus,
    total_same, total_single,
};
use crate::admm::{distances, squared_distance, weighted_distances, Problem};
use crate::demo::batch_measures;
use crate::metrics::{rms_of_all, squares_of};
use crate::scalar::{mul_acc, Scalar};
use crate::session::{column_rms, measures, node_degree, node_rms, node_squares, solve_of, measures_at};
use crate::model::SheafAdmmModel;
use crate::tensor::{Arr2, Arr3};
use vstd::prelude::*;

verus! {

/// The root of zero is zero.
pub open spec fn root_of_zero<S: Scalar>() -> bool {
    S::spec_zero().spec_sqrt() == S::spec_zero()
}

proof fn row_of_zeros<S: Scalar>(x: Seq<S>, k: nat)
    requires
        exact::<S>(),
        forall|i: int| 0 <= i < k ==> #[trigger] x[i] == S::spec_zero(),
    ensures
        mul_acc(S::spec_zero(), x, x, k) == S::spec_zero(),
    decreases k,
{
    if k > 0 {
        row_of_zeros(x, (k - 1) as nat);
        times_zero(x[k - 1]);
        plus_zero(S::spec_zero());
    }
}

/// A state has no distance from itself.
pub proof fn no_distance_from_itself<S: Scalar>(a: Arr3<S>, rho: S, i: int, j: int)
    requires
        exact::<S>(),
        root_of_zero::<S>(),
        0 <= i < a.n,
        0 <= j < a.b,
    ensures
        distances(a, a).at(i, j) == S::spec_zero(),
        weighted_distances(rho, a, a).at(i, j) == S::spec_zero(),
{
    let row = a.data[i][j];
    let d = Seq::new(row.len(), |k: int| row[k].spec_minus(row[k]));
    assert forall|k: int| 0 <= k < row.len() implies #[trigger] d[k] == S::spec_zero() by {
        minus_zero(row[k]);
    }
    row_of_zeros(d, row.len());
    times_zero(rho);
}

proof fn measures_of_zeros<S: Scalar>(a: Arr2<S>)
    requires
        exact::<S>(),
        root_of_zero::<S>(),
        zero_divides::<S>(),
        a.wf(),
        forall|i: int, j: int| 0 <= i < a.rows && 0 <= j < a.cols ==> #[trigger] a.at(i, j) == S::spec_zero(),
    ensures
        a.cols > 0 ==> column_rms(a) == S::spec_zero(),
        rms_of_all(a) == S::spec_zero(),
{
    if a.cols > 0 {
        let c = a.column(0);
        assert forall|i: int| 0 <= i < a.rows implies #[trigger] c[i] == S::spec_zero() by {
            assert(a.at(i, 0) == S::spec_zero());
        }
        row_of_zeros(c, a.rows);
    }
    squares_of_zeros(a, a.rows);
}

proof fn squares_of_zeros<S: Scalar>(a: Arr2<S>, i: nat)
    requires
        exact::<S>(),
        a.wf(),
        i <= a.rows,
        forall|i: int, j: int| 0 <= i < a.rows && 0 <= j < a.cols ==> #[trigger] a.at(i, j) == S::spec_zero(),
    ensures
        squares_of(a, i) == S::spec_zero(),
    decreases i,
{
    if i > 0 {
        squares_of_zeros(a, (i - 1) as nat);
        let row = a.data[i - 1];
        assert forall|k: int| 0 <= k < a.cols implies #[trigger] row[k] == S::spec_zero() by {
            assert(a.at(i - 1, k) == S::spec_zero());
        }
        row_of_zeros(row, a.cols);
    }
}

/// The dual measure of an iteration is zero where the consensus did not move, and the primal one
/// where the blended proposals are the consensus: for a session's maze, and over a whole batch.
pub proof fn settled_runs_measure_zero<S: Scalar>(problem: Problem<S>, seed: Arr3<S>, i: nat)
    requires
        exact::<S>(),
        root_of_zero::<S>(),
        zero_divides::<S>(),
        problem.iterate(seed, i + 1).z.wf(),
        problem.iterate(seed, i + 1).z.b > 0,
    ensures
        ({
            let (before, after) = (problem.iterate(seed, i), problem.iterate(seed, i + 1));
            &&& after.z == before.z ==> {
                &&& measures(problem, seed, i as int).2 == S::spec_zero()
                &&& batch_measures(problem, seed, i as int).dual == S::spec_zero()
            }
            &&& problem.relaxed(before) == after.z ==> {
                &&& measures(problem, seed, i as int).1 == S::spec_zero()
                &&& batch_measures(problem, seed, i as int).primal == S::spec_zero()
            }
        }),
{
    let (before, after) = (problem.iterate(seed, i), problem.iterate(seed, i + 1));
    let z = after.z;
    assert forall|p: int, q: int| 0 <= p < z.n && 0 <= q < z.b implies #[trigger] distances(z, z).at(p, q)
        == S::spec_zero() && weighted_distances(problem.rho, z, z).at(p, q) == S::spec_zero() by {
        no_distance_from_itself(z, problem.rho, p, q);
    }
    if after.z == before.z {
        let w = weighted_distances(problem.rho, z, z);
        assert forall|p: int, q: int| 0 <= p < w.rows && 0 <= q < w.cols implies #[trigger] w.at(p, q)
            == S::spec_zero() by {
            assert(distances(z, z).at(p, q) == S::spec_zero());
        }
        measures_of_zeros(w);
    }
    if problem.relaxed(before) == after.z {
        measures_of_zeros(distances(z, z));
    }
}

/// The dual measure answers to the penalty: without one it is zero, whatever the consensus does,
/// while the other measures do not see it.
pub proof fn dual_measure_answers_to_the_penalty<S: Scalar>(rho: S, a: Arr3<S>, c: Arr3<S>, i: int, j: int)
    requires
        exact::<S>(),
        0 <= i < a.n,
        0 <= j < a.b,
    ensures
        weighted_distances(S::spec_zero(), a, c).at(i, j) == S::spec_zero(),
        weighted_distances(S::spec_one(), a, c).at(i, j) == distances(a, c).at(i, j),
{
    let d = squared_distance(a.data[i][j], c.data[i][j]).spec_sqrt();
    times_zero(d);
    super::ring::times_one(d);
}

/// On one maze a session and a run on a batch measure the same primal and dual residuals.
pub proof fn sessions_measure_as_runs<S: Scalar>(a: Arr2<S>)
    requires
        a.wf(),
        a.cols == 1,
    ensures
        column_rms(a) == rms_of_all(a),
{
    column_squares(a, a.rows);
    assert(a.rows * 1 == a.rows);
}

proof fn column_squares<S: Scalar>(a: Arr2<S>, i: nat)
    requires
        a.wf(),
        a.cols == 1,
        i <= a.rows,
    ensures
        mul_acc(S::spec_zero(), a.column(0), a.column(0), i) == squares_of(a, i),
    decreases i,
{
    if i > 0 {
        column_squares(a, (i - 1) as nat);
        let row = a.data[i - 1];
        let acc = squares_of(a, (i - 1) as nat);
        assert(row.len() == 1);
        assert(mul_acc(acc, row, row, 1) == mul_acc(acc, row, row, 0).spec_plus(
            row[0].spec_times(row[0]),
        ));
    }
}

/// The squared residual of an edge.
pub open spec fn edge_square<S: Scalar>(r: Arr3<S>, e: int) -> S {
    total(|k: int| r.data[e][0][k].spec_times(r.data[e][0][k]), r.d)
}

/// The share of an edge at a node: its squared residual once for each of its ends that is the node.
pub open spec fn edge_share<S: Scalar>(r: Arr3<S>, edges: Seq<(int, int)>, node: int, e: int) -> S {
    (if edges[e].0 == node {
        edge_square(r, e)
    } else {
        S::spec_zero()
    }).spec_plus(
        if edges[e].1 == node {
            edge_square(r, e)
        } else {
            S::spec_zero()
        },
    )
}

/// What an agent measures is the sum of its edges' shares.
pub proof fn node_squares_are_shares<S: Scalar>(r: Arr3<S>, edges: Seq<(int, int)>, node: int, e: nat)
    requires
        exact::<S>(),
    ensures
        node_squares(r, edges, node, e) == total(|k: int| edge_share(r, edges, node, k), e),
    decreases e,
{
    if e > 0 {
        node_squares_are_shares(r, edges, node, (e - 1) as nat);
        let row = r.data[e - 1][0];
        let before = node_squares(r, edges, node, (e - 1) as nat);
        let q = edge_square(r, e - 1);
        let zero = S::spec_zero();
        mul_acc_total(before, row, row, r.d);
        total_same(
            |k: int| row[k].spec_times(row[k]),
            |k: int| r.data[e - 1][0][k].spec_times(r.data[e - 1][0][k]),
            r.d,
        );
        mul_acc_total(mul_acc(before, row, row, r.d), row, row, r.d);
        plus_shift(before, q, q);
        plus_zero(q);
        plus_zero(zero);
        plus_zero(before);
    }
}

/// Every edge is measured at both of its ends: what all agents measure together is twice the
/// squared residuals of all edges.
pub proof fn agents_share_their_edges<S: Scalar>(r: Arr3<S>, edges: Seq<(int, int)>, n: nat)
    requires
        exact::<S>(),
        forall|e: int|
            0 <= e < edges.len() ==> 0 <= (#[trigger] edges[e]).0 < n && 0 <= edges[e].1 < n,
    ensures
        total(|i: int| node_squares(r, edges, i, edges.len()), n) == total(
            |e: int| edge_square(r, e).spec_plus(edge_square(r, e)),
            edges.len(),
        ),
{
    let shares = |i: int, e: int| edge_share(r, edges, i, e);
    let by_node = |i: int| node_squares(r, edges, i, edges.len());
    let summed = |i: int| total(|e: int| shares(i, e), edges.len());
    assert forall|i: int| 0 <= i < n implies #[trigger] by_node(i) == summed(i) by {
        node_squares_are_shares(r, edges, i, edges.len());
        total_same(|e: int| edge_share(r, edges, i, e), |e: int| shares(i, e), edges.len());
    }
    total_same(by_node, summed, n);
    super::ring::total_swap(shares, n, edges.len());
    let by_edge = |e: int| total(|i: int| shares(i, e), n);
    let twice = |e: int| edge_square(r, e).spec_plus(edge_square(r, e));
    assert forall|e: int| 0 <= e < edges.len() implies #[trigger] by_edge(e) == twice(e) by {
        let (u, v) = edges[e];
        let q = edge_square(r, e);
        let at_u = |i: int|
            if u == i {
                q
            } else {
                S::spec_zero()
            };
        let at_v = |i: int|
            if v == i {
                q
            } else {
                S::spec_zero()
            };
        total_same(|i: int| shares(i, e), |i: int| at_u(i).spec_plus(at_v(i)), n);
        total_plus(at_u, at_v, n);
        total_single(at_u, u, n);
        total_single(at_v, v, n);
    }
    total_same(by_edge, twice, edges.len());
}

/// An agent measures the root mean square: where all residuals on its edges have the same square,
/// its measure is the root of that square's mean over as many members.
pub proof fn even_edges_measure_their_square<S: Scalar>(
    r: Arr3<S>,
    edges: Seq<(int, int)>,
    node: int,
    square: S,
)
    requires
        exact::<S>(),
        r.d > 0,
        node_degree(edges, node, edges.len()) > 0,
        forall|e: int, k: int|
            0 <= e < edges.len() && 0 <= k < r.d && (edges[e].0 == node || edges[e].1 == node) ==> (
            #[trigger] r.data[e][0][k]).spec_times(r.data[e][0][k]) == square,
    ensures
        ({
            let count = node_degree(edges, node, edges.len()) * r.d;
            node_rms(r, edges, node) == total(|k: int| square, count).spec_over(
                S::spec_from_count(count),
            ).spec_sqrt()
        }),
{
    even_squares(r, edges, node, square, edges.len());
    let (g, d) = (node_degree(edges, node, edges.len()), r.d);
    assert(g * d > 0) by (nonlinear_arith)
        requires
            g > 0,
            d > 0,
    ;
}

/// A sum of one number is split where its members are.
proof fn constant_total_splits<S: Scalar>(square: S, a: nat, b: nat)
    requires
        exact::<S>(),
    ensures
        total(|k: int| square, a + b) == total(|k: int| square, a).spec_plus(total(|k: int| square, b)),
    decreases b,
{
    let f = |k: int| square;
    if b == 0 {
        plus_zero(total(f, a));
    } else {
        constant_total_splits(square, a, (b - 1) as nat);
        plus_shift(total(f, a), total(f, (b - 1) as nat), square);
        assert(total(f, a + b) == total(f, (a + b - 1) as nat).spec_plus(square));
    }
}

proof fn even_squares<S: Scalar>(r: Arr3<S>, edges: Seq<(int, int)>, node: int, square: S, e: nat)
    requires
        exact::<S>(),
        e <= edges.len(),
        forall|e: int, k: int|
            0 <= e < edges.len() && 0 <= k < r.d && (edges[e].0 == node || edges[e].1 == node) ==> (
            #[trigger] r.data[e][0][k]).spec_times(r.data[e][0][k]) == square,
    ensures
        node_squares(r, edges, node, e) == total(|k: int| square, node_degree(edges, node, e) * r.d),
    decreases e,
{
    let f = |k: int| square;
    if e > 0 {
        let m = (e - 1) as nat;
        even_squares(r, edges, node, square, m);
        let row = r.data[e - 1][0];
        let before = node_squares(r, edges, node, m);
        let (g, d) = (node_degree(edges, node, m), r.d);
        if edges[e - 1].0 == node || edges[e - 1].1 == node {
            assert forall|k: int| 0 <= k < d implies #[trigger] row[k].spec_times(row[k]) == square by {
                assert(r.data[e - 1][0][k].spec_times(r.data[e - 1][0][k]) == square);
            }
            total_same(|k: int| row[k].spec_times(row[k]), f, d);
            mul_acc_total(before, row, row, d);
            mul_acc_total(mul_acc(before, row, row, d), row, row, d);
            constant_total_splits(square, g * d, d);
            constant_total_splits(square, g * d + d, d);
            assert((g + 1) * d == g * d + d && (g + 2) * d == g * d + d + d) by (nonlinear_arith);
        }
    } else {
        assert(0 * r.d == 0);
    }
}

/// An agent measures its own edges only: residuals that agree on these give the same measure.
pub proof fn agents_measure_their_own_edges<S: Scalar>(
    r: Arr3<S>,
    s: Arr3<S>,
    edges: Seq<(int, int)>,
    node: int,
    e: nat,
)
    requires
        r.d == s.d,
        e <= edges.len(),
        forall|k: int|
            0 <= k < edges.len() && (edges[k].0 == node || edges[k].1 == node) ==> (#[trigger] r.data[k])[0]
                == s.data[k][0],
    ensures
        node_squares(r, edges, node, e) == node_squares(s, edges, node, e),
        e == edges.len() ==> node_rms(r, edges, node) == node_rms(s, edges, node),
    decreases e,
{
    if e > 0 {
        agents_measure_their_own_edges(r, s, edges, node, (e - 1) as nat);
        if edges[e - 1].0 == node || edges[e - 1].1 == node {
            assert(r.data[e - 1][0] == s.data[e - 1][0]);
        }
    }
}

/// A solve reports consistency, primal and dual measure of each iteration, in this order.
pub proof fn residual_rows_are_in_order<S: Scalar>(
    model: &SheafAdmmModel<S>,
    tokens: Seq<u8>,
    height: nat,
    width: nat,
    k: nat,
    i: int,
)
    requires
        0 <= i < k,
    ensures
        ({
            let r = solve_of(model, tokens, height, width, k).residuals;
            (r[3 * i], r[3 * i + 1], r[3 * i + 2]) == measures_at(model, tokens, height, width, i)
        }),
{
}

} // verus!
