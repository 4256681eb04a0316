//! What the summaries of a run say: which iteration is the peak, which series a measure is taken
//! from, and where the agents of a solve stand.
use super::ring::{exact, times_flip, times_one, times_spread, times_zero};
use crate::admm::AdmmHistory;
use crate::metrics::{mean_of, metrics_of, peak_of, rms_of_all, squares_of};
use crate::model::SheafAdmmModel;
use crate::scalar::{mul_acc, sum_acc, Scalar};
use crate::scene::scene_of;
use crate::session::{image_of, node_rms, solve_of};
use crate::tensor::Arr2;
use crate::views::{axis_count, centers_of};
use vstd::prelude::*;

verus! {

/// The order ranks the first `n` values: what is below one of two is below the other or the
/// other is below that one, and no two are each below the other.
pub open spec fn ranks_values<S: Scalar>(values: Seq<S>, n: nat) -> bool {
    &&& forall|i: int, j: int|
        0 <= i < n && 0 <= j < n && (#[trigger] values[i]).spec_less(#[trigger] values[j])
            ==> !values[j].spec_less(values[i])
    &&& forall|i: int, j: int, k: int|
        0 <= i < n && 0 <= j < n && 0 <= k < n && (#[trigger] values[i]).spec_less(#[trigger] values[j])
            ==> (#[trigger] values[k]).spec_less(values[j]) || values[i].spec_less(values[k])
}

/// Value `p` is the last of the largest among the first `n`.
pub open spec fn last_of_largest<S: Scalar>(values: Seq<S>, n: nat, p: int) -> bool {
    &&& 0 <= p < n
    &&& forall|j: int| 0 <= j < n ==> !values[p].spec_less(#[trigger] values[j])
    &&& forall|j: int| p < j < n ==> (#[trigger] values[j]).spec_less(values[p])
}

/// The peak is the last of the largest: no value is above it, and every later one is below.
pub proof fn peak_is_last_of_largest<S: Scalar>(values: Seq<S>, n: nat)
    requires
        0 < n <= values.len(),
        ranks_values(values, n),
    ensures
        last_of_largest(values, n, peak_of(values, n) as int),
    decreases n,
{
    if n > 1 {
        let m = (n - 1) as nat;
        peak_is_last_of_largest(values, m);
        let p = peak_of(values, m) as int;
        if values[n - 1].spec_less(values[p]) {
            assert(!values[p].spec_less(values[n - 1]));
        } else {
            assert forall|j: int| 0 <= j < n implies !values[n - 1].spec_less(#[trigger] values[j]) by {
                if j < m && values[n - 1].spec_less(values[j]) {
                    assert(!values[p].spec_less(values[j]));
                    assert(values[p].spec_less(values[j]) || values[n - 1].spec_less(values[p]));
                }
            }
        }
    }
}

/// The last value is below the peak exactly where it is below any value at all.
pub proof fn falling_is_below_any<S: Scalar>(values: Seq<S>)
    requires
        0 < values.len(),
        ranks_values(values, values.len()),
    ensures
        values.last().spec_less(values[peak_of(values, values.len()) as int]) <==> exists|j: int|
            0 <= j < values.len() && values.last().spec_less(#[trigger] values[j]),
{
    let n = values.len();
    peak_is_last_of_largest(values, n);
    let p = peak_of(values, n) as int;
    let l = values[n - 1];
    if exists|j: int| 0 <= j < n && l.spec_less(#[trigger] values[j]) {
        let j = choose|j: int| 0 <= j < n && l.spec_less(#[trigger] values[j]);
        assert(!values[p].spec_less(values[j]));
        assert(values[p].spec_less(values[j]) || values[n - 1].spec_less(values[p]));
    }
}

/// Each measure of an iteration is taken from its own series at that iteration.
pub proof fn measures_read_their_own_series<S: Scalar>(a: &AdmmHistory<S>, b: &AdmmHistory<S>, k: int, l: int)
    ensures
        a.consistency_rms@[k]@ == b.consistency_rms@[l]@ ==> metrics_of(a, k).consistency == metrics_of(
            b,
            l,
        ).consistency,
        a.primal_res@[k]@ == b.primal_res@[l]@ ==> metrics_of(a, k).primal == metrics_of(b, l).primal,
        a.dual_res@[k]@ == b.dual_res@[l]@ ==> metrics_of(a, k).dual == metrics_of(b, l).dual,
{
}

/// Numbers count: one more makes a count larger by one, and a multiple divided by its count is
/// the number.
pub open spec fn counts<S: Scalar>() -> bool {
    &&& S::spec_from_count(0) == S::spec_zero()
    &&& forall|n: nat| (#[trigger] S::spec_from_count(n + 1)) == S::spec_from_count(n).spec_plus(S::spec_one())
    &&& forall|n: nat, c: S|
        n > 0 ==> (#[trigger] S::spec_from_count(n).spec_times(c)).spec_over(S::spec_from_count(n)) == c
}

proof fn one_more<S: Scalar>(n: nat, c: S)
    requires
        exact::<S>(),
        counts::<S>(),
    ensures
        S::spec_from_count(n).spec_times(c).spec_plus(c) == S::spec_from_count(n + 1).spec_times(c),
{
    let f = S::spec_from_count(n);
    let one = S::spec_one();
    assert(S::spec_from_count(n + 1) == f.spec_plus(one));
    times_flip(f.spec_plus(one), c);
    times_spread(c, f, one);
    times_flip(c, f);
    times_one(c);
}

proof fn even_sum<S: Scalar>(x: Seq<S>, c: S, n: nat)
    requires
        exact::<S>(),
        counts::<S>(),
        n <= x.len(),
        forall|i: int| 0 <= i < n ==> #[trigger] x[i] == c,
    ensures
        sum_acc(S::spec_zero(), x, n) == S::spec_from_count(n).spec_times(c),
    decreases n,
{
    if n > 0 {
        even_sum(x, c, (n - 1) as nat);
        one_more((n - 1) as nat, c);
    } else {
        times_flip(S::spec_zero(), c);
        times_zero(c);
    }
}

/// The mean of a row whose members are all the same number is that number.
pub proof fn even_rows_have_their_member_as_mean<S: Scalar>(x: Seq<S>, c: S)
    requires
        exact::<S>(),
        counts::<S>(),
        x.len() > 0,
        forall|i: int| 0 <= i < x.len() ==> #[trigger] x[i] == c,
    ensures
        mean_of(x) == c,
{
    even_sum(x, c, x.len());
}

proof fn even_row_squares<S: Scalar>(before: nat, row: Seq<S>, c: S, k: nat)
    requires
        exact::<S>(),
        counts::<S>(),
        k <= row.len(),
        forall|i: int| 0 <= i < k ==> #[trigger] row[i] == c,
    ensures
        mul_acc(S::spec_from_count(before).spec_times(c.spec_times(c)), row, row, k) == S::spec_from_count(
            before + k,
        ).spec_times(c.spec_times(c)),
    decreases k,
{
    if k > 0 {
        even_row_squares(before, row, c, (k - 1) as nat);
        one_more((before + k - 1) as nat, c.spec_times(c));
        assert(before + (k - 1) as nat == (before + k - 1) as nat);
        assert((before + k - 1) as nat + 1 == before + k);
    }
}

proof fn even_squares<S: Scalar>(a: Arr2<S>, c: S, i: nat)
    requires
        exact::<S>(),
        counts::<S>(),
        a.wf(),
        i <= a.rows,
        forall|y: int, x: int| 0 <= y < a.rows && 0 <= x < a.cols ==> #[trigger] a.at(y, x) == c,
    ensures
        squares_of(a, i) == S::spec_from_count(i * a.cols).spec_times(c.spec_times(c)),
    decreases i,
{
    if i > 0 {
        even_squares(a, c, (i - 1) as nat);
        let before = ((i - 1) * a.cols) as nat;
        assert(before + a.cols == i * a.cols) by (nonlinear_arith)
            requires
                before == (i - 1) * a.cols,
        ;
        let row = a.data[i - 1];
        assert forall|x: int| 0 <= x < a.cols implies #[trigger] row[x] == c by {
            assert(a.at(i - 1, x) == c);
        }
        even_row_squares(before, row, c, a.cols);
    } else {
        assert(0 * a.cols == 0) by (nonlinear_arith);
        times_flip(S::spec_zero(), c.spec_times(c));
        times_zero(c.spec_times(c));
    }
}

/// The root mean square of a matrix whose members are all the same number is the root of its
/// square.
pub proof fn even_matrices_measure_their_member<S: Scalar>(a: Arr2<S>, c: S)
    requires
        exact::<S>(),
        counts::<S>(),
        a.wf(),
        a.rows * a.cols > 0,
        forall|y: int, x: int| 0 <= y < a.rows && 0 <= x < a.cols ==> #[trigger] a.at(y, x) == c,
    ensures
        rms_of_all(a) == c.spec_times(c).spec_sqrt(),
{
    even_squares(a, c, a.rows);
}

/// The agent in row `r` and column `c` of the centers stands half a patch and as many strides
/// from the top and from the left, and is listed row by row.
pub proof fn centers_lie_on_their_grid(h: int, w: int, stride: int, patch_size: int, r: int, c: int)
    requires
        0 < stride,
        0 <= patch_size,
        0 <= r < axis_count(h, stride, patch_size),
        0 <= c < axis_count(w, stride, patch_size),
        h <= i64::MAX,
        w <= i64::MAX,
        patch_size / 2 + r * stride < h,
        patch_size / 2 + c * stride < w,
    ensures
        ({
            let centers = centers_of(h, w, stride, patch_size);
            let i = r * axis_count(w, stride, patch_size) + c;
            &&& 0 <= i < centers.rows
            &&& centers.at(i, 0) == patch_size / 2 + r * stride
            &&& centers.at(i, 1) == patch_size / 2 + c * stride
        }),
{
    let ny = axis_count(h, stride, patch_size);
    let nx = axis_count(w, stride, patch_size);
    let i = r * nx + c;
    assert(0 <= i < ny * nx && i / nx == r && i % nx == c) by (nonlinear_arith)
        requires
            0 <= r < ny,
            0 <= c < nx,
            i == r * nx + c,
    ;
    assert(0 <= r * stride && 0 <= c * stride) by (nonlinear_arith)
        requires
            0 <= r,
            0 <= c,
            0 < stride,
    ;
}

/// There are as many rows of centers as strides fit: the next would leave the image.
pub proof fn centers_fill_their_axis(dim: int, stride: int, patch_size: int)
    requires
        0 < stride,
        0 <= patch_size,
    ensures
        patch_size / 2 + axis_count(dim, stride, patch_size) * stride >= dim,
        axis_count(dim, stride, patch_size) > 0 ==> patch_size / 2 + (axis_count(dim, stride, patch_size) - 1)
            * stride < dim,
{
    if patch_size / 2 < dim {
        let x = dim - patch_size / 2 - 1;
        let n = x / stride;
        assert((n + 1) * stride > x && n * stride <= x) by (nonlinear_arith)
            requires
                n == x / stride,
                0 < stride,
                0 <= x,
        ;
    }
}

/// A solve tells of each agent where it stands, row before column, and how large its patch is.
pub proof fn agents_are_told_where_they_stand<S: Scalar>(
    model: &SheafAdmmModel<S>,
    tokens: Seq<u8>,
    height: nat,
    width: nat,
    k: nat,
    i: int,
)
    requires
        ({
            let scene = scene_of(&model.config, image_of(tokens, height, width));
            &&& 0 <= i < scene.centers.rows
            &&& 0 <= scene.centers.at(i, 0) <= u32::MAX
            &&& 0 <= scene.centers.at(i, 1) <= u32::MAX
        }),
        model.config.task.patch_size <= u32::MAX,
    ensures
        ({
            let t = &model.config.task;
            let centers = centers_of(height as int, width as int, t.stride as int, t.patch_size as int);
            let meta = solve_of(model, tokens, height, width, k).agent_meta;
            &&& meta.len() == 3 * centers.rows
            &&& meta[3 * i] == centers.at(i, 0)
            &&& meta[3 * i + 1] == centers.at(i, 1)
            &&& meta[3 * i + 2] == t.patch_size
        }),
{
    assert((3 * i) % 3 == 0 && (3 * i) / 3 == i);
    assert((3 * i + 1) % 3 == 1 && (3 * i + 1) / 3 == i);
    assert((3 * i + 2) % 3 == 2);
}

/// The agent measures of an iteration are those of the consensus that the iteration leaves, and
/// the first of its three residuals is the consistency of the same consensus.
pub proof fn agents_measure_what_the_iteration_leaves<S: Scalar>(
    model: &SheafAdmmModel<S>,
    tokens: Seq<u8>,
    height: nat,
    width: nat,
    k: nat,
    i: int,
    a: int,
)
    requires
        0 <= i < k,
        0 <= a < scene_of(&model.config, image_of(tokens, height, width)).centers.rows,
    ensures
        ({
            let scene = scene_of(&model.config, image_of(tokens, height, width));
            let problem = model.problem(scene.graph, scene.patches);
            let left = problem.iterate(model.seed(scene.patches), (i + 1) as nat).z;
            let solve = solve_of(model, tokens, height, width, k);
            &&& solve.agent_cons[i].len() == scene.centers.rows
            &&& solve.agent_cons[i][a] == node_rms(problem.ops.residuals_of(left), scene.graph.edges, a)
            &&& solve.residuals[3 * i] == crate::geometry::consistency_of(problem.ops.residuals_of(left))[0]
        }),
{
    assert((3 * i) % 3 == 0 && (3 * i) / 3 == i);
}

} // verus!
