//! Per-iteration measures of a run, and which iterations a summary shows.
use crate::admm::AdmmHistory;
use crate::laws::metrics::{last_of_largest, peak_is_last_of_largest, ranks_values};
use crate::scalar::{accumulate, accumulate_products, mul_acc, sum_acc, Scalar};
use crate::tensor::{Arr2, Matrix};
use vstd::prelude::*;

verus! {

/// The mean of a row of numbers.
pub open spec fn mean_of<S: Scalar>(x: Seq<S>) -> S {
    sum_acc(S::spec_zero(), x, x.len()).spec_over(S::spec_from_count(x.len()))
}

/// Sum of the squares of the first `i` rows, in memory order.
pub open spec fn squares_of<S: Scalar>(a: Arr2<S>, i: nat) -> S
    decreases i,
{
    if i == 0 {
        S::spec_zero()
    } else {
        mul_acc(squares_of(a, (i - 1) as nat), a.data[i - 1], a.data[i - 1], a.cols)
    }
}

/// Root mean square of all members.
pub open spec fn rms_of_all<S: Scalar>(a: Arr2<S>) -> S {
    squares_of(a, a.rows).spec_over(S::spec_from_count(a.rows * a.cols)).spec_sqrt()
}

/// Root mean square of all members.
pub fn rms<S: Scalar>(a: &Matrix<S>) -> (r: S)
    requires
        a.wf(),
        a@.rows * a@.cols <= usize::MAX,
    ensures
        r == rms_of_all(a@),
{
    let n = a.nrows();
    let mut sum = S::zero();
    for i in 0..n
        invariant
            a.wf(),
            n == a@.rows,
            sum == squares_of(a@, i as nat),
    {
        assert(a@.data[i as int].len() == a@.cols);
        sum = accumulate_products(sum, a.row(i), a.row(i));
    }
    sum.over(S::from_count(n * a.ncols())).sqrt()
}

/// The measures of one iteration: batch mean of the consistency, root mean squares of the
/// primal and of the dual residuals.
#[derive(Debug, Clone, Copy)]
pub struct IterationMetrics<S> {
    pub consistency: S,
    pub primal: S,
    pub dual: S,
}

pub open spec fn metrics_of<S: Scalar>(history: &AdmmHistory<S>, k: int) -> IterationMetrics<S> {
    IterationMetrics {
        consistency: mean_of(history.consistency_rms@[k]@),
        primal: rms_of_all(history.primal_res@[k]@),
        dual: rms_of_all(history.dual_res@[k]@),
    }
}

impl<S: Scalar> IterationMetrics<S> {
    pub open spec fn finite(self) -> bool {
        self.consistency.spec_is_finite() && self.primal.spec_is_finite() && self.dual.spec_is_finite()
    }
}

/// A history has measures for each of its iterations.
pub open spec fn measurable<S: Scalar>(history: &AdmmHistory<S>) -> bool {
    let k = history.x@.len();
    &&& history.consistency_rms@.len() == k
    &&& history.primal_res@.len() == k
    &&& history.dual_res@.len() == k
    &&& forall|i: int|
        0 <= i < k ==> (#[trigger] history.primal_res@[i])@.wf() && history.primal_res@[i]@.rows
            * history.primal_res@[i]@.cols <= usize::MAX
    &&& forall|i: int|
        0 <= i < k ==> (#[trigger] history.dual_res@[i])@.wf() && history.dual_res@[i]@.rows
            * history.dual_res@[i]@.cols <= usize::MAX
}

/// The measures of every iteration; the first iteration with one that is not finite, and its
/// measures, where there is one.
pub fn run_metrics<S: Scalar>(history: &AdmmHistory<S>) -> (r: Result<
    Vec<IterationMetrics<S>>,
    (usize, IterationMetrics<S>),
>)
    requires
        measurable(history),
    ensures
        match r {
            Ok(metrics) => {
                &&& metrics@.len() == history.x@.len()
                &&& forall|i: int|
                    0 <= i < metrics@.len() ==> #[trigger] metrics@[i] == metrics_of(history, i)
                        && metrics@[i].finite()
            },
            Err((k, measures)) => {
                &&& k < history.x@.len()
                &&& measures == metrics_of(history, k as int)
                &&& !measures.finite()
                &&& forall|i: int| 0 <= i < k ==> (#[trigger] metrics_of(history, i)).finite()
            },
        },
{
    let mut out: Vec<IterationMetrics<S>> = Vec::new();
    for k in 0..history.x.len()
        invariant
            measurable(history),
            out@.len() == k,
            forall|i: int|
                0 <= i < k ==> #[trigger] out@[i] == metrics_of(history, i) && out@[i].finite(),
    {
        let row = &history.consistency_rms[k];
        let consistency = accumulate(S::zero(), row.as_slice()).over(S::from_count(row.len()));
        assert(history.primal_res@[k as int]@.wf());
        assert(history.dual_res@[k as int]@.wf());
        let primal = rms(&history.primal_res[k]);
        let dual = rms(&history.dual_res[k]);
        if !(consistency.is_finite() && primal.is_finite() && dual.is_finite()) {
            assert forall|i: int| 0 <= i < k implies (#[trigger] metrics_of(history, i)).finite() by {
                assert(out@[i] == metrics_of(history, i));
            }
            return Err((k, IterationMetrics { consistency, primal, dual }));
        }
        out.push(IterationMetrics { consistency, primal, dual });
    }
    Ok(out)
}

/// The iterations that a summary lists: every fifth, and the last.
pub open spec fn in_summary(total: int, k: int) -> bool {
    0 <= k < total && (k % 5 == 0 || k == total - 1)
}

/// A list of numbers rises.
pub open spec fn rising(list: Seq<usize>) -> bool {
    forall|i: int, j: int| 0 <= i < j < list.len() ==> #[trigger] list[i] < #[trigger] list[j]
}

/// Lists every fifth iteration and the last, in order and once each.
pub fn summary_rows(total: usize) -> (r: Vec<usize>)
    ensures
        rising(r@),
        forall|k: usize| #[trigger] r@.contains(k) <==> in_summary(total as int, k as int),
{
    let mut out: Vec<usize> = Vec::new();
    for k in 0..total
        invariant
            rising(out@),
            forall|i: int| 0 <= i < out@.len() ==> #[trigger] out@[i] < k && in_summary(total as int, out@[i] as int),
            forall|j: usize| j < k && in_summary(total as int, j as int) ==> #[trigger] out@.contains(j),
    {
        if k % 5 == 0 || k == total - 1 {
            let ghost before = out@;
            out.push(k);
            assert forall|j: usize| j < k + 1 && in_summary(total as int, j as int) implies #[trigger] out@.contains(
                j,
            ) by {
                if j < k {
                    assert(before.contains(j));
                    let i = choose|i: int| 0 <= i < before.len() && before[i] == j;
                    assert(out@[i] == j);
                } else {
                    assert(out@[before.len() as int] == k);
                }
            }
        }
    }
    assert forall|k: usize| #[trigger] out@.contains(k) implies in_summary(total as int, k as int) by {
        let i = choose|i: int| 0 <= i < out@.len() && out@[i] == k;
        assert(in_summary(total as int, out@[i] as int));
    }
    out
}

/// The iterations shown without animation: first, middle and last, once each.
pub fn key_frames(total: usize) -> (r: Vec<usize>)
    requires
        total > 0,
    ensures
        rising(r@),
        forall|k: usize| #[trigger]
            r@.contains(k) <==> k == 0 || k == (total - 1) as usize / 2 || k == total - 1,
{
    let middle = (total - 1) / 2;
    let last = total - 1;
    let mut out: Vec<usize> = vec![0];
    assert(out@[0] == 0);
    if middle > 0 {
        out.push(middle);
        assert(out@[1] == middle);
    }
    let ghost before = out@;
    if last > middle {
        out.push(last);
        assert(out@[out@.len() - 1] == last);
    }
    assert(out@[0] == 0);
    assert(middle > 0 ==> out@[1] == middle);
    assert forall|k: usize| #[trigger] out@.contains(k) <==> k == 0 || k == middle || k == last by {
        if out@.contains(k) {
            let i = choose|i: int| 0 <= i < out@.len() && out@[i] == k;
        }
    }
    out
}

/// The last iteration whose consistency no other exceeds, in the order of the scan.
pub open spec fn peak_of<S: Scalar>(values: Seq<S>, n: nat) -> nat
    decreases n,
{
    if n <= 1 {
        0
    } else {
        let before = peak_of(values, (n - 1) as nat);
        if values[n - 1].spec_less(values[before as int]) {
            before
        } else {
            (n - 1) as nat
        }
    }
}

proof fn peak_inside<S: Scalar>(values: Seq<S>, n: nat)
    requires
        n > 0,
    ensures
        peak_of(values, n) < n,
    decreases n,
{
    if n > 1 {
        peak_inside(values, (n - 1) as nat);
    }
}

/// Finds the iteration at which the consistency peaks.
pub fn peak_consistency<S: Scalar>(metrics: &Vec<IterationMetrics<S>>) -> (r: usize)
    requires
        metrics@.len() > 0,
    ensures
        r == peak_of(metrics@.map_values(|m: IterationMetrics<S>| m.consistency), metrics@.len()),
        r < metrics@.len(),
        ({
            let values = metrics@.map_values(|m: IterationMetrics<S>| m.consistency);
            ranks_values(values, values.len()) ==> last_of_largest(values, values.len(), r as int)
        }),
{
    let ghost values = metrics@.map_values(|m: IterationMetrics<S>| m.consistency);
    let mut best: usize = 0;
    for i in 1..metrics.len()
        invariant
            metrics@.len() > 0,
            values == metrics@.map_values(|m: IterationMetrics<S>| m.consistency),
            best < i,
            best == peak_of(values, i as nat),
    {
        assert(values[i as int] == metrics@[i as int].consistency);
        assert(values[best as int] == metrics@[best as int].consistency);
        if !metrics[i].consistency.less(metrics[best].consistency) {
            best = i;
        }
    }
    proof {
        if ranks_values(values, values.len()) {
            peak_is_last_of_largest(values, values.len());
        }
    }
    best
}

/// Whether the consistency fell from its peak; a single iteration counts as falling.
pub fn consistency_fell<S: Scalar>(metrics: &Vec<IterationMetrics<S>>) -> (r: bool)
    requires
        metrics@.len() > 0,
    ensures
        r == (metrics@.len() == 1 || metrics@.last().consistency.spec_less(
            metrics@[peak_of(
                metrics@.map_values(|m: IterationMetrics<S>| m.consistency),
                metrics@.len(),
            ) as int].consistency,
        )),
{
    let peak = peak_consistency(metrics);
    let last = metrics.len() - 1;
    metrics.len() == 1 || metrics[last].consistency.less(metrics[peak].consistency)
}

} // verus!
