//! Panel slots on a grid.
use crate::tensor::{Arr2, Matrix};
use vstd::prelude::*;

verus! {

/// A list rises, and has the same members as a column.
pub open spec fn ranks(list: Seq<i64>, centers: Arr2<i64>, column: int) -> bool {
    &&& forall|i: int, j: int| 0 <= i < j < list.len() ==> #[trigger] list[i] < #[trigger] list[j]
    &&& forall|r: int| 0 <= r < centers.rows ==> list.contains(#[trigger] centers.at(r, column))
    &&& forall|i: int| 0 <= i < list.len() ==> occurs(centers, column, #[trigger] list[i])
}

/// A value occurs in a column.
pub open spec fn occurs(centers: Arr2<i64>, column: int, v: i64) -> bool {
    exists|r: int| 0 <= r < centers.rows && #[trigger] centers.at(r, column) == v
}

/// The least number whose square is not below `n`.
pub open spec fn root_above(n: int, c: int) -> bool {
    0 <= c && c * c >= n && (c == 0 || (c - 1) * (c - 1) < n)
}

/// Where a value belongs in a rising list: how many members are below it.
fn insert_at(list: &Vec<i64>, v: i64) -> (r: usize)
    requires
        forall|i: int, j: int| 0 <= i < j < list@.len() ==> #[trigger] list@[i] < #[trigger] list@[j],
    ensures
        r <= list@.len(),
        forall|i: int| 0 <= i < r ==> #[trigger] list@[i] < v,
        forall|i: int| r <= i < list@.len() ==> #[trigger] list@[i] >= v,
{
    let mut at: usize = 0;
    while at < list.len() && list[at] < v
        invariant
            at <= list@.len(),
            forall|i: int| 0 <= i < at ==> #[trigger] list@[i] < v,
        decreases list@.len() - at,
    {
        at = at + 1;
    }
    assert forall|i: int| at <= i < list@.len() implies #[trigger] list@[i] >= v by {
        assert(list@[at as int] >= v);
    }
    at
}

/// Lists the different values of a column, rising.
fn distinct_values(centers: &Matrix<i64>, column: usize) -> (r: Vec<i64>)
    requires
        centers.wf(),
        column < centers@.cols,
    ensures
        ranks(r@, centers@, column as int),
{
    let n = centers.nrows();
    let mut list: Vec<i64> = Vec::new();
    for a in 0..n
        invariant
            centers.wf(),
            column < centers@.cols,
            n == centers@.rows,
            forall|i: int, j: int| 0 <= i < j < list@.len() ==> #[trigger] list@[i] < #[trigger] list@[j],
            forall|r: int| 0 <= r < a ==> list@.contains(#[trigger] centers@.at(r, column as int)),
            forall|i: int| 0 <= i < list@.len() ==> occurs(centers@, column as int, #[trigger] list@[i]),
    {
        let v = centers.get(a, column);
        let at = insert_at(&list, v);
        let ghost before = list@;
        if at == list.len() || list[at] != v {
            list.insert(at, v);
            proof {
                assert(list@ =~= before.insert(at as int, v));
                assert(list@[at as int] == v);
                assert forall|r: int| 0 <= r < a implies list@.contains(#[trigger] centers@.at(r, column as int)) by {
                    let w = centers@.at(r, column as int);
                    let i = choose|i: int| 0 <= i < before.len() && before[i] == w;
                    if i < at {
                        assert(list@[i] == w);
                    } else {
                        assert(list@[i + 1] == w);
                    }
                }
                assert(centers@.at(a as int, column as int) == v);
                assert forall|i: int| 0 <= i < list@.len() implies occurs(centers@, column as int, #[trigger] list@[i]) by {
                    if i < at {
                        assert(list@[i] == before[i]);
                    } else if i > at {
                        assert(list@[i] == before[i - 1]);
                    }
                }
            }
        } else {
            assert(list@[at as int] == v);
        }
    }
    list
}

/// The index of a member of a rising list.
fn index_of(list: &Vec<i64>, v: i64) -> (r: usize)
    requires
        list@.contains(v),
    ensures
        r < list@.len(),
        list@[r as int] == v,
{
    for i in 0..list.len()
        invariant
            list@.contains(v),
            forall|j: int| 0 <= j < i ==> list@[j] != v,
    {
        if list[i] == v {
            return i;
        }
    }
    assert(false);
    0
}

/// The slot of each panel is given by the ranks of its center's coordinates.
pub open spec fn slots_follow(ys: Seq<i64>, xs: Seq<i64>, c: Arr2<i64>, n: int, slots: Seq<(usize, usize)>) -> bool {
    &&& ranks(ys, c, 0)
    &&& ranks(xs, c, 1)
    &&& forall|a: int|
        0 <= a < n ==> {
            let (i, j) = #[trigger] slots[a];
            i < ys.len() && j < xs.len() && ys[i as int] == c.at(a, 0) && xs[j as int] == c.at(a, 1)
        }
}

/// Panels are laid out by the different rows and columns of their centers.
pub open spec fn follows_centers(c: Arr2<i64>, n: int, rows: int, cols: int, slots: Seq<(usize, usize)>) -> bool {
    exists|ys: Seq<i64>, xs: Seq<i64>| #[trigger]
        slots_follow(ys, xs, c, n, slots) && rows == ys.len() && cols == xs.len()
}

/// The slots of a layout: rows and columns of panels, and where each of `n` panels goes.
pub open spec fn layout_is(
    n: int,
    centers: Option<Arr2<i64>>,
    rows: int,
    cols: int,
    slots: Seq<(usize, usize)>,
) -> bool {
    &&& slots.len() == n
    &&& match centers {
        Some(c) => follows_centers(c, n, rows, cols, slots),
        None => {
            &&& root_above(n, cols)
            &&& rows == (n + cols - 1) / cols
            &&& forall|a: int|
                0 <= a < n ==> (#[trigger] slots[a]).0 == a / cols && slots[a].1 == a % cols
        },
    }
}

/// Panel slots: agent centers lay panels out on the agent grid; without them, a near-square
/// grid in agent order.
pub fn grid_layout(n: usize, centers: Option<&Matrix<i64>>) -> (r: (usize, usize, Vec<(usize, usize)>))
    requires
        match centers {
            Some(c) => c.wf() && c@.cols == 2 && n <= c@.rows,
            None => 0 < n <= usize::MAX / 2,
        },
    ensures
        layout_is(
            n as int,
            match centers {
                Some(c) => Some(c@),
                None => None,
            },
            r.0 as int,
            r.1 as int,
            r.2@,
        ),
{
    match centers {
        Some(c) => {
            let ys = distinct_values(c, 0);
            let xs = distinct_values(c, 1);
            let mut slots: Vec<(usize, usize)> = Vec::new();
            for a in 0..n
                invariant
                    c.wf(),
                    c@.cols == 2,
                    n <= c@.rows,
                    ranks(ys@, c@, 0),
                    ranks(xs@, c@, 1),
                    slots@.len() == a,
                    forall|b: int|
                        0 <= b < a ==> {
                            let (i, j) = #[trigger] slots@[b];
                            i < ys@.len() && j < xs@.len() && ys@[i as int] == c@.at(b, 0) && xs@[j as int]
                                == c@.at(b, 1)
                        },
            {
                let y = c.get(a, 0);
                let x = c.get(a, 1);
                slots.push((index_of(&ys, y), index_of(&xs, x)));
            }
            assert(slots_follow(ys@, xs@, c@, n as int, slots@));
            (ys.len(), xs.len(), slots)
        },
        None => {
            let mut cols: usize = 1;
            while cols <= (n - 1) / cols
                invariant
                    1 <= cols <= n,
                    (cols - 1) * (cols - 1) < n,
                decreases n - cols,
            {
                proof {
                    below_root(n as int, cols as int);
                }
                cols = cols + 1;
            }
            proof {
                at_root(n as int, cols as int);
            }
            let rows = (n + cols - 1) / cols;
            let mut slots: Vec<(usize, usize)> = Vec::new();
            for a in 0..n
                invariant
                    1 <= cols,
                    slots@.len() == a,
                    forall|b: int|
                        0 <= b < a ==> (#[trigger] slots@[b]).0 == b / cols as int && slots@[b].1 == b
                            % cols as int,
            {
                slots.push((a / cols, a % cols));
            }
            assert(layout_is(n as int, None, rows as int, cols as int, slots@));
            (rows, cols, slots)
        },
    }
}

proof fn below_root(n: int, c: int)
    requires
        1 <= c,
        c <= (n - 1) / c,
    ensures
        c * c < n,
        c < n,
{
    let q = (n - 1) / c;
    assert(q * c <= n - 1) by (nonlinear_arith)
        requires
            c >= 1,
            q == (n - 1) / c,
    ;
    assert(c * c <= q * c && c <= c * c) by (nonlinear_arith)
        requires
            1 <= c <= q,
    ;
}

proof fn at_root(n: int, c: int)
    requires
        1 <= c,
        c > (n - 1) / c,
    ensures
        c * c >= n,
{
    let q = (n - 1) / c;
    assert(n - 1 < (q + 1) * c) by (nonlinear_arith)
        requires
            c >= 1,
            q == (n - 1) / c,
    ;
    assert((q + 1) * c <= c * c) by (nonlinear_arith)
        requires
            q + 1 <= c,
            1 <= c,
    ;
}

} // verus!
