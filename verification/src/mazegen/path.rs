//! Shortest paths through a maze.
use crate::tensor::{Arr2, Matrix};
use crate::views::{TOKEN_GOAL, TOKEN_START, TOKEN_WALL};
use vstd::prelude::*;

verus! {

/// The cell lies in the maze and is no wall.
pub open spec fn free(t: Arr2<i64>, c: (int, int)) -> bool {
    0 <= c.0 < t.rows && 0 <= c.1 < t.cols && t.at(c.0, c.1) != TOKEN_WALL
}

/// The cell above, right of, below or left of a cell.
pub open spec fn neighbor(c: (int, int), k: int) -> (int, int) {
    if k == 0 {
        (c.0 - 1, c.1)
    } else if k == 1 {
        (c.0, c.1 + 1)
    } else if k == 2 {
        (c.0 + 1, c.1)
    } else {
        (c.0, c.1 - 1)
    }
}

/// Two cells share a side.
pub open spec fn beside(a: (int, int), b: (int, int)) -> bool {
    b == neighbor(a, 0) || b == neighbor(a, 1) || b == neighbor(a, 2) || b == neighbor(a, 3)
}

/// A walk of `d` steps through free cells leads from `s` to `c`.
pub open spec fn walk(t: Arr2<i64>, s: (int, int), c: (int, int), d: nat) -> bool
    decreases d,
{
    free(t, c) && if d == 0 {
        s == c
    } else {
        let e = (d - 1) as nat;
        walk(t, s, neighbor(c, 0), e) || walk(t, s, neighbor(c, 1), e) || walk(t, s, neighbor(c, 2), e)
            || walk(t, s, neighbor(c, 3), e)
    }
}

/// The shortest walk from `s` to `c` has `d` steps.
pub open spec fn shortest(t: Arr2<i64>, s: (int, int), c: (int, int), d: nat) -> bool {
    walk(t, s, c, d) && forall|e: nat| e < d ==> !walk(t, s, c, e)
}

/// The first cell with a token, in row-major order from cell number `p`.
pub open spec fn first_from(t: Arr2<i64>, token: i64, p: nat) -> Option<(int, int)>
    decreases t.rows * t.cols - p,
{
    if p >= t.rows * t.cols {
        None
    } else if t.at(p as int / t.cols as int, p as int % t.cols as int) == token {
        Some((p as int / t.cols as int, p as int % t.cols as int))
    } else {
        first_from(t, token, p + 1)
    }
}

/// The first cell with a token, in row-major order.
pub open spec fn find_token(t: Arr2<i64>, token: i64) -> Option<(int, int)> {
    first_from(t, token, 0)
}

/// A walk of at most `d` steps leads from `s` to `c`.
spec fn within(t: Arr2<i64>, s: (int, int), c: (int, int), d: nat) -> bool
    decreases d,
{
    walk(t, s, c, d) || (d > 0 && within(t, s, c, (d - 1) as nat))
}

/// A cell beside one that is within `d` steps.
spec fn near(t: Arr2<i64>, s: (int, int), c: (int, int), d: nat) -> bool {
    free(t, c) && (within(t, s, neighbor(c, 0), d) || within(t, s, neighbor(c, 1), d) || within(
        t,
        s,
        neighbor(c, 2),
        d,
    ) || within(t, s, neighbor(c, 3), d))
}

/// One more step reaches what was reached, and the free cells beside it.
proof fn within_step(t: Arr2<i64>, s: (int, int), c: (int, int), d: nat)
    ensures
        within(t, s, c, d + 1) == (within(t, s, c, d) || near(t, s, c, d)),
    decreases d,
{
    if d > 0 {
        within_step(t, s, c, (d - 1) as nat);
    }
}

proof fn within_free(t: Arr2<i64>, s: (int, int), c: (int, int), d: nat)
    requires
        within(t, s, c, d),
    ensures
        free(t, c),
    decreases d,
{
    if d > 0 && !walk(t, s, c, d) {
        within_free(t, s, c, (d - 1) as nat);
    }
}

proof fn walk_is_within(t: Arr2<i64>, s: (int, int), c: (int, int), e: nat, d: nat)
    requires
        e <= d,
        walk(t, s, c, e),
    ensures
        within(t, s, c, d),
    decreases d,
{
    if e < d {
        walk_is_within(t, s, c, e, (d - 1) as nat);
    }
}

/// Where one more step reaches nothing new, no number of steps does.
proof fn within_closed(t: Arr2<i64>, s: (int, int), d: nat, e: nat, c: (int, int))
    requires
        forall|x: (int, int)| #[trigger] within(t, s, x, d + 1) ==> within(t, s, x, d),
        d <= e,
        within(t, s, c, e),
    ensures
        within(t, s, c, d),
    decreases e,
{
    if e > d {
        let f = (e - 1) as nat;
        within_step(t, s, c, f);
        if within(t, s, c, f) {
            within_closed(t, s, d, f, c);
        } else {
            if within(t, s, neighbor(c, 0), f) {
                within_closed(t, s, d, f, neighbor(c, 0));
            } else if within(t, s, neighbor(c, 1), f) {
                within_closed(t, s, d, f, neighbor(c, 1));
            } else if within(t, s, neighbor(c, 2), f) {
                within_closed(t, s, d, f, neighbor(c, 2));
            } else {
                within_closed(t, s, d, f, neighbor(c, 3));
            }
            within_step(t, s, c, d);
            assert(within(t, s, c, d + 1));
        }
    }
}

/// How many of the first `j` marks of a row are unset.
spec fn unset_in_row(row: Seq<bool>, j: nat) -> nat
    decreases j,
{
    if j == 0 {
        0
    } else {
        unset_in_row(row, (j - 1) as nat) + (if row[j - 1] {
            0nat
        } else {
            1
        })
    }
}

/// How many marks of the first `i` rows are unset.
spec fn unset(v: Arr2<bool>, i: nat) -> nat
    decreases i,
{
    if i == 0 {
        0
    } else {
        unset(v, (i - 1) as nat) + unset_in_row(v.data[i - 1], v.cols)
    }
}

proof fn unset_row_set(a: Seq<bool>, b: Seq<bool>, x: int, j: nat)
    requires
        a.len() == b.len(),
        j <= a.len(),
        0 <= x < a.len(),
        !a[x],
        b[x],
        forall|k: int| 0 <= k < a.len() && k != x ==> a[k] == b[k],
    ensures
        unset_in_row(a, j) == unset_in_row(b, j) + (if x < j {
            1nat
        } else {
            0
        }),
    decreases j,
{
    if j > 0 {
        unset_row_set(a, b, x, (j - 1) as nat);
    }
}

/// Setting one unset mark leaves one less unset.
proof fn unset_set(a: Arr2<bool>, b: Arr2<bool>, y: int, x: int, i: nat)
    requires
        a.wf(),
        b.has_shape(a.rows, a.cols),
        i <= a.rows,
        0 <= y < a.rows,
        0 <= x < a.cols,
        !a.at(y, x),
        forall|p: int, q: int|
            0 <= p < a.rows && 0 <= q < a.cols ==> #[trigger] b.at(p, q) == if p == y && q == x {
                true
            } else {
                a.at(p, q)
            },
    ensures
        unset(a, i) == unset(b, i) + (if y < i {
            1nat
        } else {
            0
        }),
    decreases i,
{
    if i > 0 {
        unset_set(a, b, y, x, (i - 1) as nat);
        let ra = a.data[i - 1];
        let rb = b.data[i - 1];
        assert forall|q: int| 0 <= q < a.cols implies rb[q] == if i - 1 == y && q == x {
            true
        } else {
            ra[q]
        } by {
            assert(b.at(i - 1, q) == rb[q]);
        }
        if i - 1 == y {
            unset_row_set(ra, rb, x, a.cols);
        } else {
            assert(ra =~= rb);
        }
    }
}

/// The cell lies in the maze.
spec fn inside(t: Arr2<i64>, c: (int, int)) -> bool {
    0 <= c.0 < t.rows && 0 <= c.1 < t.cols
}

/// A list of cells as pairs of integers.
spec fn cells(list: Seq<(usize, usize)>) -> Seq<(int, int)> {
    list.map_values(|c: (usize, usize)| (c.0 as int, c.1 as int))
}

/// Marks a free cell that is not yet marked, and lists it.
fn visit(t: &Matrix<i64>, seen: &mut Matrix<bool>, next: &mut Vec<(usize, usize)>, y: usize, x: usize)
    requires
        t.wf(),
        old(seen)@.has_shape(t@.rows, t@.cols),
        y < t@.rows,
        x < t@.cols,
    ensures
        final(seen)@.has_shape(t@.rows, t@.cols),
        forall|p: int, q: int|
            0 <= p < t@.rows && 0 <= q < t@.cols ==> #[trigger] final(seen)@.at(p, q) == (old(seen)@.at(p, q) || (
            (p, q) == (y as int, x as int) && free(t@, (p, q)))),
        forall|c: (int, int)| #[trigger]
            cells(final(next)@).contains(c) <==> cells(old(next)@).contains(c) || (c == (y as int, x as int)
                && free(t@, c) && !old(seen)@.at(c.0, c.1)),
        unset(final(seen)@, t@.rows) + final(next)@.len() == unset(old(seen)@, t@.rows) + old(next)@.len(),
{
    if t.get(y, x) != TOKEN_WALL && !seen.get(y, x) {
        seen.set(y, x, true);
        next.push((y, x));
        proof {
            unset_set(old(seen)@, seen@, y as int, x as int, t@.rows);
            let before = cells(old(next)@);
            let after = cells(next@);
            assert(after =~= before.push((y as int, x as int)));
            assert forall|c: (int, int)| #[trigger] after.contains(c) <==> before.contains(c) || c == (
                y as int,
                x as int,
            ) by {
                if before.contains(c) {
                    let i = choose|i: int| 0 <= i < before.len() && before[i] == c;
                    assert(after[i] == c);
                }
                assert(after[before.len() as int] == (y as int, x as int));
                if after.contains(c) {
                    let i = choose|i: int| 0 <= i < after.len() && after[i] == c;
                    if i < before.len() {
                        assert(before[i] == c);
                    }
                }
            }
        }
    }
}

/// Finds the first cell with a token.
fn locate(t: &Matrix<i64>, token: i64) -> (r: Option<(usize, usize)>)
    requires
        t.wf(),
        t@.rows * t@.cols <= usize::MAX,
    ensures
        match r {
            Some(c) => {
                &&& find_token(t@, token) == Some((c.0 as int, c.1 as int))
                &&& c.0 < t@.rows
                &&& c.1 < t@.cols
                &&& t@.at(c.0 as int, c.1 as int) == token
            },
            None => find_token(t@, token) is None,
        },
{
    let rows = t.nrows();
    let cols = t.ncols();
    for p in 0..rows * cols
        invariant
            t.wf(),
            rows == t@.rows,
            cols == t@.cols,
            rows * cols <= usize::MAX,
            find_token(t@, token) == first_from(t@, token, p as nat),
    {
        assert(0 < cols && p as int / cols as int >= 0 && (p as int / cols as int) < rows) by (nonlinear_arith)
            requires
                0 <= p < rows * cols,
                0 <= cols,
        ;
        let y = p / cols;
        let x = p % cols;
        if t.get(y, x) == token {
            return Some((y, x));
        }
    }
    None
}

/// Some listed cell before `i` is beside `c`.
spec fn touched(front: Seq<(int, int)>, i: nat, c: (int, int)) -> bool {
    exists|j: int| 0 <= j < i && beside(#[trigger] front[j], c)
}

/// Visits the neighbours of every listed cell.
fn expand(t: &Matrix<i64>, seen: &mut Matrix<bool>, front: &Vec<(usize, usize)>) -> (next: Vec<(usize, usize)>)
    requires
        t.wf(),
        old(seen)@.has_shape(t@.rows, t@.cols),
        forall|i: int| 0 <= i < front@.len() ==> inside(t@, #[trigger] cells(front@)[i]),
    ensures
        final(seen)@.has_shape(t@.rows, t@.cols),
        forall|p: int, q: int|
            0 <= p < t@.rows && 0 <= q < t@.cols ==> #[trigger] final(seen)@.at(p, q) == (old(seen)@.at(p, q) || (
            free(t@, (p, q)) && touched(cells(front@), front@.len(), (p, q)))),
        forall|c: (int, int)| #[trigger]
            cells(next@).contains(c) <==> inside(t@, c) && final(seen)@.at(c.0, c.1) && !old(seen)@.at(c.0, c.1),
        unset(final(seen)@, t@.rows) + next@.len() == unset(old(seen)@, t@.rows),
{
    let rows = t.nrows();
    let cols = t.ncols();
    let ghost start = seen@;
    let mut next: Vec<(usize, usize)> = Vec::new();
    assert(cells(next@) =~= Seq::empty());
    for i in 0..front.len()
        invariant
            t.wf(),
            rows == t@.rows,
            cols == t@.cols,
            start == old(seen)@,
            start.has_shape(t@.rows, t@.cols),
            seen@.has_shape(t@.rows, t@.cols),
            forall|i: int| 0 <= i < front@.len() ==> inside(t@, #[trigger] cells(front@)[i]),
            forall|p: int, q: int|
                0 <= p < t@.rows && 0 <= q < t@.cols ==> #[trigger] seen@.at(p, q) == (start.at(p, q) || (free(
                    t@,
                    (p, q),
                ) && touched(cells(front@), i as nat, (p, q)))),
            forall|c: (int, int)| #[trigger]
                cells(next@).contains(c) <==> inside(t@, c) && seen@.at(c.0, c.1) && !start.at(c.0, c.1),
            unset(seen@, t@.rows) + next@.len() == unset(start, t@.rows),
    {
        let (y, x) = front[i];
        let ghost here = (y as int, x as int);
        let ghost before = seen@;
        assert(cells(front@)[i as int] == here);
        if y > 0 {
            visit(t, seen, &mut next, y - 1, x);
        }
        if x + 1 < cols {
            visit(t, seen, &mut next, y, x + 1);
        }
        if y + 1 < rows {
            visit(t, seen, &mut next, y + 1, x);
        }
        if x > 0 {
            visit(t, seen, &mut next, y, x - 1);
        }
        assert forall|p: int, q: int| 0 <= p < t@.rows && 0 <= q < t@.cols implies #[trigger] seen@.at(p, q) == (
        start.at(p, q) || (free(t@, (p, q)) && touched(cells(front@), (i + 1) as nat, (p, q)))) by {
            assert(seen@.at(p, q) == (before.at(p, q) || (free(t@, (p, q)) && beside(here, (p, q)))));
            if touched(cells(front@), (i + 1) as nat, (p, q)) {
                let j = choose|j: int| 0 <= j < i + 1 && beside(#[trigger] cells(front@)[j], (p, q));
                if j < i {
                    assert(touched(cells(front@), i as nat, (p, q)));
                }
            }
            if touched(cells(front@), i as nat, (p, q)) {
                let j = choose|j: int| 0 <= j < i && beside(#[trigger] cells(front@)[j], (p, q));
                assert(beside(cells(front@)[j], (p, q)));
            }
            if beside(here, (p, q)) {
                assert(beside(cells(front@)[i as int], (p, q)));
            }
        }
    }
    next
}

proof fn beside_flip(a: (int, int), b: (int, int))
    ensures
        beside(a, b) == beside(b, a),
{
}

/// One round of expansion turns what is within `d` steps into what is within `d + 1`.
proof fn expanded(
    t: Arr2<i64>,
    s: (int, int),
    seen0: Arr2<bool>,
    seen: Arr2<bool>,
    front: Seq<(int, int)>,
    d: nat,
)
    requires
        forall|c: (int, int)| inside(t, c) ==> #[trigger] seen0.at(c.0, c.1) == within(t, s, c, d),
        forall|i: int| 0 <= i < front.len() ==> inside(t, #[trigger] front[i]) && within(t, s, front[i], d),
        forall|c: (int, int)| #[trigger]
            within(t, s, c, d) && (d == 0 || !within(t, s, c, (d - 1) as nat)) ==> front.contains(c),
        forall|p: int, q: int|
            0 <= p < t.rows && 0 <= q < t.cols ==> #[trigger] seen.at(p, q) == (seen0.at(p, q) || (free(
                t,
                (p, q),
            ) && touched(front, front.len(), (p, q)))),
    ensures
        forall|c: (int, int)| inside(t, c) ==> #[trigger] seen.at(c.0, c.1) == within(t, s, c, d + 1),
{
    assert forall|c: (int, int)| inside(t, c) implies #[trigger] seen.at(c.0, c.1) == within(t, s, c, d + 1) by {
        within_step(t, s, c, d);
        assert(seen0.at(c.0, c.1) == within(t, s, c, d));
        if free(t, c) && touched(front, front.len(), c) {
            let j = choose|j: int| 0 <= j < front.len() && beside(#[trigger] front[j], c);
            beside_flip(front[j], c);
            assert(within(t, s, front[j], d));
            assert(near(t, s, c, d));
        }
        if near(t, s, c, d) && !within(t, s, c, d) {
            let u = if within(t, s, neighbor(c, 0), d) {
                neighbor(c, 0)
            } else if within(t, s, neighbor(c, 1), d) {
                neighbor(c, 1)
            } else if within(t, s, neighbor(c, 2), d) {
                neighbor(c, 2)
            } else {
                neighbor(c, 3)
            };
            assert(within(t, s, u, d));
            beside_flip(c, u);
            if d > 0 && within(t, s, u, (d - 1) as nat) {
                within_step(t, s, c, (d - 1) as nat);
                assert(near(t, s, c, (d - 1) as nat));
                assert(false);
            }
            assert(front.contains(u));
            let j = choose|j: int| 0 <= j < front.len() && front[j] == u;
            assert(beside(front[j], c));
            assert(touched(front, front.len(), c));
        }
    }
}

/// The length of the shortest path from start to goal, where there is one.
pub open spec fn path_length(t: Arr2<i64>) -> Option<nat> {
    match (find_token(t, TOKEN_START), find_token(t, TOKEN_GOAL)) {
        (Some(s), Some(g)) => if exists|d: nat| shortest(t, s, g, d) {
            Some(choose|d: nat| shortest(t, s, g, d))
        } else {
            None
        },
        _ => None,
    }
}

/// A shortest walk has the path's length, and there is a path only where there is a walk.
pub proof fn path_length_is_found(t: Arr2<i64>)
    ensures
        match (find_token(t, TOKEN_START), find_token(t, TOKEN_GOAL)) {
            (Some(s), Some(g)) => {
                &&& forall|d: nat| #[trigger] shortest(t, s, g, d) ==> path_length(t) == Some(d)
                &&& (forall|e: nat| !walk(t, s, g, e)) ==> path_length(t) is None
            },
            _ => path_length(t) is None,
        },
{
    match (find_token(t, TOKEN_START), find_token(t, TOKEN_GOAL)) {
        (Some(s), Some(g)) => {
            assert forall|d: nat| #[trigger] shortest(t, s, g, d) implies path_length(t) == Some(d) by {
                let c = choose|c: nat| shortest(t, s, g, c);
                assert(shortest(t, s, g, c));
                if c < d {
                    assert(!walk(t, s, g, c));
                } else if d < c {
                    assert(!walk(t, s, g, d));
                }
            }
        },
        _ => {},
    }
}

/// Length of the shortest path between the start and the goal, `None` where there is no
/// start, no goal or no path.
pub fn bfs_path_len(tokens: &Matrix<i64>) -> (r: Option<usize>)
    requires
        tokens.wf(),
        tokens@.rows * tokens@.cols <= usize::MAX,
    ensures
        match (find_token(tokens@, TOKEN_START), find_token(tokens@, TOKEN_GOAL)) {
            (Some(s), Some(g)) => match r {
                Some(d) => shortest(tokens@, s, g, d as nat),
                None => forall|e: nat| !walk(tokens@, s, g, e),
            },
            _ => r is None,
        },
        match r {
            Some(d) => path_length(tokens@) == Some(d as nat),
            None => path_length(tokens@) is None,
        },
{
    proof {
        path_length_is_found(tokens@);
    }
    let start = match locate(tokens, TOKEN_START) {
        Some(c) => c,
        None => {
            return None;
        },
    };
    let goal = match locate(tokens, TOKEN_GOAL) {
        Some(c) => c,
        None => {
            return None;
        },
    };
    let ghost t = tokens@;
    let ghost s = (start.0 as int, start.1 as int);
    let ghost g = (goal.0 as int, goal.1 as int);
    let mut seen = Matrix::from_elem(tokens.nrows(), tokens.ncols(), false);
    seen.set(start.0, start.1, true);
    let mut front: Vec<(usize, usize)> = vec![start];
    let mut d: usize = 0;
    let total = tokens.nrows() * tokens.ncols();
    proof {
        assert(cells(front@) =~= seq![s]);
        assert forall|c: (int, int)| inside(t, c) implies #[trigger] seen@.at(c.0, c.1) == within(t, s, c, 0) by {}
        assert forall|c: (int, int)| #[trigger] within(t, s, c, 0) implies cells(front@).contains(c) by {
            assert(cells(front@)[0] == s);
        }
        unset_bounded(seen@, t.rows);
    }
    loop
        invariant
            t == tokens@,
            tokens.wf(),
            total == t.rows * t.cols,
            s == (start.0 as int, start.1 as int),
            g == (goal.0 as int, goal.1 as int),
            inside(t, g),
            find_token(t, TOKEN_START) == Some(s),
            find_token(t, TOKEN_GOAL) == Some(g),
            seen@.has_shape(t.rows, t.cols),
            forall|c: (int, int)| inside(t, c) ==> #[trigger] seen@.at(c.0, c.1) == within(t, s, c, d as nat),
            forall|i: int|
                0 <= i < front@.len() ==> inside(t, #[trigger] cells(front@)[i]) && within(
                    t,
                    s,
                    cells(front@)[i],
                    d as nat,
                ),
            forall|c: (int, int)| #[trigger]
                within(t, s, c, d as nat) && (d == 0 || !within(t, s, c, (d - 1) as nat)) ==> cells(
                    front@,
                ).contains(c),
            d > 0 ==> !within(t, s, g, (d - 1) as nat),
            d + unset(seen@, t.rows) <= total,
        decreases unset(seen@, t.rows),
    {
        if seen.get(goal.0, goal.1) {
            proof {
                assert(within(t, s, g, d as nat));
                assert forall|e: nat| e < d implies !walk(t, s, g, e) by {
                    if walk(t, s, g, e) {
                        walk_is_within(t, s, g, e, (d - 1) as nat);
                    }
                }
                path_length_is_found(t);
                assert(shortest(t, s, g, d as nat));
            }
            return Some(d);
        }
        let ghost seen0 = seen@;
        let ghost front0 = cells(front@);
        let next = expand(tokens, &mut seen, &front);
        proof {
            expanded(t, s, seen0, seen@, front0, d as nat);
        }
        if next.len() == 0 {
            proof {
                assert(cells(next@) =~= Seq::empty());
                assert forall|c: (int, int)| #[trigger] within(t, s, c, (d + 1) as nat) implies within(
                    t,
                    s,
                    c,
                    d as nat,
                ) by {
                    within_free(t, s, c, (d + 1) as nat);
                    assert(seen@.at(c.0, c.1));
                    assert(!cells(next@).contains(c));
                    assert(seen0.at(c.0, c.1));
                }
                assert forall|e: nat| !walk(t, s, g, e) by {
                    if walk(t, s, g, e) {
                        if e <= d {
                            walk_is_within(t, s, g, e, d as nat);
                        } else {
                            walk_is_within(t, s, g, e, e);
                            within_closed(t, s, d as nat, e, g);
                        }
                        assert(seen0.at(g.0, g.1));
                    }
                }
            }
            return None;
        }
        proof {
            assert forall|i: int| 0 <= i < next@.len() implies inside(t, #[trigger] cells(next@)[i]) && within(
                t,
                s,
                cells(next@)[i],
                (d + 1) as nat,
            ) by {
                let c = cells(next@)[i];
                assert(cells(next@).contains(c));
                assert(seen@.at(c.0, c.1));
            }
            assert forall|c: (int, int)| #[trigger]
                within(t, s, c, (d + 1) as nat) && !within(t, s, c, d as nat) implies cells(next@).contains(c) by {
                within_free(t, s, c, (d + 1) as nat);
                assert(seen@.at(c.0, c.1));
                assert(!seen0.at(c.0, c.1));
            }
            assert(!seen0.at(g.0, g.1));
        }
        front = next;
        d = d + 1;
    }
}

proof fn unset_row_bounded(row: Seq<bool>, j: nat)
    ensures
        unset_in_row(row, j) <= j,
    decreases j,
{
    if j > 0 {
        unset_row_bounded(row, (j - 1) as nat);
    }
}

proof fn unset_bounded(v: Arr2<bool>, i: nat)
    ensures
        unset(v, i) <= i * v.cols,
    decreases i,
{
    if i > 0 {
        unset_bounded(v, (i - 1) as nat);
        unset_row_bounded(v.data[i - 1], v.cols);
        assert((i - 1) * v.cols + v.cols == i * v.cols) by (nonlinear_arith);
    }
}

} // verus!
