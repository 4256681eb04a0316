//! Walks through mazes, and why every cell of a carved maze can be walked to.
use crate::mazegen::{
    attempt_of, beside, carve_next, carve_start, carved, cell_parts, free, lattice_of, maze_size, neighbor, options_are_steps,
    put, rng_next, rng_pick, step_parts, walk, CarveState, Lattice,
};
use crate::tensor::Arr2;
use crate::views::{TOKEN_EMPTY, TOKEN_GOAL, TOKEN_START, TOKEN_WALL};
use vstd::prelude::*;

verus! {

/// A free cell beside the first of a walk makes it a step longer.
proof fn walk_from_before(t: Arr2<i64>, a: (int, int), b: (int, int), c: (int, int), d: nat)
    requires
        walk(t, b, c, d),
        free(t, a),
        beside(a, b),
    ensures
        walk(t, a, c, d + 1),
    decreases d,
{
    if d == 0 {
        assert(walk(t, a, a, 0));
        assert(a == neighbor(b, 0) || a == neighbor(b, 1) || a == neighbor(b, 2) || a == neighbor(b, 3));
    } else {
        let e = (d - 1) as nat;
        if walk(t, b, neighbor(c, 0), e) {
            walk_from_before(t, a, b, neighbor(c, 0), e);
        } else if walk(t, b, neighbor(c, 1), e) {
            walk_from_before(t, a, b, neighbor(c, 1), e);
        } else if walk(t, b, neighbor(c, 2), e) {
            walk_from_before(t, a, b, neighbor(c, 2), e);
        } else {
            walk_from_before(t, a, b, neighbor(c, 3), e);
        }
    }
}

/// The way back is as long as the way there.
pub proof fn walks_turn_round(t: Arr2<i64>, s: (int, int), c: (int, int), d: nat)
    requires
        walk(t, s, c, d),
    ensures
        walk(t, c, s, d),
    decreases d,
{
    if d > 0 {
        let e = (d - 1) as nat;
        if walk(t, s, neighbor(c, 0), e) {
            walks_turn_round(t, s, neighbor(c, 0), e);
            walk_from_before(t, c, neighbor(c, 0), s, e);
        } else if walk(t, s, neighbor(c, 1), e) {
            walks_turn_round(t, s, neighbor(c, 1), e);
            walk_from_before(t, c, neighbor(c, 1), s, e);
        } else if walk(t, s, neighbor(c, 2), e) {
            walks_turn_round(t, s, neighbor(c, 2), e);
            walk_from_before(t, c, neighbor(c, 2), s, e);
        } else {
            walks_turn_round(t, s, neighbor(c, 3), e);
            walk_from_before(t, c, neighbor(c, 3), s, e);
        }
    }
}

/// One walk behind another is a walk of both lengths.
pub proof fn walks_go_on(t: Arr2<i64>, a: (int, int), b: (int, int), c: (int, int), d: nat, e: nat)
    requires
        walk(t, a, b, d),
        walk(t, b, c, e),
    ensures
        walk(t, a, c, d + e),
    decreases e,
{
    if e > 0 {
        let f = (e - 1) as nat;
        assert((d + e - 1) as nat == d + f);
        if walk(t, b, neighbor(c, 0), f) {
            walks_go_on(t, a, b, neighbor(c, 0), d, f);
        } else if walk(t, b, neighbor(c, 1), f) {
            walks_go_on(t, a, b, neighbor(c, 1), d, f);
        } else if walk(t, b, neighbor(c, 2), f) {
            walks_go_on(t, a, b, neighbor(c, 2), d, f);
        } else {
            walks_go_on(t, a, b, neighbor(c, 3), d, f);
        }
    }
}

pub open spec fn apart(a: int, b: int) -> int {
    if a < b {
        b - a
    } else {
        a - b
    }
}

/// No walk is shorter than rows and columns are apart, and it differs from that by an even
/// number of steps; both of its ends are free cells.
pub proof fn walks_cover_their_distance(t: Arr2<i64>, s: (int, int), c: (int, int), d: nat)
    requires
        walk(t, s, c, d),
    ensures
        apart(s.0, c.0) + apart(s.1, c.1) <= d,
        (d - (apart(s.0, c.0) + apart(s.1, c.1))) % 2 == 0,
        free(t, s),
        free(t, c),
    decreases d,
{
    if d > 0 {
        let e = (d - 1) as nat;
        if walk(t, s, neighbor(c, 0), e) {
            walks_cover_their_distance(t, s, neighbor(c, 0), e);
        } else if walk(t, s, neighbor(c, 1), e) {
            walks_cover_their_distance(t, s, neighbor(c, 1), e);
        } else if walk(t, s, neighbor(c, 2), e) {
            walks_cover_their_distance(t, s, neighbor(c, 2), e);
        } else {
            walks_cover_their_distance(t, s, neighbor(c, 3), e);
        }
    }
}

/// Free cells stay free from one maze to another of the same size.
pub open spec fn opens_more(t: Arr2<i64>, u: Arr2<i64>) -> bool {
    &&& t.rows == u.rows
    &&& t.cols == u.cols
    &&& forall|c: (int, int)| free(t, c) ==> #[trigger] free(u, c)
}

/// What can be walked can be walked where more is open.
pub proof fn open_mazes_keep_walks(t: Arr2<i64>, u: Arr2<i64>, s: (int, int), c: (int, int), d: nat)
    requires
        walk(t, s, c, d),
        opens_more(t, u),
    ensures
        walk(u, s, c, d),
    decreases d,
{
    assert(free(u, c));
    if d > 0 {
        let e = (d - 1) as nat;
        if walk(t, s, neighbor(c, 0), e) {
            open_mazes_keep_walks(t, u, s, neighbor(c, 0), e);
        } else if walk(t, s, neighbor(c, 1), e) {
            open_mazes_keep_walks(t, u, s, neighbor(c, 1), e);
        } else if walk(t, s, neighbor(c, 2), e) {
            open_mazes_keep_walks(t, u, s, neighbor(c, 2), e);
        } else {
            open_mazes_keep_walks(t, u, s, neighbor(c, 3), e);
        }
    }
}

/// Where lattice cell `c` stands.
pub open spec fn place_of(l: Lattice, c: int) -> (int, int) {
    (2 * (c / l.kx) + 1, 2 * (c % l.kx) + 1)
}

/// One cell can be walked to from another.
pub open spec fn joined_by_walk(t: Arr2<i64>, a: (int, int), b: (int, int)) -> bool {
    exists|d: nat| #[trigger] walk(t, a, b, d)
}

spec fn visits(v: Seq<bool>, n: nat) -> nat
    decreases n,
{
    if n == 0 {
        0
    } else {
        visits(v, (n - 1) as nat) + (if v[n - 1] {
            1nat
        } else {
            0
        })
    }
}

proof fn visits_few(v: Seq<bool>, n: nat)
    ensures
        visits(v, n) <= n,
    decreases n,
{
    if n > 0 {
        visits_few(v, (n - 1) as nat);
    }
}

proof fn visit_counts(v: Seq<bool>, c: int, n: nat)
    requires
        0 <= c < v.len(),
        n <= v.len(),
        !v[c],
    ensures
        visits(v.update(c, true), n) == visits(v, n) + (if c < n {
            1nat
        } else {
            0
        }),
    decreases n,
{
    if n > 0 {
        visit_counts(v, c, (n - 1) as nat);
    }
}

proof fn one_visit(v: Seq<bool>, root: int, n: nat)
    requires
        n <= v.len(),
        forall|c: int| 0 <= c < v.len() ==> #[trigger] v[c] == (c == root),
        0 <= root,
    ensures
        visits(v, n) == if root < n {
            1nat
        } else {
            0
        },
    decreases n,
{
    if n > 0 {
        one_visit(v, root, (n - 1) as nat);
        assert(v[n - 1] == (n - 1 == root));
    }
}

/// The lattice cells of a grid are free.
spec fn lattice_is_free(l: Lattice, t: Arr2<i64>) -> bool {
    forall|c: int| 0 <= c < l.size() ==> free(t, #[trigger] place_of(l, c))
}

/// What holds after every step of a carve: what was visited can be walked to from the root; what
/// was left for good has no neighbour that was not visited.
spec fn carve_joins(l: Lattice, h: nat, w: nat, root: int, s: CarveState) -> bool {
    &&& s.grid.rows == h
    &&& s.grid.cols == w
    &&& s.grid.wf()
    &&& s.visited.len() == l.size()
    &&& 0 <= root < l.size()
    &&& s.visited[root]
    &&& lattice_is_free(l, s.grid)
    &&& forall|i: int| 0 <= i < s.stack.len() ==> 0 <= #[trigger] s.stack[i] < l.size() && s.visited[s.stack[i]]
    &&& forall|c: int|
        0 <= c < l.size() && #[trigger] s.visited[c] ==> joined_by_walk(
            s.grid,
            place_of(l, root),
            place_of(l, c),
        )
    &&& forall|c: int|
        0 <= c < l.size() && #[trigger] s.visited[c] && !s.stack.contains(c) ==> l.options(
            s.visited,
            c,
            4,
        ).len() == 0
}

/// Without options all cells beside a cell were visited.
proof fn no_options(l: Lattice, v: Seq<bool>, c: int, k: int)
    requires
        l.options(v, c, 4).len() == 0,
        0 <= k < 4,
        l.step(c, k) is Some,
    ensures
        v[l.step(c, k)->0],
{
    reveal_with_fuel(Lattice::options, 5);
}

/// Where more was visited there are no more options.
proof fn fewer_options(l: Lattice, v: Seq<bool>, u: Seq<bool>, c: int, k: nat)
    requires
        l.options(v, c, k).len() == 0,
        k <= 4,
        0 < l.kx,
        0 < l.ky,
        0 <= c < l.size(),
        forall|i: int| 0 <= i < l.size() && v[i] ==> #[trigger] u[i],
    ensures
        l.options(u, c, k).len() == 0,
    decreases k,
{
    if k > 0 {
        step_parts(l, c, k - 1);
        fewer_options(l, v, u, c, (k - 1) as nat);
        match l.step(c, k - 1) {
            Some(n) => {
                assert(v[n]);
                assert(u[n]);
            },
            None => {},
        }
    }
}

/// A cell is replaced by one that is no wall: more is open.
proof fn put_opens(t: Arr2<i64>, y: int, x: int, v: i64)
    requires
        v != TOKEN_WALL,
    ensures
        opens_more(t, put(t, y, x, v)),
        put(t, y, x, v).wf(),
        0 <= y < t.rows && 0 <= x < t.cols ==> free(put(t, y, x, v), (y, x)),
{
    let u = put(t, y, x, v);
    assert forall|c: (int, int)| free(t, c) implies #[trigger] free(u, c) by {
        assert(u.at(c.0, c.1) == if c.0 == y && c.1 == x {
            v
        } else {
            t.at(c.0, c.1)
        });
    }
}

/// The cell between two lattice cells joins them.
proof fn passage_joins(l: Lattice, t: Arr2<i64>, r: (int, int), c: int, n: int, d: nat)
    requires
        walk(t, r, place_of(l, c), d),
        free(t, place_of(l, n)),
        free(t, (c / l.kx + n / l.kx + 1, c % l.kx + n % l.kx + 1)),
        ({
            ||| n / l.kx == c / l.kx && (n % l.kx == c % l.kx + 1 || n % l.kx == c % l.kx - 1)
            ||| n % l.kx == c % l.kx && (n / l.kx == c / l.kx + 1 || n / l.kx == c / l.kx - 1)
        }),
    ensures
        walk(t, r, place_of(l, n), d + 2),
{
    let a = place_of(l, c);
    let m = (c / l.kx + n / l.kx + 1, c % l.kx + n % l.kx + 1);
    let b = place_of(l, n);
    assert(a == neighbor(m, 0) || a == neighbor(m, 1) || a == neighbor(m, 2) || a == neighbor(m, 3));
    assert(walk(t, r, m, d + 1));
    assert(m == neighbor(b, 0) || m == neighbor(b, 1) || m == neighbor(b, 2) || m == neighbor(b, 3));
    assert((d + 2 - 1) as nat == d + 1);
}

proof fn step_keeps_joined(l: Lattice, h: nat, w: nat, root: int, s: CarveState)
    requires
        0 < l.kx,
        0 < l.ky,
        carve_joins(l, h, w, root, s),
        s.stack.len() > 0,
    ensures
        carve_joins(l, h, w, root, carve_next(l, s)),
        ({
            let next = carve_next(l, s);
            let size = l.size() as nat;
            ||| visits(next.visited, size) == visits(s.visited, size) && next.stack.len() + 1 == s.stack.len()
            ||| visits(next.visited, size) == visits(s.visited, size) + 1 && next.stack.len() == s.stack.len() + 1
        }),
{
    let c = s.stack.last();
    let options = l.options(s.visited, c, 4);
    let next = carve_next(l, s);
    assert(s.stack[s.stack.len() - 1] == c);
    if options.len() == 0 {
        assert forall|x: int| 0 <= x < l.size() && #[trigger] next.visited[x] && !next.stack.contains(x) implies l.options(
            next.visited,
            x,
            4,
        ).len() == 0 by {
            if s.stack.contains(x) {
                let i = choose|i: int| 0 <= i < s.stack.len() && s.stack[i] == x;
                if i < s.stack.len() - 1 {
                    assert(next.stack[i] == x);
                }
            }
        }
    } else {
        options_are_steps(l, s.visited, c, 4);
        let rng = next.rng;
        let pick = rng_pick(rng, options.len() as int);
        assert(0 <= pick < options.len());
        let n = options[pick];
        let (y, x) = (c / l.kx + n / l.kx + 1, c % l.kx + n % l.kx + 1);
        put_opens(s.grid, y, x, TOKEN_EMPTY);
        assert(next.grid == put(s.grid, y, x, TOKEN_EMPTY));
        assert(next.visited == s.visited.update(n, true));
        assert(next.stack == s.stack.push(n));
        visit_counts(s.visited, n, l.size() as nat);
        assert forall|k: int| 0 <= k < l.size() implies free(next.grid, #[trigger] place_of(l, k)) by {
            assert(free(s.grid, place_of(l, k)));
        }
        let r = place_of(l, root);
        assert forall|k: int| 0 <= k < l.size() && #[trigger] next.visited[k] implies joined_by_walk(
            next.grid,
            r,
            place_of(l, k),
        ) by {
            if k == n {
                assert(s.visited[c]);
                let d = choose|d: nat| #[trigger] walk(s.grid, r, place_of(l, c), d);
                open_mazes_keep_walks(s.grid, next.grid, r, place_of(l, c), d);
                assert(free(s.grid, place_of(l, c)) && free(s.grid, place_of(l, n)));
                passage_joins(l, next.grid, r, c, n, d);
            } else {
                assert(s.visited[k]);
                let d = choose|d: nat| #[trigger] walk(s.grid, r, place_of(l, k), d);
                open_mazes_keep_walks(s.grid, next.grid, r, place_of(l, k), d);
            }
        }
        assert forall|i: int| 0 <= i < next.stack.len() implies 0 <= #[trigger] next.stack[i] < l.size()
            && next.visited[next.stack[i]] by {
            if i < s.stack.len() {
                assert(next.stack[i] == s.stack[i]);
            }
        }
        assert forall|k: int| 0 <= k < l.size() && #[trigger] next.visited[k] && !next.stack.contains(k) implies l.options(
            next.visited,
            k,
            4,
        ).len() == 0 by {
            assert(next.stack[s.stack.len() as int] == n);
            assert(k != n);
            assert(s.visited[k]);
            if s.stack.contains(k) {
                let i = choose|i: int| 0 <= i < s.stack.len() && s.stack[i] == k;
                assert(next.stack[i] == k);
            }
            fewer_options(l, s.visited, next.visited, k, 4);
        }
    }
}

proof fn start_is_joined(h: nat, w: nat, rng: u64)
    requires
        maze_size(h, w),
    ensures
        ({
            let l = lattice_of(h as int, w as int);
            let s = carve_start(h, w, rng);
            &&& 0 < l.kx
            &&& 0 < l.ky
            &&& carve_joins(l, h, w, s.stack[0], s)
            &&& s.stack.len() == 1
            &&& visits(s.visited, l.size() as nat) == 1
        }),
{
    let l = lattice_of(h as int, w as int);
    let s = carve_start(h, w, rng);
    assert(l.size() > 0) by (nonlinear_arith)
        requires
            l.size() == l.ky * l.kx,
            0 < l.ky,
            0 < l.kx,
    ;
    let root = s.stack[0];
    assert(0 <= root < l.size());
    one_visit(s.visited, root, l.size() as nat);
    assert forall|c: int| 0 <= c < l.size() implies free(s.grid, #[trigger] place_of(l, c)) by {
        cell_parts(l, c);
        let p = place_of(l, c);
        assert(s.grid.at(p.0, p.1) == TOKEN_EMPTY);
    }
    assert(walk(s.grid, place_of(l, root), place_of(l, root), 0));
    assert forall|c: int| 0 <= c < l.size() && #[trigger] s.visited[c] && !s.stack.contains(c) implies l.options(
        s.visited,
        c,
        4,
    ).len() == 0 by {
        assert(s.stack[0] == c);
    }
}

proof fn carve_stays_joined(h: nat, w: nat, rng: u64, t: nat)
    requires
        maze_size(h, w),
    ensures
        ({
            let l = lattice_of(h as int, w as int);
            let s = carved(h, w, rng, t);
            &&& carve_joins(l, h, w, carve_start(h, w, rng).stack[0], s)
            &&& s.stack.len() > 0 ==> t + s.stack.len() + 1 == 2 * visits(s.visited, l.size() as nat)
        }),
    decreases t,
{
    start_is_joined(h, w, rng);
    if t > 0 {
        carve_stays_joined(h, w, rng, (t - 1) as nat);
        let before = carved(h, w, rng, (t - 1) as nat);
        if before.stack.len() > 0 {
            step_keeps_joined(
                lattice_of(h as int, w as int),
                h,
                w,
                carve_start(h, w, rng).stack[0],
                before,
            );
        }
    }
}

/// Where nothing visited has a neighbour that was not, everything was visited.
proof fn all_visited(l: Lattice, v: Seq<bool>, root: int, c: int)
    requires
        0 < l.kx,
        0 < l.ky,
        0 <= root < l.size(),
        0 <= c < l.size(),
        v[root],
        forall|x: int| 0 <= x < l.size() && #[trigger] v[x] ==> l.options(v, x, 4).len() == 0,
    ensures
        v[c],
    decreases apart(c / l.kx, root / l.kx) + apart(c % l.kx, root % l.kx),
{
    cell_parts(l, c);
    cell_parts(l, root);
    if c != root {
        let (k, back) = if c / l.kx > root / l.kx {
            (0int, 2int)
        } else if c / l.kx < root / l.kx {
            (2int, 0int)
        } else if c % l.kx > root % l.kx {
            (3int, 1int)
        } else {
            (1int, 3int)
        };
        assert(c % l.kx != root % l.kx || c / l.kx != root / l.kx);
        step_parts(l, c, k);
        let n = l.step(c, k)->0;
        assert(l.step(c, k) is Some);
        all_visited(l, v, root, n);
        assert(l.step(n, back) == Some(c));
        no_options(l, v, n, back);
    }
}

/// Every cell of a carved maze can be walked to from every other.
pub proof fn carved_mazes_are_joined(h: nat, w: nat, rng: u64, a: int, b: int)
    requires
        maze_size(h, w),
        0 <= a < lattice_of(h as int, w as int).size(),
        0 <= b < lattice_of(h as int, w as int).size(),
    ensures
        ({
            let l = lattice_of(h as int, w as int);
            joined_by_walk(attempt_of(h, w, rng).0, place_of(l, a), place_of(l, b))
        }),
{
    let l = lattice_of(h as int, w as int);
    let size = l.size() as nat;
    let steps = (2 * l.size()) as nat;
    let done = carved(h, w, rng, steps);
    let root = carve_start(h, w, rng).stack[0];
    start_is_joined(h, w, rng);
    carve_stays_joined(h, w, rng, steps);
    visits_few(done.visited, size);
    assert(done.stack.len() == 0);
    assert forall|x: int| 0 <= x < l.size() && #[trigger] done.visited[x] implies l.options(done.visited, x, 4).len()
        == 0 by {
        assert(!done.stack.contains(x));
    }
    all_visited(l, done.visited, root, a);
    all_visited(l, done.visited, root, b);
    let (r, p, q) = (place_of(l, root), place_of(l, a), place_of(l, b));
    let d = choose|d: nat| #[trigger] walk(done.grid, r, p, d);
    let e = choose|e: nat| #[trigger] walk(done.grid, r, q, e);
    walks_turn_round(done.grid, r, p, d);
    walks_go_on(done.grid, p, r, q, d, e);
    let r1 = rng_next(done.rng);
    let s = rng_pick(r1, l.size());
    let g0 = rng_pick(rng_next(r1), l.size() - 1);
    let g = if g0 >= s {
        g0 + 1
    } else {
        g0
    };
    let once = put(done.grid, 2 * (s / l.kx) + 1, 2 * (s % l.kx) + 1, TOKEN_START);
    put_opens(done.grid, 2 * (s / l.kx) + 1, 2 * (s % l.kx) + 1, TOKEN_START);
    put_opens(once, 2 * (g / l.kx) + 1, 2 * (g % l.kx) + 1, TOKEN_GOAL);
    let painted = attempt_of(h, w, rng).0;
    assert(painted == put(once, 2 * (g / l.kx) + 1, 2 * (g % l.kx) + 1, TOKEN_GOAL));
    open_mazes_keep_walks(done.grid, once, p, q, d + e);
    open_mazes_keep_walks(once, painted, p, q, d + e);
}

} // verus!
