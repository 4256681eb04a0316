//! Maze generation: a depth-first carve on the odd-index lattice, start and goal on two
//! lattice cells, and rejection of mazes whose path is too short.
//!
//! Cells lie at odd coordinates; a passage between two of them opens the wall cell in the
//! middle. So sizes are odd, the border is wall, and so is every cell with two even
//! coordinates.
use super::path::{
    bfs_path_len, find_token, first_from, free, neighbor, path_length, path_length_is_found, shortest, walk,
};
use crate::tensor::{arr2_ext, Arr2, Matrix};
use crate::views::{TOKEN_EMPTY, TOKEN_GOAL, TOKEN_START, TOKEN_WALL};
use vstd::prelude::*;

verus! {

/// A generated maze: its tokens, and the length of the shortest path from start to goal.
#[derive(Debug)]
pub struct GeneratedMaze {
    pub tokens: Matrix<i64>,
    pub path_len: usize,
}

/// How many carved mazes are tried before the winding one is taken.
pub const MAX_ATTEMPTS: usize = 1000;

/// The random state after another.
pub open spec fn rng_next(state: u64) -> u64 {
    ((state * 6364136223846793005 + 1442695040888963407) % 0x1_0000_0000_0000_0000) as u64
}

/// A number below `n` drawn from a random state.
pub open spec fn rng_pick(state: u64, n: int) -> int {
    (state as int / 0x2_0000_0000) % n
}

fn rng_advance(state: u64) -> (r: u64)
    ensures
        r == rng_next(state),
{
    assert(state as u128 * 6364136223846793005 <= 0xFFFF_FFFF_FFFF_FFFF * 6364136223846793005);
    ((state as u128 * 6364136223846793005 + 1442695040888963407) % 0x1_0000_0000_0000_0000) as u64
}

fn rng_draw(state: u64, n: usize) -> (r: usize)
    requires
        n > 0,
    ensures
        r == rng_pick(state, n as int),
        r < n,
{
    ((state / 0x2_0000_0000) % (n as u64)) as usize
}

/// The lattice of a maze: rows and columns of cells.
pub ghost struct Lattice {
    pub ky: int,
    pub kx: int,
}

pub open spec fn lattice_of(h: int, w: int) -> Lattice {
    Lattice { ky: (h - 1) / 2, kx: (w - 1) / 2 }
}

impl Lattice {
    pub open spec fn size(self) -> int {
        self.ky * self.kx
    }

    /// The cell above, right of, below or left of cell `c`.
    pub open spec fn step(self, c: int, k: int) -> Option<int> {
        if k == 0 {
            if c / self.kx > 0 {
                Some(c - self.kx)
            } else {
                None
            }
        } else if k == 1 {
            if c % self.kx + 1 < self.kx {
                Some(c + 1)
            } else {
                None
            }
        } else if k == 2 {
            if c / self.kx + 1 < self.ky {
                Some(c + self.kx)
            } else {
                None
            }
        } else {
            if c % self.kx > 0 {
                Some(c - 1)
            } else {
                None
            }
        }
    }

    /// The cells beside `c` in the first `k` directions that have not been visited.
    pub open spec fn options(self, visited: Seq<bool>, c: int, k: nat) -> Seq<int>
        decreases k,
    {
        if k == 0 {
            Seq::empty()
        } else {
            let before = self.options(visited, c, (k - 1) as nat);
            match self.step(c, k - 1) {
                Some(n) => if visited[n] {
                    before
                } else {
                    before.push(n)
                },
                None => before,
            }
        }
    }
}

/// An array with one member replaced.
pub open spec fn put(a: Arr2<i64>, y: int, x: int, v: i64) -> Arr2<i64> {
    Arr2::build(
        a.rows,
        a.cols,
        |i: int, j: int|
            if i == y && j == x {
                v
            } else {
                a.at(i, j)
            },
    )
}

/// What the carve carries: random state, visited cells, grid, path back to the root.
pub ghost struct CarveState {
    pub rng: u64,
    pub visited: Seq<bool>,
    pub grid: Arr2<i64>,
    pub stack: Seq<int>,
}

/// One step of the carve: open a passage to a random cell that has not been visited, or go
/// back where there is none.
pub open spec fn carve_next(l: Lattice, s: CarveState) -> CarveState {
    if s.stack.len() == 0 {
        s
    } else {
        let c = s.stack.last();
        let options = l.options(s.visited, c, 4);
        if options.len() == 0 {
            CarveState { stack: s.stack.drop_last(), ..s }
        } else {
            let rng = rng_next(s.rng);
            let n = options[rng_pick(rng, options.len() as int)];
            CarveState {
                rng,
                visited: s.visited.update(n, true),
                grid: put(s.grid, c / l.kx + n / l.kx + 1, c % l.kx + n % l.kx + 1, TOKEN_EMPTY),
                stack: s.stack.push(n),
            }
        }
    }
}

/// Lattice cells free, everything else wall.
pub open spec fn blank(h: nat, w: nat) -> Arr2<i64> {
    Arr2::build(
        h,
        w,
        |y: int, x: int|
            if y % 2 == 1 && x % 2 == 1 {
                TOKEN_EMPTY
            } else {
                TOKEN_WALL
            },
    )
}

/// The carve before its first step: at a random cell.
pub open spec fn carve_start(h: nat, w: nat, rng: u64) -> CarveState {
    let l = lattice_of(h as int, w as int);
    let next = rng_next(rng);
    let root = rng_pick(next, l.size());
    CarveState {
        rng: next,
        visited: Seq::new(l.size() as nat, |c: int| c == root),
        grid: blank(h, w),
        stack: seq![root],
    }
}

/// The carve after `t` steps.
pub open spec fn carved(h: nat, w: nat, rng: u64, t: nat) -> CarveState
    decreases t,
{
    if t == 0 {
        carve_start(h, w, rng)
    } else {
        carve_next(lattice_of(h as int, w as int), carved(h, w, rng, (t - 1) as nat))
    }
}

/// The grid with start and goal on two lattice cells.
pub open spec fn paint(grid: Arr2<i64>, kx: int, s: int, g: int) -> Arr2<i64> {
    put(
        put(grid, 2 * (s / kx) + 1, 2 * (s % kx) + 1, TOKEN_START),
        2 * (g / kx) + 1,
        2 * (g % kx) + 1,
        TOKEN_GOAL,
    )
}

/// One carved maze with start and goal on two random cells, and the random state after it.
/// The carve runs two steps for each cell: one in, one back.
pub open spec fn attempt_of(h: nat, w: nat, rng: u64) -> (Arr2<i64>, u64) {
    let l = lattice_of(h as int, w as int);
    let done = carved(h, w, rng, (2 * l.size()) as nat);
    let r1 = rng_next(done.rng);
    let s = rng_pick(r1, l.size());
    let r2 = rng_next(r1);
    let g = rng_pick(r2, l.size() - 1);
    (
        paint(
            done.grid,
            l.kx,
            s,
            if g >= s {
                g + 1
            } else {
                g
            },
        ),
        r2,
    )
}

/// The shortest path from start to goal has this length.
pub open spec fn path_len_is(t: Arr2<i64>, d: nat) -> bool {
    match (find_token(t, TOKEN_START), find_token(t, TOKEN_GOAL)) {
        (Some(s), Some(g)) => shortest(t, s, g, d),
        _ => false,
    }
}

/// The path from start to goal is long enough.
pub open spec fn long_enough(t: Arr2<i64>, min_path_len: nat) -> bool {
    exists|d: nat| #[trigger] path_len_is(t, d) && d >= min_path_len
}

/// The column at which the winding maze opens even row `y`.
pub open spec fn turn(w: int, y: int) -> int {
    if (y / 2 - 1) % 2 == 0 {
        w - 2
    } else {
        1
    }
}

/// The column of the goal of the winding maze.
pub open spec fn last_column(h: int, w: int) -> int {
    if ((h - 1) / 2 - 1) % 2 == 0 {
        w - 2
    } else {
        1
    }
}

/// The winding maze: one passage that runs along every row, back and forth.
pub open spec fn winding(h: nat, w: nat) -> Arr2<i64> {
    Arr2::build(
        h,
        w,
        |y: int, x: int|
            if y == 1 && x == 1 {
                TOKEN_START
            } else if y == h - 2 && x == last_column(h as int, w as int) {
                TOKEN_GOAL
            } else if y == 0 || y == h - 1 || x == 0 || x == w - 1 {
                TOKEN_WALL
            } else if y % 2 == 1 || x == turn(w as int, y) {
                TOKEN_EMPTY
            } else {
                TOKEN_WALL
            },
    )
}

/// The first of `n` carved mazes whose path is long enough; the winding one where there is
/// none.
pub open spec fn accepted(h: nat, w: nat, rng: u64, min_path_len: nat, n: nat) -> Arr2<i64>
    decreases n,
{
    if n == 0 {
        winding(h, w)
    } else {
        let (t, next) = attempt_of(h, w, rng);
        if long_enough(t, min_path_len) {
            t
        } else {
            accepted(h, w, next, min_path_len, (n - 1) as nat)
        }
    }
}

/// A cell of the border.
pub open spec fn on_border(t: Arr2<i64>, y: int, x: int) -> bool {
    y == 0 || y == t.rows - 1 || x == 0 || x == t.cols - 1
}

/// Walls on the border and at even coordinates, free cells at odd ones, and nothing but
/// walls and free cells.
pub open spec fn lattice_maze(t: Arr2<i64>, h: nat, w: nat) -> bool {
    &&& t.has_shape(h, w)
    &&& forall|y: int, x: int|
        0 <= y < h && 0 <= x < w ==> {
            let v = #[trigger] t.at(y, x);
            &&& v == TOKEN_WALL || v == TOKEN_EMPTY
            &&& on_border(t, y, x) ==> v == TOKEN_WALL
            &&& y % 2 == 0 && x % 2 == 0 ==> v == TOKEN_WALL
            &&& y % 2 == 1 && x % 2 == 1 ==> v == TOKEN_EMPTY
        }
}

/// A maze with one start and one goal: walls on the border and at even coordinates, cells at
/// odd ones, start and goal on two different cells, and everything else wall or free.
pub open spec fn maze_with(t: Arr2<i64>, h: nat, w: nat, s: (int, int), g: (int, int)) -> bool {
    &&& t.has_shape(h, w)
    &&& s != g
    &&& 0 <= s.0 < h && 0 <= s.1 < w && s.0 % 2 == 1 && s.1 % 2 == 1
    &&& 0 <= g.0 < h && 0 <= g.1 < w && g.0 % 2 == 1 && g.1 % 2 == 1
    &&& forall|y: int, x: int|
        0 <= y < h && 0 <= x < w ==> {
            let v = #[trigger] t.at(y, x);
            &&& v == TOKEN_START <==> (y, x) == s
            &&& v == TOKEN_GOAL <==> (y, x) == g
            &&& v == TOKEN_WALL || v == TOKEN_EMPTY || v == TOKEN_START || v == TOKEN_GOAL
            &&& on_border(t, y, x) ==> v == TOKEN_WALL
            &&& y % 2 == 0 && x % 2 == 0 ==> v == TOKEN_WALL
            &&& y % 2 == 1 && x % 2 == 1 ==> v != TOKEN_WALL
        }
}

/// The structure that every generated maze has.
pub open spec fn well_built(t: Arr2<i64>, h: nat, w: nat) -> bool {
    exists|s: (int, int), g: (int, int)| #[trigger] maze_with(t, h, w, s, g)
}

/// A well-built maze has the size it was built for, and its tokens are small.
pub proof fn built_size(t: Arr2<i64>, h: nat, w: nat)
    requires
        well_built(t, h, w),
    ensures
        t.rows == h,
        t.cols == w,
        forall|y: int, x: int| 0 <= y < h && 0 <= x < w ==> 0 <= #[trigger] t.at(y, x) <= TOKEN_GOAL,
{
    let (s, g) = choose|s: (int, int), g: (int, int)| #[trigger] maze_with(t, h, w, s, g);
    assert(maze_with(t, h, w, s, g));
}

/// Sizes of which there are mazes: odd, with at least two cells.
pub open spec fn maze_size(h: nat, w: nat) -> bool {
    &&& h % 2 == 1
    &&& w % 2 == 1
    &&& h >= 3
    &&& w >= 3
    &&& h >= 5 || w >= 5
}

/// Quotient and remainder of a cell number, and of its neighbours'.
pub(crate) proof fn cell_parts(l: Lattice, c: int)
    requires
        0 < l.kx,
        0 < l.ky,
        0 <= c < l.size(),
    ensures
        0 <= c / l.kx < l.ky,
        0 <= c % l.kx < l.kx,
        c == (c / l.kx) * l.kx + c % l.kx,
{
    let kx = l.kx;
    let ky = l.ky;
    assert(c / kx >= 0 && c / kx < ky && 0 <= c % kx && c % kx < kx && c == (c / kx) * kx + c % kx)
        by (nonlinear_arith)
        requires
            0 < kx,
            0 <= c < ky * kx,
    ;
}

proof fn parts_unique(kx: int, q: int, r: int)
    requires
        0 < kx,
        0 <= r < kx,
    ensures
        (q * kx + r) / kx == q,
        (q * kx + r) % kx == r,
{
    let v = q * kx + r;
    vstd::arithmetic::div_mod::lemma_fundamental_div_mod_converse(v, kx, q, r);
}

/// A neighbour is a cell, one row or one column away.
pub(crate) proof fn step_parts(l: Lattice, c: int, k: int)
    requires
        0 < l.kx,
        0 < l.ky,
        0 <= c < l.size(),
        0 <= k < 4,
    ensures
        l.step(c, k) matches Some(n) ==> {
            &&& 0 <= n < l.size()
            &&& n / l.kx == c / l.kx + (if k == 0 {
                -1int
            } else if k == 2 {
                1
            } else {
                0
            })
            &&& n % l.kx == c % l.kx + (if k == 3 {
                -1int
            } else if k == 1 {
                1
            } else {
                0
            })
        },
{
    cell_parts(l, c);
    let q = c / l.kx;
    let r = c % l.kx;
    let kx = l.kx;
    let ky = l.ky;
    assert((q - 1) * kx + r == c - kx) by (nonlinear_arith)
        requires
            c == q * kx + r,
    ;
    assert((q + 1) * kx + r == c + kx) by (nonlinear_arith)
        requires
            c == q * kx + r,
    ;
    match l.step(c, k) {
        Some(n) => {
            let nq = q + (if k == 0 {
                -1int
            } else if k == 2 {
                1
            } else {
                0
            });
            let nr = r + (if k == 3 {
                -1int
            } else if k == 1 {
                1
            } else {
                0
            });
            assert(n == nq * kx + nr);
            parts_unique(kx, nq, nr);
            assert(0 <= nq * kx + nr < ky * kx) by (nonlinear_arith)
                requires
                    0 <= nq < ky,
                    0 <= nr < kx,
            ;
        },
        None => {},
    }
}

/// The options are cells beside `c` that have not been visited.
pub(crate) proof fn options_are_steps(l: Lattice, visited: Seq<bool>, c: int, k: nat)
    requires
        0 < l.kx,
        0 < l.ky,
        0 <= c < l.size(),
        k <= 4,
    ensures
        l.options(visited, c, k).len() <= k,
        forall|i: int|
            0 <= i < l.options(visited, c, k).len() ==> {
                let n = #[trigger] l.options(visited, c, k)[i];
                &&& 0 <= n < l.size()
                &&& !visited[n]
                &&& {
                    ||| n / l.kx == c / l.kx && (n % l.kx == c % l.kx + 1 || n % l.kx == c % l.kx - 1)
                    ||| n % l.kx == c % l.kx && (n / l.kx == c / l.kx + 1 || n / l.kx == c / l.kx - 1)
                }
            },
    decreases k,
{
    if k > 0 {
        options_are_steps(l, visited, c, (k - 1) as nat);
        step_parts(l, c, k - 1);
    }
}

/// Opening the wall between two neighbouring cells keeps the lattice structure.
proof fn passage_keeps_lattice(t: Arr2<i64>, h: nat, w: nat, c: int, n: int)
    requires
        maze_size(h, w),
        lattice_maze(t, h, w),
        ({
            let l = lattice_of(h as int, w as int);
            &&& 0 <= c < l.size()
            &&& 0 <= n < l.size()
            &&& {
                ||| n / l.kx == c / l.kx && (n % l.kx == c % l.kx + 1 || n % l.kx == c % l.kx - 1)
                ||| n % l.kx == c % l.kx && (n / l.kx == c / l.kx + 1 || n / l.kx == c / l.kx - 1)
            }
        }),
    ensures
        ({
            let l = lattice_of(h as int, w as int);
            let y = c / l.kx + n / l.kx + 1;
            let x = c % l.kx + n % l.kx + 1;
            &&& 0 < y < h - 1
            &&& 0 < x < w - 1
            &&& lattice_maze(put(t, y, x, TOKEN_EMPTY), h, w)
        }),
{
    let l = lattice_of(h as int, w as int);
    cell_parts(l, c);
    cell_parts(l, n);
    let y = c / l.kx + n / l.kx + 1;
    let x = c % l.kx + n % l.kx + 1;
    let after = put(t, y, x, TOKEN_EMPTY);
    assert forall|i: int, j: int| 0 <= i < h && 0 <= j < w implies {
        let v = #[trigger] after.at(i, j);
        &&& v == TOKEN_WALL || v == TOKEN_EMPTY
        &&& on_border(after, i, j) ==> v == TOKEN_WALL
        &&& i % 2 == 0 && j % 2 == 0 ==> v == TOKEN_WALL
        &&& i % 2 == 1 && j % 2 == 1 ==> v == TOKEN_EMPTY
    } by {
        let was = t.at(i, j);
    }
}

/// Two different cells of the lattice lie at different grid positions, inside the border.
proof fn cell_position(h: nat, w: nat, c: int)
    requires
        maze_size(h, w),
        0 <= c < lattice_of(h as int, w as int).size(),
    ensures
        ({
            let kx = lattice_of(h as int, w as int).kx;
            &&& 0 < 2 * (c / kx) + 1 < h - 1
            &&& 0 < 2 * (c % kx) + 1 < w - 1
        }),
{
    cell_parts(lattice_of(h as int, w as int), c);
}

/// A painted carve is well built.
proof fn painted_is_well_built(t: Arr2<i64>, h: nat, w: nat, s: int, g: int)
    requires
        maze_size(h, w),
        lattice_maze(t, h, w),
        s != g,
        0 <= s < lattice_of(h as int, w as int).size(),
        0 <= g < lattice_of(h as int, w as int).size(),
    ensures
        well_built(paint(t, lattice_of(h as int, w as int).kx, s, g), h, w),
{
    let l = lattice_of(h as int, w as int);
    let kx = l.kx;
    cell_parts(l, s);
    cell_parts(l, g);
    cell_position(h, w, s);
    cell_position(h, w, g);
    let sp = (2 * (s / kx) + 1, 2 * (s % kx) + 1);
    let gp = (2 * (g / kx) + 1, 2 * (g % kx) + 1);
    if sp == gp {
        assert(s == g);
    }
    let done = paint(t, kx, s, g);
    assert forall|y: int, x: int| 0 <= y < h && 0 <= x < w implies {
        let v = #[trigger] done.at(y, x);
        &&& v == TOKEN_START <==> (y, x) == sp
        &&& v == TOKEN_GOAL <==> (y, x) == gp
        &&& v == TOKEN_WALL || v == TOKEN_EMPTY || v == TOKEN_START || v == TOKEN_GOAL
        &&& on_border(done, y, x) ==> v == TOKEN_WALL
        &&& y % 2 == 0 && x % 2 == 0 ==> v == TOKEN_WALL
        &&& y % 2 == 1 && x % 2 == 1 ==> v != TOKEN_WALL
    } by {
        let was = t.at(y, x);
    }
    assert(maze_with(done, h, w, sp, gp));
}

/// What holds of the carve at every step.
spec fn carve_ok(h: nat, w: nat, s: CarveState) -> bool {
    let l = lattice_of(h as int, w as int);
    &&& s.visited.len() == l.size()
    &&& lattice_maze(s.grid, h, w)
    &&& forall|i: int| 0 <= i < s.stack.len() ==> 0 <= #[trigger] s.stack[i] < l.size()
}

/// Lists the unvisited cells beside `c`.
fn list_options(ky: usize, kx: usize, visited: &Vec<bool>, c: usize) -> (r: Vec<usize>)
    requires
        0 < kx,
        0 < ky,
        visited@.len() == ky * kx,
        c < ky * kx,
    ensures
        ({
            let l = Lattice { ky: ky as int, kx: kx as int };
            let options = l.options(visited@, c as int, 4);
            &&& r@.len() == options.len()
            &&& forall|i: int| 0 <= i < r@.len() ==> #[trigger] r@[i] == options[i]
        }),
{
    let ghost l = Lattice { ky: ky as int, kx: kx as int };
    let size = visited.len();
    let row = c / kx;
    let col = c % kx;
    let mut out: Vec<usize> = Vec::new();
    for k in 0..4usize
        invariant
            0 < kx,
            0 < ky,
            l == (Lattice { ky: ky as int, kx: kx as int }),
            size == visited@.len(),
            visited@.len() == ky * kx,
            c < ky * kx,
            row == c as int / kx as int,
            col == c as int % kx as int,
            out@.len() == l.options(visited@, c as int, k as nat).len(),
            forall|i: int|
                0 <= i < out@.len() ==> #[trigger] out@[i] == l.options(visited@, c as int, k as nat)[i],
    {
        proof {
            cell_parts(l, c as int);
            step_parts(l, c as int, k as int);
            if row > 0 {
                assert(row * kx >= kx) by (nonlinear_arith)
                    requires
                        row > 0,
                        kx > 0,
                ;
            }
        }
        let there = k == 0 && row > 0 || k == 1 && col + 1 < kx || k == 2 && row + 1 < ky || k == 3 && col > 0;
        if there {
            let n = if k == 0 {
                c - kx
            } else if k == 1 {
                c + 1
            } else if k == 2 {
                c + kx
            } else {
                c - 1
            };
            assert(l.step(c as int, k as int) == Some(n as int));
            if !visited[n] {
                out.push(n);
            }
        } else {
            assert(l.step(c as int, k as int) is None);
        }
    }
    out
}

/// Replaces one member.
fn put_token(grid: &mut Matrix<i64>, y: usize, x: usize, v: i64)
    requires
        old(grid).wf(),
        y < old(grid)@.rows,
        x < old(grid)@.cols,
    ensures
        final(grid).wf(),
        final(grid)@ == put(old(grid)@, y as int, x as int, v),
{
    grid.set(y, x, v);
    proof {
        arr2_ext(grid@, put(old(grid)@, y as int, x as int, v));
    }
}

/// Stack contents as cell numbers.
spec fn ints(s: Seq<usize>) -> Seq<int> {
    s.map_values(|c: usize| c as int)
}

/// Carves one maze. Returns its grid and the random state after it.
fn carve(h: usize, w: usize, rng: u64) -> (r: (Matrix<i64>, u64))
    requires
        maze_size(h as nat, w as nat),
        h * w <= usize::MAX,
    ensures
        ({
            let steps = (2 * lattice_of(h as int, w as int).size()) as nat;
            let done = carved(h as nat, w as nat, rng, steps);
            r.0@ == done.grid && r.1 == done.rng
        }),
        lattice_maze(r.0@, h as nat, w as nat),
{
    let ky = (h - 1) / 2;
    let kx = (w - 1) / 2;
    let ghost l = lattice_of(h as int, w as int);
    assert(4 * (ky * kx) <= h * w && 0 < ky * kx) by (nonlinear_arith)
        requires
            0 < 2 * ky <= h,
            0 < 2 * kx <= w,
    ;
    let size = ky * kx;
    let mut state = rng_advance(rng);
    let root = rng_draw(state, size);
    let mut visited: Vec<bool> = Vec::new();
    for c in 0..size
        invariant
            visited@.len() == c,
            forall|i: int| 0 <= i < c ==> #[trigger] visited@[i] == (i == root),
    {
        visited.push(c == root);
    }
    let mut grid = Matrix::from_shape_fn(
        h,
        w,
        |y: usize, x: usize| -> (v: i64)
            ensures
                v == (if y % 2 == 1 && x % 2 == 1 {
                    TOKEN_EMPTY
                } else {
                    TOKEN_WALL
                })
            {
                if y % 2 == 1 && x % 2 == 1 {
                    TOKEN_EMPTY
                } else {
                    TOKEN_WALL
                }
            },
    );
    let mut stack: Vec<usize> = vec![root];
    proof {
        assert(grid@ == blank(h as nat, w as nat));
        let first = carve_start(h as nat, w as nat, rng);
        assert(visited@ =~= first.visited);
        assert(ints(stack@) =~= first.stack);
        assert forall|y: int, x: int| 0 <= y < h && 0 <= x < w implies {
            let v = #[trigger] first.grid.at(y, x);
            &&& v == TOKEN_WALL || v == TOKEN_EMPTY
            &&& on_border(first.grid, y, x) ==> v == TOKEN_WALL
            &&& y % 2 == 0 && x % 2 == 0 ==> v == TOKEN_WALL
            &&& y % 2 == 1 && x % 2 == 1 ==> v == TOKEN_EMPTY
        } by {}
    }
    for t in 0..2 * size
        invariant
            maze_size(h as nat, w as nat),
            l == lattice_of(h as int, w as int),
            l.ky == ky,
            l.kx == kx,
            0 < ky,
            0 < kx,
            h == 2 * ky + 1,
            w == 2 * kx + 1,
            size == ky * kx,
            4 * size <= usize::MAX,
            carve_ok(
                h as nat,
                w as nat,
                CarveState { rng: state, visited: visited@, grid: grid@, stack: ints(stack@) },
            ),
            (CarveState { rng: state, visited: visited@, grid: grid@, stack: ints(stack@) }) == carved(
                h as nat,
                w as nat,
                rng,
                t as nat,
            ),
    {
        let ghost before = CarveState { rng: state, visited: visited@, grid: grid@, stack: ints(stack@) };
        if stack.len() > 0 {
            let c = stack[stack.len() - 1];
            proof {
                assert(before.stack[before.stack.len() - 1] == c);
                options_are_steps(l, visited@, c as int, 4);
            }
            let options = list_options(ky, kx, &visited, c);
            if options.len() == 0 {
                stack.pop();
                proof {
                    let after = CarveState { rng: state, visited: visited@, grid: grid@, stack: ints(stack@) };
                    assert(after.stack =~= before.stack.drop_last());
                    assert forall|i: int| 0 <= i < after.stack.len() implies 0 <= #[trigger] after.stack[i]
                        < l.size() by {
                        assert(after.stack[i] == before.stack[i]);
                    }
                }
            } else {
                state = rng_advance(state);
                let n = options[rng_draw(state, options.len())];
                proof {
                    cell_parts(l, c as int);
                    cell_parts(l, n as int);
                    passage_keeps_lattice(grid@, h as nat, w as nat, c as int, n as int);
                }
                put_token(&mut grid, c / kx + n / kx + 1, c % kx + n % kx + 1, TOKEN_EMPTY);
                visited.set(n, true);
                stack.push(n);
                proof {
                    let after = CarveState { rng: state, visited: visited@, grid: grid@, stack: ints(stack@) };
                    assert(after.stack =~= before.stack.push(n as int));
                    assert forall|i: int| 0 <= i < after.stack.len() implies 0 <= #[trigger] after.stack[i]
                        < l.size() by {
                        if i < before.stack.len() {
                            assert(after.stack[i] == before.stack[i]);
                        }
                    }
                }
            }
        } else {
            assert(ints(stack@).len() == 0);
        }
    }
    (grid, state)
}

/// Carves one maze and puts start and goal on two random cells.
fn attempt(h: usize, w: usize, rng: u64) -> (r: (Matrix<i64>, u64))
    requires
        maze_size(h as nat, w as nat),
        h * w <= usize::MAX,
    ensures
        r.0.wf(),
        r.0@ == attempt_of(h as nat, w as nat, rng).0,
        r.1 == attempt_of(h as nat, w as nat, rng).1,
        well_built(r.0@, h as nat, w as nat),
{
    let ky = (h - 1) / 2;
    let kx = (w - 1) / 2;
    let ghost l = lattice_of(h as int, w as int);
    assert(4 * (ky * kx) <= h * w && 2 <= ky * kx) by (nonlinear_arith)
        requires
            1 <= ky,
            1 <= kx,
            ky >= 2 || kx >= 2,
            2 * ky <= h,
            2 * kx <= w,
    ;
    let size = ky * kx;
    let (mut grid, state) = carve(h, w, rng);
    let ghost done = grid@;
    let r1 = rng_advance(state);
    let s = rng_draw(r1, size);
    let r2 = rng_advance(r1);
    let g0 = rng_draw(r2, size - 1);
    let g = if g0 >= s {
        g0 + 1
    } else {
        g0
    };
    proof {
        cell_parts(l, s as int);
        cell_parts(l, g as int);
        cell_position(h as nat, w as nat, s as int);
        cell_position(h as nat, w as nat, g as int);
        painted_is_well_built(done, h as nat, w as nat, s as int, g as int);
    }
    put_token(&mut grid, 2 * (s / kx) + 1, 2 * (s % kx) + 1, TOKEN_START);
    put_token(&mut grid, 2 * (g / kx) + 1, 2 * (g % kx) + 1, TOKEN_GOAL);
    (grid, r2)
}

proof fn first_from_sound(t: Arr2<i64>, token: i64, p: nat, y: int, x: int)
    requires
        0 <= y < t.rows,
        0 <= x < t.cols,
        t.at(y, x) == token,
        p <= y * t.cols + x,
        forall|i: int, j: int|
            0 <= i < t.rows && 0 <= j < t.cols && #[trigger] t.at(i, j) == token ==> (i, j) == (y, x),
    ensures
        first_from(t, token, p) == Some((y, x)),
    decreases y * t.cols + x - p,
{
    let cols = t.cols as int;
    assert(y * cols + x < t.rows * cols) by (nonlinear_arith)
        requires
            0 <= y < t.rows,
            0 <= x < cols,
    ;
    parts_unique(cols, y, x);
    if p < y * cols + x {
        assert(0 <= p as int / cols && (p as int / cols) < t.rows && 0 <= p as int % cols && p as int % cols < cols
            && p == (p as int / cols) * cols + p as int % cols) by (nonlinear_arith)
            requires
                0 <= p < t.rows * cols,
                0 < cols,
        ;
        if t.at(p as int / cols, p as int % cols) == token {
            assert((p as int / cols, p as int % cols) == (y, x));
            assert(false);
        }
        first_from_sound(t, token, p + 1, y, x);
    } else {
        assert(p == y * cols + x);
    }
}

/// The one cell with a token is the one that is found.
pub proof fn found_where_it_is(t: Arr2<i64>, token: i64, y: int, x: int)
    requires
        0 <= y < t.rows,
        0 <= x < t.cols,
        t.at(y, x) == token,
        forall|i: int, j: int|
            0 <= i < t.rows && 0 <= j < t.cols && #[trigger] t.at(i, j) == token ==> (i, j) == (y, x),
    ensures
        find_token(t, token) == Some((y, x)),
{
    assert(0 <= y * t.cols) by (nonlinear_arith)
        requires
            0 <= y,
            0 <= t.cols,
    ;
    first_from_sound(t, token, 0, y, x);
}

/// How far along the winding passage a cell lies.
spec fn along(w: int, y: int, x: int) -> int {
    let row = (y - 1) / 2;
    if y % 2 == 0 {
        row * (w - 1) + (w - 2)
    } else if row % 2 == 0 {
        row * (w - 1) + (x - 1)
    } else {
        row * (w - 1) + (w - 2 - x)
    }
}

proof fn along_rows(w: int, row: int)
    ensures
        (row + 1) * (w - 1) == row * (w - 1) + (w - 1),
{
    assert((row + 1) * (w - 1) == row * (w - 1) + (w - 1)) by (nonlinear_arith);
}

/// Going to a neighbouring free cell moves by one along the passage.
proof fn along_moves_by_one(h: nat, w: nat, c: (int, int), k: int)
    requires
        maze_size(h, w),
        0 <= k < 4,
        free(winding(h, w), c),
        free(winding(h, w), neighbor(c, k)),
    ensures
        along(w as int, c.0, c.1) <= along(w as int, neighbor(c, k).0, neighbor(c, k).1) + 1,
{
    let n = neighbor(c, k);
    let row = (c.0 - 1) / 2;
    let wi = w as int;
    assert(winding(h, w).at(c.0, c.1) != TOKEN_WALL);
    assert(winding(h, w).at(n.0, n.1) != TOKEN_WALL);
    along_rows(wi, row);
    along_rows(wi, row - 1);
    assert(last_column(h as int, wi) == wi - 2 || last_column(h as int, wi) == 1);
    if k == 0 || k == 2 {
        let nrow = (n.0 - 1) / 2;
        assert(nrow == row || nrow == row - 1 || nrow == row + 1);
    }
}

/// No walk through the winding maze is shorter than its passage.
proof fn winding_walk_is_long(h: nat, w: nat, c: (int, int), d: nat)
    requires
        maze_size(h, w),
        walk(winding(h, w), (1, 1), c, d),
    ensures
        along(w as int, c.0, c.1) <= d,
    decreases d,
{
    let t = winding(h, w);
    if d == 0 {
        assert(0 * (w - 1) == 0);
    } else {
        let e = (d - 1) as nat;
        let k: int = if walk(t, (1, 1), neighbor(c, 0), e) {
            0
        } else if walk(t, (1, 1), neighbor(c, 1), e) {
            1
        } else if walk(t, (1, 1), neighbor(c, 2), e) {
            2
        } else {
            3
        };
        assert(walk(t, (1, 1), neighbor(c, k), e));
        winding_walk_is_long(h, w, neighbor(c, k), e);
        along_moves_by_one(h, w, c, k);
    }
}

/// The cell before a cell on the winding passage.
spec fn before_along(w: int, y: int, x: int) -> int {
    let row = (y - 1) / 2;
    if y % 2 == 0 {
        0
    } else if row % 2 == 0 {
        if x > 1 {
            3
        } else {
            0
        }
    } else {
        if x < w - 2 {
            1
        } else {
            0
        }
    }
}

/// Every cell of the winding passage is reached by walking along it.
proof fn winding_walk_exists(h: nat, w: nat, c: (int, int), d: nat)
    requires
        maze_size(h, w),
        free(winding(h, w), c),
        along(w as int, c.0, c.1) == d,
    ensures
        walk(winding(h, w), (1, 1), c, d),
    decreases d,
{
    let t = winding(h, w);
    let wi = w as int;
    let (y, x) = c;
    let row = (y - 1) / 2;
    assert(t.at(y, x) != TOKEN_WALL);
    assert(last_column(h as int, wi) == wi - 2 || last_column(h as int, wi) == 1);
    along_rows(wi, row - 1);
    assert(0 * (wi - 1) == 0);
    assert(row >= 0);
    if row > 0 {
        assert(row * (wi - 1) >= wi - 1) by (nonlinear_arith)
            requires
                row >= 1,
                wi >= 3,
        ;
    }
    if y == 1 && x == 1 {
    } else {
        assert(d > 0) by {
            if y % 2 == 1 && row == 0 {
                assert(x > 1);
            }
        }
        let k = before_along(wi, y, x);
        let n = neighbor(c, k);
        assert(free(t, n)) by {
            assert(t.at(n.0, n.1) != TOKEN_WALL);
        }
        assert(along(wi, n.0, n.1) == d - 1);
        winding_walk_exists(h, w, n, (d - 1) as nat);
    }
}

/// The winding maze is well built, and its path runs through every cell.
proof fn winding_is_longest(h: nat, w: nat)
    requires
        maze_size(h, w),
    ensures
        well_built(winding(h, w), h, w),
        ({
            let l = lattice_of(h as int, w as int);
            &&& 2 * (l.size() - 1) >= 0
            &&& path_len_is(winding(h, w), (2 * (l.size() - 1)) as nat)
        }),
{
    let t = winding(h, w);
    let wi = w as int;
    let hi = h as int;
    let l = lattice_of(hi, wi);
    let s = (1int, 1int);
    let g = (hi - 2, last_column(hi, wi));
    assert(maze_with(t, h, w, s, g)) by {
        assert(s != g);
        assert forall|y: int, x: int| 0 <= y < h && 0 <= x < w implies {
            let v = #[trigger] t.at(y, x);
            &&& v == TOKEN_START <==> (y, x) == s
            &&& v == TOKEN_GOAL <==> (y, x) == g
            &&& v == TOKEN_WALL || v == TOKEN_EMPTY || v == TOKEN_START || v == TOKEN_GOAL
            &&& on_border(t, y, x) ==> v == TOKEN_WALL
            &&& y % 2 == 0 && x % 2 == 0 ==> v == TOKEN_WALL
            &&& y % 2 == 1 && x % 2 == 1 ==> v != TOKEN_WALL
        } by {}
    }
    found_where_it_is(t, TOKEN_START, 1, 1);
    found_where_it_is(t, TOKEN_GOAL, g.0, g.1);
    let ky = l.ky;
    let kx = l.kx;
    assert((g.0 - 1) / 2 == ky - 1);
    assert(g.0 % 2 == 1);
    if (ky - 1) % 2 == 0 {
        assert(g.1 == wi - 2);
    } else {
        assert(g.1 == 1);
    }
    assert(along(wi, g.0, g.1) == (ky - 1) * (wi - 1) + (wi - 3));
    assert((ky - 1) * (wi - 1) + (wi - 3) == 2 * (ky * kx - 1)) by (nonlinear_arith)
        requires
            wi - 1 == 2 * kx,
    ;
    assert(ky * kx >= 1) by (nonlinear_arith)
        requires
            ky >= 1,
            kx >= 1,
    ;
    let d = (2 * (l.size() - 1)) as nat;
    winding_walk_exists(h, w, g, d);
    assert forall|e: nat| e < d implies !walk(t, s, g, e) by {
        if walk(t, s, g, e) {
            winding_walk_is_long(h, w, g, e);
        }
    }
}

/// Builds the winding maze.
fn make_winding(h: usize, w: usize) -> (r: Matrix<i64>)
    requires
        maze_size(h as nat, w as nat),
    ensures
        r.wf(),
        r@ == winding(h as nat, w as nat),
{
    let last = if ((h - 1) / 2 - 1) % 2 == 0 {
        w - 2
    } else {
        1
    };
    Matrix::from_shape_fn(
        h,
        w,
        |y: usize, x: usize| -> (v: i64)
            requires
                maze_size(h as nat, w as nat),
                y < h,
                x < w,
                last == last_column(h as int, w as int),
            ensures
                v == winding(h as nat, w as nat).at(y as int, x as int)
            {
                if y == 1 && x == 1 {
                    TOKEN_START
                } else if y == h - 2 && x == last {
                    TOKEN_GOAL
                } else if y == 0 || y == h - 1 || x == 0 || x == w - 1 {
                    TOKEN_WALL
                } else if y % 2 == 1 {
                    TOKEN_EMPTY
                } else {
                    let opening = if (y / 2 - 1) % 2 == 0 {
                        w - 2
                    } else {
                        1
                    };
                    if x == opening {
                        TOKEN_EMPTY
                    } else {
                        TOKEN_WALL
                    }
                }
            },
    )
}

proof fn path_len_unique(t: Arr2<i64>, d: nat, e: nat)
    requires
        path_len_is(t, d),
        path_len_is(t, e),
    ensures
        d == e,
{
}

/// Searching a generated maze finds the length that came with it.
pub proof fn search_finds_the_length(t: Arr2<i64>, path_len: usize, found: Option<usize>)
    requires
        path_len_is(t, path_len as nat),
        match found {
            Some(d) => path_length(t) == Some(d as nat),
            None => path_length(t) is None,
        },
    ensures
        found == Some(path_len),
{
    path_length_is_found(t);
}

/// Generates one accepted maze of odd height and width, rejecting carved mazes whose
/// shortest path is below `min_path_len`. The maze is a function of its arguments.
pub fn generate_maze_hw(h: usize, w: usize, seed: u64, min_path_len: usize) -> (r: GeneratedMaze)
    requires
        maze_size(h as nat, w as nat),
        h * w <= usize::MAX,
        min_path_len <= 2 * (((h - 1) / 2) * ((w - 1) / 2) - 1),
    ensures
        r.tokens.wf(),
        r.tokens@ == accepted(h as nat, w as nat, seed, min_path_len as nat, MAX_ATTEMPTS as nat),
        well_built(r.tokens@, h as nat, w as nat),
        path_len_is(r.tokens@, r.path_len as nat),
        path_length(r.tokens@) == Some(r.path_len as nat),
        r.path_len >= min_path_len,
{
    let mut state = seed;
    let ghost want = accepted(h as nat, w as nat, seed, min_path_len as nat, MAX_ATTEMPTS as nat);
    for i in 0..MAX_ATTEMPTS
        invariant
            maze_size(h as nat, w as nat),
            h * w <= usize::MAX,
            want == accepted(h as nat, w as nat, seed, min_path_len as nat, MAX_ATTEMPTS as nat),
            want == accepted(h as nat, w as nat, state, min_path_len as nat, (MAX_ATTEMPTS - i) as nat),
    {
        let (tokens, next) = attempt(h, w, state);
        proof {
            built_size(tokens@, h as nat, w as nat);
        }
        match bfs_path_len(&tokens) {
            Some(d) => {
                assert(path_len_is(tokens@, d as nat)) by {
                    start_and_goal_found(tokens@, h as nat, w as nat);
                }
                if d >= min_path_len {
                    assert(long_enough(tokens@, min_path_len as nat));
                    assert(path_length(tokens@) == Some(d as nat));
                    return GeneratedMaze { tokens, path_len: d };
                }
                assert(!long_enough(tokens@, min_path_len as nat)) by {
                    if long_enough(tokens@, min_path_len as nat) {
                        let e = choose|e: nat| #[trigger] path_len_is(tokens@, e) && e >= min_path_len;
                        path_len_unique(tokens@, d as nat, e);
                    }
                }
            },
            None => {
                assert(!long_enough(tokens@, min_path_len as nat)) by {
                    if long_enough(tokens@, min_path_len as nat) {
                        let e = choose|e: nat| #[trigger] path_len_is(tokens@, e) && e >= min_path_len;
                    }
                }
            },
        }
        state = next;
    }
    let tokens = make_winding(h, w);
    let ky = (h - 1) / 2;
    let kx = (w - 1) / 2;
    assert(0 < ky * kx && 2 * (ky * kx) <= h * w) by (nonlinear_arith)
        requires
            0 < ky,
            0 < kx,
            2 * ky <= h,
            2 * kx <= w,
    ;
    proof {
        winding_is_longest(h as nat, w as nat);
    }
    proof {
        path_length_is_found(tokens@);
    }
    GeneratedMaze { tokens, path_len: 2 * (ky * kx - 1) }
}

proof fn start_and_goal_found(t: Arr2<i64>, h: nat, w: nat)
    requires
        well_built(t, h, w),
    ensures
        find_token(t, TOKEN_START) is Some,
        find_token(t, TOKEN_GOAL) is Some,
{
    let (s, g) = choose|s: (int, int), g: (int, int)| #[trigger] maze_with(t, h, w, s, g);
    assert(t.at(s.0, s.1) == TOKEN_START);
    assert(t.at(g.0, g.1) == TOKEN_GOAL);
    found_where_it_is(t, TOKEN_START, s.0, s.1);
    found_where_it_is(t, TOKEN_GOAL, g.0, g.1);
}

/// Generates one accepted square maze.
pub fn generate_maze(size: usize, seed: u64, min_path_len: usize) -> (r: GeneratedMaze)
    requires
        maze_size(size as nat, size as nat),
        size * size <= usize::MAX,
        min_path_len <= 2 * (((size - 1) / 2) * ((size - 1) / 2) - 1),
    ensures
        r.tokens.wf(),
        r.tokens@ == accepted(
            size as nat,
            size as nat,
            seed,
            min_path_len as nat,
            MAX_ATTEMPTS as nat,
        ),
        well_built(r.tokens@, size as nat, size as nat),
        path_len_is(r.tokens@, r.path_len as nat),
        path_length(r.tokens@) == Some(r.path_len as nat),
        r.path_len >= min_path_len,
{
    generate_maze_hw(size, size, seed, min_path_len)
}

} // verus!
