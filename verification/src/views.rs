//! Views: the map between the global grid and per-agent local patches.
//!
//! - Centers: the first at half a patch per axis, then every `stride`, row-major (y, x).
//! - Mazes are padded with walls by half a patch before patches are cut, so a center is
//!   the top left of its patch in the padded image; tokens are then made one-hot.
//! - Edges join neighbouring centers, each once, oriented right or down.
//! - Reassembly averages overlapping patches.
use crate::encoder::slot_index_fits;
use crate::graph::{endpoints_below, pairs_of};
use crate::scalar::Scalar;
use crate::tensor::{Arr2, Arr3, Matrix, Tensor3};
use vstd::prelude::*;

verus! {

/// Token of padding.
pub const TOKEN_PAD: i64 = 0;

/// Token of a wall.
pub const TOKEN_WALL: i64 = 1;

/// Token of a free cell.
pub const TOKEN_EMPTY: i64 = 2;

/// Token of the start.
pub const TOKEN_START: i64 = 3;

/// Token of the goal.
pub const TOKEN_GOAL: i64 = 4;

/// Token of a path cell.
pub const TOKEN_PATH: i64 = 5;

/// How many centers lie along an axis.
pub open spec fn axis_count(dim: int, stride: int, patch_size: int) -> int {
    if patch_size / 2 < dim {
        (dim - patch_size / 2 - 1) / stride + 1
    } else {
        0
    }
}

/// The centers of an image, `[N, 2]` (y, x), row-major.
pub open spec fn centers_of(h: int, w: int, stride: int, patch_size: int) -> Arr2<i64> {
    let nx = axis_count(w, stride, patch_size);
    Arr2::build(
        (axis_count(h, stride, patch_size) * nx) as nat,
        2,
        |i: int, k: int|
            (patch_size / 2 + (if k == 0 {
                i / nx
            } else {
                i % nx
            }) * stride) as i64,
    )
}

proof fn axis_position_fits(dim: int, stride: int, patch_size: int, i: int)
    requires
        0 < stride,
        0 <= patch_size,
        0 <= i < axis_count(dim, stride, patch_size),
    ensures
        0 <= i * stride,
        patch_size / 2 + i * stride < dim,
{
    let top = (dim - patch_size / 2 - 1) / stride;
    assert(i <= top);
    assert(0 <= i * stride <= top * stride) by (nonlinear_arith)
        requires
            0 <= i <= top,
            0 < stride,
    ;
    assert(top * stride <= dim - patch_size / 2 - 1) by (nonlinear_arith)
        requires
            top == (dim - patch_size / 2 - 1) / stride,
            0 < stride,
    ;
}

proof fn axis_count_bounded(dim: int, stride: int, patch_size: int)
    requires
        0 < stride,
        0 <= dim,
        0 <= patch_size,
    ensures
        0 <= axis_count(dim, stride, patch_size) <= dim,
{
    if patch_size / 2 < dim {
        let x = dim - patch_size / 2 - 1;
        assert(0 <= x / stride <= x) by (nonlinear_arith)
            requires
                0 <= x,
                0 < stride,
        ;
    }
}

/// The centers of an image lie in it.
pub proof fn centers_inside(h: int, w: int, stride: int, patch_size: int)
    requires
        0 < stride,
        0 <= h <= i64::MAX,
        0 <= w <= i64::MAX,
        0 <= patch_size,
    ensures
        centers_in(centers_of(h, w, stride, patch_size), h, w),
        centers_of(h, w, stride, patch_size).rows <= h * w,
{
    let ny = axis_count(h, stride, patch_size);
    let nx = axis_count(w, stride, patch_size);
    axis_count_bounded(h, stride, patch_size);
    axis_count_bounded(w, stride, patch_size);
    let c = centers_of(h, w, stride, patch_size);
    assert(0 <= ny * nx <= h * w) by (nonlinear_arith)
        requires
            0 <= ny <= h,
            0 <= nx <= w,
    ;
    assert forall|i: int| 0 <= i < c.rows implies 0 <= #[trigger] c.at(i, 0) < h && 0 <= c.at(i, 1) < w by {
        grid_index(ny, nx, i);
        axis_position_fits(h, stride, patch_size, i / nx);
        axis_position_fits(w, stride, patch_size, i % nx);
    }
}

proof fn grid_index(ny: int, nx: int, i: int)
    requires
        0 <= i < ny * nx,
        0 <= nx,
        0 <= ny,
    ensures
        0 < nx,
        0 <= i / nx < ny,
        0 <= i % nx < nx,
{
    assert(0 < nx) by (nonlinear_arith)
        requires
            0 <= i < ny * nx,
            0 <= nx,
    ;
    assert(0 <= i / nx < ny && 0 <= i % nx < nx) by (nonlinear_arith)
        requires
            0 <= i < ny * nx,
            0 < nx,
    ;
}

/// How many centers lie along an axis.
fn count_along(dim: usize, stride: usize, patch_size: usize) -> (r: usize)
    requires
        0 < stride,
    ensures
        r == axis_count(dim as int, stride as int, patch_size as int),
        r <= dim,
{
    proof {
        axis_count_bounded(dim as int, stride as int, patch_size as int);
    }
    if patch_size / 2 < dim {
        (dim - patch_size / 2 - 1) / stride + 1
    } else {
        0
    }
}

/// How many agent centers there are on a regular grid.
pub fn center_count(image_hw: (usize, usize), stride: usize, patch_size: usize) -> (r: usize)
    requires
        0 < stride,
        image_hw.0 * image_hw.1 <= usize::MAX,
    ensures
        r == centers_of(image_hw.0 as int, image_hw.1 as int, stride as int, patch_size as int).rows,
{
    let (h, w) = image_hw;
    let ny = count_along(h, stride, patch_size);
    let nx = count_along(w, stride, patch_size);
    assert(0 <= ny * nx <= h * w) by (nonlinear_arith)
        requires
            0 <= ny <= h,
            0 <= nx <= w,
    ;
    ny * nx
}

/// Agent centers on a regular grid, `[N, 2]` (y, x), row-major.
pub fn grid_agent_centers(image_hw: (usize, usize), stride: usize, patch_size: usize) -> (r: Matrix<i64>)
    requires
        0 < stride,
        image_hw.0 <= i64::MAX,
        image_hw.1 <= i64::MAX,
        image_hw.0 * image_hw.1 <= usize::MAX,
    ensures
        r.wf(),
        r@ == centers_of(image_hw.0 as int, image_hw.1 as int, stride as int, patch_size as int),
        centers_in(r@, image_hw.0 as int, image_hw.1 as int),
{
    let (h, w) = image_hw;
    let ny = count_along(h, stride, patch_size);
    let nx = count_along(w, stride, patch_size);
    proof {
        centers_inside(h as int, w as int, stride as int, patch_size as int);
        assert(0 <= ny * nx <= h * w) by (nonlinear_arith)
            requires
                0 <= ny <= h,
                0 <= nx <= w,
        ;
    }
    Matrix::from_shape_fn(
        ny * nx,
        2,
        |i: usize, k: usize| -> (v: i64)
            requires
                0 < stride,
                h <= i64::MAX,
                w <= i64::MAX,
                ny == axis_count(h as int, stride as int, patch_size as int),
                nx == axis_count(w as int, stride as int, patch_size as int),
                i < ny * nx,
            ensures
                v == patch_size / 2 + (if k == 0 {
                    i as int / nx as int
                } else {
                    i as int % nx as int
                }) * stride
            {
                proof {
                    grid_index(ny as int, nx as int, i as int);
                    axis_position_fits(h as int, stride as int, patch_size as int, i as int / nx as int);
                    axis_position_fits(w as int, stride as int, patch_size as int, i as int % nx as int);
                }
                let step = if k == 0 {
                    i / nx
                } else {
                    i % nx
                };
                (patch_size / 2 + step * stride) as i64
            },
    )
}

/// The first center at `(y, x)` among the first `n`.
pub open spec fn center_at(centers: Arr2<i64>, y: int, x: int, n: nat) -> Option<int>
    decreases n,
{
    if n == 0 {
        None
    } else {
        match center_at(centers, y, x, (n - 1) as nat) {
            Some(i) => Some(i),
            None => if centers.at(n - 1, 0) == y && centers.at(n - 1, 1) == x {
                Some(n - 1)
            } else {
                None
            },
        }
    }
}

/// Direction `k` of an edge, in steps: right, down, down right, down left.
pub open spec fn edge_step(k: int) -> (int, int) {
    if k == 0 {
        (0, 1)
    } else if k == 1 {
        (1, 0)
    } else if k == 2 {
        (1, 1)
    } else {
        (1, -1)
    }
}

/// Directions in which edges run: right and down, with eight neighbours also the two
/// diagonals that lead down.
pub open spec fn edge_steps(connectivity: usize) -> int {
    if connectivity == 8 {
        4
    } else {
        2
    }
}

/// The edges that leave center `u` in the first `k` directions.
pub open spec fn edges_from(centers: Arr2<i64>, stride: int, u: int, k: nat) -> Seq<(int, int)>
    decreases k,
{
    if k == 0 {
        Seq::empty()
    } else {
        let before = edges_from(centers, stride, u, (k - 1) as nat);
        let (dy, dx) = edge_step(k - 1);
        match center_at(centers, centers.at(u, 0) + dy * stride, centers.at(u, 1) + dx * stride, centers.rows) {
            Some(v) => before.push((u, v)),
            None => before,
        }
    }
}

/// The edges that leave the first `n` centers, center after center.
pub open spec fn grid_edges(centers: Arr2<i64>, stride: int, connectivity: usize, n: nat) -> Seq<(int, int)>
    decreases n,
{
    if n == 0 {
        Seq::empty()
    } else {
        grid_edges(centers, stride, connectivity, (n - 1) as nat) + edges_from(
            centers,
            stride,
            n - 1,
            edge_steps(connectivity) as nat,
        )
    }
}

/// Finds the first center at a position.
fn find_center(centers: &Matrix<i64>, y: i64, x: i64) -> (r: Option<usize>)
    requires
        centers.wf(),
        centers@.cols == 2,
    ensures
        match r {
            Some(i) => center_at(centers@, y as int, x as int, centers@.rows) == Some(i as int),
            None => center_at(centers@, y as int, x as int, centers@.rows) is None,
        },
        r matches Some(i) ==> i < centers@.rows,
{
    let n = centers.nrows();
    let mut found: Option<usize> = None;
    for i in 0..n
        invariant
            centers.wf(),
            centers@.cols == 2,
            n == centers@.rows,
            match found {
                Some(j) => j < i && center_at(centers@, y as int, x as int, i as nat) == Some(j as int),
                None => center_at(centers@, y as int, x as int, i as nat) is None,
            },
    {
        if found.is_none() && centers.get(i, 0) == y && centers.get(i, 1) == x {
            found = Some(i);
        }
    }
    found
}

/// Edges between neighbouring centers, each undirected edge once, oriented right or down.
pub fn build_grid_edge_indices(centers: &Matrix<i64>, stride: usize, connectivity: usize) -> (r: Vec<[u32; 2]>)
    requires
        centers.wf(),
        centers@.cols == 2,
        centers@.rows <= u32::MAX,
        connectivity == 4 || connectivity == 8,
        forall|i: int|
            0 <= i < centers@.rows ==> 0 <= #[trigger] centers@.at(i, 0) <= i64::MAX - stride && 0
                <= centers@.at(i, 1) <= i64::MAX - stride,
    ensures
        pairs_of(r@) == grid_edges(centers@, stride as int, connectivity, centers@.rows),
{
    let n = centers.nrows();
    let steps: usize = if connectivity == 8 {
        4
    } else {
        2
    };
    let mut out: Vec<[u32; 2]> = Vec::new();
    for u in 0..n
        invariant
            centers.wf(),
            centers@.cols == 2,
            n == centers@.rows,
            centers@.rows <= u32::MAX,
            steps == edge_steps(connectivity),
            forall|i: int|
                0 <= i < centers@.rows ==> 0 <= #[trigger] centers@.at(i, 0) <= i64::MAX - stride && 0
                    <= centers@.at(i, 1) <= i64::MAX - stride,
            pairs_of(out@) == grid_edges(centers@, stride as int, connectivity, u as nat),
    {
        let y = centers.get(u, 0);
        let x = centers.get(u, 1);
        assert(0 <= centers@.at(u as int, 0) <= i64::MAX - stride);
        let s = stride as i64;
        let ghost before = grid_edges(centers@, stride as int, connectivity, u as nat);
        for k in 0..steps
            invariant
                centers.wf(),
                centers@.cols == 2,
                u < n,
                n == centers@.rows,
                centers@.rows <= u32::MAX,
                steps <= 4,
                s == stride,
                y == centers@.at(u as int, 0),
                x == centers@.at(u as int, 1),
                0 <= y <= i64::MAX - stride,
                0 <= x <= i64::MAX - stride,
                pairs_of(out@) == before + edges_from(centers@, stride as int, u as int, k as nat),
        {
            let ty = if k == 0 {
                y
            } else {
                y + s
            };
            let tx = if k == 0 || k == 2 {
                x + s
            } else if k == 1 {
                x
            } else {
                x - s
            };
            assert(0 * stride == 0 && 1 * stride == stride && (-1) * stride == -stride);
            assert(ty == centers@.at(u as int, 0) + edge_step(k as int).0 * stride);
            assert(tx == centers@.at(u as int, 1) + edge_step(k as int).1 * stride);
            match find_center(centers, ty, tx) {
                Some(v) => {
                    let ghost had = out@;
                    out.push([u as u32, v as u32]);
                    assert(pairs_of(out@) =~= pairs_of(had).push((u as int, v as int)));
                },
                None => {},
            }
        }
    }
    out
}

proof fn center_at_sound(centers: Arr2<i64>, y: int, x: int, n: nat)
    ensures
        center_at(centers, y, x, n) matches Some(i) ==> 0 <= i < n && centers.at(i, 0) == y && centers.at(i, 1)
            == x,
    decreases n,
{
    if n > 0 {
        center_at_sound(centers, y, x, (n - 1) as nat);
    }
}

/// The pair joins a center to one that lies one stride right or down of it.
pub open spec fn leads_on(centers: Arr2<i64>, stride: int, connectivity: usize, pair: (int, int)) -> bool {
    let (u, v) = pair;
    &&& 0 <= u < centers.rows
    &&& 0 <= v < centers.rows
    &&& exists|k: int|
        0 <= k < edge_steps(connectivity) && centers.at(v, 0) == centers.at(u, 0) + (#[trigger] edge_step(k)).0
            * stride && centers.at(v, 1) == centers.at(u, 1) + edge_step(k).1 * stride
}

proof fn edges_from_lead(centers: Arr2<i64>, stride: int, connectivity: usize, u: int, k: nat)
    requires
        0 <= u < centers.rows,
        k <= edge_steps(connectivity),
        0 < stride,
    ensures
        forall|i: int|
            0 <= i < edges_from(centers, stride, u, k).len() ==> {
                let pair = #[trigger] edges_from(centers, stride, u, k)[i];
                pair.0 == u && leads_on(centers, stride, connectivity, pair)
            },
        forall|i: int|
            0 <= i < edges_from(centers, stride, u, k).len() ==> ahead(
                centers,
                stride,
                k,
                #[trigger] edges_from(centers, stride, u, k)[i],
            ),
        forall|i: int, j: int|
            0 <= i < j < edges_from(centers, stride, u, k).len() ==> #[trigger] edges_from(
                centers,
                stride,
                u,
                k,
            )[i].1 != #[trigger] edges_from(centers, stride, u, k)[j].1,
    decreases k,
{
    if k > 0 {
        edges_from_lead(centers, stride, connectivity, u, (k - 1) as nat);
        let (dy, dx) = edge_step(k - 1);
        let ty = centers.at(u, 0) + dy * stride;
        let tx = centers.at(u, 1) + dx * stride;
        center_at_sound(centers, ty, tx, centers.rows);
        let before = edges_from(centers, stride, u, (k - 1) as nat);
        let after = edges_from(centers, stride, u, k);
        assert forall|i: int| 0 <= i < before.len() implies {
            let pair = #[trigger] before[i];
            ahead(centers, stride, k, pair) && pair.1 != after[after.len() - 1].1 || after == before
        } by {
            let pair = before[i];
            assert(ahead(centers, stride, (k - 1) as nat, pair));
            let j = choose|j: int|
                0 <= j < k - 1 && centers.at(pair.1, 0) == centers.at(pair.0, 0) + (#[trigger] edge_step(j)).0
                    * stride && centers.at(pair.1, 1) == centers.at(pair.0, 1) + edge_step(j).1 * stride;
            assert(edge_step(j) != edge_step(k - 1));
            assert(0 * stride == 0 && 1 * stride == stride && (-1) * stride == -stride);
        }
    }
}

/// The pair leads in one of the first `k` directions.
spec fn ahead(centers: Arr2<i64>, stride: int, k: nat, pair: (int, int)) -> bool {
    exists|j: int|
        0 <= j < k && centers.at(pair.1, 0) == centers.at(pair.0, 0) + (#[trigger] edge_step(j)).0 * stride
            && centers.at(pair.1, 1) == centers.at(pair.0, 1) + edge_step(j).1 * stride
}

/// Each listed edge leads one stride right or down, and no two edges join the same pair of
/// centers, in either direction.
pub proof fn grid_edges_once(centers: Arr2<i64>, stride: int, connectivity: usize, n: nat)
    requires
        0 < stride,
        n <= centers.rows,
        connectivity == 4 || connectivity == 8,
    ensures
        forall|e: int|
            0 <= e < grid_edges(centers, stride, connectivity, n).len() ==> {
                let pair = #[trigger] grid_edges(centers, stride, connectivity, n)[e];
                pair.0 < n && leads_on(centers, stride, connectivity, pair)
            },
        forall|e: int, f: int|
            0 <= e < f < grid_edges(centers, stride, connectivity, n).len() ==> {
                let p = #[trigger] grid_edges(centers, stride, connectivity, n)[e];
                let q = #[trigger] grid_edges(centers, stride, connectivity, n)[f];
                p != q && p != (q.1, q.0)
            },
    decreases n,
{
    if n > 0 {
        let steps = edge_steps(connectivity) as nat;
        grid_edges_once(centers, stride, connectivity, (n - 1) as nat);
        edges_from_lead(centers, stride, connectivity, n - 1, steps);
        let before = grid_edges(centers, stride, connectivity, (n - 1) as nat);
        let new = edges_from(centers, stride, n - 1, steps);
        let all = grid_edges(centers, stride, connectivity, n);
        assert forall|e: int| 0 <= e < all.len() implies {
            let pair = #[trigger] all[e];
            pair.0 < n && leads_on(centers, stride, connectivity, pair)
        } by {
            if e < before.len() {
                assert(all[e] == before[e]);
            } else {
                assert(all[e] == new[e - before.len()]);
            }
        }
        assert forall|e: int, f: int| 0 <= e < f < all.len() implies {
            let p = #[trigger] all[e];
            let q = #[trigger] all[f];
            p != q && p != (q.1, q.0)
        } by {
            let p = all[e];
            let q = all[f];
            assert(leads_on(centers, stride, connectivity, p));
            assert(leads_on(centers, stride, connectivity, q));
            not_both_ways(centers, stride, connectivity, p, q);
            if f < before.len() {
                assert(p == before[e] && q == before[f]);
            } else if e < before.len() {
                assert(p == before[e] && q == new[f - before.len()]);
            } else {
                assert(p == new[e - before.len()] && q == new[f - before.len()]);
            }
        }
    }
}

proof fn not_both_ways(centers: Arr2<i64>, stride: int, connectivity: usize, p: (int, int), q: (int, int))
    requires
        0 < stride,
        leads_on(centers, stride, connectivity, p),
        leads_on(centers, stride, connectivity, q),
    ensures
        p != (q.1, q.0),
{
    if p == (q.1, q.0) {
        let j = choose|j: int|
            0 <= j < edge_steps(connectivity) && centers.at(p.1, 0) == centers.at(p.0, 0) + (
            #[trigger] edge_step(j)).0 * stride && centers.at(p.1, 1) == centers.at(p.0, 1) + edge_step(j).1
                * stride;
        let k = choose|k: int|
            0 <= k < edge_steps(connectivity) && centers.at(q.1, 0) == centers.at(q.0, 0) + (
            #[trigger] edge_step(k)).0 * stride && centers.at(q.1, 1) == centers.at(q.0, 1) + edge_step(k).1
                * stride;
        assert(edge_step(j).0 * stride + edge_step(k).0 * stride == 0);
        assert(edge_step(j).1 * stride + edge_step(k).1 * stride == 0);
        assert(0 * stride == 0 && 1 * stride == stride && (-1) * stride == -stride);
    }
}

/// The endpoints of the listed edges are centers.
pub proof fn grid_edges_join_centers(
    edges: Seq<[u32; 2]>,
    centers: Arr2<i64>,
    stride: int,
    connectivity: usize,
)
    requires
        0 < stride,
        connectivity == 4 || connectivity == 8,
        pairs_of(edges) == grid_edges(centers, stride, connectivity, centers.rows),
    ensures
        endpoints_below(edges, centers.rows),
        edges.len() <= 4 * centers.rows,
{
    let pairs = grid_edges(centers, stride, connectivity, centers.rows);
    grid_edges_once(centers, stride, connectivity, centers.rows);
    grid_edges_few(centers, stride, connectivity, centers.rows);
    assert forall|e: int| 0 <= e < edges.len() implies (#[trigger] edges[e])@[0] < centers.rows && edges[e]@[1]
        < centers.rows by {
        assert(leads_on(centers, stride, connectivity, pairs[e]));
        assert(pairs[e] == (edges[e]@[0] as int, edges[e]@[1] as int));
    }
}

proof fn edges_from_few(centers: Arr2<i64>, stride: int, u: int, k: nat)
    ensures
        edges_from(centers, stride, u, k).len() <= k,
    decreases k,
{
    if k > 0 {
        edges_from_few(centers, stride, u, (k - 1) as nat);
    }
}

/// At most four edges lead on from a center.
pub proof fn grid_edges_few(centers: Arr2<i64>, stride: int, connectivity: usize, n: nat)
    ensures
        grid_edges(centers, stride, connectivity, n).len() <= 4 * n,
    decreases n,
{
    if n > 0 {
        grid_edges_few(centers, stride, connectivity, (n - 1) as nat);
        edges_from_few(centers, stride, n - 1, edge_steps(connectivity) as nat);
    }
}

/// The centers lie in an image of this size.
pub open spec fn centers_in(centers: Arr2<i64>, h: int, w: int) -> bool {
    &&& centers.has_shape(centers.rows, 2)
    &&& forall|i: int|
        0 <= i < centers.rows ==> 0 <= #[trigger] centers.at(i, 0) < h && 0 <= centers.at(i, 1) < w
}

/// Positions up to a patch beyond an axis can be counted.
pub open spec fn span_fits(dim: int, patch_size: int) -> bool {
    dim + patch_size <= usize::MAX && dim + patch_size <= i64::MAX
}

/// The token at `(y, x)` of image `b`; walls outside.
pub open spec fn padded_token(tokens: Arr3<i64>, b: int, y: int, x: int) -> i64 {
    if 0 <= y < tokens.b && 0 <= x < tokens.d {
        tokens.at(b, y, x)
    } else {
        TOKEN_WALL
    }
}

/// Member `k` of the one-hot patch of a center: row-major cells, each with one member for
/// each class.
pub open spec fn patch_member<S: Scalar>(
    tokens: Arr3<i64>,
    centers: Arr2<i64>,
    patch_size: int,
    classes: int,
    n: int,
    b: int,
    k: int,
) -> S {
    let cell = k / classes;
    let y = centers.at(n, 0) + cell / patch_size - patch_size / 2;
    let x = centers.at(n, 1) + cell % patch_size - patch_size / 2;
    if padded_token(tokens, b, y, x) == k % classes {
        S::spec_one()
    } else {
        S::spec_zero()
    }
}

/// The one-hot patches of a batch of mazes, `[N, B, ps * ps * C]`.
pub open spec fn patches_of<S: Scalar>(tokens: Arr3<i64>, centers: Arr2<i64>, patch_size: int, classes: int) -> Arr3<
    S,
> {
    Arr3::build(
        centers.rows,
        tokens.n,
        (patch_size * patch_size * classes) as nat,
        |n: int, b: int, k: int| patch_member::<S>(tokens, centers, patch_size, classes, n, b, k),
    )
}

proof fn patch_index(patch_size: int, classes: int, k: int)
    requires
        0 <= k < patch_size * patch_size * classes,
        0 <= patch_size,
        0 <= classes,
    ensures
        0 < classes,
        0 < patch_size,
        0 <= k / classes < patch_size * patch_size,
        0 <= k % classes < classes,
        0 <= (k / classes) / patch_size < patch_size,
        0 <= (k / classes) % patch_size < patch_size,
{
    let area = patch_size * patch_size;
    assert(0 <= area) by (nonlinear_arith)
        requires
            0 <= patch_size,
            area == patch_size * patch_size,
    ;
    grid_index(area, classes, k);
    grid_index(patch_size, patch_size, k / classes);
}

/// Pads with walls, cuts patches and makes them one-hot. Tokens are `[B, H, W]`.
pub fn prepare_maze_patches<S: Scalar>(
    tokens: &Tensor3<i64>,
    centers: &Matrix<i64>,
    patch_size: usize,
    num_input_classes: usize,
) -> (r: Tensor3<S>)
    requires
        tokens.wf(),
        centers_in(centers@, tokens@.b as int, tokens@.d as int),
        crate::weights::product_fits(patch_size, patch_size, num_input_classes),
        span_fits(tokens@.b as int, patch_size as int),
        span_fits(tokens@.d as int, patch_size as int),
        num_input_classes <= i64::MAX,
    ensures
        r.wf(),
        r@ == patches_of::<S>(tokens@, centers@, patch_size as int, num_input_classes as int),
{
    let (batch, h, w) = tokens.dim();
    let half = patch_size / 2;
    Tensor3::from_shape_fn(
        centers.nrows(),
        batch,
        patch_size * patch_size * num_input_classes,
        |n: usize, b: usize, k: usize| -> (v: S)
            requires
                tokens.wf(),
                centers_in(centers@, tokens@.b as int, tokens@.d as int),
                crate::weights::product_fits(patch_size, patch_size, num_input_classes),
                span_fits(tokens@.b as int, patch_size as int),
                span_fits(tokens@.d as int, patch_size as int),
                num_input_classes <= i64::MAX,
                batch == tokens@.n,
                h == tokens@.b,
                w == tokens@.d,
                half == patch_size / 2,
                n < centers@.rows,
                b < tokens@.n,
                k < patch_size * patch_size * num_input_classes,
            ensures
                v == patch_member::<S>(
                    tokens@,
                    centers@,
                    patch_size as int,
                    num_input_classes as int,
                    n as int,
                    b as int,
                    k as int,
                )
            {
                proof {
                    patch_index(patch_size as int, num_input_classes as int, k as int);
                    assert(0 <= centers@.at(n as int, 0) < h);
                }
                let cell = k / num_input_classes;
                let class = k % num_input_classes;
                let y = centers.get(n, 0) as usize + cell / patch_size;
                let x = centers.get(n, 1) as usize + cell % patch_size;
                let token = if y >= half && y - half < h && x >= half && x - half < w {
                    tokens.get(b, y - half, x - half)
                } else {
                    TOKEN_WALL
                };
                if token == class as i64 {
                    S::one()
                } else {
                    S::zero()
                }
            },
    )
}

/// Center `n` has `(y, x)` in its patch.
pub open spec fn covers(centers: Arr2<i64>, patch_size: int, n: int, y: int, x: int) -> bool {
    &&& 0 <= y - centers.at(n, 0) + patch_size / 2 < patch_size
    &&& 0 <= x - centers.at(n, 1) + patch_size / 2 < patch_size
}

/// The cell of its patch at which center `n` has `(y, x)`.
pub open spec fn cell_of(centers: Arr2<i64>, patch_size: int, n: int, y: int, x: int) -> int {
    (y - centers.at(n, 0) + patch_size / 2) * patch_size + (x - centers.at(n, 1) + patch_size / 2)
}

/// The first `n` centers that have `(y, x)` in their patch, each with the cell at which.
pub open spec fn covering(centers: Arr2<i64>, patch_size: int, y: int, x: int, n: nat) -> Seq<(int, int)>
    decreases n,
{
    if n == 0 {
        Seq::empty()
    } else {
        let before = covering(centers, patch_size, y, x, (n - 1) as nat);
        if covers(centers, patch_size, n - 1, y, x) {
            before.push((n - 1, cell_of(centers, patch_size, n - 1, y, x)))
        } else {
            before
        }
    }
}

/// Sum of what the first `m` covering centers say of class `c`.
pub open spec fn logit_sum<S: Scalar>(
    logits: Arr3<S>,
    cover: Seq<(int, int)>,
    classes: int,
    b: int,
    c: int,
    m: nat,
) -> S
    decreases m,
{
    if m == 0 {
        S::spec_zero()
    } else {
        let (n, cell) = cover[m - 1];
        logit_sum(logits, cover, classes, b, c, (m - 1) as nat).spec_plus(
            logits.at(n, b, cell * classes + c),
        )
    }
}

/// The mean over covering centers; the sum over nothing is divided by one.
pub open spec fn mean_logit<S: Scalar>(
    logits: Arr3<S>,
    centers: Arr2<i64>,
    patch_size: int,
    classes: int,
    b: int,
    y: int,
    x: int,
    c: int,
) -> S {
    let cover = covering(centers, patch_size, y, x, centers.rows);
    logit_sum(logits, cover, classes, b, c, cover.len()).spec_over(
        S::spec_from_count(
            if cover.len() == 0 {
                1
            } else {
                cover.len()
            },
        ),
    )
}

/// The global logits of one batch element, `[H, W, C]`.
pub open spec fn reassembled<S: Scalar>(
    logits: Arr3<S>,
    centers: Arr2<i64>,
    patch_size: int,
    classes: nat,
    b: int,
    h: nat,
    w: nat,
) -> Arr3<S> {
    Arr3::build(
        h,
        w,
        classes,
        |y: int, x: int, c: int| mean_logit(logits, centers, patch_size, classes as int, b, y, x, c),
    )
}

proof fn covering_fits(centers: Arr2<i64>, patch_size: int, y: int, x: int, n: nat)
    ensures
        covering(centers, patch_size, y, x, n).len() <= n,
        forall|i: int|
            0 <= i < covering(centers, patch_size, y, x, n).len() ==> {
                let (m, cell) = #[trigger] covering(centers, patch_size, y, x, n)[i];
                &&& 0 <= m < n
                &&& covers(centers, patch_size, m, y, x)
                &&& cell == cell_of(centers, patch_size, m, y, x)
            },
    decreases n,
{
    if n > 0 {
        covering_fits(centers, patch_size, y, x, (n - 1) as nat);
    }
}

/// Lists the centers that have `(y, x)` in their patch.
fn find_covering(centers: &Matrix<i64>, patch_size: usize, h: usize, w: usize, y: usize, x: usize) -> (r: Vec<
    (usize, usize),
>)
    requires
        centers_in(centers@, h as int, w as int),
        y < h,
        x < w,
        span_fits(h as int, patch_size as int),
        span_fits(w as int, patch_size as int),
        patch_size * patch_size <= usize::MAX,
    ensures
        r@.len() == covering(centers@, patch_size as int, y as int, x as int, centers@.rows).len(),
        forall|i: int|
            0 <= i < r@.len() ==> {
                let (n, cell) = #[trigger] r@[i];
                (n as int, cell as int) == covering(
                    centers@,
                    patch_size as int,
                    y as int,
                    x as int,
                    centers@.rows,
                )[i]
            },
{
    let count = centers.nrows();
    let half = patch_size / 2;
    let mut out: Vec<(usize, usize)> = Vec::new();
    for n in 0..count
        invariant
            centers_in(centers@, h as int, w as int),
            y < h,
            x < w,
            span_fits(h as int, patch_size as int),
            span_fits(w as int, patch_size as int),
            patch_size * patch_size <= usize::MAX,
            count == centers@.rows,
            half == patch_size / 2,
            out@.len() == covering(centers@, patch_size as int, y as int, x as int, n as nat).len(),
            forall|i: int|
                0 <= i < out@.len() ==> {
                    let (m, cell) = #[trigger] out@[i];
                    (m as int, cell as int) == covering(
                        centers@,
                        patch_size as int,
                        y as int,
                        x as int,
                        n as nat,
                    )[i]
                },
    {
        assert(0 <= centers@.at(n as int, 0) < h);
        let cy = centers.get(n, 0) as usize;
        let cx = centers.get(n, 1) as usize;
        if y + half >= cy && y + half - cy < patch_size && x + half >= cx && x + half - cx < patch_size {
            let dy = y + half - cy;
            let dx = x + half - cx;
            proof {
                slot_index_fits(
                    patch_size as int,
                    patch_size as int,
                    1,
                    dy as int,
                    dx as int,
                    0,
                );
            }
            out.push((n, dy * patch_size + dx));
        }
    }
    out
}

/// Mean logits of one position, for each class.
fn mean_row<S: Scalar>(
    logits: &Tensor3<S>,
    centers: &Matrix<i64>,
    patch_size: usize,
    classes: usize,
    b: usize,
    hw: (usize, usize),
    y: usize,
    x: usize,
) -> (r: Vec<S>)
    requires
        logits@.has_shape(centers@.rows, logits@.b, (patch_size * patch_size * classes) as nat),
        b < logits@.b,
        centers_in(centers@, hw.0 as int, hw.1 as int),
        y < hw.0,
        x < hw.1,
        span_fits(hw.0 as int, patch_size as int),
        span_fits(hw.1 as int, patch_size as int),
        crate::weights::product_fits(patch_size, patch_size, classes),
    ensures
        r@ == Seq::new(
            classes as nat,
            |c: int|
                mean_logit(
                    logits@,
                    centers@,
                    patch_size as int,
                    classes as int,
                    b as int,
                    y as int,
                    x as int,
                    c,
                ),
        ),
{
    let cover = find_covering(centers, patch_size, hw.0, hw.1, y, x);
    let ghost list = covering(centers@, patch_size as int, y as int, x as int, centers@.rows);
    proof {
        covering_fits(centers@, patch_size as int, y as int, x as int, centers@.rows);
    }
    let total = cover.len();
    let divisor = S::from_count(
        if total == 0 {
            1
        } else {
            total
        },
    );
    let (_n, _b, width) = logits.dim();
    let mut out: Vec<S> = Vec::new();
    for c in 0..classes
        invariant
            logits@.has_shape(centers@.rows, logits@.b, (patch_size * patch_size * classes) as nat),
            b < logits@.b,
            width == logits@.d,
            total == cover@.len(),
            list == covering(centers@, patch_size as int, y as int, x as int, centers@.rows),
            total == list.len(),
            divisor == S::spec_from_count(
                if total == 0 {
                    1
                } else {
                    total as nat
                },
            ),
            forall|i: int|
                0 <= i < total ==> {
                    let (n, cell) = #[trigger] list[i];
                    &&& 0 <= n < centers@.rows
                    &&& covers(centers@, patch_size as int, n, y as int, x as int)
                    &&& cell == cell_of(centers@, patch_size as int, n, y as int, x as int)
                },
            forall|i: int|
                0 <= i < total ==> {
                    let (n, cell) = #[trigger] cover@[i];
                    (n as int, cell as int) == list[i]
                },
            out@.len() == c,
            forall|j: int|
                0 <= j < c ==> #[trigger] out@[j] == mean_logit(
                    logits@,
                    centers@,
                    patch_size as int,
                    classes as int,
                    b as int,
                    y as int,
                    x as int,
                    j,
                ),
    {
        let mut sum = S::zero();
        for i in 0..total
            invariant
                c < classes,
                logits@.has_shape(centers@.rows, logits@.b, (patch_size * patch_size * classes) as nat),
                b < logits@.b,
                width == logits@.d,
                total == cover@.len(),
                total == list.len(),
                forall|i: int|
                    0 <= i < total ==> {
                        let (n, cell) = #[trigger] list[i];
                        &&& 0 <= n < centers@.rows
                        &&& covers(centers@, patch_size as int, n, y as int, x as int)
                        &&& cell == cell_of(centers@, patch_size as int, n, y as int, x as int)
                    },
                forall|i: int|
                    0 <= i < total ==> {
                        let (n, cell) = #[trigger] cover@[i];
                        (n as int, cell as int) == list[i]
                    },
                sum == logit_sum(logits@, list, classes as int, b as int, c as int, i as nat),
        {
            let (n, cell) = cover[i];
            proof {
                assert((cover@[i as int].0 as int, cover@[i as int].1 as int) == list[i as int]);
                slot_index_fits(
                    patch_size as int,
                    patch_size as int,
                    classes as int,
                    y - centers@.at(n as int, 0) + patch_size as int / 2,
                    x - centers@.at(n as int, 1) + patch_size as int / 2,
                    c as int,
                );
            }
            sum = sum.plus(logits.get(n, b, cell * classes + c));
        }
        out.push(sum.over(divisor));
    }
    out
}

/// Overlap-mean reassembly of per-agent patch logits `[N, B, ps * ps * C]` into global
/// logits `[H, W, C]`, one for each batch element.
pub fn reassemble_logits<S: Scalar>(
    patch_logits: &Tensor3<S>,
    centers: &Matrix<i64>,
    patch_size: usize,
    classes: usize,
    image_hw: (usize, usize),
) -> (r: Vec<Tensor3<S>>)
    requires
        patch_logits@.has_shape(centers@.rows, patch_logits@.b, (patch_size * patch_size * classes) as nat),
        centers_in(centers@, image_hw.0 as int, image_hw.1 as int),
        span_fits(image_hw.0 as int, patch_size as int),
        span_fits(image_hw.1 as int, patch_size as int),
        crate::weights::product_fits(patch_size, patch_size, classes),
    ensures
        r@.len() == patch_logits@.b,
        forall|b: int|
            0 <= b < r@.len() ==> (#[trigger] r@[b])@ == reassembled(
                patch_logits@,
                centers@,
                patch_size as int,
                classes as nat,
                b,
                image_hw.0 as nat,
                image_hw.1 as nat,
            ),
{
    let (_n, batch, _d) = patch_logits.dim();
    let (h, w) = image_hw;
    let mut out: Vec<Tensor3<S>> = Vec::new();
    for b in 0..batch
        invariant
            batch == patch_logits@.b,
            (h, w) == image_hw,
            patch_logits@.has_shape(
                centers@.rows,
                patch_logits@.b,
                (patch_size * patch_size * classes) as nat,
            ),
            centers_in(centers@, image_hw.0 as int, image_hw.1 as int),
            span_fits(image_hw.0 as int, patch_size as int),
            span_fits(image_hw.1 as int, patch_size as int),
            crate::weights::product_fits(patch_size, patch_size, classes),
            out@.len() == b,
            forall|j: int|
                0 <= j < b ==> (#[trigger] out@[j])@ == reassembled(
                    patch_logits@,
                    centers@,
                    patch_size as int,
                    classes as nat,
                    j,
                    h as nat,
                    w as nat,
                ),
    {
        let grid = Tensor3::from_rows_fn(
            h,
            w,
            classes,
            |y: usize, x: usize| -> (v: Vec<S>)
                requires
                    b < patch_logits@.b,
                    (h, w) == image_hw,
                    patch_logits@.has_shape(
                        centers@.rows,
                        patch_logits@.b,
                        (patch_size * patch_size * classes) as nat,
                    ),
                    centers_in(centers@, image_hw.0 as int, image_hw.1 as int),
                    span_fits(image_hw.0 as int, patch_size as int),
                    span_fits(image_hw.1 as int, patch_size as int),
                    crate::weights::product_fits(patch_size, patch_size, classes),
                    y < h,
                    x < w,
                ensures
                    v@ == Seq::new(
                        classes as nat,
                        |c: int|
                            mean_logit(
                                patch_logits@,
                                centers@,
                                patch_size as int,
                                classes as int,
                                b as int,
                                y as int,
                                x as int,
                                c,
                            ),
                    )
                { mean_row(patch_logits, centers, patch_size, classes, b, image_hw, y, x) },
        );
        proof {
            let want = reassembled(
                patch_logits@,
                centers@,
                patch_size as int,
                classes as nat,
                b as int,
                h as nat,
                w as nat,
            );
            let rows = Arr3::from_rows(
                h as nat,
                w as nat,
                classes as nat,
                |y: int, x: int|
                    Seq::new(
                        classes as nat,
                        |c: int|
                            mean_logit(
                                patch_logits@,
                                centers@,
                                patch_size as int,
                                classes as int,
                                b as int,
                                y,
                                x,
                                c,
                            ),
                    ),
            );
            assert(grid@ == rows);
            crate::tensor::arr3_ext(rows, want);
        }
        out.push(grid);
    }
    out
}

/// `m` copies of a number, added one after the other.
pub open spec fn repeated<S: Scalar>(v: S, m: nat) -> S
    decreases m,
{
    if m == 0 {
        S::spec_zero()
    } else {
        repeated(v, (m - 1) as nat).spec_plus(v)
    }
}

/// The patches hold, at every cell, the global value of the position that the cell covers.
pub open spec fn cut_from<S: Scalar>(
    logits: Arr3<S>,
    global: Arr3<S>,
    centers: Arr2<i64>,
    patch_size: int,
    classes: int,
    b: int,
) -> bool {
    forall|n: int, y: int, x: int, c: int|
        0 <= n < centers.rows && 0 <= y < global.n && 0 <= x < global.b && 0 <= c < classes && covers(
            centers,
            patch_size,
            n,
            y,
            x,
        ) ==> #[trigger] logits.at(n, b, cell_of(centers, patch_size, n, y, x) * classes + c)
            == #[trigger] global.at(y, x, c)
}

/// Patches cut from one global image give it back at every covered position, wherever the
/// mean of equal numbers is that number.
pub proof fn reassembly_restores<S: Scalar>(
    logits: Arr3<S>,
    global: Arr3<S>,
    centers: Arr2<i64>,
    patch_size: int,
    classes: nat,
    b: int,
    y: int,
    x: int,
    c: int,
)
    requires
        cut_from(logits, global, centers, patch_size, classes as int, b),
        0 <= y < global.n,
        0 <= x < global.b,
        0 <= c < classes,
        covering(centers, patch_size, y, x, centers.rows).len() > 0,
        forall|m: nat|
            0 < m <= centers.rows ==> #[trigger] repeated(global.at(y, x, c), m).spec_over(
                S::spec_from_count(m),
            ) == global.at(y, x, c),
    ensures
        reassembled(logits, centers, patch_size, classes, b, global.n, global.b).at(y, x, c) == global.at(
            y,
            x,
            c,
        ),
{
    let cover = covering(centers, patch_size, y, x, centers.rows);
    covering_fits(centers, patch_size, y, x, centers.rows);
    sum_of_equal(logits, global, centers, patch_size, classes, b, y, x, c, cover, cover.len());
    assert(repeated(global.at(y, x, c), cover.len()).spec_over(S::spec_from_count(cover.len()))
        == global.at(y, x, c));
}

proof fn sum_of_equal<S: Scalar>(
    logits: Arr3<S>,
    global: Arr3<S>,
    centers: Arr2<i64>,
    patch_size: int,
    classes: nat,
    b: int,
    y: int,
    x: int,
    c: int,
    cover: Seq<(int, int)>,
    m: nat,
)
    requires
        cut_from(logits, global, centers, patch_size, classes as int, b),
        0 <= y < global.n,
        0 <= x < global.b,
        0 <= c < classes,
        m <= cover.len(),
        forall|i: int|
            0 <= i < cover.len() ==> {
                let (n, cell) = #[trigger] cover[i];
                &&& 0 <= n < centers.rows
                &&& covers(centers, patch_size, n, y, x)
                &&& cell == cell_of(centers, patch_size, n, y, x)
            },
    ensures
        logit_sum(logits, cover, classes as int, b, c, m) == repeated(global.at(y, x, c), m),
    decreases m,
{
    if m > 0 {
        sum_of_equal(logits, global, centers, patch_size, classes, b, y, x, c, cover, (m - 1) as nat);
        let (n, cell) = cover[m - 1];
        assert(logits.at(n, b, cell_of(centers, patch_size, n, y, x) * classes + c) == global.at(y, x, c));
    }
}

/// Cell number of slot `k` of sudoku view `v`: views 0 to 8 are rows, 9 to 17 columns, 18
/// to 26 boxes; within a view, cells are in row-major order.
pub open spec fn sudoku_cell(v: int, k: int) -> int {
    if v < 9 {
        v * 9 + k
    } else if v < 18 {
        k * 9 + (v - 9)
    } else {
        let b = v - 18;
        ((b / 3) * 3 + k / 3) * 9 + (b % 3) * 3 + k % 3
    }
}

/// The cells of the 27 sudoku agents, `[27, 9]`.
pub fn build_sudoku_cell_indices() -> (r: Matrix<i64>)
    ensures
        r.wf(),
        r@.rows == 27,
        r@.cols == 9,
        forall|v: int, k: int| 0 <= v < 27 && 0 <= k < 9 ==> #[trigger] r@.at(v, k) == sudoku_cell(v, k),
{
    let out = Matrix::from_shape_fn(
        27,
        9,
        |v: usize, k: usize| -> (c: i64)
            requires
                v < 27,
                k < 9,
            ensures
                c == sudoku_cell(v as int, k as int)
            {
                if v < 9 {
                    (v * 9 + k) as i64
                } else if v < 18 {
                    (k * 9 + (v - 9)) as i64
                } else {
                    let b = v - 18;
                    (((b / 3) * 3 + k / 3) * 9 + (b % 3) * 3 + k % 3) as i64
                }
            },
    );
    assert forall|v: int, k: int| 0 <= v < 27 && 0 <= k < 9 implies #[trigger] out@.at(v, k) == sudoku_cell(
        v,
        k,
    ) by {
        assert(out@.at(v as usize as int, k as usize as int) == out@.at(v, k));
    }
    out
}

/// Every cell lies in exactly three views: its row, its column and its box, once in each.
pub proof fn sudoku_cells_covered_thrice(y: int, x: int, v: int, k: int)
    requires
        0 <= y < 9,
        0 <= x < 9,
        0 <= v < 27,
        0 <= k < 9,
    ensures
        sudoku_cell(v, k) == y * 9 + x <==> (v, k) == (y, x) || (v, k) == (9 + x, y) || (v, k) == (
            18 + (y / 3) * 3 + x / 3,
            (y % 3) * 3 + x % 3,
        ),
{
    if v >= 18 {
        let b = v - 18;
        let row = (b / 3) * 3 + k / 3;
        let col = (b % 3) * 3 + k % 3;
        assert(sudoku_cell(v, k) == row * 9 + col);
        assert(0 <= row < 9 && 0 <= col < 9);
        assert(row / 3 == b / 3 && row % 3 == k / 3 && col / 3 == b % 3 && col % 3 == k % 3);
    }
}

} // verus!
