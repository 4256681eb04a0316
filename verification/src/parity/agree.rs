//! The factors that a geometry gathers are those that the layout of the recorded array names.
use super::gather::{block_of, cube_of, edge_blocks};
use super::plan::{edge_blocks_of, edge_factors};
use crate::encoder::{slot_factor, slot_grid};
use crate::geometry::grid_build;
use crate::plain::{chained, flat2, flat_line};
use crate::scalar::Scalar;
use vstd::prelude::*;

verus! {

/// Chains of the same parts are the same.
proof fn chained_same<T>(a: Seq<Seq<T>>, b: Seq<Seq<T>>, n: nat)
    requires
        forall|i: int| 0 <= i < n ==> a[i] == b[i],
    ensures
        chained(a, n) == chained(b, n),
    decreases n,
{
    if n > 0 {
        chained_same(a, b, (n - 1) as nat);
    }
}

/// The first `p` rows of a slot's matrix are consecutive in the row it is cut from.
proof fn slot_rows_are_flat<S>(row: Seq<S>, k: int, h: nat, r: nat, p: nat)
    requires
        0 <= k,
        p <= h,
        (k + 1) * (h * r) <= row.len(),
    ensures
        0 <= k * (h * r),
        k * (h * r) + p * r <= row.len(),
        chained(slot_factor(row, k, h, r).data, p) == row.subrange(k * (h * r), k * (h * r) + p * r),
    decreases p,
{
    let base = k * (h * r);
    assert(0 <= base && base + p * r <= (k + 1) * (h * r)) by (nonlinear_arith)
        requires
            base == k * (h * r),
            0 <= k,
            0 <= p <= h,
            0 <= r,
    ;
    let a = slot_factor(row, k, h, r);
    if p == 0 {
        assert(0 * r == 0);
        assert(chained(a.data, 0) =~= row.subrange(base, base));
    } else {
        let q = (p - 1) as nat;
        slot_rows_are_flat(row, k, h, r, q);
        assert((k * h + q) * r == base + q * r) by (nonlinear_arith)
            requires
                base == k * (h * r),
        ;
        assert(q * r + r == p * r) by (nonlinear_arith)
            requires
                p == q + 1,
        ;
        assert(a.data[q as int] =~= row.subrange(base + q * r, base + p * r));
        assert(chained(a.data, p) =~= row.subrange(base, base + p * r));
    }
}

/// Edge factors cut from an array with axes agents, batch elements, slots, rows and rank are
/// the blocks that this layout names for the ends and slots of the edges.
pub proof fn gathers_agree<S: Scalar>(
    data: Seq<S>,
    ends: Seq<int>,
    dirs: Seq<u8>,
    n: nat,
    b: nat,
    slots: usize,
    height: usize,
    rank: usize,
)
    requires
        data.len() == n * b * (slots * (height * rank)),
        dirs.len() == ends.len(),
        forall|e: int| 0 <= e < ends.len() ==> 0 <= (#[trigger] ends[e]) < n,
        forall|e: int| 0 <= e < ends.len() ==> (#[trigger] dirs[e]) < slots,
    ensures
        edge_factors(cube_of(data, n, b, (slots * (height * rank)) as nat), ends, dirs, height, rank)
            == edge_blocks_of(data, ends, dirs, b, slots, height, rank),
{
    let area = height as nat * rank as nat;
    let d = slots as nat * area;
    let rows = cube_of(data, n, b, d);
    let grid = grid_build(
        ends.len(),
        rows.b,
        |e: int, j: int| slot_grid(rows, dirs[e] as int, height as nat, rank as nat)[ends[e]][j],
    );
    let lines = Seq::new(grid.len(), |e: int| flat_line(grid[e]));
    let want = Seq::new(
        ends.len(),
        |e: int| edge_blocks(data, ends[e], dirs[e] as int, b, slots as int, area as int),
    );
    assert forall|e: int| 0 <= e < ends.len() implies lines[e] == want[e] by {
        let (i, k) = (ends[e], dirs[e] as int);
        let pieces = Seq::new(grid[e].len(), |j: int| flat2(grid[e][j]));
        let blocks = Seq::new(b, |j: int| block_of(data, i, j, k, b as int, slots as int, area as int));
        assert forall|j: int| 0 <= j < b implies pieces[j] == blocks[j] by {
            let row = rows.data[i][j];
            let start = (i * b + j) * d;
            assert(0 <= i * b && i * b + j < n * b) by (nonlinear_arith)
                requires
                    0 <= i < n,
                    0 <= j < b,
            ;
            assert(0 <= start && start + d <= data.len()) by (nonlinear_arith)
                requires
                    start == (i * b + j) * d,
                    0 <= i * b + j < n * b,
                    data.len() == n * b * d,
                    0 <= d,
            ;
            assert(row =~= data.subrange(start, start + d));
            assert((k + 1) * area <= d) by (nonlinear_arith)
                requires
                    k + 1 <= slots,
                    d == slots * area,
                    0 <= area,
            ;
            slot_rows_are_flat(row, k, height as nat, rank as nat, height as nat);
            assert(grid[e][j] == slot_factor(row, k, height as nat, rank as nat));
            assert((k + 1) * area == k * area + area) by (nonlinear_arith);
            assert(0 <= k * area) by (nonlinear_arith)
                requires
                    0 <= k,
                    0 <= area,
            ;
            assert(pieces[j] == row.subrange(k * area, k * area + area));
            assert(row.subrange(k * area, k * area + area) =~= blocks[j]);
        }
        chained_same(pieces, blocks, b);
    }
    chained_same(lines, want, ends.len());
}

} // verus!
