//! Flat arrays as arrays of known rank, and blocks gathered from them along edges.
use crate::plain::{chained, chained_length, counts_by_rank, Plain, PlainModel};
use crate::tensor::{Arr3, Tensor3};
use vstd::prelude::*;

verus! {

/// The rank-3 array with these members.
pub open spec fn cube_of<T>(data: Seq<T>, n: nat, b: nat, d: nat) -> Arr3<T> {
    Arr3::build(n, b, d, |i: int, j: int, k: int| data[(i * b + j) * d + k])
}

/// Member `(i, j, k)` of a flat rank-3 array lies within it.
proof fn cube_index(n: int, b: int, d: int, i: int, j: int, k: int)
    requires
        0 <= i < n,
        0 <= j < b,
        0 <= k < d,
    ensures
        0 <= i * b,
        i * b + j < n * b,
        0 <= (i * b + j) * d,
        (i * b + j) * d + k < n * b * d,
        (i * b + j) * d + d <= n * b * d,
{
    assert(0 <= i * b && i * b + j < n * b) by (nonlinear_arith)
        requires
            0 <= i < n,
            0 <= j < b,
    ;
    let m = i * b + j;
    let all = n * b;
    assert(0 <= m * d && m * d + d <= all * d) by (nonlinear_arith)
        requires
            0 <= m < all,
            0 <= d,
    ;
}

/// Gives a flat list the shape of a rank-3 array.
pub fn unflatten<T: Copy>(data: &Vec<T>, n: usize, b: usize, d: usize) -> (r: Tensor3<T>)
    requires
        data@.len() == n * b * d,
    ensures
        r.wf(),
        r@ == cube_of(data@, n as nat, b as nat, d as nat),
{
    let size = data.len();
    Tensor3::from_shape_fn(
        n,
        b,
        d,
        |i: usize, j: usize, k: usize| -> (v: T)
            requires
                size == data@.len(),
                data@.len() == n * b * d,
                i < n,
                j < b,
                k < d,
            ensures
                v == data@[(i * b + j) * d + k]
            {
                proof {
                    cube_index(n as int, b as int, d as int, i as int, j as int, k as int);
                    assert(i * b + j <= (i * b + j) * d) by (nonlinear_arith)
                        requires
                            0 <= i * b + j,
                            d >= 1,
                    ;
                }
                data[(i * b + j) * d + k]
            },
    )
}

/// The block of endpoint and slot of edge `e` in batch element `j`, in a flat array whose
/// axes are agents, batch elements, slots and `area` members.
pub open spec fn block_of<T>(
    data: Seq<T>,
    node: int,
    j: int,
    slot: int,
    b: int,
    slots: int,
    area: int,
) -> Seq<T> {
    let start = (node * b + j) * (slots * area) + slot * area;
    data.subrange(start, start + area)
}

/// The blocks of one edge, batch element after batch element.
pub open spec fn edge_blocks<T>(data: Seq<T>, node: int, slot: int, b: nat, slots: int, area: int) -> Seq<T> {
    chained(Seq::new(b, |j: int| block_of(data, node, j, slot, b as int, slots, area)), b)
}

/// The blocks of all edges at one of their ends.
pub open spec fn gathered<T>(
    data: Seq<T>,
    ends: Seq<int>,
    dirs: Seq<u8>,
    b: nat,
    slots: int,
    area: int,
) -> Seq<T> {
    chained(Seq::new(ends.len(), |e: int| edge_blocks(data, ends[e], dirs[e] as int, b, slots, area)), ends.len())
}

proof fn block_inside(n: int, b: int, slots: int, area: int, node: int, j: int, slot: int)
    requires
        0 <= node < n,
        0 <= j < b,
        0 <= slot < slots,
        0 <= area,
    ensures
        0 <= node * b,
        0 <= node * b + j < n * b,
        0 <= slot * area,
        slot * area + area <= slots * area,
        0 <= (node * b + j) * (slots * area),
        (node * b + j) * (slots * area) + slot * area + area <= n * b * (slots * area),
{
    assert(slot * area >= 0 && slot * area + area <= slots * area) by (nonlinear_arith)
        requires
            0 <= slot < slots,
            0 <= area,
    ;
    let d = slots * area;
    if d == 0 {
        assert(0 <= node * b && node * b + j < n * b) by (nonlinear_arith)
            requires
                0 <= node < n,
                0 <= j < b,
        ;
        assert((node * b + j) * 0 == 0 && n * b * 0 == 0);
    } else {
        cube_index(n, b, d, node, j, 0);
    }
}

/// Gathers from a flat array the blocks that the edges use at one of their ends, as an array
/// of edges, batch elements, rows and columns.
pub fn gather_blocks<T: Copy>(
    data: &Vec<T>,
    edges: &Vec<[u32; 2]>,
    side: usize,
    dirs: &Vec<u8>,
    n: usize,
    b: usize,
    slots: usize,
    h: usize,
    w: usize,
) -> (r: Plain<T>)
    requires
        side < 2,
        dirs@.len() == edges@.len(),
        data@.len() == n * b * (slots * (h * w)),
        n * b <= usize::MAX,
        slots * (h * w) <= usize::MAX,
        h * w <= usize::MAX,
        forall|e: int| 0 <= e < edges@.len() ==> (#[trigger] edges@[e])@[side as int] < n,
        forall|e: int| 0 <= e < edges@.len() ==> (#[trigger] dirs@[e]) < slots,
    ensures
        r@ == (PlainModel {
            shape: seq![edges@.len() as usize, b, h, w],
            data: gathered(
                data@,
                Seq::new(edges@.len(), |e: int| edges@[e]@[side as int] as int),
                dirs@,
                b as nat,
                slots as int,
                h * w,
            ),
        }),
        r@.wf(),
{
    let area = h * w;
    let width = slots * area;
    let size = data.len();
    let ghost ends = Seq::new(edges@.len(), |e: int| edges@[e]@[side as int] as int);
    let ghost parts = Seq::new(
        ends.len(),
        |e: int| edge_blocks(data@, ends[e], dirs@[e] as int, b as nat, slots as int, area as int),
    );
    let mut out: Vec<T> = Vec::new();
    assert(out@ =~= chained(parts, 0));
    for e in 0..edges.len()
        invariant
            side < 2,
            dirs@.len() == edges@.len(),
            size == data@.len(),
            data@.len() == n * b * (slots * area),
            n * b <= usize::MAX,
            width == slots * area,
            forall|e: int| 0 <= e < edges@.len() ==> (#[trigger] edges@[e])@[side as int] < n,
            forall|e: int| 0 <= e < edges@.len() ==> (#[trigger] dirs@[e]) < slots,
            ends == Seq::new(edges@.len(), |e: int| edges@[e]@[side as int] as int),
            parts == Seq::new(
                ends.len(),
                |e: int| edge_blocks(data@, ends[e], dirs@[e] as int, b as nat, slots as int, area as int),
            ),
            out@ == chained(parts, e as nat),
    {
        assert(edges@[e as int]@[side as int] < n);
        let node = edges[e][side] as usize;
        let slot = dirs[e] as usize;
        assert(dirs@[e as int] < slots);
        let ghost before = out@;
        let ghost blocks = Seq::new(
            b as nat,
            |j: int| block_of(data@, node as int, j, slot as int, b as int, slots as int, area as int),
        );
        assert(before + chained(blocks, 0) =~= before);
        for j in 0..b
            invariant
                size == data@.len(),
                data@.len() == n * b * (slots * area),
                n * b <= usize::MAX,
                width == slots * area,
                node < n,
                slot < slots,
                blocks == Seq::new(
                    b as nat,
                    |j: int| block_of(data@, node as int, j, slot as int, b as int, slots as int, area as int),
                ),
                out@ == before + chained(blocks, j as nat),
        {
            proof {
                block_inside(
                    n as int,
                    b as int,
                    slots as int,
                    area as int,
                    node as int,
                    j as int,
                    slot as int,
                );
            }
            let start = (node * b + j) * width + slot * area;
            let ghost had = out@;
            let ghost block = blocks[j as int];
            assert(had + block.take(0) =~= had);
            for p in 0..area
                invariant
                    size == data@.len(),
                    start + area <= size,
                    block == data@.subrange(start as int, start + area),
                    out@ == had + block.take(p as int),
            {
                out.push(data[start + p]);
                assert(block[p as int] == data@[start + p]);
                assert(block.take(p + 1) =~= block.take(p as int).push(block[p as int]));
                assert(out@ =~= had + block.take(p + 1));
            }
            assert(block.take(area as int) =~= block);
            assert(out@ =~= before + chained(blocks, (j + 1) as nat));
        }
        assert(parts[e as int] == chained(blocks, b as nat));
        assert(out@ =~= chained(parts, (e + 1) as nat));
    }
    let shape = vec![edges.len(), b, h, w];
    proof {
        counts_by_rank(shape@);
        assert forall|e: int| 0 <= e < parts.len() implies (#[trigger] parts[e]).len() == b * area by {
            let blocks = Seq::new(
                b as nat,
                |j: int|
                    block_of(data@, ends[e], j, dirs@[e] as int, b as int, slots as int, area as int),
            );
            assert forall|j: int| 0 <= j < b implies (#[trigger] blocks[j]).len() == area by {
                assert(edges@[e]@[side as int] < n);
                assert(dirs@[e] < slots);
                block_inside(n as int, b as int, slots as int, area as int, ends[e], j, dirs@[e] as int);
            }
            chained_length(blocks, b as nat, area as nat);
        }
        chained_length(parts, parts.len(), b as nat * area as nat);
        let count = edges@.len();
        assert(count * b * h * w == count * (b * (h * w))) by (nonlinear_arith);
        assert(shape@ =~= seq![edges@.len() as usize, b, h, w]);
    }
    Plain { shape, data: out }
}

} // verus!
