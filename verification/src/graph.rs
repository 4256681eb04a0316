//! The agent graph: edges, node positions, and precomputed slot tables.
use crate::scalar::Scalar;
use crate::tensor::Matrix;
use vstd::prelude::*;

verus! {

/// Endpoint of an edge.
#[derive(Debug, Clone, Copy, PartialEq, Eq, Structural)]
pub enum Endpoint {
    U,
    V,
}

/// The `(edge, endpoint)` pairs at which the first `e` edges touch `node`, in edge
/// order, with `U` before `V` where an edge touches it twice.
pub open spec fn incidences(edges: Seq<[u32; 2]>, node: int, e: nat) -> Seq<(u32, Endpoint)>
    decreases e,
{
    if e == 0 {
        Seq::empty()
    } else {
        let before = incidences(edges, node, (e - 1) as nat);
        let with_u = if edges[e - 1]@[0] == node {
            before.push(((e - 1) as u32, Endpoint::U))
        } else {
            before
        };
        if edges[e - 1]@[1] == node {
            with_u.push(((e - 1) as u32, Endpoint::V))
        } else {
            with_u
        }
    }
}

/// Edges as pairs of node numbers.
pub open spec fn pairs_of(edges: Seq<[u32; 2]>) -> Seq<(int, int)> {
    edges.map_values(|e: [u32; 2]| (e@[0] as int, e@[1] as int))
}

/// Every endpoint of a list of pairs is the number of a node.
pub open spec fn pairs_below(pairs: Seq<(int, int)>, num_nodes: nat) -> bool {
    forall|e: int|
        0 <= e < pairs.len() ==> 0 <= (#[trigger] pairs[e]).0 < num_nodes && 0 <= pairs[e].1 < num_nodes
}

/// Every endpoint is the number of a node.
pub open spec fn endpoints_below(edges: Seq<[u32; 2]>, num_nodes: nat) -> bool {
    forall|e: int|
        0 <= e < edges.len() ==> (#[trigger] edges[e])@[0] < num_nodes && edges[e]@[1] < num_nodes
}

/// How many incidences the nodes before `k` have among the first `e` edges.
spec fn filed_before(edges: Seq<[u32; 2]>, e: nat, k: nat) -> nat
    decreases k,
{
    if k == 0 {
        0
    } else {
        filed_before(edges, e, (k - 1) as nat) + incidences(edges, k - 1, e).len()
    }
}

proof fn filed_before_step(edges: Seq<[u32; 2]>, e: nat, k: nat)
    requires
        e < edges.len(),
    ensures
        filed_before(edges, e + 1, k) == filed_before(edges, e, k) + (if edges[e as int]@[0] < k {
            1nat
        } else {
            0
        }) + (if edges[e as int]@[1] < k {
            1nat
        } else {
            0
        }),
    decreases k,
{
    if k > 0 {
        filed_before_step(edges, e, (k - 1) as nat);
    }
}

proof fn filed_before_none(edges: Seq<[u32; 2]>, k: nat)
    ensures
        filed_before(edges, 0, k) == 0,
    decreases k,
{
    if k > 0 {
        filed_before_none(edges, (k - 1) as nat);
    }
}

/// Every edge is filed twice.
proof fn filed_before_total(edges: Seq<[u32; 2]>, e: nat, num_nodes: nat)
    requires
        e <= edges.len(),
        endpoints_below(edges, num_nodes),
    ensures
        filed_before(edges, e, num_nodes) == 2 * e,
    decreases e,
{
    if e == 0 {
        filed_before_none(edges, num_nodes);
    } else {
        filed_before_total(edges, (e - 1) as nat, num_nodes);
        filed_before_step(edges, (e - 1) as nat, num_nodes);
    }
}

proof fn filed_before_mono(edges: Seq<[u32; 2]>, e: nat, j: nat, k: nat)
    requires
        j <= k,
    ensures
        filed_before(edges, e, j) <= filed_before(edges, e, k),
        j < k ==> filed_before(edges, e, j) + incidences(edges, j as int, e).len() <= filed_before(
            edges,
            e,
            k,
        ),
    decreases k,
{
    if j < k {
        filed_before_mono(edges, e, j, (k - 1) as nat);
    }
}

proof fn incidences_mono(edges: Seq<[u32; 2]>, node: int, d: nat, e: nat)
    requires
        d <= e,
    ensures
        incidences(edges, node, d).len() <= incidences(edges, node, e).len(),
    decreases e,
{
    if d < e {
        incidences_mono(edges, node, d, (e - 1) as nat);
    }
}

/// Row starts that leave each node room for all its incidences.
spec fn prefix_counts(edges: Seq<[u32; 2]>, offsets: Seq<u32>) -> bool {
    forall|k: int|
        0 <= k < offsets.len() ==> #[trigger] offsets[k] == filed_before(edges, edges.len(), k as nat)
}

/// Between its row start and its cursor, node `n` holds its incidences among the
/// first `e` edges.
spec fn row_filled(
    edges: Seq<[u32; 2]>,
    offsets: Seq<u32>,
    entries: Seq<(u32, Endpoint)>,
    cursor: Seq<u32>,
    e: nat,
    n: int,
) -> bool {
    &&& cursor[n] == offsets[n] + incidences(edges, n, e).len()
    &&& entries.subrange(offsets[n] as int, cursor[n] as int) == incidences(edges, n, e)
}

spec fn filled(
    edges: Seq<[u32; 2]>,
    offsets: Seq<u32>,
    entries: Seq<(u32, Endpoint)>,
    cursor: Seq<u32>,
    e: nat,
) -> bool {
    forall|n: int|
        0 <= n < offsets.len() - 1 ==> #[trigger] row_filled(edges, offsets, entries, cursor, e, n)
}

/// While edges are left that touch node `n`, its row is not full.
proof fn row_room(
    edges: Seq<[u32; 2]>,
    offsets: Seq<u32>,
    entries: Seq<(u32, Endpoint)>,
    cursor: Seq<u32>,
    e: nat,
    n: int,
)
    requires
        0 <= n < offsets.len() - 1,
        e < edges.len(),
        endpoints_below(edges, (offsets.len() - 1) as nat),
        prefix_counts(edges, offsets),
        filled(edges, offsets, entries, cursor, e),
    ensures
        row_filled(edges, offsets, entries, cursor, e, n),
        offsets[n] + incidences(edges, n, e + 1).len() <= offsets[n + 1] <= 2 * edges.len(),
        forall|m: int| 0 <= m < n ==> #[trigger] offsets[m] + incidences(edges, m, e + 1).len() <= offsets[n],
{
    let last = (offsets.len() - 1) as nat;
    filed_before_total(edges, edges.len(), last);
    incidences_mono(edges, n, e + 1, edges.len());
    filed_before_mono(edges, edges.len(), n as nat, (n + 1) as nat);
    filed_before_mono(edges, edges.len(), (n + 1) as nat, last);
    assert(offsets[n + 1] == filed_before(edges, edges.len(), (n + 1) as nat));
    assert(row_filled(edges, offsets, entries, cursor, e, n));
    assert forall|m: int| 0 <= m < n implies #[trigger] offsets[m] + incidences(edges, m, e + 1).len()
        <= offsets[n] by {
        incidences_mono(edges, m, e + 1, edges.len());
        filed_before_mono(edges, edges.len(), m as nat, n as nat);
    }
}

/// Filing edge `e` under its two endpoints extends the rows as it should.
proof fn row_step(
    edges: Seq<[u32; 2]>,
    offsets: Seq<u32>,
    entries0: Seq<(u32, Endpoint)>,
    cursor0: Seq<u32>,
    entries: Seq<(u32, Endpoint)>,
    cursor: Seq<u32>,
    e: nat,
    n: int,
)
    requires
        0 <= n < offsets.len() - 1,
        cursor0.len() == offsets.len() - 1,
        e < edges.len(),
        2 * edges.len() <= u32::MAX,
        entries0.len() == 2 * edges.len(),
        endpoints_below(edges, (offsets.len() - 1) as nat),
        prefix_counts(edges, offsets),
        filled(edges, offsets, entries0, cursor0, e),
        ({
            let u = edges[e as int]@[0] as int;
            let v = edges[e as int]@[1] as int;
            let cursor1 = cursor0.update(u, (cursor0[u] + 1) as u32);
            &&& cursor == cursor1.update(v, (cursor1[v] + 1) as u32)
            &&& entries == entries0.update(cursor0[u] as int, (e as u32, Endpoint::U)).update(
                cursor1[v] as int,
                (e as u32, Endpoint::V),
            )
        }),
    ensures
        row_filled(edges, offsets, entries, cursor, e + 1, n),
{
    let u = edges[e as int]@[0] as int;
    let v = edges[e as int]@[1] as int;
    row_room(edges, offsets, entries0, cursor0, e, n);
    row_room(edges, offsets, entries0, cursor0, e, u);
    row_room(edges, offsets, entries0, cursor0, e, v);
    let was = incidences(edges, n, e);
    assert(forall|i: int| 0 <= i < was.len() ==> entries0[offsets[n] + i] == #[trigger] was[i]) by {
        assert(was == entries0.subrange(offsets[n] as int, cursor0[n] as int));
    }
    if u < n {
        assert(offsets[u] + incidences(edges, u, e + 1).len() <= offsets[n]);
    }
    if v < n {
        assert(offsets[v] + incidences(edges, v, e + 1).len() <= offsets[n]);
    }
    if n < u {
        assert(offsets[n] + incidences(edges, n, e + 1).len() <= offsets[u]);
    }
    if n < v {
        assert(offsets[n] + incidences(edges, n, e + 1).len() <= offsets[v]);
    }
    if u < v {
        assert(offsets[u] + incidences(edges, u, e + 1).len() <= offsets[v]);
    }
    if v < u {
        assert(offsets[v] + incidences(edges, v, e + 1).len() <= offsets[u]);
    }
    assert(entries.subrange(offsets[n] as int, cursor[n] as int) =~= incidences(edges, n, e + 1));
}

/// Node to incident-edge table in compressed rows.
///
/// For node `n`, `entries[offsets[n]..offsets[n + 1]]` lists `(edge, endpoint)`.
/// The Laplacian contribution is added at `U` and subtracted at `V`.
#[derive(Debug, Clone)]
pub struct NodeIncidence {
    pub offsets: Vec<u32>,
    pub entries: Vec<(u32, Endpoint)>,
}

impl NodeIncidence {
    /// The offsets rise from 0 to the number of entries.
    pub open spec fn wf(&self) -> bool {
        &&& self.offsets@.len() > 0
        &&& self.offsets@[0] == 0
        &&& self.offsets@[self.offsets@.len() - 1] == self.entries@.len()
        &&& forall|i: int, j: int|
            0 <= i <= j < self.offsets@.len() ==> #[trigger] self.offsets@[i] <= #[trigger] self.offsets@[j]
    }

    pub open spec fn num_nodes(&self) -> int {
        self.offsets@.len() - 1
    }

    /// The entries filed under node `n`.
    pub open spec fn row(&self, n: int) -> Seq<(u32, Endpoint)> {
        self.entries@.subrange(self.offsets@[n] as int, self.offsets@[n + 1] as int)
    }

    /// The table files exactly the incidences of these edges.
    pub open spec fn indexes(&self, edges: Seq<[u32; 2]>, num_nodes: nat) -> bool {
        &&& self.wf()
        &&& self.num_nodes() == num_nodes
        &&& self.entries@.len() == 2 * edges.len()
        &&& forall|n: int| 0 <= n < num_nodes ==> #[trigger] self.row(n) == incidences(edges, n, edges.len())
    }

    /// Builds the node to incident-edge table by counting sort over edge
    /// endpoints. Per node, entries appear in edge order (`U` before `V` when a
    /// self-loop touches the node twice).
    pub fn build(edges: &[[u32; 2]], num_nodes: usize) -> (r: Self)
        requires
            endpoints_below(edges@, num_nodes as nat),
            num_nodes < usize::MAX,
            2 * edges@.len() <= u32::MAX,
        ensures
            r.indexes(edges@, num_nodes as nat),
    {
        let ghost es = edges@;
        let num_edges = edges.len();
        let mut offsets: Vec<u32> = vec![0u32; num_nodes + 1];
        for e in 0..num_edges
            invariant
                es == edges@,
                num_edges == es.len(),
                endpoints_below(es, num_nodes as nat),
                2 * es.len() <= u32::MAX,
                offsets@.len() == num_nodes + 1,
                offsets@[0] == 0,
                forall|k: int|
                    0 < k <= num_nodes ==> #[trigger] offsets@[k] == incidences(es, k - 1, e as nat).len(),
        {
            let u = edges[e][0] as usize;
            let v = edges[e][1] as usize;
            proof {
                filed_before_total(es, e as nat, num_nodes as nat);
                filed_before_mono(es, e as nat, u as nat, num_nodes as nat);
                filed_before_mono(es, e as nat, v as nat, num_nodes as nat);
                assert(offsets@[u + 1] == incidences(es, u as int, e as nat).len() <= 2 * e);
                assert(offsets@[v + 1] == incidences(es, v as int, e as nat).len() <= 2 * e);
            }
            let ghost before = offsets@;
            offsets[u + 1] = offsets[u + 1] + 1;
            offsets[v + 1] = offsets[v + 1] + 1;
            assert forall|k: int| 0 < k <= num_nodes implies #[trigger] offsets@[k] == incidences(
                es,
                k - 1,
                (e + 1) as nat,
            ).len() by {
                assert(before[k] == incidences(es, k - 1, e as nat).len());
            }
        }
        for n in 0..num_nodes
            invariant
                num_edges == es.len(),
                endpoints_below(es, num_nodes as nat),
                2 * es.len() <= u32::MAX,
                offsets@.len() == num_nodes + 1,
                forall|k: int|
                    0 <= k <= n ==> #[trigger] offsets@[k] == filed_before(es, es.len(), k as nat),
                forall|k: int|
                    n < k <= num_nodes ==> #[trigger] offsets@[k] == incidences(es, k - 1, es.len()).len(),
        {
            proof {
                filed_before_total(es, es.len(), num_nodes as nat);
                filed_before_mono(es, es.len(), (n + 1) as nat, num_nodes as nat);
                assert(offsets@[n as int] == filed_before(es, es.len(), n as nat));
                assert(offsets@[n + 1] == incidences(es, n as int, es.len()).len());
            }
            offsets[n + 1] = offsets[n + 1] + offsets[n];
        }
        proof {
            filed_before_total(es, es.len(), num_nodes as nat);
            assert forall|i: int, j: int| 0 <= i <= j < offsets@.len() implies #[trigger] offsets@[i]
                <= #[trigger] offsets@[j] by {
                filed_before_mono(es, es.len(), i as nat, j as nat);
            }
        }
        let mut cursor: Vec<u32> = Vec::new();
        for n in 0..num_nodes
            invariant
                offsets@.len() == num_nodes + 1,
                cursor@.len() == n,
                forall|k: int| 0 <= k < n ==> #[trigger] cursor@[k] == offsets@[k],
        {
            cursor.push(offsets[n]);
        }
        let mut entries: Vec<(u32, Endpoint)> = vec![(0u32, Endpoint::U); 2 * num_edges];
        assert(filled(es, offsets@, entries@, cursor@, 0)) by {
            assert forall|n: int| 0 <= n < num_nodes implies #[trigger] row_filled(es, offsets@, entries@, cursor@, 0, n) by {
                assert(offsets@[n] <= offsets@[num_nodes as int]);
                assert(entries@.subrange(offsets@[n] as int, cursor@[n] as int) =~= Seq::empty());
            }
        }
        for e in 0..num_edges
            invariant
                es == edges@,
                num_edges == es.len(),
                endpoints_below(es, num_nodes as nat),
                2 * es.len() <= u32::MAX,
                offsets@.len() == num_nodes + 1,
                cursor@.len() == num_nodes,
                entries@.len() == 2 * es.len(),
                prefix_counts(es, offsets@),
                filled(es, offsets@, entries@, cursor@, e as nat),
        {
            let u = edges[e][0] as usize;
            let v = edges[e][1] as usize;
            let ghost entries0 = entries@;
            let ghost cursor0 = cursor@;
            proof {
                row_room(es, offsets@, entries@, cursor@, e as nat, u as int);
                row_room(es, offsets@, entries@, cursor@, e as nat, v as int);
            }
            entries.set(cursor[u] as usize, (e as u32, Endpoint::U));
            cursor[u] = cursor[u] + 1;
            entries.set(cursor[v] as usize, (e as u32, Endpoint::V));
            cursor[v] = cursor[v] + 1;
            proof {
                assert forall|n: int| 0 <= n < num_nodes implies #[trigger] row_filled(
                    es,
                    offsets@,
                    entries@,
                    cursor@,
                    (e + 1) as nat,
                    n,
                ) by {
                    row_step(es, offsets@, entries0, cursor0, entries@, cursor@, e as nat, n);
                }
            }
        }
        let r = NodeIncidence { offsets, entries };
        proof {
            assert(r.offsets@[0] == filed_before(es, es.len(), 0));
            assert forall|n: int| 0 <= n < num_nodes implies #[trigger] r.row(n) == incidences(
                es,
                n,
                es.len(),
            ) by {
                assert(row_filled(es, offsets@, entries@, cursor@, es.len(), n));
                assert(offsets@[n + 1] == filed_before(es, es.len(), (n + 1) as nat));
                assert(offsets@[n] == filed_before(es, es.len(), n as nat));
            }
        }
        r
    }

    /// The `(edge, endpoint)` pairs incident to node `n`.
    pub fn incident(&self, n: usize) -> (r: &[(u32, Endpoint)])
        requires
            self.wf(),
            n < self.num_nodes(),
        ensures
            r@ == self.row(n as int),
    {
        assert(self.offsets@[n as int] <= self.offsets@[n + 1]);
        assert(self.offsets@[n + 1] <= self.offsets@[self.offsets@.len() - 1]);
        assert(n + 1 < self.offsets.len());
        vstd::slice::slice_subrange(
            self.entries.as_slice(),
            self.offsets[n] as usize,
            self.offsets[n + 1] as usize,
        )
    }
}

/// Every entry of a node's row names an edge that has the node at the named
/// endpoint, and a row lists its entries in edge order, `U` before `V`.
pub proof fn incidences_are_sound(edges: Seq<[u32; 2]>, node: int, e: nat)
    requires
        e <= edges.len(),
        edges.len() <= u32::MAX,
    ensures
        forall|i: int|
            0 <= i < incidences(edges, node, e).len() ==> {
                let (ei, ep) = #[trigger] incidences(edges, node, e)[i];
                ei < e && edges[ei as int]@[if ep == Endpoint::U {
                    0
                } else {
                    1
                }] == node
            },
        forall|i: int, j: int|
            0 <= i < j < incidences(edges, node, e).len() ==> {
                let (ei, pi) = #[trigger] incidences(edges, node, e)[i];
                let (ej, pj) = #[trigger] incidences(edges, node, e)[j];
                ei < ej || (ei == ej && pi == Endpoint::U && pj == Endpoint::V)
            },
    decreases e,
{
    if e > 0 {
        incidences_are_sound(edges, node, (e - 1) as nat);
    }
}

/// Both endpoints of every edge are filed, each under its own node.
pub proof fn incidences_are_complete(edges: Seq<[u32; 2]>, e: nat, edge: int)
    requires
        0 <= edge < e <= edges.len(),
        edges.len() <= u32::MAX,
    ensures
        incidences(edges, edges[edge]@[0] as int, e).contains((edge as u32, Endpoint::U)),
        incidences(edges, edges[edge]@[1] as int, e).contains((edge as u32, Endpoint::V)),
    decreases e,
{
    let u = edges[edge]@[0] as int;
    let v = edges[edge]@[1] as int;
    let in_u = incidences(edges, u, e);
    let in_v = incidences(edges, v, e);
    let before_u = incidences(edges, u, (e - 1) as nat);
    let before_v = incidences(edges, v, (e - 1) as nat);
    if edge < e - 1 {
        incidences_are_complete(edges, (e - 1) as nat, edge);
        let i = choose|i: int| 0 <= i < before_u.len() && before_u[i] == (edge as u32, Endpoint::U);
        assert(in_u[i] == (edge as u32, Endpoint::U));
        let j = choose|j: int| 0 <= j < before_v.len() && before_v[j] == (edge as u32, Endpoint::V);
        assert(in_v[j] == (edge as u32, Endpoint::V));
    } else {
        assert(in_u[before_u.len() as int] == (edge as u32, Endpoint::U));
        assert(in_v[in_v.len() - 1] == (edge as u32, Endpoint::V));
    }
}

/// The slot of the compass direction `(dy, dx)`, where north is a smaller y.
///
/// Of four slots (N, E, S, W) the vertical ones win on diagonals; of eight
/// (N, NE, E, SE, S, SW, W, NW) each direction has its own. No displacement at all
/// counts as west.
pub open spec fn direction_slot<S: Scalar>(dy: S, dx: S, num_directions: usize) -> u8 {
    let zero = S::spec_zero();
    let north = dy.spec_less(zero);
    let south = !north && zero.spec_less(dy);
    let east = zero.spec_less(dx);
    let west = !east && dx.spec_less(zero);
    if num_directions == 4 {
        if north {
            0
        } else if south {
            2
        } else if east {
            1
        } else {
            3
        }
    } else if north {
        if east {
            1
        } else if west {
            7
        } else {
            0
        }
    } else if south {
        if east {
            3
        } else if west {
            5
        } else {
            4
        }
    } else if east {
        2
    } else {
        6
    }
}

/// Maps a position delta `(dy, dx)` to a direction slot index.
///
/// - Four directions: 0=N, 1=E, 2=S, 3=W; vertical takes priority on diagonals.
/// - Eight: 0=N, 1=NE, 2=E, 3=SE, 4=S, 5=SW, 6=W, 7=NW, tested in the order NE, NW,
///   N, SE, SW, S, E, W.
pub fn compute_direction_index<S: Scalar>(dy: S, dx: S, num_directions: usize) -> (r: u8)
    requires
        num_directions == 4 || num_directions == 8,
    ensures
        r == direction_slot(dy, dx, num_directions),
        r < num_directions,
{
    let zero = S::zero();
    let is_north = dy.less(zero);
    let is_south = zero.less(dy);
    let is_east = zero.less(dx);
    let is_west = dx.less(zero);
    if num_directions == 4 {
        if is_north {
            0
        } else if is_south {
            2
        } else if is_east {
            1
        } else {
            3
        }
    } else {
        if is_north && is_east {
            1
        } else if is_north && is_west {
            7
        } else if is_north {
            0
        } else if is_south && is_east {
            3
        } else if is_south && is_west {
            5
        } else if is_south {
            4
        } else if is_east {
            2
        } else {
            6
        }
    }
}

/// The order sees `d` and its negation on opposite sides of zero.
pub open spec fn mirrors<S: Scalar>(d: S) -> bool {
    let zero = S::spec_zero();
    let neg = d.spec_negate();
    &&& neg.spec_less(zero) == zero.spec_less(d)
    &&& zero.spec_less(neg) == d.spec_less(zero)
    &&& !(d.spec_less(zero) && zero.spec_less(d))
}

/// Seen from the other end, an edge that leads anywhere points into the opposite
/// slot: half the compass away.
pub proof fn reversed_direction_is_opposite<S: Scalar>(dy: S, dx: S, num_directions: usize)
    requires
        num_directions == 4 || num_directions == 8,
        mirrors(dy),
        mirrors(dx),
        ({
            let zero = S::spec_zero();
            dy.spec_less(zero) || zero.spec_less(dy) || dx.spec_less(zero) || zero.spec_less(dx)
        }),
    ensures
        direction_slot(dy.spec_negate(), dx.spec_negate(), num_directions) == (direction_slot(
            dy,
            dx,
            num_directions,
        ) + num_directions / 2) % num_directions as int,
{
}

/// The agent graph of one task.
///
/// The slot at the v-endpoint of an edge is that of the reversed direction: an edge
/// that leads north uses slot N at u and slot S at v.
#[derive(Debug)]
pub struct AgentGraph<S> {
    /// Edges as (u, v) node indices.
    pub edges: Vec<[u32; 2]>,
    /// `[N, 2]` (y, x) agent-center positions of a grid task.
    pub node_positions: Option<Matrix<S>>,
    /// Direction slot of the u-endpoint of each edge.
    pub dir_uv: Vec<u8>,
    /// Direction slot of the v-endpoint of each edge.
    pub dir_vu: Vec<u8>,
    /// Node to incident edges.
    pub node_edges: NodeIncidence,
    /// Number of agents.
    pub num_nodes: usize,
}

/// Direction slots of edges at their u-endpoints.
pub open spec fn slots_uv<S: Scalar>(
    pairs: Seq<(int, int)>,
    positions: crate::tensor::Arr2<S>,
    num_directions: usize,
) -> Seq<u8> {
    Seq::new(
        pairs.len(),
        |e: int|
            {
                let (u, v) = pairs[e];
                let dy = positions.at(v, 0).spec_minus(positions.at(u, 0));
                let dx = positions.at(v, 1).spec_minus(positions.at(u, 1));
                direction_slot(dy, dx, num_directions)
            },
    )
}

/// Direction slots of edges at their v-endpoints: those of the negated deltas.
pub open spec fn slots_vu<S: Scalar>(
    pairs: Seq<(int, int)>,
    positions: crate::tensor::Arr2<S>,
    num_directions: usize,
) -> Seq<u8> {
    Seq::new(
        pairs.len(),
        |e: int|
            {
                let (u, v) = pairs[e];
                let dy = positions.at(v, 0).spec_minus(positions.at(u, 0));
                let dx = positions.at(v, 1).spec_minus(positions.at(u, 1));
                direction_slot(dy.spec_negate(), dx.spec_negate(), num_directions)
            },
    )
}

/// What a graph consists of: edges, slot tables, number of agents.
#[verifier::ext_equal]
pub ghost struct GraphModel {
    pub edges: Seq<(int, int)>,
    pub dir_uv: Seq<u8>,
    pub dir_vu: Seq<u8>,
    pub num_nodes: nat,
}

impl<S: Scalar> View for AgentGraph<S> {
    type V = GraphModel;

    open spec fn view(&self) -> GraphModel {
        GraphModel {
            edges: pairs_of(self.edges@),
            dir_uv: self.dir_uv@,
            dir_vu: self.dir_vu@,
            num_nodes: self.num_nodes as nat,
        }
    }
}

impl<S: Scalar> AgentGraph<S> {
    /// Endpoints are nodes, the incidence table indexes the edges, and the slot
    /// tables are either absent or one slot long for each edge.
    pub open spec fn wf(&self) -> bool {
        &&& endpoints_below(self.edges@, self.num_nodes as nat)
        &&& self.node_edges.indexes(self.edges@, self.num_nodes as nat)
        &&& self.dir_uv@.len() == self.dir_vu@.len()
        &&& self.dir_uv@.len() == 0 || self.dir_uv@.len() == self.edges@.len()
        &&& match self.node_positions {
            Some(positions) => positions@.has_shape(self.num_nodes as nat, 2),
            None => true,
        }
    }

    /// Builds a grid-task graph from edges and `[N, 2]` node positions (y, x),
    /// precomputing the direction slot tables and the incidence table.
    pub fn new_grid(edges: Vec<[u32; 2]>, node_positions: Matrix<S>, num_directions: usize) -> (r: Self)
        requires
            node_positions.wf(),
            node_positions@.cols == 2,
            num_directions == 4 || num_directions == 8,
            endpoints_below(edges@, node_positions@.rows),
            node_positions@.rows < usize::MAX,
            2 * edges@.len() <= u32::MAX,
        ensures
            r.wf(),
            r.edges == edges,
            r.node_positions == Some(node_positions),
            r.num_nodes == node_positions@.rows,
            r.dir_uv@ == slots_uv(pairs_of(edges@), node_positions@, num_directions),
            r.dir_vu@ == slots_vu(pairs_of(edges@), node_positions@, num_directions),
            forall|e: int| 0 <= e < edges@.len() ==> (#[trigger] r.dir_uv@[e]) < num_directions,
            forall|e: int| 0 <= e < edges@.len() ==> (#[trigger] r.dir_vu@[e]) < num_directions,
    {
        let num_nodes = node_positions.nrows();
        let mut dir_uv: Vec<u8> = Vec::new();
        let mut dir_vu: Vec<u8> = Vec::new();
        for e in 0..edges.len()
            invariant
                node_positions.wf(),
                node_positions@.cols == 2,
                num_directions == 4 || num_directions == 8,
                endpoints_below(edges@, node_positions@.rows),
                dir_uv@ == slots_uv(pairs_of(edges@), node_positions@, num_directions).take(e as int),
                dir_vu@ == slots_vu(pairs_of(edges@), node_positions@, num_directions).take(e as int),
                forall|i: int| 0 <= i < e ==> (#[trigger] dir_uv@[i]) < num_directions,
                forall|i: int| 0 <= i < e ==> (#[trigger] dir_vu@[i]) < num_directions,
        {
            let u = edges[e][0] as usize;
            let v = edges[e][1] as usize;
            let dy = node_positions.get(v, 0).minus(node_positions.get(u, 0));
            let dx = node_positions.get(v, 1).minus(node_positions.get(u, 1));
            dir_uv.push(compute_direction_index(dy, dx, num_directions));
            dir_vu.push(compute_direction_index(dy.negate(), dx.negate(), num_directions));
        }
        let node_edges = NodeIncidence::build(edges.as_slice(), num_nodes);
        AgentGraph { edges, node_positions: Some(node_positions), dir_uv, dir_vu, node_edges, num_nodes }
    }

    /// Builds a graph without positions or direction slots.
    pub fn from_edges(edges: Vec<[u32; 2]>, num_nodes: usize) -> (r: Self)
        requires
            endpoints_below(edges@, num_nodes as nat),
            num_nodes < usize::MAX,
            2 * edges@.len() <= u32::MAX,
        ensures
            r.wf(),
            r.edges == edges,
            r.node_positions is None,
            r.num_nodes == num_nodes,
            r.dir_uv@.len() == 0,
            r.dir_vu@.len() == 0,
    {
        let node_edges = NodeIncidence::build(edges.as_slice(), num_nodes);
        AgentGraph {
            edges,
            node_positions: None,
            dir_uv: Vec::new(),
            dir_vu: Vec::new(),
            node_edges,
            num_nodes,
        }
    }

    pub fn num_edges(&self) -> (r: usize)
        ensures
            r == self.edges@.len(),
    {
        self.edges.len()
    }
}

} // verus!
