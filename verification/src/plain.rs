//! Arrays of any rank: a shape, and the members in row-major order.
use crate::geometry::{FactorGrid, RestrictionMaps};
use crate::scalar::Scalar;
use crate::tensor::{Arr2, Arr3, Matrix, Tensor3};
use crate::weights::member_count;
use vstd::prelude::*;

verus! {

/// An array of any rank.
#[derive(Debug)]
pub struct Plain<T> {
    pub shape: Vec<usize>,
    /// The members, the last axis running fastest.
    pub data: Vec<T>,
}

/// The contents of an array of any rank.
#[verifier::ext_equal]
pub ghost struct PlainModel<T> {
    pub shape: Seq<usize>,
    pub data: Seq<T>,
}

impl<T> View for Plain<T> {
    type V = PlainModel<T>;

    open spec fn view(&self) -> PlainModel<T> {
        PlainModel { shape: self.shape@, data: self.data@ }
    }
}

impl<T> PlainModel<T> {
    /// There are as many members as the shape asks for.
    pub open spec fn wf(self) -> bool {
        self.data.len() == member_count(self.shape)
    }
}

/// Tests whether two shapes are the same.
pub fn same_shape(a: &[usize], b: &[usize]) -> (r: bool)
    ensures
        r == (a@ == b@),
{
    if a.len() != b.len() {
        return false;
    }
    for i in 0..a.len()
        invariant
            a@.len() == b@.len(),
            forall|j: int| 0 <= j < i ==> a@[j] == b@[j],
    {
        if a[i] != b[i] {
            return false;
        }
    }
    assert(a@ =~= b@);
    true
}

/// The first `n` parts, one after the other.
pub open spec fn chained<T>(parts: Seq<Seq<T>>, n: nat) -> Seq<T>
    decreases n,
{
    if n == 0 {
        Seq::empty()
    } else {
        chained(parts, (n - 1) as nat) + parts[n - 1]
    }
}

/// Parts of one length make a chain of that many times as many members.
pub proof fn chained_length<T>(parts: Seq<Seq<T>>, n: nat, m: nat)
    requires
        n <= parts.len(),
        forall|i: int| 0 <= i < n ==> (#[trigger] parts[i]).len() == m,
    ensures
        chained(parts, n).len() == n * m,
    decreases n,
{
    if n > 0 {
        chained_length(parts, (n - 1) as nat, m);
        assert((n - 1) * m + m == n * m) by (nonlinear_arith);
    } else {
        assert(0 * m == 0);
    }
}

/// The members of a matrix, row after row.
pub open spec fn flat2<T>(a: Arr2<T>) -> Seq<T> {
    chained(a.data, a.rows)
}

/// The members of a rank-3 array, row after row.
pub open spec fn flat3<T>(a: Arr3<T>) -> Seq<T> {
    chained(Seq::new(a.n, |i: int| chained(a.data[i], a.b)), a.n)
}

/// The members of a grid of matrices, matrix after matrix.
pub open spec fn flat_grid<T>(g: Seq<Seq<Arr2<T>>>) -> Seq<T> {
    chained(Seq::new(g.len(), |i: int| flat_line(g[i])), g.len())
}

/// The members of a list of matrices.
pub open spec fn flat_line<T>(line: Seq<Arr2<T>>) -> Seq<T> {
    chained(Seq::new(line.len(), |j: int| flat2(line[j])), line.len())
}

/// The matrices of one agent and batch element, one for each slot.
pub open spec fn slot_line<T>(slots: Seq<Seq<Seq<Arr2<T>>>>, i: int, j: int) -> Seq<Arr2<T>> {
    Seq::new(slots.len(), |k: int| slots[k][i][j])
}

/// The members of one agent's matrices, batch element after batch element.
pub open spec fn flat_agent<T>(slots: Seq<Seq<Seq<Arr2<T>>>>, b: nat, i: int) -> Seq<T> {
    chained(Seq::new(b, |j: int| flat_line(slot_line(slots, i, j))), b)
}

/// The members of per-agent matrices: agents, batch elements, slots.
pub open spec fn flat_slots<T>(slots: Seq<Seq<Seq<Arr2<T>>>>, n: nat, b: nat) -> Seq<T> {
    chained(Seq::new(n, |i: int| flat_agent(slots, b, i)), n)
}

/// The members of the two maps of each edge.
pub open spec fn flat_maps<T>(at_u: Seq<Arr2<T>>, at_v: Seq<Arr2<T>>) -> Seq<T> {
    chained(Seq::new(at_u.len(), |e: int| flat2(at_u[e]) + flat2(at_v[e])), at_u.len())
}

/// A list of matrices of one shape as an array of rank 3.
pub open spec fn plain_line_of<T>(line: Seq<Arr2<T>>, h: usize, w: usize) -> PlainModel<T> {
    PlainModel { shape: seq![line.len() as usize, h, w], data: flat_line(line) }
}

/// The members of a list of rank-3 arrays.
pub open spec fn flat_list3<T>(list: Seq<Arr3<T>>) -> Seq<T> {
    chained(Seq::new(list.len(), |i: int| flat3(list[i])), list.len())
}

pub proof fn flat2_length<T>(a: Arr2<T>)
    requires
        a.wf(),
    ensures
        flat2(a).len() == a.rows * a.cols,
{
    chained_length(a.data, a.rows, a.cols);
}

pub proof fn flat3_length<T>(a: Arr3<T>)
    requires
        a.wf(),
    ensures
        flat3(a).len() == a.n * (a.b * a.d),
{
    let parts = Seq::new(a.n, |i: int| chained(a.data[i], a.b));
    assert forall|i: int| 0 <= i < a.n implies (#[trigger] parts[i]).len() == a.b * a.d by {
        assert forall|j: int| 0 <= j < a.b implies (#[trigger] a.data[i][j]).len() == a.d by {}
        chained_length(a.data[i], a.b, a.d);
    }
    chained_length(parts, a.n, a.b * a.d);
}

/// How many members arrays of small rank have.
pub proof fn counts_by_rank(s: Seq<usize>)
    ensures
        s.len() == 0 ==> member_count(s) == 1,
        s.len() == 1 ==> member_count(s) == s[0],
        s.len() == 2 ==> member_count(s) == s[0] * s[1],
        s.len() == 3 ==> member_count(s) == s[0] * s[1] * s[2],
        s.len() == 4 ==> member_count(s) == s[0] * s[1] * s[2] * s[3],
        s.len() == 5 ==> member_count(s) == s[0] * s[1] * s[2] * s[3] * s[4],
{
    reveal_with_fuel(member_count, 6);
}

/// Puts members at the end of a list.
fn extend<T: Copy>(out: &mut Vec<T>, part: &[T])
    ensures
        final(out)@ == old(out)@ + part@,
{
    for i in 0..part.len()
        invariant
            out@ == old(out)@ + part@.take(i as int),
    {
        out.push(part[i]);
        assert(part@.take(i + 1) =~= part@.take(i as int).push(part@[i as int]));
        assert(out@ =~= old(out)@ + part@.take(i + 1));
    }
    assert(part@.take(part@.len() as int) =~= part@);
}

/// Puts the members of a matrix at the end of a list.
fn extend_matrix<T: Copy>(out: &mut Vec<T>, a: &Matrix<T>)
    requires
        a.wf(),
    ensures
        final(out)@ == old(out)@ + flat2(a@),
{
    let n = a.nrows();
    assert(old(out)@ + chained(a@.data, 0) =~= old(out)@);
    for i in 0..n
        invariant
            a.wf(),
            n == a@.rows,
            out@ == old(out)@ + chained(a@.data, i as nat),
    {
        extend(out, a.row(i));
        assert(out@ =~= old(out)@ + chained(a@.data, (i + 1) as nat));
    }
}

/// Puts the members of a rank-3 array at the end of a list.
fn extend_tensor<T: Copy>(out: &mut Vec<T>, a: &Tensor3<T>)
    requires
        a.wf(),
    ensures
        final(out)@ == old(out)@ + flat3(a@),
{
    let (n, b, _d) = a.dim();
    let ghost parts = Seq::new(a@.n, |i: int| chained(a@.data[i], a@.b));
    assert(old(out)@ + chained(parts, 0) =~= old(out)@);
    for i in 0..n
        invariant
            a.wf(),
            n == a@.n,
            b == a@.b,
            parts == Seq::new(a@.n, |i: int| chained(a@.data[i], a@.b)),
            out@ == old(out)@ + chained(parts, i as nat),
    {
        let ghost before = out@;
        assert(before + chained(a@.data[i as int], 0) =~= before);
        for j in 0..b
            invariant
                a.wf(),
                i < a@.n,
                b == a@.b,
                out@ == before + chained(a@.data[i as int], j as nat),
        {
            extend(out, a.row(i, j));
            assert(out@ =~= before + chained(a@.data[i as int], (j + 1) as nat));
        }
        assert(out@ =~= old(out)@ + chained(parts, (i + 1) as nat));
    }
}

/// A list as an array of rank 1.
pub fn plain_list<T: Copy>(list: &[T]) -> (r: Plain<T>)
    ensures
        r@ == (PlainModel { shape: seq![list@.len() as usize], data: list@ }),
        r@.wf(),
{
    let mut data: Vec<T> = Vec::new();
    extend(&mut data, list);
    assert(data@ =~= list@);
    let shape = vec![list.len()];
    proof {
        counts_by_rank(shape@);
        assert(shape@ =~= seq![list@.len() as usize]);
    }
    Plain { shape, data }
}

/// A matrix as an array of rank 2.
pub fn plain_matrix<T: Copy>(a: &Matrix<T>) -> (r: Plain<T>)
    requires
        a.wf(),
    ensures
        r@ == (PlainModel { shape: seq![a@.rows as usize, a@.cols as usize], data: flat2(a@) }),
        r@.wf(),
{
    let mut data: Vec<T> = Vec::new();
    extend_matrix(&mut data, a);
    assert(data@ =~= flat2(a@));
    let shape = vec![a.nrows(), a.ncols()];
    proof {
        counts_by_rank(shape@);
        flat2_length(a@);
        assert(shape@ =~= seq![a@.rows as usize, a@.cols as usize]);
    }
    Plain { shape, data }
}

/// A rank-3 array under a shape that splits its axes.
pub fn plain_tensor<T: Copy>(a: &Tensor3<T>, shape: Vec<usize>) -> (r: Plain<T>)
    requires
        a.wf(),
        member_count(shape@) == a@.n * (a@.b * a@.d),
    ensures
        r@ == (PlainModel { shape: shape@, data: flat3(a@) }),
        r@.wf(),
{
    let mut data: Vec<T> = Vec::new();
    extend_tensor(&mut data, a);
    assert(data@ =~= flat3(a@));
    proof {
        flat3_length(a@);
    }
    Plain { shape, data }
}

/// A rank-3 array as it is.
pub fn plain_cube<T: Copy>(a: &Tensor3<T>) -> (r: Plain<T>)
    requires
        a.wf(),
    ensures
        r@ == (PlainModel {
            shape: seq![a@.n as usize, a@.b as usize, a@.d as usize],
            data: flat3(a@),
        }),
        r@.wf(),
{
    let (n, b, d) = a.dim();
    let shape = vec![n, b, d];
    proof {
        counts_by_rank(shape@);
        assert(n * b * d == n * (b * d)) by (nonlinear_arith);
        assert(shape@ =~= seq![n, b, d]);
    }
    plain_tensor(a, shape)
}

/// A list of matrices of one shape as an array of rank 3.
pub fn plain_line<T: Copy>(list: &Vec<Matrix<T>>, h: usize, w: usize) -> (r: Plain<T>)
    requires
        forall|i: int| 0 <= i < list@.len() ==> (#[trigger] list@[i])@.has_shape(h as nat, w as nat),
    ensures
        r@ == plain_line_of(list@.map_values(|m: Matrix<T>| m@), h, w),
        r@.wf(),
{
    let ghost all = list@.map_values(|m: Matrix<T>| m@);
    let ghost parts = Seq::new(all.len(), |i: int| flat2(all[i]));
    let mut data: Vec<T> = Vec::new();
    assert(data@ =~= chained(parts, 0));
    for i in 0..list.len()
        invariant
            all == list@.map_values(|m: Matrix<T>| m@),
            parts == Seq::new(all.len(), |i: int| flat2(all[i])),
            forall|i: int| 0 <= i < list@.len() ==> (#[trigger] list@[i])@.has_shape(h as nat, w as nat),
            data@ == chained(parts, i as nat),
    {
        extend_matrix(&mut data, &list[i]);
        assert(data@ =~= chained(parts, (i + 1) as nat));
    }
    let shape = vec![list.len(), h, w];
    proof {
        counts_by_rank(shape@);
        assert forall|i: int| 0 <= i < all.len() implies (#[trigger] all[i]).has_shape(h as nat, w as nat) by {
            assert(list@[i]@.has_shape(h as nat, w as nat));
        }
        line_length(all, h as nat, w as nat);
        let l = list@.len();
        assert(l * h * w == l * (h * w)) by (nonlinear_arith);
        assert(shape@ =~= seq![list@.len() as usize, h, w]);
    }
    Plain { shape, data }
}

/// A list of rank-3 arrays of one shape as an array of rank 4.
pub fn plain_list3<T: Copy>(list: &Vec<Tensor3<T>>, n: usize, b: usize, d: usize) -> (r: Plain<T>)
    requires
        forall|i: int|
            0 <= i < list@.len() ==> (#[trigger] list@[i])@.has_shape(n as nat, b as nat, d as nat),
    ensures
        r@ == (PlainModel {
            shape: seq![list@.len() as usize, n, b, d],
            data: flat_list3(list@.map_values(|t: Tensor3<T>| t@)),
        }),
        r@.wf(),
{
    let ghost all = list@.map_values(|t: Tensor3<T>| t@);
    let ghost parts = Seq::new(all.len(), |i: int| flat3(all[i]));
    let mut data: Vec<T> = Vec::new();
    assert(data@ =~= chained(parts, 0));
    for i in 0..list.len()
        invariant
            all == list@.map_values(|t: Tensor3<T>| t@),
            parts == Seq::new(all.len(), |i: int| flat3(all[i])),
            forall|i: int|
                0 <= i < list@.len() ==> (#[trigger] list@[i])@.has_shape(n as nat, b as nat, d as nat),
            data@ == chained(parts, i as nat),
    {
        extend_tensor(&mut data, &list[i]);
        assert(data@ =~= chained(parts, (i + 1) as nat));
    }
    let shape = vec![list.len(), n, b, d];
    proof {
        counts_by_rank(shape@);
        let m = n as nat * (b as nat * d as nat);
        assert forall|i: int| 0 <= i < parts.len() implies (#[trigger] parts[i]).len() == m by {
            assert(list@[i]@.has_shape(n as nat, b as nat, d as nat));
            flat3_length(list@[i]@);
        }
        chained_length(parts, parts.len(), m);
        let l = list@.len();
        assert(l * n * b * d == l * (n * (b * d))) by (nonlinear_arith);
        assert(shape@ =~= seq![list@.len() as usize, n, b, d]);
    }
    Plain { shape, data }
}

/// A grid of matrices as an array of rank 4.
pub fn plain_grid<S: Scalar>(g: &FactorGrid<S>) -> (r: Plain<S>)
    requires
        g.wf(),
    ensures
        r@ == (PlainModel {
            shape: seq![g.outer() as usize, g.batch() as usize, g.rows() as usize, g.cols() as usize],
            data: flat_grid(g@),
        }),
        r@.wf(),
{
    let (n, b, h, w) = g.dim();
    proof {
        g.entries_wf();
    }
    let ghost parts = Seq::new(g@.len(), |i: int| flat_line(g@[i]));
    let mut data: Vec<S> = Vec::new();
    assert(data@ =~= chained(parts, 0));
    for i in 0..n
        invariant
            g.wf(),
            n == g.outer(),
            b == g.batch(),
            g@.len() == n,
            forall|i: int| 0 <= i < n ==> (#[trigger] g@[i]).len() == b,
            parts == Seq::new(g@.len(), |i: int| flat_line(g@[i])),
            data@ == chained(parts, i as nat),
    {
        let ghost line = g@[i as int];
        let ghost pieces = Seq::new(line.len(), |j: int| flat2(line[j]));
        let ghost before = data@;
        assert(before + chained(pieces, 0) =~= before);
        for j in 0..b
            invariant
                g.wf(),
                i < g.outer(),
                b == g.batch(),
                line == g@[i as int],
                line.len() == b,
                pieces == Seq::new(line.len(), |j: int| flat2(line[j])),
                data@ == before + chained(pieces, j as nat),
        {
            let m = g.get(i, j);
            extend_matrix(&mut data, m);
            assert(data@ =~= before + chained(pieces, (j + 1) as nat));
        }
        assert(data@ =~= chained(parts, (i + 1) as nat));
    }
    let shape = vec![n, b, h, w];
    proof {
        counts_by_rank(shape@);
        let m = h as nat * w as nat;
        assert forall|i: int| 0 <= i < n implies (#[trigger] parts[i]).len() == b * m by {
            line_length(g@[i], h as nat, w as nat);
        }
        chained_length(parts, n as nat, b as nat * m);
        assert(n * b * h * w == n * (b * (h * w))) by (nonlinear_arith);
        assert(shape@ =~= seq![n, b, h, w]);
    }
    Plain { shape, data }
}

pub proof fn line_length<T>(line: Seq<Arr2<T>>, h: nat, w: nat)
    requires
        forall|j: int| 0 <= j < line.len() ==> (#[trigger] line[j]).has_shape(h, w),
    ensures
        flat_line(line).len() == line.len() * (h * w),
{
    let pieces = Seq::new(line.len(), |j: int| flat2(line[j]));
    assert forall|j: int| 0 <= j < line.len() implies (#[trigger] pieces[j]).len() == h * w by {
        assert(line[j].has_shape(h, w));
        flat2_length(line[j]);
    }
    chained_length(pieces, line.len(), h * w);
}

/// The maps of a graph's edges as an array of rank 4: edges, endpoints, rows, columns.
pub fn plain_maps<S: Scalar>(maps: &RestrictionMaps<S>) -> (r: Plain<S>)
    requires
        maps.wf(),
    ensures
        r@ == (PlainModel {
            shape: seq![maps.maps@.len() as usize, 2, maps.d_e, maps.d_v],
            data: flat_maps(maps.at_u(), maps.at_v()),
        }),
        r@.wf(),
{
    let n = maps.maps.len();
    let ghost parts = Seq::new(maps.at_u().len(), |e: int| flat2(maps.at_u()[e]) + flat2(maps.at_v()[e]));
    let mut data: Vec<S> = Vec::new();
    assert(data@ =~= chained(parts, 0));
    for e in 0..n
        invariant
            maps.wf(),
            n == maps.maps@.len(),
            parts == Seq::new(
                maps.at_u().len(),
                |e: int| flat2(maps.at_u()[e]) + flat2(maps.at_v()[e]),
            ),
            data@ == chained(parts, e as nat),
    {
        let pair = &maps.maps[e];
        assert(pair.u@ == maps.at_u()[e as int] && pair.v@ == maps.at_v()[e as int]);
        extend_matrix(&mut data, &pair.u);
        extend_matrix(&mut data, &pair.v);
        assert(data@ =~= chained(parts, (e + 1) as nat));
    }
    let shape = vec![n, 2, maps.d_e, maps.d_v];
    proof {
        let (h, w) = (maps.d_e as nat, maps.d_v as nat);
        counts_by_rank(shape@);
        assert forall|e: int| 0 <= e < n implies (#[trigger] parts[e]).len() == 2 * (h * w) by {
            let pair = maps.maps@[e];
            flat2_length(pair.u@);
            flat2_length(pair.v@);
        }
        chained_length(parts, n as nat, 2 * (h * w));
        assert(n * 2 * h * w == n * (2 * (h * w))) by (nonlinear_arith);
        assert(shape@ =~= seq![n, 2, maps.d_e, maps.d_v]);
    }
    Plain { shape, data }
}

/// Puts the matrices of one agent at the end of a list.
fn extend_agent<S: Scalar>(out: &mut Vec<S>, slots: &Vec<FactorGrid<S>>, b: usize, i: usize, Ghost(n): Ghost<nat>)
    requires
        forall|k: int|
            0 <= k < slots@.len() ==> (#[trigger] slots@[k]).wf() && slots@[k].outer() == n
                && slots@[k].batch() == b,
        i < n,
    ensures
        final(out)@ == old(out)@ + flat_agent(slots@.map_values(|g: FactorGrid<S>| g@), b as nat, i as int),
{
    let ghost all = slots@.map_values(|g: FactorGrid<S>| g@);
    let ghost parts = Seq::new(b as nat, |j: int| flat_line(slot_line(all, i as int, j)));
    assert(out@ + chained(parts, 0) =~= out@);
    for j in 0..b
        invariant
            forall|k: int|
                0 <= k < slots@.len() ==> (#[trigger] slots@[k]).wf() && slots@[k].outer() == n
                    && slots@[k].batch() == b,
            i < n,
            all == slots@.map_values(|g: FactorGrid<S>| g@),
            parts == Seq::new(b as nat, |j: int| flat_line(slot_line(all, i as int, j))),
            out@ == old(out)@ + chained(parts, j as nat),
    {
        let ghost line = slot_line(all, i as int, j as int);
        let ghost pieces = Seq::new(line.len(), |k: int| flat2(line[k]));
        let ghost before = out@;
        assert(before + chained(pieces, 0) =~= before);
        for k in 0..slots.len()
            invariant
                forall|k: int|
                    0 <= k < slots@.len() ==> (#[trigger] slots@[k]).wf() && slots@[k].outer() == n
                        && slots@[k].batch() == b,
                i < n,
                j < b,
                all == slots@.map_values(|g: FactorGrid<S>| g@),
                line == slot_line(all, i as int, j as int),
                pieces == Seq::new(line.len(), |k: int| flat2(line[k])),
                out@ == before + chained(pieces, k as nat),
        {
            assert(slots@[k as int].wf());
            let m = slots[k].get(i, j);
            assert(m@ == line[k as int]);
            extend_matrix(out, m);
            assert(out@ =~= before + chained(pieces, (k + 1) as nat));
        }
        assert(out@ =~= old(out)@ + chained(parts, (j + 1) as nat));
    }
}

/// Per-agent matrices as an array of rank 5: agents, batch elements, slots, rows, columns.
pub fn plain_slots<S: Scalar>(slots: &Vec<FactorGrid<S>>, n: usize, b: usize, h: usize, w: usize) -> (r: Plain<S>)
    requires
        forall|k: int|
            0 <= k < slots@.len() ==> (#[trigger] slots@[k]).has_shape(n as nat, b as nat, h as nat, w as nat),
    ensures
        r@ == (PlainModel {
            shape: seq![n, b, slots@.len() as usize, h, w],
            data: flat_slots(slots@.map_values(|g: FactorGrid<S>| g@), n as nat, b as nat),
        }),
        r@.wf(),
{
    let ghost all = slots@.map_values(|g: FactorGrid<S>| g@);
    let ghost parts = Seq::new(n as nat, |i: int| flat_agent(all, b as nat, i));
    let mut data: Vec<S> = Vec::new();
    assert(data@ =~= chained(parts, 0));
    for i in 0..n
        invariant
            forall|k: int|
                0 <= k < slots@.len() ==> (#[trigger] slots@[k]).has_shape(
                    n as nat,
                    b as nat,
                    h as nat,
                    w as nat,
                ),
            all == slots@.map_values(|g: FactorGrid<S>| g@),
            parts == Seq::new(n as nat, |i: int| flat_agent(all, b as nat, i)),
            data@ == chained(parts, i as nat),
    {
        extend_agent(&mut data, slots, b, i, Ghost(n as nat));
        assert(data@ =~= chained(parts, (i + 1) as nat));
    }
    let shape = vec![n, b, slots.len(), h, w];
    proof {
        counts_by_rank(shape@);
        let d = slots@.len();
        let m = d * (h as nat * w as nat);
        assert forall|i: int| 0 <= i < n implies (#[trigger] parts[i]).len() == b * m by {
            let lines = Seq::new(b as nat, |j: int| flat_line(slot_line(all, i, j)));
            assert forall|j: int| 0 <= j < b implies (#[trigger] lines[j]).len() == m by {
                let line = slot_line(all, i, j);
                assert forall|k: int| 0 <= k < d implies (#[trigger] line[k]).has_shape(h as nat, w as nat) by {
                    slots@[k].entries_wf();
                    assert(slots@[k]@[i][j].has_shape(h as nat, w as nat));
                }
                line_length(line, h as nat, w as nat);
            }
            chained_length(lines, b as nat, m);
        }
        chained_length(parts, n as nat, b as nat * m);
        assert(n * b * d * h * w == n * (b * (d * (h * w)))) by (nonlinear_arith);
        assert(shape@ =~= seq![n, b, slots@.len() as usize, h, w]);
    }
    Plain { shape, data }
}

} // verus!
