//! What reading classes off logits is for: no class of a cell beats the one that is read, and
//! of several that tie the first is read.
use crate::readout::{best_of, classes_of, frame_of};
use crate::scalar::Scalar;
use crate::tensor::Arr3;
use vstd::prelude::*;

verus! {

/// Logit `i` of a row; the lower bound of all numbers for `-1`.
pub open spec fn logit_or_floor<S: Scalar>(row: Seq<S>, i: int) -> S {
    if i < 0 {
        S::spec_neg_infinity()
    } else {
        row[i]
    }
}

/// The order ranks the first `c` logits and the lower bound: no two are each below the other,
/// what is below one of two that tie is below the other, and none is below the lower bound.
pub open spec fn ranks_logits<S: Scalar>(row: Seq<S>, c: nat) -> bool {
    &&& forall|i: int, j: int|
        -1 <= i < c && -1 <= j < c && (#[trigger] logit_or_floor(row, i)).spec_less(
            #[trigger] logit_or_floor(row, j),
        ) ==> !logit_or_floor(row, j).spec_less(logit_or_floor(row, i))
    &&& forall|i: int, j: int, k: int|
        -1 <= i < c && -1 <= j < c && -1 <= k < c && (#[trigger] logit_or_floor(row, i)).spec_less(
            #[trigger] logit_or_floor(row, j),
        ) && !(#[trigger] logit_or_floor(row, k)).spec_less(logit_or_floor(row, j))
            ==> logit_or_floor(row, i).spec_less(logit_or_floor(row, k))
    &&& forall|i: int| 0 <= i < c ==> !(#[trigger] row[i]).spec_less(S::spec_neg_infinity())
}

/// Class `a` is the first of the largest among the first `c` logits.
pub open spec fn first_of_largest<S: Scalar>(row: Seq<S>, c: nat, a: int) -> bool {
    &&& 0 <= a < c
    &&& forall|j: int| 0 <= j < c ==> !row[a].spec_less(#[trigger] row[j])
    &&& forall|j: int| 0 <= j < a ==> (#[trigger] row[j]).spec_less(row[a])
}

proof fn fewer_rank<S: Scalar>(row: Seq<S>, c: nat)
    requires
        ranks_logits(row, c),
        c > 0,
    ensures
        ranks_logits(row, (c - 1) as nat),
{
}

/// Either no logit is above the lower bound yet, or the best so far is the first of the largest.
proof fn scan_keeps<S: Scalar>(row: Seq<S>, c: nat)
    requires
        ranks_logits(row, c),
    ensures
        ({
            let (a, best) = best_of(row, c);
            ||| {
                &&& a == 0
                &&& best == S::spec_neg_infinity()
                &&& forall|j: int| 0 <= j < c ==> !best.spec_less(#[trigger] row[j])
            }
            ||| first_of_largest(row, c, a) && best == row[a]
        }),
    decreases c,
{
    if c > 0 {
        let m = (c - 1) as nat;
        fewer_rank(row, c);
        scan_keeps(row, m);
        let (a, best) = best_of(row, m);
        let last = c - 1;
        assert(logit_or_floor(row, last) == row[last]);
        assert(logit_or_floor(row, -1) == S::spec_neg_infinity());
        if best.spec_less(row[last]) {
            let at = if first_of_largest(row, m, a) && best == row[a] {
                a
            } else {
                -1
            };
            assert(logit_or_floor(row, at) == best);
            assert forall|j: int| 0 <= j < last implies (#[trigger] row[j]).spec_less(row[last]) by {
                // row[j] is not above the best, and the best is below the last.
                assert(logit_or_floor(row, j) == row[j]);
                assert(!best.spec_less(row[j]));
                if !row[j].spec_less(row[last]) {
                    assert(!logit_or_floor(row, j).spec_less(logit_or_floor(row, last)));
                    assert(logit_or_floor(row, at).spec_less(logit_or_floor(row, j)));
                }
            }
            assert forall|j: int| 0 <= j < c implies !row[last].spec_less(#[trigger] row[j]) by {
                assert(logit_or_floor(row, j) == row[j]);
                if row[last].spec_less(row[j]) {
                    if j == last {
                        assert(logit_or_floor(row, last).spec_less(logit_or_floor(row, last)));
                    } else {
                        assert(row[j].spec_less(row[last]));
                    }
                }
            }
            assert(first_of_largest(row, c, last));
        }
    }
}

/// The class that is read is the first of the largest: no logit is above its logit, and every
/// logit before it is below.
pub proof fn best_class_is_first_of_largest<S: Scalar>(row: Seq<S>, c: nat)
    requires
        c > 0,
        ranks_logits(row, c),
    ensures
        first_of_largest(row, c, best_of(row, c).0),
{
    scan_keeps(row, c);
    let (a, best) = best_of(row, c);
    if !first_of_largest(row, c, a) {
        assert forall|j: int| 0 <= j < c implies !row[0].spec_less(#[trigger] row[j]) by {
            assert(logit_or_floor(row, j) == row[j]);
            assert(logit_or_floor(row, 0) == row[0]);
            assert(logit_or_floor(row, -1) == S::spec_neg_infinity());
            if row[0].spec_less(row[j]) {
                assert(!logit_or_floor(row, -1).spec_less(logit_or_floor(row, j)));
                assert(row[0].spec_less(S::spec_neg_infinity()));
            }
        }
    }
}

/// Only one class can be the first of the largest.
pub proof fn first_of_largest_is_one<S: Scalar>(row: Seq<S>, c: nat, a: int, b: int)
    requires
        first_of_largest(row, c, a),
        first_of_largest(row, c, b),
    ensures
        a == b,
{
    if a < b {
        assert(row[a].spec_less(row[b]));
    } else if b < a {
        assert(row[b].spec_less(row[a]));
    }
}

/// A frame holds at `y * width + x` the first of the largest among the logits of cell `(y, x)`,
/// and a grid of classes at `(y, x)`.
pub proof fn cells_hold_their_best_class<S: Scalar>(grid: Arr3<S>, y: int, x: int)
    requires
        0 <= y < grid.n,
        0 <= x < grid.b,
        0 < grid.d <= 256,
        ranks_logits(grid.data[y][x], grid.d),
    ensures
        frame_of(grid).len() == grid.n * grid.b,
        y * grid.b + x < frame_of(grid).len(),
        first_of_largest(grid.data[y][x], grid.d, frame_of(grid)[y * grid.b + x] as int),
        first_of_largest(grid.data[y][x], grid.d, classes_of(grid, grid.d).at(y, x) as int),
{
    let p = y * grid.b + x;
    assert(0 <= p < grid.n * grid.b && p / grid.b as int == y && p % grid.b as int == x) by (nonlinear_arith)
        requires
            p == y * grid.b + x,
            0 <= y < grid.n,
            0 <= x < grid.b,
    ;
    best_class_is_first_of_largest(grid.data[y][x], grid.d);
}

} // verus!
