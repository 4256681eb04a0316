//! Reading classes off logits: the best class of every cell.
use crate::laws::readout::{best_class_is_first_of_largest, first_of_largest, ranks_logits};
use crate::scalar::Scalar;
use crate::tensor::{Arr2, Arr3, Matrix, Tensor3};
use vstd::prelude::*;

verus! {

/// The best of the first `c` classes and its logit: the first of the largest, class 0
/// where none is above the lower bound of all numbers.
pub open spec fn best_of<S: Scalar>(row: Seq<S>, c: nat) -> (int, S)
    decreases c,
{
    if c == 0 {
        (0, S::spec_neg_infinity())
    } else {
        let (arg, best) = best_of(row, (c - 1) as nat);
        if best.spec_less(row[c - 1]) {
            (c - 1, row[c - 1])
        } else {
            (arg, best)
        }
    }
}

/// The best class of every cell, row-major.
pub open spec fn frame_of<S: Scalar>(grid: Arr3<S>) -> Seq<u8> {
    Seq::new(
        grid.n * grid.b,
        |p: int| (best_of(grid.data[p / grid.b as int][p % grid.b as int], grid.d).0 % 256) as u8,
    )
}

/// The best of the first `classes` classes of every cell.
pub open spec fn classes_of<S: Scalar>(grid: Arr3<S>, classes: nat) -> Arr2<i64> {
    Arr2::build(grid.n, grid.b, |y: int, x: int| best_of(grid.data[y][x], classes).0 as i64)
}

/// Finds the best of the first `classes` classes.
pub fn best_class<S: Scalar>(row: &[S], classes: usize) -> (r: usize)
    requires
        classes <= row@.len(),
    ensures
        r == best_of(row@, classes as nat).0,
        r <= classes,
        classes > 0 && ranks_logits(row@, classes as nat) ==> first_of_largest(row@, classes as nat, r as int),
{
    let mut arg: usize = 0;
    let mut best = S::neg_infinity();
    for c in 0..classes
        invariant
            classes <= row@.len(),
            arg <= c,
            (arg as int, best) == best_of(row@, c as nat),
    {
        if best.less(row[c]) {
            best = row[c];
            arg = c;
        }
    }
    proof {
        if classes > 0 && ranks_logits(row@, classes as nat) {
            best_class_is_first_of_largest(row@, classes as nat);
        }
    }
    arg
}

/// Computes the best class of every cell.
pub fn argmax_frame<S: Scalar>(grid: &Tensor3<S>) -> (r: Vec<u8>)
    requires
        grid.wf(),
        grid@.n * grid@.b <= usize::MAX,
    ensures
        r@ == frame_of(grid@),
{
    let (h, w, classes) = grid.dim();
    let mut out: Vec<u8> = Vec::new();
    for p in 0..h * w
        invariant
            grid.wf(),
            h == grid@.n,
            w == grid@.b,
            classes == grid@.d,
            h * w <= usize::MAX,
            out@.len() == p,
            forall|q: int|
                0 <= q < p ==> #[trigger] out@[q] == (best_of(
                    grid@.data[q / w as int][q % w as int],
                    classes as nat,
                ).0 % 256) as u8,
    {
        assert(0 < w && p as int / w as int >= 0 && (p as int / w as int) < h) by (nonlinear_arith)
            requires
                0 <= p < h * w,
                0 <= w,
        ;
        assert(grid@.data[p as int / w as int][p as int % w as int].len() == grid@.d);
        let arg = best_class(grid.row(p / w, p % w), classes);
        out.push((arg % 256) as u8);
    }
    assert(out@ =~= frame_of(grid@));
    out
}

/// Computes the best of the first `classes` classes of every cell, as a token grid.
pub fn argmax_grid<S: Scalar>(grid: &Tensor3<S>, classes: usize) -> (r: Matrix<i64>)
    requires
        grid.wf(),
        classes <= grid@.d,
        classes <= i64::MAX,
    ensures
        r.wf(),
        r@ == classes_of(grid@, classes as nat),
{
    let (h, w, _d) = grid.dim();
    Matrix::from_shape_fn(
        h,
        w,
        |y: usize, x: usize| -> (v: i64)
            requires
                grid.wf(),
                classes <= grid@.d,
                classes <= i64::MAX,
                y < grid@.n,
                x < grid@.b,
            ensures
                v == best_of(grid@.data[y as int][x as int], classes as nat).0 as i64
            {
                assert(grid@.data[y as int][x as int].len() == grid@.d);
                best_class(grid.row(y, x), classes) as i64
            },
    )
}

} // verus!
