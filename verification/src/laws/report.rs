//! What a comparison says: which members count as beyond their tolerance, which of them is the
//! worst, and how large the errors are.
use crate::report::{
    beyond, comparison_passes_iff, index_at, iter_tol_of, not_a_number, outcome_is, tally_of, Outcome,
};
use crate::scalar::Scalar;
use vstd::prelude::*;

verus! {

/// How far a member is beyond `atol + rtol |want|`.
pub open spec fn excess_at<S: Scalar>(got: Seq<S>, want: Seq<S>, rtol: S, atol: S, i: int) -> S {
    got[i].spec_minus(want[i]).spec_abs().spec_minus(atol.spec_plus(rtol.spec_times(want[i].spec_abs())))
}

/// Member `i` is off by more than `atol + rtol |want|`.
pub open spec fn off_by_more<S: Scalar>(got: Seq<S>, want: Seq<S>, rtol: S, atol: S, i: int) -> bool {
    atol.spec_plus(rtol.spec_times(want[i].spec_abs())).spec_less(got[i].spec_minus(want[i]).spec_abs())
}

/// Member `i` is a number in both arrays, and differs by no more than `atol + rtol |want|`.
pub open spec fn close_at<S: Scalar>(got: Seq<S>, want: Seq<S>, rtol: S, atol: S, i: int) -> bool {
    !got[i].spec_is_nan() && !want[i].spec_is_nan() && !off_by_more(got, want, rtol, atol, i)
}

/// Every member is close to what was recorded.
pub open spec fn all_close<S: Scalar>(got: Seq<S>, want: Seq<S>, rtol: S, atol: S) -> bool {
    forall|i: int| 0 <= i < want.len() ==> #[trigger] close_at(got, want, rtol, atol, i)
}

/// A comparison passes exactly where the shapes agree and each member is a number in both
/// arrays that differs by no more than `atol + rtol |want|`.
pub proof fn passing_arrays_are_close<S: Scalar>(
    got_shape: Seq<usize>,
    got: Seq<S>,
    want_shape: Seq<usize>,
    want: Seq<S>,
    rtol: S,
    atol: S,
    outcome: Outcome<S>,
)
    requires
        outcome_is(got_shape, got, want_shape, want, rtol, atol, outcome),
    ensures
        outcome is Within <==> got_shape == want_shape && all_close(got, want, rtol, atol),
        outcome is ShapeMismatch <==> got_shape != want_shape,
        outcome matches Outcome::NotANumber { at } ==> at < want.len() && (got[at as int].spec_is_nan()
            || want[at as int].spec_is_nan()),
{
    comparison_passes_iff(got_shape, got, want_shape, want, rtol, atol, outcome);
    if outcome is Within {
        assert forall|i: int| 0 <= i < want.len() implies close_at(got, want, rtol, atol, i) by {
            assert(!not_a_number(got, want, i));
        }
        assert(all_close(got, want, rtol, atol));
    }
    if got_shape == want_shape && all_close(got, want, rtol, atol) {
        assert forall|i: int| 0 <= i < want.len() implies !(#[trigger] not_a_number(got, want, i)) && !beyond(
            got[i],
            want[i],
            rtol,
            atol,
        ) by {
            assert(close_at(got, want, rtol, atol, i));
        }
        assert(outcome.passes());
    }
}

/// The order ranks what the first `n` members are beyond their tolerances by: what is below
/// one of two is below the other or the other is below that one, no two are each below the
/// other, and what counts as beyond is above the lower bound.
pub open spec fn ranks_excess<S: Scalar>(got: Seq<S>, want: Seq<S>, rtol: S, atol: S, n: nat) -> bool {
    &&& forall|i: int, j: int|
        0 <= i < n && 0 <= j < n && (#[trigger] excess_at(got, want, rtol, atol, i)).spec_less(
            #[trigger] excess_at(got, want, rtol, atol, j),
        ) ==> !excess_at(got, want, rtol, atol, j).spec_less(excess_at(got, want, rtol, atol, i))
    &&& forall|i: int, j: int, k: int|
        0 <= i < n && 0 <= j < n && 0 <= k < n && (#[trigger] excess_at(got, want, rtol, atol, i)).spec_less(
            #[trigger] excess_at(got, want, rtol, atol, j),
        ) ==> (#[trigger] excess_at(got, want, rtol, atol, k)).spec_less(excess_at(got, want, rtol, atol, j))
            || excess_at(got, want, rtol, atol, i).spec_less(excess_at(got, want, rtol, atol, k))
    &&& forall|i: int|
        0 <= i < n && #[trigger] off_by_more(got, want, rtol, atol, i) ==> S::spec_neg_infinity().spec_less(
            excess_at(got, want, rtol, atol, i),
        )
}

/// Member `w` is the first of those furthest beyond their tolerances among the first `n`.
pub open spec fn first_of_worst<S: Scalar>(got: Seq<S>, want: Seq<S>, rtol: S, atol: S, n: nat, w: int) -> bool {
    &&& 0 <= w < n
    &&& off_by_more(got, want, rtol, atol, w)
    &&& forall|j: int|
        0 <= j < n && #[trigger] off_by_more(got, want, rtol, atol, j) ==> !excess_at(
            got,
            want,
            rtol,
            atol,
            w,
        ).spec_less(excess_at(got, want, rtol, atol, j))
    &&& forall|j: int|
        0 <= j < w && #[trigger] off_by_more(got, want, rtol, atol, j) ==> excess_at(
            got,
            want,
            rtol,
            atol,
            j,
        ).spec_less(excess_at(got, want, rtol, atol, w))
}

/// How many of the first `n` members are beyond their tolerances.
pub open spec fn how_many_off<S: Scalar>(got: Seq<S>, want: Seq<S>, rtol: S, atol: S, n: nat) -> nat {
    Seq::new(n, |i: int| i).filter(|i: int| off_by_more(got, want, rtol, atol, i)).len()
}

proof fn worst_so_far<S: Scalar>(got: Seq<S>, want: Seq<S>, rtol: S, atol: S, n: nat)
    requires
        ranks_excess(got, want, rtol, atol, n),
    ensures
        ({
            let t = tally_of(got, want, rtol, atol, n);
            if t.violations == 0 {
                &&& t.excess == S::spec_neg_infinity()
                &&& forall|j: int| 0 <= j < n ==> !#[trigger] off_by_more(got, want, rtol, atol, j)
            } else {
                &&& first_of_worst(got, want, rtol, atol, n, t.worst as int)
                &&& t.excess == excess_at(got, want, rtol, atol, t.worst as int)
            }
        }),
    decreases n,
{
    if n > 0 {
        let m = (n - 1) as nat;
        worst_so_far(got, want, rtol, atol, m);
        let t = tally_of(got, want, rtol, atol, m);
        assert(beyond(got[m as int], want[m as int], rtol, atol) == off_by_more(got, want, rtol, atol, m as int));
        let e = excess_at(got, want, rtol, atol, m as int);
        if off_by_more(got, want, rtol, atol, m as int) && t.violations > 0 {
            let w = t.worst as int;
            let old = excess_at(got, want, rtol, atol, w);
            if old.spec_less(e) {
                assert forall|j: int| 0 <= j < m && #[trigger] off_by_more(got, want, rtol, atol, j) implies excess_at(
                    got,
                    want,
                    rtol,
                    atol,
                    j,
                ).spec_less(e) by {
                    let x = excess_at(got, want, rtol, atol, j);
                    assert(!old.spec_less(x));
                }
                assert(!e.spec_less(e));
            }
        }
    }
}

proof fn count_so_far<S: Scalar>(got: Seq<S>, want: Seq<S>, rtol: S, atol: S, n: nat)
    ensures
        tally_of(got, want, rtol, atol, n).violations == how_many_off(got, want, rtol, atol, n),
    decreases n,
{
    let all = Seq::new(n, |i: int| i);
    let off = |i: int| off_by_more(got, want, rtol, atol, i);
    reveal(Seq::filter);
    if n > 0 {
        let m = (n - 1) as nat;
        count_so_far(got, want, rtol, atol, m);
        assert(all.drop_last() =~= Seq::new(m, |i: int| i));
        assert(beyond(got[m as int], want[m as int], rtol, atol) == off_by_more(got, want, rtol, atol, m as int));
    }
}

/// A comparison that does not pass counts the members that are off by more than their
/// tolerances, and names the first of those that are off by the most.
pub proof fn the_worst_member_is_named<S: Scalar>(
    got_shape: Seq<usize>,
    got: Seq<S>,
    want_shape: Seq<usize>,
    want: Seq<S>,
    rtol: S,
    atol: S,
    outcome: Outcome<S>,
)
    requires
        outcome_is(got_shape, got, want_shape, want, rtol, atol, outcome),
    ensures
        outcome matches Outcome::Beyond { violations, worst, .. } ==> {
            &&& violations == how_many_off(got, want, rtol, atol, want.len())
            &&& ranks_excess(got, want, rtol, atol, want.len()) ==> first_of_worst(
                got,
                want,
                rtol,
                atol,
                want.len(),
                worst as int,
            )
        },
{
    count_so_far(got, want, rtol, atol, want.len());
    if ranks_excess(got, want, rtol, atol, want.len()) {
        worst_so_far(got, want, rtol, atol, want.len());
    }
}

/// The larger of two numbers is one of them, below neither, and the order ranks numbers.
pub open spec fn maxima_rank<S: Scalar>() -> bool {
    &&& !S::spec_zero().spec_is_nan()
    &&& !S::spec_zero().spec_less(S::spec_zero())
    &&& forall|a: S, b: S|
        !a.spec_is_nan() && !b.spec_is_nan() ==> {
            let m = #[trigger] a.spec_max(b);
            (m == a || m == b) && !m.spec_less(a) && !m.spec_less(b)
        }
    &&& forall|a: S, b: S, c: S|
        !a.spec_is_nan() && !b.spec_is_nan() && !c.spec_is_nan() && #[trigger] a.spec_less(b)
            ==> (#[trigger] a.spec_less(c)) || c.spec_less(b)
}

/// The error of member `i`.
pub open spec fn abs_error<S: Scalar>(got: Seq<S>, want: Seq<S>, i: int) -> S {
    got[i].spec_minus(want[i]).spec_abs()
}

/// The error of member `i` as a part of what was recorded.
pub open spec fn rel_error<S: Scalar>(got: Seq<S>, want: Seq<S>, i: int) -> S {
    got[i].spec_minus(want[i]).spec_abs().spec_over(want[i].spec_abs())
}

proof fn largest_so_far<S: Scalar>(got: Seq<S>, want: Seq<S>, rtol: S, atol: S, n: nat)
    requires
        maxima_rank::<S>(),
        forall|i: int| 0 <= i < n ==> !(#[trigger] abs_error(got, want, i)).spec_is_nan(),
        forall|i: int|
            0 <= i < n && !want[i].spec_same(S::spec_zero()) ==> !(#[trigger] rel_error(
                got,
                want,
                i,
            )).spec_is_nan(),
    ensures
        ({
            let t = tally_of(got, want, rtol, atol, n);
            &&& !t.max_abs.spec_is_nan()
            &&& !t.max_rel.spec_is_nan()
            &&& t.max_abs == S::spec_zero() || exists|i: int|
                0 <= i < n && t.max_abs == #[trigger] abs_error(got, want, i)
            &&& t.max_rel == S::spec_zero() || exists|i: int|
                0 <= i < n && !want[i].spec_same(S::spec_zero()) && t.max_rel == #[trigger] rel_error(
                    got,
                    want,
                    i,
                )
            &&& forall|i: int| 0 <= i < n ==> !t.max_abs.spec_less(#[trigger] abs_error(got, want, i))
            &&& forall|i: int|
                0 <= i < n && !want[i].spec_same(S::spec_zero()) ==> !t.max_rel.spec_less(
                    #[trigger] rel_error(got, want, i),
                )
        }),
    decreases n,
{
    if n > 0 {
        let m = (n - 1) as nat;
        largest_so_far(got, want, rtol, atol, m);
        let t = tally_of(got, want, rtol, atol, m);
        let u = tally_of(got, want, rtol, atol, n);
        let a = abs_error(got, want, m as int);
        let r = rel_error(got, want, m as int);
        assert(u.max_abs == t.max_abs.spec_max(a));
        assert forall|i: int| 0 <= i < n implies !u.max_abs.spec_less(#[trigger] abs_error(got, want, i)) by {
            let x = abs_error(got, want, i);
            if i < m && u.max_abs.spec_less(x) {
                assert(u.max_abs.spec_less(t.max_abs) || t.max_abs.spec_less(x));
            }
        }
        if !want[m as int].spec_same(S::spec_zero()) {
            assert(u.max_rel == t.max_rel.spec_max(r));
        }
        assert forall|i: int| 0 <= i < n && !want[i].spec_same(S::spec_zero()) implies !u.max_rel.spec_less(
            #[trigger] rel_error(got, want, i),
        ) by {
            let x = rel_error(got, want, i);
            if i < m && !want[m as int].spec_same(S::spec_zero()) && u.max_rel.spec_less(x) {
                assert(u.max_rel.spec_less(t.max_rel) || t.max_rel.spec_less(x));
            }
        }
    }
}

/// The reported errors are those of some members, or zero, and no member's is larger; relative
/// errors are taken of members recorded as other than zero.
pub proof fn reported_errors_are_largest<S: Scalar>(
    got_shape: Seq<usize>,
    got: Seq<S>,
    want_shape: Seq<usize>,
    want: Seq<S>,
    rtol: S,
    atol: S,
    outcome: Outcome<S>,
    max_abs: S,
    max_rel: S,
)
    requires
        outcome_is(got_shape, got, want_shape, want, rtol, atol, outcome),
        match outcome {
            Outcome::Within { max_abs: a, max_rel: r } => a == max_abs && r == max_rel,
            Outcome::Beyond { max_abs: a, max_rel: r, .. } => a == max_abs && r == max_rel,
            _ => false,
        },
        maxima_rank::<S>(),
        forall|i: int| 0 <= i < want.len() ==> !(#[trigger] abs_error(got, want, i)).spec_is_nan(),
        forall|i: int|
            0 <= i < want.len() && !want[i].spec_same(S::spec_zero()) ==> !(#[trigger] rel_error(
                got,
                want,
                i,
            )).spec_is_nan(),
    ensures
        max_abs == S::spec_zero() || exists|i: int|
            0 <= i < want.len() && max_abs == #[trigger] abs_error(got, want, i),
        max_rel == S::spec_zero() || exists|i: int|
            0 <= i < want.len() && !want[i].spec_same(S::spec_zero()) && max_rel == #[trigger] rel_error(
                got,
                want,
                i,
            ),
        forall|i: int| 0 <= i < want.len() ==> !max_abs.spec_less(#[trigger] abs_error(got, want, i)),
        forall|i: int|
            0 <= i < want.len() && !want[i].spec_same(S::spec_zero()) ==> !max_rel.spec_less(
                #[trigger] rel_error(got, want, i),
            ),
{
    largest_so_far(got, want, rtol, atol, want.len());
}

/// The row-major position of a member.
pub open spec fn position_at(index: Seq<usize>, shape: Seq<usize>) -> int
    decreases shape.len(),
{
    if shape.len() == 0 {
        0
    } else {
        position_at(index.drop_last(), shape.drop_last()) * shape.last() + index.last()
    }
}

/// How many members an array of this shape has.
pub open spec fn member_total(shape: Seq<usize>) -> int
    decreases shape.len(),
{
    if shape.len() == 0 {
        1
    } else {
        member_total(shape.drop_last()) * shape.last()
    }
}

/// The index of a member lies inside the shape, and leads back to its position.
pub proof fn index_leads_back(position: nat, shape: Seq<usize>)
    requires
        position < member_total(shape),
    ensures
        index_at(position, shape).len() == shape.len(),
        forall|i: int| 0 <= i < shape.len() ==> #[trigger] index_at(position, shape)[i] < shape[i],
        position_at(index_at(position, shape), shape) == position,
    decreases shape.len(),
{
    if shape.len() > 0 {
        let extent = shape.last() as nat;
        let rest = shape.drop_last();
        let t = member_total(rest);
        if extent == 0 {
            assert(t * shape.last() == 0) by (nonlinear_arith)
                requires
                    shape.last() == 0,
            ;
        }
        assert(position / extent < t) by (nonlinear_arith)
            requires
                position < t * extent,
                extent > 0,
        ;
        index_leads_back(position / extent, rest);
        let index = index_at(position, shape);
        assert(index.drop_last() =~= index_at(position / extent, rest));
        assert(position % extent < extent);
        assert((position / extent) * extent + position % extent == position) by (nonlinear_arith)
            requires
                extent > 0,
        ;
        assert forall|i: int| 0 <= i < shape.len() implies #[trigger] index[i] < shape[i] by {
            if i < rest.len() {
                assert(index_at(position / extent, rest)[i] < rest[i]);
            }
        }
    }
}

/// Where a number to the power of zero is one and to the power of one is itself, the first
/// iteration has the tolerance of a single one, and the last a hundred times that.
pub proof fn tolerance_widens_a_hundredfold<S: Scalar>(k_total: nat)
    requires
        k_total > 1,
        forall|n: nat| n > 0 ==> (#[trigger] S::spec_from_count(n)).spec_over(S::spec_from_count(n))
            == S::spec_one() && S::spec_from_count(0).spec_over(S::spec_from_count(n)) == S::spec_zero(),
        forall|x: S| (#[trigger] x.spec_pow(S::spec_zero())) == S::spec_one(),
        forall|x: S| (#[trigger] x.spec_pow(S::spec_one())) == x,
        forall|x: S| (#[trigger] x.spec_times(S::spec_one())) == x,
    ensures
        iter_tol_of::<S>(0, k_total) == iter_tol_of::<S>(0, 1),
        iter_tol_of::<S>((k_total - 1) as nat, k_total) == iter_tol_of::<S>(0, 1).spec_times(
            S::spec_from_int(100),
        ),
        iter_tol_of::<S>(0, 1) == S::spec_decimal(1, -5),
{
    let n = (k_total - 1) as nat;
    assert(S::spec_from_count(n).spec_over(S::spec_from_count(n)) == S::spec_one());
}

} // verus!
