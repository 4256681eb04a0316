//! Comparison of computed arrays with recorded ones, and the tally of such checks.
use crate::plain::same_shape;
use crate::scalar::Scalar;
use vstd::prelude::*;

verus! {

/// The checks made so far and the names of those that failed.
#[derive(Debug)]
pub struct Report {
    pub failures: Vec<String>,
    pub checks: usize,
}

/// An array to compare: its shape, and its members in row-major order.
pub struct Compared<'a, T> {
    pub shape: &'a [usize],
    pub data: &'a [T],
}

/// What came of comparing two arrays of numbers.
#[derive(Debug, Clone, Copy)]
pub enum Outcome<S> {
    ShapeMismatch,
    /// A member, by its position, is no number in one of the arrays.
    NotANumber { at: usize },
    /// Every member is within its tolerance.
    Within { max_abs: S, max_rel: S },
    /// So many members are not; the one that is furthest beyond its tolerance is at `worst`.
    Beyond { violations: usize, worst: usize, max_abs: S, max_rel: S },
}

impl<S> Outcome<S> {
    pub open spec fn passes(self) -> bool {
        self is Within
    }
}

/// What came of comparing two arrays of integers.
#[derive(Debug, Clone, Copy, PartialEq, Eq, Structural)]
pub enum ExactOutcome {
    ShapeMismatch,
    /// All members agree.
    Equal { count: usize },
    /// So many differ, the first at this position.
    Different { violations: usize, first: usize },
}

impl ExactOutcome {
    pub open spec fn passes(self) -> bool {
        self is Equal
    }
}

/// What is carried along the members.
pub ghost struct Tally<S> {
    pub violations: nat,
    pub max_abs: S,
    pub max_rel: S,
    /// How far the worst member is beyond its tolerance.
    pub excess: S,
    pub worst: nat,
}

/// The distance of two numbers.
pub open spec fn error_of<S: Scalar>(got: S, want: S) -> S {
    got.spec_minus(want).spec_abs()
}

/// The tolerance of a recorded number: `atol + rtol |want|`.
pub open spec fn tolerance_of<S: Scalar>(want: S, rtol: S, atol: S) -> S {
    atol.spec_plus(rtol.spec_times(want.spec_abs()))
}

/// The member is beyond its tolerance.
pub open spec fn beyond<S: Scalar>(got: S, want: S, rtol: S, atol: S) -> bool {
    tolerance_of(want, rtol, atol).spec_less(error_of(got, want))
}

/// The tally over the first `i` members.
pub open spec fn tally_of<S: Scalar>(got: Seq<S>, want: Seq<S>, rtol: S, atol: S, i: nat) -> Tally<S>
    decreases i,
{
    if i == 0 {
        Tally {
            violations: 0,
            max_abs: S::spec_zero(),
            max_rel: S::spec_zero(),
            excess: S::spec_neg_infinity(),
            worst: 0,
        }
    } else {
        let before = tally_of(got, want, rtol, atol, (i - 1) as nat);
        let g = got[i - 1];
        let w = want[i - 1];
        let err = error_of(g, w);
        let max_abs = before.max_abs.spec_max(err);
        let max_rel = if w.spec_same(S::spec_zero()) {
            before.max_rel
        } else {
            before.max_rel.spec_max(err.spec_over(w.spec_abs()))
        };
        if beyond(g, w, rtol, atol) {
            let excess = err.spec_minus(tolerance_of(w, rtol, atol));
            let worse = before.excess.spec_less(excess);
            Tally {
                violations: before.violations + 1,
                max_abs,
                max_rel,
                excess: if worse {
                    excess
                } else {
                    before.excess
                },
                worst: if worse {
                    (i - 1) as nat
                } else {
                    before.worst
                },
            }
        } else {
            Tally { max_abs, max_rel, ..before }
        }
    }
}

/// Member `i` is no number in one of the arrays.
pub open spec fn not_a_number<S: Scalar>(got: Seq<S>, want: Seq<S>, i: int) -> bool {
    got[i].spec_is_nan() || want[i].spec_is_nan()
}

/// What comes of comparing two arrays of numbers.
pub open spec fn outcome_is<S: Scalar>(
    got_shape: Seq<usize>,
    got: Seq<S>,
    want_shape: Seq<usize>,
    want: Seq<S>,
    rtol: S,
    atol: S,
    outcome: Outcome<S>,
) -> bool {
    let total = tally_of(got, want, rtol, atol, want.len());
    match outcome {
        Outcome::ShapeMismatch => got_shape != want_shape,
        Outcome::NotANumber { at } => {
            &&& got_shape == want_shape
            &&& at < want.len()
            &&& not_a_number(got, want, at as int)
            &&& forall|i: int| 0 <= i < at ==> !#[trigger] not_a_number(got, want, i)
        },
        Outcome::Within { max_abs, max_rel } => {
            &&& got_shape == want_shape
            &&& forall|i: int| 0 <= i < want.len() ==> !#[trigger] not_a_number(got, want, i)
            &&& total.violations == 0
            &&& max_abs == total.max_abs
            &&& max_rel == total.max_rel
        },
        Outcome::Beyond { violations, worst, max_abs, max_rel } => {
            &&& got_shape == want_shape
            &&& forall|i: int| 0 <= i < want.len() ==> !#[trigger] not_a_number(got, want, i)
            &&& total.violations > 0
            &&& violations == total.violations
            &&& worst == total.worst
            &&& max_abs == total.max_abs
            &&& max_rel == total.max_rel
        },
    }
}

/// How many of the first `i` members differ.
pub open spec fn differences(got: Seq<i64>, want: Seq<i64>, i: nat) -> nat
    decreases i,
{
    if i == 0 {
        0
    } else {
        differences(got, want, (i - 1) as nat) + (if got[i - 1] == want[i - 1] {
            0nat
        } else {
            1
        })
    }
}

/// What comes of comparing two arrays of integers.
pub open spec fn exact_outcome_is(
    got_shape: Seq<usize>,
    got: Seq<i64>,
    want_shape: Seq<usize>,
    want: Seq<i64>,
    outcome: ExactOutcome,
) -> bool {
    match outcome {
        ExactOutcome::ShapeMismatch => got_shape != want_shape,
        ExactOutcome::Equal { count } => {
            &&& got_shape == want_shape
            &&& count == want.len()
            &&& got == want
        },
        ExactOutcome::Different { violations, first } => {
            &&& got_shape == want_shape
            &&& violations == differences(got, want, want.len())
            &&& first < want.len()
            &&& got[first as int] != want[first as int]
            &&& forall|i: int| 0 <= i < first ==> got[i] == want[i]
        },
    }
}

/// Tolerance of iteration `k`: one hundred-thousandth at the first, a hundred times that at the
/// last, growing geometrically in between.
pub open spec fn iter_tol_of<S: Scalar>(k: nat, k_total: nat) -> S {
    if k_total <= 1 {
        S::spec_decimal(1, -5)
    } else {
        let share = S::spec_from_count(k).spec_over(S::spec_from_count((k_total - 1) as nat));
        S::spec_decimal(1, -5).spec_times(S::spec_from_int(100).spec_pow(share))
    }
}

/// The widening tolerance of an iteration.
pub fn iter_tol<S: Scalar>(k: usize, k_total: usize) -> (r: S)
    ensures
        r == iter_tol_of::<S>(k as nat, k_total as nat),
{
    if k_total <= 1 {
        return S::decimal(1, -5);
    }
    let share = S::from_count(k).over(S::from_count(k_total - 1));
    S::decimal(1, -5).times(S::from_int(100).pow(share))
}

/// The position of a member along each axis of its array.
pub open spec fn index_at(position: nat, shape: Seq<usize>) -> Seq<usize>
    decreases shape.len(),
{
    if shape.len() == 0 {
        Seq::empty()
    } else {
        let extent = shape.last() as nat;
        index_at(position / extent, shape.drop_last()).push((position % extent) as usize)
    }
}

/// Finds the position of a member along each axis of its array.
pub fn index_of(position: usize, shape: &Vec<usize>) -> (r: Vec<usize>)
    requires
        forall|i: int| 0 <= i < shape@.len() ==> shape@[i] > 0,
    ensures
        r@ == index_at(position as nat, shape@),
{
    let mut rest = position;
    let mut out: Vec<usize> = Vec::new();
    let mut k = shape.len();
    assert(shape@.take(shape@.len() as int) =~= shape@);
    assert(index_at(position as nat, shape@) + out@ =~= index_at(position as nat, shape@));
    while k > 0
        invariant
            k <= shape@.len(),
            forall|i: int| 0 <= i < shape@.len() ==> shape@[i] > 0,
            index_at(rest as nat, shape@.take(k as int)) + out@ == index_at(position as nat, shape@),
        decreases k,
    {
        let ghost had = out@;
        let ghost head = shape@.take(k as int);
        k = k - 1;
        assert(head.drop_last() =~= shape@.take(k as int));
        let extent = shape[k];
        out.insert(0, rest % extent);
        assert(index_at(rest as nat, head) + had =~= index_at(
            (rest as nat) / (extent as nat),
            shape@.take(k as int),
        ) + out@);
        rest = rest / extent;
    }
    out
}

impl Report {
    pub fn new() -> (r: Self)
        ensures
            r.failures@.len() == 0,
            r.checks == 0,
    {
        Report { failures: Vec::new(), checks: 0 }
    }

    /// The report after one more check of this name.
    pub open spec fn noted(before: Report, after: Report, name: Seq<char>, passed: bool) -> bool {
        &&& after.checks == before.checks + 1
        &&& if passed {
            after.failures@ == before.failures@
        } else {
            &&& after.failures@.len() == before.failures@.len() + 1
            &&& after.failures@.take(before.failures@.len() as int) == before.failures@
            &&& after.failures@.last()@ == name
        }
    }

    /// Notes a check that passed.
    pub fn pass(&mut self)
        requires
            old(self).checks < usize::MAX,
        ensures
            Self::noted(*old(self), *final(self), Seq::empty(), true),
    {
        self.checks = self.checks + 1;
    }

    /// Notes a check that failed.
    pub fn fail(&mut self, name: &str)
        requires
            old(self).checks < usize::MAX,
        ensures
            Self::noted(*old(self), *final(self), name@, false),
    {
        self.checks = self.checks + 1;
        self.failures.push(name.to_owned());
        assert(self.failures@.take(old(self).failures@.len() as int) =~= old(self).failures@);
    }

    /// Compares member by member: `|got - want| <= atol + rtol |want|`. Tolerances of zero mean
    /// equality; a member that is no number fails, wherever it is.
    pub fn check_f32<S: Scalar>(
        &mut self,
        name: &str,
        got: &Compared<S>,
        want: &Compared<S>,
        rtol: S,
        atol: S,
    ) -> (r: Outcome<S>)
        requires
            old(self).checks < usize::MAX,
            got.shape@ == want.shape@ ==> got.data@.len() == want.data@.len(),
        ensures
            outcome_is(got.shape@, got.data@, want.shape@, want.data@, rtol, atol, r),
            Self::noted(*old(self), *final(self), name@, r.passes()),
    {
        if !same_shape(got.shape, want.shape) {
            self.fail(name);
            return Outcome::ShapeMismatch;
        }
        let zero = S::zero();
        let mut violations: usize = 0;
        let mut max_abs = zero;
        let mut max_rel = zero;
        let mut excess = S::neg_infinity();
        let mut worst: usize = 0;
        for i in 0..want.data.len()
            invariant
                *self == *old(self),
                old(self).checks < usize::MAX,
                got.shape@ == want.shape@,
                got.data@.len() == want.data@.len(),
                zero == S::spec_zero(),
                violations <= i,
                forall|j: int| 0 <= j < i ==> !#[trigger] not_a_number(got.data@, want.data@, j),
                (Tally {
                    violations: violations as nat,
                    max_abs,
                    max_rel,
                    excess,
                    worst: worst as nat,
                }) == tally_of(got.data@, want.data@, rtol, atol, i as nat),
        {
            let g = got.data[i];
            let w = want.data[i];
            if g.is_nan() || w.is_nan() {
                assert(not_a_number(got.data@, want.data@, i as int));
                self.fail(name);
                return Outcome::NotANumber { at: i };
            }
            let err = g.minus(w).abs();
            max_abs = max_abs.max(err);
            if !w.same(zero) {
                max_rel = max_rel.max(err.over(w.abs()));
            }
            let tolerance = atol.plus(rtol.times(w.abs()));
            if tolerance.less(err) {
                violations = violations + 1;
                let over = err.minus(tolerance);
                if excess.less(over) {
                    excess = over;
                    worst = i;
                }
            }
        }
        if violations == 0 {
            self.pass();
            Outcome::Within { max_abs, max_rel }
        } else {
            self.fail(name);
            Outcome::Beyond { violations, worst, max_abs, max_rel }
        }
    }

    /// Compares integers member by member.
    pub fn check_i64(&mut self, name: &str, got: &Compared<i64>, want: &Compared<i64>) -> (r: ExactOutcome)
        requires
            old(self).checks < usize::MAX,
            got.shape@ == want.shape@ ==> got.data@.len() == want.data@.len(),
        ensures
            exact_outcome_is(got.shape@, got.data@, want.shape@, want.data@, r),
            Self::noted(*old(self), *final(self), name@, r.passes()),
    {
        if !same_shape(got.shape, want.shape) {
            self.fail(name);
            return ExactOutcome::ShapeMismatch;
        }
        let mut violations: usize = 0;
        let mut first: Option<usize> = None;
        for i in 0..want.data.len()
            invariant
                *self == *old(self),
                old(self).checks < usize::MAX,
                got.shape@ == want.shape@,
                got.data@.len() == want.data@.len(),
                violations <= i,
                violations == differences(got.data@, want.data@, i as nat),
                match first {
                    Some(f) => {
                        &&& f < i
                        &&& got.data@[f as int] != want.data@[f as int]
                        &&& forall|j: int| 0 <= j < f ==> got.data@[j] == want.data@[j]
                        &&& violations > 0
                    },
                    None => violations == 0 && forall|j: int| 0 <= j < i ==> got.data@[j] == want.data@[j],
                },
        {
            if got.data[i] != want.data[i] {
                violations = violations + 1;
                if first.is_none() {
                    first = Some(i);
                }
            }
        }
        match first {
            None => {
                assert(got.data@ =~= want.data@);
                self.pass();
                ExactOutcome::Equal { count: want.data.len() }
            },
            Some(f) => {
                self.fail(name);
                ExactOutcome::Different { violations, first: f }
            },
        }
    }

    /// Whether nothing failed.
    pub fn all_passed(&self) -> (r: bool)
        ensures
            r == (self.failures@.len() == 0),
    {
        self.failures.len() == 0
    }
}

/// The worst of some members is one of them.
pub proof fn worst_inside<S: Scalar>(got: Seq<S>, want: Seq<S>, rtol: S, atol: S, i: nat)
    ensures
        i > 0 ==> tally_of(got, want, rtol, atol, i).worst < i,
        tally_of(got, want, rtol, atol, i).violations > 0 ==> i > 0,
    decreases i,
{
    if i > 0 {
        worst_inside(got, want, rtol, atol, (i - 1) as nat);
    }
}

proof fn tally_counts<S: Scalar>(got: Seq<S>, want: Seq<S>, rtol: S, atol: S, i: nat)
    ensures
        tally_of(got, want, rtol, atol, i).violations == 0 <==> forall|j: int|
            0 <= j < i ==> !#[trigger] beyond(got[j], want[j], rtol, atol),
    decreases i,
{
    if i > 0 {
        tally_counts(got, want, rtol, atol, (i - 1) as nat);
        if tally_of(got, want, rtol, atol, i).violations == 0 {
            assert forall|j: int| 0 <= j < i implies !#[trigger] beyond(got[j], want[j], rtol, atol) by {}
        } else {
            if !beyond(got[i - 1], want[i - 1], rtol, atol) {
                let j = choose|j: int| 0 <= j < i - 1 && #[trigger] beyond(got[j], want[j], rtol, atol);
                assert(beyond(got[j], want[j], rtol, atol));
            }
        }
    }
}

/// A comparison passes exactly where the shapes agree, every member is a number in both
/// arrays, and none is beyond its tolerance.
pub proof fn comparison_passes_iff<S: Scalar>(
    got_shape: Seq<usize>,
    got: Seq<S>,
    want_shape: Seq<usize>,
    want: Seq<S>,
    rtol: S,
    atol: S,
    outcome: Outcome<S>,
)
    requires
        outcome_is(got_shape, got, want_shape, want, rtol, atol, outcome),
    ensures
        outcome.passes() <==> {
            &&& got_shape == want_shape
            &&& forall|i: int|
                0 <= i < want.len() ==> !(#[trigger] not_a_number(got, want, i)) && !beyond(
                    got[i],
                    want[i],
                    rtol,
                    atol,
                )
        },
{
    tally_counts(got, want, rtol, atol, want.len());
    if outcome.passes() {
        assert forall|i: int| 0 <= i < want.len() implies !(#[trigger] not_a_number(got, want, i)) && !beyond(
            got[i],
            want[i],
            rtol,
            atol,
        ) by {}
    } else {
        match outcome {
            Outcome::Beyond { .. } => {
                let j = choose|j: int| 0 <= j < want.len() && #[trigger] beyond(got[j], want[j], rtol, atol);
                assert(!not_a_number(got, want, j));
            },
            _ => {},
        }
    }
}

} // verus!
