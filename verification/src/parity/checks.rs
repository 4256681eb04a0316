//! Single comparisons with recorded arrays, and their replay in order.
use crate::npz::{Npz, NpzData, NpzError};
use crate::plain::{Plain, PlainModel};
use crate::report::{exact_outcome_is, outcome_is, Compared, ExactOutcome, Outcome, Report};
use crate::scalar::Scalar;
use crate::tensor::copy_row;
use crate::weights::member_count;
use vstd::prelude::*;
use vstd::string::*;

verus! {

/// The two archives of a recorded run: its inputs, and what was computed from them.
#[derive(Debug, Clone, Copy, PartialEq, Eq, Structural)]
pub enum Archive {
    Batch,
    Trace,
}

/// The numbers that a computed array is compared with.
#[derive(Debug)]
pub enum Wanted<S> {
    /// A recorded array.
    Stored { archive: Archive, name: String },
    /// One slab of an array of the trace, along its first axis.
    Slab { name: String, index: usize },
    /// An array at hand.
    Given { array: Plain<S> },
}

/// One comparison.
#[allow(inconsistent_fields)]
#[derive(Debug)]
pub enum Check<S> {
    /// Integers, which have to be the recorded ones.
    Integers { name: String, got: Plain<i64>, archive: Archive, stored: String },
    /// Numbers, within one relative and absolute tolerance.
    Numbers { name: String, got: Plain<S>, want: Wanted<S>, tol: S },
    /// One number, bit for bit, with the first member of an array of the trace.
    Pattern { name: String, got: u32, stored: String },
    /// An array of the trace that cannot be had, or has another shape than the run asks for.
    Unfit { stored: String },
}

/// The contents of what an array is compared with.
pub ghost enum WantedModel<S> {
    Stored { archive: Archive, name: Seq<char> },
    Slab { name: Seq<char>, index: nat },
    Given { array: PlainModel<S> },
}

/// The contents of a comparison.
#[allow(inconsistent_fields)]
pub ghost enum CheckModel<S> {
    Integers { name: Seq<char>, got: PlainModel<i64>, archive: Archive, stored: Seq<char> },
    Numbers { name: Seq<char>, got: PlainModel<S>, want: WantedModel<S>, tol: S },
    Pattern { name: Seq<char>, got: u32, stored: Seq<char> },
    Unfit { stored: Seq<char> },
}

impl<S: Scalar> View for Wanted<S> {
    type V = WantedModel<S>;

    open spec fn view(&self) -> WantedModel<S> {
        match self {
            Wanted::Stored { archive, name } => WantedModel::Stored { archive: *archive, name: name@ },
            Wanted::Slab { name, index } => WantedModel::Slab { name: name@, index: *index as nat },
            Wanted::Given { array } => WantedModel::Given { array: array@ },
        }
    }
}

impl<S: Scalar> View for Check<S> {
    type V = CheckModel<S>;

    open spec fn view(&self) -> CheckModel<S> {
        match self {
            Check::Integers { name, got, archive, stored } => CheckModel::Integers {
                name: name@,
                got: got@,
                archive: *archive,
                stored: stored@,
            },
            Check::Numbers { name, got, want, tol } => CheckModel::Numbers {
                name: name@,
                got: got@,
                want: want@,
                tol: *tol,
            },
            Check::Pattern { name, got, stored } => CheckModel::Pattern {
                name: name@,
                got: *got,
                stored: stored@,
            },
            Check::Unfit { stored } => CheckModel::Unfit { stored: stored@ },
        }
    }
}

impl<S: Scalar> CheckModel<S> {
    /// The arrays have as many members as their shapes ask for.
    pub open spec fn wf(self) -> bool {
        match self {
            CheckModel::Integers { got, .. } => got.wf(),
            CheckModel::Numbers { got, want, .. } => got.wf() && (want matches WantedModel::Given { array }
                ==> array.wf()),
            _ => true,
        }
    }
}

/// What came of one comparison.
#[allow(inconsistent_fields)]
#[derive(Debug)]
pub enum Verdict<S> {
    Integers {
        got_shape: Vec<usize>,
        want_shape: Vec<usize>,
        outcome: ExactOutcome,
        /// The first members that differ.
        members: Option<(i64, i64)>,
    },
    Numbers {
        got_shape: Vec<usize>,
        want_shape: Vec<usize>,
        tol: S,
        outcome: Outcome<S>,
        /// The members that the outcome points at.
        members: Option<(S, S)>,
    },
    Pattern { got: u32, want: u32 },
}

/// A comparison that was made.
#[derive(Debug)]
pub struct Row<S> {
    pub name: String,
    pub verdict: Verdict<S>,
}

impl<S: Scalar> Row<S> {
    pub open spec fn passes(&self) -> bool {
        match &self.verdict {
            Verdict::Integers { outcome, .. } => outcome.passes(),
            Verdict::Numbers { outcome, .. } => outcome.passes(),
            Verdict::Pattern { got, want } => got == want,
        }
    }

    /// Whether the comparison passed.
    pub fn passed(&self) -> (r: bool)
        ensures
            r == self.passes(),
    {
        match &self.verdict {
            Verdict::Integers { outcome, .. } => matches!(outcome, ExactOutcome::Equal { .. }),
            Verdict::Numbers { outcome, .. } => matches!(outcome, Outcome::Within { .. }),
            Verdict::Pattern { got, want } => *got == *want,
        }
    }
}

/// What is wrong with a recorded array.
pub ghost enum Lack {
    Missing,
    WrongType,
    WrongShape,
}

/// An error names an array and what is wrong with it.
pub open spec fn error_says(error: NpzError, name: Seq<char>, lack: Lack) -> bool {
    match (error, lack) {
        (NpzError::Missing { name: n }, Lack::Missing) => n@ == name,
        (NpzError::WrongType { name: n }, Lack::WrongType) => n@ == name,
        (NpzError::WrongShape { name: n }, Lack::WrongShape) => n@ == name,
        _ => false,
    }
}

/// The numbers that patterns stand for.
pub open spec fn numbers_of<S: Scalar>(bits: Seq<u32>) -> Seq<S> {
    Seq::new(bits.len(), |i: int| S::spec_from_bits(bits[i]))
}

/// The recorded numbers of this name.
pub open spec fn numbers_in<S: Scalar>(npz: &Npz, name: Seq<char>) -> Result<PlainModel<S>, Lack> {
    match npz.entry(name) {
        None => Err(Lack::Missing),
        Some(e) => match e.data {
            NpzData::Single(bits) => Ok(PlainModel { shape: e.shape@, data: numbers_of(bits@) }),
            NpzData::Integer(_) => Err(Lack::WrongType),
        },
    }
}

/// The recorded integers of this name.
pub open spec fn integers_in(npz: &Npz, name: Seq<char>) -> Result<PlainModel<i64>, Lack> {
    match npz.entry(name) {
        None => Err(Lack::Missing),
        Some(e) => match e.data {
            NpzData::Integer(values) => Ok(PlainModel { shape: e.shape@, data: values@ }),
            NpzData::Single(_) => Err(Lack::WrongType),
        },
    }
}

/// A slab of an array along its first axis.
pub open spec fn slab_of<T>(a: PlainModel<T>, index: nat) -> Result<PlainModel<T>, Lack> {
    if a.shape.len() == 0 || index >= a.shape[0] {
        Err(Lack::WrongShape)
    } else {
        let m = member_count(a.shape.skip(1)) as int;
        Ok(PlainModel { shape: a.shape.skip(1), data: a.data.subrange(index * m, index * m + m) })
    }
}

pub open spec fn archive_of<'a>(archive: Archive, batch: &'a Npz, trace: &'a Npz) -> &'a Npz {
    match archive {
        Archive::Batch => batch,
        Archive::Trace => trace,
    }
}

/// The numbers that an array is compared with.
pub open spec fn wanted_of<S: Scalar>(want: WantedModel<S>, batch: &Npz, trace: &Npz) -> Result<
    PlainModel<S>,
    Lack,
> {
    match want {
        WantedModel::Stored { archive, name } => numbers_in(archive_of(archive, batch, trace), name),
        WantedModel::Slab { name, index } => match numbers_in::<S>(trace, name) {
            Ok(a) => slab_of(a, index),
            Err(lack) => Err(lack),
        },
        WantedModel::Given { array } => Ok(array),
    }
}

/// The name of the recorded array that a comparison needs.
pub open spec fn stored_name<S: Scalar>(check: CheckModel<S>) -> Seq<char> {
    match check {
        CheckModel::Integers { stored, .. } => stored,
        CheckModel::Numbers { want, .. } => match want {
            WantedModel::Stored { name, .. } => name,
            WantedModel::Slab { name, .. } => name,
            WantedModel::Given { .. } => Seq::empty(),
        },
        CheckModel::Pattern { stored, .. } => stored,
        CheckModel::Unfit { stored } => stored,
    }
}

/// Why a comparison cannot be made, where it cannot.
pub open spec fn lack_of<S: Scalar>(check: CheckModel<S>, batch: &Npz, trace: &Npz) -> Option<Lack> {
    match check {
        CheckModel::Integers { archive, stored, .. } => match integers_in(
            archive_of(archive, batch, trace),
            stored,
        ) {
            Ok(_) => None,
            Err(lack) => Some(lack),
        },
        CheckModel::Numbers { want, .. } => match wanted_of(want, batch, trace) {
            Ok(_) => None,
            Err(lack) => Some(lack),
        },
        CheckModel::Pattern { stored, .. } => match trace.entry(stored) {
            None => Some(Lack::Missing),
            Some(e) => match e.data {
                NpzData::Single(bits) => if bits@.len() == 0 {
                    Some(Lack::WrongShape)
                } else {
                    None
                },
                NpzData::Integer(_) => Some(Lack::WrongType),
            },
        },
        CheckModel::Unfit { stored } => match numbers_in::<S>(trace, stored) {
            Ok(_) => Some(Lack::WrongShape),
            Err(lack) => Some(lack),
        },
    }
}

/// The position that an outcome points at.
pub open spec fn pointed_at<S>(outcome: Outcome<S>) -> Option<usize> {
    match outcome {
        Outcome::NotANumber { at } => Some(at),
        Outcome::Beyond { worst, .. } => Some(worst),
        _ => None,
    }
}

/// The members at a position, where there is one.
pub open spec fn pair_at<T>(got: Seq<T>, want: Seq<T>, at: Option<usize>) -> Option<(T, T)> {
    match at {
        Some(i) => Some((got[i as int], want[i as int])),
        None => None,
    }
}

/// The row says what comes of the comparison.
pub open spec fn row_is<S: Scalar>(row: Row<S>, check: CheckModel<S>, batch: &Npz, trace: &Npz) -> bool {
    match (check, row.verdict) {
        (
            CheckModel::Integers { name, got, archive, stored },
            Verdict::Integers { got_shape, want_shape, outcome, members },
        ) => integers_in(archive_of(archive, batch, trace), stored) matches Ok(want) && {
            &&& row.name@ == name
            &&& got_shape@ == got.shape
            &&& want_shape@ == want.shape
            &&& exact_outcome_is(got.shape, got.data, want.shape, want.data, outcome)
            &&& members == pair_at(
                got.data,
                want.data,
                match outcome {
                    ExactOutcome::Different { first, .. } => Some(first),
                    _ => None,
                },
            )
        },
        (
            CheckModel::Numbers { name, got, want, tol },
            Verdict::Numbers { got_shape, want_shape, tol: t, outcome, members },
        ) => wanted_of(want, batch, trace) matches Ok(want) && {
            &&& row.name@ == name
            &&& got_shape@ == got.shape
            &&& want_shape@ == want.shape
            &&& t == tol
            &&& outcome_is(got.shape, got.data, want.shape, want.data, tol, tol, outcome)
            &&& members == pair_at(got.data, want.data, pointed_at(outcome))
        },
        (CheckModel::Pattern { name, got, stored }, Verdict::Pattern { got: g, want: w }) => {
            &&& row.name@ == name
            &&& g == got
            &&& trace.entry(stored) matches Some(e) && (e.data matches NpzData::Single(bits) && bits@.len() > 0
                && w == bits@[0])
        },
        _ => false,
    }
}

/// An array has as many members as its first axis has slabs, times those of a slab.
proof fn count_by_slabs(shape: Seq<usize>)
    requires
        shape.len() > 0,
    ensures
        member_count(shape) == shape[0] * member_count(shape.skip(1)),
    decreases shape.len(),
{
    let rest = shape.skip(1);
    if shape.len() == 1 {
        assert(shape.drop_last() =~= Seq::empty());
        assert(rest =~= Seq::empty());
        assert(member_count(shape.drop_last()) == 1);
        assert(1 * shape[0] as nat == shape[0] * 1) by (nonlinear_arith);
    } else {
        count_by_slabs(shape.drop_last());
        assert(shape.drop_last().skip(1) =~= rest.drop_last());
        let (a, b, c) = (shape[0] as nat, member_count(rest.drop_last()), shape.last() as nat);
        assert((a * b) * c == a * (b * c)) by (nonlinear_arith);
    }
}

/// Copies the numbers that patterns stand for, from `start` on.
fn read_numbers<S: Scalar>(bits: &Vec<u32>, start: usize, count: usize) -> (r: Vec<S>)
    requires
        start + count <= bits@.len(),
    ensures
        r@ == numbers_of::<S>(bits@).subrange(start as int, start + count),
{
    let size = bits.len();
    let mut out: Vec<S> = Vec::new();
    for i in 0..count
        invariant
            size == bits@.len(),
            start + count <= size,
            out@.len() == i,
            forall|j: int| 0 <= j < i ==> #[trigger] out@[j] == S::spec_from_bits(bits@[start + j]),
    {
        out.push(S::from_bits(bits[start + i]));
    }
    assert(out@ =~= numbers_of::<S>(bits@).subrange(start as int, start + count));
    out
}

/// Copies the extents after the first.
fn tail_of(shape: &Vec<usize>) -> (r: Vec<usize>)
    requires
        shape@.len() > 0,
    ensures
        r@ == shape@.skip(1),
{
    let mut out: Vec<usize> = Vec::new();
    for i in 1..shape.len()
        invariant
            shape@.len() > 0,
            out@ == shape@.subrange(1, i as int),
    {
        out.push(shape[i]);
        assert(out@ =~= shape@.subrange(1, i + 1));
    }
    assert(out@ =~= shape@.skip(1));
    out
}

/// Fetches recorded numbers.
pub fn fetch_numbers<S: Scalar>(npz: &Npz, name: &str) -> (r: Result<Plain<S>, NpzError>)
    requires
        npz.wf(),
    ensures
        match numbers_in::<S>(npz, name@) {
            Ok(a) => r matches Ok(array) && array@ == a && array@.wf(),
            Err(lack) => r matches Err(error) && error_says(error, name@, lack),
        },
{
    match npz.f32_bits(name) {
        Ok((shape, bits)) => {
            let data: Vec<S> = read_numbers(bits, 0, bits.len());
            assert(data@ =~= numbers_of::<S>(bits@));
            Ok(Plain { shape: copy_row(shape.as_slice()), data })
        },
        Err(error) => Err(error),
    }
}

/// Fetches a slab of recorded numbers.
fn fetch_slab<S: Scalar>(npz: &Npz, name: &str, index: usize) -> (r: Result<Plain<S>, NpzError>)
    requires
        npz.wf(),
    ensures
        match numbers_in::<S>(npz, name@) {
            Ok(a) => match slab_of(a, index as nat) {
                Ok(slab) => r matches Ok(array) && array@ == slab && array@.wf(),
                Err(lack) => r matches Err(error) && error_says(error, name@, lack),
            },
            Err(lack) => r matches Err(error) && error_says(error, name@, lack),
        },
{
    match npz.f32_bits(name) {
        Ok((shape, bits)) => {
            if shape.len() == 0 || index >= shape[0] {
                return Err(NpzError::WrongShape { name: name.to_owned() });
            }
            let slabs = shape[0];
            let m = bits.len() / slabs;
            proof {
                count_by_slabs(shape@);
                let count = member_count(shape@.skip(1));
                assert(bits@.len() == slabs * count);
                assert(m == count) by (nonlinear_arith)
                    requires
                        m == bits@.len() as int / slabs as int,
                        bits@.len() == slabs * count,
                        slabs > 0,
                ;
                assert(index * m + m <= bits@.len()) by (nonlinear_arith)
                    requires
                        bits@.len() == slabs * m,
                        index < slabs,
                        0 <= m,
                ;
            }
            let data: Vec<S> = read_numbers(bits, index * m, m);
            let array = Plain { shape: tail_of(shape), data };
            Ok(array)
        },
        Err(error) => Err(error),
    }
}

fn copied_shape(a: &Vec<usize>) -> (r: Vec<usize>)
    ensures
        r@ == a@,
{
    copy_row(a.as_slice())
}

/// Makes one comparison, and notes it.
fn run_check<S: Scalar>(report: &mut Report, check: &Check<S>, batch: &Npz, trace: &Npz) -> (r: Result<
    Row<S>,
    NpzError,
>)
    requires
        old(report).checks < usize::MAX,
        check@.wf(),
        batch.wf(),
        trace.wf(),
    ensures
        match lack_of(check@, batch, trace) {
            None => r matches Ok(row) && row_is(row, check@, batch, trace) && Report::noted(
                *old(report),
                *final(report),
                row.name@,
                row.passes(),
            ),
            Some(lack) => r matches Err(error) && error_says(error, stored_name(check@), lack)
                && *final(report) == *old(report),
        },
{
    match check {
        Check::Integers { name, got, archive, stored } => {
            let npz = match archive {
                Archive::Batch => batch,
                Archive::Trace => trace,
            };
            match npz.i64(stored.as_str()) {
                Ok((shape, values)) => {
                    let outcome = report.check_i64(
                        name.as_str(),
                        &Compared { shape: got.shape.as_slice(), data: got.data.as_slice() },
                        &Compared { shape: shape.as_slice(), data: values.as_slice() },
                    );
                    let members = match outcome {
                        ExactOutcome::Different { first, .. } => Some((got.data[first], values[first])),
                        _ => None,
                    };
                    let verdict = Verdict::Integers {
                        got_shape: copied_shape(&got.shape),
                        want_shape: copied_shape(shape),
                        outcome,
                        members,
                    };
                    Ok(Row { name: name.as_str().to_owned(), verdict })
                },
                Err(error) => Err(error),
            }
        },
        Check::Numbers { name, got, want, tol } => {
            let fetched: Result<Plain<S>, NpzError> = match want {
                Wanted::Stored { archive, name: stored } => {
                    let npz = match archive {
                        Archive::Batch => batch,
                        Archive::Trace => trace,
                    };
                    fetch_numbers(npz, stored.as_str())
                },
                Wanted::Slab { name: stored, index } => fetch_slab(trace, stored.as_str(), *index),
                Wanted::Given { array } => Ok(
                    Plain { shape: copied_shape(&array.shape), data: copy_row(array.data.as_slice()) },
                ),
            };
            match fetched {
                Ok(array) => {
                    let outcome = report.check_f32(
                        name.as_str(),
                        &Compared { shape: got.shape.as_slice(), data: got.data.as_slice() },
                        &Compared { shape: array.shape.as_slice(), data: array.data.as_slice() },
                        *tol,
                        *tol,
                    );
                    let at = match outcome {
                        Outcome::NotANumber { at } => Some(at),
                        Outcome::Beyond { worst, .. } => Some(worst),
                        _ => None,
                    };
                    proof {
                        crate::report::worst_inside(
                            got.data@,
                            array.data@,
                            *tol,
                            *tol,
                            array.data@.len(),
                        );
                    }
                    let members = match at {
                        Some(i) => Some((got.data[i], array.data[i])),
                        None => None,
                    };
                    let verdict = Verdict::Numbers {
                        got_shape: copied_shape(&got.shape),
                        want_shape: array.shape,
                        tol: *tol,
                        outcome,
                        members,
                    };
                    Ok(Row { name: name.as_str().to_owned(), verdict })
                },
                Err(error) => Err(error),
            }
        },
        Check::Pattern { name, got, stored } => {
            match trace.f32_bits(stored.as_str()) {
                Ok((_shape, bits)) => {
                    if bits.len() == 0 {
                        return Err(NpzError::WrongShape { name: stored.as_str().to_owned() });
                    }
                    let want = bits[0];
                    if *got == want {
                        report.pass();
                    } else {
                        report.fail(name.as_str());
                    }
                    Ok(Row { name: name.as_str().to_owned(), verdict: Verdict::Pattern { got: *got, want } })
                },
                Err(error) => Err(error),
            }
        },
        Check::Unfit { stored } => match trace.f32_bits(stored.as_str()) {
            Ok(_) => Err(NpzError::WrongShape { name: stored.as_str().to_owned() }),
            Err(error) => Err(error),
        },
    }
}

/// The comparisons that were made, in order, their tally, and why they ended early where they
/// did.
#[derive(Debug)]
pub struct Comparison<S> {
    pub rows: Vec<Row<S>>,
    pub report: Report,
    pub stopped: Option<NpzError>,
}

/// The names of those of the first `n` rows that failed.
pub open spec fn failed_names<S: Scalar>(rows: Seq<Row<S>>, n: nat) -> Seq<Seq<char>>
    decreases n,
{
    if n == 0 {
        Seq::empty()
    } else {
        let before = failed_names(rows, (n - 1) as nat);
        if rows[n - 1].passes() {
            before
        } else {
            before.push(rows[n - 1].name@)
        }
    }
}

impl<S: Scalar> Comparison<S> {
    /// The tally counts the rows and names those that failed, in order.
    pub open spec fn tallied(&self) -> bool {
        &&& self.report.checks == self.rows@.len()
        &&& self.report.failures@.map_values(|name: String| name@) == failed_names(
            self.rows@,
            self.rows@.len(),
        )
    }
}

/// The comparisons were made in order, up to the first that cannot be made.
pub open spec fn replayed<S: Scalar>(c: Comparison<S>, checks: Seq<CheckModel<S>>, batch: &Npz, trace: &Npz) -> bool {
    let n = c.rows@.len();
    &&& c.tallied()
    &&& n <= checks.len()
    &&& forall|i: int| 0 <= i < n ==> row_is(#[trigger] c.rows@[i], checks[i], batch, trace)
    &&& match c.stopped {
        None => n == checks.len(),
        Some(error) => n < checks.len() && (lack_of(checks[n as int], batch, trace) matches Some(lack)
            && error_says(error, stored_name(checks[n as int]), lack)),
    }
}

proof fn failed_names_prefix<S: Scalar>(a: Seq<Row<S>>, b: Seq<Row<S>>, n: nat)
    requires
        forall|i: int| 0 <= i < n ==> a[i] == b[i],
    ensures
        failed_names(a, n) == failed_names(b, n),
    decreases n,
{
    if n > 0 {
        failed_names_prefix(a, b, (n - 1) as nat);
    }
}

/// Makes the comparisons in order, up to the first whose recorded array cannot be had.
pub fn replay<S: Scalar>(checks: &Vec<Check<S>>, batch: &Npz, trace: &Npz) -> (r: Comparison<S>)
    requires
        batch.wf(),
        trace.wf(),
        forall|i: int| 0 <= i < checks@.len() ==> (#[trigger] checks@[i])@.wf(),
    ensures
        replayed(r, checks@.map_values(|c: Check<S>| c@), batch, trace),
{
    let ghost models = checks@.map_values(|c: Check<S>| c@);
    let mut report = Report::new();
    let mut rows: Vec<Row<S>> = Vec::new();
    assert(report.failures@.map_values(|name: String| name@) =~= failed_names(rows@, 0));
    for i in 0..checks.len()
        invariant
            batch.wf(),
            trace.wf(),
            models == checks@.map_values(|c: Check<S>| c@),
            forall|i: int| 0 <= i < checks@.len() ==> (#[trigger] checks@[i])@.wf(),
            rows@.len() == i,
            report.checks == i,
            report.failures@.map_values(|name: String| name@) == failed_names(rows@, i as nat),
            forall|j: int| 0 <= j < i ==> row_is(#[trigger] rows@[j], models[j], batch, trace),
    {
        let ghost had = report.failures@;
        let ghost before = rows@;
        assert(checks@[i as int]@.wf());
        assert(models[i as int] == checks@[i as int]@);
        match run_check(&mut report, &checks[i], batch, trace) {
            Ok(row) => {
                let ghost passed = row.passes();
                let ghost name = row.name@;
                rows.push(row);
                proof {
                    failed_names_prefix(before, rows@, i as nat);
                    let now = report.failures@.map_values(|name: String| name@);
                    let then = had.map_values(|name: String| name@);
                    if passed {
                        assert(now =~= then);
                    } else {
                        assert forall|j: int| 0 <= j < had.len() implies now[j] == then[j] by {
                            assert(report.failures@.take(had.len() as int)[j] == had[j]);
                        }
                        assert(now =~= then.push(name));
                    }
                }
            },
            Err(error) => {
                return Comparison { rows, report, stopped: Some(error) };
            },
        }
    }
    Comparison { rows, report, stopped: None }
}

} // verus!
