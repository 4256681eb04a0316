//! One example of a recorded run, as the figures draw it.
use crate::npz::{Npz, NpzError};
use crate::parity::{error_says, fetch_numbers, integers_in, numbers_in, Lack};
use crate::plain::{counts_by_rank, Plain, PlainModel};
use crate::scalar::Scalar;
use crate::tensor::{copy_row, Arr2, Arr3, Matrix, Tensor3};
use vstd::prelude::*;
use vstd::string::*;

verus! {

/// One example of a recorded run.
#[derive(Debug)]
pub struct RunHistory<S> {
    /// How many examples were recorded.
    pub batch_size: usize,
    /// Local proposals, `[K, N, d_v]`.
    pub x: Tensor3<S>,
    /// Consensus iterates, `[K, N, d_v]`.
    pub z: Tensor3<S>,
    /// `[K, N]`.
    pub primal: Matrix<S>,
    /// `[K, N]`.
    pub dual: Matrix<S>,
    /// One number for each iteration.
    pub consistency: Option<Vec<S>>,
    /// `[N, 2]`.
    pub centers: Option<Matrix<i64>>,
}

/// Why no example could be taken from an archive.
#[derive(Debug)]
pub enum HistoryError {
    /// A recorded array is missing, of the wrong type, or of the wrong rank.
    Array { error: NpzError },
    /// An array has other extents than the proposals ask for.
    Mismatch { name: String, found: Vec<usize>, wanted: Vec<usize> },
    BatchOutOfRange { batch: usize, size: usize },
}

/// The contents of one example.
pub ghost struct HistoryModel<S> {
    pub batch_size: nat,
    pub x: Arr3<S>,
    pub z: Arr3<S>,
    pub primal: Arr2<S>,
    pub dual: Arr2<S>,
    pub consistency: Option<Seq<S>>,
    pub centers: Option<Arr2<i64>>,
}

/// What is wrong with an archive.
pub ghost enum Trouble {
    Lacks { name: Seq<char>, lack: Lack },
    Mismatch { name: Seq<char>, found: Seq<usize>, wanted: Seq<usize> },
    Batch { size: nat },
}

/// An error says what is wrong.
pub open spec fn tells(error: HistoryError, trouble: Trouble, batch: usize) -> bool {
    match (error, trouble) {
        (HistoryError::Array { error }, Trouble::Lacks { name, lack }) => error_says(error, name, lack),
        (
            HistoryError::Mismatch { name: n, found: f, wanted: w },
            Trouble::Mismatch { name, found, wanted },
        ) => n@ == name && f@ == found && w@ == wanted,
        (HistoryError::BatchOutOfRange { batch: i, size: s }, Trouble::Batch { size }) => i == batch && s == size,
        _ => false,
    }
}

/// Recorded numbers of a given rank.
pub open spec fn ranked<S: Scalar>(npz: &Npz, name: Seq<char>, rank: nat) -> Result<PlainModel<S>, Trouble> {
    match numbers_in::<S>(npz, name) {
        Ok(a) => if a.shape.len() == rank {
            Ok(a)
        } else {
            Err(Trouble::Lacks { name, lack: Lack::WrongShape })
        },
        Err(lack) => Err(Trouble::Lacks { name, lack }),
    }
}

/// One example of an array with axes iterations, agents, examples and members.
pub open spec fn example3<S>(data: Seq<S>, k: nat, n: nat, b: nat, d: nat, batch: int) -> Arr3<S> {
    Arr3::build(k, n, d, |i: int, j: int, q: int| data[((i * n + j) * b + batch) * d + q])
}

/// One example of an array with axes iterations, agents and examples.
pub open spec fn example2<S>(data: Seq<S>, k: nat, n: nat, b: nat, batch: int) -> Arr2<S> {
    Arr2::build(k, n, |i: int, j: int| data[(i * n + j) * b + batch])
}

/// One example of an array with axes iterations and examples.
pub open spec fn example1<S>(data: Seq<S>, k: nat, b: nat, batch: int) -> Seq<S> {
    Seq::new(k, |i: int| data[i * b + batch])
}

/// The consistency of one example, where it was recorded.
pub open spec fn consistency_in<S: Scalar>(npz: &Npz, k: usize, b: usize, batch: int) -> Result<
    Option<Seq<S>>,
    Trouble,
> {
    if npz.entry("consistency"@) is None {
        Ok(None)
    } else {
        match ranked::<S>(npz, "consistency"@, 2) {
            Ok(a) => if a.shape == seq![k, b] {
                Ok(Some(example1(a.data, k as nat, b as nat, batch)))
            } else {
                Err(Trouble::Mismatch { name: "consistency"@, found: a.shape, wanted: seq![k, b] })
            },
            Err(trouble) => Err(trouble),
        }
    }
}

/// The agents' centers, where they were recorded.
pub open spec fn centers_in_archive(npz: &Npz, n: usize) -> Result<Option<Arr2<i64>>, Trouble> {
    if npz.entry("centers"@) is None {
        Ok(None)
    } else {
        match integers_in(npz, "centers"@) {
            Ok(a) => if a.shape.len() != 2 {
                Err(Trouble::Lacks { name: "centers"@, lack: Lack::WrongShape })
            } else if a.shape == seq![n, 2usize] {
                Ok(Some(Arr2::build(n as nat, 2, |i: int, q: int| a.data[i * 2 + q])))
            } else {
                Err(Trouble::Mismatch { name: "centers"@, found: a.shape, wanted: seq![n, 2usize] })
            },
            Err(lack) => Err(Trouble::Lacks { name: "centers"@, lack }),
        }
    }
}

/// One example of a recorded run, or the first thing that is wrong with the archive.
pub open spec fn history_in<S: Scalar>(npz: &Npz, batch: usize) -> Result<HistoryModel<S>, Trouble> {
    match (
        ranked::<S>(npz, "x"@, 4),
        ranked::<S>(npz, "z"@, 4),
        ranked::<S>(npz, "primal_res"@, 3),
        ranked::<S>(npz, "dual_res"@, 3),
    ) {
        (Err(trouble), _, _, _) => Err(trouble),
        (Ok(_), Err(trouble), _, _) => Err(trouble),
        (Ok(_), Ok(_), Err(trouble), _) => Err(trouble),
        (Ok(_), Ok(_), Ok(_), Err(trouble)) => Err(trouble),
        (Ok(x), Ok(z), Ok(primal), Ok(dual)) => {
            let (k, n, b, d) = (x.shape[0], x.shape[1], x.shape[2], x.shape[3]);
            if z.shape != x.shape {
                Err(Trouble::Mismatch { name: "z"@, found: z.shape, wanted: x.shape })
            } else if primal.shape != seq![k, n, b] {
                Err(Trouble::Mismatch { name: "primal_res"@, found: primal.shape, wanted: seq![k, n, b] })
            } else if dual.shape != seq![k, n, b] {
                Err(Trouble::Mismatch { name: "dual_res"@, found: dual.shape, wanted: seq![k, n, b] })
            } else if batch >= b {
                Err(Trouble::Batch { size: b as nat })
            } else {
                match (
                    consistency_in::<S>(npz, k, b, batch as int),
                    centers_in_archive(npz, n),
                ) {
                    (Err(trouble), _) => Err(trouble),
                    (Ok(_), Err(trouble)) => Err(trouble),
                    (Ok(consistency), Ok(centers)) => Ok(
                        HistoryModel {
                            batch_size: b as nat,
                            x: example3(x.data, k as nat, n as nat, b as nat, d as nat, batch as int),
                            z: example3(z.data, k as nat, n as nat, b as nat, d as nat, batch as int),
                            primal: example2(primal.data, k as nat, n as nat, b as nat, batch as int),
                            dual: example2(dual.data, k as nat, n as nat, b as nat, batch as int),
                            consistency,
                            centers,
                        },
                    ),
                }
            }
        },
    }
}

impl<S: Scalar> RunHistory<S> {
    /// The example holds these contents, in arrays that belong together.
    pub open spec fn holds(&self, model: HistoryModel<S>) -> bool {
        &&& self.batch_size == model.batch_size
        &&& self.x@ == model.x
        &&& self.z@ == model.z
        &&& self.primal@ == model.primal
        &&& self.dual@ == model.dual
        &&& match (self.consistency, model.consistency) {
            (Some(c), Some(m)) => c@ == m,
            (None, None) => true,
            _ => false,
        }
        &&& match (self.centers, model.centers) {
            (Some(c), Some(m)) => c@ == m && c.wf(),
            (None, None) => true,
            _ => false,
        }
        &&& self.x.wf()
        &&& self.z@.same_shape(self.x@)
        &&& self.primal@.has_shape(self.x@.n, self.x@.b)
        &&& self.dual@.has_shape(self.x@.n, self.x@.b)
        &&& self.x@.n * self.x@.b <= usize::MAX
    }
}

/// Member `(i, j, batch, q)` of a flat rank-4 array lies within it.
proof fn example_index(k: int, n: int, b: int, d: int, i: int, j: int, batch: int, q: int)
    requires
        0 <= i < k,
        0 <= j < n,
        0 <= batch < b,
        0 <= q < d,
    ensures
        0 <= i * n,
        i * n + j < k * n,
        0 <= (i * n + j) * b,
        (i * n + j) * b + batch < k * n * b,
        0 <= ((i * n + j) * b + batch) * d,
        ((i * n + j) * b + batch) * d + q < k * n * b * d,
        k * n <= k * n * b,
        k * n * b <= k * n * b * d,
{
    assert(0 <= i * n && i * n + j < k * n) by (nonlinear_arith)
        requires
            0 <= i < k,
            0 <= j < n,
    ;
    let (m, all) = (i * n + j, k * n);
    assert(0 <= m * b && m * b + batch < all * b && all <= all * b) by (nonlinear_arith)
        requires
            0 <= m < all,
            0 <= batch < b,
    ;
    let (p, whole) = (m * b + batch, all * b);
    assert(0 <= p * d && p * d + q < whole * d && whole <= whole * d) by (nonlinear_arith)
        requires
            0 <= p < whole,
            0 <= q < d,
    ;
}

fn take3<S: Scalar>(a: &Plain<S>, k: usize, n: usize, b: usize, d: usize, batch: usize) -> (r: Tensor3<S>)
    requires
        a@.wf(),
        a@.shape == seq![k, n, b, d],
        batch < b,
    ensures
        r.wf(),
        r@ == example3(a@.data, k as nat, n as nat, b as nat, d as nat, batch as int),
{
    let size = a.data.len();
    proof {
        counts_by_rank(a@.shape);
    }
    Tensor3::from_shape_fn(
        k,
        n,
        d,
        |i: usize, j: usize, q: usize| -> (v: S)
            requires
                size == a.data@.len(),
                size == k * n * b * d,
                batch < b,
                i < k,
                j < n,
                q < d,
            ensures
                v == a.data@[((i * n + j) * b + batch) * d + q]
            {
                proof {
                    example_index(
                        k as int,
                        n as int,
                        b as int,
                        d as int,
                        i as int,
                        j as int,
                        batch as int,
                        q as int,
                    );
                }
                a.data[((i * n + j) * b + batch) * d + q]
            },
    )
}

fn take2<S: Scalar>(a: &Plain<S>, k: usize, n: usize, b: usize, batch: usize) -> (r: Matrix<S>)
    requires
        a@.wf(),
        a@.shape == seq![k, n, b],
        batch < b,
    ensures
        r.wf(),
        r@ == example2(a@.data, k as nat, n as nat, b as nat, batch as int),
        k * n <= usize::MAX,
{
    let size = a.data.len();
    proof {
        counts_by_rank(a@.shape);
        assert(k * n <= k * n * b) by (nonlinear_arith)
            requires
                b >= 1,
                0 <= k,
                0 <= n,
        ;
    }
    Matrix::from_shape_fn(
        k,
        n,
        |i: usize, j: usize| -> (v: S)
            requires
                size == a.data@.len(),
                size == k * n * b,
                batch < b,
                i < k,
                j < n,
            ensures
                v == a.data@[(i * n + j) * b + batch]
            {
                proof {
                    example_index(k as int, n as int, b as int, 1, i as int, j as int, batch as int, 0);
                }
                a.data[(i * n + j) * b + batch]
            },
    )
}

fn take1<S: Scalar>(a: &Plain<S>, k: usize, b: usize, batch: usize) -> (r: Vec<S>)
    requires
        a@.wf(),
        a@.shape == seq![k, b],
        batch < b,
    ensures
        r@ == example1(a@.data, k as nat, b as nat, batch as int),
{
    let size = a.data.len();
    proof {
        counts_by_rank(a@.shape);
    }
    let mut out: Vec<S> = Vec::new();
    for i in 0..k
        invariant
            size == a.data@.len(),
            size == k * b,
            batch < b,
            out@.len() == i,
            forall|j: int| 0 <= j < i ==> #[trigger] out@[j] == a.data@[j * b + batch],
    {
        assert(0 <= i * b && i * b + batch < k * b) by (nonlinear_arith)
            requires
                0 <= i < k,
                0 <= batch < b,
        ;
        out.push(a.data[i * b + batch]);
    }
    assert(out@ =~= example1(a@.data, k as nat, b as nat, batch as int));
    out
}

/// Fetches recorded numbers of a given rank.
fn fetch_ranked<S: Scalar>(npz: &Npz, name: &str, rank: usize) -> (r: Result<Plain<S>, HistoryError>)
    requires
        npz.wf(),
    ensures
        match ranked::<S>(npz, name@, rank as nat) {
            Ok(a) => r matches Ok(array) && array@ == a && array@.wf(),
            Err(trouble) => r matches Err(error) && forall|batch: usize| tells(error, trouble, batch),
        },
{
    match fetch_numbers(npz, name) {
        Ok(array) => if array.shape.len() == rank {
            Ok(array)
        } else {
            Err(HistoryError::Array { error: NpzError::WrongShape { name: name.to_owned() } })
        },
        Err(error) => Err(HistoryError::Array { error }),
    }
}

/// Fetches the consistency of one example.
fn fetch_consistency<S: Scalar>(npz: &Npz, k: usize, b: usize, batch: usize) -> (r: Result<
    Option<Vec<S>>,
    HistoryError,
>)
    requires
        npz.wf(),
        batch < b,
    ensures
        match consistency_in::<S>(npz, k, b, batch as int) {
            Ok(Some(c)) => r matches Ok(Some(v)) && v@ == c,
            Ok(None) => r matches Ok(None),
            Err(trouble) => r matches Err(error) && tells(error, trouble, batch),
        },
{
    if !npz.has("consistency") {
        return Ok(None);
    }
    let a: Plain<S> = match fetch_ranked(npz, "consistency", 2) {
        Ok(a) => a,
        Err(error) => {
            return Err(error);
        },
    };
    if a.shape[0] != k || a.shape[1] != b {
        let wanted = vec![k, b];
        assert(wanted@ =~= seq![k, b]);
        return Err(
            HistoryError::Mismatch {
                name: "consistency".to_owned(),
                found: copy_row(a.shape.as_slice()),
                wanted,
            },
        );
    }
    assert(a@.shape =~= seq![k, b]);
    Ok(Some(take1(&a, k, b, batch)))
}

/// Fetches the agents' centers.
fn fetch_centers(npz: &Npz, n: usize, Ghost(batch): Ghost<usize>) -> (r: Result<Option<Matrix<i64>>, HistoryError>)
    requires
        npz.wf(),
    ensures
        match centers_in_archive(npz, n) {
            Ok(Some(c)) => r matches Ok(Some(v)) && v@ == c && v.wf(),
            Ok(None) => r matches Ok(None),
            Err(trouble) => r matches Err(error) && tells(error, trouble, batch),
        },
{
    if !npz.has("centers") {
        return Ok(None);
    }
    let (shape, values) = match npz.i64("centers") {
        Ok(found) => found,
        Err(error) => {
            return Err(HistoryError::Array { error });
        },
    };
    if shape.len() != 2 {
        return Err(HistoryError::Array { error: NpzError::WrongShape { name: "centers".to_owned() } });
    }
    if shape[0] != n || shape[1] != 2 {
        let wanted = vec![n, 2];
        assert(wanted@ =~= seq![n, 2usize]);
        return Err(
            HistoryError::Mismatch {
                name: "centers".to_owned(),
                found: copy_row(shape.as_slice()),
                wanted,
            },
        );
    }
    assert(shape@ =~= seq![n, 2usize]);
    proof {
        counts_by_rank(shape@);
    }
    let size = values.len();
    let m = Matrix::from_shape_fn(
        n,
        2,
        |i: usize, q: usize| -> (v: i64)
            requires
                size == values@.len(),
                size == n * 2,
                i < n,
                q < 2,
            ensures
                v == values@[i * 2 + q]
            { values[i * 2 + q] },
    );
    Ok(Some(m))
}

/// Takes one example from the archive of a recorded run.
pub fn select_history<S: Scalar>(npz: &Npz, batch: usize) -> (r: Result<RunHistory<S>, HistoryError>)
    requires
        npz.wf(),
    ensures
        match history_in::<S>(npz, batch) {
            Ok(model) => r matches Ok(history) && history.holds(model),
            Err(trouble) => r matches Err(error) && tells(error, trouble, batch),
        },
{
    let x: Plain<S> = match fetch_ranked(npz, "x", 4) {
        Ok(a) => a,
        Err(error) => {
            return Err(error);
        },
    };
    let z: Plain<S> = match fetch_ranked(npz, "z", 4) {
        Ok(a) => a,
        Err(error) => {
            return Err(error);
        },
    };
    let primal: Plain<S> = match fetch_ranked(npz, "primal_res", 3) {
        Ok(a) => a,
        Err(error) => {
            return Err(error);
        },
    };
    let dual: Plain<S> = match fetch_ranked(npz, "dual_res", 3) {
        Ok(a) => a,
        Err(error) => {
            return Err(error);
        },
    };
    let (k, n, b, d) = (x.shape[0], x.shape[1], x.shape[2], x.shape[3]);
    assert(x@.shape =~= seq![k, n, b, d]);
    if z.shape[0] != k || z.shape[1] != n || z.shape[2] != b || z.shape[3] != d {
        let wanted = vec![k, n, b, d];
        assert(wanted@ =~= seq![k, n, b, d]);
        return Err(
            HistoryError::Mismatch {
                name: "z".to_owned(),
                found: copy_row(z.shape.as_slice()),
                wanted,
            },
        );
    }
    assert(z@.shape =~= x@.shape);
    if primal.shape[0] != k || primal.shape[1] != n || primal.shape[2] != b {
        let wanted = vec![k, n, b];
        assert(wanted@ =~= seq![k, n, b]);
        return Err(
            HistoryError::Mismatch {
                name: "primal_res".to_owned(),
                found: copy_row(primal.shape.as_slice()),
                wanted,
            },
        );
    }
    assert(primal@.shape =~= seq![k, n, b]);
    if dual.shape[0] != k || dual.shape[1] != n || dual.shape[2] != b {
        let wanted = vec![k, n, b];
        assert(wanted@ =~= seq![k, n, b]);
        return Err(
            HistoryError::Mismatch {
                name: "dual_res".to_owned(),
                found: copy_row(dual.shape.as_slice()),
                wanted,
            },
        );
    }
    assert(dual@.shape =~= seq![k, n, b]);
    if batch >= b {
        return Err(HistoryError::BatchOutOfRange { batch, size: b });
    }
    let consistency: Option<Vec<S>> = match fetch_consistency(npz, k, b, batch) {
        Ok(c) => c,
        Err(error) => {
            return Err(error);
        },
    };
    let centers = match fetch_centers(npz, n, Ghost(batch)) {
        Ok(c) => c,
        Err(error) => {
            return Err(error);
        },
    };
    Ok(
        RunHistory {
            batch_size: b,
            x: take3(&x, k, n, b, d, batch),
            z: take3(&z, k, n, b, d, batch),
            primal: take2(&primal, k, n, b, batch),
            dual: take2(&dual, k, n, b, batch),
            consistency,
            centers,
        },
    )
}

} // verus!
