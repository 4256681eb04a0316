//! Dense arrays of two and three axes.
//!
//! Shape conventions used throughout: node states are `[N, B, d_v]`, edge
//! residuals `[E, B, d_e]`, and each endpoint of an edge has a `[d_e, d_v]` map.
use vstd::prelude::*;

verus! {

/// The contents of an array of two axes, with its extents.
#[verifier::ext_equal]
pub ghost struct Arr2<T> {
    pub rows: nat,
    pub cols: nat,
    pub data: Seq<Seq<T>>,
}

impl<T> Arr2<T> {
    /// The array whose member at `(i, j)` is `f(i, j)`.
    pub open spec fn build(rows: nat, cols: nat, f: spec_fn(int, int) -> T) -> Self {
        Arr2 { rows, cols, data: Seq::new(rows, |i: int| Seq::new(cols, |j: int| f(i, j))) }
    }

    /// The array whose row `i` is `g(i)`.
    pub open spec fn from_rows(rows: nat, cols: nat, g: spec_fn(int) -> Seq<T>) -> Self {
        Arr2 { rows, cols, data: Seq::new(rows, g) }
    }

    pub open spec fn at(self, i: int, j: int) -> T {
        self.data[i][j]
    }

    pub open spec fn wf(self) -> bool {
        &&& self.data.len() == self.rows
        &&& forall|i: int| 0 <= i < self.rows ==> (#[trigger] self.data[i]).len() == self.cols
    }

    pub open spec fn has_shape(self, rows: nat, cols: nat) -> bool {
        self.wf() && self.rows == rows && self.cols == cols
    }

    /// Column `j`, from the first row to the last.
    pub open spec fn column(self, j: int) -> Seq<T> {
        Seq::new(self.rows, |i: int| self.data[i][j])
    }
}

/// The contents of an array of three axes, with its extents.
#[verifier::ext_equal]
pub ghost struct Arr3<T> {
    pub n: nat,
    pub b: nat,
    pub d: nat,
    pub data: Seq<Seq<Seq<T>>>,
}

impl<T> Arr3<T> {
    /// The array whose member at `(i, j, k)` is `f(i, j, k)`.
    pub open spec fn build(n: nat, b: nat, d: nat, f: spec_fn(int, int, int) -> T) -> Self {
        Arr3 {
            n,
            b,
            d,
            data: Seq::new(n, |i: int| Seq::new(b, |j: int| Seq::new(d, |k: int| f(i, j, k)))),
        }
    }

    /// The array whose row at `(i, j)` is `g(i, j)`.
    pub open spec fn from_rows(n: nat, b: nat, d: nat, g: spec_fn(int, int) -> Seq<T>) -> Self {
        Arr3 { n, b, d, data: Seq::new(n, |i: int| Seq::new(b, |j: int| g(i, j))) }
    }

    pub open spec fn at(self, i: int, j: int, k: int) -> T {
        self.data[i][j][k]
    }

    pub open spec fn wf(self) -> bool {
        &&& self.data.len() == self.n
        &&& forall|i: int| 0 <= i < self.n ==> (#[trigger] self.data[i]).len() == self.b
        &&& forall|i: int, j: int|
            0 <= i < self.n && 0 <= j < self.b ==> (#[trigger] self.data[i][j]).len() == self.d
    }

    pub open spec fn has_shape(self, n: nat, b: nat, d: nat) -> bool {
        self.wf() && self.n == n && self.b == b && self.d == d
    }

    pub open spec fn same_shape(self, other: Self) -> bool {
        self.has_shape(other.n, other.b, other.d)
    }

    /// The slab of batch element `j` alone, with a batch axis of extent 1.
    pub open spec fn batch(self, j: int) -> Self {
        Arr3::build(self.n, 1, self.d, |i: int, one: int, k: int| self.at(i, j, k))
    }
}

/// Two arrays of one shape with the same members are the same array.
pub proof fn arr2_ext<T>(a: Arr2<T>, b: Arr2<T>)
    requires
        a.wf(),
        b.has_shape(a.rows, a.cols),
        forall|i: int, j: int|
            0 <= i < a.rows && 0 <= j < a.cols ==> #[trigger] a.at(i, j) == b.at(i, j),
    ensures
        a == b,
{
    assert forall|i: int| 0 <= i < a.rows implies a.data[i] == b.data[i] by {
        assert forall|j: int| 0 <= j < a.cols implies a.data[i][j] == b.data[i][j] by {
            assert(a.at(i, j) == b.at(i, j));
        }
        assert(a.data[i] =~= b.data[i]);
    }
    assert(a.data =~= b.data);
}

/// Two arrays of one shape with the same members are the same array.
pub proof fn arr3_ext<T>(a: Arr3<T>, b: Arr3<T>)
    requires
        a.wf(),
        b.same_shape(a),
        forall|i: int, j: int, k: int|
            0 <= i < a.n && 0 <= j < a.b && 0 <= k < a.d ==> #[trigger] a.at(i, j, k) == b.at(i, j, k),
    ensures
        a == b,
{
    assert forall|i: int| 0 <= i < a.n implies a.data[i] == b.data[i] by {
        assert forall|j: int| 0 <= j < a.b implies a.data[i][j] == b.data[i][j] by {
            assert forall|k: int| 0 <= k < a.d implies a.data[i][j][k] == b.data[i][j][k] by {
                assert(a.at(i, j, k) == b.at(i, j, k));
            }
            assert(a.data[i][j] =~= b.data[i][j]);
        }
        assert(a.data[i] =~= b.data[i]);
    }
    assert(a.data =~= b.data);
}

/// A dense array of two axes.
#[derive(Debug)]
pub struct Matrix<T> {
    rows: usize,
    cols: usize,
    data: Vec<Vec<T>>,
}

impl<T: Copy> View for Matrix<T> {
    type V = Arr2<T>;

    closed spec fn view(&self) -> Arr2<T> {
        Arr2 {
            rows: self.rows as nat,
            cols: self.cols as nat,
            data: Seq::new(self.data@.len(), |i: int| self.data@[i]@),
        }
    }
}

impl<T: Copy> Matrix<T> {
    /// The rows are as many and as long as the extents say.
    pub open spec fn wf(&self) -> bool {
        self@.wf()
    }

    /// Builds the array whose member at `(i, j)` is `f(i, j)`.
    pub fn from_shape_fn<F: Fn(usize, usize) -> T>(rows: usize, cols: usize, f: F) -> (r: Self)
        requires
            forall|i: usize, j: usize| i < rows && j < cols ==> f.requires((i, j)),
        ensures
            r.wf(),
            r@.rows == rows,
            r@.cols == cols,
            forall|i: usize, j: usize|
                i < rows && j < cols ==> f.ensures((i, j), #[trigger] r@.at(i as int, j as int)),
            forall|g: spec_fn(int, int) -> T|
                (forall|i: usize, j: usize, v: T|
                    i < rows && j < cols && #[trigger] f.ensures((i, j), v) ==> v == g(i as int, j as int))
                    ==> r@ == #[trigger] Arr2::build(rows as nat, cols as nat, g),
    {
        let mut data: Vec<Vec<T>> = Vec::new();
        for i in 0..rows
            invariant
                forall|i: usize, j: usize| i < rows && j < cols ==> f.requires((i, j)),
                data@.len() == i,
                forall|x: int| 0 <= x < i ==> (#[trigger] data@[x])@.len() == cols,
                forall|x: usize, y: usize|
                    x < i && y < cols ==> f.ensures((x, y), #[trigger] data@[x as int]@[y as int]),
        {
            let mut row: Vec<T> = Vec::new();
            for j in 0..cols
                invariant
                    i < rows,
                    forall|i: usize, j: usize| i < rows && j < cols ==> f.requires((i, j)),
                    row@.len() == j,
                    forall|y: usize| y < j ==> f.ensures((i, y), #[trigger] row@[y as int]),
            {
                row.push(f(i, j));
            }
            data.push(row);
        }
        let r = Matrix { rows, cols, data };
        proof {
            assert forall|g: spec_fn(int, int) -> T|
                (forall|i: usize, j: usize, v: T|
                    i < rows && j < cols && #[trigger] f.ensures((i, j), v) ==> v == g(i as int, j as int))
                implies r@ == #[trigger] Arr2::build(rows as nat, cols as nat, g) by {
                assert forall|i: int, j: int| 0 <= i < rows && 0 <= j < cols implies #[trigger] r@.at(i, j)
                    == g(i, j) by {
                    assert(f.ensures((i as usize, j as usize), data@[i as usize as int]@[j as usize as int]));
                }
                arr2_ext(r@, Arr2::build(rows as nat, cols as nat, g));
            }
        }
        r
    }

    /// Builds the array whose row `i` is `f(i)`.
    pub fn from_rows_fn<F: Fn(usize) -> Vec<T>>(rows: usize, cols: usize, f: F) -> (r: Self)
        requires
            forall|i: usize| i < rows ==> #[trigger] f.requires((i,)),
            forall|i: usize, v: Vec<T>| i < rows && #[trigger] f.ensures((i,), v) ==> v@.len() == cols,
        ensures
            r.wf(),
            r@.rows == rows,
            r@.cols == cols,
            forall|g: spec_fn(int) -> Seq<T>|
                (forall|i: usize, v: Vec<T>| i < rows && #[trigger] f.ensures((i,), v) ==> v@ == g(i as int))
                    ==> r@ == #[trigger] Arr2::from_rows(rows as nat, cols as nat, g),
    {
        let mut data: Vec<Vec<T>> = Vec::new();
        for i in 0..rows
            invariant
                forall|i: usize| i < rows ==> #[trigger] f.requires((i,)),
                data@.len() == i,
                forall|x: usize| x < i ==> f.ensures((x,), #[trigger] data@[x as int]),
        {
            data.push(f(i));
        }
        let r = Matrix { rows, cols, data };
        proof {
            assert forall|x: int| 0 <= x < rows implies f.ensures((x as usize,), #[trigger] r.data@[x]) by {
                assert(f.ensures((x as usize,), data@[x as usize as int]));
            }
            assert forall|g: spec_fn(int) -> Seq<T>|
                (forall|i: usize, v: Vec<T>| i < rows && #[trigger] f.ensures((i,), v) ==> v@ == g(i as int))
                implies r@ == #[trigger] Arr2::from_rows(rows as nat, cols as nat, g) by {
                assert forall|x: int| 0 <= x < rows implies r@.data[x] == g(x) by {
                    assert(f.ensures((x as usize,), r.data@[x]));
                }
                assert(r@.data =~= Seq::new(rows as nat, g));
            }
        }
        r
    }

    /// An array that holds `value` everywhere.
    pub fn from_elem(rows: usize, cols: usize, value: T) -> (r: Self)
        ensures
            r.wf(),
            r@ == Arr2::build(rows as nat, cols as nat, |i: int, j: int| value),
    {
        Self::from_shape_fn(rows, cols, |i: usize, j: usize| -> (v: T)
            ensures v == value,
        { value })
    }

    pub fn nrows(&self) -> (r: usize)
        ensures
            r == self@.rows,
    {
        self.rows
    }

    pub fn ncols(&self) -> (r: usize)
        ensures
            r == self@.cols,
    {
        self.cols
    }

    pub fn row(&self, i: usize) -> (r: &[T])
        requires
            self.wf(),
            i < self@.rows,
        ensures
            r@ == self@.data[i as int],
    {
        self.data[i].as_slice()
    }

    pub fn get(&self, i: usize, j: usize) -> (r: T)
        requires
            self.wf(),
            i < self@.rows,
            j < self@.cols,
        ensures
            r == self@.at(i as int, j as int),
    {
        assert(self@.data[i as int].len() == self@.cols);
        self.data[i][j]
    }

    pub fn set(&mut self, i: usize, j: usize, value: T)
        requires
            old(self).wf(),
            i < old(self)@.rows,
            j < old(self)@.cols,
        ensures
            final(self).wf(),
            final(self)@.rows == old(self)@.rows,
            final(self)@.cols == old(self)@.cols,
            forall|x: int, y: int|
                0 <= x < old(self)@.rows && 0 <= y < old(self)@.cols ==> #[trigger] final(self)@.at(x, y)
                    == if x == i && y == j {
                    value
                } else {
                    old(self)@.at(x, y)
                },
    {
        assert(self@.data[i as int].len() == self@.cols);
        self.data[i][j] = value;
        assert forall|x: int| 0 <= x < self@.rows implies (#[trigger] self@.data[x]).len() == self@.cols by {
            assert(old(self)@.data[x].len() == old(self)@.cols);
        }
    }
}

impl<T: Copy> Clone for Matrix<T> {
    fn clone(&self) -> (r: Self)
        ensures
            r@ == self@,
    {
        let mut data: Vec<Vec<T>> = Vec::new();
        for i in 0..self.data.len()
            invariant
                data@.len() == i,
                forall|x: int| 0 <= x < i ==> (#[trigger] data@[x])@ == self.data@[x]@,
        {
            let row = copy_row(self.data[i].as_slice());
            data.push(row);
        }
        let r = Matrix { rows: self.rows, cols: self.cols, data };
        assert(r@.data =~= self@.data);
        r
    }
}

/// Copies a slice into a vector of its own.
pub fn copy_row<T: Copy>(row: &[T]) -> (r: Vec<T>)
    ensures
        r@ == row@,
{
    let mut out: Vec<T> = Vec::new();
    for k in 0..row.len()
        invariant
            out@ == row@.take(k as int),
    {
        out.push(row[k]);
        assert(row@.take(k + 1) =~= row@.take(k as int).push(row@[k as int]));
    }
    assert(row@.take(row@.len() as int) =~= row@);
    out
}

/// A dense array of three axes.
#[derive(Debug)]
pub struct Tensor3<T> {
    n: usize,
    b: usize,
    d: usize,
    data: Vec<Vec<Vec<T>>>,
}

impl<T: Copy> View for Tensor3<T> {
    type V = Arr3<T>;

    closed spec fn view(&self) -> Arr3<T> {
        Arr3 {
            n: self.n as nat,
            b: self.b as nat,
            d: self.d as nat,
            data: Seq::new(
                self.data@.len(),
                |i: int| Seq::new(self.data@[i]@.len(), |j: int| self.data@[i]@[j]@),
            ),
        }
    }
}

impl<T: Copy> Tensor3<T> {
    /// The slabs and rows are as many and as long as the extents say.
    pub open spec fn wf(&self) -> bool {
        self@.wf()
    }

    /// Builds the array whose member at `(i, j, k)` is `f(i, j, k)`.
    pub fn from_shape_fn<F: Fn(usize, usize, usize) -> T>(n: usize, b: usize, d: usize, f: F) -> (r:
        Self)
        requires
            forall|i: usize, j: usize, k: usize| i < n && j < b && k < d ==> f.requires((i, j, k)),
        ensures
            r.wf(),
            r@.n == n,
            r@.b == b,
            r@.d == d,
            forall|i: usize, j: usize, k: usize|
                i < n && j < b && k < d ==> f.ensures(
                    (i, j, k),
                    #[trigger] r@.at(i as int, j as int, k as int),
                ),
            forall|g: spec_fn(int, int, int) -> T|
                (forall|i: usize, j: usize, k: usize, v: T|
                    i < n && j < b && k < d && #[trigger] f.ensures((i, j, k), v) ==> v == g(
                        i as int,
                        j as int,
                        k as int,
                    )) ==> r@ == #[trigger] Arr3::build(n as nat, b as nat, d as nat, g),
    {
        let mut data: Vec<Vec<Vec<T>>> = Vec::new();
        for i in 0..n
            invariant
                forall|i: usize, j: usize, k: usize| i < n && j < b && k < d ==> f.requires((i, j, k)),
                data@.len() == i,
                forall|x: int| 0 <= x < i ==> (#[trigger] data@[x])@.len() == b,
                forall|x: int, y: int|
                    0 <= x < i && 0 <= y < b ==> (#[trigger] data@[x]@[y])@.len() == d,
                forall|x: usize, y: usize, z: usize|
                    x < i && y < b && z < d ==> f.ensures(
                        (x, y, z),
                        #[trigger] data@[x as int]@[y as int]@[z as int],
                    ),
        {
            let mut slab: Vec<Vec<T>> = Vec::new();
            for j in 0..b
                invariant
                    i < n,
                    forall|i: usize, j: usize, k: usize|
                        i < n && j < b && k < d ==> f.requires((i, j, k)),
                    slab@.len() == j,
                    forall|y: int| 0 <= y < j ==> (#[trigger] slab@[y])@.len() == d,
                    forall|y: usize, z: usize|
                        y < j && z < d ==> f.ensures((i, y, z), #[trigger] slab@[y as int]@[z as int]),
            {
                let mut row: Vec<T> = Vec::new();
                for k in 0..d
                    invariant
                        i < n,
                        j < b,
                        forall|i: usize, j: usize, k: usize|
                            i < n && j < b && k < d ==> f.requires((i, j, k)),
                        row@.len() == k,
                        forall|z: usize| z < k ==> f.ensures((i, j, z), #[trigger] row@[z as int]),
                {
                    row.push(f(i, j, k));
                }
                slab.push(row);
            }
            data.push(slab);
        }
        let r = Tensor3 { n, b, d, data };
        proof {
            assert forall|g: spec_fn(int, int, int) -> T|
                (forall|i: usize, j: usize, k: usize, v: T|
                    i < n && j < b && k < d && #[trigger] f.ensures((i, j, k), v) ==> v == g(
                        i as int,
                        j as int,
                        k as int,
                    )) implies r@ == #[trigger] Arr3::build(n as nat, b as nat, d as nat, g) by {
                assert forall|i: int, j: int, k: int|
                    0 <= i < n && 0 <= j < b && 0 <= k < d implies #[trigger] r@.at(i, j, k) == g(
                    i,
                    j,
                    k,
                ) by {
                    assert(f.ensures(
                        (i as usize, j as usize, k as usize),
                        data@[i as usize as int]@[j as usize as int]@[k as usize as int],
                    ));
                }
                arr3_ext(r@, Arr3::build(n as nat, b as nat, d as nat, g));
            }
        }
        r
    }

    /// Builds the array whose row at `(i, j)` is `f(i, j)`.
    pub fn from_rows_fn<F: Fn(usize, usize) -> Vec<T>>(n: usize, b: usize, d: usize, f: F) -> (r: Self)
        requires
            forall|i: usize, j: usize| i < n && j < b ==> #[trigger] f.requires((i, j)),
            forall|i: usize, j: usize, v: Vec<T>|
                i < n && j < b && #[trigger] f.ensures((i, j), v) ==> v@.len() == d,
        ensures
            r.wf(),
            r@.n == n,
            r@.b == b,
            r@.d == d,
            forall|g: spec_fn(int, int) -> Seq<T>|
                (forall|i: usize, j: usize, v: Vec<T>|
                    i < n && j < b && #[trigger] f.ensures((i, j), v) ==> v@ == g(i as int, j as int))
                    ==> r@ == #[trigger] Arr3::from_rows(n as nat, b as nat, d as nat, g),
    {
        let mut data: Vec<Vec<Vec<T>>> = Vec::new();
        for i in 0..n
            invariant
                forall|i: usize, j: usize| i < n && j < b ==> #[trigger] f.requires((i, j)),
                data@.len() == i,
                forall|x: int| 0 <= x < i ==> (#[trigger] data@[x])@.len() == b,
                forall|x: usize, y: usize|
                    x < i && y < b ==> f.ensures((x, y), #[trigger] data@[x as int]@[y as int]),
        {
            let mut slab: Vec<Vec<T>> = Vec::new();
            for j in 0..b
                invariant
                    i < n,
                    forall|i: usize, j: usize| i < n && j < b ==> #[trigger] f.requires((i, j)),
                    slab@.len() == j,
                    forall|y: usize| y < j ==> f.ensures((i, y), #[trigger] slab@[y as int]),
            {
                slab.push(f(i, j));
            }
            data.push(slab);
        }
        let r = Tensor3 { n, b, d, data };
        proof {
            assert forall|x: int, y: int| 0 <= x < n && 0 <= y < b implies f.ensures(
                (x as usize, y as usize),
                #[trigger] r.data@[x]@[y],
            ) by {
                assert(f.ensures((x as usize, y as usize), data@[x as usize as int]@[y as usize as int]));
            }
            assert forall|g: spec_fn(int, int) -> Seq<T>|
                (forall|i: usize, j: usize, v: Vec<T>|
                    i < n && j < b && #[trigger] f.ensures((i, j), v) ==> v@ == g(i as int, j as int))
                implies r@ == #[trigger] Arr3::from_rows(n as nat, b as nat, d as nat, g) by {
                let want = Arr3::from_rows(n as nat, b as nat, d as nat, g);
                assert forall|x: int| 0 <= x < n implies r@.data[x] == want.data[x] by {
                    assert forall|y: int| 0 <= y < b implies r@.data[x][y] == g(x, y) by {
                        assert(f.ensures((x as usize, y as usize), r.data@[x]@[y]));
                    }
                    assert(r@.data[x] =~= want.data[x]);
                }
                assert(r@.data =~= want.data);
            }
        }
        r
    }

    /// An array that holds `value` everywhere.
    pub fn from_elem(n: usize, b: usize, d: usize, value: T) -> (r: Self)
        ensures
            r.wf(),
            r@ == Arr3::build(n as nat, b as nat, d as nat, |i: int, j: int, k: int| value),
    {
        Self::from_shape_fn(n, b, d, |i: usize, j: usize, k: usize| -> (v: T)
            ensures v == value,
        { value })
    }

    /// The three extents.
    pub fn dim(&self) -> (r: (usize, usize, usize))
        ensures
            r.0 == self@.n,
            r.1 == self@.b,
            r.2 == self@.d,
    {
        (self.n, self.b, self.d)
    }

    pub fn row(&self, i: usize, j: usize) -> (r: &[T])
        requires
            self.wf(),
            i < self@.n,
            j < self@.b,
        ensures
            r@ == self@.data[i as int][j as int],
    {
        assert(self@.data[i as int].len() == self@.b);
        self.data[i][j].as_slice()
    }

    pub fn get(&self, i: usize, j: usize, k: usize) -> (r: T)
        requires
            self.wf(),
            i < self@.n,
            j < self@.b,
            k < self@.d,
        ensures
            r == self@.at(i as int, j as int, k as int),
    {
        assert(self@.data[i as int].len() == self@.b);
        assert(self@.data[i as int][j as int].len() == self@.d);
        self.data[i][j][k]
    }
}

impl<T: Copy> Clone for Tensor3<T> {
    fn clone(&self) -> (r: Self)
        ensures
            r@ == self@,
    {
        let mut data: Vec<Vec<Vec<T>>> = Vec::new();
        for i in 0..self.data.len()
            invariant
                data@.len() == i,
                forall|x: int| 0 <= x < i ==> (#[trigger] data@[x])@.len() == self.data@[x]@.len(),
                forall|x: int, y: int|
                    0 <= x < i && 0 <= y < self.data@[x]@.len() ==> (#[trigger] data@[x]@[y])@
                        == self.data@[x]@[y]@,
        {
            let mut slab: Vec<Vec<T>> = Vec::new();
            let width = self.data[i].len();
            for j in 0..width
                invariant
                    i < self.data@.len(),
                    width == self.data@[i as int]@.len(),
                    slab@.len() == j,
                    forall|y: int| 0 <= y < j ==> (#[trigger] slab@[y])@ == self.data@[i as int]@[y]@,
            {
                let row = copy_row(self.data[i][j].as_slice());
                slab.push(row);
            }
            data.push(slab);
        }
        let r = Tensor3 { n: self.n, b: self.b, d: self.d, data };
        proof {
            assert forall|x: int| 0 <= x < r@.data.len() implies r@.data[x] == self@.data[x] by {
                assert forall|y: int| 0 <= y < r@.data[x].len() implies r@.data[x][y] == self@.data[x][y] by {
                    assert(data@[x]@[y]@ == self.data@[x]@[y]@);
                }
                assert(r@.data[x] =~= self@.data[x]);
            }
            assert(r@.data =~= self@.data);
        }
        r
    }
}

} // verus!
