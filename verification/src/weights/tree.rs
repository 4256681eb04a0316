//! One collection of weights, checked against its manifest.
use super::container::{
    by_name, by_name_holds, member_count, named, names_distinct, to_f32_vec, ElementType, RawTensor,
    TensorModel,
};
use super::manifest::{lists, listing, ManifestEntry};
use super::WeightsError;
use crate::encoder::slot_index_fits;
use crate::layers::{Dense, LayerNorm, RmsNorm};
use crate::plain::same_shape;
use crate::scalar::Scalar;
use crate::tensor::{Arr2, Matrix};
use crate::text::{
    begins_with, joined, precedes, precedes_chains, precedes_not_itself, starts_with, text_precedes,
};
use vstd::prelude::*;

verus! {

/// The stored name of a tensor of a collection.
pub open spec fn full_key(prefix: Seq<char>, key: Seq<char>) -> Seq<char> {
    prefix + "/"@ + key
}

/// A collection among stored tensors.
pub ghost struct Source {
    pub tensors: Map<Seq<char>, TensorModel>,
    pub prefix: Seq<char>,
}

impl Source {
    /// The tensor of this name within the collection.
    pub open spec fn tensor(self, key: Seq<char>) -> TensorModel {
        self.tensors[full_key(self.prefix, key)]
    }

    /// The collection has a tensor of this name.
    pub open spec fn has(self, key: Seq<char>) -> bool {
        self.tensors.dom().contains(full_key(self.prefix, key))
    }

    /// The name belongs to the collection.
    pub open spec fn owns(self, name: Seq<char>) -> bool {
        begins_with(name, self.prefix + "/"@)
    }

    /// The name is that of an expected tensor.
    pub open spec fn expects(self, keys: Seq<(Seq<char>, Seq<usize>)>, name: Seq<char>) -> bool {
        exists|i: int| 0 <= i < keys.len() && name == full_key(self.prefix, (#[trigger] keys[i]).0)
    }

    /// Every expected tensor is there, with the expected shape and in a number format that
    /// can be loaded, and nothing else is in the collection.
    pub open spec fn complete(self, keys: Seq<(Seq<char>, Seq<usize>)>) -> bool {
        &&& forall|i: int|
            0 <= i < keys.len() ==> self.has((#[trigger] keys[i]).0) && self.tensor(keys[i].0).shape
                == keys[i].1 && self.tensor(keys[i].0).loadable()
        &&& forall|name: Seq<char>| #[trigger]
            self.tensors.dom().contains(name) && self.owns(name) ==> self.expects(keys, name)
    }

    /// The name is that of an expected tensor, and the tensor has the expected shape and a
    /// number format that can be loaded.
    pub open spec fn fits(self, keys: Seq<(Seq<char>, Seq<usize>)>, name: Seq<char>) -> bool {
        exists|i: int|
            0 <= i < keys.len() && name == full_key(self.prefix, (#[trigger] keys[i]).0)
                && self.tensors[name].shape == keys[i].1 && self.tensors[name].loadable()
    }

    /// Nothing that is in the collection is wrong.
    pub open spec fn sound(self, keys: Seq<(Seq<char>, Seq<usize>)>) -> bool {
        forall|name: Seq<char>| #[trigger]
            self.tensors.dom().contains(name) && self.owns(name) ==> self.fits(keys, name)
    }

    /// Expected tensor `i` is not there.
    pub open spec fn lacks(self, keys: Seq<(Seq<char>, Seq<usize>)>, i: int) -> bool {
        0 <= i < keys.len() && !self.has(keys[i].0)
    }

    /// Expected tensor `i` is not there, and no other such name comes before its name.
    pub open spec fn lacks_first(self, keys: Seq<(Seq<char>, Seq<usize>)>, i: int) -> bool {
        &&& self.lacks(keys, i)
        &&& forall|j: int| #[trigger] self.lacks(keys, j) ==> !precedes(keys[j].0, keys[i].0)
    }

    /// The error names something that is wrong with the collection. Where several tensors are
    /// wrong it names any of them; a tensor that is not there is named only where none is, and
    /// then the first by name.
    pub open spec fn violated(self, keys: Seq<(Seq<char>, Seq<usize>)>, error: WeightsError) -> bool {
        match error {
            WeightsError::UnexpectedKey { name } => {
                &&& self.tensors.dom().contains(name@)
                &&& self.owns(name@)
                &&& !self.expects(keys, name@)
            },
            WeightsError::MissingKey { name } => {
                &&& self.sound(keys)
                &&& exists|i: int| #[trigger]
                    self.lacks_first(keys, i) && name@ == full_key(self.prefix, keys[i].0)
            },
            WeightsError::WrongShape { name, expected, found } => exists|i: int|
                0 <= i < keys.len() && name@ == full_key(self.prefix, (#[trigger] keys[i]).0) && self.has(
                    keys[i].0,
                ) && expected@ == keys[i].1 && found@ == self.tensor(keys[i].0).shape && expected@ != found@,
            WeightsError::UnsupportedType { name, format } => exists|i: int|
                0 <= i < keys.len() && name@ == full_key(self.prefix, (#[trigger] keys[i]).0) && self.has(
                    keys[i].0,
                ) && self.tensor(keys[i].0).shape == keys[i].1 && !self.tensor(keys[i].0).loadable() && format@
                    == self.tensor(keys[i].0).format,
            _ => false,
        }
    }

    /// The members of a tensor as numbers.
    pub open spec fn vector<S: Scalar>(self, key: Seq<char>) -> Seq<S> {
        self.tensor(key).patterns().map_values(|bits: u32| S::spec_from_bits(bits))
    }

    /// A tensor as a matrix, row-major and not transposed.
    pub open spec fn matrix<S: Scalar>(self, key: Seq<char>, rows: nat, cols: nat) -> Arr2<S> {
        Arr2::build(rows, cols, |i: int, j: int| self.vector::<S>(key)[i * cols + j])
    }

    /// Slab `k` of a tensor of three axes, as a matrix.
    pub open spec fn slab<S: Scalar>(self, key: Seq<char>, k: int, rows: nat, cols: nat) -> Arr2<S> {
        Arr2::build(rows, cols, |i: int, j: int| self.vector::<S>(key)[(k * rows + i) * cols + j])
    }

    /// The layer holds the kernel and the bias of this name.
    pub open spec fn dense_is<S: Scalar>(self, layer: Dense<S>, name: Seq<char>, i: usize, o: usize) -> bool {
        &&& layer.maps(i as nat, o as nat)
        &&& layer.kernel@ == self.matrix::<S>(name + "/kernel"@, i as nat, o as nat)
        &&& layer.bias@ == self.vector::<S>(name + "/bias"@)
    }

    /// The layer holds the scale of this name and the standard epsilon.
    pub open spec fn rms_norm_is<S: Scalar>(self, layer: RmsNorm<S>, name: Seq<char>, n: usize) -> bool {
        &&& layer.scale@.len() == n
        &&& layer.scale@ == self.vector::<S>(name + "/scale"@)
        &&& layer.eps == S::spec_decimal(1, -6)
    }

    /// The layer holds the scale and the bias of this name and the standard epsilon.
    pub open spec fn layer_norm_is<S: Scalar>(self, layer: LayerNorm<S>, name: Seq<char>, n: usize) -> bool {
        &&& layer.maps(n as nat)
        &&& layer.scale@ == self.vector::<S>(name + "/scale"@)
        &&& layer.bias@ == self.vector::<S>(name + "/bias"@)
        &&& layer.eps == S::spec_decimal(1, -6)
    }
}

/// One tensor of a collection, widened.
pub(crate) struct TreeEntry {
    key: String,
    shape: Vec<usize>,
    bits: Vec<u32>,
}

/// A collection that satisfies its manifest.
pub(crate) struct Tree {
    entries: Vec<TreeEntry>,
    source: Ghost<Source>,
    keys: Ghost<Seq<(Seq<char>, Seq<usize>)>>,
}

fn copy_shape(a: &Vec<usize>) -> (r: Vec<usize>)
    ensures
        r@ == a@,
{
    crate::tensor::copy_row(a.as_slice())
}

/// Finds a tensor by its name.
fn find_tensor(tensors: &Vec<RawTensor>, name: &String) -> (r: Option<usize>)
    ensures
        match r {
            Some(i) => i < tensors@.len() && tensors@[i as int].name@ == name@,
            None => !named(tensors@, name@),
        },
{
    for i in 0..tensors.len()
        invariant
            forall|j: int| 0 <= j < i ==> #[trigger] tensors@[j].name@ != name@,
    {
        if tensors[i].name == *name {
            return Some(i);
        }
    }
    None
}

/// Finds the expected tensor of a name.
fn find_expected(expected: &Vec<ManifestEntry>, stem: &str, name: &String, Ghost(source): Ghost<Source>) -> (r: Option<
    usize,
>)
    requires
        stem@ == source.prefix + "/"@,
    ensures
        match r {
            Some(i) => i < expected@.len() && name@ == full_key(
                source.prefix,
                listing(expected@)[i as int].0,
            ),
            None => !source.expects(listing(expected@), name@),
        },
{
    for i in 0..expected.len()
        invariant
            stem@ == source.prefix + "/"@,
            forall|j: int|
                0 <= j < i ==> name@ != full_key(source.prefix, (#[trigger] listing(expected@)[j]).0),
    {
        let full = joined(stem, expected[i].key.as_str());
        assert(full@ == full_key(source.prefix, listing(expected@)[i as int].0));
        if full == *name {
            return Some(i);
        }
    }
    None
}

/// Finds the first expected tensor, by name, that is not there.
fn find_lacking(tensors: &Vec<RawTensor>, expected: &Vec<ManifestEntry>, stem: &str, Ghost(source): Ghost<Source>) -> (r:
    Option<usize>)
    requires
        stem@ == source.prefix + "/"@,
        source.tensors == by_name(tensors@),
        names_distinct(tensors@),
    ensures
        match r {
            Some(i) => source.lacks_first(listing(expected@), i as int),
            None => forall|j: int| !#[trigger] source.lacks(listing(expected@), j),
        },
{
    let ghost keys = listing(expected@);
    let mut least: Option<usize> = None;
    for k in 0..expected.len()
        invariant
            stem@ == source.prefix + "/"@,
            source.tensors == by_name(tensors@),
            names_distinct(tensors@),
            keys == listing(expected@),
            match least {
                Some(m) => m < k && source.lacks(keys, m as int) && forall|j: int|
                    j < k && #[trigger] source.lacks(keys, j) ==> !precedes(keys[j].0, keys[m as int].0),
                None => forall|j: int| j < k ==> !#[trigger] source.lacks(keys, j),
            },
    {
        let key = expected[k].key.as_str();
        let name = joined(stem, key);
        assert(keys[k as int] == expected@[k as int]@);
        assert(name@ == full_key(source.prefix, keys[k as int].0));
        match find_tensor(tensors, &name) {
            Some(at) => {
                proof {
                    by_name_holds(tensors@, at as int);
                }
            },
            None => {
                assert(source.lacks(keys, k as int));
                proof {
                    precedes_not_itself(keys[k as int].0);
                }
                match least {
                    None => {
                        least = Some(k);
                    },
                    Some(m) => {
                        assert(keys[m as int] == expected@[m as int]@);
                        if text_precedes(key, expected[m].key.as_str()) {
                            proof {
                                assert forall|j: int| j < k + 1 && #[trigger] source.lacks(keys, j) implies !precedes(
                                    keys[j].0,
                                    keys[k as int].0,
                                ) by {
                                    if precedes(keys[j].0, keys[k as int].0) {
                                        precedes_chains(
                                            keys[j].0,
                                            keys[k as int].0,
                                            keys[m as int].0,
                                        );
                                    }
                                }
                            }
                            least = Some(k);
                        }
                    },
                }
            },
        }
    }
    least
}

impl Tree {
    pub closed spec fn source(&self) -> Source {
        self.source@
    }

    pub closed spec fn keys(&self) -> Seq<(Seq<char>, Seq<usize>)> {
        self.keys@
    }

    /// The entries are those of the manifest, with the widened members of the stored
    /// tensors.
    pub closed spec fn wf(&self) -> bool {
        &&& self.entries@.len() == self.keys@.len()
        &&& forall|i: int|
            0 <= i < self.entries@.len() ==> {
                let entry = #[trigger] self.entries@[i];
                &&& entry.key@ == self.keys@[i].0
                &&& entry.shape@ == self.keys@[i].1
                &&& entry.bits@ == self.source@.tensor(entry.key@).patterns()
                &&& entry.bits@.len() == member_count(entry.shape@)
            }
    }

    /// Reads one collection. It is accepted where it is complete; otherwise the error names
    /// one thing that is wrong with it.
    pub fn load(tensors: &Vec<RawTensor>, prefix: &str, expected: &Vec<ManifestEntry>) -> (r: Result<
        Tree,
        WeightsError,
    >)
        requires
            names_distinct(tensors@),
            forall|i: int| 0 <= i < tensors@.len() ==> (#[trigger] tensors@[i])@.sized(),
        ensures
            ({
                let source = Source { tensors: by_name(tensors@), prefix: prefix@ };
                match r {
                    Ok(tree) => {
                        &&& source.complete(listing(expected@))
                        &&& tree.wf()
                        &&& tree.source() == source
                        &&& tree.keys() == listing(expected@)
                    },
                    Err(error) => !source.complete(listing(expected@)) && source.violated(
                        listing(expected@),
                        error,
                    ),
                }
            }),
    {
        let ghost source = Source { tensors: by_name(tensors@), prefix: prefix@ };
        let ghost keys = listing(expected@);
        let stem = joined(prefix, "/");
        for t in 0..tensors.len()
            invariant
                names_distinct(tensors@),
                source == (Source { tensors: by_name(tensors@), prefix: prefix@ }),
                keys == listing(expected@),
                stem@ == prefix@ + "/"@,
                forall|j: int|
                    0 <= j < t && source.owns(#[trigger] tensors@[j].name@) ==> source.fits(
                        keys,
                        tensors@[j].name@,
                    ),
        {
            let tensor = &tensors[t];
            let name = &tensor.name;
            if starts_with(name.as_str(), stem.as_str()) {
                proof {
                    by_name_holds(tensors@, t as int);
                }
                match find_expected(expected, stem.as_str(), name, Ghost(source)) {
                    None => {
                        return Err(WeightsError::UnexpectedKey { name: name.clone() });
                    },
                    Some(i) => {
                        assert(keys[i as int] == expected@[i as int]@);
                        if !same_shape(tensor.shape.as_slice(), expected[i].shape.as_slice()) {
                            return Err(
                                WeightsError::WrongShape {
                                    name: name.clone(),
                                    expected: copy_shape(&expected[i].shape),
                                    found: copy_shape(&tensor.shape),
                                },
                            );
                        }
                        if matches!(tensor.dtype, ElementType::Other) {
                            return Err(WeightsError::UnsupportedType { name: name.clone(), format: tensor.format.clone() });
                        }
                    },
                }
            }
        }
        assert forall|name: Seq<char>| #[trigger]
            source.tensors.dom().contains(name) && source.owns(name) implies source.fits(keys, name) by {
            let j = choose|j: int| 0 <= j < tensors@.len() && #[trigger] tensors@[j].name@ == name;
            assert(tensors@[j].name@ == name);
        }
        match find_lacking(tensors, expected, stem.as_str(), Ghost(source)) {
            Some(i) => {
                assert(keys[i as int] == expected@[i as int]@);
                return Err(WeightsError::MissingKey { name: joined(stem.as_str(), expected[i].key.as_str()) });
            },
            None => {},
        }
        let mut entries: Vec<TreeEntry> = Vec::new();
        for k in 0..expected.len()
            invariant
                names_distinct(tensors@),
                forall|i: int| 0 <= i < tensors@.len() ==> (#[trigger] tensors@[i])@.sized(),
                source == (Source { tensors: by_name(tensors@), prefix: prefix@ }),
                keys == listing(expected@),
                stem@ == prefix@ + "/"@,
                forall|j: int| !#[trigger] source.lacks(keys, j),
                entries@.len() == k,
                forall|i: int|
                    0 <= i < k ==> {
                        let entry = #[trigger] entries@[i];
                        &&& entry.key@ == keys[i].0
                        &&& entry.shape@ == keys[i].1
                        &&& entry.bits@ == source.tensor(entry.key@).patterns()
                        &&& entry.bits@.len() == member_count(entry.shape@)
                    },
                forall|i: int|
                    0 <= i < k ==> source.has((#[trigger] keys[i]).0) && source.tensor(keys[i].0).shape
                        == keys[i].1 && source.tensor(keys[i].0).loadable(),
        {
            let want = &expected[k];
            let name = joined(stem.as_str(), want.key.as_str());
            assert(keys[k as int] == want@);
            assert(name@ == full_key(source.prefix, keys[k as int].0));
            match find_tensor(tensors, &name) {
                None => {
                    assert(source.lacks(keys, k as int));
                    return Err(WeightsError::MissingKey { name });
                },
                Some(at) => {
                    proof {
                        by_name_holds(tensors@, at as int);
                    }
                    if !same_shape(tensors[at].shape.as_slice(), want.shape.as_slice()) {
                        return Err(
                            WeightsError::WrongShape {
                                name,
                                expected: copy_shape(&want.shape),
                                found: copy_shape(&tensors[at].shape),
                            },
                        );
                    }
                    match to_f32_vec(&tensors[at]) {
                        None => {
                            return Err(WeightsError::UnsupportedType { name, format: tensors[at].format.clone() });
                        },
                        Some(bits) => {
                            assert(tensors@[at as int]@.sized());
                            entries.push(
                                TreeEntry { key: want.key.clone(), shape: copy_shape(&want.shape), bits },
                            );
                        },
                    }
                },
            }
        }
        Ok(Tree { entries, source: Ghost(source), keys: Ghost(keys) })
    }

    /// The members of a tensor that the manifest lists.
    fn take(&self, key: &str, shape: &[usize]) -> (r: &Vec<u32>)
        requires
            self.wf(),
            lists(self.keys(), key@, shape@),
        ensures
            r@ == self.source().tensor(key@).patterns(),
            r@.len() == member_count(shape@),
    {
        let wanted = key.to_owned();
        for i in 0..self.entries.len()
            invariant
                self.wf(),
                wanted@ == key@,
                lists(self.keys(), key@, shape@),
                forall|j: int|
                    0 <= j < i ==> (#[trigger] self.entries@[j]).key@ != key@ || self.entries@[j].shape@
                        != shape@,
        {
            let entry = &self.entries[i];
            if entry.key == wanted && same_shape(entry.shape.as_slice(), shape) {
                return &entry.bits;
            }
        }
        proof {
            reveal(lists);
            let i = choose|i: int| 0 <= i < self.keys@.len() && self.keys@[i] == (key@, shape@);
            assert(self.entries@[i].key@ == key@);
            assert(false);
        }
        &self.entries[0].bits
    }

    pub fn vec1<S: Scalar>(&self, key: &str, n: usize) -> (r: Vec<S>)
        requires
            self.wf(),
            lists(self.keys(), key@, seq![n]),
        ensures
            r@ == self.source().vector::<S>(key@),
            r@.len() == n,
    {
        let shape = vec![n];
        assert(shape@ =~= seq![n]);
        let bits = self.take(key, shape.as_slice());
        proof {
            reveal_with_fuel(member_count, 3);
            assert(seq![n].drop_last() =~= Seq::empty());
        }
        let mut out: Vec<S> = Vec::new();
        for i in 0..bits.len()
            invariant
                out@.len() == i,
                forall|j: int| 0 <= j < i ==> #[trigger] out@[j] == S::spec_from_bits(bits@[j]),
        {
            out.push(S::from_bits(bits[i]));
        }
        assert(out@ =~= self.source().vector::<S>(key@));
        out
    }

    /// A matrix as stored: row-major, not transposed.
    pub fn mat2<S: Scalar>(&self, key: &str, rows: usize, cols: usize) -> (r: Matrix<S>)
        requires
            self.wf(),
            lists(self.keys(), key@, seq![rows, cols]),
        ensures
            r@.has_shape(rows as nat, cols as nat),
            r@ == self.source().matrix::<S>(key@, rows as nat, cols as nat),
    {
        let shape = vec![rows, cols];
        assert(shape@ =~= seq![rows, cols]);
        let bits = self.take(key, shape.as_slice());
        proof {
            reveal_with_fuel(member_count, 4);
            assert(seq![rows, cols].drop_last() =~= seq![rows]);
            assert(seq![rows].drop_last() =~= Seq::empty());
        }
        self.cut(key, bits, 0, 1, rows, cols)
    }

    /// Slab `k` of a tensor of `slabs` matrices.
    fn cut<S: Scalar>(&self, key: &str, bits: &Vec<u32>, k: usize, slabs: usize, rows: usize, cols: usize) -> (r: Matrix<
        S,
    >)
        requires
            k < slabs,
            bits@ == self.source().tensor(key@).patterns(),
            bits@.len() == slabs * rows * cols,
        ensures
            r@.has_shape(rows as nat, cols as nat),
            r@ == self.source().slab::<S>(key@, k as int, rows as nat, cols as nat),
            k == 0 ==> r@ == self.source().matrix::<S>(key@, rows as nat, cols as nat),
    {
        let size = bits.len();
        let out = Matrix::from_shape_fn(
            rows,
            cols,
            |i: usize, j: usize| -> (v: S)
                requires
                    k < slabs,
                    i < rows,
                    j < cols,
                    size == bits@.len(),
                    bits@.len() == slabs * rows * cols,
                ensures
                    v == S::spec_from_bits(bits@[(k * rows + i) * cols + j])
                {
                    proof {
                        slot_index_fits(
                            slabs as int,
                            rows as int,
                            cols as int,
                            k as int,
                            i as int,
                            j as int,
                        );
                        assert(k * rows + i <= (k * rows + i) * cols) by (nonlinear_arith)
                            requires
                                0 <= k * rows + i,
                                0 < cols,
                        ;
                    }
                    S::from_bits(bits[(k * rows + i) * cols + j])
                },
        );
        proof {
            let source = self.source();
            let want = source.slab::<S>(key@, k as int, rows as nat, cols as nat);
            assert forall|i: int, j: int| 0 <= i < rows && 0 <= j < cols implies #[trigger] out@.at(i, j)
                == want.at(i, j) by {
                slot_index_fits(slabs as int, rows as int, cols as int, k as int, i, j);
                assert(out@.at(i as usize as int, j as usize as int) == out@.at(i, j));
            }
            crate::tensor::arr2_ext(out@, want);
            if k == 0 {
                let flat = source.matrix::<S>(key@, rows as nat, cols as nat);
                assert forall|i: int, j: int| 0 <= i < rows && 0 <= j < cols implies #[trigger] out@.at(i, j)
                    == flat.at(i, j) by {
                    assert(out@.at(i, j) == want.at(i, j));
                    assert(0 * rows + i == i);
                }
                crate::tensor::arr2_ext(out@, flat);
            }
        }
        out
    }

    /// A tensor of three axes as a stack of matrices.
    pub fn mat3<S: Scalar>(&self, key: &str, slabs: usize, rows: usize, cols: usize) -> (r: Vec<Matrix<S>>)
        requires
            self.wf(),
            lists(self.keys(), key@, seq![slabs, rows, cols]),
        ensures
            r@.len() == slabs,
            forall|k: int|
                0 <= k < slabs ==> (#[trigger] r@[k])@.has_shape(rows as nat, cols as nat) && r@[k]@
                    == self.source().slab::<S>(key@, k, rows as nat, cols as nat),
    {
        let shape = vec![slabs, rows, cols];
        assert(shape@ =~= seq![slabs, rows, cols]);
        let bits = self.take(key, shape.as_slice());
        proof {
            reveal_with_fuel(member_count, 5);
            assert(seq![slabs, rows, cols].drop_last() =~= seq![slabs, rows]);
            assert(seq![slabs, rows].drop_last() =~= seq![slabs]);
            assert(seq![slabs].drop_last() =~= Seq::empty());
        }
        let mut out: Vec<Matrix<S>> = Vec::new();
        for k in 0..slabs
            invariant
                bits@ == self.source().tensor(key@).patterns(),
                bits@.len() == slabs * rows * cols,
                out@.len() == k,
                forall|i: int|
                    0 <= i < k ==> (#[trigger] out@[i])@.has_shape(rows as nat, cols as nat) && out@[i]@
                        == self.source().slab::<S>(key@, i, rows as nat, cols as nat),
        {
            out.push(self.cut(key, bits, k, slabs, rows, cols));
        }
        out
    }

    pub fn dense<S: Scalar>(&self, name: &str, i: usize, o: usize) -> (r: Dense<S>)
        requires
            self.wf(),
            lists(self.keys(), name@ + "/kernel"@, seq![i, o]),
            lists(self.keys(), name@ + "/bias"@, seq![o]),
        ensures
            self.source().dense_is(r, name@, i, o),
    {
        let kernel = self.mat2(joined(name, "/kernel").as_str(), i, o);
        let bias = self.vec1(joined(name, "/bias").as_str(), o);
        Dense { kernel, bias }
    }

    pub fn rms_norm<S: Scalar>(&self, name: &str, n: usize) -> (r: RmsNorm<S>)
        requires
            self.wf(),
            lists(self.keys(), name@ + "/scale"@, seq![n]),
        ensures
            self.source().rms_norm_is(r, name@, n),
    {
        RmsNorm::new(self.vec1(joined(name, "/scale").as_str(), n))
    }

    pub fn layer_norm<S: Scalar>(&self, name: &str, n: usize) -> (r: LayerNorm<S>)
        requires
            self.wf(),
            lists(self.keys(), name@ + "/scale"@, seq![n]),
            lists(self.keys(), name@ + "/bias"@, seq![n]),
        ensures
            self.source().layer_norm_is(r, name@, n),
    {
        let scale = self.vec1(joined(name, "/scale").as_str(), n);
        let bias = self.vec1(joined(name, "/bias").as_str(), n);
        LayerNorm::new(scale, bias)
    }
}

} // verus!
