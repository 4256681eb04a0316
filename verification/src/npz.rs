//! Array archives: named arrays of single-precision numbers or integers.
//!
//! Numbers are held as their 32-bit patterns.
use crate::plain::same_shape;
use crate::text::text_is;
use crate::weights::member_count;
use vstd::prelude::*;
use vstd::string::*;

verus! {

/// The members of an archived array.
#[derive(Debug)]
pub enum NpzData {
    /// Single-precision patterns.
    Single(Vec<u32>),
    Integer(Vec<i64>),
}

/// One archived array: its file name, its shape, its members in row-major order.
#[derive(Debug)]
pub struct NpzEntry {
    pub file_name: String,
    pub shape: Vec<usize>,
    pub data: NpzData,
}

/// Why an array could not be had.
#[derive(Debug)]
pub enum NpzError {
    /// The archive holds a member whose shape and length disagree.
    Malformed { name: String },
    Missing { name: String },
    WrongType { name: String },
    WrongShape { name: String },
}

/// An opened archive with typed accessors.
#[derive(Debug)]
pub struct Npz {
    names: Vec<String>,
    entries: Vec<NpzEntry>,
}

impl NpzEntry {
    pub open spec fn length(&self) -> nat {
        match self.data {
            NpzData::Single(bits) => bits@.len(),
            NpzData::Integer(values) => values@.len(),
        }
    }

    /// There are as many members as the shape asks for.
    pub open spec fn sized(&self) -> bool {
        self.length() == member_count(self.shape@)
    }
}

/// Member `i` is the first whose length is not its shape's.
pub open spec fn first_unsized(entries: Seq<NpzEntry>, i: int) -> bool {
    &&& 0 <= i < entries.len()
    &&& !entries[i].sized()
    &&& forall|j: int| 0 <= j < i ==> (#[trigger] entries[j]).sized()
}

/// The name of an array: its file name without the suffix.
pub open spec fn array_name(file_name: Seq<char>) -> Seq<char> {
    let n = file_name.len();
    if n >= 4 && file_name.subrange(n - 4, n as int) == ".npy"@ {
        file_name.subrange(0, n - 4)
    } else {
        file_name
    }
}

/// Whether an array of this shape has this many members.
fn shape_counts(shape: &Vec<usize>, length: usize) -> (r: bool)
    ensures
        r == (member_count(shape@) == length),
{
    for i in 0..shape.len()
        invariant
            forall|j: int| 0 <= j < i ==> shape@[j] != 0,
    {
        if shape[i] == 0 {
            proof {
                count_of_none(shape@, i as int);
            }
            return length == 0;
        }
    }
    let mut n: usize = 1;
    assert(shape@.take(0) =~= Seq::empty());
    for i in 0..shape.len()
        invariant
            forall|j: int| 0 <= j < shape@.len() ==> shape@[j] != 0,
            n == member_count(shape@.take(i as int)),
    {
        assert(shape@.take(i + 1).drop_last() =~= shape@.take(i as int));
        match n.checked_mul(shape[i]) {
            Some(m) => {
                n = m;
            },
            None => {
                proof {
                    count_grows(shape@, i + 1);
                }
                return false;
            },
        }
    }
    assert(shape@.take(shape@.len() as int) =~= shape@);
    n == length
}

/// An array with an axis of no extent has no members.
proof fn count_of_none(shape: Seq<usize>, i: int)
    requires
        0 <= i < shape.len(),
        shape[i] == 0,
    ensures
        member_count(shape) == 0,
    decreases shape.len(),
{
    if i < shape.len() - 1 {
        count_of_none(shape.drop_last(), i);
        assert(0 * shape.last() as nat == 0);
    } else {
        assert(member_count(shape.drop_last()) * 0 == 0);
    }
}

proof fn count_grows(shape: Seq<usize>, i: int)
    requires
        0 <= i <= shape.len(),
        forall|j: int| 0 <= j < shape.len() ==> shape[j] != 0,
    ensures
        member_count(shape.take(i)) <= member_count(shape),
    decreases shape.len() - i,
{
    if i == shape.len() {
        assert(shape.take(i) =~= shape);
    } else {
        assert(shape.take(i + 1).drop_last() =~= shape.take(i));
        count_grows(shape, i + 1);
        let c = member_count(shape.take(i));
        let d = shape[i] as nat;
        assert(c <= c * d) by (nonlinear_arith)
            requires
                d >= 1,
        ;
    }
}

fn name_of(file_name: &str) -> (r: String)
    ensures
        r@ == array_name(file_name@),
{
    let n = file_name.unicode_len();
    if n >= 4 {
        let tail = file_name.substring_char(n - 4, n);
        if tail.to_owned() == ".npy".to_owned() {
            return file_name.substring_char(0, n - 4).to_owned();
        }
    }
    file_name.to_owned()
}

impl Npz {
    pub closed spec fn entries(&self) -> Seq<NpzEntry> {
        self.entries@
    }

    /// The names of the arrays, in archive order.
    pub open spec fn array_names(&self) -> Seq<Seq<char>> {
        self.entries().map_values(|e: NpzEntry| array_name(e.file_name@))
    }

    /// Names and arrays belong together.
    pub closed spec fn wf(&self) -> bool {
        &&& self.names@.len() == self.entries@.len()
        &&& forall|i: int|
            0 <= i < self.entries@.len() ==> #[trigger] self.names@[i]@ == array_name(self.entries@[i].file_name@)
        &&& forall|i: int| 0 <= i < self.entries@.len() ==> (#[trigger] self.entries@[i]).sized()
    }

    /// Opens an archive whose members have been read. It is refused where a member has
    /// another length than its shape asks for.
    pub fn open(entries: Vec<NpzEntry>) -> (r: Result<Self, NpzError>)
        ensures
            match r {
                Ok(npz) => npz.wf() && npz.entries() == entries@ && forall|i: int|
                    0 <= i < entries@.len() ==> (#[trigger] entries@[i]).sized(),
                Err(NpzError::Malformed { name }) => exists|i: int|
                    first_unsized(entries@, i) && name@ == array_name((#[trigger] entries@[i]).file_name@),
                Err(_) => false,
            },
    {
        let mut names: Vec<String> = Vec::new();
        for i in 0..entries.len()
            invariant
                names@.len() == i,
                forall|j: int| 0 <= j < i ==> #[trigger] names@[j]@ == array_name(entries@[j].file_name@),
                forall|j: int| 0 <= j < i ==> (#[trigger] entries@[j]).sized(),
        {
            let entry = &entries[i];
            let name = name_of(entry.file_name.as_str());
            let length = match &entry.data {
                NpzData::Single(bits) => bits.len(),
                NpzData::Integer(values) => values.len(),
            };
            let fits = shape_counts(&entry.shape, length);
            if !fits {
                assert(first_unsized(entries@, i as int));
                return Err(NpzError::Malformed { name });
            }
            names.push(name);
        }
        Ok(Npz { names, entries })
    }

    /// Array names present in the archive, without their suffix.
    pub fn names(&self) -> (r: &Vec<String>)
        requires
            self.wf(),
        ensures
            r@.map_values(|n: String| n@) == self.array_names(),
    {
        assert(self.names@.map_values(|n: String| n@) =~= self.array_names());
        &self.names
    }

    /// The first array of this name is at `i`.
    pub open spec fn position(&self, name: Seq<char>, i: int) -> bool {
        &&& 0 <= i < self.entries().len()
        &&& array_name(self.entries()[i].file_name@) == name
        &&& forall|j: int| 0 <= j < i ==> array_name((#[trigger] self.entries()[j]).file_name@) != name
    }

    /// The first array of this name, if there is one.
    pub open spec fn entry(&self, name: Seq<char>) -> Option<NpzEntry> {
        if exists|i: int| self.position(name, i) {
            Some(self.entries()[choose|i: int| self.position(name, i)])
        } else {
            None
        }
    }

    /// The array at the first place with a name is the array of that name.
    proof fn position_is_entry(&self, name: Seq<char>, i: int)
        requires
            self.position(name, i),
        ensures
            self.entry(name) == Some(self.entries()[i]),
    {
        let j = choose|j: int| self.position(name, j);
        assert(self.position(name, j));
        if i < j {
            assert(array_name(self.entries()[i].file_name@) != name);
        } else if j < i {
            assert(array_name(self.entries()[j].file_name@) != name);
        }
    }

    fn find(&self, name: &str) -> (r: Option<usize>)
        requires
            self.wf(),
        ensures
            match r {
                Some(i) => i < self.entries().len() && self.entry(name@) == Some(self.entries()[i as int]),
                None => self.entry(name@) is None,
            },
    {
        for i in 0..self.names.len()
            invariant
                self.wf(),
                forall|j: int|
                    0 <= j < i ==> array_name((#[trigger] self.entries()[j]).file_name@) != name@,
        {
            assert(self.names@[i as int]@ == array_name(self.entries()[i as int].file_name@));
            if text_is(&self.names[i], name) {
                proof {
                    self.position_is_entry(name@, i as int);
                }
                return Some(i);
            }
        }
        None
    }

    /// Whether there is an array of this name.
    pub fn has(&self, name: &str) -> (r: bool)
        requires
            self.wf(),
        ensures
            r == (self.entry(name@) is Some),
    {
        self.find(name).is_some()
    }

    /// The array of this name, which must hold single-precision numbers: shape and patterns.
    pub fn f32_bits(&self, name: &str) -> (r: Result<(&Vec<usize>, &Vec<u32>), NpzError>)
        requires
            self.wf(),
        ensures
            match self.entry(name@) {
                None => r matches Err(NpzError::Missing { name: n }) && n@ == name@,
                Some(e) => match e.data {
                    NpzData::Single(members) => r matches Ok((shape, bits)) && shape@ == e.shape@ && bits@
                        == members@ && e.sized(),
                    NpzData::Integer(_) => r matches Err(NpzError::WrongType { name: n }) && n@ == name@,
                },
            },
    {
        match self.find(name) {
            None => Err(NpzError::Missing { name: name.to_owned() }),
            Some(i) => {
                let entry = &self.entries[i];
                match &entry.data {
                    NpzData::Single(bits) => Ok((&entry.shape, bits)),
                    NpzData::Integer(_) => Err(NpzError::WrongType { name: name.to_owned() }),
                }
            },
        }
    }

    /// The array of this name, which must hold integers: shape and values.
    pub fn i64(&self, name: &str) -> (r: Result<(&Vec<usize>, &Vec<i64>), NpzError>)
        requires
            self.wf(),
        ensures
            match self.entry(name@) {
                None => r matches Err(NpzError::Missing { name: n }) && n@ == name@,
                Some(e) => match e.data {
                    NpzData::Integer(members) => r matches Ok((shape, values)) && shape@ == e.shape@ && values@
                        == members@ && e.sized(),
                    NpzData::Single(_) => r matches Err(NpzError::WrongType { name: n }) && n@ == name@,
                },
            },
    {
        match self.find(name) {
            None => Err(NpzError::Missing { name: name.to_owned() }),
            Some(i) => {
                let entry = &self.entries[i];
                match &entry.data {
                    NpzData::Integer(values) => Ok((&entry.shape, values)),
                    NpzData::Single(_) => Err(NpzError::WrongType { name: name.to_owned() }),
                }
            },
        }
    }

    /// Fetches single-precision numbers and tests their shape.
    pub fn f32_shaped(&self, name: &str, shape: &[usize]) -> (r: Result<&Vec<u32>, NpzError>)
        requires
            self.wf(),
        ensures
            match self.entry(name@) {
                None => r matches Err(NpzError::Missing { name: n }) && n@ == name@,
                Some(e) => match e.data {
                    NpzData::Single(members) => if e.shape@ == shape@ {
                        r matches Ok(bits) && bits@ == members@ && bits@.len() == member_count(shape@)
                    } else {
                        r matches Err(NpzError::WrongShape { name: n }) && n@ == name@
                    },
                    NpzData::Integer(_) => r matches Err(NpzError::WrongType { name: n }) && n@ == name@,
                },
            },
    {
        match self.f32_bits(name) {
            Ok((found, bits)) => if same_shape(found.as_slice(), shape) {
                Ok(bits)
            } else {
                Err(NpzError::WrongShape { name: name.to_owned() })
            },
            Err(error) => Err(error),
        }
    }

    /// Fetches integers and tests their shape.
    pub fn i64_shaped(&self, name: &str, shape: &[usize]) -> (r: Result<&Vec<i64>, NpzError>)
        requires
            self.wf(),
        ensures
            match self.entry(name@) {
                None => r matches Err(NpzError::Missing { name: n }) && n@ == name@,
                Some(e) => match e.data {
                    NpzData::Integer(members) => if e.shape@ == shape@ {
                        r matches Ok(values) && values@ == members@ && values@.len() == member_count(shape@)
                    } else {
                        r matches Err(NpzError::WrongShape { name: n }) && n@ == name@
                    },
                    NpzData::Single(_) => r matches Err(NpzError::WrongType { name: n }) && n@ == name@,
                },
            },
    {
        match self.i64(name) {
            Ok((found, values)) => if same_shape(found.as_slice(), shape) {
                Ok(values)
            } else {
                Err(NpzError::WrongShape { name: name.to_owned() })
            },
            Err(error) => Err(error),
        }
    }
}

} // verus!
