//! Reading the tensor container, and the number formats found in it.
use safetensors::tensor::Metadata;
use safetensors::{Dtype, SafeTensorError, SafeTensors};
use vstd::prelude::*;

verus! {

/// The error with which a container is refused.
#[verifier::external_type_specification]
#[verifier::external_body]
pub struct ExSafeTensorError(SafeTensorError);

/// The error with which a header is refused.
#[verifier::external_type_specification]
#[verifier::external_body]
pub struct ExJsonError(serde_json::Error);

/// Number formats of stored tensors; only the first two can be loaded.
#[derive(Debug, Clone, Copy, PartialEq, Eq, Structural)]
pub enum ElementType {
    F32,
    F16,
    Other,
}

/// One stored tensor.
#[derive(Debug)]
pub struct RawTensor {
    pub name: String,
    pub dtype: ElementType,
    /// What the container calls the number format.
    pub format: String,
    pub shape: Vec<usize>,
    pub data: Vec<u8>,
}

/// The contents of a stored tensor.
#[verifier::ext_equal]
pub ghost struct TensorModel {
    pub dtype: ElementType,
    pub format: Seq<char>,
    pub shape: Seq<usize>,
    pub data: Seq<u8>,
}

impl View for RawTensor {
    type V = TensorModel;

    open spec fn view(&self) -> TensorModel {
        TensorModel { dtype: self.dtype, format: self.format@, shape: self.shape@, data: self.data@ }
    }
}

/// How many members an array of this shape has.
pub open spec fn member_count(shape: Seq<usize>) -> nat
    decreases shape.len(),
{
    if shape.len() == 0 {
        1
    } else {
        member_count(shape.drop_last()) * shape.last() as nat
    }
}

impl TensorModel {
    /// There are as many bytes as the shape and the number format ask for.
    pub open spec fn sized(self) -> bool {
        &&& self.dtype == ElementType::F32 ==> self.data.len() == 4 * member_count(self.shape)
        &&& self.dtype == ElementType::F16 ==> self.data.len() == 2 * member_count(self.shape)
    }
}

/// No two tensors have one name.
pub open spec fn names_distinct(tensors: Seq<RawTensor>) -> bool {
    forall|i: int, j: int|
        0 <= i < j < tensors.len() ==> #[trigger] tensors[i].name@ != #[trigger] tensors[j].name@
}

/// Some tensor has this name.
pub open spec fn named(tensors: Seq<RawTensor>, name: Seq<char>) -> bool {
    exists|i: int| 0 <= i < tensors.len() && #[trigger] tensors[i].name@ == name
}

/// The tensors by their names.
pub open spec fn by_name(tensors: Seq<RawTensor>) -> Map<Seq<char>, TensorModel> {
    Map::new(
        |name: Seq<char>| named(tensors, name),
        |name: Seq<char>|
            tensors[choose|i: int| 0 <= i < tensors.len() && #[trigger] tensors[i].name@ == name]@,
    )
}

/// A list with distinct names is a map from names to tensors.
pub proof fn by_name_holds(tensors: Seq<RawTensor>, i: int)
    requires
        names_distinct(tensors),
        0 <= i < tensors.len(),
    ensures
        by_name(tensors).dom().contains(tensors[i].name@),
        by_name(tensors)[tensors[i].name@] == tensors[i]@,
{
    let name = tensors[i].name@;
    let j = choose|j: int| 0 <= j < tensors.len() && #[trigger] tensors[j].name@ == name;
    assert(tensors[j].name@ == name);
    if i < j {
        assert(tensors[i].name@ != tensors[j].name@);
    }
    if j < i {
        assert(tensors[j].name@ != tensors[i].name@);
    }
}

/// The number that up to eight bytes stand for, least significant first.
pub open spec fn little_endian(bytes: Seq<u8>) -> nat
    decreases bytes.len(),
{
    if bytes.len() == 0 {
        0
    } else {
        bytes[0] as nat + 256 * little_endian(bytes.skip(1))
    }
}

/// The text that follows the eight length bytes; nothing, where the length goes beyond
/// the end.
pub open spec fn header(bytes: Seq<u8>) -> Seq<u8> {
    if bytes.len() < 8 || little_endian(bytes.take(8)) > bytes.len() - 8 {
        Seq::empty()
    } else {
        bytes.subrange(8, 8 + little_endian(bytes.take(8)) as int)
    }
}

/// Where the tensors that a header lists end, counted from the end of the header; nothing
/// where the header is malformed.
pub uninterp spec fn header_ends(text: Seq<u8>) -> Option<Set<usize>>;

/// Parses a header with `serde_json::from_slice` into `safetensors::tensor::Metadata`, and
/// lists with `Metadata::tensors` where its tensors end.
///
/// Believed of it: whether the header is accepted, and which ends it lists, depends on its
/// bytes alone. The order of the list is left open.
#[verifier::external_body]
fn read_ends(text: &[u8]) -> (r: Result<Vec<usize>, serde_json::Error>)
    ensures
        match r {
            Ok(ends) => header_ends(text@) == Some(ends@.to_set()),
            Err(_) => header_ends(text@) is None,
        },
{
    let metadata: Metadata = serde_json::from_slice(text)?;
    Ok(metadata.tensors().into_values().map(|info| info.data_offsets.1).collect())
}

/// Positions in the file can be counted to the end of every tensor that the header lists.
pub open spec fn offsets_countable(bytes: Seq<u8>) -> bool {
    match header_ends(header(bytes)) {
        Some(ends) => ends_countable(ends, header(bytes).len()),
        None => true,
    }
}

/// Every end can be counted on behind a header of this length.
pub open spec fn ends_countable(ends: Set<usize>, length: nat) -> bool {
    forall|end: usize| #[trigger] ends.contains(end) ==> end + 8 + length <= usize::MAX
}

/// What a container holds: its tensors by name, or nothing where it is malformed.
pub uninterp spec fn container_contents(bytes: Seq<u8>) -> Option<Map<Seq<char>, TensorModel>>;

/// Takes a container apart with `safetensors::SafeTensors::deserialize` and lists its
/// tensors with `SafeTensors::tensors`.
///
/// Believed of it: whether the bytes are accepted, and which tensors they then hold under
/// which names, depends on the bytes alone; no name is listed twice; and every listed
/// tensor has as many bytes as its shape and number format ask for. The order of the list
/// is left open. It adds the sizes of length bytes and header to where the last tensor ends,
/// which overflows near the largest machine number; such bytes are not handed to it.
#[verifier::external_body]
pub(crate) fn read_container(bytes: &[u8]) -> (r: Result<Vec<RawTensor>, SafeTensorError>)
    requires
        offsets_countable(bytes@),
    ensures
        match r {
            Ok(tensors) => {
                &&& names_distinct(tensors@)
                &&& container_contents(bytes@) == Some(by_name(tensors@))
                &&& forall|i: int| 0 <= i < tensors@.len() ==> (#[trigger] tensors@[i])@.sized()
            },
            Err(_) => container_contents(bytes@) is None,
        },
{
    let views = SafeTensors::deserialize(bytes)?.tensors();
    Ok(views.into_iter().map(|(name, view)| RawTensor {
        name,
        dtype: match view.dtype() {
            Dtype::F32 => ElementType::F32,
            Dtype::F16 => ElementType::F16,
            _ => ElementType::Other,
        },
        format: format!("{:?}", view.dtype()),
        shape: view.shape().to_vec(),
        data: view.data().to_vec(),
    }).collect())
}

/// Reads eight bytes as a number, least significant first.
fn read_length(bytes: &[u8]) -> (r: u64)
    requires
        bytes@.len() >= 8,
    ensures
        r == little_endian(bytes@.take(8)),
{
    let mut k: usize = 8;
    let mut value: u64 = 0;
    let ghost first = bytes@.take(8);
    assert(first.skip(8) =~= Seq::<u8>::empty());
    let ghost mut cap: nat = 1;
    while k > 0
        invariant
            k <= 8,
            bytes@.len() >= 8,
            first == bytes@.take(8),
            value == little_endian(first.skip(k as int)),
            value < cap,
            k == 8 ==> cap == 1,
            k == 7 ==> cap == 0x100,
            k == 6 ==> cap == 0x1_0000,
            k == 5 ==> cap == 0x100_0000,
            k == 4 ==> cap == 0x1_0000_0000,
            k == 3 ==> cap == 0x100_0000_0000,
            k == 2 ==> cap == 0x1_0000_0000_0000,
            k == 1 ==> cap == 0x100_0000_0000_0000,
            k == 0 ==> cap == 0x1_0000_0000_0000_0000,
        decreases k,
    {
        k = k - 1;
        assert(first.skip(k as int).skip(1) =~= first.skip(k + 1));
        assert(first.skip(k as int)[0] == first[k as int]);
        value = bytes[k] as u64 + 256 * value;
        proof {
            cap = cap * 256;
        }
    }
    assert(first.skip(0) =~= first);
    value
}

/// Tests whether positions can be counted to the end of every listed tensor.
pub fn offsets_are_countable(bytes: &[u8]) -> (r: bool)
    ensures
        r == offsets_countable(bytes@),
{
    let ghost text = header(bytes@);
    let mut n: usize = 0;
    if bytes.len() >= 8 {
        let length = read_length(bytes);
        if length <= (bytes.len() - 8) as u64 {
            n = length as usize;
        }
    }
    let size = bytes.len();
    let mut head: Vec<u8> = Vec::new();
    for k in 0..n
        invariant
            size == bytes@.len(),
            n > 0 ==> bytes@.len() >= 8 + n && text == bytes@.subrange(8, 8 + n),
            n == text.len(),
            head@ =~= text.take(k as int),
    {
        head.push(bytes[8 + k]);
    }
    assert(head@ =~= text);
    let ends = match read_ends(head.as_slice()) {
        Ok(ends) => ends,
        Err(_) => {
            return true;
        },
    };
    for i in 0..ends.len()
        invariant
            n == text.len(),
            n + 8 <= usize::MAX,
            text == header(bytes@),
            header_ends(text) == Some(ends@.to_set()),
            forall|j: int| 0 <= j < i ==> #[trigger] ends@[j] + 8 + n <= usize::MAX,
    {
        if ends[i] > usize::MAX - 8 - n {
            proof {
                let end = ends@[i as int];
                assert(ends@.contains(end));
                assert(ends@.to_set().contains(end));
                assert(!ends_countable(ends@.to_set(), text.len()));
            }
            return false;
        }
    }
    assert forall|end: usize| #[trigger] ends@.to_set().contains(end) implies end + 8 + text.len() <= usize::MAX by {
        let j = choose|j: int| 0 <= j < ends@.len() && ends@[j] == end;
        assert(ends@[j] + 8 + n <= usize::MAX);
    }
    true
}

/// The 32-bit pattern of the number that a 16-bit IEEE 754 pattern stands for: sign kept,
/// exponent rebiased, fraction shifted; small numbers become normal, and quiet the
/// numbers that are none.
pub open spec fn widened_half(bits: u16) -> u32 {
    let sign = bits as int / 32768;
    let exponent = (bits as int / 1024) % 32;
    let fraction = bits as int % 1024;
    let magnitude = if exponent == 31 {
        if fraction == 0 {
            0x7F80_0000
        } else {
            0x7FC0_0000 + (fraction % 512) * 8192
        }
    } else if exponent == 0 {
        if fraction == 0 {
            0
        } else {
            let lead = leading_bit(fraction);
            (103 + lead) * 0x80_0000 + (fraction - pow2(lead)) * pow2(23 - lead)
        }
    } else {
        (exponent + 112) * 0x80_0000 + fraction * 8192
    };
    (sign * 0x8000_0000 + magnitude) as u32
}

/// Two to a power.
pub open spec fn pow2(n: int) -> int
    decreases n,
{
    if n <= 0 {
        1
    } else {
        2 * pow2(n - 1)
    }
}

/// The position of the leading one of a positive number.
pub open spec fn leading_bit(n: int) -> int
    decreases n,
{
    if n <= 1 {
        0
    } else {
        1 + leading_bit(n / 2)
    }
}

proof fn leading_bit_found(n: int, lead: int)
    requires
        0 <= lead,
        pow2(lead) <= n < 2 * pow2(lead),
    ensures
        leading_bit(n) == lead,
    decreases lead,
{
    if lead > 0 {
        leading_bit_found(n / 2, lead - 1);
    }
}

/// Widens a half-precision pattern to a single-precision one. No number is rounded.
pub fn widen_half(bits: u16) -> (r: u32)
    ensures
        r == widened_half(bits),
{
    let sign = bits as u32 / 32768;
    let exponent = (bits as u32 / 1024) % 32;
    let fraction = bits as u32 % 1024;
    let magnitude = if exponent == 31 {
        if fraction == 0 {
            0x7F80_0000
        } else {
            0x7FC0_0000 + (fraction % 512) * 8192
        }
    } else if exponent == 0 {
        if fraction == 0 {
            0
        } else {
            let mut lead: u32 = 0;
            let mut top: u32 = 1;
            let mut scale: u32 = 0x80_0000;
            assert(pow2(23) == 0x80_0000) by {
                reveal_with_fuel(pow2, 24);
            }
            while top * 2 <= fraction
                invariant
                    lead <= 10,
                    top == pow2(lead as int),
                    scale == pow2(23 - lead),
                    top * scale == 0x80_0000,
                    1 <= top <= fraction < 1024,
                decreases fraction - top,
            {
                assert(lead < 10) by {
                    if lead == 10 {
                        reveal_with_fuel(pow2, 11);
                    }
                }
                assert(scale == 2 * pow2(23 - lead - 1));
                assert(top * 2 * (scale / 2) == 0x80_0000) by (nonlinear_arith)
                    requires
                        top * scale == 0x80_0000,
                        scale % 2 == 0,
                ;
                top = top * 2;
                scale = scale / 2;
                lead = lead + 1;
            }
            proof {
                leading_bit_found(fraction as int, lead as int);
                assert((fraction - top) * scale <= top * scale) by (nonlinear_arith)
                    requires
                        0 <= fraction - top <= top,
                        0 <= scale,
                ;
                assert(0 <= (fraction - top) * scale) by (nonlinear_arith)
                    requires
                        0 <= fraction - top,
                        0 <= scale,
                ;
            }
            (103 + lead) * 0x80_0000 + (fraction - top) * scale
        }
    } else {
        (exponent + 112) * 0x80_0000 + fraction * 8192
    };
    sign * 0x8000_0000 + magnitude
}

/// The 32-bit pattern at member `i` of single-precision data.
pub open spec fn single_at(data: Seq<u8>, i: int) -> u32 {
    (data[4 * i] + 0x100 * data[4 * i + 1] + 0x1_0000 * data[4 * i + 2] + 0x100_0000 * data[4 * i + 3]) as u32
}

/// The 16-bit pattern at member `i` of half-precision data.
pub open spec fn half_at(data: Seq<u8>, i: int) -> u16 {
    (data[2 * i] + 0x100 * data[2 * i + 1]) as u16
}

impl TensorModel {
    /// The number format is one of those that can be loaded.
    pub open spec fn loadable(self) -> bool {
        self.dtype == ElementType::F32 || self.dtype == ElementType::F16
    }

    /// The members as 32-bit patterns.
    pub open spec fn patterns(self) -> Seq<u32> {
        if self.dtype == ElementType::F32 {
            Seq::new(self.data.len() / 4, |i: int| single_at(self.data, i))
        } else {
            Seq::new(self.data.len() / 2, |i: int| widened_half(half_at(self.data, i)))
        }
    }
}

/// Widens the members of a tensor to 32-bit patterns; `None` where its number format
/// cannot be loaded.
pub fn to_f32_vec(tensor: &RawTensor) -> (r: Option<Vec<u32>>)
    ensures
        r is Some <==> tensor@.loadable(),
        r matches Some(bits) ==> bits@ == tensor@.patterns(),
{
    let data = &tensor.data;
    match tensor.dtype {
        ElementType::F32 => {
            let mut out: Vec<u32> = Vec::new();
            let size = data.len();
            let n = size / 4;
            for i in 0..n
                invariant
                    size == data@.len(),
                    n == size / 4,
                    out@.len() == i,
                    forall|j: int| 0 <= j < i ==> #[trigger] out@[j] == single_at(data@, j),
            {
                let at = 4 * i;
                out.push(
                    data[at] as u32 + 0x100 * data[at + 1] as u32 + 0x1_0000 * data[at + 2] as u32
                        + 0x100_0000 * data[at + 3] as u32,
                );
            }
            assert(out@ =~= tensor@.patterns());
            Some(out)
        },
        ElementType::F16 => {
            let mut out: Vec<u32> = Vec::new();
            let size = data.len();
            let n = size / 2;
            for i in 0..n
                invariant
                    size == data@.len(),
                    n == size / 2,
                    out@.len() == i,
                    forall|j: int| 0 <= j < i ==> #[trigger] out@[j] == widened_half(half_at(data@, j)),
            {
                let at = 2 * i;
                out.push(widen_half(data[at] as u16 + 0x100 * data[at + 1] as u16));
            }
            assert(out@ =~= tensor@.patterns());
            Some(out)
        },
        ElementType::Other => None,
    }
}

} // verus!
