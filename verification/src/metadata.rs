//! The header, the typed metadata values and the type registries.

use vstd::prelude::*;
use vstd::slice::{slice_subrange, slice_to_vec};
use crate::reader::ByteReader;
use crate::strmap::StringMap;
use crate::wire::{
    decode_elements, decode_entries, decode_entry, decode_header, decode_scalar, decode_string,
    decode_u16, decode_u32, decode_u64, decode_u8, decode_value, entries_map, le_u32_at,
    lemma_elements_fault, lemma_entries_fault, yields, yields_view, MAX_STRING_LEN,
};

verus! {

/// The magic tag of the container: the bytes `G G U F`, read little-endian.
pub const GGUF_MAGIC: u32 = 0x46554747;

/// Why a decode, a lookup or a load did not succeed.
#[derive(Debug, PartialEq, Eq, Clone)]
pub enum GgufError {
    /// The buffer ended before the bytes asked for could be read.
    Io,
    /// The first four bytes are not the magic tag; holds what was found.
    InvalidMagic(u32),
    /// The file is of a version that a decoder refuses; holds the version.
    UnsupportedVersion(u32),
    /// The declared alignment is below 8; holds the alignment.
    InvalidAlignment(u32),
    /// A string's length prefix is above the sanity bound; holds the prefix.
    StringTooLong(u64),
    /// A key, a string value or a tensor name is not valid UTF-8.
    InvalidUtf8,
    /// A metadata value carries a type id outside the thirteen known ones.
    UnsupportedValueType(u32),
    /// An array declares arrays as its elements.
    NestedArray,
    /// A tensor name is empty or longer than the bound for names; holds its
    /// length in bytes.
    InvalidTensorName(u64),
    /// A tensor descriptor carries a type id the registry does not know.
    UnsupportedTensorType(u32),
    /// The tensor's element type cannot be loaded directly.
    Unsupported(TensorType),
    /// The tensor's byte range does not lie inside the file.
    OutOfBounds,
    /// The tensor's data is not a whole number of elements; holds its length.
    InvalidDataLength(u64),
    /// A required configuration key is absent or of the wrong kind.
    MissingField(String),
    /// A required tensor is absent from the mapping.
    TensorNotFound(String),
}

/// The fixed fields at the start of a file.
#[derive(Debug, Clone, PartialEq, Eq)]
pub struct GgufHeader {
    /// The magic tag; always [`GGUF_MAGIC`] in a decoded header.
    pub magic: u32,
    /// The version of the format the file was written in.
    pub version: u32,
    /// The number of tensor descriptors in the file.
    pub n_tensors: u64,
    /// The number of metadata entries in the file.
    pub n_kv: u64,
}

impl GgufHeader {
    /// Reads the header. Any version is decoded: whether it is supported is
    /// for [`GgufHeader::is_version_supported`] to say.
    ///
    /// On failure the reader is left at the start of the field that was cut
    /// short, or just after a magic tag that was refused.
    pub fn parse(reader: &mut ByteReader) -> (r: Result<GgufHeader, GgufError>)
        requires
            old(reader).wf(),
        ensures
            final(reader).wf(),
            final(reader).source() == old(reader).source(),
            yields(
                r,
                final(reader).position() as int,
                decode_header(old(reader).source(), old(reader).position() as int),
            ),
    {
        let magic = read_u32_le(reader)?;
        if magic != GGUF_MAGIC {
            return Err(GgufError::InvalidMagic(magic));
        }
        let version = read_u32_le(reader)?;
        let n_tensors = read_u64_le(reader)?;
        let n_kv = read_u64_le(reader)?;
        Ok(GgufHeader { magic, version, n_tensors, n_kv })
    }

    /// Refuses a header whose version this library does not decode, with
    /// the version in the error.
    pub fn check_version(&self) -> (r: Result<(), GgufError>)
        ensures
            r == if self.is_version_supported() {
                Ok::<(), GgufError>(())
            } else {
                Err::<(), GgufError>(GgufError::UnsupportedVersion(self.version))
            },
    {
        if self.is_version_supported() {
            Ok(())
        } else {
            Err(GgufError::UnsupportedVersion(self.version))
        }
    }

    /// Whether this library decodes files of the header's version.
    pub open spec fn spec_is_version_supported(&self) -> bool {
        1 <= self.version <= 3
    }

    /// Whether this library decodes files of the header's version: versions
    /// 1, 2 and 3.
    #[verifier::when_used_as_spec(spec_is_version_supported)]
    pub fn is_version_supported(&self) -> (r: bool)
        ensures
            r == (1 <= self.version <= 3),
    {
        self.version >= 1 && self.version <= 3
    }
}

/// What a look at a header and at the size of its file finds.
#[derive(Debug, Clone, Copy, PartialEq, Eq)]
pub struct HeaderReport {
    /// The magic tag is the tag of the format.
    pub magic_valid: bool,
    /// The version is one this library decodes.
    pub version_supported: bool,
    /// The file declares at least one tensor.
    pub has_tensors: bool,
    /// The file declares at least one metadata entry.
    pub has_metadata: bool,
    /// The file is at least 32 bytes long.
    pub size_plausible: bool,
}

impl HeaderReport {
    /// Whether the file passes: a wrong magic tag and an implausible size
    /// are faults, the other findings are warnings.
    pub open spec fn spec_passes(&self) -> bool {
        self.magic_valid && self.size_plausible
    }

    /// Whether the file passes.
    #[verifier::when_used_as_spec(spec_passes)]
    pub fn passes(&self) -> (r: bool)
        ensures
            r == (self.magic_valid && self.size_plausible),
    {
        self.magic_valid && self.size_plausible
    }
}

impl GgufHeader {
    /// Looks at the header of a file of `file_size` bytes.
    pub fn report(&self, file_size: u64) -> (r: HeaderReport)
        ensures
            r == (HeaderReport {
                magic_valid: self.magic == GGUF_MAGIC,
                version_supported: self.is_version_supported(),
                has_tensors: self.n_tensors > 0,
                has_metadata: self.n_kv > 0,
                size_plausible: file_size >= 32,
            }),
    {
        HeaderReport {
            magic_valid: self.magic == GGUF_MAGIC,
            version_supported: self.is_version_supported(),
            has_tensors: self.n_tensors > 0,
            has_metadata: self.n_kv > 0,
            size_plausible: file_size >= 32,
        }
    }
}

/// The thirteen kinds of metadata value, in the order of their type ids.
#[derive(Debug, PartialEq, Eq, Clone, Copy)]
pub enum ValueType {
    Uint8,
    Int8,
    Uint16,
    Int16,
    Uint32,
    Int32,
    Float32,
    Bool,
    String,
    Array,
    Uint64,
    Int64,
    Float64,
}

impl ValueType {
    /// The kind that a type id stands for, if any.
    pub open spec fn of_id(value: u32) -> Option<ValueType> {
        if value == 0 {
            Some(ValueType::Uint8)
        } else if value == 1 {
            Some(ValueType::Int8)
        } else if value == 2 {
            Some(ValueType::Uint16)
        } else if value == 3 {
            Some(ValueType::Int16)
        } else if value == 4 {
            Some(ValueType::Uint32)
        } else if value == 5 {
            Some(ValueType::Int32)
        } else if value == 6 {
            Some(ValueType::Float32)
        } else if value == 7 {
            Some(ValueType::Bool)
        } else if value == 8 {
            Some(ValueType::String)
        } else if value == 9 {
            Some(ValueType::Array)
        } else if value == 10 {
            Some(ValueType::Uint64)
        } else if value == 11 {
            Some(ValueType::Int64)
        } else if value == 12 {
            Some(ValueType::Float64)
        } else {
            None
        }
    }

    /// The type id under which this kind is stored.
    pub open spec fn spec_id(self) -> u32 {
        match self {
            ValueType::Uint8 => 0,
            ValueType::Int8 => 1,
            ValueType::Uint16 => 2,
            ValueType::Int16 => 3,
            ValueType::Uint32 => 4,
            ValueType::Int32 => 5,
            ValueType::Float32 => 6,
            ValueType::Bool => 7,
            ValueType::String => 8,
            ValueType::Array => 9,
            ValueType::Uint64 => 10,
            ValueType::Int64 => 11,
            ValueType::Float64 => 12,
        }
    }

    /// The type id under which this kind is stored.
    #[verifier::when_used_as_spec(spec_id)]
    pub fn id(self) -> (r: u32)
        ensures
            r == self.spec_id(),
            r <= 12,
    {
        match self {
            ValueType::Uint8 => 0,
            ValueType::Int8 => 1,
            ValueType::Uint16 => 2,
            ValueType::Int16 => 3,
            ValueType::Uint32 => 4,
            ValueType::Int32 => 5,
            ValueType::Float32 => 6,
            ValueType::Bool => 7,
            ValueType::String => 8,
            ValueType::Array => 9,
            ValueType::Uint64 => 10,
            ValueType::Int64 => 11,
            ValueType::Float64 => 12,
        }
    }

    /// The kind stored under `value`: the one kind whose id is `value`, and
    /// `None` when no kind has that id.
    pub fn from_u32(value: u32) -> (r: Option<Self>)
        ensures
            r == Self::of_id(value),
            match r {
                Some(kind) => kind.id() == value,
                None => value > 12 && forall|kind: ValueType| kind.id() != value,
            },
    {
        match value {
            0 => Some(ValueType::Uint8),
            1 => Some(ValueType::Int8),
            2 => Some(ValueType::Uint16),
            3 => Some(ValueType::Int16),
            4 => Some(ValueType::Uint32),
            5 => Some(ValueType::Int32),
            6 => Some(ValueType::Float32),
            7 => Some(ValueType::Bool),
            8 => Some(ValueType::String),
            9 => Some(ValueType::Array),
            10 => Some(ValueType::Uint64),
            11 => Some(ValueType::Int64),
            12 => Some(ValueType::Float64),
            _ => None,
        }
    }
}

/// A decoded metadata value.
///
/// Floating-point values are held as their IEEE 754 bit patterns, so two
/// values are equal exactly when they were stored as the same bytes.
#[derive(Debug, PartialEq)]
pub enum Value {
    Uint8(u8),
    Int8(i8),
    Uint16(u16),
    Int16(i16),
    Uint32(u32),
    Int32(i32),
    /// The bits of a single-precision float.
    Float32(u32),
    Bool(bool),
    String(String),
    /// The kind of the elements, and the elements in stored order.
    Array(ValueType, Vec<Value>),
    Uint64(u64),
    Int64(i64),
    /// The bits of a double-precision float.
    Float64(u64),
}

/// What a [`Value`] holds, as mathematics: text as a sequence of characters,
/// an array as a sequence of values.
pub enum ValueModel {
    Uint8(u8),
    Int8(i8),
    Uint16(u16),
    Int16(i16),
    Uint32(u32),
    Int32(i32),
    Float32(u32),
    Bool(bool),
    String(Seq<char>),
    Array(ValueType, Seq<ValueModel>),
    Uint64(u64),
    Int64(i64),
    Float64(u64),
}

/// A floating-point number as stored: the bits of a single-precision or of
/// a double-precision IEEE 754 float.
#[derive(Debug, PartialEq, Eq, Clone, Copy)]
pub enum FloatBits {
    Single(u32),
    Double(u64),
}

impl ValueModel {
    /// The text of a string value.
    pub open spec fn as_text(self) -> Option<Seq<char>> {
        match self {
            ValueModel::String(text) => Some(text),
            _ => None,
        }
    }

    /// The truth value of a boolean.
    pub open spec fn as_bool(self) -> Option<bool> {
        match self {
            ValueModel::Bool(b) => Some(b),
            _ => None,
        }
    }

    /// The number held by an unsigned 32-bit integer.
    pub open spec fn as_uint32(self) -> Option<u32> {
        match self {
            ValueModel::Uint32(n) => Some(n),
            _ => None,
        }
    }

    /// The number held by an unsigned integer of any width.
    pub open spec fn as_u64(self) -> Option<u64> {
        match self {
            ValueModel::Uint64(n) => Some(n),
            ValueModel::Uint32(n) => Some(n as u64),
            ValueModel::Uint16(n) => Some(n as u64),
            ValueModel::Uint8(n) => Some(n as u64),
            _ => None,
        }
    }

    /// The number held by a signed integer of any width.
    pub open spec fn as_i64(self) -> Option<i64> {
        match self {
            ValueModel::Int64(n) => Some(n),
            ValueModel::Int32(n) => Some(n as i64),
            ValueModel::Int16(n) => Some(n as i64),
            ValueModel::Int8(n) => Some(n as i64),
            _ => None,
        }
    }

    /// The bits held by a float of either width.
    pub open spec fn as_float_bits(self) -> Option<FloatBits> {
        match self {
            ValueModel::Float32(bits) => Some(FloatBits::Single(bits)),
            ValueModel::Float64(bits) => Some(FloatBits::Double(bits)),
            _ => None,
        }
    }

    /// The kind of this value.
    pub open spec fn kind(self) -> ValueType {
        match self {
            ValueModel::Uint8(_) => ValueType::Uint8,
            ValueModel::Int8(_) => ValueType::Int8,
            ValueModel::Uint16(_) => ValueType::Uint16,
            ValueModel::Int16(_) => ValueType::Int16,
            ValueModel::Uint32(_) => ValueType::Uint32,
            ValueModel::Int32(_) => ValueType::Int32,
            ValueModel::Float32(_) => ValueType::Float32,
            ValueModel::Bool(_) => ValueType::Bool,
            ValueModel::String(_) => ValueType::String,
            ValueModel::Array(_, _) => ValueType::Array,
            ValueModel::Uint64(_) => ValueType::Uint64,
            ValueModel::Int64(_) => ValueType::Int64,
            ValueModel::Float64(_) => ValueType::Float64,
        }
    }

    /// An array holds no arrays, and each element is of the kind the array
    /// declares. Every other value is well formed as it stands.
    pub open spec fn well_formed(self) -> bool {
        match self {
            ValueModel::Array(element, items) => {
                &&& element != ValueType::Array
                &&& forall|i: int| 0 <= i < items.len() ==> (#[trigger] items[i]).kind() == element
            },
            _ => true,
        }
    }
}

impl View for Value {
    type V = ValueModel;

    open spec fn view(&self) -> ValueModel
        decreases self,
    {
        match self {
            Value::Uint8(n) => ValueModel::Uint8(*n),
            Value::Int8(n) => ValueModel::Int8(*n),
            Value::Uint16(n) => ValueModel::Uint16(*n),
            Value::Int16(n) => ValueModel::Int16(*n),
            Value::Uint32(n) => ValueModel::Uint32(*n),
            Value::Int32(n) => ValueModel::Int32(*n),
            Value::Float32(bits) => ValueModel::Float32(*bits),
            Value::Bool(b) => ValueModel::Bool(*b),
            Value::String(text) => ValueModel::String(text@),
            Value::Array(element, items) => ValueModel::Array(
                *element,
                Seq::new(
                    items@.len(),
                    |i: int|
                        if 0 <= i < items@.len() {
                            items@[i]@
                        } else {
                            ValueModel::Bool(false)
                        },
                ),
            ),
            Value::Uint64(n) => ValueModel::Uint64(*n),
            Value::Int64(n) => ValueModel::Int64(*n),
            Value::Float64(bits) => ValueModel::Float64(*bits),
        }
    }
}

impl Value {
    /// The kind of this value.
    pub fn value_type(&self) -> (r: ValueType)
        ensures
            r == self@.kind(),
    {
        match self {
            Value::Uint8(_) => ValueType::Uint8,
            Value::Int8(_) => ValueType::Int8,
            Value::Uint16(_) => ValueType::Uint16,
            Value::Int16(_) => ValueType::Int16,
            Value::Uint32(_) => ValueType::Uint32,
            Value::Int32(_) => ValueType::Int32,
            Value::Float32(_) => ValueType::Float32,
            Value::Bool(_) => ValueType::Bool,
            Value::String(_) => ValueType::String,
            Value::Array(_, _) => ValueType::Array,
            Value::Uint64(_) => ValueType::Uint64,
            Value::Int64(_) => ValueType::Int64,
            Value::Float64(_) => ValueType::Float64,
        }
    }

    /// The text, if this is a string.
    pub fn as_string(&self) -> (r: Option<&str>)
        ensures
            match self@.as_text() {
                Some(text) => r is Some && r->0@ == text,
                None => r is None,
            },
    {
        match self {
            Value::String(text) => Some(text.as_str()),
            _ => None,
        }
    }

    /// The truth value, if this is a boolean.
    pub fn as_bool(&self) -> (r: Option<bool>)
        ensures
            r == self@.as_bool(),
    {
        match self {
            Value::Bool(b) => Some(*b),
            _ => None,
        }
    }

    /// The number, if this is an unsigned 32-bit integer.
    pub fn as_uint32(&self) -> (r: Option<u32>)
        ensures
            r == self@.as_uint32(),
    {
        match self {
            Value::Uint32(n) => Some(*n),
            _ => None,
        }
    }

    /// The number, if this is an unsigned integer of any width.
    pub fn as_u64(&self) -> (r: Option<u64>)
        ensures
            r == self@.as_u64(),
    {
        match self {
            Value::Uint64(n) => Some(*n),
            Value::Uint32(n) => Some(*n as u64),
            Value::Uint16(n) => Some(*n as u64),
            Value::Uint8(n) => Some(*n as u64),
            _ => None,
        }
    }

    /// The number, if this is a signed integer of any width.
    pub fn as_i64(&self) -> (r: Option<i64>)
        ensures
            r == self@.as_i64(),
    {
        match self {
            Value::Int64(n) => Some(*n),
            Value::Int32(n) => Some(*n as i64),
            Value::Int16(n) => Some(*n as i64),
            Value::Int8(n) => Some(*n as i64),
            _ => None,
        }
    }

    /// The bits, if this is a float of either width.
    pub fn as_float_bits(&self) -> (r: Option<FloatBits>)
        ensures
            r == self@.as_float_bits(),
    {
        match self {
            Value::Float32(bits) => Some(FloatBits::Single(*bits)),
            Value::Float64(bits) => Some(FloatBits::Double(*bits)),
            _ => None,
        }
    }
}

/// The element encodings a tensor may declare.
#[derive(Debug, PartialEq, Eq, Clone, Copy)]
pub enum TensorType {
    F32,
    F16,
    Q40,
    Q41,
    Q50,
    Q51,
    Q80,
    Q81,
    Q2K,
    Q3K,
    Q4K,
    Q5K,
    Q6K,
    Q8K,
    Iq2Xxs,
    Iq2Xs,
    Iq3Xxs,
    Iq1S,
    Iq4Nl,
    Iq3S,
    Iq2S,
    Iq4Xs,
    I8,
    I16,
    I32,
    I64,
    F64,
    Iq1M,
}

impl TensorType {
    /// The element type that a type id stands for, if any.
    pub open spec fn of_id(value: u32) -> Option<TensorType> {
        if value == 0 {
            Some(TensorType::F32)
        } else if value == 1 {
            Some(TensorType::F16)
        } else if value == 2 {
            Some(TensorType::Q40)
        } else if value == 3 {
            Some(TensorType::Q41)
        } else if value == 6 {
            Some(TensorType::Q50)
        } else if value == 7 {
            Some(TensorType::Q51)
        } else if value == 8 {
            Some(TensorType::Q80)
        } else if value == 9 {
            Some(TensorType::Q81)
        } else if value == 10 {
            Some(TensorType::Q2K)
        } else if value == 11 {
            Some(TensorType::Q3K)
        } else if value == 12 {
            Some(TensorType::Q4K)
        } else if value == 13 {
            Some(TensorType::Q5K)
        } else if value == 14 {
            Some(TensorType::Q6K)
        } else if value == 15 {
            Some(TensorType::Q8K)
        } else if value == 16 {
            Some(TensorType::Iq2Xxs)
        } else if value == 17 {
            Some(TensorType::Iq2Xs)
        } else if value == 18 {
            Some(TensorType::Iq3Xxs)
        } else if value == 19 {
            Some(TensorType::Iq1S)
        } else if value == 20 {
            Some(TensorType::Iq4Nl)
        } else if value == 21 {
            Some(TensorType::Iq3S)
        } else if value == 22 {
            Some(TensorType::Iq2S)
        } else if value == 23 {
            Some(TensorType::Iq4Xs)
        } else if value == 24 {
            Some(TensorType::I8)
        } else if value == 25 {
            Some(TensorType::I16)
        } else if value == 26 {
            Some(TensorType::I32)
        } else if value == 27 {
            Some(TensorType::I64)
        } else if value == 28 {
            Some(TensorType::F64)
        } else if value == 29 {
            Some(TensorType::Iq1M)
        } else {
            None
        }
    }

    /// The type id under which this element type is stored.
    pub open spec fn spec_id(self) -> u32 {
        match self {
            TensorType::F32 => 0,
            TensorType::F16 => 1,
            TensorType::Q40 => 2,
            TensorType::Q41 => 3,
            TensorType::Q50 => 6,
            TensorType::Q51 => 7,
            TensorType::Q80 => 8,
            TensorType::Q81 => 9,
            TensorType::Q2K => 10,
            TensorType::Q3K => 11,
            TensorType::Q4K => 12,
            TensorType::Q5K => 13,
            TensorType::Q6K => 14,
            TensorType::Q8K => 15,
            TensorType::Iq2Xxs => 16,
            TensorType::Iq2Xs => 17,
            TensorType::Iq3Xxs => 18,
            TensorType::Iq1S => 19,
            TensorType::Iq4Nl => 20,
            TensorType::Iq3S => 21,
            TensorType::Iq2S => 22,
            TensorType::Iq4Xs => 23,
            TensorType::I8 => 24,
            TensorType::I16 => 25,
            TensorType::I32 => 26,
            TensorType::I64 => 27,
            TensorType::F64 => 28,
            TensorType::Iq1M => 29,
        }
    }

    /// The type id under which this element type is stored.
    #[verifier::when_used_as_spec(spec_id)]
    pub fn id(self) -> (r: u32)
        ensures
            r == self.spec_id(),
            r <= 29,
    {
        match self {
            TensorType::F32 => 0,
            TensorType::F16 => 1,
            TensorType::Q40 => 2,
            TensorType::Q41 => 3,
            TensorType::Q50 => 6,
            TensorType::Q51 => 7,
            TensorType::Q80 => 8,
            TensorType::Q81 => 9,
            TensorType::Q2K => 10,
            TensorType::Q3K => 11,
            TensorType::Q4K => 12,
            TensorType::Q5K => 13,
            TensorType::Q6K => 14,
            TensorType::Q8K => 15,
            TensorType::Iq2Xxs => 16,
            TensorType::Iq2Xs => 17,
            TensorType::Iq3Xxs => 18,
            TensorType::Iq1S => 19,
            TensorType::Iq4Nl => 20,
            TensorType::Iq3S => 21,
            TensorType::Iq2S => 22,
            TensorType::Iq4Xs => 23,
            TensorType::I8 => 24,
            TensorType::I16 => 25,
            TensorType::I32 => 26,
            TensorType::I64 => 27,
            TensorType::F64 => 28,
            TensorType::Iq1M => 29,
        }
    }

    /// The element type stored under `value`: the one type whose id is
    /// `value`, and `None` when no type has that id.
    pub fn from_u32(value: u32) -> (r: Option<Self>)
        ensures
            r == Self::of_id(value),
            match r {
                Some(tensor_type) => tensor_type.id() == value,
                None => forall|tensor_type: TensorType| tensor_type.id() != value,
            },
    {
        match value {
            0 => Some(TensorType::F32),
            1 => Some(TensorType::F16),
            2 => Some(TensorType::Q40),
            3 => Some(TensorType::Q41),
            6 => Some(TensorType::Q50),
            7 => Some(TensorType::Q51),
            8 => Some(TensorType::Q80),
            9 => Some(TensorType::Q81),
            10 => Some(TensorType::Q2K),
            11 => Some(TensorType::Q3K),
            12 => Some(TensorType::Q4K),
            13 => Some(TensorType::Q5K),
            14 => Some(TensorType::Q6K),
            15 => Some(TensorType::Q8K),
            16 => Some(TensorType::Iq2Xxs),
            17 => Some(TensorType::Iq2Xs),
            18 => Some(TensorType::Iq3Xxs),
            19 => Some(TensorType::Iq1S),
            20 => Some(TensorType::Iq4Nl),
            21 => Some(TensorType::Iq3S),
            22 => Some(TensorType::Iq2S),
            23 => Some(TensorType::Iq4Xs),
            24 => Some(TensorType::I8),
            25 => Some(TensorType::I16),
            26 => Some(TensorType::I32),
            27 => Some(TensorType::I64),
            28 => Some(TensorType::F64),
            29 => Some(TensorType::Iq1M),
            _ => None,
        }
    }

    /// The size of one element in bytes, for the types whose elements are
    /// stored one by one; `None` for the quantized types, whose elements are
    /// packed in blocks.
    pub open spec fn spec_element_size(self) -> Option<u64> {
        match self {
            TensorType::F32 => Some(4),
            TensorType::F16 => Some(2),
            TensorType::I8 => Some(1),
            TensorType::I16 => Some(2),
            TensorType::I32 => Some(4),
            TensorType::I64 => Some(8),
            TensorType::F64 => Some(8),
            _ => None,
        }
    }

    /// The size of one element in bytes, or `None` where it is indeterminate.
    #[verifier::when_used_as_spec(spec_element_size)]
    pub fn element_size(self) -> (r: Option<u64>)
        ensures
            r == self.spec_element_size(),
            r matches Some(size) ==> 1 <= size <= 8,
    {
        match self {
            TensorType::F32 => Some(4),
            TensorType::F16 => Some(2),
            TensorType::I8 => Some(1),
            TensorType::I16 => Some(2),
            TensorType::I32 => Some(4),
            TensorType::I64 => Some(8),
            TensorType::F64 => Some(8),
            _ => None,
        }
    }

    /// Whether tensors of this type can be loaded directly: exactly the
    /// types with a known element size.
    pub open spec fn spec_is_supported(self) -> bool {
        self.spec_element_size() is Some
    }

    /// Whether tensors of this type can be loaded directly.
    #[verifier::when_used_as_spec(spec_is_supported)]
    pub fn is_supported(self) -> (r: bool)
        ensures
            r == self.spec_is_supported(),
    {
        self.element_size().is_some()
    }
}

/// Reads one byte.
pub fn read_u8(reader: &mut ByteReader) -> (r: Result<u8, GgufError>)
    requires
        old(reader).wf(),
    ensures
        final(reader).wf(),
        final(reader).source() == old(reader).source(),
        yields(
            r,
            final(reader).position() as int,
            decode_u8(old(reader).source(), old(reader).position() as int),
        ),
{
    match reader.take(1) {
        Some(run) => Ok(run[0]),
        None => Err(GgufError::Io),
    }
}

/// Reads an unsigned 16-bit integer, least significant byte first.
pub fn read_u16_le(reader: &mut ByteReader) -> (r: Result<u16, GgufError>)
    requires
        old(reader).wf(),
    ensures
        final(reader).wf(),
        final(reader).source() == old(reader).source(),
        yields(
            r,
            final(reader).position() as int,
            decode_u16(old(reader).source(), old(reader).position() as int),
        ),
{
    match reader.take(2) {
        Some(run) => Ok(run[0] as u16 + run[1] as u16 * 0x100),
        None => Err(GgufError::Io),
    }
}

/// Reads an unsigned 32-bit integer, least significant byte first.
pub fn read_u32_le(reader: &mut ByteReader) -> (r: Result<u32, GgufError>)
    requires
        old(reader).wf(),
    ensures
        final(reader).wf(),
        final(reader).source() == old(reader).source(),
        yields(
            r,
            final(reader).position() as int,
            decode_u32(old(reader).source(), old(reader).position() as int),
        ),
{
    match reader.take(4) {
        Some(run) => Ok(le_word(run)),
        None => Err(GgufError::Io),
    }
}

/// Reads an unsigned 64-bit integer, least significant byte first.
pub fn read_u64_le(reader: &mut ByteReader) -> (r: Result<u64, GgufError>)
    requires
        old(reader).wf(),
    ensures
        final(reader).wf(),
        final(reader).source() == old(reader).source(),
        yields(
            r,
            final(reader).position() as int,
            decode_u64(old(reader).source(), old(reader).position() as int),
        ),
{
    match reader.take(8) {
        Some(run) => {
            let low = le_word(slice_subrange(run, 0, 4));
            let high = le_word(slice_subrange(run, 4, 8));
            Ok(low as u64 + high as u64 * 0x1_0000_0000)
        },
        None => Err(GgufError::Io),
    }
}

/// Reads a length-prefixed UTF-8 string.
pub fn read_string(reader: &mut ByteReader) -> (r: Result<String, GgufError>)
    requires
        old(reader).wf(),
    ensures
        final(reader).wf(),
        final(reader).source() == old(reader).source(),
        yields_view(
            r,
            final(reader).position() as int,
            decode_string(old(reader).source(), old(reader).position() as int),
        ),
{
    let len = read_u64_le(reader)?;
    if len > MAX_STRING_LEN {
        return Err(GgufError::StringTooLong(len));
    }
    match reader.take(len as usize) {
        None => Err(GgufError::Io),
        Some(run) => match String::from_utf8(slice_to_vec(run)) {
            Ok(text) => Ok(text),
            Err(_) => Err(GgufError::InvalidUtf8),
        },
    }
}

/// The decoded metadata block: each key with its value.
pub type Metadata = StringMap<Value>;

/// What a metadata mapping holds, as mathematics.
pub open spec fn metadata_model(metadata: Metadata) -> Map<Seq<char>, ValueModel> {
    metadata@.map_values(|value: Value| value@)
}

/// Whether `got`, with the reader left at `next`, is what decoding `count`
/// metadata entries at `at` owes: on success the mapping that the entries
/// build up and a reader left just after them; on failure the layout's
/// fault and a reader left where the layout says decoding stops.
pub open spec fn metadata_outcome(
    bytes: Seq<u8>,
    at: int,
    count: nat,
    got: Result<Metadata, GgufError>,
    next: int,
) -> bool {
    match decode_entries(bytes, at, count) {
        Ok((entries, after)) => {
            &&& got is Ok
            &&& metadata_model(got->Ok_0) == entries_map(entries)
            &&& next == after
        },
        Err((fault, stop)) => got == Err::<Metadata, GgufError>(fault) && next == stop,
    }
}

/// The decoders of the metadata block.
pub struct GgufReader;

impl GgufReader {
    /// Reads all `n_kv` entries of the metadata block, which starts where
    /// the header ends. A key that occurs again replaces the earlier entry.
    ///
    /// On failure the reader is left at the start of the field that was cut
    /// short, or just after the field that was refused.
    #[verifier::loop_isolation(false)]
    pub fn read_metadata(reader: &mut ByteReader, n_kv: u64) -> (r: Result<Metadata, GgufError>)
        requires
            old(reader).wf(),
        ensures
            final(reader).wf(),
            final(reader).source() == old(reader).source(),
            metadata_outcome(
                old(reader).source(),
                old(reader).position() as int,
                n_kv as nat,
                r,
                final(reader).position() as int,
            ),
            r is Ok ==> r->Ok_0.wf(),
    {
        let ghost start = reader.position() as int;
        let ghost mut entries: Seq<(Seq<char>, ValueModel)> = Seq::empty();
        let mut metadata: Metadata = StringMap::new();
        let mut i: u64 = 0;
        assert(metadata_model(metadata) =~= entries_map(entries));
        while i < n_kv
            invariant
                reader.wf(),
                reader.source() == old(reader).source(),
                i <= n_kv,
                decode_entries(reader.source(), start, i as nat) == Ok::<
                    (Seq<(Seq<char>, ValueModel)>, int),
                    (GgufError, int),
                >((entries, reader.position() as int)),
                metadata.wf(),
                metadata_model(metadata) == entries_map(entries),
            decreases n_kv - i,
        {
            match Self::read_entry(reader) {
                Err(fault) => {
                    proof {
                        lemma_entries_fault(reader.source(), start, (i + 1) as nat, n_kv as nat);
                    }
                    return Err(fault);
                },
                Ok((key, value)) => {
                    proof {
                        let grown = entries.push((key@, value@));
                        assert(grown.drop_last() =~= entries);
                        assert(metadata@.insert(key@, value).map_values(|v: Value| v@)
                            =~= metadata@.map_values(|v: Value| v@).insert(key@, value@));
                        entries = grown;
                    }
                    let _ = metadata.insert(key, value);
                },
            }
            i = i + 1;
        }
        Ok(metadata)
    }

    /// Reads one metadata entry: its key, then its value.
    pub fn read_entry(reader: &mut ByteReader) -> (r: Result<(String, Value), GgufError>)
        requires
            old(reader).wf(),
        ensures
            final(reader).wf(),
            final(reader).source() == old(reader).source(),
            match decode_entry(old(reader).source(), old(reader).position() as int) {
                Ok((entry, after)) => {
                    &&& r is Ok
                    &&& r->Ok_0.0@ == entry.0
                    &&& r->Ok_0.1@ == entry.1
                    &&& final(reader).position() == after
                },
                Err((fault, stop)) => {
                    &&& r == Err::<(String, Value), GgufError>(fault)
                    &&& final(reader).position() == stop
                },
            },
    {
        let key = read_string(reader)?;
        let id = read_u32_le(reader)?;
        let value_type = match ValueType::from_u32(id) {
            None => {
                return Err(GgufError::UnsupportedValueType(id));
            },
            Some(kind) => kind,
        };
        let value = Self::read_value(reader, value_type)?;
        Ok((key, value))
    }

    /// Reads one value that is not an array, of the kind given.
    pub fn read_scalar(reader: &mut ByteReader, value_type: ValueType) -> (r: Result<
        Value,
        GgufError,
    >)
        requires
            old(reader).wf(),
        ensures
            final(reader).wf(),
            final(reader).source() == old(reader).source(),
            yields_view(
                r,
                final(reader).position() as int,
                decode_scalar(old(reader).source(), old(reader).position() as int, value_type),
            ),
    {
        match value_type {
            ValueType::Uint8 => Ok(Value::Uint8(read_u8(reader)?)),
            ValueType::Int8 => {
                let n = read_u8(reader)?;
                Ok(Value::Int8(#[verifier::truncate] (n as i8)))
            },
            ValueType::Uint16 => Ok(Value::Uint16(read_u16_le(reader)?)),
            ValueType::Int16 => {
                let n = read_u16_le(reader)?;
                Ok(Value::Int16(#[verifier::truncate] (n as i16)))
            },
            ValueType::Uint32 => Ok(Value::Uint32(read_u32_le(reader)?)),
            ValueType::Int32 => {
                let n = read_u32_le(reader)?;
                Ok(Value::Int32(#[verifier::truncate] (n as i32)))
            },
            ValueType::Float32 => Ok(Value::Float32(read_u32_le(reader)?)),
            ValueType::Bool => Ok(Value::Bool(read_u8(reader)? != 0)),
            ValueType::String => Ok(Value::String(read_string(reader)?)),
            ValueType::Array => Err(GgufError::NestedArray),
            ValueType::Uint64 => Ok(Value::Uint64(read_u64_le(reader)?)),
            ValueType::Int64 => {
                let n = read_u64_le(reader)?;
                Ok(Value::Int64(#[verifier::truncate] (n as i64)))
            },
            ValueType::Float64 => Ok(Value::Float64(read_u64_le(reader)?)),
        }
    }

    /// Reads one value of the kind given.
    ///
    /// The elements of an array are collected one by one, so a count that
    /// the buffer cannot back ends in `Io` without a large allocation.
    #[verifier::loop_isolation(false)]
    pub fn read_value(reader: &mut ByteReader, value_type: ValueType) -> (r: Result<
        Value,
        GgufError,
    >)
        requires
            old(reader).wf(),
        ensures
            final(reader).wf(),
            final(reader).source() == old(reader).source(),
            yields_view(
                r,
                final(reader).position() as int,
                decode_value(old(reader).source(), old(reader).position() as int, value_type),
            ),
    {
        match value_type {
            ValueType::Array => {
                let id = read_u32_le(reader)?;
                let element = match ValueType::from_u32(id) {
                    None => {
                        return Err(GgufError::UnsupportedValueType(id));
                    },
                    Some(ValueType::Array) => {
                        return Err(GgufError::NestedArray);
                    },
                    Some(kind) => kind,
                };
                let count = read_u64_le(reader)?;
                let ghost start = reader.position() as int;
                let ghost mut models: Seq<ValueModel> = Seq::empty();
                let mut items: Vec<Value> = Vec::new();
                let mut i: u64 = 0;
                while i < count
                    invariant
                        reader.wf(),
                        reader.source() == old(reader).source(),
                        i <= count,
                        decode_elements(reader.source(), start, element, i as nat) == Ok::<
                            (Seq<ValueModel>, int),
                            (GgufError, int),
                        >((models, reader.position() as int)),
                        items@.len() == i,
                        models.len() == i,
                        forall|j: int| 0 <= j < i ==> (#[trigger] items@[j])@ == models[j],
                    decreases count - i,
                {
                    match Self::read_scalar(reader, element) {
                        Err(fault) => {
                            proof {
                                lemma_elements_fault(
                                    reader.source(),
                                    start,
                                    element,
                                    (i + 1) as nat,
                                    count as nat,
                                );
                            }
                            return Err(fault);
                        },
                        Ok(item) => {
                            proof {
                                models = models.push(item@);
                            }
                            items.push(item);
                        },
                    }
                    i = i + 1;
                }
                let value = Value::Array(element, items);
                assert(value@ == ValueModel::Array(element, models)) by {
                    assert(value@->Array_1 =~= models);
                }
                Ok(value)
            },
            _ => Self::read_scalar(reader, value_type),
        }
    }
}

/// The little-endian value of a run of four bytes.
fn le_word(run: &[u8]) -> (r: u32)
    requires
        run@.len() == 4,
    ensures
        r == le_u32_at(run@, 0),
{
    run[0] as u32 + run[1] as u32 * 0x100 + run[2] as u32 * 0x1_0000 + run[3] as u32
        * 0x100_0000
}

} // verus!
