//! The byte layout of the container, stated as functions on byte sequences.
//!
//! Each `decode_*` function gives, for a buffer and a position in it, either
//! the item that starts there together with the position after it, or the
//! fault a decoder must report together with the position at which decoding
//! stops: the start of the field that is cut short, or the end of the field
//! that is refused. All integers are little-endian.

use vstd::prelude::*;
use vstd::utf8::{decode_utf8, encode_utf8, valid_utf8};
use crate::metadata::{GgufError, GgufHeader, TensorType, ValueModel, ValueType, GGUF_MAGIC};
use crate::tensors::TensorInfoView;

verus! {

/// The longest string, in bytes, that a decoder accepts.
pub const MAX_STRING_LEN: u64 = 1_048_576;

/// The longest tensor name, in bytes, that a decoder accepts.
pub const MAX_TENSOR_NAME_LEN: u64 = 64;

/// The alignment of a file that declares none.
pub const DEFAULT_ALIGNMENT: u32 = 32;

/// The smallest alignment a file may declare.
pub const MIN_ALIGNMENT: u32 = 8;

/// The one version that the whole-file header decoder reads.
pub const FILE_VERSION: u32 = 3;

/// The unsigned 16-bit integer stored at `at`.
pub open spec fn le_u16_at(bytes: Seq<u8>, at: int) -> u16 {
    (bytes[at] as int + 0x100 * (bytes[at + 1] as int)) as u16
}

/// The unsigned 32-bit integer stored at `at`.
pub open spec fn le_u32_at(bytes: Seq<u8>, at: int) -> u32 {
    (bytes[at] as int + 0x100 * (bytes[at + 1] as int) + 0x1_0000 * (bytes[at + 2] as int)
        + 0x100_0000 * (bytes[at + 3] as int)) as u32
}

/// The unsigned 64-bit integer stored at `at`.
pub open spec fn le_u64_at(bytes: Seq<u8>, at: int) -> u64 {
    (le_u32_at(bytes, at) as int + 0x1_0000_0000 * (le_u32_at(bytes, at + 4) as int)) as u64
}

/// One byte.
pub open spec fn decode_u8(bytes: Seq<u8>, at: int) -> Result<(u8, int), (GgufError, int)> {
    if at + 1 <= bytes.len() {
        Ok((bytes[at], at + 1))
    } else {
        Err((GgufError::Io, at))
    }
}

/// Two bytes, as an unsigned integer.
pub open spec fn decode_u16(bytes: Seq<u8>, at: int) -> Result<(u16, int), (GgufError, int)> {
    if at + 2 <= bytes.len() {
        Ok((le_u16_at(bytes, at), at + 2))
    } else {
        Err((GgufError::Io, at))
    }
}

/// Four bytes, as an unsigned integer.
pub open spec fn decode_u32(bytes: Seq<u8>, at: int) -> Result<(u32, int), (GgufError, int)> {
    if at + 4 <= bytes.len() {
        Ok((le_u32_at(bytes, at), at + 4))
    } else {
        Err((GgufError::Io, at))
    }
}

/// Eight bytes, as an unsigned integer.
pub open spec fn decode_u64(bytes: Seq<u8>, at: int) -> Result<(u64, int), (GgufError, int)> {
    if at + 8 <= bytes.len() {
        Ok((le_u64_at(bytes, at), at + 8))
    } else {
        Err((GgufError::Io, at))
    }
}

/// The header: the magic tag, the version, the number of tensors and the
/// number of metadata entries, 24 bytes in all, read field by field. The tag
/// is checked as soon as it is read; no other field is checked.
pub open spec fn decode_header(bytes: Seq<u8>, at: int) -> Result<
    (GgufHeader, int),
    (GgufError, int),
> {
    match decode_u32(bytes, at) {
        Err(stopped) => Err(stopped),
        Ok((magic, after_magic)) => if magic != GGUF_MAGIC {
            Err((GgufError::InvalidMagic(magic), after_magic))
        } else {
            match decode_u32(bytes, after_magic) {
                Err(stopped) => Err(stopped),
                Ok((version, after_version)) => match decode_u64(bytes, after_version) {
                    Err(stopped) => Err(stopped),
                    Ok((n_tensors, after_tensors)) => match decode_u64(bytes, after_tensors) {
                        Err(stopped) => Err(stopped),
                        Ok((n_kv, after)) => Ok(
                            (GgufHeader { magic, version, n_tensors, n_kv }, after),
                        ),
                    },
                },
            }
        },
    }
}

/// A string: its length in bytes as an unsigned 64-bit integer, then that
/// many bytes of UTF-8. The length is checked against the sanity bound before
/// the bytes are looked at.
pub open spec fn decode_string(bytes: Seq<u8>, at: int) -> Result<(Seq<char>, int), (GgufError, int)> {
    match decode_u64(bytes, at) {
        Err(fault) => Err(fault),
        Ok((len, start)) => {
            let run = bytes.subrange(start, start + len);
            if len > MAX_STRING_LEN {
                Err((GgufError::StringTooLong(len), start))
            } else if start + len > bytes.len() {
                Err((GgufError::Io, start))
            } else if !valid_utf8(run) {
                Err((GgufError::InvalidUtf8, start + len))
            } else {
                Ok((decode_utf8(run), start + len))
            }
        },
    }
}

/// A value that is not an array, of the kind given. Signed integers are the
/// stored bits read as two's complement; floats are kept as their bits; a
/// boolean is true for any byte but zero.
pub open spec fn decode_scalar(bytes: Seq<u8>, at: int, kind: ValueType) -> Result<
    (ValueModel, int),
    (GgufError, int),
> {
    match kind {
        ValueType::Uint8 => match decode_u8(bytes, at) {
            Ok((n, after)) => Ok((ValueModel::Uint8(n), after)),
            Err(fault) => Err(fault),
        },
        ValueType::Int8 => match decode_u8(bytes, at) {
            Ok((n, after)) => Ok((ValueModel::Int8(n as i8), after)),
            Err(fault) => Err(fault),
        },
        ValueType::Uint16 => match decode_u16(bytes, at) {
            Ok((n, after)) => Ok((ValueModel::Uint16(n), after)),
            Err(fault) => Err(fault),
        },
        ValueType::Int16 => match decode_u16(bytes, at) {
            Ok((n, after)) => Ok((ValueModel::Int16(n as i16), after)),
            Err(fault) => Err(fault),
        },
        ValueType::Uint32 => match decode_u32(bytes, at) {
            Ok((n, after)) => Ok((ValueModel::Uint32(n), after)),
            Err(fault) => Err(fault),
        },
        ValueType::Int32 => match decode_u32(bytes, at) {
            Ok((n, after)) => Ok((ValueModel::Int32(n as i32), after)),
            Err(fault) => Err(fault),
        },
        ValueType::Float32 => match decode_u32(bytes, at) {
            Ok((bits, after)) => Ok((ValueModel::Float32(bits), after)),
            Err(fault) => Err(fault),
        },
        ValueType::Bool => match decode_u8(bytes, at) {
            Ok((n, after)) => Ok((ValueModel::Bool(n != 0), after)),
            Err(fault) => Err(fault),
        },
        ValueType::String => match decode_string(bytes, at) {
            Ok((text, after)) => Ok((ValueModel::String(text), after)),
            Err(fault) => Err(fault),
        },
        ValueType::Array => Err((GgufError::NestedArray, at)),
        ValueType::Uint64 => match decode_u64(bytes, at) {
            Ok((n, after)) => Ok((ValueModel::Uint64(n), after)),
            Err(fault) => Err(fault),
        },
        ValueType::Int64 => match decode_u64(bytes, at) {
            Ok((n, after)) => Ok((ValueModel::Int64(n as i64), after)),
            Err(fault) => Err(fault),
        },
        ValueType::Float64 => match decode_u64(bytes, at) {
            Ok((bits, after)) => Ok((ValueModel::Float64(bits), after)),
            Err(fault) => Err(fault),
        },
    }
}

/// The first `count` elements of an array whose elements start at `at`, one
/// after the other. The first element that cannot be decoded decides the
/// fault.
pub open spec fn decode_elements(bytes: Seq<u8>, at: int, kind: ValueType, count: nat) -> Result<
    (Seq<ValueModel>, int),
    (GgufError, int),
>
    decreases count,
{
    if count == 0 {
        Ok((Seq::empty(), at))
    } else {
        match decode_elements(bytes, at, kind, (count - 1) as nat) {
            Err(fault) => Err(fault),
            Ok((items, next)) => match decode_scalar(bytes, next, kind) {
                Err(fault) => Err(fault),
                Ok((item, after)) => Ok((items.push(item), after)),
            },
        }
    }
}

/// A value of the kind given. An array is the type id of its elements, which
/// must be a known kind other than array, then the number of elements as an
/// unsigned 64-bit integer, then the elements.
pub open spec fn decode_value(bytes: Seq<u8>, at: int, kind: ValueType) -> Result<
    (ValueModel, int),
    (GgufError, int),
> {
    match kind {
        ValueType::Array => match decode_u32(bytes, at) {
            Err(fault) => Err(fault),
            Ok((id, after_id)) => match ValueType::of_id(id) {
                None => Err((GgufError::UnsupportedValueType(id), after_id)),
                Some(ValueType::Array) => Err((GgufError::NestedArray, after_id)),
                Some(element) => match decode_u64(bytes, after_id) {
                    Err(fault) => Err(fault),
                    Ok((count, start)) => match decode_elements(
                        bytes,
                        start,
                        element,
                        count as nat,
                    ) {
                        Err(fault) => Err(fault),
                        Ok((items, after)) => Ok((ValueModel::Array(element, items), after)),
                    },
                },
            },
        },
        _ => decode_scalar(bytes, at, kind),
    }
}

/// One metadata entry: the key as a string, the type id of the value, which
/// must be one of the known kinds, then the value.
pub open spec fn decode_entry(bytes: Seq<u8>, at: int) -> Result<
    ((Seq<char>, ValueModel), int),
    (GgufError, int),
> {
    match decode_string(bytes, at) {
        Err(fault) => Err(fault),
        Ok((key, after_key)) => match decode_u32(bytes, after_key) {
            Err(fault) => Err(fault),
            Ok((id, after_id)) => match ValueType::of_id(id) {
                None => Err((GgufError::UnsupportedValueType(id), after_id)),
                Some(kind) => match decode_value(bytes, after_id, kind) {
                    Err(fault) => Err(fault),
                    Ok((value, after)) => Ok(((key, value), after)),
                },
            },
        },
    }
}

/// The first `count` metadata entries of a block that starts at `at`. The
/// first entry that cannot be decoded decides the fault.
pub open spec fn decode_entries(bytes: Seq<u8>, at: int, count: nat) -> Result<
    (Seq<(Seq<char>, ValueModel)>, int),
    (GgufError, int),
>
    decreases count,
{
    if count == 0 {
        Ok((Seq::empty(), at))
    } else {
        match decode_entries(bytes, at, (count - 1) as nat) {
            Err(fault) => Err(fault),
            Ok((entries, next)) => match decode_entry(bytes, next) {
                Err(fault) => Err(fault),
                Ok((entry, after)) => Ok((entries.push(entry), after)),
            },
        }
    }
}

/// The mapping that a run of entries builds up: a key that occurs again
/// takes the later value.
pub open spec fn entries_map(entries: Seq<(Seq<char>, ValueModel)>) -> Map<Seq<char>, ValueModel>
    decreases entries.len(),
{
    if entries.len() == 0 {
        Map::empty()
    } else {
        entries_map(entries.drop_last()).insert(entries.last().0, entries.last().1)
    }
}

/// The alignment that a mapping of metadata declares: the unsigned 32-bit
/// integer under `general.alignment`, and 32 where there is none.
pub open spec fn declared_alignment(metadata: Map<Seq<char>, ValueModel>) -> u32 {
    if metadata.contains_key("general.alignment"@) {
        match metadata["general.alignment"@].as_uint32() {
            Some(alignment) => alignment,
            None => DEFAULT_ALIGNMENT,
        }
    } else {
        DEFAULT_ALIGNMENT
    }
}

/// What the whole-file header decoder reads: the fixed fields, then the
/// metadata block, with the alignment the metadata declare.
pub struct FileHeaderView {
    pub version: u32,
    pub tensor_count: u64,
    pub metadata: Map<Seq<char>, ValueModel>,
    pub alignment: u32,
}

/// The fixed fields of a file of version 3, read field by field: the
/// version, the number of tensors and the number of metadata entries. The
/// magic tag is checked as soon as it is read, and so is the version.
pub open spec fn decode_file_fields(bytes: Seq<u8>, at: int) -> Result<
    ((u32, u64, u64), int),
    (GgufError, int),
> {
    match decode_u32(bytes, at) {
        Err(stopped) => Err(stopped),
        Ok((magic, after_magic)) => if magic != GGUF_MAGIC {
            Err((GgufError::InvalidMagic(magic), after_magic))
        } else {
            match decode_u32(bytes, after_magic) {
                Err(stopped) => Err(stopped),
                Ok((version, after_version)) => if version != FILE_VERSION {
                    Err((GgufError::UnsupportedVersion(version), after_version))
                } else {
                    match decode_u64(bytes, after_version) {
                        Err(stopped) => Err(stopped),
                        Ok((tensor_count, after_tensors)) => match decode_u64(
                            bytes,
                            after_tensors,
                        ) {
                            Err(stopped) => Err(stopped),
                            Ok((kv_count, after)) => Ok(
                                ((version, tensor_count, kv_count), after),
                            ),
                        },
                    }
                },
            }
        },
    }
}

/// The header of a file of version 3 together with its metadata block: the
/// fixed fields, then the entries. The alignment, which must be 8 or more,
/// is checked once the metadata are decoded.
pub open spec fn decode_file_header(bytes: Seq<u8>, at: int) -> Result<
    (FileHeaderView, int),
    (GgufError, int),
> {
    match decode_file_fields(bytes, at) {
        Err(fault) => Err(fault),
        Ok(((version, tensor_count, kv_count), start)) => match decode_entries(
            bytes,
            start,
            kv_count as nat,
        ) {
            Err(fault) => Err(fault),
            Ok((entries, after)) => {
                let metadata = entries_map(entries);
                let alignment = declared_alignment(metadata);
                if alignment < MIN_ALIGNMENT {
                    Err((GgufError::InvalidAlignment(alignment), after))
                } else {
                    Ok((FileHeaderView { version, tensor_count, metadata, alignment }, after))
                }
            },
        },
    }
}

/// The four bytes at `at` are the magic tag exactly when they are the
/// letters `G`, `G`, `U`, `F` in this order.
pub proof fn lemma_magic_bytes(bytes: Seq<u8>, at: int)
    requires
        0 <= at,
        at + 4 <= bytes.len(),
    ensures
        le_u32_at(bytes, at) == GGUF_MAGIC <==> bytes.subrange(at, at + 4) == seq![
            0x47u8,
            0x47u8,
            0x55u8,
            0x46u8,
        ],
{
    let tag = seq![0x47u8, 0x47u8, 0x55u8, 0x46u8];
    let run = bytes.subrange(at, at + 4);
    assert(run[0] == bytes[at] && run[1] == bytes[at + 1] && run[2] == bytes[at + 2] && run[3]
        == bytes[at + 3]);
    if le_u32_at(bytes, at) == GGUF_MAGIC {
        assert(run =~= tag);
    }
    if run == tag {
        assert(tag[0] == 0x47u8 && tag[1] == 0x47u8 && tag[2] == 0x55u8 && tag[3] == 0x46u8);
    }
}

/// One tensor descriptor: the name as a string, which must be between 1 and
/// 64 bytes long; the number of dimensions as an unsigned 32-bit integer;
/// that many sizes, 64 bits each; the type id, which the registry must know;
/// and the offset of the data, 64 bits.
pub open spec fn decode_tensor_info(bytes: Seq<u8>, at: int) -> Result<
    (TensorInfoView, int),
    (GgufError, int),
> {
    match decode_string(bytes, at) {
        Err(fault) => Err(fault),
        Ok((name, after_name)) => {
            let name_len = encode_utf8(name).len();
            if name_len == 0 || name_len > MAX_TENSOR_NAME_LEN {
                Err((GgufError::InvalidTensorName(name_len as u64), after_name))
            } else {
                match decode_u32(bytes, after_name) {
                    Err(fault) => Err(fault),
                    Ok((n_dims, start)) => {
                        let after_dims = start + 8 * n_dims;
                        if after_dims > bytes.len() {
                            Err((GgufError::Io, start + 8 * ((bytes.len() - start) / 8)))
                        } else {
                            match decode_u32(bytes, after_dims) {
                                Err(fault) => Err(fault),
                                Ok((id, after_id)) => match TensorType::of_id(id) {
                                    None => Err(
                                        (GgufError::UnsupportedTensorType(id), after_id),
                                    ),
                                    Some(tensor_type) => match decode_u64(bytes, after_id) {
                                        Err(fault) => Err(fault),
                                        Ok((offset, after)) => Ok(
                                            (
                                                TensorInfoView {
                                                    name,
                                                    n_dims,
                                                    dims: Seq::new(
                                                        n_dims as nat,
                                                        |i: int| le_u64_at(bytes, start + 8 * i),
                                                    ),
                                                    tensor_type,
                                                    offset,
                                                },
                                                after,
                                            ),
                                        ),
                                    },
                                },
                            }
                        }
                    },
                }
            }
        },
    }
}

/// The first `count` tensor descriptors of a block that starts at `at`. The
/// first descriptor that cannot be decoded decides the fault.
pub open spec fn decode_tensor_infos(bytes: Seq<u8>, at: int, count: nat) -> Result<
    (Seq<TensorInfoView>, int),
    (GgufError, int),
>
    decreases count,
{
    if count == 0 {
        Ok((Seq::empty(), at))
    } else {
        match decode_tensor_infos(bytes, at, (count - 1) as nat) {
            Err(fault) => Err(fault),
            Ok((infos, next)) => match decode_tensor_info(bytes, next) {
                Err(fault) => Err(fault),
                Ok((info, after)) => Ok((infos.push(info), after)),
            },
        }
    }
}

/// Once the first `reached` descriptors cannot be decoded, no longer run can.
pub proof fn lemma_tensor_infos_fault(bytes: Seq<u8>, at: int, reached: nat, count: nat)
    requires
        decode_tensor_infos(bytes, at, reached) is Err,
        reached <= count,
    ensures
        decode_tensor_infos(bytes, at, count) == decode_tensor_infos(bytes, at, reached),
    decreases count,
{
    if reached < count {
        lemma_tensor_infos_fault(bytes, at, reached, (count - 1) as nat);
    }
}

/// Once the first `reached` elements cannot be decoded, no longer run can.
pub proof fn lemma_elements_fault(
    bytes: Seq<u8>,
    at: int,
    kind: ValueType,
    reached: nat,
    count: nat,
)
    requires
        decode_elements(bytes, at, kind, reached) is Err,
        reached <= count,
    ensures
        decode_elements(bytes, at, kind, count) == decode_elements(bytes, at, kind, reached),
    decreases count,
{
    if reached < count {
        lemma_elements_fault(bytes, at, kind, reached, (count - 1) as nat);
    }
}

/// Once the first `reached` entries cannot be decoded, no longer run can.
pub proof fn lemma_entries_fault(bytes: Seq<u8>, at: int, reached: nat, count: nat)
    requires
        decode_entries(bytes, at, reached) is Err,
        reached <= count,
    ensures
        decode_entries(bytes, at, count) == decode_entries(bytes, at, reached),
    decreases count,
{
    if reached < count {
        lemma_entries_fault(bytes, at, reached, (count - 1) as nat);
    }
}

/// What a decoder of plain values owes its caller: on success the value the
/// layout gives and a reader left just after it; on failure the layout's
/// fault and a reader left where the layout says decoding stops.
pub open spec fn yields<T>(
    got: Result<T, GgufError>,
    next: int,
    owed: Result<(T, int), (GgufError, int)>,
) -> bool {
    match owed {
        Ok((value, after)) => got == Ok::<T, GgufError>(value) && next == after,
        Err((fault, stop)) => got == Err::<T, GgufError>(fault) && next == stop,
    }
}

/// The same for a decoder whose result is described by its view.
pub open spec fn yields_view<T: View>(
    got: Result<T, GgufError>,
    next: int,
    owed: Result<(T::V, int), (GgufError, int)>,
) -> bool {
    match owed {
        Ok((value, after)) => got is Ok && got->Ok_0@ == value && next == after,
        Err((fault, stop)) => got == Err::<T, GgufError>(fault) && next == stop,
    }
}

} // verus!
