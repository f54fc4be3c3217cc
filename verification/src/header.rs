//! The whole-file header: the fixed fields, the metadata, the alignment.

use vstd::prelude::*;
use crate::endian::{
    read_i16, read_i32, read_i64, read_i8, read_u16, read_u32, read_u64, read_u8,
};
use crate::error::GGUFError;
use crate::metadata::{metadata_model, GgufError, Metadata, Value, ValueModel, ValueType};
use crate::reader::ByteReader;
use crate::strmap::StringMap;
use crate::tensor::read_gguf_string;
use crate::wire::{
    decode_elements, decode_entries, decode_entry, decode_file_fields, decode_file_header,
    decode_scalar, decode_u32, entries_map, lemma_elements_fault, lemma_entries_fault,
    lemma_magic_bytes, DEFAULT_ALIGNMENT, FILE_VERSION, MIN_ALIGNMENT,
};

verus! {

/// The header of a file together with its metadata.
pub struct GGUFHeader {
    /// The version of the format; always 3.
    pub version: u32,
    /// The number of tensor descriptors in the file.
    pub tensor_count: u64,
    /// The metadata, by key.
    pub metadata: Metadata,
    /// The alignment of the data section; 32 unless the metadata say
    /// otherwise, and never below 8.
    pub alignment: u32,
}

impl GGUFHeader {
    /// Reads the header and the metadata block that follows it.
    ///
    /// The file must start with `GGUF` and be of version 3. The alignment
    /// is the `general.alignment` of the metadata, 32 where they hold none,
    /// and is refused below 8.
    ///
    /// On failure the reader is left at the start of the field that was cut
    /// short, or just after the field that was refused; a refused alignment
    /// leaves it after the metadata.
    pub fn read(reader: &mut ByteReader) -> (r: Result<GGUFHeader, GGUFError>)
        requires
            old(reader).wf(),
        ensures
            final(reader).wf(),
            final(reader).source() == old(reader).source(),
            match decode_file_header(old(reader).source(), old(reader).position() as int) {
                Ok((header, after)) => {
                    &&& r is Ok
                    &&& r->Ok_0.version == header.version
                    &&& r->Ok_0.tensor_count == header.tensor_count
                    &&& r->Ok_0.metadata.wf()
                    &&& metadata_model(r->Ok_0.metadata) == header.metadata
                    &&& r->Ok_0.alignment == header.alignment
                    &&& final(reader).position() == after
                },
                Err((fault, stop)) => {
                    &&& r is Err
                    &&& r->Err_0.reports(fault)
                    &&& !(r->Err_0 is InvalidTensorName)
                    &&& final(reader).position() == stop
                },
            },
    {
        let (version, tensor_count, metadata_kv_count) = read_fixed_fields(reader)?;
        let metadata = read_entries(reader, metadata_kv_count)?;
        let alignment = match metadata.get("general.alignment") {
            None => DEFAULT_ALIGNMENT,
            Some(value) => match value.as_uint32() {
                Some(alignment) => alignment,
                None => DEFAULT_ALIGNMENT,
            },
        };
        if alignment < MIN_ALIGNMENT {
            return Err(GGUFError::InvalidAlignment(alignment));
        }
        Ok(GGUFHeader { version, tensor_count, metadata, alignment })
    }
}

/// Reads the fixed fields: the magic tag, which must be `GGUF`; the
/// version, which must be 3; the two counts.
fn read_fixed_fields(reader: &mut ByteReader) -> (r: Result<(u32, u64, u64), GGUFError>)
    requires
        old(reader).wf(),
    ensures
        final(reader).wf(),
        final(reader).source() == old(reader).source(),
        match decode_file_fields(old(reader).source(), old(reader).position() as int) {
            Ok((fields, after)) => {
                &&& r == Ok::<(u32, u64, u64), GGUFError>(fields)
                &&& final(reader).position() == after
            },
            Err((fault, stop)) => {
                &&& r is Err
                &&& r->Err_0.reports(fault)
                &&& !(r->Err_0 is InvalidTensorName)
                &&& final(reader).position() == stop
            },
        },
{
    let magic = match reader.take(4) {
        Some(magic) => magic,
        None => {
            return Err(GGUFError::Io);
        },
    };
    proof {
        lemma_magic_bytes(old(reader).source(), old(reader).position() as int);
    }
    if !(magic[0] == 0x47 && magic[1] == 0x47 && magic[2] == 0x55 && magic[3] == 0x46) {
        return Err(GGUFError::InvalidMagic);
    }
    let version = match read_u32(reader) {
        Some(version) => version,
        None => {
            return Err(GGUFError::Io);
        },
    };
    if version != FILE_VERSION {
        return Err(GGUFError::UnsupportedVersion(version));
    }
    let tensor_count = match read_u64(reader) {
        Some(count) => count,
        None => {
            return Err(GGUFError::Io);
        },
    };
    let metadata_kv_count = match read_u64(reader) {
        Some(count) => count,
        None => {
            return Err(GGUFError::Io);
        },
    };
    Ok((version, tensor_count, metadata_kv_count))
}

/// Reads `count` metadata entries into a mapping. A key that occurs again
/// replaces the earlier entry.
#[verifier::loop_isolation(false)]
fn read_entries(reader: &mut ByteReader, count: u64) -> (r: Result<Metadata, GGUFError>)
    requires
        old(reader).wf(),
    ensures
        final(reader).wf(),
        final(reader).source() == old(reader).source(),
        match decode_entries(old(reader).source(), old(reader).position() as int, count as nat) {
            Ok((entries, after)) => {
                &&& r is Ok
                &&& r->Ok_0.wf()
                &&& metadata_model(r->Ok_0) == entries_map(entries)
                &&& final(reader).position() == after
            },
            Err((fault, stop)) => {
                &&& r is Err
                &&& r->Err_0.reports(fault)
                &&& !(r->Err_0 is InvalidTensorName)
                &&& final(reader).position() == stop
            },
        },
{
    let ghost start = reader.position() as int;
    let ghost mut entries: Seq<(Seq<char>, ValueModel)> = Seq::empty();
    let mut metadata: Metadata = StringMap::new();
    let mut i: u64 = 0;
    assert(metadata_model(metadata) =~= entries_map(entries));
    while i < count
        invariant
            reader.wf(),
            reader.source() == old(reader).source(),
            i <= count,
            decode_entries(reader.source(), start, i as nat) == Ok::<
                (Seq<(Seq<char>, ValueModel)>, int),
                (GgufError, int),
            >((entries, reader.position() as int)),
            metadata.wf(),
            metadata_model(metadata) == entries_map(entries),
        decreases count - i,
    {
        match read_metadata_kv(reader) {
            Err(fault) => {
                proof {
                    lemma_entries_fault(reader.source(), start, (i + 1) as nat, count as nat);
                }
                return Err(fault);
            },
            Ok((key, value)) => {
                proof {
                    let grown = entries.push((key@, value@));
                    assert(grown.drop_last() =~= entries);
                    assert(metadata@.insert(key@, value).map_values(|v: Value| v@)
                        =~= metadata@.map_values(|v: Value| v@).insert(key@, value@));
                    entries = grown;
                }
                let _ = metadata.insert(key, value);
            },
        }
        i = i + 1;
    }
    Ok(metadata)
}

/// What a decoder of this module owes its caller: on success the item the
/// layout gives and a reader left just after it; on failure the report of
/// the layout's fault and a reader left where the layout says decoding
/// stops.
pub open spec fn reads<T: View>(
    got: Result<T, GGUFError>,
    next: int,
    owed: Result<(T::V, int), (GgufError, int)>,
) -> bool {
    match owed {
        Ok((item, after)) => got is Ok && got->Ok_0@ == item && next == after,
        Err((fault, stop)) => {
            &&& got is Err
            &&& got->Err_0.reports(fault)
            &&& !(got->Err_0 is InvalidTensorName)
            &&& next == stop
        },
    }
}

/// Reads one metadata entry: its key, the type id of its value, its value.
#[verifier::loop_isolation(false)]
pub fn read_metadata_kv(reader: &mut ByteReader) -> (r: Result<(String, Value), GGUFError>)
    requires
        old(reader).wf(),
    ensures
        final(reader).wf(),
        final(reader).source() == old(reader).source(),
        match decode_entry(old(reader).source(), old(reader).position() as int) {
            Ok((entry, after)) => {
                &&& r is Ok
                &&& r->Ok_0.0@ == entry.0
                &&& r->Ok_0.1@ == entry.1
                &&& final(reader).position() == after
            },
            Err((fault, stop)) => {
                &&& r is Err
                &&& r->Err_0.reports(fault)
                &&& !(r->Err_0 is InvalidTensorName)
                &&& final(reader).position() == stop
            },
        },
{
    let key = read_gguf_string(reader)?;
    let value_type = read_value_type(reader)?;
    let value = match value_type {
        ValueType::Array => {
            let array_type = read_value_type(reader)?;
            if let ValueType::Array = array_type {
                return Err(GGUFError::Metadata("Nested arrays not supported".to_owned()));
            }
            let len = match read_u64(reader) {
                Some(len) => len,
                None => {
                    return Err(GGUFError::Io);
                },
            };
            let ghost start = reader.position() as int;
            let ghost mut models: Seq<ValueModel> = Seq::empty();
            let mut items: Vec<Value> = Vec::new();
            let mut i: u64 = 0;
            while i < len
                invariant
                    reader.wf(),
                    reader.source() == old(reader).source(),
                    i <= len,
                    decode_elements(reader.source(), start, array_type, i as nat) == Ok::<
                        (Seq<ValueModel>, int),
                        (GgufError, int),
                    >((models, reader.position() as int)),
                    items@.len() == i,
                    models.len() == i,
                    forall|j: int| 0 <= j < i ==> (#[trigger] items@[j])@ == models[j],
                decreases len - i,
            {
                match read_typed_value(reader, &array_type) {
                    Err(fault) => {
                        proof {
                            lemma_elements_fault(
                                reader.source(),
                                start,
                                array_type,
                                (i + 1) as nat,
                                len as nat,
                            );
                        }
                        return Err(fault);
                    },
                    Ok(item) => {
                        proof {
                            models = models.push(item@);
                        }
                        items.push(item);
                    },
                }
                i = i + 1;
            }
            let value = Value::Array(array_type, items);
            assert(value@ == ValueModel::Array(array_type, models)) by {
                assert(value@->Array_1 =~= models);
            }
            value
        },
        _ => read_typed_value(reader, &value_type)?,
    };
    Ok((key, value))
}

/// Reads a type id and finds the kind of value it stands for.
fn read_value_type(reader: &mut ByteReader) -> (r: Result<ValueType, GGUFError>)
    requires
        old(reader).wf(),
    ensures
        final(reader).wf(),
        final(reader).source() == old(reader).source(),
        match decode_u32(old(reader).source(), old(reader).position() as int) {
            Ok((id, after)) => {
                &&& final(reader).position() == after
                &&& match ValueType::of_id(id) {
                    Some(kind) => r == Ok::<ValueType, GGUFError>(kind),
                    None => r == Err::<ValueType, GGUFError>(GGUFError::InvalidValueType(id)),
                }
            },
            Err(_) => {
                &&& r == Err::<ValueType, GGUFError>(GGUFError::Io)
                &&& final(reader).position() == old(reader).position()
            },
        },
{
    let id = match read_u32(reader) {
        Some(id) => id,
        None => {
            return Err(GGUFError::Io);
        },
    };
    match ValueType::from_u32(id) {
        Some(kind) => Ok(kind),
        None => Err(GGUFError::InvalidValueType(id)),
    }
}

/// Reads one value that is not an array, of the kind given. Asked for an
/// array, it reads nothing and reports `Metadata("Nested arrays not
/// supported")`.
pub fn read_typed_value(reader: &mut ByteReader, value_type: &ValueType) -> (r: Result<
    Value,
    GGUFError,
>)
    requires
        old(reader).wf(),
    ensures
        final(reader).wf(),
        final(reader).source() == old(reader).source(),
        reads(
            r,
            final(reader).position() as int,
            decode_scalar(old(reader).source(), old(reader).position() as int, *value_type),
        ),
{
    match *value_type {
        ValueType::Uint8 => match read_u8(reader) {
            Some(n) => Ok(Value::Uint8(n)),
            None => Err(GGUFError::Io),
        },
        ValueType::Int8 => match read_i8(reader) {
            Some(n) => Ok(Value::Int8(n)),
            None => Err(GGUFError::Io),
        },
        ValueType::Uint16 => match read_u16(reader) {
            Some(n) => Ok(Value::Uint16(n)),
            None => Err(GGUFError::Io),
        },
        ValueType::Int16 => match read_i16(reader) {
            Some(n) => Ok(Value::Int16(n)),
            None => Err(GGUFError::Io),
        },
        ValueType::Uint32 => match read_u32(reader) {
            Some(n) => Ok(Value::Uint32(n)),
            None => Err(GGUFError::Io),
        },
        ValueType::Int32 => match read_i32(reader) {
            Some(n) => Ok(Value::Int32(n)),
            None => Err(GGUFError::Io),
        },
        ValueType::Float32 => match read_u32(reader) {
            Some(bits) => Ok(Value::Float32(bits)),
            None => Err(GGUFError::Io),
        },
        ValueType::Bool => match read_u8(reader) {
            Some(n) => Ok(Value::Bool(n != 0)),
            None => Err(GGUFError::Io),
        },
        ValueType::String => match read_gguf_string(reader) {
            Ok(text) => Ok(Value::String(text)),
            Err(fault) => Err(fault),
        },
        ValueType::Uint64 => match read_u64(reader) {
            Some(n) => Ok(Value::Uint64(n)),
            None => Err(GGUFError::Io),
        },
        ValueType::Int64 => match read_i64(reader) {
            Some(n) => Ok(Value::Int64(n)),
            None => Err(GGUFError::Io),
        },
        ValueType::Float64 => match read_u64(reader) {
            Some(bits) => Ok(Value::Float64(bits)),
            None => Err(GGUFError::Io),
        },
        ValueType::Array => Err(GGUFError::Metadata("Nested arrays not supported".to_owned())),
    }
}

} // verus!
