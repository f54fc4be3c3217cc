//! Tensor descriptors with their raw type ids, and the strings of the
//! whole-file header decoder.

use vstd::prelude::*;
use vstd::slice::slice_to_vec;
use vstd::utf8::{decode_utf8_encode_utf8, encode_utf8};
use crate::endian::{read_u32, read_u64};
use crate::error::GGUFError;
use crate::metadata::TensorType;
use crate::reader::ByteReader;
use crate::wire::{
    decode_string, decode_tensor_info, le_u64_at, MAX_STRING_LEN, MAX_TENSOR_NAME_LEN,
};

verus! {

/// What the file says about one tensor, with the type id as stored.
#[derive(Debug, Clone, PartialEq)]
pub struct TensorInfo {
    /// The name of the tensor.
    pub name: String,
    /// The size of each dimension.
    pub dimensions: Vec<u64>,
    /// The type id of the elements; always one the registry knows.
    pub type_: u32,
    /// Where the data starts, counted from the start of the data section.
    pub offset: u64,
}

impl TensorInfo {
    /// Reads one tensor descriptor.
    ///
    /// A name that is empty or longer than 64 bytes is refused with
    /// `InvalidTensorName`, which holds the name.
    #[verifier::loop_isolation(false)]
    pub fn read(reader: &mut ByteReader) -> (r: Result<TensorInfo, GGUFError>)
        requires
            old(reader).wf(),
        ensures
            final(reader).wf(),
            final(reader).source() == old(reader).source(),
            match decode_tensor_info(old(reader).source(), old(reader).position() as int) {
                Ok((info, after)) => {
                    &&& r is Ok
                    &&& r->Ok_0.name@ == info.name
                    &&& r->Ok_0.dimensions@ == info.dims
                    &&& r->Ok_0.type_ == info.tensor_type.id()
                    &&& r->Ok_0.offset == info.offset
                    &&& final(reader).position() == after
                },
                Err((fault, stop)) => {
                    &&& r is Err
                    &&& r->Err_0.reports(fault)
                    &&& final(reader).position() == stop
                    &&& r matches Err(GGUFError::InvalidTensorName(name)) ==> {
                        &&& decode_string(
                            old(reader).source(),
                            old(reader).position() as int,
                        ) matches Ok((text, _))
                        &&& name@ == text
                    }
                },
            },
    {
        let name = read_gguf_string(reader)?;
        proof {
            let at = old(reader).position() as int;
            let len = le_u64_at(reader.source(), at);
            decode_utf8_encode_utf8(reader.source().subrange(at + 8, at + 8 + len));
        }
        validate_tensor_name(name.as_str())?;
        let n_dims = match read_u32(reader) {
            Some(n) => n,
            None => {
                return Err(GGUFError::Io);
            },
        };
        let ghost start = reader.position() as int;
        let mut dimensions: Vec<u64> = Vec::new();
        let mut i: u32 = 0;
        while i < n_dims
            invariant
                reader.wf(),
                reader.source() == old(reader).source(),
                i <= n_dims,
                reader.position() == start + 8 * i,
                dimensions@ =~= Seq::new(
                    i as nat,
                    |j: int| le_u64_at(reader.source(), start + 8 * j),
                ),
            decreases n_dims - i,
        {
            match read_u64(reader) {
                Some(dimension) => {
                    dimensions.push(dimension);
                },
                None => {
                    return Err(GGUFError::Io);
                },
            }
            i = i + 1;
        }
        let type_ = match read_u32(reader) {
            Some(id) => id,
            None => {
                return Err(GGUFError::Io);
            },
        };
        if TensorType::from_u32(type_).is_none() {
            return Err(GGUFError::InvalidTensorType(type_));
        }
        let offset = match read_u64(reader) {
            Some(offset) => offset,
            None => {
                return Err(GGUFError::Io);
            },
        };
        Ok(TensorInfo { name, dimensions, type_, offset })
    }
}

/// Accepts a tensor name of 1 to 64 bytes and refuses any other, with the
/// name in the error.
pub fn validate_tensor_name(name: &str) -> (r: Result<(), GGUFError>)
    ensures
        1 <= encode_utf8(name@).len() <= MAX_TENSOR_NAME_LEN ==> r is Ok,
        !(1 <= encode_utf8(name@).len() <= MAX_TENSOR_NAME_LEN) ==> (r matches Err(
            GGUFError::InvalidTensorName(refused),
        ) && refused@ == name@),
{
    let len = name.as_bytes().len();
    if len == 0 || len > MAX_TENSOR_NAME_LEN as usize {
        return Err(GGUFError::InvalidTensorName(name.to_owned()));
    }
    Ok(())
}

/// Reads a length-prefixed UTF-8 string.
///
/// A length above one mebibyte is refused as `Metadata("String too long")`
/// before any byte of the string is read.
pub fn read_gguf_string(reader: &mut ByteReader) -> (r: Result<String, GGUFError>)
    requires
        old(reader).wf(),
    ensures
        final(reader).wf(),
        final(reader).source() == old(reader).source(),
        match decode_string(old(reader).source(), old(reader).position() as int) {
            Ok((text, after)) => {
                &&& r is Ok
                &&& r->Ok_0@ == text
                &&& final(reader).position() == after
            },
            Err((fault, stop)) => {
                &&& r is Err
                &&& r->Err_0.reports(fault)
                &&& !(r->Err_0 is InvalidTensorName)
                &&& final(reader).position() == stop
            },
        },
{
    let len = match read_u64(reader) {
        Some(len) => len,
        None => {
            return Err(GGUFError::Io);
        },
    };
    if len > MAX_STRING_LEN {
        return Err(GGUFError::Metadata("String too long".to_owned()));
    }
    match reader.take(len as usize) {
        None => Err(GGUFError::Io),
        Some(run) => match String::from_utf8(slice_to_vec(run)) {
            Ok(text) => Ok(text),
            Err(_) => Err(GGUFError::InvalidString),
        },
    }
}

} // verus!
