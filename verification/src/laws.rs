//! What holds of every buffer: laws of the layout and of its decoders.

use vstd::prelude::*;
use crate::metadata::{
    metadata_model, metadata_outcome, GgufError, GgufHeader, Metadata, ValueType,
};
use crate::tensors::{infos_view, tensor_infos_outcome, TensorInfo};
use crate::wire::{
    declared_alignment, decode_elements, decode_entries, decode_entry, decode_file_fields,
    decode_file_header, decode_header, decode_scalar, decode_string, decode_value, entries_map,
    le_u32_at, le_u64_at, lemma_magic_bytes, yields,
};

verus! {

/// The letters `G`, `G`, `U`, `F`: the bytes a file starts with.
pub open spec fn magic_tag() -> Seq<u8> {
    seq![0x47u8, 0x47u8, 0x55u8, 0x46u8]
}

/// Where four bytes are there to read, the header is refused for its magic
/// tag exactly when those bytes are not the tag; a buffer that starts with
/// the tag fails, if at all, for being too short.
pub proof fn law_magic_decides(bytes: Seq<u8>, at: int)
    requires
        0 <= at,
        at + 4 <= bytes.len(),
    ensures
        decode_header(bytes, at) is Err && decode_header(bytes, at)->Err_0.0 is InvalidMagic
            <==> bytes.subrange(at, at + 4) != magic_tag(),
        bytes.subrange(at, at + 4) == magic_tag() ==> (decode_header(bytes, at) is Ok
            || decode_header(bytes, at)->Err_0.0 == GgufError::Io),
        decode_file_header(bytes, at) is Err && decode_file_header(bytes, at)->Err_0.0
            is InvalidMagic <==> bytes.subrange(at, at + 4) != magic_tag(),
{
    lemma_magic_bytes(bytes, at);
    lemma_entries_never_blame_magic(
        bytes,
        at + 24,
        le_u64_at(bytes, at + 16) as nat,
    );
}

/// No fault of a metadata block is a fault of the magic tag.
proof fn lemma_entries_never_blame_magic(bytes: Seq<u8>, at: int, count: nat)
    ensures
        decode_entries(bytes, at, count) is Err ==> !(decode_entries(bytes, at, count)->Err_0.0
            is InvalidMagic),
    decreases count,
{
    if count > 0 {
        lemma_entries_never_blame_magic(bytes, at, (count - 1) as nat);
        match decode_entries(bytes, at, (count - 1) as nat) {
            Ok((_, next)) => {
                lemma_entry_never_blames_magic(bytes, next);
            },
            Err(_) => {},
        }
    }
}

proof fn lemma_entry_never_blames_magic(bytes: Seq<u8>, at: int)
    ensures
        decode_entry(bytes, at) is Err ==> !(decode_entry(bytes, at)->Err_0.0 is InvalidMagic),
{
    match decode_string(bytes, at) {
        Ok((_, after_key)) => {
            match ValueType::of_id(le_u32_at(bytes, after_key)) {
                Some(ValueType::Array) => {
                    let element = ValueType::of_id(le_u32_at(bytes, after_key + 4));
                    if element is Some {
                        lemma_elements_never_blame_magic(
                            bytes,
                            after_key + 16,
                            element->0,
                            le_u64_at(bytes, after_key + 8) as nat,
                        );
                    }
                },
                _ => {},
            }
        },
        Err(_) => {},
    }
}

proof fn lemma_elements_never_blame_magic(bytes: Seq<u8>, at: int, kind: ValueType, count: nat)
    ensures
        decode_elements(bytes, at, kind, count) is Err ==> !(decode_elements(
            bytes,
            at,
            kind,
            count,
        )->Err_0.0 is InvalidMagic),
    decreases count,
{
    if count > 0 {
        lemma_elements_never_blame_magic(bytes, at, kind, (count - 1) as nat);
    }
}

/// Once the fixed fields and the metadata of a file decode, the header is
/// refused exactly when the declared alignment is below 8, and the error
/// holds that alignment. Metadata without `general.alignment` declare 32.
pub proof fn law_alignment_decides(bytes: Seq<u8>, at: int)
    requires
        decode_file_fields(bytes, at) is Ok,
        decode_entries(
            bytes,
            decode_file_fields(bytes, at)->Ok_0.1,
            decode_file_fields(bytes, at)->Ok_0.0.2 as nat,
        ) is Ok,
    ensures
        ({
            let fields = decode_file_fields(bytes, at)->Ok_0;
            let metadata = entries_map(
                decode_entries(bytes, fields.1, fields.0.2 as nat)->Ok_0.0,
            );
            let declared = declared_alignment(metadata);
            &&& !metadata.contains_key("general.alignment"@) ==> declared == 32
            &&& declared >= 8 ==> decode_file_header(bytes, at) is Ok && decode_file_header(
                bytes,
                at,
            )->Ok_0.0.alignment == declared
            &&& declared < 8 ==> decode_file_header(bytes, at) is Err && decode_file_header(
                bytes,
                at,
            )->Err_0.0 == GgufError::InvalidAlignment(declared)
        }),
{
}

/// A header that decodes is refused once any one bit of its magic tag is
/// flipped.
pub proof fn law_magic_bit_flip(bytes: Seq<u8>, at: int, byte: int, bit: u8)
    requires
        0 <= at,
        decode_header(bytes, at) is Ok,
        0 <= byte < 4,
        bit < 8,
    ensures
        ({
            let flipped = bytes.update(at + byte, bytes[at + byte] ^ (1u8 << bit));
            decode_header(flipped, at) is Err && decode_header(flipped, at)->Err_0.0
                is InvalidMagic
        }),
{
    let was = bytes[at + byte];
    let now = was ^ (1u8 << bit);
    assert(now != was) by (bit_vector)
        requires
            now == was ^ (1u8 << bit),
            bit < 8,
    ;
    let flipped = bytes.update(at + byte, now);
    lemma_magic_bytes(bytes, at);
    lemma_magic_bytes(flipped, at);
    assert(bytes.subrange(at, at + 4)[byte] == was);
    assert(flipped.subrange(at, at + 4)[byte] == now);
}

/// Decoding depends on the bytes and the position alone: two outcomes that
/// both meet the contract of the header decoder are one and the same, and
/// leave the reader at the same position, on success and on failure.
pub proof fn law_header_decoding_repeats(
    bytes: Seq<u8>,
    at: int,
    first: Result<GgufHeader, GgufError>,
    first_next: int,
    second: Result<GgufHeader, GgufError>,
    second_next: int,
)
    requires
        yields(first, first_next, decode_header(bytes, at)),
        yields(second, second_next, decode_header(bytes, at)),
    ensures
        first == second,
        first_next == second_next,
{
}

/// Two outcomes of decoding the same metadata block hold the same mapping,
/// or are the same error, and leave the reader at the same position either
/// way.
pub proof fn law_metadata_decoding_repeats(
    bytes: Seq<u8>,
    at: int,
    count: nat,
    first: Result<Metadata, GgufError>,
    first_next: int,
    second: Result<Metadata, GgufError>,
    second_next: int,
)
    requires
        metadata_outcome(bytes, at, count, first, first_next),
        metadata_outcome(bytes, at, count, second, second_next),
    ensures
        first is Ok <==> second is Ok,
        first is Ok ==> metadata_model(first->Ok_0) == metadata_model(second->Ok_0),
        first is Err ==> first->Err_0 == second->Err_0,
        first_next == second_next,
{
}

/// Two outcomes of decoding the same block of tensor descriptors hold the
/// same descriptors in the same order, or are the same error, and leave the
/// reader at the same position either way.
pub proof fn law_tensor_decoding_repeats(
    bytes: Seq<u8>,
    at: int,
    count: nat,
    first: Result<Vec<TensorInfo>, GgufError>,
    first_next: int,
    second: Result<Vec<TensorInfo>, GgufError>,
    second_next: int,
)
    requires
        tensor_infos_outcome(bytes, at, count, first, first_next),
        tensor_infos_outcome(bytes, at, count, second, second_next),
    ensures
        first is Ok <==> second is Ok,
        first is Ok ==> infos_view(first->Ok_0@) == infos_view(second->Ok_0@),
        first is Err ==> first->Err_0 == second->Err_0,
        first_next == second_next,
{
}

/// A decoded scalar is of the kind asked for, and is no array.
pub proof fn law_decoded_scalar_kind(bytes: Seq<u8>, at: int, kind: ValueType)
    requires
        decode_scalar(bytes, at, kind) is Ok,
    ensures
        decode_scalar(bytes, at, kind)->Ok_0.0.kind() == kind,
        kind != ValueType::Array,
{
}

/// The decoded elements of an array are all of the kind asked for, and
/// there are as many as were asked for.
pub proof fn law_decoded_elements_kind(bytes: Seq<u8>, at: int, kind: ValueType, count: nat)
    requires
        decode_elements(bytes, at, kind, count) is Ok,
    ensures
        ({
            let items = decode_elements(bytes, at, kind, count)->Ok_0.0;
            &&& items.len() == count
            &&& forall|i: int| 0 <= i < count ==> (#[trigger] items[i]).kind() == kind
        }),
    decreases count,
{
    if count > 0 {
        law_decoded_elements_kind(bytes, at, kind, (count - 1) as nat);
        let earlier = decode_elements(bytes, at, kind, (count - 1) as nat)->Ok_0;
        law_decoded_scalar_kind(bytes, earlier.1, kind);
    }
}

/// A decoded value is of the kind asked for and well formed: an array
/// holds no arrays, and its elements are of the one kind it declares.
pub proof fn law_decoded_value_well_formed(bytes: Seq<u8>, at: int, kind: ValueType)
    requires
        decode_value(bytes, at, kind) is Ok,
    ensures
        decode_value(bytes, at, kind)->Ok_0.0.kind() == kind,
        decode_value(bytes, at, kind)->Ok_0.0.well_formed(),
{
    if kind == ValueType::Array {
        let id = le_u32_at(bytes, at);
        let element = ValueType::of_id(id)->0;
        let count = le_u64_at(bytes, at + 4);
        law_decoded_elements_kind(bytes, at + 12, element, count as nat);
    } else {
        law_decoded_scalar_kind(bytes, at, kind);
    }
}

} // verus!
