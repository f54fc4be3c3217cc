//! The layout read the other way: the bytes that stand for a value.
//!
//! Nothing here runs. The encoders say which bytes a writer would put down,
//! and the laws say that the decoders of [`crate::wire`] read them back.

use vstd::prelude::*;
use vstd::utf8::{encode_utf8, encode_utf8_decode_utf8, encode_utf8_valid_utf8};
use crate::metadata::{GgufError, ValueModel, ValueType};
use crate::wire::{
    decode_elements, decode_entries, decode_entry, decode_scalar, decode_string, decode_value,
    le_u16_at, le_u32_at, le_u64_at, MAX_STRING_LEN,
};

verus! {

/// The two bytes of an unsigned 16-bit integer, least significant first.
pub open spec fn to_le_u16(v: u16) -> Seq<u8> {
    seq![(v % 0x100) as u8, (v / 0x100) as u8]
}

/// The four bytes of an unsigned 32-bit integer, least significant first.
pub open spec fn to_le_u32(v: u32) -> Seq<u8> {
    seq![
        (v % 0x100) as u8,
        ((v / 0x100) % 0x100) as u8,
        ((v / 0x1_0000) % 0x100) as u8,
        (v / 0x100_0000) as u8,
    ]
}

/// The eight bytes of an unsigned 64-bit integer, least significant first.
pub open spec fn to_le_u64(v: u64) -> Seq<u8> {
    to_le_u32((v % 0x1_0000_0000) as u32) + to_le_u32((v / 0x1_0000_0000) as u32)
}

/// Whether the bytes `run` stand in `bytes` from position `at` on.
pub open spec fn holds_at(bytes: Seq<u8>, at: int, run: Seq<u8>) -> bool {
    &&& 0 <= at
    &&& at + run.len() <= bytes.len()
    &&& bytes.subrange(at, at + run.len()) == run
}

/// Where two runs stand one after the other, each stands in its place.
pub proof fn lemma_holds_split(bytes: Seq<u8>, at: int, first: Seq<u8>, second: Seq<u8>)
    requires
        holds_at(bytes, at, first + second),
    ensures
        holds_at(bytes, at, first),
        holds_at(bytes, at + first.len(), second),
{
    let whole = first + second;
    let found = bytes.subrange(at, at + whole.len());
    assert(bytes.subrange(at, at + first.len()) =~= found.subrange(0, first.len() as int));
    assert(first =~= whole.subrange(0, first.len() as int));
    assert(bytes.subrange(at + first.len(), at + first.len() + second.len())
        =~= found.subrange(first.len() as int, whole.len() as int));
    assert(second =~= whole.subrange(first.len() as int, whole.len() as int));
}

/// Each byte of a run that stands in `bytes` is the byte of `bytes` there.
pub proof fn lemma_holds_index(bytes: Seq<u8>, at: int, run: Seq<u8>, i: int)
    requires
        holds_at(bytes, at, run),
        0 <= i < run.len(),
    ensures
        bytes[at + i] == run[i],
{
    assert(bytes.subrange(at, at + run.len())[i] == bytes[at + i]);
}

/// The bytes of a 16-bit integer are read back as that integer.
pub proof fn lemma_le_u16(bytes: Seq<u8>, at: int, v: u16)
    requires
        holds_at(bytes, at, to_le_u16(v)),
    ensures
        le_u16_at(bytes, at) == v,
        to_le_u16(v).len() == 2,
{
    lemma_holds_index(bytes, at, to_le_u16(v), 0);
    lemma_holds_index(bytes, at, to_le_u16(v), 1);
}

/// The bytes of a 32-bit integer are read back as that integer.
pub proof fn lemma_le_u32(bytes: Seq<u8>, at: int, v: u32)
    requires
        holds_at(bytes, at, to_le_u32(v)),
    ensures
        le_u32_at(bytes, at) == v,
        to_le_u32(v).len() == 4,
{
    lemma_holds_index(bytes, at, to_le_u32(v), 0);
    lemma_holds_index(bytes, at, to_le_u32(v), 1);
    lemma_holds_index(bytes, at, to_le_u32(v), 2);
    lemma_holds_index(bytes, at, to_le_u32(v), 3);
}

/// The bytes of a 64-bit integer are read back as that integer.
pub proof fn lemma_le_u64(bytes: Seq<u8>, at: int, v: u64)
    requires
        holds_at(bytes, at, to_le_u64(v)),
    ensures
        le_u64_at(bytes, at) == v,
        to_le_u64(v).len() == 8,
{
    let low = (v % 0x1_0000_0000) as u32;
    let high = (v / 0x1_0000_0000) as u32;
    lemma_holds_split(bytes, at, to_le_u32(low), to_le_u32(high));
    lemma_le_u32(bytes, at, low);
    lemma_le_u32(bytes, at + 4, high);
}

/// The bytes of a string: its length in bytes, then its UTF-8 encoding.
pub open spec fn encode_string(text: Seq<char>) -> Seq<u8> {
    to_le_u64(encode_utf8(text).len() as u64) + encode_utf8(text)
}

/// The bytes of a value that is not an array.
pub open spec fn encode_scalar(value: ValueModel) -> Seq<u8> {
    match value {
        ValueModel::Uint8(n) => seq![n],
        ValueModel::Int8(n) => seq![n as u8],
        ValueModel::Uint16(n) => to_le_u16(n),
        ValueModel::Int16(n) => to_le_u16(n as u16),
        ValueModel::Uint32(n) => to_le_u32(n),
        ValueModel::Int32(n) => to_le_u32(n as u32),
        ValueModel::Float32(bits) => to_le_u32(bits),
        ValueModel::Bool(b) => seq![if b { 1u8 } else { 0u8 }],
        ValueModel::String(text) => encode_string(text),
        ValueModel::Array(_, _) => Seq::empty(),
        ValueModel::Uint64(n) => to_le_u64(n),
        ValueModel::Int64(n) => to_le_u64(n as u64),
        ValueModel::Float64(bits) => to_le_u64(bits),
    }
}

/// The bytes of the elements of an array, one after the other.
pub open spec fn encode_items(items: Seq<ValueModel>) -> Seq<u8>
    decreases items.len(),
{
    if items.len() == 0 {
        Seq::empty()
    } else {
        encode_items(items.drop_last()) + encode_scalar(items.last())
    }
}

/// The bytes of a value. An array is the type id of its elements, their
/// number, and the elements.
pub open spec fn encode_value(value: ValueModel) -> Seq<u8> {
    match value {
        ValueModel::Array(element, items) => to_le_u32(element.spec_id()) + to_le_u64(
            items.len() as u64,
        ) + encode_items(items),
        _ => encode_scalar(value),
    }
}

/// The bytes of a metadata entry: the key, the type id of the value, and
/// the value.
pub open spec fn encode_entry(entry: (Seq<char>, ValueModel)) -> Seq<u8> {
    encode_string(entry.0) + to_le_u32(entry.1.kind().spec_id()) + encode_value(entry.1)
}

/// The bytes of a metadata block.
pub open spec fn encode_entries(entries: Seq<(Seq<char>, ValueModel)>) -> Seq<u8>
    decreases entries.len(),
{
    if entries.len() == 0 {
        Seq::empty()
    } else {
        encode_entries(entries.drop_last()) + encode_entry(entries.last())
    }
}

/// Whether a text can be stored: its encoding is within the bound on
/// strings.
pub open spec fn storable_text(text: Seq<char>) -> bool {
    encode_utf8(text).len() <= MAX_STRING_LEN
}

/// Whether a value that is not an array can be stored.
pub open spec fn storable_scalar(value: ValueModel) -> bool {
    match value {
        ValueModel::String(text) => storable_text(text),
        ValueModel::Array(_, _) => false,
        _ => true,
    }
}

/// Whether a value can be stored: text is within the bound, and an array
/// holds storable values of the one kind it declares, none of them arrays.
pub open spec fn storable(value: ValueModel) -> bool {
    match value {
        ValueModel::Array(element, items) => {
            &&& element != ValueType::Array
            &&& items.len() <= u64::MAX
            &&& forall|i: int|
                0 <= i < items.len() ==> (#[trigger] items[i]).kind() == element
                    && storable_scalar(items[i])
        },
        _ => storable_scalar(value),
    }
}

/// A stored string is read back as written.
pub proof fn law_string_round_trip(bytes: Seq<u8>, at: int, text: Seq<char>)
    requires
        storable_text(text),
        holds_at(bytes, at, encode_string(text)),
    ensures
        decode_string(bytes, at) == Ok::<(Seq<char>, int), (GgufError, int)>(
            (text, at + encode_string(text).len()),
        ),
{
    let body = encode_utf8(text);
    let len = body.len() as u64;
    lemma_holds_split(bytes, at, to_le_u64(len), body);
    lemma_le_u64(bytes, at, len);
    encode_utf8_valid_utf8(text);
    encode_utf8_decode_utf8(text);
}

/// A stored value that is not an array is read back as written.
pub proof fn law_scalar_round_trip(bytes: Seq<u8>, at: int, value: ValueModel)
    requires
        storable_scalar(value),
        holds_at(bytes, at, encode_scalar(value)),
    ensures
        decode_scalar(bytes, at, value.kind()) == Ok::<(ValueModel, int), (GgufError, int)>(
            (value, at + encode_scalar(value).len()),
        ),
{
    let run = encode_scalar(value);
    match value {
        ValueModel::Uint8(n) => {
            lemma_holds_index(bytes, at, run, 0);
        },
        ValueModel::Int8(n) => {
            lemma_holds_index(bytes, at, run, 0);
            assert((n as u8) as i8 == n) by (bit_vector);
        },
        ValueModel::Uint16(n) => {
            lemma_le_u16(bytes, at, n);
        },
        ValueModel::Int16(n) => {
            lemma_le_u16(bytes, at, n as u16);
            assert((n as u16) as i16 == n) by (bit_vector);
        },
        ValueModel::Uint32(n) => {
            lemma_le_u32(bytes, at, n);
        },
        ValueModel::Int32(n) => {
            lemma_le_u32(bytes, at, n as u32);
            assert((n as u32) as i32 == n) by (bit_vector);
        },
        ValueModel::Float32(bits) => {
            lemma_le_u32(bytes, at, bits);
        },
        ValueModel::Bool(b) => {
            lemma_holds_index(bytes, at, run, 0);
        },
        ValueModel::String(text) => {
            law_string_round_trip(bytes, at, text);
        },
        ValueModel::Array(_, _) => {},
        ValueModel::Uint64(n) => {
            lemma_le_u64(bytes, at, n);
        },
        ValueModel::Int64(n) => {
            lemma_le_u64(bytes, at, n as u64);
            assert((n as u64) as i64 == n) by (bit_vector);
        },
        ValueModel::Float64(bits) => {
            lemma_le_u64(bytes, at, bits);
        },
    }
}

/// The stored elements of an array are read back as written, in order.
pub proof fn law_items_round_trip(
    bytes: Seq<u8>,
    at: int,
    element: ValueType,
    items: Seq<ValueModel>,
)
    requires
        forall|i: int|
            0 <= i < items.len() ==> (#[trigger] items[i]).kind() == element && storable_scalar(
                items[i],
            ),
        holds_at(bytes, at, encode_items(items)),
    ensures
        decode_elements(bytes, at, element, items.len()) == Ok::<
            (Seq<ValueModel>, int),
            (GgufError, int),
        >((items, at + encode_items(items).len())),
    decreases items.len(),
{
    if items.len() == 0 {
        assert(items =~= Seq::empty());
    } else {
        let earlier = items.drop_last();
        lemma_holds_split(bytes, at, encode_items(earlier), encode_scalar(items.last()));
        law_items_round_trip(bytes, at, element, earlier);
        law_scalar_round_trip(bytes, at + encode_items(earlier).len(), items.last());
        assert(earlier.push(items.last()) =~= items);
    }
}

/// A stored value is read back as written.
pub proof fn law_value_round_trip(bytes: Seq<u8>, at: int, value: ValueModel)
    requires
        storable(value),
        holds_at(bytes, at, encode_value(value)),
    ensures
        decode_value(bytes, at, value.kind()) == Ok::<(ValueModel, int), (GgufError, int)>(
            (value, at + encode_value(value).len()),
        ),
{
    match value {
        ValueModel::Array(element, items) => {
            let id = to_le_u32(element.spec_id());
            let count = to_le_u64(items.len() as u64);
            lemma_holds_split(bytes, at, id + count, encode_items(items));
            lemma_holds_split(bytes, at, id, count);
            lemma_le_u32(bytes, at, element.spec_id());
            lemma_le_u64(bytes, at + 4, items.len() as u64);
            law_items_round_trip(bytes, at + 12, element, items);
        },
        _ => {
            law_scalar_round_trip(bytes, at, value);
        },
    }
}

/// A stored metadata entry is read back as written.
pub proof fn law_entry_round_trip(bytes: Seq<u8>, at: int, entry: (Seq<char>, ValueModel))
    requires
        storable_text(entry.0),
        storable(entry.1),
        holds_at(bytes, at, encode_entry(entry)),
    ensures
        decode_entry(bytes, at) == Ok::<((Seq<char>, ValueModel), int), (GgufError, int)>(
            (entry, at + encode_entry(entry).len()),
        ),
{
    let key = encode_string(entry.0);
    let id = to_le_u32(entry.1.kind().spec_id());
    lemma_holds_split(bytes, at, key + id, encode_value(entry.1));
    lemma_holds_split(bytes, at, key, id);
    law_string_round_trip(bytes, at, entry.0);
    lemma_le_u32(bytes, at + key.len(), entry.1.kind().spec_id());
    law_value_round_trip(bytes, at + key.len() + 4, entry.1);
}

/// A stored metadata block is read back as written: the same entries in
/// the same order, and so the same mapping, key for key and value for
/// value.
pub proof fn law_metadata_round_trip(
    bytes: Seq<u8>,
    at: int,
    entries: Seq<(Seq<char>, ValueModel)>,
)
    requires
        forall|i: int|
            0 <= i < entries.len() ==> storable_text((#[trigger] entries[i]).0) && storable(
                entries[i].1,
            ),
        holds_at(bytes, at, encode_entries(entries)),
    ensures
        decode_entries(bytes, at, entries.len()) == Ok::<
            (Seq<(Seq<char>, ValueModel)>, int),
            (GgufError, int),
        >((entries, at + encode_entries(entries).len())),
    decreases entries.len(),
{
    if entries.len() == 0 {
        assert(entries =~= Seq::empty());
    } else {
        let earlier = entries.drop_last();
        lemma_holds_split(bytes, at, encode_entries(earlier), encode_entry(entries.last()));
        law_metadata_round_trip(bytes, at, earlier);
        law_entry_round_trip(bytes, at + encode_entries(earlier).len(), entries.last());
        assert(earlier.push(entries.last()) =~= entries);
    }
}

} // verus!
