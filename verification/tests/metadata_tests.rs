use gguf_rs::metadata::{
    read_string, read_u16_le, read_u32_le, read_u64_le, read_u8, FloatBits, GgufError, GgufReader,
    Value, ValueType,
};
use gguf_rs::reader::ByteReader;

fn put_string(bytes: &mut Vec<u8>, text: &str) {
    bytes.extend_from_slice(&(text.len() as u64).to_le_bytes());
    bytes.extend_from_slice(text.as_bytes());
}

fn put_entry_head(bytes: &mut Vec<u8>, key: &str, type_id: u32) {
    put_string(bytes, key);
    bytes.extend_from_slice(&type_id.to_le_bytes());
}

fn all_kinds_block() -> (Vec<u8>, u64) {
    let mut b = Vec::new();
    put_entry_head(&mut b, "k.u8", 0);
    b.push(200);
    put_entry_head(&mut b, "k.i8", 1);
    b.push(0xFE);
    put_entry_head(&mut b, "k.u16", 2);
    b.extend_from_slice(&60000u16.to_le_bytes());
    put_entry_head(&mut b, "k.i16", 3);
    b.extend_from_slice(&(-1234i16).to_le_bytes());
    put_entry_head(&mut b, "k.u32", 4);
    b.extend_from_slice(&4_000_000_000u32.to_le_bytes());
    put_entry_head(&mut b, "k.i32", 5);
    b.extend_from_slice(&(-7i32).to_le_bytes());
    put_entry_head(&mut b, "k.f32", 6);
    b.extend_from_slice(&1.5f32.to_le_bytes());
    put_entry_head(&mut b, "k.bool", 7);
    b.push(1);
    put_entry_head(&mut b, "k.str", 8);
    put_string(&mut b, "h\u{e9}llo");
    put_entry_head(&mut b, "k.arr.u32", 9);
    b.extend_from_slice(&4u32.to_le_bytes());
    b.extend_from_slice(&3u64.to_le_bytes());
    for n in [1u32, 2, 3] {
        b.extend_from_slice(&n.to_le_bytes());
    }
    put_entry_head(&mut b, "k.arr.str", 9);
    b.extend_from_slice(&8u32.to_le_bytes());
    b.extend_from_slice(&2u64.to_le_bytes());
    put_string(&mut b, "ab");
    put_string(&mut b, "");
    put_entry_head(&mut b, "k.u64", 10);
    b.extend_from_slice(&u64::MAX.to_le_bytes());
    put_entry_head(&mut b, "k.i64", 11);
    b.extend_from_slice(&i64::MIN.to_le_bytes());
    put_entry_head(&mut b, "k.f64", 12);
    b.extend_from_slice(&(-2.25f64).to_le_bytes());
    (b, 14)
}

#[test]
fn primitive_readers_are_little_endian() {
    let bytes = vec![0x12, 0x34, 0x12, 0x78, 0x56, 0x34, 0x12, 1, 2, 3, 4, 5, 6, 7, 8];
    let mut reader = ByteReader::new(&bytes);
    assert_eq!(read_u8(&mut reader), Ok(0x12));
    assert_eq!(read_u16_le(&mut reader), Ok(0x1234));
    assert_eq!(read_u32_le(&mut reader), Ok(0x12345678));
    assert_eq!(read_u64_le(&mut reader), Ok(0x0807060504030201));
    assert_eq!(reader.offset(), 15);
    assert_eq!(read_u8(&mut reader), Err(GgufError::Io));
}

#[test]
fn primitive_readers_fail_on_short_input_without_moving() {
    let bytes = vec![1u8, 2, 3];
    let mut reader = ByteReader::new(&bytes);
    assert_eq!(read_u32_le(&mut reader), Err(GgufError::Io));
    assert_eq!(read_u64_le(&mut reader), Err(GgufError::Io));
    assert_eq!(reader.offset(), 0);
    assert_eq!(read_u16_le(&mut reader), Ok(0x0201));
    assert_eq!(read_u16_le(&mut reader), Err(GgufError::Io));
    assert_eq!(reader.offset(), 2);
}

#[test]
fn string_entry_decodes_to_string_value() {
    let mut bytes = Vec::new();
    put_entry_head(&mut bytes, "test.str", 8);
    put_string(&mut bytes, "hello");
    let mut reader = ByteReader::new(&bytes);
    let metadata = GgufReader::read_metadata(&mut reader, 1).unwrap();
    assert_eq!(metadata.len(), 1);
    assert_eq!(metadata.get("test.str"), Some(&Value::String("hello".to_string())));
    assert_eq!(metadata.get("test.str").unwrap().as_string(), Some("hello"));
    assert_eq!(reader.remaining(), 0);
}

#[test]
fn array_entry_decodes_in_order() {
    let mut bytes = Vec::new();
    put_entry_head(&mut bytes, "test.arr", 9);
    bytes.extend_from_slice(&4u32.to_le_bytes());
    bytes.extend_from_slice(&3u64.to_le_bytes());
    for n in [1u32, 2, 3] {
        bytes.extend_from_slice(&n.to_le_bytes());
    }
    let mut reader = ByteReader::new(&bytes);
    let (key, value) = GgufReader::read_entry(&mut reader).unwrap();
    assert_eq!(key, "test.arr");
    assert_eq!(
        value,
        Value::Array(ValueType::Uint32, vec![Value::Uint32(1), Value::Uint32(2), Value::Uint32(3)])
    );
    assert_eq!(value.value_type(), ValueType::Array);
}

#[test]
fn all_thirteen_kinds_round_trip() {
    let (bytes, count) = all_kinds_block();
    let mut reader = ByteReader::new(&bytes);
    let m = GgufReader::read_metadata(&mut reader, count).unwrap();
    assert_eq!(reader.remaining(), 0);
    assert_eq!(m.len(), 14);
    assert_eq!(m.get("k.u8"), Some(&Value::Uint8(200)));
    assert_eq!(m.get("k.i8"), Some(&Value::Int8(-2)));
    assert_eq!(m.get("k.u16"), Some(&Value::Uint16(60000)));
    assert_eq!(m.get("k.i16"), Some(&Value::Int16(-1234)));
    assert_eq!(m.get("k.u32"), Some(&Value::Uint32(4_000_000_000)));
    assert_eq!(m.get("k.i32"), Some(&Value::Int32(-7)));
    assert_eq!(m.get("k.f32"), Some(&Value::Float32(1.5f32.to_bits())));
    assert_eq!(m.get("k.bool"), Some(&Value::Bool(true)));
    assert_eq!(m.get("k.str"), Some(&Value::String("h\u{e9}llo".to_string())));
    assert_eq!(
        m.get("k.arr.u32"),
        Some(&Value::Array(
            ValueType::Uint32,
            vec![Value::Uint32(1), Value::Uint32(2), Value::Uint32(3)]
        ))
    );
    assert_eq!(
        m.get("k.arr.str"),
        Some(&Value::Array(
            ValueType::String,
            vec![Value::String("ab".to_string()), Value::String(String::new())]
        ))
    );
    assert_eq!(m.get("k.u64"), Some(&Value::Uint64(u64::MAX)));
    assert_eq!(m.get("k.i64"), Some(&Value::Int64(i64::MIN)));
    assert_eq!(m.get("k.f64"), Some(&Value::Float64((-2.25f64).to_bits())));
    assert_eq!(m.get("k.missing"), None);
}

#[test]
fn metadata_decoding_twice_gives_equal_results() {
    let (bytes, count) = all_kinds_block();
    let mut first = ByteReader::new(&bytes);
    let mut second = ByteReader::new(&bytes);
    let a = GgufReader::read_metadata(&mut first, count).unwrap();
    let b = GgufReader::read_metadata(&mut second, count).unwrap();
    assert_eq!(a.len(), b.len());
    for i in 0..a.len() {
        let key = a.key_at(i);
        assert_eq!(b.get(key), Some(a.value_at(i)));
    }
    assert_eq!(first.offset(), second.offset());
}

#[test]
fn repeated_key_takes_the_later_value() {
    let mut bytes = Vec::new();
    put_entry_head(&mut bytes, "same", 4);
    bytes.extend_from_slice(&1u32.to_le_bytes());
    put_entry_head(&mut bytes, "other", 7);
    bytes.push(0);
    put_entry_head(&mut bytes, "same", 0);
    bytes.push(9);
    let mut reader = ByteReader::new(&bytes);
    let m = GgufReader::read_metadata(&mut reader, 3).unwrap();
    assert_eq!(m.len(), 2);
    assert_eq!(m.get("same"), Some(&Value::Uint8(9)));
    assert_eq!(m.get("other"), Some(&Value::Bool(false)));
}

#[test]
fn zero_entries_read_nothing() {
    let bytes = vec![1u8, 2, 3];
    let mut reader = ByteReader::new(&bytes);
    let m = GgufReader::read_metadata(&mut reader, 0).unwrap();
    assert!(m.is_empty());
    assert_eq!(reader.offset(), 0);
}

#[test]
fn unknown_value_type_is_rejected() {
    let mut bytes = Vec::new();
    put_entry_head(&mut bytes, "k", 13);
    bytes.push(0);
    let mut reader = ByteReader::new(&bytes);
    assert_eq!(
        GgufReader::read_metadata(&mut reader, 1).err(),
        Some(GgufError::UnsupportedValueType(13))
    );
}

#[test]
fn unknown_array_element_type_is_rejected() {
    let mut bytes = Vec::new();
    put_entry_head(&mut bytes, "k", 9);
    bytes.extend_from_slice(&77u32.to_le_bytes());
    bytes.extend_from_slice(&0u64.to_le_bytes());
    let mut reader = ByteReader::new(&bytes);
    assert_eq!(
        GgufReader::read_metadata(&mut reader, 1).err(),
        Some(GgufError::UnsupportedValueType(77))
    );
}

#[test]
fn array_of_arrays_is_rejected_even_when_empty() {
    let mut bytes = Vec::new();
    put_entry_head(&mut bytes, "k", 9);
    bytes.extend_from_slice(&9u32.to_le_bytes());
    bytes.extend_from_slice(&0u64.to_le_bytes());
    let mut reader = ByteReader::new(&bytes);
    assert_eq!(GgufReader::read_metadata(&mut reader, 1).err(), Some(GgufError::NestedArray));
    let mut reader = ByteReader::new(&[]);
    assert_eq!(
        GgufReader::read_scalar(&mut reader, ValueType::Array),
        Err(GgufError::NestedArray)
    );
}

#[test]
fn invalid_utf8_is_rejected() {
    let mut bytes = Vec::new();
    bytes.extend_from_slice(&2u64.to_le_bytes());
    bytes.extend_from_slice(&[0xC3, 0x28]);
    let mut reader = ByteReader::new(&bytes);
    assert_eq!(read_string(&mut reader), Err(GgufError::InvalidUtf8));
}

#[test]
fn string_above_one_mebibyte_is_rejected_before_reading() {
    let mut bytes = Vec::new();
    bytes.extend_from_slice(&1_048_577u64.to_le_bytes());
    let mut reader = ByteReader::new(&bytes);
    assert_eq!(read_string(&mut reader), Err(GgufError::StringTooLong(1_048_577)));
    let mut bytes = Vec::new();
    bytes.extend_from_slice(&u64::MAX.to_le_bytes());
    let mut reader = ByteReader::new(&bytes);
    assert_eq!(read_string(&mut reader), Err(GgufError::StringTooLong(u64::MAX)));
}

#[test]
fn string_of_exactly_one_mebibyte_is_accepted() {
    let mut bytes = Vec::new();
    bytes.extend_from_slice(&1_048_576u64.to_le_bytes());
    bytes.extend(std::iter::repeat(b'a').take(1_048_576));
    let mut reader = ByteReader::new(&bytes);
    let text = read_string(&mut reader).unwrap();
    assert_eq!(text.len(), 1_048_576);
    assert_eq!(reader.remaining(), 0);
}

#[test]
fn truncated_string_is_an_io_error() {
    let mut bytes = Vec::new();
    bytes.extend_from_slice(&5u64.to_le_bytes());
    bytes.extend_from_slice(b"hell");
    let mut reader = ByteReader::new(&bytes);
    assert_eq!(read_string(&mut reader), Err(GgufError::Io));
}

#[test]
fn oversized_counts_end_in_io_errors() {
    let mut bytes = Vec::new();
    put_entry_head(&mut bytes, "k", 9);
    bytes.extend_from_slice(&4u32.to_le_bytes());
    bytes.extend_from_slice(&u64::MAX.to_le_bytes());
    bytes.extend_from_slice(&1u32.to_le_bytes());
    let mut reader = ByteReader::new(&bytes);
    assert_eq!(GgufReader::read_metadata(&mut reader, 1).err(), Some(GgufError::Io));
    let mut reader = ByteReader::new(&[]);
    assert_eq!(GgufReader::read_metadata(&mut reader, u64::MAX).err(), Some(GgufError::Io));
}

#[test]
fn bool_is_true_for_any_nonzero_byte() {
    for (byte, expected) in [(0u8, false), (1, true), (2, true), (255, true)] {
        let bytes = [byte];
        let mut reader = ByteReader::new(&bytes);
        assert_eq!(
            GgufReader::read_value(&mut reader, ValueType::Bool),
            Ok(Value::Bool(expected))
        );
    }
}

#[test]
fn value_type_ids_map_in_order() {
    let kinds = [
        ValueType::Uint8,
        ValueType::Int8,
        ValueType::Uint16,
        ValueType::Int16,
        ValueType::Uint32,
        ValueType::Int32,
        ValueType::Float32,
        ValueType::Bool,
        ValueType::String,
        ValueType::Array,
        ValueType::Uint64,
        ValueType::Int64,
        ValueType::Float64,
    ];
    for (id, kind) in kinds.iter().enumerate() {
        assert_eq!(ValueType::from_u32(id as u32), Some(*kind));
        assert_eq!(kind.id(), id as u32);
    }
    assert_eq!(ValueType::from_u32(13), None);
    assert_eq!(ValueType::from_u32(u32::MAX), None);
}

#[test]
fn accessors_coerce_by_kind() {
    assert_eq!(Value::Uint8(7).as_u64(), Some(7));
    assert_eq!(Value::Uint16(700).as_u64(), Some(700));
    assert_eq!(Value::Uint32(70_000).as_u64(), Some(70_000));
    assert_eq!(Value::Uint64(u64::MAX).as_u64(), Some(u64::MAX));
    assert_eq!(Value::Int32(7).as_u64(), None);
    assert_eq!(Value::Int8(-7).as_i64(), Some(-7));
    assert_eq!(Value::Int16(-700).as_i64(), Some(-700));
    assert_eq!(Value::Int32(-70_000).as_i64(), Some(-70_000));
    assert_eq!(Value::Int64(i64::MIN).as_i64(), Some(i64::MIN));
    assert_eq!(Value::Uint8(7).as_i64(), None);
    assert_eq!(Value::Uint32(5).as_uint32(), Some(5));
    assert_eq!(Value::Uint64(5).as_uint32(), None);
    assert_eq!(Value::Bool(true).as_bool(), Some(true));
    assert_eq!(Value::Uint8(1).as_bool(), None);
    assert_eq!(Value::String("x".to_string()).as_string(), Some("x"));
    assert_eq!(Value::Bool(true).as_string(), None);
    assert_eq!(
        Value::Float32(1.0f32.to_bits()).as_float_bits(),
        Some(FloatBits::Single(0x3F80_0000))
    );
    assert_eq!(
        Value::Float64(1.0f64.to_bits()).as_float_bits(),
        Some(FloatBits::Double(0x3FF0_0000_0000_0000))
    );
    assert_eq!(Value::Uint32(1).as_float_bits(), None);
    assert_eq!(Value::Float32(0).value_type(), ValueType::Float32);
    assert_eq!(Value::Array(ValueType::Bool, vec![]).value_type(), ValueType::Array);
}

#[test]
fn a_failed_string_decode_stops_where_the_layout_says() {
    let mut bytes = Vec::new();
    bytes.extend_from_slice(&1_048_577u64.to_le_bytes());
    bytes.extend_from_slice(b"abc");
    let mut reader = ByteReader::new(&bytes);
    assert_eq!(read_string(&mut reader), Err(GgufError::StringTooLong(1_048_577)));
    assert_eq!(reader.offset(), 8);

    let mut bytes = Vec::new();
    bytes.extend_from_slice(&5u64.to_le_bytes());
    bytes.extend_from_slice(b"abc");
    let mut reader = ByteReader::new(&bytes);
    assert_eq!(read_string(&mut reader), Err(GgufError::Io));
    assert_eq!(reader.offset(), 8);

    let mut bytes = Vec::new();
    bytes.extend_from_slice(&2u64.to_le_bytes());
    bytes.extend_from_slice(&[0xC3, 0x28, 7]);
    let mut reader = ByteReader::new(&bytes);
    assert_eq!(read_string(&mut reader), Err(GgufError::InvalidUtf8));
    assert_eq!(reader.offset(), 10);

    let bytes = [1u8, 2, 3];
    let mut reader = ByteReader::new(&bytes);
    assert_eq!(read_string(&mut reader), Err(GgufError::Io));
    assert_eq!(reader.offset(), 0);
}

#[test]
fn a_failed_metadata_decode_stops_where_the_layout_says() {
    // a good entry, then an entry with an unknown type id
    let mut bytes = Vec::new();
    put_entry_head(&mut bytes, "good", 7);
    bytes.push(1);
    let first_len = bytes.len();
    put_entry_head(&mut bytes, "bad", 13);
    bytes.extend_from_slice(&[9, 9, 9]);
    let mut reader = ByteReader::new(&bytes);
    assert_eq!(
        GgufReader::read_metadata(&mut reader, 2).err(),
        Some(GgufError::UnsupportedValueType(13))
    );
    assert_eq!(reader.offset(), first_len + 8 + 3 + 4);

    // an array whose third element is cut short
    let mut bytes = Vec::new();
    put_entry_head(&mut bytes, "arr", 9);
    bytes.extend_from_slice(&4u32.to_le_bytes());
    bytes.extend_from_slice(&3u64.to_le_bytes());
    bytes.extend_from_slice(&1u32.to_le_bytes());
    bytes.extend_from_slice(&2u32.to_le_bytes());
    bytes.extend_from_slice(&[3, 0]);
    let mut reader = ByteReader::new(&bytes);
    assert_eq!(GgufReader::read_metadata(&mut reader, 1).err(), Some(GgufError::Io));
    assert_eq!(reader.offset(), bytes.len() - 2);

    // an array of arrays: refused once the element type is read
    let mut bytes = Vec::new();
    put_entry_head(&mut bytes, "arr", 9);
    bytes.extend_from_slice(&9u32.to_le_bytes());
    bytes.extend_from_slice(&0u64.to_le_bytes());
    let mut reader = ByteReader::new(&bytes);
    assert_eq!(GgufReader::read_metadata(&mut reader, 1).err(), Some(GgufError::NestedArray));
    assert_eq!(reader.offset(), 8 + 3 + 4 + 4);
}

#[test]
fn a_failed_metadata_decode_repeats_with_the_same_error_and_position() {
    let (full, count) = all_kinds_block();
    for len in [0usize, 5, 11, 12, 40, 100, full.len() - 1] {
        let bytes = full[..len].to_vec();
        let mut first = ByteReader::new(&bytes);
        let mut second = ByteReader::new(&bytes);
        let a = GgufReader::read_metadata(&mut first, count).err();
        let unrelated = [0u8; 3];
        let mut other = ByteReader::new(&unrelated);
        let _ = GgufReader::read_metadata(&mut other, 1);
        let b = GgufReader::read_metadata(&mut second, count).err();
        assert_eq!(a, Some(GgufError::Io));
        assert_eq!(a, b);
        assert_eq!(first.offset(), second.offset());
        assert!(first.offset() <= len);
    }
}
