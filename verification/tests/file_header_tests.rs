use gguf_rs::endian::{read_i16, read_i32, read_i64, read_i8, read_u16, read_u32, read_u64, read_u8};
use gguf_rs::error::GGUFError;
use gguf_rs::header::{read_metadata_kv, read_typed_value, GGUFHeader};
use gguf_rs::metadata::{Value, ValueType};
use gguf_rs::reader::ByteReader;
use gguf_rs::tensor::{read_gguf_string, validate_tensor_name, TensorInfo};

fn put_text(bytes: &mut Vec<u8>, text: &str) {
    bytes.extend_from_slice(&(text.len() as u64).to_le_bytes());
    bytes.extend_from_slice(text.as_bytes());
}

fn file_start(version: u32, tensor_count: u64, kv_count: u64) -> Vec<u8> {
    let mut bytes = Vec::new();
    bytes.extend_from_slice(b"GGUF");
    bytes.extend_from_slice(&version.to_le_bytes());
    bytes.extend_from_slice(&tensor_count.to_le_bytes());
    bytes.extend_from_slice(&kv_count.to_le_bytes());
    bytes
}

fn with_alignment(alignment: u32) -> Vec<u8> {
    let mut bytes = file_start(3, 5, 2);
    put_text(&mut bytes, "general.architecture");
    bytes.extend_from_slice(&8u32.to_le_bytes());
    put_text(&mut bytes, "llama");
    put_text(&mut bytes, "general.alignment");
    bytes.extend_from_slice(&4u32.to_le_bytes());
    bytes.extend_from_slice(&alignment.to_le_bytes());
    bytes
}

#[test]
fn byteorder_readers_decode_little_endian() {
    let bytes = vec![
        0x80, 0xFF, 0x34, 0x12, 0xFE, 0xFF, 0x78, 0x56, 0x34, 0x12, 0xFD, 0xFF, 0xFF, 0xFF, 8, 7,
        6, 5, 4, 3, 2, 1, 0xFC, 0xFF, 0xFF, 0xFF, 0xFF, 0xFF, 0xFF, 0xFF,
    ];
    let mut reader = ByteReader::new(&bytes);
    assert_eq!(read_u8(&mut reader), Some(0x80));
    assert_eq!(read_i8(&mut reader), Some(-1));
    assert_eq!(read_u16(&mut reader), Some(0x1234));
    assert_eq!(read_i16(&mut reader), Some(-2));
    assert_eq!(read_u32(&mut reader), Some(0x12345678));
    assert_eq!(read_i32(&mut reader), Some(-3));
    assert_eq!(read_u64(&mut reader), Some(0x0102030405060708));
    assert_eq!(read_i64(&mut reader), Some(-4));
    assert_eq!(reader.remaining(), 0);
    assert_eq!(read_u8(&mut reader), None);
    assert_eq!(read_i8(&mut reader), None);
}

#[test]
fn byteorder_readers_do_not_move_on_short_input() {
    let bytes = vec![1u8];
    let mut reader = ByteReader::new(&bytes);
    assert_eq!(read_u16(&mut reader), None);
    assert_eq!(read_i16(&mut reader), None);
    assert_eq!(read_u32(&mut reader), None);
    assert_eq!(read_i32(&mut reader), None);
    assert_eq!(read_u64(&mut reader), None);
    assert_eq!(read_i64(&mut reader), None);
    assert_eq!(reader.offset(), 0);
    assert_eq!(read_u8(&mut reader), Some(1));
}

#[test]
fn file_header_without_alignment_defaults_to_32() {
    let mut bytes = file_start(3, 291, 1);
    put_text(&mut bytes, "general.name");
    bytes.extend_from_slice(&8u32.to_le_bytes());
    put_text(&mut bytes, "tiny");
    bytes.extend_from_slice(&[9, 9]);
    let mut reader = ByteReader::new(&bytes);
    let header = GGUFHeader::read(&mut reader).ok().unwrap();
    assert_eq!(header.version, 3);
    assert_eq!(header.tensor_count, 291);
    assert_eq!(header.alignment, 32);
    assert_eq!(header.metadata.len(), 1);
    assert_eq!(header.metadata.get("general.name"), Some(&Value::String("tiny".to_string())));
    assert_eq!(reader.remaining(), 2);
}

#[test]
fn alignment_of_four_is_refused() {
    let bytes = with_alignment(4);
    let mut reader = ByteReader::new(&bytes);
    assert_eq!(GGUFHeader::read(&mut reader).err(), Some(GGUFError::InvalidAlignment(4)));
    let bytes = with_alignment(7);
    let mut reader = ByteReader::new(&bytes);
    assert_eq!(GGUFHeader::read(&mut reader).err(), Some(GGUFError::InvalidAlignment(7)));
    let bytes = with_alignment(0);
    let mut reader = ByteReader::new(&bytes);
    assert_eq!(GGUFHeader::read(&mut reader).err(), Some(GGUFError::InvalidAlignment(0)));
}

#[test]
fn alignment_of_eight_is_accepted() {
    let bytes = with_alignment(8);
    let mut reader = ByteReader::new(&bytes);
    let header = GGUFHeader::read(&mut reader).ok().unwrap();
    assert_eq!(header.alignment, 8);
    assert_eq!(header.tensor_count, 5);
    assert_eq!(header.metadata.get("general.architecture").unwrap().as_string(), Some("llama"));
    let bytes = with_alignment(64);
    let mut reader = ByteReader::new(&bytes);
    assert_eq!(GGUFHeader::read(&mut reader).ok().unwrap().alignment, 64);
}

#[test]
fn alignment_of_another_kind_counts_as_absent() {
    let mut bytes = file_start(3, 0, 1);
    put_text(&mut bytes, "general.alignment");
    bytes.extend_from_slice(&10u32.to_le_bytes());
    bytes.extend_from_slice(&4u64.to_le_bytes());
    let mut reader = ByteReader::new(&bytes);
    assert_eq!(GGUFHeader::read(&mut reader).ok().unwrap().alignment, 32);
}

#[test]
fn file_header_refuses_wrong_magic_and_other_versions() {
    let mut bytes = file_start(3, 0, 0);
    bytes[3] = b'f';
    let mut reader = ByteReader::new(&bytes);
    assert_eq!(GGUFHeader::read(&mut reader).err(), Some(GGUFError::InvalidMagic));
    for version in [0u32, 1, 2, 4] {
        let bytes = file_start(version, 0, 0);
        let mut reader = ByteReader::new(&bytes);
        assert_eq!(
            GGUFHeader::read(&mut reader).err(),
            Some(GGUFError::UnsupportedVersion(version))
        );
    }
    let bytes = file_start(2, 0, 0)[..8].to_vec();
    let mut reader = ByteReader::new(&bytes);
    assert_eq!(GGUFHeader::read(&mut reader).err(), Some(GGUFError::UnsupportedVersion(2)));
}

#[test]
fn file_header_with_every_bit_flip_in_the_magic_is_refused() {
    for byte in 0..4 {
        for bit in 0..8 {
            let mut bytes = file_start(3, 0, 0);
            bytes[byte] ^= 1u8 << bit;
            let mut reader = ByteReader::new(&bytes);
            assert_eq!(GGUFHeader::read(&mut reader).err(), Some(GGUFError::InvalidMagic));
        }
    }
}

#[test]
fn truncated_file_header_is_an_io_error() {
    let full = with_alignment(16);
    for len in 0..full.len() {
        let bytes = full[..len].to_vec();
        let mut reader = ByteReader::new(&bytes);
        assert_eq!(GGUFHeader::read(&mut reader).err(), Some(GGUFError::Io));
    }
}

#[test]
fn entry_reader_decodes_each_kind() {
    let mut bytes = Vec::new();
    put_text(&mut bytes, "a");
    bytes.extend_from_slice(&3u32.to_le_bytes());
    bytes.extend_from_slice(&(-300i16).to_le_bytes());
    put_text(&mut bytes, "b");
    bytes.extend_from_slice(&9u32.to_le_bytes());
    bytes.extend_from_slice(&11u32.to_le_bytes());
    bytes.extend_from_slice(&2u64.to_le_bytes());
    bytes.extend_from_slice(&(-5i64).to_le_bytes());
    bytes.extend_from_slice(&6i64.to_le_bytes());
    let mut reader = ByteReader::new(&bytes);
    assert_eq!(read_metadata_kv(&mut reader), Ok(("a".to_string(), Value::Int16(-300))));
    assert_eq!(
        read_metadata_kv(&mut reader),
        Ok((
            "b".to_string(),
            Value::Array(ValueType::Int64, vec![Value::Int64(-5), Value::Int64(6)])
        ))
    );
    assert_eq!(read_metadata_kv(&mut reader), Err(GGUFError::Io));
}

#[test]
fn typed_value_reader_covers_the_scalar_kinds() {
    let cases: Vec<(ValueType, Vec<u8>, Value)> = vec![
        (ValueType::Uint8, vec![0xFF], Value::Uint8(255)),
        (ValueType::Int8, vec![0xFF], Value::Int8(-1)),
        (ValueType::Uint16, vec![0x01, 0x80], Value::Uint16(0x8001)),
        (ValueType::Int16, vec![0x01, 0x80], Value::Int16(-32767)),
        (ValueType::Uint32, vec![1, 0, 0, 0x80], Value::Uint32(0x8000_0001)),
        (ValueType::Int32, vec![1, 0, 0, 0x80], Value::Int32(i32::MIN + 1)),
        (ValueType::Float32, 0.5f32.to_le_bytes().to_vec(), Value::Float32(0x3F00_0000)),
        (ValueType::Bool, vec![0], Value::Bool(false)),
        (ValueType::Bool, vec![2], Value::Bool(true)),
        (ValueType::Uint64, vec![1, 0, 0, 0, 0, 0, 0, 0x80], Value::Uint64((1 << 63) + 1)),
        (ValueType::Int64, vec![1, 0, 0, 0, 0, 0, 0, 0x80], Value::Int64(i64::MIN + 1)),
        (
            ValueType::Float64,
            0.5f64.to_le_bytes().to_vec(),
            Value::Float64(0x3FE0_0000_0000_0000),
        ),
    ];
    for (kind, bytes, expected) in cases {
        let mut reader = ByteReader::new(&bytes);
        assert_eq!(read_typed_value(&mut reader, &kind), Ok(expected));
        assert_eq!(reader.remaining(), 0);
        let mut empty = ByteReader::new(&[]);
        assert_eq!(read_typed_value(&mut empty, &kind), Err(GGUFError::Io));
    }
    let mut bytes = Vec::new();
    put_text(&mut bytes, "text");
    let mut reader = ByteReader::new(&bytes);
    assert_eq!(
        read_typed_value(&mut reader, &ValueType::String),
        Ok(Value::String("text".to_string()))
    );
}

#[test]
fn nested_arrays_are_refused_with_a_metadata_error() {
    let mut reader = ByteReader::new(&[1, 2, 3]);
    assert_eq!(
        read_typed_value(&mut reader, &ValueType::Array),
        Err(GGUFError::Metadata("Nested arrays not supported".to_string()))
    );
    assert_eq!(reader.offset(), 0);
    let mut bytes = Vec::new();
    put_text(&mut bytes, "k");
    bytes.extend_from_slice(&9u32.to_le_bytes());
    bytes.extend_from_slice(&9u32.to_le_bytes());
    bytes.extend_from_slice(&0u64.to_le_bytes());
    let mut reader = ByteReader::new(&bytes);
    assert_eq!(
        read_metadata_kv(&mut reader),
        Err(GGUFError::Metadata("Nested arrays not supported".to_string()))
    );
}

#[test]
fn unknown_value_type_is_an_invalid_value_type() {
    let mut bytes = Vec::new();
    put_text(&mut bytes, "k");
    bytes.extend_from_slice(&99u32.to_le_bytes());
    let mut reader = ByteReader::new(&bytes);
    assert_eq!(read_metadata_kv(&mut reader), Err(GGUFError::InvalidValueType(99)));
    let mut bytes = Vec::new();
    put_text(&mut bytes, "k");
    bytes.extend_from_slice(&9u32.to_le_bytes());
    bytes.extend_from_slice(&13u32.to_le_bytes());
    let mut reader = ByteReader::new(&bytes);
    assert_eq!(read_metadata_kv(&mut reader), Err(GGUFError::InvalidValueType(13)));
}

#[test]
fn gguf_string_errors() {
    let mut bytes = Vec::new();
    bytes.extend_from_slice(&(1024u64 * 1024 + 1).to_le_bytes());
    let mut reader = ByteReader::new(&bytes);
    assert_eq!(
        read_gguf_string(&mut reader),
        Err(GGUFError::Metadata("String too long".to_string()))
    );
    let mut bytes = Vec::new();
    bytes.extend_from_slice(&1u64.to_le_bytes());
    bytes.push(0x80);
    let mut reader = ByteReader::new(&bytes);
    assert_eq!(read_gguf_string(&mut reader), Err(GGUFError::InvalidString));
    let mut bytes = Vec::new();
    bytes.extend_from_slice(&3u64.to_le_bytes());
    bytes.extend_from_slice(b"ab");
    let mut reader = ByteReader::new(&bytes);
    assert_eq!(read_gguf_string(&mut reader), Err(GGUFError::Io));
    let mut bytes = Vec::new();
    put_text(&mut bytes, "gr\u{fc}n");
    let mut reader = ByteReader::new(&bytes);
    assert_eq!(read_gguf_string(&mut reader), Ok("gr\u{fc}n".to_string()));
}

#[test]
fn tensor_names_of_1_to_64_bytes_are_valid() {
    assert_eq!(validate_tensor_name("a"), Ok(()));
    assert_eq!(validate_tensor_name(&"n".repeat(64)), Ok(()));
    assert_eq!(validate_tensor_name(""), Err(GGUFError::InvalidTensorName(String::new())));
    assert_eq!(
        validate_tensor_name(&"n".repeat(65)),
        Err(GGUFError::InvalidTensorName("n".repeat(65)))
    );
    assert_eq!(
        validate_tensor_name(&"\u{e9}".repeat(33)),
        Err(GGUFError::InvalidTensorName("\u{e9}".repeat(33)))
    );
    assert_eq!(validate_tensor_name(&"\u{e9}".repeat(32)), Ok(()));
}

#[test]
fn raw_descriptor_is_read_with_its_type_id() {
    let mut bytes = Vec::new();
    put_text(&mut bytes, "output.weight");
    bytes.extend_from_slice(&2u32.to_le_bytes());
    bytes.extend_from_slice(&1024u64.to_le_bytes());
    bytes.extend_from_slice(&151936u64.to_le_bytes());
    bytes.extend_from_slice(&14u32.to_le_bytes());
    bytes.extend_from_slice(&0x1_0000_0000u64.to_le_bytes());
    let mut reader = ByteReader::new(&bytes);
    assert_eq!(
        TensorInfo::read(&mut reader),
        Ok(TensorInfo {
            name: "output.weight".to_string(),
            dimensions: vec![1024, 151936],
            type_: 14,
            offset: 0x1_0000_0000,
        })
    );
    assert_eq!(reader.remaining(), 0);
    for len in 0..bytes.len() {
        let cut = bytes[..len].to_vec();
        let mut reader = ByteReader::new(&cut);
        assert_eq!(TensorInfo::read(&mut reader), Err(GGUFError::Io));
    }
}

#[test]
fn raw_descriptor_refuses_bad_names_and_unknown_types() {
    let mut bytes = Vec::new();
    put_text(&mut bytes, "");
    bytes.extend_from_slice(&[0; 32]);
    let mut reader = ByteReader::new(&bytes);
    assert_eq!(TensorInfo::read(&mut reader), Err(GGUFError::InvalidTensorName(String::new())));
    let long = "x".repeat(70);
    let mut bytes = Vec::new();
    put_text(&mut bytes, &long);
    let mut reader = ByteReader::new(&bytes);
    assert_eq!(TensorInfo::read(&mut reader), Err(GGUFError::InvalidTensorName(long)));
    let mut bytes = Vec::new();
    put_text(&mut bytes, "t");
    bytes.extend_from_slice(&0u32.to_le_bytes());
    bytes.extend_from_slice(&5u32.to_le_bytes());
    bytes.extend_from_slice(&0u64.to_le_bytes());
    let mut reader = ByteReader::new(&bytes);
    assert_eq!(TensorInfo::read(&mut reader), Err(GGUFError::InvalidTensorType(5)));
}

#[test]
fn a_failed_file_header_decode_stops_where_the_layout_says() {
    let bytes = file_start(2, 0, 0);
    let mut reader = ByteReader::new(&bytes);
    assert_eq!(GGUFHeader::read(&mut reader).err(), Some(GGUFError::UnsupportedVersion(2)));
    assert_eq!(reader.offset(), 8);

    let mut bytes = file_start(3, 0, 0);
    bytes[0] = b'g';
    let mut reader = ByteReader::new(&bytes);
    assert_eq!(GGUFHeader::read(&mut reader).err(), Some(GGUFError::InvalidMagic));
    assert_eq!(reader.offset(), 4);

    let mut bytes = with_alignment(4);
    let end = bytes.len();
    bytes.extend_from_slice(&[1, 2, 3]);
    let mut reader = ByteReader::new(&bytes);
    assert_eq!(GGUFHeader::read(&mut reader).err(), Some(GGUFError::InvalidAlignment(4)));
    assert_eq!(reader.offset(), end);

    let full = file_start(3, 0, 0);
    for len in 0..24usize {
        let bytes = full[..len].to_vec();
        let mut first = ByteReader::new(&bytes);
        let mut second = ByteReader::new(&bytes);
        assert_eq!(GGUFHeader::read(&mut first).err(), Some(GGUFError::Io));
        assert_eq!(GGUFHeader::read(&mut second).err(), Some(GGUFError::Io));
        assert_eq!(first.offset(), second.offset());
        let expected = if len < 4 {
            0
        } else if len < 8 {
            4
        } else if len < 16 {
            8
        } else {
            16
        };
        assert_eq!(first.offset(), expected);
    }
}

#[test]
fn a_failed_raw_descriptor_decode_stops_where_the_layout_says() {
    let long = "x".repeat(70);
    let mut bytes = Vec::new();
    put_text(&mut bytes, &long);
    bytes.extend_from_slice(&[0; 16]);
    let mut reader = ByteReader::new(&bytes);
    assert_eq!(TensorInfo::read(&mut reader), Err(GGUFError::InvalidTensorName(long)));
    assert_eq!(reader.offset(), 78);

    let mut bytes = Vec::new();
    put_text(&mut bytes, "t");
    bytes.extend_from_slice(&2u32.to_le_bytes());
    bytes.extend_from_slice(&[0; 11]);
    let mut reader = ByteReader::new(&bytes);
    assert_eq!(TensorInfo::read(&mut reader), Err(GGUFError::Io));
    assert_eq!(reader.offset(), 9 + 4 + 8);

    let mut bytes = Vec::new();
    bytes.extend_from_slice(&(1024u64 * 1024 + 1).to_le_bytes());
    bytes.push(b'a');
    let mut reader = ByteReader::new(&bytes);
    assert!(read_gguf_string(&mut reader).is_err());
    assert_eq!(reader.offset(), 8);
}
