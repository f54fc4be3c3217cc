use gguf_rs::header::GGUFHeader;
use gguf_rs::{
    extract_model_config, ByteReader, GgufError, GgufHeader, GgufReader, ModelBuilder,
    TensorLoader, TensorType, Value, GGUF_MAGIC,
};

fn put_text(bytes: &mut Vec<u8>, text: &str) {
    bytes.extend_from_slice(&(text.len() as u64).to_le_bytes());
    bytes.extend_from_slice(text.as_bytes());
}

fn put_u32_entry(bytes: &mut Vec<u8>, key: &str, value: u32) {
    put_text(bytes, key);
    bytes.extend_from_slice(&4u32.to_le_bytes());
    bytes.extend_from_slice(&value.to_le_bytes());
}

struct Plan {
    name: String,
    dims: Vec<u64>,
    type_id: u32,
    offset: u64,
    size: usize,
}

fn plan(blocks: u32) -> Vec<Plan> {
    let mut names: Vec<(String, Vec<u64>)> = vec![
        ("token_embd.weight".to_string(), vec![8, 16]),
        ("output_norm.weight".to_string(), vec![8]),
        ("output.weight".to_string(), vec![8, 16]),
    ];
    for i in 0..blocks {
        names.push((format!("blk.{}.attn_norm.weight", i), vec![8]));
        names.push((format!("blk.{}.attn_q.weight", i), vec![8, 12]));
        names.push((format!("blk.{}.attn_k.weight", i), vec![8, 4]));
        names.push((format!("blk.{}.attn_v.weight", i), vec![8, 4]));
        names.push((format!("blk.{}.attn_output.weight", i), vec![12, 8]));
        names.push((format!("blk.{}.ffn_gate.weight", i), vec![8, 24]));
        names.push((format!("blk.{}.ffn_up.weight", i), vec![8, 24]));
        names.push((format!("blk.{}.ffn_down.weight", i), vec![24, 8]));
        names.push((format!("blk.{}.ffn_norm.weight", i), vec![8]));
    }
    let mut offset = 0u64;
    let mut plans = Vec::new();
    for (name, dims) in names {
        let size = dims.iter().product::<u64>() as usize * 2;
        plans.push(Plan { name, dims, type_id: 1, offset, size });
        offset += size as u64;
    }
    plans
}

fn model_file(blocks: u32) -> (Vec<u8>, usize) {
    let plans = plan(blocks);
    let mut b = Vec::new();
    b.extend_from_slice(b"GGUF");
    b.extend_from_slice(&3u32.to_le_bytes());
    b.extend_from_slice(&(plans.len() as u64).to_le_bytes());
    b.extend_from_slice(&7u64.to_le_bytes());
    put_text(&mut b, "general.architecture");
    b.extend_from_slice(&8u32.to_le_bytes());
    put_text(&mut b, "qwen3");
    put_u32_entry(&mut b, "qwen3.block_count", blocks);
    put_u32_entry(&mut b, "qwen3.context_length", 40960);
    put_u32_entry(&mut b, "qwen3.embedding_length", 8);
    put_u32_entry(&mut b, "qwen3.feed_forward_length", 24);
    put_u32_entry(&mut b, "qwen3.attention.head_count", 3);
    put_text(&mut b, "qwen3.rope.freq_base");
    b.extend_from_slice(&6u32.to_le_bytes());
    b.extend_from_slice(&1_000_000.0f32.to_le_bytes());
    for p in &plans {
        put_text(&mut b, &p.name);
        b.extend_from_slice(&(p.dims.len() as u32).to_le_bytes());
        for d in &p.dims {
            b.extend_from_slice(&d.to_le_bytes());
        }
        b.extend_from_slice(&p.type_id.to_le_bytes());
        b.extend_from_slice(&p.offset.to_le_bytes());
    }
    let data_start = b.len();
    for (k, p) in plans.iter().enumerate() {
        b.extend(std::iter::repeat(k as u8).take(p.size));
    }
    (b, data_start)
}

#[test]
fn whole_file_decodes_and_assembles() {
    let (bytes, data_start) = model_file(4);
    let mut reader = ByteReader::new(&bytes);

    let header = GgufHeader::parse(&mut reader).unwrap();
    assert_eq!(header.magic, GGUF_MAGIC);
    assert!(header.is_version_supported());

    let metadata = GgufReader::read_metadata(&mut reader, header.n_kv).unwrap();
    assert_eq!(metadata.len(), 7);
    let config = extract_model_config(&metadata).unwrap();
    assert_eq!(&config.architecture, "qwen3");
    assert_eq!(config.block_count, 4);
    assert_eq!(config.context_length, 40960);
    assert_eq!(
        config.rope_freq_base,
        Some(gguf_rs::FloatBits::Single(1_000_000.0f32.to_bits()))
    );

    let tensor_infos = TensorLoader::read_tensor_info(&mut reader, header.n_tensors).unwrap();
    assert_eq!(tensor_infos.len() as u64, header.n_tensors);
    assert_eq!(tensor_infos.len(), 3 + 9 * 4);

    let tensor_data_start = TensorLoader::get_tensor_data_start(&reader).unwrap();
    assert_eq!(tensor_data_start, data_start as u64);

    let tensors =
        TensorLoader::load_all_tensors(&bytes, &tensor_infos, tensor_data_start).unwrap();
    assert_eq!(tensors.len(), tensor_infos.len());
    for (k, info) in tensor_infos.iter().enumerate() {
        let tensor = tensors.get(&info.name).unwrap();
        assert_eq!(tensor.info.tensor_type, TensorType::F16);
        assert_eq!(tensor.data.len() as u64, info.byte_size().unwrap());
        assert!(tensor.data.iter().all(|byte| *byte == k as u8));
    }

    let model = ModelBuilder::new(tensors, config).build().unwrap();
    assert_eq!(model.num_layers(), 4);
    assert_eq!(model.vocab_size(), 16);
    assert_eq!(model.model_dim(), 8);
    assert_eq!(model.embeddings.token_embeddings.info.dims, vec![8, 16]);
    let block0 = model.get_block(0).unwrap();
    assert_eq!(block0.attention.model_dim(), 8);
    assert_eq!(block0.attention.attention_dim(), 12);
    assert!(block0.attention.query_norm.is_none());
    assert!(block0.attention.attention_norm.is_some());
    assert!(block0.feed_forward.is_gated());
    assert_eq!(model.get_block(3).unwrap().layer_index, 3);
}

#[test]
fn whole_file_with_a_tensor_cut_off_fails_at_assembly() {
    let (mut bytes, _) = model_file(2);
    bytes.pop();
    let mut reader = ByteReader::new(&bytes);
    let header = GgufHeader::parse(&mut reader).unwrap();
    let metadata = GgufReader::read_metadata(&mut reader, header.n_kv).unwrap();
    let config = extract_model_config(&metadata).unwrap();
    let infos = TensorLoader::read_tensor_info(&mut reader, header.n_tensors).unwrap();
    let start = TensorLoader::get_tensor_data_start(&reader).unwrap();
    let last = infos.last().unwrap();
    assert_eq!(last.name, "blk.1.ffn_norm.weight");
    assert_eq!(TensorLoader::load_tensor(&bytes, last, start).err(), Some(GgufError::OutOfBounds));
    let tensors = TensorLoader::load_all_tensors(&bytes, &infos, start).unwrap();
    assert_eq!(tensors.len(), infos.len() - 1);
    assert!(ModelBuilder::new(tensors, config).build().is_ok());

    let (mut bytes, _) = model_file(2);
    bytes.truncate(bytes.len() - 16 - 1);
    let mut reader = ByteReader::new(&bytes);
    let header = GgufHeader::parse(&mut reader).unwrap();
    let metadata = GgufReader::read_metadata(&mut reader, header.n_kv).unwrap();
    let config = extract_model_config(&metadata).unwrap();
    let infos = TensorLoader::read_tensor_info(&mut reader, header.n_tensors).unwrap();
    let start = TensorLoader::get_tensor_data_start(&reader).unwrap();
    let tensors = TensorLoader::load_all_tensors(&bytes, &infos, start).unwrap();
    assert_eq!(
        ModelBuilder::new(tensors, config).build().err(),
        Some(GgufError::TensorNotFound("blk.1.ffn_down.weight".to_string()))
    );
}

#[test]
fn both_header_decoders_agree_on_the_same_file() {
    let (bytes, _) = model_file(1);
    let mut first = ByteReader::new(&bytes);
    let header = GgufHeader::parse(&mut first).unwrap();
    let metadata = GgufReader::read_metadata(&mut first, header.n_kv).unwrap();
    let mut second = ByteReader::new(&bytes);
    let whole = GGUFHeader::read(&mut second).ok().unwrap();
    assert_eq!(whole.version, header.version);
    assert_eq!(whole.tensor_count, header.n_tensors);
    assert_eq!(whole.alignment, 32);
    assert_eq!(whole.metadata.len(), metadata.len());
    for i in 0..metadata.len() {
        assert_eq!(whole.metadata.get(metadata.key_at(i)), Some(metadata.value_at(i)));
    }
    assert_eq!(first.offset(), second.offset());
    assert_eq!(
        whole.metadata.get("qwen3.block_count"),
        Some(&Value::Uint32(1))
    );
    let via_tensors = TensorLoader::read_tensor_info(&mut first, header.n_tensors).unwrap();
    for info in &via_tensors {
        let raw = gguf_rs::tensor::TensorInfo::read(&mut second).unwrap();
        assert_eq!(raw.name, info.name);
        assert_eq!(raw.dimensions, info.dims);
        assert_eq!(raw.type_, info.tensor_type.id());
        assert_eq!(raw.offset, info.offset);
    }
    assert_eq!(first.offset(), second.offset());
}
