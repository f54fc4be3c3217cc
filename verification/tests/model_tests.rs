use gguf_rs::metadata::{GgufError, TensorType};
use gguf_rs::model::{ModelBuilder, ModelConfig};
use gguf_rs::strmap::StringMap;
use gguf_rs::tensors::{Tensor, TensorInfo};

fn tensor(name: &str, dims: &[u64]) -> Tensor {
    Tensor {
        info: TensorInfo {
            name: name.to_string(),
            n_dims: dims.len() as u32,
            dims: dims.to_vec(),
            tensor_type: TensorType::F16,
            offset: 0,
        },
        data: name.as_bytes().to_vec(),
    }
}

fn config(block_count: u32) -> ModelConfig {
    ModelConfig {
        architecture: "qwen3".to_string(),
        block_count,
        context_length: 40960,
        embedding_length: 1024,
        feed_forward_length: 3072,
        attention_head_count: 16,
        attention_head_count_kv: Some(8),
        attention_key_length: Some(128),
        layer_norm_epsilon: None,
        rope_freq_base: None,
    }
}

fn put(map: &mut StringMap<Tensor>, name: &str, dims: &[u64]) {
    map.insert(name.to_string(), tensor(name, dims));
}

fn qwen_style(blocks: u32) -> StringMap<Tensor> {
    let mut map = StringMap::new();
    put(&mut map, "token_embd.weight", &[1024, 151936]);
    put(&mut map, "output.weight", &[1024, 151936]);
    put(&mut map, "output_norm.weight", &[1024]);
    for i in 0..blocks {
        put(&mut map, &format!("blk.{}.attn_q.weight", i), &[1024, 2048]);
        put(&mut map, &format!("blk.{}.attn_k.weight", i), &[1024, 1024]);
        put(&mut map, &format!("blk.{}.attn_v.weight", i), &[1024, 1024]);
        put(&mut map, &format!("blk.{}.attn_output.weight", i), &[2048, 1024]);
        put(&mut map, &format!("blk.{}.attn_q_norm.weight", i), &[128]);
        put(&mut map, &format!("blk.{}.attn_k_norm.weight", i), &[128]);
        put(&mut map, &format!("blk.{}.attn_norm.weight", i), &[1024]);
        put(&mut map, &format!("blk.{}.ffn_gate.weight", i), &[1024, 3072]);
        put(&mut map, &format!("blk.{}.ffn_up.weight", i), &[1024, 3072]);
        put(&mut map, &format!("blk.{}.ffn_down.weight", i), &[3072, 1024]);
        put(&mut map, &format!("blk.{}.ffn_norm.weight", i), &[1024]);
    }
    map
}

#[test]
fn missing_embeddings_fail_with_tensor_not_found() {
    let mut map = qwen_style(2);
    assert!(map.remove("token_embd.weight").is_some());
    let result = ModelBuilder::new(map, config(2)).build();
    assert_eq!(result.err(), Some(GgufError::TensorNotFound("token_embd.weight".to_string())));
    let empty: StringMap<Tensor> = StringMap::new();
    assert_eq!(
        ModelBuilder::new(empty, config(0)).build().err(),
        Some(GgufError::TensorNotFound("token_embd.weight".to_string()))
    );
}

#[test]
fn complete_mapping_with_28_blocks_assembles() {
    let model = ModelBuilder::new(qwen_style(28), config(28)).build().unwrap();
    assert_eq!(model.num_layers(), 28);
    assert_eq!(model.transformer_blocks.len(), 28);
    assert_eq!(model.architecture, "qwen3");
    assert_eq!(model.config, config(28));
    assert_eq!(model.embeddings.token_embeddings.info.dims, vec![1024, 151936]);
    assert_eq!(model.vocab_size(), 151936);
    assert_eq!(model.embeddings.vocab_size(), 151936);
    assert_eq!(model.embeddings.embedding_dim(), 1024);
    assert_eq!(model.model_dim(), 1024);
    assert_eq!(model.output_layer.vocab_size(), 151936);
    assert_eq!(model.output_layer.embedding_dim(), 1024);
    let block0 = model.get_block(0).unwrap();
    assert_eq!(block0.attention.model_dim(), 1024);
    assert_eq!(block0.attention.attention_dim(), 2048);
    assert_eq!(block0.model_dim(), 1024);
    assert_eq!(block0.feed_forward.model_dim(), 3072);
    assert_eq!(block0.feed_forward.intermediate_dim(), 1024);
    assert!(block0.feed_forward.is_gated());
    assert!(model.get_block(27).is_some());
    assert!(model.get_block(28).is_none());
}

#[test]
fn every_tensor_lands_in_its_place() {
    let model = ModelBuilder::new(qwen_style(12), config(12)).build().unwrap();
    assert_eq!(model.embeddings.token_embeddings.info.name, "token_embd.weight");
    assert_eq!(model.output_layer.output_weights.info.name, "output.weight");
    assert_eq!(model.output_layer.output_norm.as_ref().unwrap().info.name, "output_norm.weight");
    for (i, block) in model.transformer_blocks.iter().enumerate() {
        assert_eq!(block.layer_index, i);
        let a = &block.attention;
        let f = &block.feed_forward;
        assert_eq!(a.query_weights.info.name, format!("blk.{}.attn_q.weight", i));
        assert_eq!(a.key_weights.info.name, format!("blk.{}.attn_k.weight", i));
        assert_eq!(a.value_weights.info.name, format!("blk.{}.attn_v.weight", i));
        assert_eq!(a.output_weights.info.name, format!("blk.{}.attn_output.weight", i));
        assert_eq!(
            a.query_norm.as_ref().unwrap().info.name,
            format!("blk.{}.attn_q_norm.weight", i)
        );
        assert_eq!(
            a.key_norm.as_ref().unwrap().info.name,
            format!("blk.{}.attn_k_norm.weight", i)
        );
        assert_eq!(
            a.attention_norm.as_ref().unwrap().info.name,
            format!("blk.{}.attn_norm.weight", i)
        );
        assert_eq!(
            f.gate_weights.as_ref().unwrap().info.name,
            format!("blk.{}.ffn_gate.weight", i)
        );
        assert_eq!(f.up_weights.info.name, format!("blk.{}.ffn_up.weight", i));
        assert_eq!(f.down_weights.info.name, format!("blk.{}.ffn_down.weight", i));
        assert_eq!(f.ffn_norm.as_ref().unwrap().info.name, format!("blk.{}.ffn_norm.weight", i));
        assert_eq!(a.query_weights.data, format!("blk.{}.attn_q.weight", i).into_bytes());
    }
}

#[test]
fn absent_optional_tensors_are_recorded_as_absent() {
    let mut map = qwen_style(1);
    for name in [
        "blk.0.attn_q_norm.weight",
        "blk.0.attn_k_norm.weight",
        "blk.0.attn_norm.weight",
        "blk.0.ffn_gate.weight",
        "blk.0.ffn_norm.weight",
        "output_norm.weight",
    ] {
        assert!(map.remove(name).is_some());
    }
    let model = ModelBuilder::new(map, config(1)).build().unwrap();
    let block = model.get_block(0).unwrap();
    assert!(block.attention.query_norm.is_none());
    assert!(block.attention.key_norm.is_none());
    assert!(block.attention.attention_norm.is_none());
    assert!(block.feed_forward.gate_weights.is_none());
    assert!(block.feed_forward.ffn_norm.is_none());
    assert!(!block.feed_forward.is_gated());
    assert!(model.output_layer.output_norm.is_none());
}

#[test]
fn each_missing_required_tensor_is_named() {
    for name in [
        "blk.3.attn_q.weight",
        "blk.3.attn_k.weight",
        "blk.3.attn_v.weight",
        "blk.3.attn_output.weight",
        "blk.3.ffn_up.weight",
        "blk.3.ffn_down.weight",
        "output.weight",
    ] {
        let mut map = qwen_style(5);
        assert!(map.remove(name).is_some());
        assert_eq!(
            ModelBuilder::new(map, config(5)).build().err(),
            Some(GgufError::TensorNotFound(name.to_string()))
        );
    }
}

#[test]
fn the_first_missing_tensor_in_claim_order_is_named() {
    let mut map = qwen_style(4);
    map.remove("output.weight");
    map.remove("blk.2.ffn_up.weight");
    map.remove("blk.2.attn_v.weight");
    map.remove("blk.3.attn_q.weight");
    assert_eq!(
        ModelBuilder::new(map, config(4)).build().err(),
        Some(GgufError::TensorNotFound("blk.2.attn_v.weight".to_string()))
    );
    let mut map = qwen_style(4);
    map.remove("blk.1.ffn_down.weight");
    map.remove("blk.1.ffn_up.weight");
    assert_eq!(
        ModelBuilder::new(map, config(4)).build().err(),
        Some(GgufError::TensorNotFound("blk.1.ffn_up.weight".to_string()))
    );
}

#[test]
fn blocks_beyond_the_count_are_left_unclaimed() {
    let model = ModelBuilder::new(qwen_style(5), config(3)).build().unwrap();
    assert_eq!(model.num_layers(), 3);
    let mut map = qwen_style(3);
    put(&mut map, "rope_freqs.weight", &[64]);
    assert!(ModelBuilder::new(map, config(3)).build().is_ok());
}

#[test]
fn more_blocks_than_the_mapping_has_fail_on_the_first_absent_one() {
    assert_eq!(
        ModelBuilder::new(qwen_style(10), config(11)).build().err(),
        Some(GgufError::TensorNotFound("blk.10.attn_q.weight".to_string()))
    );
}

#[test]
fn zero_blocks_assemble_embeddings_and_output_only() {
    let model = ModelBuilder::new(qwen_style(0), config(0)).build().unwrap();
    assert_eq!(model.num_layers(), 0);
    assert!(model.get_block(0).is_none());
    assert_eq!(model.vocab_size(), 151936);
}

#[test]
fn block_numbers_with_several_digits_are_told_apart() {
    let mut map = qwen_style(101);
    map.remove("blk.100.attn_k.weight");
    assert_eq!(
        ModelBuilder::new(map, config(101)).build().err(),
        Some(GgufError::TensorNotFound("blk.100.attn_k.weight".to_string()))
    );
    let mut map = qwen_style(101);
    map.remove("blk.10.attn_k.weight");
    assert_eq!(
        ModelBuilder::new(map, config(101)).build().err(),
        Some(GgufError::TensorNotFound("blk.10.attn_k.weight".to_string()))
    );
}
