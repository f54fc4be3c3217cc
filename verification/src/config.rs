//! The configuration of a model, read out of its metadata.

use vstd::prelude::*;
use crate::metadata::{metadata_model, FloatBits, GgufError, Metadata, ValueModel};
use crate::model::{ModelConfig, ModelConfigView};
use crate::text::join;
use crate::wire::{declared_alignment, DEFAULT_ALIGNMENT, MIN_ALIGNMENT};

verus! {

/// The number stored under `key`, narrowed to 32 bits: any unsigned integer
/// is taken, and of one wider than 32 bits the low 32 bits are kept.
pub open spec fn u32_field(metadata: Map<Seq<char>, ValueModel>, key: Seq<char>) -> Option<u32> {
    if !metadata.contains_key(key) {
        None
    } else {
        match metadata[key].as_u64() {
            Some(n) => Some((n % 0x1_0000_0000) as u32),
            None => None,
        }
    }
}

/// The float stored under `key`, of either width.
pub open spec fn float_field(metadata: Map<Seq<char>, ValueModel>, key: Seq<char>) -> Option<
    FloatBits,
> {
    if !metadata.contains_key(key) {
        None
    } else {
        metadata[key].as_float_bits()
    }
}

/// The name of the architecture: the string under `general.architecture`.
pub open spec fn architecture_field(metadata: Map<Seq<char>, ValueModel>) -> Option<Seq<char>> {
    if !metadata.contains_key("general.architecture"@) {
        None
    } else {
        metadata["general.architecture"@].as_text()
    }
}

/// The configuration that a mapping of metadata describes, or the key of the
/// first required field that is absent or of the wrong kind. The fields of
/// an architecture stand under its name: `<arch>.block_count` and so on.
pub open spec fn config_of(metadata: Map<Seq<char>, ValueModel>) -> Result<
    ModelConfigView,
    Seq<char>,
> {
    match architecture_field(metadata) {
        None => Err("general.architecture"@),
        Some(arch) => {
            if u32_field(metadata, arch + ".block_count"@) is None {
                Err(arch + ".block_count"@)
            } else if u32_field(metadata, arch + ".context_length"@) is None {
                Err(arch + ".context_length"@)
            } else if u32_field(metadata, arch + ".embedding_length"@) is None {
                Err(arch + ".embedding_length"@)
            } else if u32_field(metadata, arch + ".feed_forward_length"@) is None {
                Err(arch + ".feed_forward_length"@)
            } else if u32_field(metadata, arch + ".attention.head_count"@) is None {
                Err(arch + ".attention.head_count"@)
            } else {
                Ok(
                    ModelConfigView {
                        architecture: arch,
                        block_count: u32_field(metadata, arch + ".block_count"@)->0,
                        context_length: u32_field(metadata, arch + ".context_length"@)->0,
                        embedding_length: u32_field(metadata, arch + ".embedding_length"@)->0,
                        feed_forward_length: u32_field(
                            metadata,
                            arch + ".feed_forward_length"@,
                        )->0,
                        attention_head_count: u32_field(
                            metadata,
                            arch + ".attention.head_count"@,
                        )->0,
                        attention_head_count_kv: u32_field(
                            metadata,
                            arch + ".attention.head_count_kv"@,
                        ),
                        attention_key_length: u32_field(
                            metadata,
                            arch + ".attention.key_length"@,
                        ),
                        layer_norm_epsilon: float_field(
                            metadata,
                            arch + ".attention.layer_norm_rms_epsilon"@,
                        ),
                        rope_freq_base: float_field(metadata, arch + ".rope.freq_base"@),
                    },
                )
            }
        },
    }
}

/// The alignment of the data section: the unsigned 32-bit integer under
/// `general.alignment`, and 32 where the metadata hold none. An alignment
/// below 8 is refused with `InvalidAlignment`.
pub fn alignment(metadata: &Metadata) -> (r: Result<u32, GgufError>)
    requires
        metadata.wf(),
    ensures
        r == if declared_alignment(metadata_model(*metadata)) < MIN_ALIGNMENT {
            Err::<u32, GgufError>(
                GgufError::InvalidAlignment(declared_alignment(metadata_model(*metadata))),
            )
        } else {
            Ok::<u32, GgufError>(declared_alignment(metadata_model(*metadata)))
        },
{
    let declared = match metadata.get("general.alignment") {
        None => DEFAULT_ALIGNMENT,
        Some(value) => match value.as_uint32() {
            Some(declared) => declared,
            None => DEFAULT_ALIGNMENT,
        },
    };
    if declared < MIN_ALIGNMENT {
        return Err(GgufError::InvalidAlignment(declared));
    }
    Ok(declared)
}

/// Reads the configuration of a model out of its metadata.
///
/// It fails with `MissingField`, naming the key, on the first required field
/// that is absent or of the wrong kind. An optional field that is absent or
/// of the wrong kind is left out.
pub fn extract_model_config(metadata: &Metadata) -> (r: Result<ModelConfig, GgufError>)
    requires
        metadata.wf(),
    ensures
        match config_of(metadata_model(*metadata)) {
            Ok(config) => r is Ok && r->Ok_0@ == config,
            Err(key) => r matches Err(GgufError::MissingField(named)) && named@ == key,
        },
{
    let architecture = match metadata.get("general.architecture") {
        None => None,
        Some(value) => match value.as_string() {
            None => None,
            Some(text) => Some(text.to_owned()),
        },
    };
    let architecture = match architecture {
        None => {
            return Err(GgufError::MissingField("general.architecture".to_owned()));
        },
        Some(name) => name,
    };
    let arch = architecture.as_str();
    let block_count = get_u32_field(metadata, join(arch, ".block_count").as_str())?;
    let context_length = get_u32_field(metadata, join(arch, ".context_length").as_str())?;
    let embedding_length = get_u32_field(
        metadata,
        join(arch, ".embedding_length").as_str(),
    )?;
    let feed_forward_length = get_u32_field(
        metadata,
        join(arch, ".feed_forward_length").as_str(),
    )?;
    let attention_head_count = get_u32_field(
        metadata,
        join(arch, ".attention.head_count").as_str(),
    )?;
    let attention_head_count_kv = get_optional_u32_field(
        metadata,
        join(arch, ".attention.head_count_kv").as_str(),
    );
    let attention_key_length = get_optional_u32_field(
        metadata,
        join(arch, ".attention.key_length").as_str(),
    );
    let layer_norm_epsilon = get_optional_float_field(
        metadata,
        join(arch, ".attention.layer_norm_rms_epsilon").as_str(),
    );
    let rope_freq_base = get_optional_float_field(
        metadata,
        join(arch, ".rope.freq_base").as_str(),
    );
    Ok(
        ModelConfig {
            architecture,
            block_count,
            context_length,
            embedding_length,
            feed_forward_length,
            attention_head_count,
            attention_head_count_kv,
            attention_key_length,
            layer_norm_epsilon,
            rope_freq_base,
        },
    )
}

/// A required numeric field; `MissingField` with the key where there is none.
pub fn get_u32_field(metadata: &Metadata, key: &str) -> (r: Result<u32, GgufError>)
    requires
        metadata.wf(),
    ensures
        match u32_field(metadata_model(*metadata), key@) {
            Some(n) => r == Ok::<u32, GgufError>(n),
            None => r matches Err(GgufError::MissingField(named)) && named@ == key@,
        },
{
    match get_optional_u32_field(metadata, key) {
        Some(n) => Ok(n),
        None => Err(GgufError::MissingField(key.to_owned())),
    }
}

/// An optional numeric field.
pub fn get_optional_u32_field(metadata: &Metadata, key: &str) -> (r: Option<u32>)
    requires
        metadata.wf(),
    ensures
        r == u32_field(metadata_model(*metadata), key@),
{
    match metadata.get(key) {
        None => None,
        Some(value) => match value.as_u64() {
            None => None,
            Some(n) => Some((n % 0x1_0000_0000) as u32),
        },
    }
}

/// An optional floating-point field, as its bits.
pub fn get_optional_float_field(metadata: &Metadata, key: &str) -> (r: Option<FloatBits>)
    requires
        metadata.wf(),
    ensures
        r == float_field(metadata_model(*metadata), key@),
{
    match metadata.get(key) {
        None => None,
        Some(value) => value.as_float_bits(),
    }
}

} // verus!
