//! Decoder for the GGUF model container: header, typed metadata, tensor
//! descriptors, the data section, and the assembly of a transformer model
//! from the tensors found.
//!
//! Every function here works on bytes already in memory and is verified
//! against the layout stated in [`wire`].

pub mod config;
pub mod encode;
pub mod endian;
pub mod error;
pub mod header;
pub mod laws;
pub mod metadata;
pub mod model;
pub mod reader;
pub mod strmap;
pub mod tensor;
pub mod tensors;
pub mod text;
pub mod wire;

pub use config::extract_model_config;
pub use metadata::{
    FloatBits, GgufError, GgufHeader, GgufReader, Metadata, TensorType, Value, ValueType,
    GGUF_MAGIC,
};
pub use model::{Model, ModelBuilder, ModelConfig};
pub use reader::ByteReader;
pub use strmap::StringMap;
pub use tensors::{Tensor, TensorInfo, TensorLoader};
