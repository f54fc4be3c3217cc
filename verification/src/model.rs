//! The layers of a transformer model, and their assembly from a flat
//! mapping of tensors.

use vstd::prelude::*;
use crate::metadata::{FloatBits, GgufError};
use crate::strmap::StringMap;
use crate::tensors::Tensor;
use crate::text::{
    decimal, decimal_string, is_digit, join, lemma_decimal_then_text,
};

verus! {

/// The configuration of a model, as found in the metadata.
#[derive(Debug, Clone, PartialEq)]
pub struct ModelConfig {
    /// The name of the architecture, such as `qwen3`.
    pub architecture: String,
    /// The number of transformer blocks.
    pub block_count: u32,
    /// The longest sequence the model was trained for.
    pub context_length: u32,
    /// The width of the embeddings.
    pub embedding_length: u32,
    /// The width of the hidden layer of the feed-forward network.
    pub feed_forward_length: u32,
    /// The number of attention heads.
    pub attention_head_count: u32,
    /// The number of key/value heads, where the model groups queries.
    pub attention_head_count_kv: Option<u32>,
    /// The width of one attention head.
    pub attention_key_length: Option<u32>,
    /// The epsilon of the layer normalisation, as stored.
    pub layer_norm_epsilon: Option<FloatBits>,
    /// The base frequency of the rotary embedding, as stored.
    pub rope_freq_base: Option<FloatBits>,
}

/// What a [`ModelConfig`] holds, as mathematics.
pub struct ModelConfigView {
    pub architecture: Seq<char>,
    pub block_count: u32,
    pub context_length: u32,
    pub embedding_length: u32,
    pub feed_forward_length: u32,
    pub attention_head_count: u32,
    pub attention_head_count_kv: Option<u32>,
    pub attention_key_length: Option<u32>,
    pub layer_norm_epsilon: Option<FloatBits>,
    pub rope_freq_base: Option<FloatBits>,
}

impl View for ModelConfig {
    type V = ModelConfigView;

    open spec fn view(&self) -> ModelConfigView {
        ModelConfigView {
            architecture: self.architecture@,
            block_count: self.block_count,
            context_length: self.context_length,
            embedding_length: self.embedding_length,
            feed_forward_length: self.feed_forward_length,
            attention_head_count: self.attention_head_count,
            attention_head_count_kv: self.attention_head_count_kv,
            attention_key_length: self.attention_key_length,
            layer_norm_epsilon: self.layer_norm_epsilon,
            rope_freq_base: self.rope_freq_base,
        }
    }
}

/// The embedding layer.
#[derive(Debug, Clone)]
pub struct EmbeddingLayer {
    /// The token embeddings, `token_embd.weight`.
    pub token_embeddings: Tensor,
}

impl EmbeddingLayer {
    /// The size of the vocabulary: the second dimension of the embeddings.
    pub fn vocab_size(&self) -> (r: u64)
        requires
            self.token_embeddings.info.dims@.len() >= 2,
        ensures
            r == self.token_embeddings.info.dims@[1],
    {
        self.token_embeddings.info.dims[1]
    }

    /// The width of the embeddings: the first dimension of the embeddings.
    pub fn embedding_dim(&self) -> (r: u64)
        requires
            self.token_embeddings.info.dims@.len() >= 1,
        ensures
            r == self.token_embeddings.info.dims@[0],
    {
        self.token_embeddings.info.dims[0]
    }
}

/// The output layer.
#[derive(Debug, Clone)]
pub struct OutputLayer {
    /// The output projection, `output.weight`.
    pub output_weights: Tensor,
    /// The normalisation before the projection, `output_norm.weight`.
    pub output_norm: Option<Tensor>,
}

impl OutputLayer {
    /// The size of the vocabulary: the second dimension of the projection.
    pub fn vocab_size(&self) -> (r: u64)
        requires
            self.output_weights.info.dims@.len() >= 2,
        ensures
            r == self.output_weights.info.dims@[1],
    {
        self.output_weights.info.dims[1]
    }

    /// The width of the embeddings: the first dimension of the projection.
    pub fn embedding_dim(&self) -> (r: u64)
        requires
            self.output_weights.info.dims@.len() >= 1,
        ensures
            r == self.output_weights.info.dims@[0],
    {
        self.output_weights.info.dims[0]
    }
}

/// The attention part of a transformer block.
#[derive(Debug, Clone)]
pub struct AttentionLayer {
    /// The query projection, `attn_q.weight`.
    pub query_weights: Tensor,
    /// The key projection, `attn_k.weight`.
    pub key_weights: Tensor,
    /// The value projection, `attn_v.weight`.
    pub value_weights: Tensor,
    /// The output projection, `attn_output.weight`.
    pub output_weights: Tensor,
    /// The normalisation of the queries, `attn_q_norm.weight`.
    pub query_norm: Option<Tensor>,
    /// The normalisation of the keys, `attn_k_norm.weight`.
    pub key_norm: Option<Tensor>,
    /// The normalisation before attention, `attn_norm.weight`.
    pub attention_norm: Option<Tensor>,
}

impl AttentionLayer {
    /// The width of the model: the first dimension of the query projection.
    pub fn model_dim(&self) -> (r: u64)
        requires
            self.query_weights.info.dims@.len() >= 1,
        ensures
            r == self.query_weights.info.dims@[0],
    {
        self.query_weights.info.dims[0]
    }

    /// The width of the attention: the second dimension of the query
    /// projection.
    pub fn attention_dim(&self) -> (r: u64)
        requires
            self.query_weights.info.dims@.len() >= 2,
        ensures
            r == self.query_weights.info.dims@[1],
    {
        self.query_weights.info.dims[1]
    }
}

/// The feed-forward part of a transformer block.
#[derive(Debug, Clone)]
pub struct FeedForwardLayer {
    /// The gating projection of a gated network, `ffn_gate.weight`.
    pub gate_weights: Option<Tensor>,
    /// The up projection, `ffn_up.weight`.
    pub up_weights: Tensor,
    /// The down projection, `ffn_down.weight`.
    pub down_weights: Tensor,
    /// The normalisation before the network, `ffn_norm.weight`.
    pub ffn_norm: Option<Tensor>,
}

impl FeedForwardLayer {
    /// The width of the model: the first dimension of the down projection.
    pub fn model_dim(&self) -> (r: u64)
        requires
            self.down_weights.info.dims@.len() >= 1,
        ensures
            r == self.down_weights.info.dims@[0],
    {
        self.down_weights.info.dims[0]
    }

    /// The width of the hidden layer: the first dimension of the up
    /// projection.
    pub fn intermediate_dim(&self) -> (r: u64)
        requires
            self.up_weights.info.dims@.len() >= 1,
        ensures
            r == self.up_weights.info.dims@[0],
    {
        self.up_weights.info.dims[0]
    }

    /// Whether the network is gated: whether it has a gating projection.
    pub fn is_gated(&self) -> (r: bool)
        ensures
            r == self.gate_weights is Some,
    {
        self.gate_weights.is_some()
    }
}

/// One transformer block.
#[derive(Debug, Clone)]
pub struct TransformerBlock {
    /// The place of the block in the model, from zero.
    pub layer_index: usize,
    /// The attention part.
    pub attention: AttentionLayer,
    /// The feed-forward part.
    pub feed_forward: FeedForwardLayer,
}

impl TransformerBlock {
    /// The width of the model, as the attention part has it.
    pub fn model_dim(&self) -> (r: u64)
        requires
            self.attention.query_weights.info.dims@.len() >= 1,
        ensures
            r == self.attention.query_weights.info.dims@[0],
    {
        self.attention.model_dim()
    }
}

/// A model: its tensors sorted into layers.
#[derive(Debug, Clone)]
pub struct Model {
    /// The name of the architecture.
    pub architecture: String,
    /// The configuration the model was assembled for.
    pub config: ModelConfig,
    /// The embedding layer.
    pub embeddings: EmbeddingLayer,
    /// The transformer blocks, in order.
    pub transformer_blocks: Vec<TransformerBlock>,
    /// The output layer.
    pub output_layer: OutputLayer,
}

impl Model {
    /// The number of transformer blocks.
    pub fn num_layers(&self) -> (r: usize)
        ensures
            r == self.transformer_blocks@.len(),
    {
        self.transformer_blocks.len()
    }

    /// The block at `index`, if the model has that many.
    pub fn get_block(&self, index: usize) -> (r: Option<&TransformerBlock>)
        ensures
            r == if index < self.transformer_blocks@.len() {
                Some(&self.transformer_blocks@[index as int])
            } else {
                None
            },
    {
        if index < self.transformer_blocks.len() {
            Some(&self.transformer_blocks[index])
        } else {
            None
        }
    }

    /// The width of the model: the embedding length of the configuration.
    pub fn model_dim(&self) -> (r: u64)
        ensures
            r == self.config.embedding_length,
    {
        self.config.embedding_length as u64
    }

    /// The size of the vocabulary, as the embedding layer has it.
    pub fn vocab_size(&self) -> (r: u64)
        requires
            self.embeddings.token_embeddings.info.dims@.len() >= 2,
        ensures
            r == self.embeddings.token_embeddings.info.dims@[1],
    {
        self.embeddings.vocab_size()
    }
}

/// The part of a tensor's name that follows the number of its block, for
/// each of the eleven tensors of a block, in the order in which they are
/// claimed.
pub open spec fn block_part(k: int) -> Seq<char> {
    if k == 0 {
        ".attn_q.weight"@
    } else if k == 1 {
        ".attn_k.weight"@
    } else if k == 2 {
        ".attn_v.weight"@
    } else if k == 3 {
        ".attn_output.weight"@
    } else if k == 4 {
        ".attn_q_norm.weight"@
    } else if k == 5 {
        ".attn_k_norm.weight"@
    } else if k == 6 {
        ".attn_norm.weight"@
    } else if k == 7 {
        ".ffn_gate.weight"@
    } else if k == 8 {
        ".ffn_up.weight"@
    } else if k == 9 {
        ".ffn_down.weight"@
    } else {
        ".ffn_norm.weight"@
    }
}

/// The name of tensor `k` of block `layer`: `blk.<layer>` and the part.
pub open spec fn block_tensor_name(layer: nat, k: int) -> Seq<char> {
    "blk."@ + decimal(layer) + block_part(k)
}

/// Whether `name` is the name of one of the eleven tensors of block `layer`.
pub open spec fn in_block(name: Seq<char>, layer: nat) -> bool {
    ||| name == block_tensor_name(layer, 0)
    ||| name == block_tensor_name(layer, 1)
    ||| name == block_tensor_name(layer, 2)
    ||| name == block_tensor_name(layer, 3)
    ||| name == block_tensor_name(layer, 4)
    ||| name == block_tensor_name(layer, 5)
    ||| name == block_tensor_name(layer, 6)
    ||| name == block_tensor_name(layer, 7)
    ||| name == block_tensor_name(layer, 8)
    ||| name == block_tensor_name(layer, 9)
    ||| name == block_tensor_name(layer, 10)
}

/// The tensor under `name`, if the mapping has one.
pub open spec fn lookup(tensors: Map<Seq<char>, Tensor>, name: Seq<char>) -> Option<Tensor> {
    if tensors.contains_key(name) {
        Some(tensors[name])
    } else {
        None
    }
}

/// Block `layer` as the mapping gives it: each tensor is the one stored
/// under its name, and an optional tensor without an entry is absent.
pub open spec fn block_of(tensors: Map<Seq<char>, Tensor>, layer: nat) -> TransformerBlock {
    TransformerBlock {
        layer_index: layer as usize,
        attention: AttentionLayer {
            query_weights: tensors[block_tensor_name(layer, 0)],
            key_weights: tensors[block_tensor_name(layer, 1)],
            value_weights: tensors[block_tensor_name(layer, 2)],
            output_weights: tensors[block_tensor_name(layer, 3)],
            query_norm: lookup(tensors, block_tensor_name(layer, 4)),
            key_norm: lookup(tensors, block_tensor_name(layer, 5)),
            attention_norm: lookup(tensors, block_tensor_name(layer, 6)),
        },
        feed_forward: FeedForwardLayer {
            gate_weights: lookup(tensors, block_tensor_name(layer, 7)),
            up_weights: tensors[block_tensor_name(layer, 8)],
            down_weights: tensors[block_tensor_name(layer, 9)],
            ffn_norm: lookup(tensors, block_tensor_name(layer, 10)),
        },
    }
}

/// The first required tensor of block `layer` that the mapping lacks, in
/// the order query, key, value, output, up, down.
pub open spec fn missing_in_block(tensors: Map<Seq<char>, Tensor>, layer: nat) -> Option<
    Seq<char>,
> {
    if !tensors.contains_key(block_tensor_name(layer, 0)) {
        Some(block_tensor_name(layer, 0))
    } else if !tensors.contains_key(block_tensor_name(layer, 1)) {
        Some(block_tensor_name(layer, 1))
    } else if !tensors.contains_key(block_tensor_name(layer, 2)) {
        Some(block_tensor_name(layer, 2))
    } else if !tensors.contains_key(block_tensor_name(layer, 3)) {
        Some(block_tensor_name(layer, 3))
    } else if !tensors.contains_key(block_tensor_name(layer, 8)) {
        Some(block_tensor_name(layer, 8))
    } else if !tensors.contains_key(block_tensor_name(layer, 9)) {
        Some(block_tensor_name(layer, 9))
    } else {
        None
    }
}

/// The first required tensor that the first `count` blocks lack, block by
/// block.
pub open spec fn missing_in_blocks(tensors: Map<Seq<char>, Tensor>, count: nat) -> Option<
    Seq<char>,
>
    decreases count,
{
    if count == 0 {
        None
    } else {
        match missing_in_blocks(tensors, (count - 1) as nat) {
            Some(name) => Some(name),
            None => missing_in_block(tensors, (count - 1) as nat),
        }
    }
}

/// The first required tensor that a model of `block_count` blocks lacks:
/// the embeddings come first, then the blocks in order, then the output.
pub open spec fn first_missing(tensors: Map<Seq<char>, Tensor>, block_count: nat) -> Option<
    Seq<char>,
> {
    if !tensors.contains_key("token_embd.weight"@) {
        Some("token_embd.weight"@)
    } else if missing_in_blocks(tensors, block_count) is Some {
        missing_in_blocks(tensors, block_count)
    } else if !tensors.contains_key("output.weight"@) {
        Some("output.weight"@)
    } else {
        None
    }
}

/// Whether `model` is what the mapping and the configuration assemble to:
/// every tensor of the model is the one the mapping holds under its name.
pub open spec fn assembles(
    model: Model,
    tensors: Map<Seq<char>, Tensor>,
    config: ModelConfig,
) -> bool {
    &&& model.architecture == config.architecture
    &&& model.config == config
    &&& model.embeddings.token_embeddings == tensors["token_embd.weight"@]
    &&& model.transformer_blocks@.len() == config.block_count
    &&& forall|i: int|
        0 <= i < config.block_count ==> #[trigger] model.transformer_blocks@[i] == block_of(
            tensors,
            i as nat,
        )
    &&& model.output_layer.output_weights == tensors["output.weight"@]
    &&& model.output_layer.output_norm == lookup(tensors, "output_norm.weight"@)
}

/// Once the first `reached` blocks lack a tensor, so does any longer run,
/// and it is the same tensor that is named.
pub proof fn lemma_missing_in_blocks(tensors: Map<Seq<char>, Tensor>, reached: nat, count: nat)
    requires
        missing_in_blocks(tensors, reached) is Some,
        reached <= count,
    ensures
        missing_in_blocks(tensors, count) == missing_in_blocks(tensors, reached),
    decreases count,
{
    if reached < count {
        lemma_missing_in_blocks(tensors, reached, (count - 1) as nat);
    }
}

/// Whether two mappings say the same of `name`: both lack it, or both hold
/// the same tensor under it.
pub open spec fn agree(
    now: Map<Seq<char>, Tensor>,
    before: Map<Seq<char>, Tensor>,
    name: Seq<char>,
) -> bool {
    lookup(now, name) == lookup(before, name)
}

/// Whether `name` has been claimed once the embeddings and the first
/// `layers` blocks are assembled.
pub open spec fn claimed(name: Seq<char>, layers: nat) -> bool {
    name == "token_embd.weight"@ || exists|j: nat| j < layers && #[trigger] in_block(name, j)
}

spec fn mark(text: Seq<char>) -> (nat, char, char, char) {
    (text.len(), text[0], text[5], text[6])
}

/// The eleven parts are pairwise different, and each starts with a dot.
pub proof fn lemma_parts_distinct()
    ensures
        forall|a: int, b: int|
            0 <= a < b < 11 ==> #[trigger] block_part(a) != #[trigger] block_part(b),
        forall|k: int| block_part(k).len() > 0 && (#[trigger] block_part(k))[0] == '.',
{
    reveal_strlit(".attn_q.weight");
    reveal_strlit(".attn_k.weight");
    reveal_strlit(".attn_v.weight");
    reveal_strlit(".attn_output.weight");
    reveal_strlit(".attn_q_norm.weight");
    reveal_strlit(".attn_k_norm.weight");
    reveal_strlit(".attn_norm.weight");
    reveal_strlit(".ffn_gate.weight");
    reveal_strlit(".ffn_up.weight");
    reveal_strlit(".ffn_down.weight");
    reveal_strlit(".ffn_norm.weight");
    assert(mark(block_part(0)) == (14nat, '.', '_', 'q'));
    assert(mark(block_part(1)) == (14nat, '.', '_', 'k'));
    assert(mark(block_part(2)) == (14nat, '.', '_', 'v'));
    assert(mark(block_part(3)) == (19nat, '.', '_', 'o'));
    assert(mark(block_part(4)) == (19nat, '.', '_', 'q'));
    assert(mark(block_part(5)) == (19nat, '.', '_', 'k'));
    assert(mark(block_part(6)) == (17nat, '.', '_', 'n'));
    assert(mark(block_part(7)) == (16nat, '.', 'g', 'a'));
    assert(mark(block_part(8)) == (14nat, '.', 'u', 'p'));
    assert(mark(block_part(9)) == (16nat, '.', 'd', 'o'));
    assert(mark(block_part(10)) == (16nat, '.', 'n', 'o'));
    assert forall|a: int, b: int| 0 <= a < b < 11 implies #[trigger] block_part(a)
        != #[trigger] block_part(b) by {
        assert(mark(block_part(a)) != mark(block_part(b)));
    }
    assert forall|k: int| block_part(k).len() > 0 && (#[trigger] block_part(k))[0] == '.' by {
        assert(mark(block_part(k)).0 > 0 && mark(block_part(k)).1 == '.');
    }
}

/// Two tensors of blocks bear the same name only if they are the same
/// tensor of the same block.
pub proof fn lemma_block_names_distinct(i: nat, a: int, j: nat, b: int)
    requires
        0 <= a < 11,
        0 <= b < 11,
        block_tensor_name(i, a) == block_tensor_name(j, b),
    ensures
        i == j,
        a == b,
{
    lemma_parts_distinct();
    let head = "blk."@;
    let left = decimal(i) + block_part(a);
    let right = decimal(j) + block_part(b);
    assert(block_tensor_name(i, a) =~= head + left);
    assert(block_tensor_name(j, b) =~= head + right);
    assert(left =~= (head + left).subrange(head.len() as int, (head + left).len() as int));
    assert(right =~= (head + right).subrange(head.len() as int, (head + right).len() as int));
    assert(!is_digit('.'));
    lemma_decimal_then_text(i, block_part(a), j, block_part(b));
    if a < b {
        assert(block_part(a) != block_part(b));
    } else if b < a {
        assert(block_part(b) != block_part(a));
    }
}

/// The embeddings and the two tensors of the output layer bear names of
/// their own: different from one another and from every tensor of a block.
pub proof fn lemma_outer_names_distinct()
    ensures
        "token_embd.weight"@ != "output.weight"@,
        "token_embd.weight"@ != "output_norm.weight"@,
        "output.weight"@ != "output_norm.weight"@,
        forall|layer: nat, k: int| #[trigger]
            block_tensor_name(layer, k) != "token_embd.weight"@ && block_tensor_name(layer, k)
                != "output.weight"@ && block_tensor_name(layer, k) != "output_norm.weight"@,
{
    reveal_strlit("token_embd.weight");
    reveal_strlit("output.weight");
    reveal_strlit("output_norm.weight");
    reveal_strlit("blk.");
    assert("token_embd.weight"@[0] == 't');
    assert("output.weight"@[0] == 'o');
    assert("output_norm.weight"@[0] == 'o');
    assert("output.weight"@.len() == 13);
    assert("output_norm.weight"@.len() == 18);
    assert forall|layer: nat, k: int| #[trigger]
        block_tensor_name(layer, k) != "token_embd.weight"@ && block_tensor_name(layer, k)
            != "output.weight"@ && block_tensor_name(layer, k) != "output_norm.weight"@ by {
        assert("blk."@[0] == 'b');
        assert(block_tensor_name(layer, k)[0] == 'b');
    }
}

/// No tensor of one block bears the name of a tensor of another block.
pub proof fn lemma_blocks_apart(i: nat, k: int, j: nat)
    requires
        0 <= k < 11,
        i != j,
    ensures
        !in_block(block_tensor_name(i, k), j),
{
    let name = block_tensor_name(i, k);
    if name == block_tensor_name(j, 0) {
        lemma_block_names_distinct(i, k, j, 0);
    }
    if name == block_tensor_name(j, 1) {
        lemma_block_names_distinct(i, k, j, 1);
    }
    if name == block_tensor_name(j, 2) {
        lemma_block_names_distinct(i, k, j, 2);
    }
    if name == block_tensor_name(j, 3) {
        lemma_block_names_distinct(i, k, j, 3);
    }
    if name == block_tensor_name(j, 4) {
        lemma_block_names_distinct(i, k, j, 4);
    }
    if name == block_tensor_name(j, 5) {
        lemma_block_names_distinct(i, k, j, 5);
    }
    if name == block_tensor_name(j, 6) {
        lemma_block_names_distinct(i, k, j, 6);
    }
    if name == block_tensor_name(j, 7) {
        lemma_block_names_distinct(i, k, j, 7);
    }
    if name == block_tensor_name(j, 8) {
        lemma_block_names_distinct(i, k, j, 8);
    }
    if name == block_tensor_name(j, 9) {
        lemma_block_names_distinct(i, k, j, 9);
    }
    if name == block_tensor_name(j, 10) {
        lemma_block_names_distinct(i, k, j, 10);
    }
}

/// The tensors of block `layer` have not been claimed while only the
/// embeddings and earlier blocks are assembled.
pub proof fn lemma_block_unclaimed(layer: nat, layers: nat)
    requires
        layers <= layer,
    ensures
        forall|k: int| 0 <= k < 11 ==> !claimed(#[trigger] block_tensor_name(layer, k), layers),
{
    lemma_outer_names_distinct();
    assert forall|k: int| 0 <= k < 11 implies !claimed(
        #[trigger] block_tensor_name(layer, k),
        layers,
    ) by {
        assert forall|j: nat| j < layers implies !in_block(block_tensor_name(layer, k), j) by {
            lemma_blocks_apart(layer, k, j);
        }
    }
}

/// Assembles a model out of a flat mapping of tensors.
pub struct ModelBuilder {
    tensors: StringMap<Tensor>,
    config: ModelConfig,
}

impl ModelBuilder {
    /// The tensors not yet claimed.
    pub closed spec fn tensors(&self) -> Map<Seq<char>, Tensor> {
        self.tensors@
    }

    /// The configuration to assemble for.
    pub closed spec fn config(&self) -> ModelConfig {
        self.config
    }

    /// The mapping of tensors is well formed.
    pub closed spec fn wf(&self) -> bool {
        self.tensors.wf()
    }

    /// A builder over `tensors` for the model that `config` describes.
    pub fn new(tensors: StringMap<Tensor>, config: ModelConfig) -> (r: Self)
        requires
            tensors.wf(),
        ensures
            r.wf(),
            r.tensors() == tensors@,
            r.config() == config,
    {
        ModelBuilder { tensors, config }
    }

    /// Assembles the model: the embeddings, then `block_count` transformer
    /// blocks, then the output layer, each tensor taken from the mapping by
    /// its name.
    ///
    /// It fails on the first required tensor that the mapping lacks, and
    /// names it. Tensors that no layer claims are dropped.
    pub fn build(self) -> (r: Result<Model, GgufError>)
        requires
            self.wf(),
        ensures
            match first_missing(self.tensors(), self.config().block_count as nat) {
                Some(name) => r matches Err(GgufError::TensorNotFound(named)) && named@ == name,
                None => r is Ok && assembles(r->Ok_0, self.tensors(), self.config()),
            },
    {
        let ghost all = self.tensors@;
        let mut builder = self;
        let count = builder.config.block_count;
        let embeddings = builder.build_embeddings()?;
        let mut transformer_blocks: Vec<TransformerBlock> = Vec::new();
        let mut i: u32 = 0;
        while i < count
            invariant
                builder.tensors.wf(),
                builder.config == self.config,
                count == self.config.block_count,
                i <= count,
                all == self.tensors@,
                all.contains_key("token_embd.weight"@),
                embeddings.token_embeddings == all["token_embd.weight"@],
                missing_in_blocks(all, i as nat) is None,
                transformer_blocks@.len() == i,
                forall|j: int|
                    0 <= j < i ==> #[trigger] transformer_blocks@[j] == block_of(all, j as nat),
                forall|name: Seq<char>|
                    !claimed(name, i as nat) ==> #[trigger] agree(builder.tensors@, all, name),
            decreases count - i,
        {
            let ghost before = builder.tensors@;
            proof {
                lemma_block_unclaimed(i as nat, i as nat);
                assert forall|k: int| 0 <= k < 11 implies agree(
                    before,
                    all,
                    #[trigger] block_tensor_name(i as nat, k),
                ) by {}
                assert(missing_in_block(before, i as nat) == missing_in_block(all, i as nat));
                assert(missing_in_block(all, i as nat) is None ==> block_of(before, i as nat)
                    == block_of(all, i as nat));
            }
            match builder.build_transformer_block(i as usize) {
                Err(fault) => {
                    proof {
                        lemma_missing_in_blocks(all, (i + 1) as nat, count as nat);
                    }
                    return Err(fault);
                },
                Ok(block) => {
                    transformer_blocks.push(block);
                },
            }
            proof {
                let now = builder.tensors@;
                assert forall|name: Seq<char>| !claimed(name, (i + 1) as nat) implies #[trigger]
                    agree(now, all, name) by {
                    assert(!in_block(name, i as nat));
                    assert(!claimed(name, i as nat));
                    assert(agree(builder.tensors@, before, name));
                    assert(agree(before, all, name));
                }
            }
            i = i + 1;
        }
        proof {
            lemma_outer_names_distinct();
            assert(!claimed("output.weight"@, count as nat));
            assert(!claimed("output_norm.weight"@, count as nat));
            assert(agree(builder.tensors@, all, "output.weight"@));
            assert(agree(builder.tensors@, all, "output_norm.weight"@));
        }
        let output_layer = builder.build_output_layer()?;
        Ok(
            Model {
                architecture: builder.config.architecture.clone(),
                config: builder.config,
                embeddings,
                transformer_blocks,
                output_layer,
            },
        )
    }

    fn build_embeddings(&mut self) -> (r: Result<EmbeddingLayer, GgufError>)
        requires
            old(self).tensors.wf(),
        ensures
            final(self).tensors.wf(),
            final(self).config == old(self).config,
            forall|name: Seq<char>|
                name != "token_embd.weight"@ ==> #[trigger] agree(
                    final(self).tensors@,
                    old(self).tensors@,
                    name,
                ),
            match lookup(old(self).tensors@, "token_embd.weight"@) {
                Some(tensor) => r is Ok && r->Ok_0.token_embeddings == tensor,
                None => r matches Err(GgufError::TensorNotFound(named)) && named@
                    == "token_embd.weight"@,
            },
    {
        let token_embeddings = self.take_tensor("token_embd.weight")?;
        Ok(EmbeddingLayer { token_embeddings })
    }

    fn build_transformer_block(&mut self, layer_idx: usize) -> (r: Result<
        TransformerBlock,
        GgufError,
    >)
        requires
            old(self).tensors.wf(),
        ensures
            final(self).tensors.wf(),
            final(self).config == old(self).config,
            forall|name: Seq<char>|
                !in_block(name, layer_idx as nat) ==> #[trigger] agree(
                    final(self).tensors@,
                    old(self).tensors@,
                    name,
                ),
            match missing_in_block(old(self).tensors@, layer_idx as nat) {
                Some(name) => r matches Err(GgufError::TensorNotFound(named)) && named@ == name,
                None => r == Ok::<TransformerBlock, GgufError>(
                    block_of(old(self).tensors@, layer_idx as nat),
                ),
            },
    {
        let ghost layer = layer_idx as nat;
        let number = decimal_string(layer_idx as u64);
        let prefix = join("blk.", number.as_str());
        proof {
            lemma_parts_distinct();
            assert forall|a: int, b: int| 0 <= a < 11 && 0 <= b < 11 && a != b implies (
            #[trigger] block_tensor_name(layer, a)) != (#[trigger] block_tensor_name(layer, b)) by {
                if block_tensor_name(layer, a) == block_tensor_name(layer, b) {
                    lemma_block_names_distinct(layer, a, layer, b);
                }
            }
        }
        let query_weights = self.take_tensor(join(prefix.as_str(), ".attn_q.weight").as_str())?;
        let key_weights = self.take_tensor(join(prefix.as_str(), ".attn_k.weight").as_str())?;
        let value_weights = self.take_tensor(join(prefix.as_str(), ".attn_v.weight").as_str())?;
        let output_weights = self.take_tensor(
            join(prefix.as_str(), ".attn_output.weight").as_str(),
        )?;
        let query_norm = self.try_take_tensor(
            join(prefix.as_str(), ".attn_q_norm.weight").as_str(),
        );
        let key_norm = self.try_take_tensor(
            join(prefix.as_str(), ".attn_k_norm.weight").as_str(),
        );
        let attention_norm = self.try_take_tensor(
            join(prefix.as_str(), ".attn_norm.weight").as_str(),
        );
        let attention = AttentionLayer {
            query_weights,
            key_weights,
            value_weights,
            output_weights,
            query_norm,
            key_norm,
            attention_norm,
        };
        let gate_weights = self.try_take_tensor(
            join(prefix.as_str(), ".ffn_gate.weight").as_str(),
        );
        let up_weights = self.take_tensor(join(prefix.as_str(), ".ffn_up.weight").as_str())?;
        let down_weights = self.take_tensor(join(prefix.as_str(), ".ffn_down.weight").as_str())?;
        let ffn_norm = self.try_take_tensor(join(prefix.as_str(), ".ffn_norm.weight").as_str());
        let feed_forward = FeedForwardLayer { gate_weights, up_weights, down_weights, ffn_norm };
        Ok(TransformerBlock { layer_index: layer_idx, attention, feed_forward })
    }

    fn build_output_layer(&mut self) -> (r: Result<OutputLayer, GgufError>)
        requires
            old(self).tensors.wf(),
        ensures
            final(self).tensors.wf(),
            final(self).config == old(self).config,
            match lookup(old(self).tensors@, "output.weight"@) {
                Some(tensor) => r == Ok::<OutputLayer, GgufError>(
                    OutputLayer {
                        output_weights: tensor,
                        output_norm: lookup(old(self).tensors@, "output_norm.weight"@),
                    },
                ),
                None => r matches Err(GgufError::TensorNotFound(named)) && named@
                    == "output.weight"@,
            },
    {
        proof {
            lemma_outer_names_distinct();
        }
        let output_weights = self.take_tensor("output.weight")?;
        let output_norm = self.try_take_tensor("output_norm.weight");
        Ok(OutputLayer { output_weights, output_norm })
    }

    /// Takes a required tensor out of the mapping.
    fn take_tensor(&mut self, name: &str) -> (r: Result<Tensor, GgufError>)
        requires
            old(self).tensors.wf(),
        ensures
            final(self).tensors.wf(),
            final(self).config == old(self).config,
            final(self).tensors@ == old(self).tensors@.remove(name@),
            match lookup(old(self).tensors@, name@) {
                Some(tensor) => r == Ok::<Tensor, GgufError>(tensor),
                None => r matches Err(GgufError::TensorNotFound(named)) && named@ == name@,
            },
    {
        match self.tensors.remove(name) {
            Some(tensor) => Ok(tensor),
            None => Err(GgufError::TensorNotFound(name.to_owned())),
        }
    }

    /// Takes an optional tensor out of the mapping.
    fn try_take_tensor(&mut self, name: &str) -> (r: Option<Tensor>)
        requires
            old(self).tensors.wf(),
        ensures
            final(self).tensors.wf(),
            final(self).config == old(self).config,
            final(self).tensors@ == old(self).tensors@.remove(name@),
            r == lookup(old(self).tensors@, name@),
    {
        self.tensors.remove(name)
    }
}

} // verus!
