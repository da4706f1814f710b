use vstd::prelude::*;

verus! {

/// The two kinds of attention layer a Gemma 4 text tower alternates between.
#[derive(Clone, Copy, Debug, PartialEq, Eq, Structural)]
pub enum LayerType {
    SlidingAttention,
    FullAttention,
}

/// The attention geometry that differs between the two layer kinds.
#[derive(Clone, Copy, Debug, PartialEq, Eq, Structural)]
pub struct KindDims {
    pub head_dim: usize,
    pub num_kv_heads: usize,
}

/// What the planners read of a Gemma 4 text configuration.
///
/// `layer_types` and `kv_sources` have one entry per hidden layer; the entry of
/// `kv_sources` names the earlier layer whose key/value cache the layer shares,
/// or is `None` for a layer with a cache of its own.
pub struct Gemma4Config {
    pub hidden_size: usize,
    pub intermediate_size: usize,
    pub vocab_size: usize,
    pub vocab_size_per_layer: usize,
    pub num_hidden_layers: usize,
    pub num_attention_heads: usize,
    pub sliding: KindDims,
    pub full: KindDims,
    pub hidden_size_per_layer_input: usize,
    pub sliding_window: usize,
    pub layer_types: Vec<LayerType>,
    pub kv_sources: Vec<Option<usize>>,
    pub attention_k_eq_v: bool,
    pub tie_word_embeddings: bool,
}

impl Gemma4Config {
    /// Every hidden layer has a kind and a key/value source entry.
    pub open spec fn wf(&self) -> bool {
        &&& self.layer_types@.len() == self.num_hidden_layers
        &&& self.kv_sources@.len() == self.num_hidden_layers
    }

    pub open spec fn dims(&self, kind: LayerType) -> KindDims {
        match kind {
            LayerType::SlidingAttention => self.sliding,
            LayerType::FullAttention => self.full,
        }
    }

    pub fn head_dim_for(&self, kind: LayerType) -> (r: usize)
        ensures
            r == self.dims(kind).head_dim,
    {
        match kind {
            LayerType::SlidingAttention => self.sliding.head_dim,
            LayerType::FullAttention => self.full.head_dim,
        }
    }

    pub fn num_kv_heads_for(&self, kind: LayerType) -> (r: usize)
        ensures
            r == self.dims(kind).num_kv_heads,
    {
        match kind {
            LayerType::SlidingAttention => self.sliding.num_kv_heads,
            LayerType::FullAttention => self.full.num_kv_heads,
        }
    }

    pub fn has_per_layer_embeddings(&self) -> (r: bool)
        ensures
            r == (self.hidden_size_per_layer_input > 0),
    {
        self.hidden_size_per_layer_input > 0
    }

    /// Whether a layer of this kind projects values of its own.
    pub fn has_v(&self, kind: LayerType) -> (r: bool)
        ensures
            r == self.spec_has_v(kind),
    {
        match kind {
            LayerType::SlidingAttention => true,
            LayerType::FullAttention => !self.attention_k_eq_v,
        }
    }

    pub open spec fn spec_has_v(&self, kind: LayerType) -> bool {
        !(kind == LayerType::FullAttention && self.attention_k_eq_v)
    }
}

} // verus!
