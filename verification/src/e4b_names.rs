//! The checkpoint tensors of the E4B decoder: their names and shapes.
use vstd::prelude::*;
use crate::config::{Gemma4Config, LayerType};
use crate::text::{push_dec, dec, texts};

verus! {

/// What every tensor name of the decoder begins with.
pub const PREFIX: &'static str = "model.language_model";

/// How many quantizable matrices a layer has.
pub const LAYER_LINEARS: usize = 9;

/// The matrices of a layer, in the order in which a checkpoint is searched for them.
pub open spec fn linear_suffix(j: int) -> Seq<char> {
    if j == 0 {
        "self_attn.q_proj"@
    } else if j == 1 {
        "self_attn.k_proj"@
    } else if j == 2 {
        "self_attn.v_proj"@
    } else if j == 3 {
        "self_attn.o_proj"@
    } else if j == 4 {
        "mlp.gate_proj"@
    } else if j == 5 {
        "mlp.up_proj"@
    } else if j == 6 {
        "mlp.down_proj"@
    } else if j == 7 {
        "per_layer_input_gate"@
    } else {
        "per_layer_projection"@
    }
}

fn suffix_of(j: usize) -> (r: &'static str)
    ensures
        r@ == linear_suffix(j as int),
{
    match j {
        0 => "self_attn.q_proj",
        1 => "self_attn.k_proj",
        2 => "self_attn.v_proj",
        3 => "self_attn.o_proj",
        4 => "mlp.gate_proj",
        5 => "mlp.up_proj",
        6 => "mlp.down_proj",
        7 => "per_layer_input_gate",
        _ => "per_layer_projection",
    }
}

/// The name of a tensor that the whole decoder shares.
pub open spec fn shared_text(rest: Seq<char>) -> Seq<char> {
    PREFIX@ + "."@ + rest
}

pub fn shared_name(rest: &str) -> (r: String)
    ensures
        r@ == shared_text(rest@),
{
    let mut b = String::new();
    b.append(PREFIX);
    b.append(".");
    b.append(rest);
    assert(b@ =~= shared_text(rest@));
    b
}

/// The name of a tensor of layer `i`.
pub open spec fn layer_text(i: int, rest: Seq<char>) -> Seq<char> {
    PREFIX@ + ".layers."@ + dec(i as nat) + "."@ + rest
}

pub fn layer_name(i: usize, rest: &str) -> (r: String)
    ensures
        r@ == layer_text(i as int, rest@),
{
    let mut b = String::new();
    b.append(PREFIX);
    b.append(".layers.");
    push_dec(&mut b, i as u64);
    b.append(".");
    b.append(rest);
    assert(b@ =~= layer_text(i as int, rest@));
    b
}

/// The matrices that may be stored in four bits: the shared projection, then those of each
/// layer.
pub open spec fn linear_texts(n_layers: int) -> Seq<Seq<char>> {
    Seq::new(
        (1 + 9 * n_layers) as nat,
        |i: int|
            if i == 0 {
                shared_text("per_layer_model_projection"@)
            } else {
                layer_text((i - 1) / 9, linear_suffix((i - 1) % 9))
            },
    )
}

/// The names of all matrices that may be stored in four bits.
pub fn w4_linear_names(n_layers: usize) -> (r: Vec<String>)
    requires
        1 + 9 * n_layers <= usize::MAX,
    ensures
        texts(r@) == linear_texts(n_layers as int),
{
    let mut v: Vec<String> = Vec::new();
    v.push(shared_name("per_layer_model_projection"));
    let mut i: usize = 0;
    while i < n_layers
        invariant
            i <= n_layers,
            v@.len() == 1 + 9 * i,
            forall|t: int| 0 <= t < v@.len() ==> (#[trigger] v@[t])@ == linear_texts(i as int)[t],
        decreases n_layers - i,
    {
        let mut j: usize = 0;
        while j < LAYER_LINEARS
            invariant
                i < n_layers,
                j <= 9,
                v@.len() == 1 + 9 * i + j,
                forall|t: int|
                    0 <= t < v@.len() ==> (#[trigger] v@[t])@ == linear_texts(i + 1)[t],
            decreases 9 - j,
        {
            v.push(layer_name(i, suffix_of(j)));
            assert((9 * i + j) / 9 == i && (9 * i + j) % 9 == j as int);
            j = j + 1;
        }
        i = i + 1;
    }
    assert(texts(v@) =~= linear_texts(n_layers as int));
    v
}

/// Where the name of matrix `j` of layer `i` stands: no two matrices share a place.
pub proof fn law_linear_names(n_layers: int, i: int, j: int)
    requires
        0 <= i < n_layers,
        0 <= j < 9,
    ensures
        linear_texts(n_layers).len() == 1 + 9 * n_layers,
        linear_texts(n_layers)[1 + 9 * i + j] == layer_text(i, linear_suffix(j)),
{
    assert((9 * i + j) / 9 == i && (9 * i + j) % 9 == j);
}

/// A matrix to be read from a checkpoint: its name without the ending, and its shape.
pub struct LinWant {
    pub name: String,
    pub n: usize,
    pub k: usize,
}

impl LinWant {
    pub open spec fn of(self, name: Seq<char>, n: int, k: int) -> bool {
        self.name@ == name && self.n == n && self.k == k
    }
}

fn lin_want(i: usize, rest: &str, n: usize, k: usize) -> (r: LinWant)
    ensures
        r.of(layer_text(i as int, rest@), n as int, k as int),
{
    LinWant { name: layer_name(i, rest), n, k }
}

/// The tensors that make up a layer.
pub struct LayerWant {
    pub kind: LayerType,
    pub kv_source: Option<usize>,
    pub has_v: bool,
    /// The parts of the fused projections, in row order.
    pub qkv: Vec<LinWant>,
    pub gate_up: Vec<LinWant>,
    pub o: LinWant,
    pub down: LinWant,
    pub per_layer_input_gate: LinWant,
    pub per_layer_projection: LinWant,
    pub k_norm: Option<String>,
    pub q_norm: String,
    pub input_ln: String,
    pub post_attn_ln: String,
    pub pre_ff_ln: String,
    pub post_ff_ln: String,
    pub post_per_layer_input_norm: String,
    pub layer_scalar: String,
}

/// The parts of the fused query, key and value projection of a layer.
pub open spec fn qkv_parts(config: Gemma4Config, i: int) -> Seq<(Seq<char>, int, int)> {
    let kind = config.layer_types@[i];
    let d = config.dims(kind);
    let q = (
        layer_text(i, "self_attn.q_proj"@),
        config.num_attention_heads * d.head_dim,
        config.hidden_size as int,
    );
    let k = (
        layer_text(i, "self_attn.k_proj"@),
        d.num_kv_heads * d.head_dim,
        config.hidden_size as int,
    );
    let v = (
        layer_text(i, "self_attn.v_proj"@),
        d.num_kv_heads * d.head_dim,
        config.hidden_size as int,
    );
    if config.kv_sources@[i] is Some {
        seq![q]
    } else if config.spec_has_v(kind) {
        seq![q, k, v]
    } else {
        seq![q, k]
    }
}

pub open spec fn wants(v: Seq<LinWant>, parts: Seq<(Seq<char>, int, int)>) -> bool {
    &&& v.len() == parts.len()
    &&& forall|j: int|
        0 <= j < parts.len() ==> (#[trigger] v[j]).of(parts[j].0, parts[j].1, parts[j].2)
}

impl LayerWant {
    /// The tensors of layer `i` under the names and with the shapes of a checkpoint.
    pub open spec fn of(self, config: Gemma4Config, i: int) -> bool {
        let kind = config.layer_types@[i];
        let hidden = config.hidden_size as int;
        let inter = config.intermediate_size as int;
        let hpl = config.hidden_size_per_layer_input as int;
        let q_dim = config.num_attention_heads * config.dims(kind).head_dim;
        &&& self.kind == kind
        &&& self.kv_source == config.kv_sources@[i]
        &&& self.has_v == config.spec_has_v(kind)
        &&& wants(self.qkv@, qkv_parts(config, i))
        &&& wants(
            self.gate_up@,
            seq![
                (layer_text(i, "mlp.gate_proj"@), inter, hidden),
                (layer_text(i, "mlp.up_proj"@), inter, hidden),
            ],
        )
        &&& self.o.of(layer_text(i, "self_attn.o_proj"@), hidden, q_dim)
        &&& self.down.of(layer_text(i, "mlp.down_proj"@), hidden, inter)
        &&& self.per_layer_input_gate.of(layer_text(i, "per_layer_input_gate"@), hpl, hidden)
        &&& self.per_layer_projection.of(layer_text(i, "per_layer_projection"@), hidden, hpl)
        &&& self.k_norm is Some == config.kv_sources@[i] is None
        &&& self.k_norm matches Some(s) ==> s@ == layer_text(i, "self_attn.k_norm.weight"@)
        &&& self.norms_of(i)
    }

    pub open spec fn norms_of(self, i: int) -> bool {
        &&& self.q_norm@ == layer_text(i, "self_attn.q_norm.weight"@)
        &&& self.input_ln@ == layer_text(i, "input_layernorm.weight"@)
        &&& self.post_attn_ln@ == layer_text(i, "post_attention_layernorm.weight"@)
        &&& self.pre_ff_ln@ == layer_text(i, "pre_feedforward_layernorm.weight"@)
        &&& self.post_ff_ln@ == layer_text(i, "post_feedforward_layernorm.weight"@)
        &&& self.post_per_layer_input_norm@ == layer_text(i, "post_per_layer_input_norm.weight"@)
        &&& self.layer_scalar@ == layer_text(i, "layer_scalar"@)
    }
}

/// The tensors to read for layer `i`.
pub fn load_e4b_layer_from_loader(config: &Gemma4Config, i: usize) -> (r: LayerWant)
    requires
        config.wf(),
        i < config.num_hidden_layers,
        config.num_attention_heads * config.dims(config.layer_types@[i as int]).head_dim
            <= usize::MAX,
        config.dims(config.layer_types@[i as int]).num_kv_heads * config.dims(
            config.layer_types@[i as int],
        ).head_dim <= usize::MAX,
    ensures
        r.of(*config, i as int),
{
    let hidden: usize = config.hidden_size;
    let inter: usize = config.intermediate_size;
    let hpl: usize = config.hidden_size_per_layer_input;
    let kind = config.layer_types[i];
    let hd: usize = config.head_dim_for(kind);
    let q_dim: usize = config.num_attention_heads * hd;
    let kv_dim: usize = config.num_kv_heads_for(kind) * hd;
    let kv_source = config.kv_sources[i];
    let has_v = config.has_v(kind);
    let mut qkv: Vec<LinWant> = vec![lin_want(i, "self_attn.q_proj", q_dim, hidden)];
    let k_norm = if kv_source.is_none() {
        qkv.push(lin_want(i, "self_attn.k_proj", kv_dim, hidden));
        if has_v {
            qkv.push(lin_want(i, "self_attn.v_proj", kv_dim, hidden));
        }
        Some(layer_name(i, "self_attn.k_norm.weight"))
    } else {
        None
    };
    LayerWant {
        kind,
        kv_source,
        has_v,
        qkv,
        gate_up: vec![
            lin_want(i, "mlp.gate_proj", inter, hidden),
            lin_want(i, "mlp.up_proj", inter, hidden),
        ],
        o: lin_want(i, "self_attn.o_proj", hidden, q_dim),
        down: lin_want(i, "mlp.down_proj", hidden, inter),
        per_layer_input_gate: lin_want(i, "per_layer_input_gate", hpl, hidden),
        per_layer_projection: lin_want(i, "per_layer_projection", hidden, hpl),
        k_norm,
        q_norm: layer_name(i, "self_attn.q_norm.weight"),
        input_ln: layer_name(i, "input_layernorm.weight"),
        post_attn_ln: layer_name(i, "post_attention_layernorm.weight"),
        pre_ff_ln: layer_name(i, "pre_feedforward_layernorm.weight"),
        post_ff_ln: layer_name(i, "post_feedforward_layernorm.weight"),
        post_per_layer_input_norm: layer_name(i, "post_per_layer_input_norm.weight"),
        layer_scalar: layer_name(i, "layer_scalar"),
    }
}

/// The tensors that the layers share.
pub struct SharedWant {
    pub embed: String,
    pub embed_per_layer: String,
    pub per_layer_model_projection: LinWant,
    pub per_layer_projection_norm: String,
    pub final_norm: String,
}

/// Why a checkpoint cannot be read for this graph.
#[derive(Clone, Copy, Debug, PartialEq, Eq, Structural)]
pub enum LoadError {
    NoPerLayerInput,
    UntiedHead,
}

/// The shared tensors to read. The graph wants per-layer inputs and a tied head.
pub fn e4b_host_weights_from_loader(config: &Gemma4Config) -> (r: Result<SharedWant, LoadError>)
    requires
        config.num_hidden_layers * config.hidden_size_per_layer_input <= usize::MAX,
    ensures
        match r {
            Err(LoadError::NoPerLayerInput) => config.hidden_size_per_layer_input == 0,
            Err(LoadError::UntiedHead) => {
                &&& config.hidden_size_per_layer_input > 0
                &&& !config.tie_word_embeddings
            },
            Ok(w) => {
                &&& config.hidden_size_per_layer_input > 0 && config.tie_word_embeddings
                &&& w.embed@ == shared_text("embed_tokens.weight"@)
                &&& w.embed_per_layer@ == shared_text("embed_tokens_per_layer.weight"@)
                &&& w.per_layer_model_projection.of(
                    shared_text("per_layer_model_projection"@),
                    config.num_hidden_layers * config.hidden_size_per_layer_input,
                    config.hidden_size as int,
                )
                &&& w.per_layer_projection_norm@ == shared_text("per_layer_projection_norm.weight"@)
                &&& w.final_norm@ == shared_text("norm.weight"@)
            },
        },
{
    if !config.has_per_layer_embeddings() {
        return Err(LoadError::NoPerLayerInput);
    }
    if !config.tie_word_embeddings {
        return Err(LoadError::UntiedHead);
    }
    Ok(
        SharedWant {
            embed: shared_name("embed_tokens.weight"),
            embed_per_layer: shared_name("embed_tokens_per_layer.weight"),
            per_layer_model_projection: LinWant {
                name: shared_name("per_layer_model_projection"),
                n: config.num_hidden_layers * config.hidden_size_per_layer_input,
                k: config.hidden_size,
            },
            per_layer_projection_norm: shared_name("per_layer_projection_norm.weight"),
            final_norm: shared_name("norm.weight"),
        },
    )
}

/// Whether the token embeddings can be used as stored: bf16 values in the wanted shape.
pub fn embed_is_raw(config: &Gemma4Config, bf16: bool, shape: Option<&Vec<usize>>) -> (r: bool)
    ensures
        r == (bf16 && (shape matches Some(s) && s@ == seq![config.vocab_size, config.hidden_size])),
{
    match shape {
        Some(s) => {
            let same = s.len() == 2 && s[0] == config.vocab_size && s[1] == config.hidden_size;
            proof {
                if same {
                    assert(s@ =~= seq![config.vocab_size, config.hidden_size]);
                }
            }
            bf16 && same
        },
        None => false,
    }
}

/// Whether the per-layer embeddings can be used as stored: bf16 values, as many as wanted.
pub fn embed_per_layer_is_raw(config: &Gemma4Config, bf16: bool, elems: Option<usize>) -> (r: bool)
    requires
        config.vocab_size_per_layer * config.num_hidden_layers <= usize::MAX,
        config.vocab_size_per_layer * config.num_hidden_layers * config.hidden_size_per_layer_input
            <= usize::MAX,
    ensures
        r == (bf16 && (elems matches Some(n) && n == config.vocab_size_per_layer
            * config.num_hidden_layers * config.hidden_size_per_layer_input)),
{
    let want: usize = config.vocab_size_per_layer * config.num_hidden_layers
        * config.hidden_size_per_layer_input;
    match elems {
        Some(n) => bf16 && n == want,
        None => false,
    }
}

} // verus!
