//! The tensors of a mixture-of-experts model that is run layer by layer: in the order in
//! which they are read, with the shape that each must have.
use vstd::prelude::*;
use crate::config::{Gemma4Config, LayerType};
use crate::e4b_names::{layer_name, layer_text, shared_name, shared_text};
use crate::moe_config::Gemma4MoeConfig;

verus! {

/// A tensor to be read.
pub struct TensorWant {
    pub name: String,
    pub dims: Vec<usize>,
}

/// The mathematical content of a [`TensorWant`].
#[verifier::ext_equal]
pub ghost struct WantModel {
    pub name: Seq<char>,
    pub dims: Seq<usize>,
}

impl View for TensorWant {
    type V = WantModel;

    open spec fn view(&self) -> WantModel {
        WantModel { name: self.name@, dims: self.dims@ }
    }
}

pub open spec fn want_models(v: Seq<TensorWant>) -> Seq<WantModel> {
    Seq::new(v.len(), |i: int| v[i]@)
}

pub open spec fn wanted(name: Seq<char>, dims: Seq<usize>) -> WantModel {
    WantModel { name, dims }
}

fn dims1(a: usize) -> (r: Vec<usize>)
    ensures
        r@ == seq![a],
{
    let mut v: Vec<usize> = Vec::new();
    v.push(a);
    assert(v@ =~= seq![a]);
    v
}

fn dims2(a: usize, b: usize) -> (r: Vec<usize>)
    ensures
        r@ == seq![a, b],
{
    let mut v: Vec<usize> = Vec::new();
    v.push(a);
    v.push(b);
    assert(v@ =~= seq![a, b]);
    v
}

fn dims3(a: usize, b: usize, c: usize) -> (r: Vec<usize>)
    ensures
        r@ == seq![a, b, c],
{
    let mut v: Vec<usize> = Vec::new();
    v.push(a);
    v.push(b);
    v.push(c);
    assert(v@ =~= seq![a, b, c]);
    v
}

/// The norms around the parts of a layer, and its output factor.
pub open spec fn layer_norm_wants(i: int, hidden: usize) -> Seq<WantModel> {
    seq![
        wanted(layer_text(i, "input_layernorm.weight"@), seq![hidden]),
        wanted(layer_text(i, "post_attention_layernorm.weight"@), seq![hidden]),
        wanted(layer_text(i, "pre_feedforward_layernorm.weight"@), seq![hidden]),
        wanted(layer_text(i, "post_feedforward_layernorm.weight"@), seq![hidden]),
        wanted(layer_text(i, "post_feedforward_layernorm_1.weight"@), seq![hidden]),
        wanted(layer_text(i, "pre_feedforward_layernorm_2.weight"@), seq![hidden]),
        wanted(layer_text(i, "post_feedforward_layernorm_2.weight"@), seq![hidden]),
        wanted(layer_text(i, "layer_scalar"@), seq![1usize]),
    ]
}

/// The attention matrices and norms; a layer without values of its own has no matrix for
/// them.
pub open spec fn attn_wants(i: int, hidden: usize, hd: usize, q: usize, kv: usize, has_v: bool) -> Seq<
    WantModel,
> {
    seq![
        wanted(layer_text(i, "self_attn.q_proj.weight"@), seq![q, hidden]),
        wanted(layer_text(i, "self_attn.k_proj.weight"@), seq![kv, hidden]),
    ] + (if has_v {
        seq![wanted(layer_text(i, "self_attn.v_proj.weight"@), seq![kv, hidden])]
    } else {
        seq![]
    }) + seq![
        wanted(layer_text(i, "self_attn.o_proj.weight"@), seq![hidden, q]),
        wanted(layer_text(i, "self_attn.q_norm.weight"@), seq![hd]),
        wanted(layer_text(i, "self_attn.k_norm.weight"@), seq![hd]),
    ]
}

pub open spec fn mlp_wants(i: int, hidden: usize, inter: usize) -> Seq<WantModel> {
    seq![
        wanted(layer_text(i, "mlp.gate_proj.weight"@), seq![inter, hidden]),
        wanted(layer_text(i, "mlp.up_proj.weight"@), seq![inter, hidden]),
        wanted(layer_text(i, "mlp.down_proj.weight"@), seq![hidden, inter]),
    ]
}

/// The router, and the matrices of all experts in one tensor each.
pub open spec fn moe_wants(i: int, hidden: usize, n_experts: usize, inter: usize) -> Seq<WantModel> {
    seq![
        wanted(layer_text(i, "router.proj.weight"@), seq![n_experts, hidden]),
        wanted(layer_text(i, "router.scale"@), seq![hidden]),
        wanted(layer_text(i, "router.per_expert_scale"@), seq![n_experts]),
        wanted(
            layer_text(i, "experts.gate_up_proj"@),
            seq![n_experts, (2 * inter) as usize, hidden],
        ),
        wanted(layer_text(i, "experts.down_proj"@), seq![n_experts, hidden, inter]),
    ]
}

/// All tensors of layer `i`.
pub open spec fn layer_wants(config: Gemma4MoeConfig, i: int) -> Seq<WantModel> {
    let b = config.base;
    let kind = b.layer_types@[i];
    let d = b.dims(kind);
    layer_norm_wants(i, b.hidden_size) + attn_wants(
        i,
        b.hidden_size,
        d.head_dim,
        (b.num_attention_heads * d.head_dim) as usize,
        (d.num_kv_heads * d.head_dim) as usize,
        b.spec_has_v(kind),
    ) + mlp_wants(i, b.hidden_size, b.intermediate_size) + moe_wants(
        i,
        b.hidden_size,
        config.num_experts,
        config.moe_intermediate_size,
    )
}

/// The sizes of a layer's tensors fit the address type.
pub open spec fn layer_sizes_fit(config: Gemma4MoeConfig, kind: LayerType) -> bool {
    let d = config.base.dims(kind);
    &&& config.base.num_attention_heads * d.head_dim <= usize::MAX
    &&& d.num_kv_heads * d.head_dim <= usize::MAX
    &&& 2 * config.moe_intermediate_size <= usize::MAX
}

fn add_want(v: &mut Vec<TensorWant>, i: usize, rest: &str, dims: Vec<usize>)
    ensures
        want_models(final(v)@) == want_models(old(v)@).push(
            wanted(layer_text(i as int, rest@), dims@),
        ),
{
    let w = TensorWant { name: layer_name(i, rest), dims };
    v.push(w);
    assert(want_models(v@) =~= want_models(old(v)@).push(
        wanted(layer_text(i as int, rest@), dims@),
    ));
}

fn add_norms(v: &mut Vec<TensorWant>, i: usize, h: usize)
    ensures
        want_models(final(v)@) == want_models(old(v)@) + layer_norm_wants(i as int, h),
{
    add_want(v, i, "input_layernorm.weight", dims1(h));
    add_want(v, i, "post_attention_layernorm.weight", dims1(h));
    add_want(v, i, "pre_feedforward_layernorm.weight", dims1(h));
    add_want(v, i, "post_feedforward_layernorm.weight", dims1(h));
    add_want(v, i, "post_feedforward_layernorm_1.weight", dims1(h));
    add_want(v, i, "pre_feedforward_layernorm_2.weight", dims1(h));
    add_want(v, i, "post_feedforward_layernorm_2.weight", dims1(h));
    add_want(v, i, "layer_scalar", dims1(1));
    assert(want_models(v@) =~= want_models(old(v)@) + layer_norm_wants(i as int, h));
}

fn add_attn(v: &mut Vec<TensorWant>, i: usize, h: usize, hd: usize, q: usize, kv: usize, has_v: bool)
    ensures
        want_models(final(v)@) == want_models(old(v)@) + attn_wants(i as int, h, hd, q, kv, has_v),
{
    add_want(v, i, "self_attn.q_proj.weight", dims2(q, h));
    add_want(v, i, "self_attn.k_proj.weight", dims2(kv, h));
    if has_v {
        add_want(v, i, "self_attn.v_proj.weight", dims2(kv, h));
    }
    add_want(v, i, "self_attn.o_proj.weight", dims2(h, q));
    add_want(v, i, "self_attn.q_norm.weight", dims1(hd));
    add_want(v, i, "self_attn.k_norm.weight", dims1(hd));
    assert(want_models(v@) =~= want_models(old(v)@) + attn_wants(i as int, h, hd, q, kv, has_v));
}

fn add_mlp(v: &mut Vec<TensorWant>, i: usize, h: usize, inter: usize)
    ensures
        want_models(final(v)@) == want_models(old(v)@) + mlp_wants(i as int, h, inter),
{
    add_want(v, i, "mlp.gate_proj.weight", dims2(inter, h));
    add_want(v, i, "mlp.up_proj.weight", dims2(inter, h));
    add_want(v, i, "mlp.down_proj.weight", dims2(h, inter));
    assert(want_models(v@) =~= want_models(old(v)@) + mlp_wants(i as int, h, inter));
}

/// The tensors of a layer's experts.
pub fn load_moe_block(v: &mut Vec<TensorWant>, i: usize, h: usize, n_experts: usize, inter: usize)
    requires
        2 * inter <= usize::MAX,
    ensures
        want_models(final(v)@) == want_models(old(v)@) + moe_wants(i as int, h, n_experts, inter),
{
    add_want(v, i, "router.proj.weight", dims2(n_experts, h));
    add_want(v, i, "router.scale", dims1(h));
    add_want(v, i, "router.per_expert_scale", dims1(n_experts));
    add_want(v, i, "experts.gate_up_proj", dims3(n_experts, 2 * inter, h));
    add_want(v, i, "experts.down_proj", dims3(n_experts, h, inter));
    assert(want_models(v@) =~= want_models(old(v)@) + moe_wants(i as int, h, n_experts, inter));
}

/// The tensors of layer `i`.
pub fn load_layer(config: &Gemma4MoeConfig, i: usize) -> (r: Vec<TensorWant>)
    requires
        config.base.wf(),
        i < config.base.num_hidden_layers,
        layer_sizes_fit(*config, config.base.layer_types@[i as int]),
    ensures
        want_models(r@) == layer_wants(*config, i as int),
{
    let b = &config.base;
    let kind = b.layer_types[i];
    let hd: usize = b.head_dim_for(kind);
    let q: usize = b.num_attention_heads * hd;
    let kv: usize = b.num_kv_heads_for(kind) * hd;
    let mut v: Vec<TensorWant> = Vec::new();
    assert(want_models(v@) =~= Seq::empty());
    add_norms(&mut v, i, b.hidden_size);
    add_attn(&mut v, i, b.hidden_size, hd, q, kv, b.has_v(kind));
    add_mlp(&mut v, i, b.hidden_size, b.intermediate_size);
    load_moe_block(
        &mut v,
        i,
        b.hidden_size,
        config.num_experts,
        config.moe_intermediate_size,
    );
    assert(want_models(v@) =~= layer_wants(*config, i as int));
    v
}

/// The tensors that all layers share: the embedding table and the last norm.
pub open spec fn shared_wants(b: Gemma4Config) -> Seq<WantModel> {
    seq![
        wanted(shared_text("embed_tokens.weight"@), seq![b.vocab_size, b.hidden_size]),
        wanted(shared_text("norm.weight"@), seq![b.hidden_size]),
    ]
}

pub fn load_shared(b: &Gemma4Config) -> (r: Vec<TensorWant>)
    ensures
        want_models(r@) == shared_wants(*b),
{
    let mut v: Vec<TensorWant> = Vec::new();
    v.push(
        TensorWant {
            name: shared_name("embed_tokens.weight"),
            dims: dims2(b.vocab_size, b.hidden_size),
        },
    );
    v.push(TensorWant { name: shared_name("norm.weight"), dims: dims1(b.hidden_size) });
    assert(want_models(v@) =~= shared_wants(*b));
    v
}

/// The name of the matrix of the head: the embedding table where the two are tied.
pub fn head_name(tied: bool) -> (r: String)
    ensures
        r@ == if tied {
            shared_text("embed_tokens.weight"@)
        } else {
            "lm_head.weight"@
        },
{
    if tied {
        shared_name("embed_tokens.weight")
    } else {
        let mut b = String::new();
        b.append("lm_head.weight");
        assert(b@ =~= "lm_head.weight"@);
        b
    }
}

} // verus!
