//! That both ways of reading a mixture-of-experts layer ask for the same tensors.
use vstd::prelude::*;
use crate::e4b_names::{layer_text, LinWant};
use crate::moe_config::Gemma4MoeConfig;
use crate::moe_host::MoeLayerWant;
use crate::moe_load::{layer_sizes_fit, layer_wants, wanted, WantModel};

verus! {

/// The tensor of a matrix that is stored plainly.
pub open spec fn plain(w: LinWant) -> WantModel {
    wanted(w.name@ + ".weight"@, seq![w.n, w.k])
}

/// The tensor of a norm's weights.
pub open spec fn vector(t: (String, usize)) -> WantModel {
    wanted(t.0@, seq![t.1])
}

proof fn lemma_weight_text(i: int, a: Seq<char>, b: Seq<char>)
    requires
        b == a + ".weight"@,
    ensures
        layer_text(i, a) + ".weight"@ == layer_text(i, b),
{
    assert(layer_text(i, a) + ".weight"@ =~= layer_text(i, b));
}

proof fn lemma_linear_texts()
    ensures
        "self_attn.q_proj"@ + ".weight"@ == "self_attn.q_proj.weight"@,
        "self_attn.k_proj"@ + ".weight"@ == "self_attn.k_proj.weight"@,
        "self_attn.v_proj"@ + ".weight"@ == "self_attn.v_proj.weight"@,
        "self_attn.o_proj"@ + ".weight"@ == "self_attn.o_proj.weight"@,
        "mlp.gate_proj"@ + ".weight"@ == "mlp.gate_proj.weight"@,
        "mlp.up_proj"@ + ".weight"@ == "mlp.up_proj.weight"@,
        "mlp.down_proj"@ + ".weight"@ == "mlp.down_proj.weight"@,
{
    reveal_strlit(".weight");
    reveal_strlit("self_attn.q_proj");
    reveal_strlit("self_attn.q_proj.weight");
    assert("self_attn.q_proj"@ + ".weight"@ =~= "self_attn.q_proj.weight"@);
    reveal_strlit("self_attn.k_proj");
    reveal_strlit("self_attn.k_proj.weight");
    assert("self_attn.k_proj"@ + ".weight"@ =~= "self_attn.k_proj.weight"@);
    reveal_strlit("self_attn.v_proj");
    reveal_strlit("self_attn.v_proj.weight");
    assert("self_attn.v_proj"@ + ".weight"@ =~= "self_attn.v_proj.weight"@);
    reveal_strlit("self_attn.o_proj");
    reveal_strlit("self_attn.o_proj.weight");
    assert("self_attn.o_proj"@ + ".weight"@ =~= "self_attn.o_proj.weight"@);
    reveal_strlit("mlp.gate_proj");
    reveal_strlit("mlp.gate_proj.weight");
    assert("mlp.gate_proj"@ + ".weight"@ =~= "mlp.gate_proj.weight"@);
    reveal_strlit("mlp.up_proj");
    reveal_strlit("mlp.up_proj.weight");
    assert("mlp.up_proj"@ + ".weight"@ =~= "mlp.up_proj.weight"@);
    reveal_strlit("mlp.down_proj");
    reveal_strlit("mlp.down_proj.weight");
    assert("mlp.down_proj"@ + ".weight"@ =~= "mlp.down_proj.weight"@);
}

/// A layer that is read in order asks, one after the other, for the tensors that a layer read
/// by its parts asks for: the norms, the queries, keys, values and outputs of the attention with
/// the norms of its heads, gate, up and down of the dense block, and the router.
pub proof fn law_loaders_agree(w: MoeLayerWant, config: Gemma4MoeConfig, i: int)
    requires
        w.of(config, i),
        layer_sizes_fit(config, config.base.layer_types@[i]),
    ensures
        ({
            let t = layer_wants(config, i);
            let v = if w.v is Some {
                1int
            } else {
                0
            };
            &&& t.len() == 21 + v
            &&& t[0] == vector(w.input_ln)
            &&& t[1] == vector(w.post_attn_ln)
            &&& t[2] == vector(w.pre_ffw_ln)
            &&& t[3] == vector(w.post_ffw_ln)
            &&& t[4] == vector(w.post_ffw_ln_1)
            &&& t[5] == vector(w.pre_ffw_ln_2)
            &&& t[6] == vector(w.post_ffw_ln_2)
            &&& t[7].name == w.layer_scalar@
            &&& t[8] == plain(w.q)
            &&& t[9] == plain(w.k)
            &&& w.v matches Some(x) ==> t[10] == plain(x)
            &&& t[10 + v] == plain(w.o)
            &&& t[11 + v] == vector(w.q_norm)
            &&& t[12 + v] == vector(w.k_norm)
            &&& t[13 + v] == plain(w.mlp_gate)
            &&& t[14 + v] == plain(w.mlp_up)
            &&& t[15 + v] == plain(w.mlp_down)
            &&& t[16 + v] == wanted(w.router.name@, seq![w.router.n, w.router.k])
            &&& t[17 + v].name == w.router_scale@
            &&& t[18 + v].name == w.per_expert_scale@
        }),
{
    lemma_linear_texts();
    lemma_weight_text(i, "self_attn.q_proj"@, "self_attn.q_proj.weight"@);
    lemma_weight_text(i, "self_attn.k_proj"@, "self_attn.k_proj.weight"@);
    lemma_weight_text(i, "self_attn.v_proj"@, "self_attn.v_proj.weight"@);
    lemma_weight_text(i, "self_attn.o_proj"@, "self_attn.o_proj.weight"@);
    lemma_weight_text(i, "mlp.gate_proj"@, "mlp.gate_proj.weight"@);
    lemma_weight_text(i, "mlp.up_proj"@, "mlp.up_proj.weight"@);
    lemma_weight_text(i, "mlp.down_proj"@, "mlp.down_proj.weight"@);
}

} // verus!
