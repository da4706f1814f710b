//! Which rows of a base matrix the slices of an adapter are added to.
use vstd::prelude::*;
use crate::config::Gemma4Config;
use crate::e4b_adapter::{dims_fit, LayerSlices, SiteModel};
use crate::e4b_names::{layer_text, LayerWant, LinWant};
use crate::text::ends_in;

verus! {

/// The slices of a site are, one by one, the tensors whose rows make up the base matrix.
pub open spec fn in_row_order(site: SiteModel, parts: Seq<LinWant>) -> bool {
    &&& site.names.len() == parts.len()
    &&& site.widths.len() == parts.len()
    &&& forall|j: int|
        0 <= j < parts.len() ==> (#[trigger] parts[j]).name@ == site.names[j] && parts[j].n
            == site.widths[j] && parts[j].k == site.k
}

proof fn lemma_layer_text_ends(i: int, rest: Seq<char>)
    ensures
        ends_in(layer_text(i, rest), rest),
{
    let t = layer_text(i, rest);
    assert(t.subrange(t.len() - rest.len(), t.len() as int) =~= rest);
}

/// The slices of each site stand in the order of the rows of the matrix that they are added to:
/// the `j`-th slice has the module and the width of the `j`-th tensor that a checkpoint's
/// matrix is put together from. Where a layer has no values of its own, the rows of its keys
/// serve twice and so does their slice. Of the two halves of the first feed-forward matrix the
/// first is the one that goes through the activation.
pub proof fn law_slices_in_row_order(s: LayerSlices, w: LayerWant, config: Gemma4Config, i: int)
    requires
        config.wf(),
        0 <= i < config.num_hidden_layers,
        dims_fit(config, i),
        s.of(config, i),
        w.of(config, i),
    ensures
        in_row_order(s.gate_up@, w.gate_up@),
        s.gate_up@.names.len() == 2,
        ends_in(s.gate_up@.names[0], "mlp.gate_proj"@),
        ends_in(s.gate_up@.names[1], "mlp.up_proj"@),
        s.gate_up@.segs == seq![(w.gate_up@[0].n + w.gate_up@[1].n) as usize],
        in_row_order(s.o@, seq![w.o]),
        ends_in(s.o@.names[0], "self_attn.o_proj"@),
        s.o@.segs == seq![w.o.n],
        in_row_order(s.down@, seq![w.down]),
        ends_in(s.down@.names[0], "mlp.down_proj"@),
        s.down@.segs == seq![w.down.n],
        w.kv_source is Some || w.has_v ==> in_row_order(s.qkv@, w.qkv@),
        w.kv_source is None && !w.has_v ==> {
            &&& s.qkv@.names == seq![w.qkv@[0].name@, w.qkv@[1].name@, w.qkv@[1].name@]
            &&& s.qkv@.widths == seq![w.qkv@[0].n, w.qkv@[1].n, w.qkv@[1].n]
            &&& s.qkv@.k == w.qkv@[0].k
        },
        s.qkv@.segs == s.qkv@.widths,
        ends_in(s.qkv@.names[0], "self_attn.q_proj"@),
        w.kv_source is None ==> ends_in(s.qkv@.names[1], "self_attn.k_proj"@),
        w.kv_source is None && w.has_v ==> ends_in(s.qkv@.names[2], "self_attn.v_proj"@),
{
    lemma_layer_text_ends(i, "mlp.gate_proj"@);
    lemma_layer_text_ends(i, "mlp.up_proj"@);
    lemma_layer_text_ends(i, "mlp.down_proj"@);
    lemma_layer_text_ends(i, "self_attn.q_proj"@);
    lemma_layer_text_ends(i, "self_attn.k_proj"@);
    lemma_layer_text_ends(i, "self_attn.v_proj"@);
    lemma_layer_text_ends(i, "self_attn.o_proj"@);
    let parts = crate::e4b_names::qkv_parts(config, i);
    assert(w.qkv@[0].of(parts[0].0, parts[0].1, parts[0].2));
    if w.kv_source is None {
        assert(w.qkv@[1].of(parts[1].0, parts[1].1, parts[1].2));
    }
    assert(w.gate_up@[0].n == config.intermediate_size);
    assert(w.gate_up@[1].n == config.intermediate_size);
    assert(s.gate_up@.segs =~= seq![(w.gate_up@[0].n + w.gate_up@[1].n) as usize]);
}

} // verus!
