//! Which passes of the mixture-of-experts graph write the caches of keys and values.
use vstd::prelude::*;
use crate::moe_attn::{
    attn_passes, flash_passes, kv_passes, pf_attn_passes, pf_core_passes, pf_kv_passes,
    pf_qkv_passes, qkv_passes, serial_passes, takes_flash, MoeLayer,
};
use crate::moe_build::{
    after_attn, after_mlp, after_moe, layer_passes, pf, pf_after_attn, pf_after_mlp, pf_after_moe,
    pf_layer_passes, res_in,
};
use crate::moe_emit::{gemv_bf16_pass, norm_pass, pf_norm_pass, MoePlan};
use crate::moe_ffn::{mlp_passes, moe_passes, pf_mlp_passes, pf_moe_passes};
use crate::moe_graph::{
    final_norm_pass, gathers, head_passes, logit_row, pf_gathers, verify_logits, verify_passes,
    MoeStart,
};
use crate::moe_ir::{LayerBuf, MoeArg, MoeBuf, MoeModel, MoeSource, PfBuf};

verus! {

/// Whether a pass writes to a cache: in eight bits, for a decode row, or for a chunk.
pub open spec fn writes_cache(p: MoeModel) -> bool {
    ||| p.src == MoeSource::KvFp8
    ||| p.src == MoeSource::Attn && p.binds.len() > 0 && p.binds[0].slot == 10
    ||| p.src == MoeSource::Prefill && p.binds.len() > 0 && p.binds[0].slot == 40
}

/// The operands that such a pass writes: one of keys or values, or one of each, behind the
/// rows that it reads.
pub open spec fn cache_operands(p: MoeModel) -> Seq<MoeArg> {
    if p.src == MoeSource::KvFp8 {
        seq![p.binds[1].arg]
    } else if p.binds.len() == 5 {
        seq![p.binds[1].arg, p.binds[2].arg]
    } else {
        seq![p.binds[2].arg, p.binds[3].arg]
    }
}

/// What the passes of a list write to caches, in order.
pub open spec fn cache_writes(s: Seq<MoeModel>) -> Seq<MoeArg>
    decreases s.len(),
{
    if s.len() == 0 {
        Seq::empty()
    } else if writes_cache(s.last()) {
        cache_writes(s.drop_last()) + cache_operands(s.last())
    } else {
        cache_writes(s.drop_last())
    }
}

pub open spec fn quiet(s: Seq<MoeModel>) -> bool {
    forall|i: int| 0 <= i < s.len() ==> !writes_cache(#[trigger] s[i])
}

proof fn lemma_quiet(s: Seq<MoeModel>)
    requires
        quiet(s),
    ensures
        cache_writes(s) == Seq::<MoeArg>::empty(),
    decreases s.len(),
{
    if s.len() > 0 {
        assert(quiet(s.drop_last())) by {
            assert forall|i: int| 0 <= i < s.drop_last().len() implies !writes_cache(
                #[trigger] s.drop_last()[i],
            ) by {
                assert(s.drop_last()[i] == s[i]);
            }
        }
        lemma_quiet(s.drop_last());
        assert(s.last() == s[s.len() - 1]);
    }
}

proof fn lemma_cat(a: Seq<MoeModel>, b: Seq<MoeModel>)
    ensures
        cache_writes(a + b) == cache_writes(a) + cache_writes(b),
    decreases b.len(),
{
    if b.len() == 0 {
        assert(a + b =~= a);
        assert(cache_writes(a) + cache_writes(b) =~= cache_writes(a));
    } else {
        lemma_cat(a, b.drop_last());
        assert((a + b).drop_last() =~= a + b.drop_last());
        assert((a + b).last() == b.last());
        assert(cache_writes(a + b) =~= cache_writes(a) + cache_writes(b));
    }
}

proof fn lemma_cat_quiet(a: Seq<MoeModel>, b: Seq<MoeModel>)
    requires
        quiet(b),
    ensures
        cache_writes(a + b) == cache_writes(a),
{
    lemma_cat(a, b);
    lemma_quiet(b);
    assert(cache_writes(a) + Seq::<MoeArg>::empty() =~= cache_writes(a));
}

/// A layer's keys and values.
pub open spec fn layer_writes(l: MoeLayer) -> Seq<MoeArg> {
    seq![MoeArg::Buf(l.buf(LayerBuf::Kc)), MoeArg::Buf(l.buf(LayerBuf::Vc))]
}

proof fn lemma_kv(p: MoePlan, l: MoeLayer)
    ensures
        cache_writes(kv_passes(p, l)) == layer_writes(l),
        cache_writes(pf_kv_passes(p, l)) == layer_writes(l),
{
    let a = kv_passes(p, l);
    let b = pf_kv_passes(p, l);
    reveal_with_fuel(cache_writes, 3);
    if p.sw.fp8 {
        assert(a.drop_last() =~= seq![a[0]]);
        assert(a.drop_last().drop_last() =~= Seq::<MoeModel>::empty());
        assert(b.drop_last() =~= seq![b[0]]);
        assert(b.drop_last().drop_last() =~= Seq::<MoeModel>::empty());
    } else {
        assert(a.drop_last() =~= Seq::<MoeModel>::empty());
        assert(b.drop_last() =~= Seq::<MoeModel>::empty());
    }
    assert(cache_writes(a) =~= layer_writes(l));
    assert(cache_writes(b) =~= layer_writes(l));
}

proof fn lemma_quiet_cat(a: Seq<MoeModel>, b: Seq<MoeModel>)
    requires
        quiet(a),
        quiet(b),
    ensures
        quiet(a + b),
{
    assert forall|i: int| 0 <= i < (a + b).len() implies !writes_cache(#[trigger] (a + b)[i]) by {
        if i < a.len() {
            assert((a + b)[i] == a[i]);
        } else {
            assert((a + b)[i] == b[i - a.len()]);
        }
    }
}

proof fn lemma_attn_parts(p: MoePlan, l: MoeLayer, x: MoeBuf)
    ensures
        quiet(qkv_passes(p, l, x)),
        quiet(flash_passes(p, l)),
        quiet(serial_passes(p, l)),
{
}

proof fn lemma_ffn_parts(p: MoePlan, l: MoeLayer, x: MoeBuf, y: MoeBuf)
    ensures
        quiet(after_attn(p, l)),
        quiet(mlp_passes(p, l, x, y)),
        quiet(after_mlp(p, l)),
        quiet(after_moe(p, l)),
{
}

proof fn lemma_moe_part(
    p: MoePlan,
    l: MoeLayer,
    r: MoeBuf,
    x: MoeBuf,
    y: MoeBuf,
)
    ensures
        quiet(moe_passes(p, l, r, x, y)),
{
}

/// A layer writes its keys and its values for a decode row, each once.
pub proof fn law_layer_writes(p: MoePlan, l: MoeLayer)
    ensures
        cache_writes(layer_passes(p, l)) == layer_writes(l),
{
    reveal(layer_passes);
    let x = MoeBuf::Normed;
    let y = l.buf(LayerBuf::AttnOut);
    let r = res_in(l.li as int, false);
    let norm = seq![norm_pass(p, "g4m-rms-in"@, r, l.buf(LayerBuf::InLn), x)];
    let qkv = qkv_passes(p, l, x);
    let kv = kv_passes(p, l);
    let core = if takes_flash(p, l.kind) { flash_passes(p, l) } else { serial_passes(p, l) };
    let o = seq![gemv_bf16_pass(p.sw, "g4m-at-oproj"@, l.wo(p), l.buf(LayerBuf::AttnBf16), y)];
    lemma_attn_parts(p, l, x);
    lemma_kv(p, l);
    assert(quiet(norm));
    assert(quiet(o));
    lemma_cat(qkv, kv);
    lemma_quiet(qkv);
    assert(Seq::<MoeArg>::empty() + layer_writes(l) =~= layer_writes(l));
    lemma_cat_quiet(qkv + kv, core);
    lemma_cat_quiet(qkv + kv + core, o);
    let attn = attn_passes(p, l, x, y);
    assert(attn == qkv + kv + core + o);
    lemma_cat(norm, attn);
    lemma_quiet(norm);
    let mlp = mlp_passes(p, l, l.buf(LayerBuf::NormedMlp), l.buf(LayerBuf::DenseOut));
    let moe = moe_passes(p, l, r, l.buf(LayerBuf::MoeIn), l.buf(LayerBuf::MoeOut));
    lemma_ffn_parts(p, l, l.buf(LayerBuf::NormedMlp), l.buf(LayerBuf::DenseOut));
    lemma_moe_part(p, l, r, l.buf(LayerBuf::MoeIn), l.buf(LayerBuf::MoeOut));
    lemma_cat_quiet(norm + attn, after_attn(p, l));
    lemma_cat_quiet(norm + attn + after_attn(p, l), mlp);
    lemma_cat_quiet(norm + attn + after_attn(p, l) + mlp, after_mlp(p, l));
    lemma_cat_quiet(norm + attn + after_attn(p, l) + mlp + after_mlp(p, l), moe);
    lemma_cat_quiet(norm + attn + after_attn(p, l) + mlp + after_mlp(p, l) + moe, after_moe(p, l));
}

/// What the first `n` layers write to caches in a step.
pub open spec fn model_writes(s: MoeStart, n: int) -> Seq<MoeArg>
    decreases n,
{
    if n <= 0 {
        Seq::empty()
    } else {
        model_writes(s, n - 1) + layer_writes(s.layer(n - 1))
    }
}

proof fn lemma_layers(s: MoeStart, n: int)
    ensures
        cache_writes(s.layers(n)) == model_writes(s, n),
    decreases n,
{
    if n > 0 {
        lemma_layers(s, n - 1);
        law_layer_writes(s.plan(), s.layer(n - 1));
        lemma_cat(s.layers(n - 1), layer_passes(s.plan(), s.layer(n - 1)));
    }
}

/// A decode step writes the keys and the values of every layer once, in the order of the
/// layers, and nothing else of a cache.
pub proof fn law_step_writes(s: MoeStart)
    ensures
        cache_writes(s.body() + head_passes(s.plan(), s.chunks())) == model_writes(
            s,
            s.config.base.num_hidden_layers as int,
        ),
{
    let n = s.config.base.num_hidden_layers as int;
    let g = gathers(s.plan(), s.chunks());
    assert(quiet(g));
    lemma_quiet(g);
    lemma_layers(s, n);
    lemma_cat(g, s.layers(n));
    assert(Seq::<MoeArg>::empty() + model_writes(s, n) =~= model_writes(s, n));
    let last = seq![final_norm_pass(s.plan())];
    assert(quiet(last));
    lemma_cat_quiet(g + s.layers(n), last);
    assert(s.body() =~= g + s.layers(n) + last);
    let head = head_passes(s.plan(), s.chunks());
    assert(quiet(head));
    lemma_cat_quiet(s.body(), head);
}

proof fn lemma_pf_attn_parts(p: MoePlan, l: MoeLayer, x: MoeBuf)
    ensures
        quiet(pf_qkv_passes(p, l, x)),
        quiet(pf_core_passes(p, l)),
{
}

proof fn lemma_pf_ffn_parts(p: MoePlan, l: MoeLayer, r: MoeBuf, x: MoeBuf, y: MoeBuf)
    ensures
        quiet(pf_mlp_passes(p, l, x, y)),
        quiet(pf_moe_passes(p, l, r, x, y)),
{
}

/// A layer writes its keys and its values for a chunk, each once.
pub proof fn law_pf_layer_writes(p: MoePlan, l: MoeLayer)
    ensures
        cache_writes(pf_layer_passes(p, l)) == layer_writes(l),
{
    reveal(pf_layer_passes);
    let x = pf(PfBuf::Normed);
    let y = pf(PfBuf::AttnOut);
    let r = res_in(l.li as int, true);
    let norm = seq![pf_norm_pass(p, "g4m-pf-rms-in"@, r, l.buf(LayerBuf::InLn), x, p.d.m as int)];
    let qkv = pf_qkv_passes(p, l, x);
    let kv = pf_kv_passes(p, l);
    let core = pf_core_passes(p, l);
    let attn = pf_attn_passes(p, l, x, y);
    let o = attn.skip((qkv + kv + core).len() as int);
    assert(attn =~= qkv + kv + core + o);
    lemma_pf_attn_parts(p, l, x);
    lemma_kv(p, l);
    assert(quiet(norm));
    assert(quiet(o));
    lemma_cat(qkv, kv);
    lemma_quiet(qkv);
    assert(Seq::<MoeArg>::empty() + layer_writes(l) =~= layer_writes(l));
    lemma_cat_quiet(qkv + kv, core);
    lemma_cat_quiet(qkv + kv + core, o);
    lemma_cat(norm, attn);
    lemma_quiet(norm);
    let mlp = pf_mlp_passes(p, l, pf(PfBuf::NormedMlp), pf(PfBuf::DenseOut));
    let moe = pf_moe_passes(p, l, r, pf(PfBuf::MoeIn), pf(PfBuf::MoeOut));
    lemma_pf_ffn_parts(p, l, r, pf(PfBuf::NormedMlp), pf(PfBuf::DenseOut));
    lemma_pf_ffn_parts(p, l, r, pf(PfBuf::MoeIn), pf(PfBuf::MoeOut));
    assert(quiet(pf_after_attn(p, l)));
    assert(quiet(pf_after_mlp(p, l)));
    assert(quiet(pf_after_moe(p, l)));
    lemma_cat_quiet(norm + attn, pf_after_attn(p, l));
    lemma_cat_quiet(norm + attn + pf_after_attn(p, l), mlp);
    lemma_cat_quiet(norm + attn + pf_after_attn(p, l) + mlp, pf_after_mlp(p, l));
    lemma_cat_quiet(norm + attn + pf_after_attn(p, l) + mlp + pf_after_mlp(p, l), moe);
    lemma_cat_quiet(
        norm + attn + pf_after_attn(p, l) + mlp + pf_after_mlp(p, l) + moe,
        pf_after_moe(p, l),
    );
}

proof fn lemma_pf_layers(s: MoeStart, n: int)
    ensures
        cache_writes(s.pf_layers(n)) == model_writes(s, n),
    decreases n,
{
    if n > 0 {
        lemma_pf_layers(s, n - 1);
        law_pf_layer_writes(s.plan(), s.layer(n - 1));
        lemma_cat(s.pf_layers(n - 1), pf_layer_passes(s.plan(), s.layer(n - 1)));
    }
}

/// A chunk writes the keys and the values of every layer once, in the order of the layers,
/// and nothing else of a cache.
pub proof fn law_chunk_writes(s: MoeStart)
    requires
        s.m() > 0,
    ensures
        cache_writes(s.prefill()) == model_writes(s, s.config.base.num_hidden_layers as int),
{
    let n = s.config.base.num_hidden_layers as int;
    let g = pf_gathers(s.plan(), s.chunks());
    assert(quiet(g));
    lemma_quiet(g);
    lemma_pf_layers(s, n);
    lemma_cat(g, s.pf_layers(n));
    assert(Seq::<MoeArg>::empty() + model_writes(s, n) =~= model_writes(s, n));
}

proof fn lemma_verify_logits(s: MoeStart, rows: int)
    ensures
        quiet(verify_logits(s.plan(), s.chunks(), rows)),
    decreases rows,
{
    if rows > 0 {
        lemma_verify_logits(s, rows - 1);
        let p = s.plan();
        let row = logit_row(
            p,
            s.chunks(),
            MoeBuf::VerifyNormed,
            (rows - 1) * (p.d.hidden as int / 2),
            MoeBuf::VerifyLogitsBf16,
            (rows - 1) * (p.d.vocab as int / 2),
        );
        assert(quiet(row));
        lemma_quiet_cat(verify_logits(p, s.chunks(), rows - 1), row);
    }
}

/// The epilogue of a verify batch writes nothing of a cache: what the batch leaves there is
/// what its chunk wrote.
pub proof fn law_epilogue_writes_nothing(s: MoeStart, rows: int)
    ensures
        cache_writes(verify_passes(s.plan(), s.chunks(), rows)) == Seq::<MoeArg>::empty(),
{
    let v = verify_passes(s.plan(), s.chunks(), rows);
    let logits = verify_logits(s.plan(), s.chunks(), rows);
    lemma_verify_logits(s, rows);
    let first = v.take(1);
    let last = v.skip(1 + logits.len() as int);
    assert(v =~= first + logits + last);
    assert(quiet(first));
    assert(quiet(last));
    lemma_quiet_cat(first, logits);
    lemma_quiet_cat(first + logits, last);
    lemma_quiet(v);
}

} // verus!
