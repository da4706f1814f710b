//! What a layer of the mixture-of-experts model computes, and that its passes compute it: one
//! formula for a decode row, grouped or not, and for each row of a chunk.
use vstd::prelude::*;
use crate::e4b_emit::F32_ONE;
use crate::moe_attn::{attn_passes, pf_attn_passes, takes_flash, MoeLayer};
use crate::moe_attn_meaning::{
    attention, attn_scratch, cache_buf, caches_hold, law_attn, law_pf_attn, pf_attn_scratch,
    stacks_hold,
};
use crate::moe_build::{
    after_attn, after_mlp, after_moe, layer_passes, pf, pf_after_attn, pf_after_mlp, pf_after_moe,
    pf_layer_passes, res_in, res_out,
};
use crate::moe_emit::{norm_pass, pf_norm_pass, MoePlan};
use crate::moe_ffn::{mlp_passes, moe_passes, pf_mlp_passes, pf_moe_passes};
use crate::moe_ir::{LayerBuf, MoeBuf, PfBuf};
use crate::moe_meaning::{
    dense, expert_scratch, law_mlp, law_moe, law_pf_mlp, law_pf_moe, mlp_scratch, pf_mlp_scratch,
    pf_moe_scratch, route_scratch, routed, sized,
};
use crate::moe_steps::{
    lemma_even, lemma_run1, lemma_run2, lemma_run4, step_norm, step_norm_residual, step_pf_norm,
    step_pf_norm_residual, step_residual,
};
use crate::moe_values::{
    lemma_kernels, lemma_run_cat, normed, of2, run, step, sum, width_of, Op, State, Val,
};

verus! {

/// A row normed by the weights of one of a layer's norms.
pub open spec fn layer_norm(s: State, p: MoePlan, l: MoeLayer, ln: LayerBuf, x: Val) -> Val {
    normed(x, s[l.buf(ln)], p.d.hidden as u32, p.f.eps)
}

/// The residual after the attention: the row and its normed attention.
pub open spec fn mid(s: State, p: MoePlan, l: MoeLayer, x: Val, pos: Val, in_parts: bool) -> Val {
    let attn = attention(s, p, l, layer_norm(s, p, l, LayerBuf::InLn, x), pos, in_parts);
    of2(Op::Add, layer_norm(s, p, l, LayerBuf::PostAttnLn, attn), x)
}

/// The dense block of a residual, normed before and after.
pub open spec fn dense_part(s: State, p: MoePlan, l: MoeLayer, r: Val) -> Val {
    let y = dense(s, p, l, layer_norm(s, p, l, LayerBuf::PreFfwLn, r));
    layer_norm(s, p, l, LayerBuf::PostFfw1Ln, y)
}

/// The expert block of a residual, normed before and after; the router reads the residual.
pub open spec fn expert_part(s: State, p: MoePlan, l: MoeLayer, r: Val) -> Val {
    let y = routed(s, p, l, r, layer_norm(s, p, l, LayerBuf::PreFfw2Ln, r));
    layer_norm(s, p, l, LayerBuf::PostFfw2Ln, y)
}

/// What a layer makes of a row: the residual after the attention plus the normed sum of the
/// dense and the expert part, times the layer's factor.
pub open spec fn layer_value(
    s: State,
    p: MoePlan,
    l: MoeLayer,
    x: Val,
    pos: Val,
    in_parts: bool,
) -> Val {
    let r = mid(s, p, l, x, pos, in_parts);
    let parts = of2(Op::Add, dense_part(s, p, l, r), expert_part(s, p, l, r));
    sum(layer_norm(s, p, l, LayerBuf::PostFfwLn, parts), r, l.scalar)
}

/// From the attention's output: the residual takes it in, and its norm goes on.
proof fn lemma_after_attn(s: State, p: MoePlan, l: MoeLayer)
    requires
        sized(p, l),
    ensures
        ({
            let t = run(s, after_attn(p, l), 1);
            let a = s[l.buf(LayerBuf::AttnOut)];
            let x = s[res_in(l.li as int, false)];
            let r = of2(Op::Add, layer_norm(s, p, l, LayerBuf::PostAttnLn, a), x);
            &&& t[res_in(l.li as int, false)] == r
            &&& t[l.buf(LayerBuf::NormedMlp)] == layer_norm(s, p, l, LayerBuf::PreFfwLn, r)
            &&& forall|b: MoeBuf|
                b != res_in(l.li as int, false) && b != l.buf(LayerBuf::NormedMlp) && b != l.buf(
                    LayerBuf::AttnPost,
                ) ==> #[trigger] t[b] == s[b]
        }),
{
    let ps = after_attn(p, l);
    let r_in = res_in(l.li as int, false);
    if p.sw.grouped {
        lemma_run1(s, ps[0], 1);
        assert(ps =~= seq![ps[0]]);
        reveal(step);
        lemma_kernels();
    } else {
        lemma_run2(s, ps[0], ps[1], 1);
        assert(ps =~= seq![ps[0], ps[1]]);
        step_norm(
            s,
            p,
            "g4m-rms-postattn"@,
            l.buf(LayerBuf::AttnOut),
            l.buf(LayerBuf::PostAttnLn),
            l.buf(LayerBuf::AttnPost),
        );
        step_norm_residual(
            step(s, ps[0], 1),
            p,
            "g4m-pnres"@,
            l.buf(LayerBuf::AttnPost),
            r_in,
            l.buf(LayerBuf::PreFfwLn),
            l.buf(LayerBuf::NormedMlp),
        );
    }
}

/// Between the dense and the expert block.
proof fn lemma_after_mlp(s: State, p: MoePlan, l: MoeLayer)
    requires
        sized(p, l),
    ensures
        ({
            let t = run(s, after_mlp(p, l), 1);
            let r = s[res_in(l.li as int, false)];
            &&& t[l.buf(LayerBuf::H1)] == layer_norm(
                s,
                p,
                l,
                LayerBuf::PostFfw1Ln,
                s[l.buf(LayerBuf::DenseOut)],
            )
            &&& t[l.buf(LayerBuf::MoeIn)] == layer_norm(s, p, l, LayerBuf::PreFfw2Ln, r)
            &&& forall|b: MoeBuf|
                b != l.buf(LayerBuf::H1) && b != l.buf(LayerBuf::MoeIn) ==> #[trigger] t[b] == s[b]
        }),
{
    let ps = after_mlp(p, l);
    let r_in = res_in(l.li as int, false);
    if p.sw.grouped {
        lemma_run1(s, ps[0], 1);
        assert(ps =~= seq![ps[0]]);
        reveal(step);
        lemma_kernels();
    } else {
        lemma_run2(s, ps[0], ps[1], 1);
        assert(ps =~= seq![ps[0], ps[1]]);
        step_norm(
            s,
            p,
            "g4m-rms-postffw1"@,
            l.buf(LayerBuf::DenseOut),
            l.buf(LayerBuf::PostFfw1Ln),
            l.buf(LayerBuf::H1),
        );
        step_norm(
            step(s, ps[0], 1),
            p,
            "g4m-rms-preffw2"@,
            r_in,
            l.buf(LayerBuf::PreFfw2Ln),
            l.buf(LayerBuf::MoeIn),
        );
    }
}

pub open spec fn tail_scratch(l: MoeLayer, b: MoeBuf) -> bool {
    ||| b == l.buf(LayerBuf::H2)
    ||| b == l.buf(LayerBuf::FfwSum)
    ||| b == l.buf(LayerBuf::Combined)
}

/// From the expert block's output to the residual that the layer leaves.
proof fn lemma_after_moe(s: State, p: MoePlan, l: MoeLayer)
    requires
        sized(p, l),
        width_of(s[l.buf(LayerBuf::H1)]) == Some(p.d.hidden as int),
    ensures
        ({
            let t = run(s, after_moe(p, l), 1);
            let h2 = layer_norm(s, p, l, LayerBuf::PostFfw2Ln, s[l.buf(LayerBuf::MoeOut)]);
            let parts = of2(Op::Add, s[l.buf(LayerBuf::H1)], h2);
            &&& t[res_out(l.li as int, false)] == sum(
                layer_norm(s, p, l, LayerBuf::PostFfwLn, parts),
                s[res_in(l.li as int, false)],
                l.scalar,
            )
            &&& forall|b: MoeBuf|
                b != res_out(l.li as int, false) && !tail_scratch(l, b) ==> #[trigger] t[b] == s[b]
        }),
{
    let ps = after_moe(p, l);
    let r_in = res_in(l.li as int, false);
    let r_out = res_out(l.li as int, false);
    let hidden = p.d.hidden as int;
    if p.sw.grouped {
        lemma_run1(s, ps[0], 1);
        assert(ps =~= seq![ps[0]]);
        reveal(step);
        lemma_kernels();
    } else {
        lemma_run4(s, ps[0], ps[1], ps[2], ps[3], 1);
        assert(ps =~= seq![ps[0], ps[1], ps[2], ps[3]]);
        let h2 = l.buf(LayerBuf::H2);
        let fs = l.buf(LayerBuf::FfwSum);
        let c = l.buf(LayerBuf::Combined);
        step_norm(
            s,
            p,
            "g4m-rms-postffw2"@,
            l.buf(LayerBuf::MoeOut),
            l.buf(LayerBuf::PostFfw2Ln),
            h2,
        );
        let s1 = step(s, ps[0], 1);
        step_residual(
            s1,
            "g4m-ffw-add"@,
            l.buf(LayerBuf::H1),
            h2,
            fs,
            hidden,
            hidden / 2,
            F32_ONE,
            1,
        );
        let s2 = step(s1, ps[1], 1);
        step_norm(s2, p, "g4m-rms-postffw"@, fs, l.buf(LayerBuf::PostFfwLn), c);
        let s3 = step(s2, ps[2], 1);
        step_residual(s3, "g4m-res-out"@, c, r_in, r_out, hidden, hidden / 2, l.scalar, 1);
    }
}

/// The buffers of a layer that hold nothing from one row to the next.
pub open spec fn layer_scratch(l: MoeLayer, b: MoeBuf) -> bool {
    ||| b == MoeBuf::Normed
    ||| b == l.buf(LayerBuf::AttnOut)
    ||| b == l.buf(LayerBuf::AttnPost)
    ||| b == l.buf(LayerBuf::NormedMlp)
    ||| b == l.buf(LayerBuf::DenseOut)
    ||| b == l.buf(LayerBuf::H1)
    ||| b == l.buf(LayerBuf::MoeIn)
    ||| b == l.buf(LayerBuf::MoeOut)
    ||| attn_scratch(l, b)
    ||| mlp_scratch(l, b)
    ||| route_scratch(l, b)
    ||| expert_scratch(l, b)
    ||| tail_scratch(l, b)
}

/// What running a layer leaves: the layer's value of the residual it reads, and the row's keys
/// and values in its caches.
pub open spec fn layer_done(
    t: State,
    s: State,
    p: MoePlan,
    l: MoeLayer,
    x: MoeBuf,
    y: MoeBuf,
    pos: Val,
    in_parts: bool,
) -> bool {
    &&& t[y] == layer_value(s, p, l, s[x], pos, in_parts)
    &&& t[x] == mid(s, p, l, s[x], pos, in_parts)
    &&& caches_hold(t, s, p, l, layer_norm(s, p, l, LayerBuf::InLn, s[x]), pos)
}

/// The passes of a layer for a decode row, whatever kernels are grouped, compute the layer and
/// leave all else as it was.
pub proof fn law_layer(s: State, p: MoePlan, l: MoeLayer)
    requires
        sized(p, l),
        stacks_hold(s, p, l),
        s[l.buf(LayerBuf::MoeOnes)] == Val::Ones,
    ensures
        ({
            let t = run(s, layer_passes(p, l), 1);
            let x = res_in(l.li as int, false);
            let y = res_out(l.li as int, false);
            &&& layer_done(t, s, p, l, x, y, s[MoeBuf::Pos], takes_flash(p, l.kind))
            &&& forall|b: MoeBuf|
                !layer_scratch(l, b) && !cache_buf(l, b) && b != x && b != y ==> #[trigger] t[b]
                    == s[b]
        }),
{
    let x = res_in(l.li as int, false);
    let y = res_out(l.li as int, false);
    let pos = s[MoeBuf::Pos];
    let parts = takes_flash(p, l.kind);
    let nx = layer_norm(s, p, l, LayerBuf::InLn, s[x]);
    let head = norm_pass(p, "g4m-rms-in"@, x, l.buf(LayerBuf::InLn), MoeBuf::Normed);
    let p0 = seq![head];
    let p1 = attn_passes(p, l, MoeBuf::Normed, l.buf(LayerBuf::AttnOut));
    let p2 = after_attn(p, l);
    let p3 = mlp_passes(p, l, l.buf(LayerBuf::NormedMlp), l.buf(LayerBuf::DenseOut));
    let p4 = after_mlp(p, l);
    let p5 = moe_passes(p, l, x, l.buf(LayerBuf::MoeIn), l.buf(LayerBuf::MoeOut));
    let p6 = after_moe(p, l);
    reveal(layer_passes);
    assert(layer_passes(p, l) == p0 + p1 + p2 + p3 + p4 + p5 + p6);
    lemma_run_cat(s, p0 + p1 + p2 + p3 + p4 + p5, p6, 1);
    lemma_run_cat(s, p0 + p1 + p2 + p3 + p4, p5, 1);
    lemma_run_cat(s, p0 + p1 + p2 + p3, p4, 1);
    lemma_run_cat(s, p0 + p1 + p2, p3, 1);
    lemma_run_cat(s, p0 + p1, p2, 1);
    lemma_run_cat(s, p0, p1, 1);
    lemma_run1(s, head, 1);
    step_norm(s, p, "g4m-rms-in"@, x, l.buf(LayerBuf::InLn), MoeBuf::Normed);
    let s0 = run(s, p0, 1);
    law_attn(s0, p, l, MoeBuf::Normed, l.buf(LayerBuf::AttnOut));
    let s1 = run(s0, p1, 1);
    assert(s1[l.buf(LayerBuf::AttnOut)] == attention(s, p, l, nx, pos, parts));
    assert(caches_hold(s1, s, p, l, nx, pos));
    lemma_after_attn(s1, p, l);
    let s2 = run(s1, p2, 1);
    let r = mid(s, p, l, s[x], pos, parts);
    assert(s2[x] == r);
    law_mlp(s2, p, l, l.buf(LayerBuf::NormedMlp), l.buf(LayerBuf::DenseOut));
    let s3 = run(s2, p3, 1);
    assert(s3[l.buf(LayerBuf::DenseOut)] == dense(
        s,
        p,
        l,
        layer_norm(s, p, l, LayerBuf::PreFfwLn, r),
    ));
    lemma_after_mlp(s3, p, l);
    let s4 = run(s3, p4, 1);
    assert(s4[l.buf(LayerBuf::H1)] == dense_part(s, p, l, r));
    assert(s4[x] == r);
    law_moe(s4, p, l, x, l.buf(LayerBuf::MoeIn), l.buf(LayerBuf::MoeOut));
    let s5 = run(s4, p5, 1);
    assert(s5[l.buf(LayerBuf::MoeOut)] == routed(
        s,
        p,
        l,
        r,
        layer_norm(s, p, l, LayerBuf::PreFfw2Ln, r),
    ));
    lemma_after_moe(s5, p, l);
}

proof fn lemma_pf_after_attn(s: State, p: MoePlan, l: MoeLayer)
    requires
        sized(p, l),
    ensures
        ({
            let t = run(s, pf_after_attn(p, l), p.d.m as int);
            let a = s[pf(PfBuf::AttnOut)];
            let x = s[res_in(l.li as int, true)];
            let r = of2(Op::Add, layer_norm(s, p, l, LayerBuf::PostAttnLn, a), x);
            &&& t[res_in(l.li as int, true)] == r
            &&& t[pf(PfBuf::NormedMlp)] == layer_norm(s, p, l, LayerBuf::PreFfwLn, r)
            &&& forall|b: MoeBuf|
                b != res_in(l.li as int, true) && b != pf(PfBuf::NormedMlp) && b != pf(
                    PfBuf::AttnPost,
                ) ==> #[trigger] t[b] == s[b]
        }),
{
    let m = p.d.m as int;
    let ps = pf_after_attn(p, l);
    lemma_run2(s, ps[0], ps[1], m);
    assert(ps =~= seq![ps[0], ps[1]]);
    step_pf_norm(
        s,
        p,
        "g4m-pf-rms-postattn"@,
        pf(PfBuf::AttnOut),
        l.buf(LayerBuf::PostAttnLn),
        pf(PfBuf::AttnPost),
        m,
    );
    step_pf_norm_residual(
        step(s, ps[0], m),
        p,
        "g4m-pf-pnres"@,
        pf(PfBuf::AttnPost),
        res_in(l.li as int, true),
        l.buf(LayerBuf::PreFfwLn),
        pf(PfBuf::NormedMlp),
        m,
    );
}

proof fn lemma_pf_after_mlp(s: State, p: MoePlan, l: MoeLayer)
    requires
        sized(p, l),
    ensures
        ({
            let t = run(s, pf_after_mlp(p, l), p.d.m as int);
            let r = s[res_in(l.li as int, true)];
            &&& t[pf(PfBuf::H1)] == layer_norm(
                s,
                p,
                l,
                LayerBuf::PostFfw1Ln,
                s[pf(PfBuf::DenseOut)],
            )
            &&& t[pf(PfBuf::MoeIn)] == layer_norm(s, p, l, LayerBuf::PreFfw2Ln, r)
            &&& forall|b: MoeBuf|
                b != pf(PfBuf::H1) && b != pf(PfBuf::MoeIn) ==> #[trigger] t[b] == s[b]
        }),
{
    let m = p.d.m as int;
    let ps = pf_after_mlp(p, l);
    lemma_run2(s, ps[0], ps[1], m);
    assert(ps =~= seq![ps[0], ps[1]]);
    step_pf_norm(
        s,
        p,
        "g4m-pf-rms-postffw1"@,
        pf(PfBuf::DenseOut),
        l.buf(LayerBuf::PostFfw1Ln),
        pf(PfBuf::H1),
        m,
    );
    step_pf_norm(
        step(s, ps[0], m),
        p,
        "g4m-pf-rms-preffw2"@,
        res_in(l.li as int, true),
        l.buf(LayerBuf::PreFfw2Ln),
        pf(PfBuf::MoeIn),
        m,
    );
}

pub open spec fn pf_tail_scratch(b: MoeBuf) -> bool {
    ||| b == pf(PfBuf::H2)
    ||| b == pf(PfBuf::FfwSum)
    ||| b == pf(PfBuf::Combined)
}

/// From a chunk's normed dense rows and its expert rows to the residual: both are added before
/// the last norm.
proof fn lemma_pf_after_moe(s: State, p: MoePlan, l: MoeLayer)
    requires
        sized(p, l),
        width_of(s[pf(PfBuf::H1)]) == Some(p.d.hidden as int),
    ensures
        ({
            let t = run(s, pf_after_moe(p, l), p.d.m as int);
            let h2 = layer_norm(s, p, l, LayerBuf::PostFfw2Ln, s[pf(PfBuf::MoeOut)]);
            let parts = of2(Op::Add, s[pf(PfBuf::H1)], h2);
            &&& t[res_out(l.li as int, true)] == sum(
                layer_norm(s, p, l, LayerBuf::PostFfwLn, parts),
                s[res_in(l.li as int, true)],
                l.scalar,
            )
            &&& forall|b: MoeBuf|
                b != res_out(l.li as int, true) && !pf_tail_scratch(b) ==> #[trigger] t[b] == s[b]
        }),
{
    let m = p.d.m as int;
    let n = p.d.m * p.d.hidden;
    let words = p.d.m * (p.d.hidden as int / 2);
    lemma_even(m, p.d.hidden as int);
    let ps = pf_after_moe(p, l);
    lemma_run4(s, ps[0], ps[1], ps[2], ps[3], m);
    assert(ps =~= seq![ps[0], ps[1], ps[2], ps[3]]);
    let h2 = pf(PfBuf::H2);
    let fs = pf(PfBuf::FfwSum);
    let c = pf(PfBuf::Combined);
    step_pf_norm(
        s,
        p,
        "g4m-pf-rms-postffw2"@,
        pf(PfBuf::MoeOut),
        l.buf(LayerBuf::PostFfw2Ln),
        h2,
        m,
    );
    let s1 = step(s, ps[0], m);
    step_residual(s1, "g4m-pf-ffw-add"@, pf(PfBuf::H1), h2, fs, n, words, F32_ONE, m);
    let s2 = step(s1, ps[1], m);
    step_pf_norm(s2, p, "g4m-pf-rms-postffw"@, fs, l.buf(LayerBuf::PostFfwLn), c, m);
    let s3 = step(s2, ps[2], m);
    step_residual(
        s3,
        "g4m-pf-res-out"@,
        c,
        res_in(l.li as int, true),
        res_out(l.li as int, true),
        n,
        words,
        l.scalar,
        m,
    );
}

/// The rows of a chunk that hold nothing from one layer to the next.
pub open spec fn pf_layer_scratch(b: MoeBuf) -> bool {
    ||| b == pf(PfBuf::Normed)
    ||| b == pf(PfBuf::AttnOut)
    ||| b == pf(PfBuf::AttnPost)
    ||| b == pf(PfBuf::NormedMlp)
    ||| b == pf(PfBuf::DenseOut)
    ||| b == pf(PfBuf::H1)
    ||| b == pf(PfBuf::MoeIn)
    ||| b == pf(PfBuf::MoeOut)
    ||| pf_attn_scratch(b)
    ||| pf_mlp_scratch(b)
    ||| pf_moe_scratch(b)
    ||| pf_tail_scratch(b)
}

/// The passes of a layer for a chunk compute for each row what the layer makes of a decode row,
/// and leave all else as it was.
pub proof fn law_pf_layer(s: State, p: MoePlan, l: MoeLayer)
    requires
        sized(p, l),
        s[l.buf(LayerBuf::MoeOnes)] == Val::Ones,
    ensures
        ({
            let t = run(s, pf_layer_passes(p, l), p.d.m as int);
            let x = res_in(l.li as int, true);
            let y = res_out(l.li as int, true);
            &&& layer_done(t, s, p, l, x, y, s[pf(PfBuf::Pos)], false)
            &&& forall|b: MoeBuf|
                !pf_layer_scratch(b) && !cache_buf(l, b) && b != x && b != y ==> #[trigger] t[b]
                    == s[b]
        }),
{
    let m = p.d.m as int;
    let x = res_in(l.li as int, true);
    let y = res_out(l.li as int, true);
    let pos = s[pf(PfBuf::Pos)];
    let nx = layer_norm(s, p, l, LayerBuf::InLn, s[x]);
    let head = pf_norm_pass(
        p,
        "g4m-pf-rms-in"@,
        x,
        l.buf(LayerBuf::InLn),
        pf(PfBuf::Normed),
        m,
    );
    let p0 = seq![head];
    let p1 = pf_attn_passes(p, l, pf(PfBuf::Normed), pf(PfBuf::AttnOut));
    let p2 = pf_after_attn(p, l);
    let p3 = pf_mlp_passes(p, l, pf(PfBuf::NormedMlp), pf(PfBuf::DenseOut));
    let p4 = pf_after_mlp(p, l);
    let p5 = pf_moe_passes(p, l, x, pf(PfBuf::MoeIn), pf(PfBuf::MoeOut));
    let p6 = pf_after_moe(p, l);
    reveal(pf_layer_passes);
    assert(pf_layer_passes(p, l) == p0 + p1 + p2 + p3 + p4 + p5 + p6);
    lemma_run_cat(s, p0 + p1 + p2 + p3 + p4 + p5, p6, m);
    lemma_run_cat(s, p0 + p1 + p2 + p3 + p4, p5, m);
    lemma_run_cat(s, p0 + p1 + p2 + p3, p4, m);
    lemma_run_cat(s, p0 + p1 + p2, p3, m);
    lemma_run_cat(s, p0 + p1, p2, m);
    lemma_run_cat(s, p0, p1, m);
    lemma_run1(s, head, m);
    step_pf_norm(s, p, "g4m-pf-rms-in"@, x, l.buf(LayerBuf::InLn), pf(PfBuf::Normed), m);
    let s0 = run(s, p0, m);
    law_pf_attn(s0, p, l, pf(PfBuf::Normed), pf(PfBuf::AttnOut));
    let s1 = run(s0, p1, m);
    assert(s1[pf(PfBuf::AttnOut)] == attention(s, p, l, nx, pos, false));
    assert(caches_hold(s1, s, p, l, nx, pos));
    lemma_pf_after_attn(s1, p, l);
    let s2 = run(s1, p2, m);
    let r = mid(s, p, l, s[x], pos, false);
    assert(s2[x] == r);
    law_pf_mlp(s2, p, l, pf(PfBuf::NormedMlp), pf(PfBuf::DenseOut));
    let s3 = run(s2, p3, m);
    assert(s3[pf(PfBuf::DenseOut)] == dense(
        s,
        p,
        l,
        layer_norm(s, p, l, LayerBuf::PreFfwLn, r),
    ));
    lemma_pf_after_mlp(s3, p, l);
    let s4 = run(s3, p4, m);
    assert(s4[pf(PfBuf::H1)] == dense_part(s, p, l, r));
    assert(s4[x] == r);
    law_pf_moe(s4, p, l, x, pf(PfBuf::MoeIn), pf(PfBuf::MoeOut));
    let s5 = run(s4, p5, m);
    assert(s5[pf(PfBuf::MoeOut)] == routed(
        s,
        p,
        l,
        r,
        layer_norm(s, p, l, LayerBuf::PreFfw2Ln, r),
    ));
    lemma_pf_after_moe(s5, p, l);
}

/// A chunk computes per row what a decode step computes: from the same residual, positions,
/// weights and caches, where the decode step attends over its cache as a whole, the two leave
/// the same residual and the same caches.
pub proof fn law_chunk_is_decode(s: State, p: MoePlan, l: MoeLayer)
    requires
        sized(p, l),
        stacks_hold(s, p, l),
        s[l.buf(LayerBuf::MoeOnes)] == Val::Ones,
        s[res_in(l.li as int, true)] == s[res_in(l.li as int, false)],
        s[pf(PfBuf::Pos)] == s[MoeBuf::Pos],
        !takes_flash(p, l.kind),
    ensures
        ({
            let one = run(s, layer_passes(p, l), 1);
            let chunk = run(s, pf_layer_passes(p, l), p.d.m as int);
            &&& chunk[res_out(l.li as int, true)] == one[res_out(l.li as int, false)]
            &&& forall|b: MoeBuf| cache_buf(l, b) ==> chunk[b] == #[trigger] one[b]
        }),
{
    law_layer(s, p, l);
    law_pf_layer(s, p, l);
}

} // verus!
