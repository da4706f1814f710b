//! Puts the passes of a mixture-of-experts graph together.
use vstd::prelude::*;
use crate::e4b_emit::F32_ONE;
use crate::moe_attn::{attn_passes, build_attn, build_attn_prefill, pf_attn_passes, MoeLayer};
use crate::moe_emit::{
    norm_params, norm_pass, norm_residual_pass, norm_uniform, pf_norm, pf_norm_pass,
    pf_norm_residual, pf_norm_residual_pass, push_norm, push_norm_residual, push_residual,
    residual_pass, MoePlan,
};
use crate::moe_ffn::{
    build_mlp, build_mlp_prefill, build_moe, build_moe_prefill, ffn_fits, mlp_passes, moe_passes,
    pf_mlp_passes, pf_moe_passes,
};
use crate::moe_ir::{
    bind6, bind7, mb, mbuf, moe_pass, mu, muni, LayerBuf, MoeBuf, MoeGrid, MoeList, MoeModel,
    MoeSource, PfBuf,
};

verus! {

/// The residual that layer `li` reads, and the one that it writes: two buffers in turn.
pub open spec fn res_in(li: int, pf: bool) -> MoeBuf {
    if li % 2 == 0 {
        if pf { MoeBuf::Pf(PfBuf::ResA) } else { MoeBuf::ResA }
    } else {
        if pf { MoeBuf::Pf(PfBuf::ResB) } else { MoeBuf::ResB }
    }
}

pub open spec fn res_out(li: int, pf: bool) -> MoeBuf {
    res_in(li + 1, pf)
}

/// A layer reads what the layer before it wrote and never writes what it reads; the first
/// reads the gathered embeddings, and what follows the last reads what it wrote.
pub proof fn law_residual_chain(li: int, pf: bool)
    requires
        li >= 0,
    ensures
        res_in(li + 1, pf) == res_out(li, pf),
        res_in(li, pf) != res_out(li, pf),
        res_in(0, pf) == if pf { MoeBuf::Pf(PfBuf::ResA) } else { MoeBuf::ResA },
{
}

pub fn residual(li: usize, pf: bool) -> (r: (MoeBuf, MoeBuf))
    ensures
        r.0 == res_in(li as int, pf),
        r.1 == res_out(li as int, pf),
{
    let (a, b) = if pf {
        (MoeBuf::Pf(PfBuf::ResA), MoeBuf::Pf(PfBuf::ResB))
    } else {
        (MoeBuf::ResA, MoeBuf::ResB)
    };
    if li % 2 == 0 { (a, b) } else { (b, a) }
}

fn lb(l: &MoeLayer, b: LayerBuf) -> (r: MoeBuf)
    ensures
        r == l.buf(b),
{
    MoeBuf::Layer(l.li, b)
}

/// From the attention's output to the dense block's input.
pub open spec fn after_attn(p: MoePlan, l: MoeLayer) -> Seq<MoeModel> {
    let r_in = res_in(l.li as int, false);
    if p.sw.grouped {
        seq![
            moe_pass(
                "g4m-nnres"@,
                MoeSource::Prop,
                "g4m_norm_norm_residual"@,
                seq![
                    mb(0, l.buf(LayerBuf::AttnOut)),
                    mb(1, l.buf(LayerBuf::PostAttnLn)),
                    mb(2, l.buf(LayerBuf::NormedMlp)),
                    mu(3, norm_params(p.d.hidden, p.f.eps, 0)),
                    mb(4, r_in),
                    mb(5, l.buf(LayerBuf::PreFfwLn)),
                ],
                MoeGrid::Dims(1, 1, 1),
            ),
        ]
    } else {
        seq![
            norm_pass(
                p,
                "g4m-rms-postattn"@,
                l.buf(LayerBuf::AttnOut),
                l.buf(LayerBuf::PostAttnLn),
                l.buf(LayerBuf::AttnPost),
            ),
            norm_residual_pass(
                p,
                "g4m-pnres"@,
                l.buf(LayerBuf::AttnPost),
                r_in,
                l.buf(LayerBuf::PreFfwLn),
                l.buf(LayerBuf::NormedMlp),
            ),
        ]
    }
}

fn push_after_attn(out: &mut MoeList, p: &MoePlan, l: &MoeLayer)
    ensures
        final(out)@ == old(out)@ + after_attn(*p, *l),
{
    let (r_in, _) = residual(l.li, false);
    if p.sw.grouped {
        let u = norm_uniform(p.d.hidden, p.f.eps, 0);
        out.push(
            "g4m-nnres",
            MoeSource::Prop,
            "g4m_norm_norm_residual",
            bind6(
                mbuf(0, lb(l, LayerBuf::AttnOut)),
                mbuf(1, lb(l, LayerBuf::PostAttnLn)),
                mbuf(2, lb(l, LayerBuf::NormedMlp)),
                muni(3, u),
                mbuf(4, r_in),
                mbuf(5, lb(l, LayerBuf::PreFfwLn)),
            ),
            MoeGrid::Dims(1, 1, 1),
        );
    } else {
        push_norm(
            out,
            p,
            "g4m-rms-postattn",
            lb(l, LayerBuf::AttnOut),
            lb(l, LayerBuf::PostAttnLn),
            lb(l, LayerBuf::AttnPost),
        );
        push_norm_residual(
            out,
            p,
            "g4m-pnres",
            lb(l, LayerBuf::AttnPost),
            r_in,
            lb(l, LayerBuf::PreFfwLn),
            lb(l, LayerBuf::NormedMlp),
        );
    }
    assert(out@ =~= old(out)@ + after_attn(*p, *l));
}

/// From the dense block's output to the expert block's input.
pub open spec fn after_mlp(p: MoePlan, l: MoeLayer) -> Seq<MoeModel> {
    let r_in = res_in(l.li as int, false);
    if p.sw.grouped {
        seq![
            moe_pass(
                "g4m-normx2"@,
                MoeSource::Prop,
                "g4m_norm_x2"@,
                seq![
                    mb(0, l.buf(LayerBuf::DenseOut)),
                    mb(1, l.buf(LayerBuf::PostFfw1Ln)),
                    mb(2, l.buf(LayerBuf::H1)),
                    mu(3, norm_params(p.d.hidden, p.f.eps, 0)),
                    mb(4, r_in),
                    mb(5, l.buf(LayerBuf::PreFfw2Ln)),
                    mb(7, l.buf(LayerBuf::MoeIn)),
                ],
                MoeGrid::Dims(2, 1, 1),
            ),
        ]
    } else {
        seq![
            norm_pass(
                p,
                "g4m-rms-postffw1"@,
                l.buf(LayerBuf::DenseOut),
                l.buf(LayerBuf::PostFfw1Ln),
                l.buf(LayerBuf::H1),
            ),
            norm_pass(
                p,
                "g4m-rms-preffw2"@,
                r_in,
                l.buf(LayerBuf::PreFfw2Ln),
                l.buf(LayerBuf::MoeIn),
            ),
        ]
    }
}

fn push_after_mlp(out: &mut MoeList, p: &MoePlan, l: &MoeLayer)
    ensures
        final(out)@ == old(out)@ + after_mlp(*p, *l),
{
    let (r_in, _) = residual(l.li, false);
    if p.sw.grouped {
        let u = norm_uniform(p.d.hidden, p.f.eps, 0);
        out.push(
            "g4m-normx2",
            MoeSource::Prop,
            "g4m_norm_x2",
            bind7(
                mbuf(0, lb(l, LayerBuf::DenseOut)),
                mbuf(1, lb(l, LayerBuf::PostFfw1Ln)),
                mbuf(2, lb(l, LayerBuf::H1)),
                muni(3, u),
                mbuf(4, r_in),
                mbuf(5, lb(l, LayerBuf::PreFfw2Ln)),
                mbuf(7, lb(l, LayerBuf::MoeIn)),
            ),
            MoeGrid::Dims(2, 1, 1),
        );
    } else {
        push_norm(
            out,
            p,
            "g4m-rms-postffw1",
            lb(l, LayerBuf::DenseOut),
            lb(l, LayerBuf::PostFfw1Ln),
            lb(l, LayerBuf::H1),
        );
        push_norm(
            out,
            p,
            "g4m-rms-preffw2",
            r_in,
            lb(l, LayerBuf::PreFfw2Ln),
            lb(l, LayerBuf::MoeIn),
        );
    }
    assert(out@ =~= old(out)@ + after_mlp(*p, *l));
}

/// From the expert block's output to the residual that the layer leaves.
pub open spec fn after_moe(p: MoePlan, l: MoeLayer) -> Seq<MoeModel> {
    let r_in = res_in(l.li as int, false);
    let r_out = res_out(l.li as int, false);
    let hidden = p.d.hidden as int;
    if p.sw.grouped {
        seq![
            moe_pass(
                "g4m-tailnorm"@,
                MoeSource::Prop,
                "g4m_norm_add_norm_resout"@,
                seq![
                    mb(0, l.buf(LayerBuf::MoeOut)),
                    mb(1, l.buf(LayerBuf::PostFfw2Ln)),
                    mb(2, r_out),
                    mu(3, norm_params(p.d.hidden, p.f.eps, l.scalar)),
                    mb(4, r_in),
                    mb(5, l.buf(LayerBuf::PostFfwLn)),
                    mb(6, l.buf(LayerBuf::H1)),
                ],
                MoeGrid::Dims(1, 1, 1),
            ),
        ]
    } else {
        seq![
            norm_pass(
                p,
                "g4m-rms-postffw2"@,
                l.buf(LayerBuf::MoeOut),
                l.buf(LayerBuf::PostFfw2Ln),
                l.buf(LayerBuf::H2),
            ),
            residual_pass(
                "g4m-ffw-add"@,
                l.buf(LayerBuf::H1),
                l.buf(LayerBuf::H2),
                l.buf(LayerBuf::FfwSum),
                hidden,
                hidden / 2,
                F32_ONE,
            ),
            norm_pass(
                p,
                "g4m-rms-postffw"@,
                l.buf(LayerBuf::FfwSum),
                l.buf(LayerBuf::PostFfwLn),
                l.buf(LayerBuf::Combined),
            ),
            residual_pass(
                "g4m-res-out"@,
                l.buf(LayerBuf::Combined),
                r_in,
                r_out,
                hidden,
                hidden / 2,
                l.scalar,
            ),
        ]
    }
}

fn push_after_moe(out: &mut MoeList, p: &MoePlan, l: &MoeLayer)
    ensures
        final(out)@ == old(out)@ + after_moe(*p, *l),
{
    let (r_in, r_out) = residual(l.li, false);
    if p.sw.grouped {
        let u = norm_uniform(p.d.hidden, p.f.eps, l.scalar);
        out.push(
            "g4m-tailnorm",
            MoeSource::Prop,
            "g4m_norm_add_norm_resout",
            bind7(
                mbuf(0, lb(l, LayerBuf::MoeOut)),
                mbuf(1, lb(l, LayerBuf::PostFfw2Ln)),
                mbuf(2, r_out),
                muni(3, u),
                mbuf(4, r_in),
                mbuf(5, lb(l, LayerBuf::PostFfwLn)),
                mbuf(6, lb(l, LayerBuf::H1)),
            ),
            MoeGrid::Dims(1, 1, 1),
        );
    } else {
        let hidden: usize = p.d.hidden;
        push_norm(
            out,
            p,
            "g4m-rms-postffw2",
            lb(l, LayerBuf::MoeOut),
            lb(l, LayerBuf::PostFfw2Ln),
            lb(l, LayerBuf::H2),
        );
        push_residual(
            out,
            "g4m-ffw-add",
            lb(l, LayerBuf::H1),
            lb(l, LayerBuf::H2),
            lb(l, LayerBuf::FfwSum),
            hidden,
            hidden / 2,
            F32_ONE,
        );
        push_norm(
            out,
            p,
            "g4m-rms-postffw",
            lb(l, LayerBuf::FfwSum),
            lb(l, LayerBuf::PostFfwLn),
            lb(l, LayerBuf::Combined),
        );
        push_residual(
            out,
            "g4m-res-out",
            lb(l, LayerBuf::Combined),
            r_in,
            r_out,
            hidden,
            hidden / 2,
            l.scalar,
        );
    }
    assert(out@ =~= old(out)@ + after_moe(*p, *l));
}

/// All passes of a layer for a decode row.
#[verifier::opaque]
pub open spec fn layer_passes(p: MoePlan, l: MoeLayer) -> Seq<MoeModel> {
    seq![
        norm_pass(
            p,
            "g4m-rms-in"@,
            res_in(l.li as int, false),
            l.buf(LayerBuf::InLn),
            MoeBuf::Normed,
        ),
    ] + attn_passes(p, l, MoeBuf::Normed, l.buf(LayerBuf::AttnOut)) + after_attn(p, l)
        + mlp_passes(p, l, l.buf(LayerBuf::NormedMlp), l.buf(LayerBuf::DenseOut)) + after_mlp(p, l)
        + moe_passes(
        p,
        l,
        res_in(l.li as int, false),
        l.buf(LayerBuf::MoeIn),
        l.buf(LayerBuf::MoeOut),
    ) + after_moe(p, l)
}

pub fn push_layer(out: &mut MoeList, p: &MoePlan, l: &MoeLayer)
    requires
        l.fits(*p),
        ffn_fits(*p),
    ensures
        final(out)@ == old(out)@ + layer_passes(*p, *l),
{
    let (r_in, _) = residual(l.li, false);
    push_norm(out, p, "g4m-rms-in", r_in, lb(l, LayerBuf::InLn), MoeBuf::Normed);
    build_attn(out, p, l, MoeBuf::Normed, lb(l, LayerBuf::AttnOut));
    push_after_attn(out, p, l);
    build_mlp(out, p, l, lb(l, LayerBuf::NormedMlp), lb(l, LayerBuf::DenseOut));
    push_after_mlp(out, p, l);
    build_moe(out, p, l, r_in, lb(l, LayerBuf::MoeIn), lb(l, LayerBuf::MoeOut));
    push_after_moe(out, p, l);
    proof {
        reveal(layer_passes);
    }
    assert(out@ =~= old(out)@ + layer_passes(*p, *l));
}

pub open spec fn pf(b: PfBuf) -> MoeBuf {
    MoeBuf::Pf(b)
}

/// From the attention's output to the dense block's input, for a chunk.
pub open spec fn pf_after_attn(p: MoePlan, l: MoeLayer) -> Seq<MoeModel> {
    let m = p.d.m as int;
    seq![
        pf_norm_pass(
            p,
            "g4m-pf-rms-postattn"@,
            pf(PfBuf::AttnOut),
            l.buf(LayerBuf::PostAttnLn),
            pf(PfBuf::AttnPost),
            m,
        ),
        pf_norm_residual_pass(
            p,
            "g4m-pf-pnres"@,
            pf(PfBuf::AttnPost),
            res_in(l.li as int, true),
            l.buf(LayerBuf::PreFfwLn),
            pf(PfBuf::NormedMlp),
            m,
        ),
    ]
}

/// From the dense block's output to the expert block's input, for a chunk.
pub open spec fn pf_after_mlp(p: MoePlan, l: MoeLayer) -> Seq<MoeModel> {
    let m = p.d.m as int;
    seq![
        pf_norm_pass(
            p,
            "g4m-pf-rms-postffw1"@,
            pf(PfBuf::DenseOut),
            l.buf(LayerBuf::PostFfw1Ln),
            pf(PfBuf::H1),
            m,
        ),
        pf_norm_pass(
            p,
            "g4m-pf-rms-preffw2"@,
            res_in(l.li as int, true),
            l.buf(LayerBuf::PreFfw2Ln),
            pf(PfBuf::MoeIn),
            m,
        ),
    ]
}

/// From the expert block's output to the residual, for a chunk.
pub open spec fn pf_after_moe(p: MoePlan, l: MoeLayer) -> Seq<MoeModel> {
    let m = p.d.m as int;
    let n = p.d.m * p.d.hidden;
    let words = p.d.m * (p.d.hidden as int / 2);
    seq![
        pf_norm_pass(
            p,
            "g4m-pf-rms-postffw2"@,
            pf(PfBuf::MoeOut),
            l.buf(LayerBuf::PostFfw2Ln),
            pf(PfBuf::H2),
            m,
        ),
        residual_pass(
            "g4m-pf-ffw-add"@,
            pf(PfBuf::H1),
            pf(PfBuf::H2),
            pf(PfBuf::FfwSum),
            n,
            words,
            F32_ONE,
        ),
        pf_norm_pass(
            p,
            "g4m-pf-rms-postffw"@,
            pf(PfBuf::FfwSum),
            l.buf(LayerBuf::PostFfwLn),
            pf(PfBuf::Combined),
            m,
        ),
        residual_pass(
            "g4m-pf-res-out"@,
            pf(PfBuf::Combined),
            res_in(l.li as int, true),
            res_out(l.li as int, true),
            n,
            words,
            l.scalar,
        ),
    ]
}

/// All passes of a layer for a chunk.
#[verifier::opaque]
pub open spec fn pf_layer_passes(p: MoePlan, l: MoeLayer) -> Seq<MoeModel> {
    let r = res_in(l.li as int, true);
    seq![
        pf_norm_pass(
            p,
            "g4m-pf-rms-in"@,
            r,
            l.buf(LayerBuf::InLn),
            pf(PfBuf::Normed),
            p.d.m as int,
        ),
    ] + pf_attn_passes(p, l, pf(PfBuf::Normed), pf(PfBuf::AttnOut)) + pf_after_attn(p, l)
        + pf_mlp_passes(p, l, pf(PfBuf::NormedMlp), pf(PfBuf::DenseOut)) + pf_after_mlp(p, l)
        + pf_moe_passes(p, l, r, pf(PfBuf::MoeIn), pf(PfBuf::MoeOut)) + pf_after_moe(p, l)
}

pub fn push_pf_layer(out: &mut MoeList, p: &MoePlan, l: &MoeLayer)
    requires
        l.fits(*p),
        ffn_fits(*p),
        p.d.m * p.d.hidden <= usize::MAX,
    ensures
        final(out)@ == old(out)@ + pf_layer_passes(*p, *l),
{
    let m: usize = p.d.m;
    let hidden: usize = p.d.hidden;
    let (p_in, p_out) = residual(l.li, true);
    assert(m * (hidden as int / 2) <= m * hidden) by (nonlinear_arith)
        requires
            hidden as int / 2 <= hidden,
    ;
    let words: usize = m * (hidden / 2);
    let n: usize = m * hidden;
    pf_norm(
        out,
        p,
        "g4m-pf-rms-in",
        p_in,
        lb(l, LayerBuf::InLn),
        MoeBuf::Pf(PfBuf::Normed),
        m,
    );
    build_attn_prefill(out, p, l, MoeBuf::Pf(PfBuf::Normed), MoeBuf::Pf(PfBuf::AttnOut));
    pf_norm(
        out,
        p,
        "g4m-pf-rms-postattn",
        MoeBuf::Pf(PfBuf::AttnOut),
        lb(l, LayerBuf::PostAttnLn),
        MoeBuf::Pf(PfBuf::AttnPost),
        m,
    );
    pf_norm_residual(
        out,
        p,
        "g4m-pf-pnres",
        MoeBuf::Pf(PfBuf::AttnPost),
        p_in,
        lb(l, LayerBuf::PreFfwLn),
        MoeBuf::Pf(PfBuf::NormedMlp),
        m,
    );
    build_mlp_prefill(out, p, l, MoeBuf::Pf(PfBuf::NormedMlp), MoeBuf::Pf(PfBuf::DenseOut));
    pf_norm(
        out,
        p,
        "g4m-pf-rms-postffw1",
        MoeBuf::Pf(PfBuf::DenseOut),
        lb(l, LayerBuf::PostFfw1Ln),
        MoeBuf::Pf(PfBuf::H1),
        m,
    );
    pf_norm(
        out,
        p,
        "g4m-pf-rms-preffw2",
        p_in,
        lb(l, LayerBuf::PreFfw2Ln),
        MoeBuf::Pf(PfBuf::MoeIn),
        m,
    );
    build_moe_prefill(out, p, l, p_in, MoeBuf::Pf(PfBuf::MoeIn), MoeBuf::Pf(PfBuf::MoeOut));
    pf_norm(
        out,
        p,
        "g4m-pf-rms-postffw2",
        MoeBuf::Pf(PfBuf::MoeOut),
        lb(l, LayerBuf::PostFfw2Ln),
        MoeBuf::Pf(PfBuf::H2),
        m,
    );
    push_residual(
        out,
        "g4m-pf-ffw-add",
        MoeBuf::Pf(PfBuf::H1),
        MoeBuf::Pf(PfBuf::H2),
        MoeBuf::Pf(PfBuf::FfwSum),
        n,
        words,
        F32_ONE,
    );
    pf_norm(
        out,
        p,
        "g4m-pf-rms-postffw",
        MoeBuf::Pf(PfBuf::FfwSum),
        lb(l, LayerBuf::PostFfwLn),
        MoeBuf::Pf(PfBuf::Combined),
        m,
    );
    push_residual(
        out,
        "g4m-pf-res-out",
        MoeBuf::Pf(PfBuf::Combined),
        p_in,
        p_out,
        n,
        words,
        l.scalar,
    );
    proof {
        reveal(pf_layer_passes);
    }
    assert(out@ =~= old(out)@ + pf_layer_passes(*p, *l));
}

} // verus!
