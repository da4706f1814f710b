//! The dense and the expert passes of a layer, for one row and for a chunk.
use vstd::prelude::*;
use crate::e4b_emit::F32_ONE;
use crate::moe_attn::{div_up32, groups32, MoeLayer};
use crate::moe_emit::{
    down_combine_pass, gelu_pass, gemv_bf16_pass, gemv_gu_pass, gemv_scaled_pass, gemv_w4_gu_pass,
    gemv_w4_pass, norm_params, norm_pass, norm_uniform, pf_gemm_bf16, pf_gemm_pass, pf_gemv_w4,
    pf_norm, pf_norm_pass, pf_w4_pass, push_gelu, push_gemv_bf16, push_gemv_bf16_alpha,
    push_gemv_bf16_gu_gelu, push_gemv_w4, push_gemv_w4_down_combine, push_gemv_w4_gu_gelu,
    push_norm, w4_rows, MoeExperts, MoeMat, MoePlan,
};
use crate::moe_env::{router_topk_entry, takes_eight_rows, topk_text, W4_GS};
use crate::moe_ir::{
    bind4, bind5, grid1, mb, mbuf, moe_pass, mu, muni, over, LayerBuf, MoeBuf, MoeGrid, MoeList,
    MoeModel, MoeSource, MoeUniform, PfBuf,
};
use crate::parse::text_of;

verus! {

/// The sizes of the feed-forward parts fit the address type.
pub open spec fn ffn_fits(p: MoePlan) -> bool {
    &&& p.d.moe_inter * p.d.hidden <= usize::MAX
    &&& p.d.top_k * p.d.moe_inter <= usize::MAX
    &&& p.d.m * p.d.inter <= usize::MAX
    &&& p.d.m * p.d.top_k <= usize::MAX
    &&& p.d.m * p.d.top_k * p.d.moe_inter <= usize::MAX
}

pub open spec fn dense_mat(p: MoePlan, l: MoeLayer, b: LayerBuf) -> MoeMat {
    if b == LayerBuf::MlpDw {
        MoeMat { buf: l.buf(b), n: p.d.hidden, k: p.d.inter }
    } else {
        MoeMat { buf: l.buf(b), n: p.d.inter, k: p.d.hidden }
    }
}

fn mat(l: &MoeLayer, b: LayerBuf, n: usize, k: usize) -> (r: MoeMat)
    ensures
        r == (MoeMat { buf: l.buf(b), n, k }),
{
    MoeMat { buf: MoeBuf::Layer(l.li, b), n, k }
}

/// The gated dense block of a decode row.
pub open spec fn mlp_passes(p: MoePlan, l: MoeLayer, x: MoeBuf, y: MoeBuf) -> Seq<MoeModel> {
    let wg = dense_mat(p, l, LayerBuf::MlpGw);
    let wu = dense_mat(p, l, LayerBuf::MlpUw);
    let act = l.buf(LayerBuf::MlpAct);
    let gated = if p.sw.grouped {
        seq![gemv_gu_pass(p.sw, "g4m-mlp-gu"@, wg, wu, x, act, "g4m-mlp-gate"@)]
    } else {
        seq![
            gemv_bf16_pass(p.sw, "g4m-mlp-gate"@, wg, x, l.buf(LayerBuf::MlpG)),
            gemv_bf16_pass(p.sw, "g4m-mlp-up"@, wu, x, l.buf(LayerBuf::MlpU)),
            gelu_pass(
                "g4m-mlp-gelu"@,
                l.buf(LayerBuf::MlpG),
                l.buf(LayerBuf::MlpU),
                act,
                p.d.inter as int / 2,
            ),
        ]
    };
    gated.push(gemv_bf16_pass(p.sw, "g4m-mlp-down"@, dense_mat(p, l, LayerBuf::MlpDw), act, y))
}

pub fn build_mlp(out: &mut MoeList, p: &MoePlan, l: &MoeLayer, x: MoeBuf, y: MoeBuf)
    ensures
        final(out)@ == old(out)@ + mlp_passes(*p, *l, x, y),
{
    let wg = mat(l, LayerBuf::MlpGw, p.d.inter, p.d.hidden);
    let wu = mat(l, LayerBuf::MlpUw, p.d.inter, p.d.hidden);
    let wd = mat(l, LayerBuf::MlpDw, p.d.hidden, p.d.inter);
    let act = MoeBuf::Layer(l.li, LayerBuf::MlpAct);
    if p.sw.grouped {
        push_gemv_bf16_gu_gelu(out, &p.sw, "g4m-mlp-gu", &wg, &wu, x, act, "g4m-mlp-gate");
    } else {
        let g = MoeBuf::Layer(l.li, LayerBuf::MlpG);
        let u = MoeBuf::Layer(l.li, LayerBuf::MlpU);
        push_gemv_bf16(out, &p.sw, "g4m-mlp-gate", &wg, x, g);
        push_gemv_bf16(out, &p.sw, "g4m-mlp-up", &wu, x, u);
        push_gelu(out, "g4m-mlp-gelu", g, u, act, p.d.inter / 2);
    }
    push_gemv_bf16(out, &p.sw, "g4m-mlp-down", &wd, act, y);
    assert(out@ =~= old(out)@ + mlp_passes(*p, *l, x, y));
}

/// The gated dense block of a chunk.
pub open spec fn pf_mlp_passes(p: MoePlan, l: MoeLayer, x: MoeBuf, y: MoeBuf) -> Seq<MoeModel> {
    let hw = p.d.hidden as int / 2;
    let iw = p.d.inter as int / 2;
    seq![
        pf_gemm_pass(
            "g4m-pf-mlp-gate"@,
            dense_mat(p, l, LayerBuf::MlpGw),
            x,
            hw,
            MoeBuf::Pf(PfBuf::MlpG),
            iw,
            false,
            F32_ONE,
        ),
        pf_gemm_pass(
            "g4m-pf-mlp-up"@,
            dense_mat(p, l, LayerBuf::MlpUw),
            x,
            hw,
            MoeBuf::Pf(PfBuf::MlpU),
            iw,
            false,
            F32_ONE,
        ),
        gelu_pass(
            "g4m-pf-mlp-gelu"@,
            MoeBuf::Pf(PfBuf::MlpG),
            MoeBuf::Pf(PfBuf::MlpU),
            MoeBuf::Pf(PfBuf::MlpAct),
            p.d.m * p.d.inter / 2,
        ),
        pf_gemm_pass(
            "g4m-pf-mlp-down"@,
            dense_mat(p, l, LayerBuf::MlpDw),
            MoeBuf::Pf(PfBuf::MlpAct),
            iw,
            y,
            hw,
            false,
            F32_ONE,
        ),
    ]
}

pub fn build_mlp_prefill(out: &mut MoeList, p: &MoePlan, l: &MoeLayer, x: MoeBuf, y: MoeBuf)
    requires
        ffn_fits(*p),
    ensures
        final(out)@ == old(out)@ + pf_mlp_passes(*p, *l, x, y),
{
    let hw: usize = p.d.hidden / 2;
    let iw: usize = p.d.inter / 2;
    let wg = mat(l, LayerBuf::MlpGw, p.d.inter, p.d.hidden);
    let wu = mat(l, LayerBuf::MlpUw, p.d.inter, p.d.hidden);
    let wd = mat(l, LayerBuf::MlpDw, p.d.hidden, p.d.inter);
    let g = MoeBuf::Pf(PfBuf::MlpG);
    let u = MoeBuf::Pf(PfBuf::MlpU);
    let act = MoeBuf::Pf(PfBuf::MlpAct);
    pf_gemm_bf16(out, "g4m-pf-mlp-gate", &wg, x, hw, g, iw, false, F32_ONE);
    pf_gemm_bf16(out, "g4m-pf-mlp-up", &wu, x, hw, u, iw, false, F32_ONE);
    push_gelu(out, "g4m-pf-mlp-gelu", g, u, act, p.d.m * p.d.inter / 2);
    pf_gemm_bf16(out, "g4m-pf-mlp-down", &wd, act, iw, y, hw, false, F32_ONE);
    assert(out@ =~= old(out)@ + pf_mlp_passes(*p, *l, x, y));
}

/// The experts' gate (`Eg`), up (`Eu`) or down (`Ed`) matrices of a layer.
pub open spec fn gate_experts(p: MoePlan, l: MoeLayer) -> MoeExperts {
    MoeExperts {
        w: l.buf(LayerBuf::Eg),
        scales: l.buf(LayerBuf::EgScales),
        n: p.d.moe_inter,
        k: p.d.hidden,
    }
}

pub open spec fn up_experts(p: MoePlan, l: MoeLayer) -> MoeExperts {
    MoeExperts {
        w: l.buf(LayerBuf::Eu),
        scales: l.buf(LayerBuf::EuScales),
        n: p.d.moe_inter,
        k: p.d.hidden,
    }
}

pub open spec fn down_experts(p: MoePlan, l: MoeLayer) -> MoeExperts {
    MoeExperts {
        w: l.buf(LayerBuf::Ed),
        scales: l.buf(LayerBuf::EdScales),
        n: p.d.hidden,
        k: p.d.moe_inter,
    }
}

fn experts(p: &MoePlan, l: &MoeLayer) -> (r: (MoeExperts, MoeExperts, MoeExperts))
    requires
        ffn_fits(*p),
    ensures
        r.0 == gate_experts(*p, *l),
        r.1 == up_experts(*p, *l),
        r.2 == down_experts(*p, *l),
        r.0.fits(),
        r.1.fits(),
        r.2.fits(),
{
    assert(p.d.hidden * p.d.moe_inter == p.d.moe_inter * p.d.hidden) by (nonlinear_arith);
    (
        MoeExperts {
            w: MoeBuf::Layer(l.li, LayerBuf::Eg),
            scales: MoeBuf::Layer(l.li, LayerBuf::EgScales),
            n: p.d.moe_inter,
            k: p.d.hidden,
        },
        MoeExperts {
            w: MoeBuf::Layer(l.li, LayerBuf::Eu),
            scales: MoeBuf::Layer(l.li, LayerBuf::EuScales),
            n: p.d.moe_inter,
            k: p.d.hidden,
        },
        MoeExperts {
            w: MoeBuf::Layer(l.li, LayerBuf::Ed),
            scales: MoeBuf::Layer(l.li, LayerBuf::EdScales),
            n: p.d.hidden,
            k: p.d.moe_inter,
        },
    )
}

pub open spec fn router_mat(p: MoePlan, l: MoeLayer) -> MoeMat {
    MoeMat { buf: l.buf(LayerBuf::MoeRouter), n: p.d.n_experts, k: p.d.hidden }
}

/// The choice of a row's experts and of their weights.
pub open spec fn route_passes(p: MoePlan, l: MoeLayer, x_router: MoeBuf) -> Seq<MoeModel> {
    let rin = l.buf(LayerBuf::MoeRin);
    let rscale = l.buf(LayerBuf::MoeRscale);
    let words = p.d.hidden as int / 2;
    let scaled = if p.sw.grouped {
        seq![
            moe_pass(
                "g4m-moe-rnormmul"@,
                MoeSource::Prop,
                "g4m_norm_mul"@,
                seq![
                    mb(0, x_router),
                    mb(1, rscale),
                    mb(2, rin),
                    mu(3, norm_params(p.d.hidden, p.f.eps, 0)),
                ],
                MoeGrid::Dims(1, 1, 1),
            ),
        ]
    } else {
        seq![
            norm_pass(
                p,
                "g4m-moe-rnorm"@,
                x_router,
                l.buf(LayerBuf::MoeOnes),
                l.buf(LayerBuf::MoeRnorm),
            ),
            moe_pass(
                "g4m-moe-rmul"@,
                MoeSource::Moe,
                "g4m_mul_bf16"@,
                seq![
                    mb(40, l.buf(LayerBuf::MoeRnorm)),
                    mb(41, rscale),
                    mb(42, rin),
                    mu(43, MoeUniform::Words { n_words: words as u32 }),
                ],
                over(words, 64),
            ),
        ]
    };
    scaled.push(
        gemv_scaled_pass(
            "g4m-moe-rproj"@,
            router_mat(p, l),
            rin,
            l.buf(LayerBuf::MoeRlogits),
            p.f.router_alpha,
        ),
    ).push(
        moe_pass(
            "g4m-moe-topk"@,
            MoeSource::Moe,
            topk_text(text_of(p.sw.topk), p.d.n_experts as int, p.d.top_k as int),
            seq![
                mb(0, l.buf(LayerBuf::MoeRlogits)),
                mb(1, l.buf(LayerBuf::MoeIds)),
                mb(2, l.buf(LayerBuf::MoeWts)),
                mu(
                    3,
                    MoeUniform::Router { n_experts: p.d.n_experts as u32, k: p.d.top_k as u32 },
                ),
                mb(4, l.buf(LayerBuf::MoePes)),
            ],
            MoeGrid::Dims(1, 1, 1),
        ),
    )
}

fn push_route(out: &mut MoeList, p: &MoePlan, l: &MoeLayer, x_router: MoeBuf)
    ensures
        final(out)@ == old(out)@ + route_passes(*p, *l, x_router),
{
    let rin = MoeBuf::Layer(l.li, LayerBuf::MoeRin);
    let rscale = MoeBuf::Layer(l.li, LayerBuf::MoeRscale);
    let words: usize = p.d.hidden / 2;
    if p.sw.grouped {
        let u = norm_uniform(p.d.hidden, p.f.eps, 0);
        out.push(
            "g4m-moe-rnormmul",
            MoeSource::Prop,
            "g4m_norm_mul",
            bind4(mbuf(0, x_router), mbuf(1, rscale), mbuf(2, rin), muni(3, u)),
            MoeGrid::Dims(1, 1, 1),
        );
    } else {
        let rnorm = MoeBuf::Layer(l.li, LayerBuf::MoeRnorm);
        push_norm(
            out,
            p,
            "g4m-moe-rnorm",
            x_router,
            MoeBuf::Layer(l.li, LayerBuf::MoeOnes),
            rnorm,
        );
        let u = MoeUniform::Words { n_words: words as u32 };
        let grid = grid1(words, 64);
        out.push(
            "g4m-moe-rmul",
            MoeSource::Moe,
            "g4m_mul_bf16",
            bind4(mbuf(40, rnorm), mbuf(41, rscale), mbuf(42, rin), muni(43, u)),
            grid,
        );
    }
    let router = mat(l, LayerBuf::MoeRouter, p.d.n_experts, p.d.hidden);
    let rlogits = MoeBuf::Layer(l.li, LayerBuf::MoeRlogits);
    push_gemv_bf16_alpha(out, "g4m-moe-rproj", &router, rin, rlogits, p.f.router_alpha);
    let u = MoeUniform::Router { n_experts: p.d.n_experts as u32, k: p.d.top_k as u32 };
    out.push(
        "g4m-moe-topk",
        MoeSource::Moe,
        router_topk_entry(p.sw.topk, p.d.n_experts, p.d.top_k),
        bind5(
            mbuf(0, rlogits),
            mbuf(1, MoeBuf::Layer(l.li, LayerBuf::MoeIds)),
            mbuf(2, MoeBuf::Layer(l.li, LayerBuf::MoeWts)),
            muni(3, u),
            mbuf(4, MoeBuf::Layer(l.li, LayerBuf::MoePes)),
        ),
        MoeGrid::Dims(1, 1, 1),
    );
    assert(out@ =~= old(out)@ + route_passes(*p, *l, x_router));
}

/// The work of the chosen experts on a row and the weighted sum of their outputs.
pub open spec fn expert_passes(p: MoePlan, l: MoeLayer, x: MoeBuf, y: MoeBuf) -> Seq<MoeModel> {
    let ids = l.buf(LayerBuf::MoeIds);
    let wts = l.buf(LayerBuf::MoeWts);
    let act = l.buf(LayerBuf::MoeAct);
    let eg = gate_experts(p, l);
    let eu = up_experts(p, l);
    let ed = down_experts(p, l);
    let k = p.d.top_k as int;
    let hw = p.d.hidden as int / 2;
    let gated = if p.sw.grouped {
        seq![gemv_w4_gu_pass(p.sw, "g4m-moe-gu"@, eg, eu, x, act, ids, k)]
    } else {
        seq![
            gemv_w4_pass(p.sw, "g4m-moe-gate"@, eg, x, l.buf(LayerBuf::YGate), ids, k, false),
            gemv_w4_pass(p.sw, "g4m-moe-up"@, eu, x, l.buf(LayerBuf::YUp), ids, k, false),
            gelu_pass(
                "g4m-moe-gelu"@,
                l.buf(LayerBuf::YGate),
                l.buf(LayerBuf::YUp),
                act,
                p.d.top_k * p.d.moe_inter / 2,
            ),
        ]
    };
    if p.sw.grouped && w4_rows(p.sw, ed) == 8 {
        gated.push(down_combine_pass("g4m-moe-downcomb"@, ed, act, y, ids, wts, k))
    } else {
        gated.push(
            gemv_w4_pass(p.sw, "g4m-moe-down"@, ed, act, l.buf(LayerBuf::YDown), ids, k, true),
        ).push(
            moe_pass(
                "g4m-moe-combine"@,
                MoeSource::Moe,
                "g4m_moe_combine"@,
                seq![
                    mb(20, l.buf(LayerBuf::YDown)),
                    mb(21, wts),
                    mb(22, y),
                    mu(
                        23,
                        MoeUniform::Combine {
                            hidden_words: hw as u32,
                            k: k as u32,
                            slot_stride_words: hw as u32,
                        },
                    ),
                ],
                over(hw, 64),
            ),
        )
    }
}

fn push_experts(out: &mut MoeList, p: &MoePlan, l: &MoeLayer, x: MoeBuf, y: MoeBuf)
    requires
        ffn_fits(*p),
    ensures
        final(out)@ == old(out)@ + expert_passes(*p, *l, x, y),
{
    let ids = MoeBuf::Layer(l.li, LayerBuf::MoeIds);
    let wts = MoeBuf::Layer(l.li, LayerBuf::MoeWts);
    let act = MoeBuf::Layer(l.li, LayerBuf::MoeAct);
    let (eg, eu, ed) = experts(p, l);
    let k: usize = p.d.top_k;
    let hw: usize = p.d.hidden / 2;
    if p.sw.grouped {
        push_gemv_w4_gu_gelu(out, &p.sw, "g4m-moe-gu", &eg, &eu, x, act, ids, k);
    } else {
        let g = MoeBuf::Layer(l.li, LayerBuf::YGate);
        let u = MoeBuf::Layer(l.li, LayerBuf::YUp);
        push_gemv_w4(out, &p.sw, "g4m-moe-gate", &eg, x, g, ids, k, false);
        push_gemv_w4(out, &p.sw, "g4m-moe-up", &eu, x, u, ids, k, false);
        push_gelu(out, "g4m-moe-gelu", g, u, act, k * p.d.moe_inter / 2);
    }
    if p.sw.grouped && takes_eight_rows(p.sw.w4, ed.k / W4_GS, ed.n) {
        push_gemv_w4_down_combine(out, &p.sw, "g4m-moe-downcomb", &ed, act, y, ids, wts, k);
    } else {
        let yd = MoeBuf::Layer(l.li, LayerBuf::YDown);
        push_gemv_w4(out, &p.sw, "g4m-moe-down", &ed, act, yd, ids, k, true);
        let u = MoeUniform::Combine {
            hidden_words: hw as u32,
            k: k as u32,
            slot_stride_words: hw as u32,
        };
        let grid = grid1(hw, 64);
        out.push(
            "g4m-moe-combine",
            MoeSource::Moe,
            "g4m_moe_combine",
            bind4(mbuf(20, yd), mbuf(21, wts), mbuf(22, y), muni(23, u)),
            grid,
        );
    }
    assert(out@ =~= old(out)@ + expert_passes(*p, *l, x, y));
}

/// The expert block of a decode row. The router reads the residual itself.
pub open spec fn moe_passes(p: MoePlan, l: MoeLayer, x_router: MoeBuf, x: MoeBuf, y: MoeBuf) -> Seq<
    MoeModel,
> {
    route_passes(p, l, x_router) + expert_passes(p, l, x, y)
}

pub fn build_moe(
    out: &mut MoeList,
    p: &MoePlan,
    l: &MoeLayer,
    x_router: MoeBuf,
    x: MoeBuf,
    y: MoeBuf,
)
    requires
        ffn_fits(*p),
    ensures
        final(out)@ == old(out)@ + moe_passes(*p, *l, x_router, x, y),
{
    push_route(out, p, l, x_router);
    push_experts(out, p, l, x, y);
    assert(out@ =~= old(out)@ + moe_passes(*p, *l, x_router, x, y));
}

/// The expert block of a chunk.
pub open spec fn pf_moe_passes(p: MoePlan, l: MoeLayer, x_router: MoeBuf, x: MoeBuf, y: MoeBuf) -> Seq<
    MoeModel,
> {
    let m = p.d.m;
    let hw = p.d.hidden as int / 2;
    let k = p.d.top_k as int;
    let slots = p.d.m * p.d.top_k;
    let ids = MoeBuf::Pf(PfBuf::Ids);
    seq![
        pf_norm_pass(
            p,
            "g4m-pf-moe-rnorm"@,
            x_router,
            l.buf(LayerBuf::MoeOnes),
            MoeBuf::Pf(PfBuf::Rnormed),
            m as int,
        ),
        moe_pass(
            "g4m-pf-moe-rmul"@,
            MoeSource::Prefill,
            "pm_mul_rowscale"@,
            seq![
                mb(90, MoeBuf::Pf(PfBuf::Rnormed)),
                mb(91, l.buf(LayerBuf::MoeRscale)),
                mb(92, MoeBuf::Pf(PfBuf::RouterIn)),
                mu(93, MoeUniform::PfMul { row_words: hw as u32, m: m as u32 }),
            ],
            MoeGrid::Dims(groups32(hw as u32, 64), m as u32, 1),
        ),
        pf_gemm_pass(
            "g4m-pf-moe-rproj"@,
            router_mat(p, l),
            MoeBuf::Pf(PfBuf::RouterIn),
            hw,
            MoeBuf::Pf(PfBuf::Rlogits),
            p.d.n_experts as int,
            true,
            p.f.router_alpha,
        ),
        moe_pass(
            "g4m-pf-moe-topk"@,
            MoeSource::Prefill,
            "pm_router_topk"@,
            seq![
                mb(60, MoeBuf::Pf(PfBuf::Rlogits)),
                mb(61, ids),
                mb(62, MoeBuf::Pf(PfBuf::Wts)),
                mu(
                    63,
                    MoeUniform::PfRouter {
                        n_experts: p.d.n_experts as u32,
                        k: k as u32,
                        m: m as u32,
                    },
                ),
                mb(64, l.buf(LayerBuf::MoePes)),
            ],
            MoeGrid::Dims(m as u32, 1, 1),
        ),
        pf_w4_pass(
            "g4m-pf-moe-gate"@,
            gate_experts(p, l),
            x,
            hw,
            0,
            MoeBuf::Pf(PfBuf::YGate),
            ids,
            slots,
            k,
        ),
        pf_w4_pass(
            "g4m-pf-moe-up"@,
            up_experts(p, l),
            x,
            hw,
            0,
            MoeBuf::Pf(PfBuf::YUp),
            ids,
            slots,
            k,
        ),
        gelu_pass(
            "g4m-pf-moe-gelu"@,
            MoeBuf::Pf(PfBuf::YGate),
            MoeBuf::Pf(PfBuf::YUp),
            MoeBuf::Pf(PfBuf::MoeAct),
            slots * p.d.moe_inter / 2,
        ),
        pf_w4_pass(
            "g4m-pf-moe-down"@,
            down_experts(p, l),
            MoeBuf::Pf(PfBuf::MoeAct),
            0,
            p.d.moe_inter as int / 2,
            MoeBuf::Pf(PfBuf::YDown),
            ids,
            slots,
            k,
        ),
        moe_pass(
            "g4m-pf-moe-combine"@,
            MoeSource::Prefill,
            "pm_moe_combine"@,
            seq![
                mb(80, MoeBuf::Pf(PfBuf::YDown)),
                mb(81, MoeBuf::Pf(PfBuf::Wts)),
                mb(82, y),
                mu(
                    83,
                    MoeUniform::PfCombine {
                        hidden_words: hw as u32,
                        k: k as u32,
                        slot_stride_words: hw as u32,
                        m: m as u32,
                    },
                ),
            ],
            MoeGrid::Dims(groups32(hw as u32, 64), m as u32, 1),
        ),
    ]
}

pub fn build_moe_prefill(
    out: &mut MoeList,
    p: &MoePlan,
    l: &MoeLayer,
    x_router: MoeBuf,
    x: MoeBuf,
    y: MoeBuf,
)
    requires
        ffn_fits(*p),
    ensures
        final(out)@ == old(out)@ + pf_moe_passes(*p, *l, x_router, x, y),
{
    let m: usize = p.d.m;
    let hw: usize = p.d.hidden / 2;
    let k: usize = p.d.top_k;
    let ids = MoeBuf::Pf(PfBuf::Ids);
    let (eg, eu, ed) = experts(p, l);
    pf_norm(
        out,
        p,
        "g4m-pf-moe-rnorm",
        x_router,
        MoeBuf::Layer(l.li, LayerBuf::MoeOnes),
        MoeBuf::Pf(PfBuf::Rnormed),
        m,
    );
    let gx: u32 = div_up32(hw as u32, 64);
    let mul = MoeUniform::PfMul { row_words: hw as u32, m: m as u32 };
    out.push(
        "g4m-pf-moe-rmul",
        MoeSource::Prefill,
        "pm_mul_rowscale",
        bind4(
            mbuf(90, MoeBuf::Pf(PfBuf::Rnormed)),
            mbuf(91, MoeBuf::Layer(l.li, LayerBuf::MoeRscale)),
            mbuf(92, MoeBuf::Pf(PfBuf::RouterIn)),
            muni(93, mul),
        ),
        MoeGrid::Dims(gx, m as u32, 1),
    );
    let router = mat(l, LayerBuf::MoeRouter, p.d.n_experts, p.d.hidden);
    pf_gemm_bf16(
        out,
        "g4m-pf-moe-rproj",
        &router,
        MoeBuf::Pf(PfBuf::RouterIn),
        hw,
        MoeBuf::Pf(PfBuf::Rlogits),
        p.d.n_experts,
        true,
        p.f.router_alpha,
    );
    let ru = MoeUniform::PfRouter { n_experts: p.d.n_experts as u32, k: k as u32, m: m as u32 };
    out.push(
        "g4m-pf-moe-topk",
        MoeSource::Prefill,
        "pm_router_topk",
        bind5(
            mbuf(60, MoeBuf::Pf(PfBuf::Rlogits)),
            mbuf(61, ids),
            mbuf(62, MoeBuf::Pf(PfBuf::Wts)),
            muni(63, ru),
            mbuf(64, MoeBuf::Layer(l.li, LayerBuf::MoePes)),
        ),
        MoeGrid::Dims(m as u32, 1, 1),
    );
    let slots: usize = m * k;
    let g = MoeBuf::Pf(PfBuf::YGate);
    let u = MoeBuf::Pf(PfBuf::YUp);
    let act = MoeBuf::Pf(PfBuf::MoeAct);
    pf_gemv_w4(out, "g4m-pf-moe-gate", &eg, x, hw, 0, g, ids, slots, k);
    pf_gemv_w4(out, "g4m-pf-moe-up", &eu, x, hw, 0, u, ids, slots, k);
    push_gelu(out, "g4m-pf-moe-gelu", g, u, act, slots * p.d.moe_inter / 2);
    pf_gemv_w4(
        out,
        "g4m-pf-moe-down",
        &ed,
        act,
        0,
        p.d.moe_inter / 2,
        MoeBuf::Pf(PfBuf::YDown),
        ids,
        slots,
        k,
    );
    let cu = MoeUniform::PfCombine {
        hidden_words: hw as u32,
        k: k as u32,
        slot_stride_words: hw as u32,
        m: m as u32,
    };
    out.push(
        "g4m-pf-moe-combine",
        MoeSource::Prefill,
        "pm_moe_combine",
        bind4(
            mbuf(80, MoeBuf::Pf(PfBuf::YDown)),
            mbuf(81, MoeBuf::Pf(PfBuf::Wts)),
            mbuf(82, y),
            muni(83, cu),
        ),
        MoeGrid::Dims(gx, m as u32, 1),
    );
    assert(out@ =~= old(out)@ + pf_moe_passes(*p, *l, x_router, x, y));
}

} // verus!
