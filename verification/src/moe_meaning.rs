//! What the blocks of a mixture-of-experts layer compute, and that their passes compute it: for a
//! decode row, grouped or not, and for the rows of a chunk alike.
use vstd::prelude::*;
use crate::e4b_emit::F32_ONE;
use crate::moe_attn::MoeLayer;
use crate::moe_emit::{gemv_w4_pass, w4_rows, MoePlan};
use crate::moe_ffn::{
    dense_mat, down_experts, expert_passes, gate_experts, mlp_passes, moe_passes, pf_mlp_passes,
    pf_moe_passes, route_passes, router_mat, up_experts,
};
use crate::moe_ir::{mb, moe_pass, mu, over, LayerBuf, MoeBuf, MoeModel, MoeSource, MoeUniform, PfBuf};
use crate::moe_steps::{
    expert, lemma_even, lemma_run2, lemma_run3, lemma_run4, product, step_down_combine, step_gelu,
    step_gemv, step_gemv_gu, step_gemv_scaled, step_norm, step_pf_gemm, step_pf_norm, step_pf_w4,
    step_w4, step_w4_gu, whole,
};
use crate::moe_values::{
    chosen, kernel_of, lemma_kernels, lemma_moe_kernels, lemma_prefill_kernels, lemma_run_cat,
    lemma_run_push, of1, of2, run, step, width_of, Kernel, Op, State, Val,
};

verus! {

/// The sizes that kernels read fit their words, and rows are whole words.
pub open spec fn sized(p: MoePlan, l: MoeLayer) -> bool {
    &&& p.d.hidden > 0 && p.d.hidden % 32 == 0
    &&& p.d.inter % 2 == 0
    &&& p.d.moe_inter > 0 && p.d.moe_inter % 32 == 0
    &&& l.hd % 2 == 0
    &&& l.n_kv > 0
    &&& l.fits(p)
    &&& p.d.hidden <= u32::MAX
    &&& p.d.inter <= u32::MAX
    &&& p.d.moe_inter <= u32::MAX
    &&& p.d.m <= u32::MAX
    &&& p.d.top_k <= u32::MAX
    &&& p.d.n_experts <= u32::MAX
    &&& p.d.n_q + 2 * l.n_kv <= u32::MAX
    &&& (p.d.n_q + 2 * l.n_kv) * l.hd <= u32::MAX
    &&& p.d.m * (p.d.n_q * l.hd) <= u32::MAX
    &&& p.d.m * l.n_kv <= u32::MAX
    &&& p.d.m * p.d.hidden <= u32::MAX
    &&& p.d.m * p.d.inter <= u32::MAX
    &&& p.d.moe_inter * p.d.hidden <= u32::MAX
    &&& p.d.top_k * p.d.moe_inter <= u32::MAX
    &&& p.d.m * p.d.top_k <= u32::MAX
    &&& p.d.m * p.d.top_k * p.d.moe_inter <= u32::MAX
}

/// The dense block: down(gelu(gate x) * (up x)).
pub open spec fn dense(s: State, p: MoePlan, l: MoeLayer, x: Val) -> Val {
    let gate = product(s[l.buf(LayerBuf::MlpGw)], x, p.d.inter, p.d.hidden);
    let up = product(s[l.buf(LayerBuf::MlpUw)], x, p.d.inter, p.d.hidden);
    product(s[l.buf(LayerBuf::MlpDw)], of2(Op::Gelu, gate, up), p.d.hidden, p.d.inter)
}

/// A buffer of the dense block's own, for a decode row.
pub open spec fn mlp_scratch(l: MoeLayer, b: MoeBuf) -> bool {
    b == l.buf(LayerBuf::MlpG) || b == l.buf(LayerBuf::MlpU) || b == l.buf(LayerBuf::MlpAct)
}

pub open spec fn pf_mlp_scratch(b: MoeBuf) -> bool {
    b == MoeBuf::Pf(PfBuf::MlpG) || b == MoeBuf::Pf(PfBuf::MlpU) || b == MoeBuf::Pf(PfBuf::MlpAct)
}

/// Running the dense block of a decode row, grouped or not, leaves its value.
pub proof fn law_mlp(s: State, p: MoePlan, l: MoeLayer, x: MoeBuf, y: MoeBuf)
    requires
        sized(p, l),
        !mlp_scratch(l, x),
        !mlp_scratch(l, y),
    ensures
        run(s, mlp_passes(p, l, x, y), 1)[y] == dense(s, p, l, s[x]),
        forall|b: MoeBuf|
            !mlp_scratch(l, b) && b != y ==> #[trigger] run(s, mlp_passes(p, l, x, y), 1)[b] == s[b],
{
    let ps = mlp_passes(p, l, x, y);
    let wg = dense_mat(p, l, LayerBuf::MlpGw);
    let wu = dense_mat(p, l, LayerBuf::MlpUw);
    let wd = dense_mat(p, l, LayerBuf::MlpDw);
    let act = l.buf(LayerBuf::MlpAct);
    let g = l.buf(LayerBuf::MlpG);
    let u = l.buf(LayerBuf::MlpU);
    if p.sw.grouped {
        lemma_run2(s, ps[0], ps[1], 1);
        assert(ps =~= seq![ps[0], ps[1]]);
        step_gemv_gu(s, p.sw, "g4m-mlp-gu"@, wg, wu, x, act, "g4m-mlp-gate"@);
        step_gemv(step(s, ps[0], 1), p.sw, "g4m-mlp-down"@, wd, act, y);
    } else {
        lemma_run4(s, ps[0], ps[1], ps[2], ps[3], 1);
        assert(ps =~= seq![ps[0], ps[1], ps[2], ps[3]]);
        step_gemv(s, p.sw, "g4m-mlp-gate"@, wg, x, g);
        let s1 = step(s, ps[0], 1);
        step_gemv(s1, p.sw, "g4m-mlp-up"@, wu, x, u);
        let s2 = step(s1, ps[1], 1);
        step_gelu(s2, "g4m-mlp-gelu"@, g, u, act, p.d.inter as int / 2, 1);
        step_gemv(step(s2, ps[2], 1), p.sw, "g4m-mlp-down"@, wd, act, y);
    }
}

/// Running the dense block of a chunk leaves the value of every row.
pub proof fn law_pf_mlp(s: State, p: MoePlan, l: MoeLayer, x: MoeBuf, y: MoeBuf)
    requires
        sized(p, l),
        !pf_mlp_scratch(x),
        !pf_mlp_scratch(y),
    ensures
        run(s, pf_mlp_passes(p, l, x, y), p.d.m as int)[y] == dense(s, p, l, s[x]),
        forall|b: MoeBuf|
            !pf_mlp_scratch(b) && b != y ==> #[trigger] run(
                s,
                pf_mlp_passes(p, l, x, y),
                p.d.m as int,
            )[b] == s[b],
{
    let ps = pf_mlp_passes(p, l, x, y);
    let m = p.d.m as int;
    let hw = p.d.hidden as int / 2;
    let iw = p.d.inter as int / 2;
    let wg = dense_mat(p, l, LayerBuf::MlpGw);
    let wu = dense_mat(p, l, LayerBuf::MlpUw);
    let wd = dense_mat(p, l, LayerBuf::MlpDw);
    let g = MoeBuf::Pf(PfBuf::MlpG);
    let u = MoeBuf::Pf(PfBuf::MlpU);
    let act = MoeBuf::Pf(PfBuf::MlpAct);
    lemma_even(m, p.d.inter as int);
    lemma_run4(s, ps[0], ps[1], ps[2], ps[3], m);
    assert(ps =~= seq![ps[0], ps[1], ps[2], ps[3]]);
    step_pf_gemm(s, "g4m-pf-mlp-gate"@, wg, x, hw, g, iw, false, F32_ONE, m);
    let s1 = step(s, ps[0], m);
    step_pf_gemm(s1, "g4m-pf-mlp-up"@, wu, x, hw, u, iw, false, F32_ONE, m);
    let s2 = step(s1, ps[1], m);
    step_gelu(s2, "g4m-pf-mlp-gelu"@, g, u, act, p.d.m * p.d.inter / 2, m);
    step_pf_gemm(step(s2, ps[2], m), "g4m-pf-mlp-down"@, wd, act, iw, y, hw, false, F32_ONE, m);
}

/// The router's logits: the row at unit size, times the router's scale, times its matrix.
pub open spec fn route_logits(s: State, p: MoePlan, l: MoeLayer, x: Val) -> Val {
    let unit = of1(Op::UnitNorm { width: p.d.hidden as u32, eps: p.f.eps }, x);
    let scaled = of2(Op::Times, unit, s[l.buf(LayerBuf::MoeRscale)]);
    of2(
        Op::Product {
            n: p.d.n_experts as u32,
            k: (p.d.hidden / 2) as u32,
            alpha: p.f.router_alpha,
            full: true,
        },
        s[l.buf(LayerBuf::MoeRouter)],
        scaled,
    )
}

/// The experts that a row is given to.
pub open spec fn route_ids(s: State, p: MoePlan, l: MoeLayer, x: Val) -> Val {
    of1(
        Op::TopIds { n: p.d.n_experts as u32, k: p.d.top_k as u32 },
        route_logits(s, p, l, x),
    )
}

/// Their weights, each times the expert's own factor.
pub open spec fn route_weights(s: State, p: MoePlan, l: MoeLayer, x: Val) -> Val {
    of2(
        Op::TopWeights { n: p.d.n_experts as u32, k: p.d.top_k as u32 },
        route_logits(s, p, l, x),
        s[l.buf(LayerBuf::MoePes)],
    )
}

/// The chosen experts' down(gelu(gate x) * (up x)), weighted and added up.
pub open spec fn expert_sum(s: State, p: MoePlan, l: MoeLayer, x: Val, ids: Val, wts: Val) -> Val {
    let gate = expert(
        s[l.buf(LayerBuf::Eg)],
        s[l.buf(LayerBuf::EgScales)],
        x,
        ids,
        p.d.moe_inter,
        p.d.hidden,
        false,
    );
    let up = expert(
        s[l.buf(LayerBuf::Eu)],
        s[l.buf(LayerBuf::EuScales)],
        x,
        ids,
        p.d.moe_inter,
        p.d.hidden,
        false,
    );
    let down = expert(
        s[l.buf(LayerBuf::Ed)],
        s[l.buf(LayerBuf::EdScales)],
        of2(Op::Gelu, gate, up),
        ids,
        p.d.hidden,
        p.d.moe_inter,
        true,
    );
    of2(Op::Combine { width: p.d.hidden as u32, k: p.d.top_k as u32 }, down, wts)
}

/// The expert block: a row `x` through the experts that the router chooses from `r`.
pub open spec fn routed(s: State, p: MoePlan, l: MoeLayer, r: Val, x: Val) -> Val {
    expert_sum(s, p, l, x, route_ids(s, p, l, r), route_weights(s, p, l, r))
}

pub open spec fn route_scratch(l: MoeLayer, b: MoeBuf) -> bool {
    ||| b == l.buf(LayerBuf::MoeRin)
    ||| b == l.buf(LayerBuf::MoeRnorm)
    ||| b == l.buf(LayerBuf::MoeRlogits)
    ||| b == l.buf(LayerBuf::MoeIds)
    ||| b == l.buf(LayerBuf::MoeWts)
}

pub open spec fn expert_scratch(l: MoeLayer, b: MoeBuf) -> bool {
    ||| b == l.buf(LayerBuf::YGate)
    ||| b == l.buf(LayerBuf::YUp)
    ||| b == l.buf(LayerBuf::MoeAct)
    ||| b == l.buf(LayerBuf::YDown)
}

/// The router of a decode row, grouped or not, leaves its choice and the weights.
pub proof fn law_route(s: State, p: MoePlan, l: MoeLayer, r: MoeBuf)
    requires
        sized(p, l),
        s[l.buf(LayerBuf::MoeOnes)] == Val::Ones,
        !route_scratch(l, r),
    ensures
        ({
            let t = run(s, route_passes(p, l, r), 1);
            &&& t[l.buf(LayerBuf::MoeIds)] == route_ids(s, p, l, s[r])
            &&& t[l.buf(LayerBuf::MoeWts)] == route_weights(s, p, l, s[r])
            &&& forall|b: MoeBuf| !route_scratch(l, b) ==> #[trigger] t[b] == s[b]
        }),
{
    let ps = route_passes(p, l, r);
    let rin = l.buf(LayerBuf::MoeRin);
    if p.sw.grouped {
        lemma_run3(s, ps[0], ps[1], ps[2], 1);
        assert(ps =~= seq![ps[0], ps[1], ps[2]]);
        step_norm_mul(s, p, l, r);
        let s1 = step(s, ps[0], 1);
        lemma_route_tail(s1, p, l);
    } else {
        lemma_run4(s, ps[0], ps[1], ps[2], ps[3], 1);
        assert(ps =~= seq![ps[0], ps[1], ps[2], ps[3]]);
        step_norm(
            s,
            p,
            "g4m-moe-rnorm"@,
            r,
            l.buf(LayerBuf::MoeOnes),
            l.buf(LayerBuf::MoeRnorm),
        );
        let s1 = step(s, ps[0], 1);
        step_mul(s1, p, l, ps[1]);
        lemma_route_tail(step(s1, ps[1], 1), p, l);
    }
}

/// The router's row at unit size, times its scale, in one pass.
proof fn step_norm_mul(s: State, p: MoePlan, l: MoeLayer, r: MoeBuf)
    requires
        sized(p, l),
        p.sw.grouped,
    ensures
        step(s, route_passes(p, l, r)[0], 1) == s.insert(
            l.buf(LayerBuf::MoeRin),
            of2(
                Op::Times,
                of1(Op::UnitNorm { width: p.d.hidden as u32, eps: p.f.eps }, s[r]),
                s[l.buf(LayerBuf::MoeRscale)],
            ),
        ),
{
    reveal(step);
    lemma_kernels();
}

proof fn step_mul(s: State, p: MoePlan, l: MoeLayer, q: MoeModel)
    requires
        sized(p, l),
        !p.sw.grouped,
        exists|r: MoeBuf| q == #[trigger] route_passes(p, l, r)[1],
        width_of(s[l.buf(LayerBuf::MoeRnorm)]) == Some(p.d.hidden as int),
    ensures
        step(s, q, 1) == s.insert(
            l.buf(LayerBuf::MoeRin),
            of2(Op::Times, s[l.buf(LayerBuf::MoeRnorm)], s[l.buf(LayerBuf::MoeRscale)]),
        ),
{
    reveal(step);
    lemma_moe_kernels();
}

/// The logits and the choice, from the scaled row.
proof fn lemma_route_tail(s: State, p: MoePlan, l: MoeLayer)
    requires
        sized(p, l),
    ensures
        forall|r: MoeBuf|
            ({
                let ps = #[trigger] route_passes(p, l, r);
                let n = ps.len() as int;
                let t = step(step(s, ps[n - 2], 1), ps[n - 1], 1);
                let logits = of2(
                    Op::Product {
                        n: p.d.n_experts as u32,
                        k: (p.d.hidden / 2) as u32,
                        alpha: p.f.router_alpha,
                        full: true,
                    },
                    s[l.buf(LayerBuf::MoeRouter)],
                    s[l.buf(LayerBuf::MoeRin)],
                );
                t == s.insert(l.buf(LayerBuf::MoeRlogits), logits).insert(
                    l.buf(LayerBuf::MoeIds),
                    of1(Op::TopIds { n: p.d.n_experts as u32, k: p.d.top_k as u32 }, logits),
                ).insert(
                    l.buf(LayerBuf::MoeWts),
                    of2(
                        Op::TopWeights { n: p.d.n_experts as u32, k: p.d.top_k as u32 },
                        logits,
                        s[l.buf(LayerBuf::MoePes)],
                    ),
                )
            }),
{
    assert forall|r: MoeBuf|
        ({
            let ps = #[trigger] route_passes(p, l, r);
            let n = ps.len() as int;
            let t = step(step(s, ps[n - 2], 1), ps[n - 1], 1);
            let logits = of2(
                Op::Product {
                    n: p.d.n_experts as u32,
                    k: (p.d.hidden / 2) as u32,
                    alpha: p.f.router_alpha,
                    full: true,
                },
                s[l.buf(LayerBuf::MoeRouter)],
                s[l.buf(LayerBuf::MoeRin)],
            );
            t == s.insert(l.buf(LayerBuf::MoeRlogits), logits).insert(
                l.buf(LayerBuf::MoeIds),
                of1(Op::TopIds { n: p.d.n_experts as u32, k: p.d.top_k as u32 }, logits),
            ).insert(
                l.buf(LayerBuf::MoeWts),
                of2(
                    Op::TopWeights { n: p.d.n_experts as u32, k: p.d.top_k as u32 },
                    logits,
                    s[l.buf(LayerBuf::MoePes)],
                ),
            )
        }) by {
        let ps = route_passes(p, l, r);
        let n = ps.len() as int;
        step_gemv_scaled(
            s,
            "g4m-moe-rproj"@,
            router_mat(p, l),
            l.buf(LayerBuf::MoeRin),
            l.buf(LayerBuf::MoeRlogits),
            p.f.router_alpha,
        );
        let s1 = step(s, ps[n - 2], 1);
        reveal(step);
        lemma_moe_kernels();
        assert(kernel_of(ps[n - 1]) == Kernel::TopK);
    }
}

/// The experts of a decode row, grouped or not, leave their weighted sum.
pub proof fn law_experts(s: State, p: MoePlan, l: MoeLayer, x: MoeBuf, y: MoeBuf)
    requires
        sized(p, l),
        !expert_scratch(l, x),
        !expert_scratch(l, y),
        y != l.buf(LayerBuf::MoeIds),
        y != l.buf(LayerBuf::MoeWts),
        chosen(s[l.buf(LayerBuf::MoeIds)]) == Some(p.d.top_k as int),
    ensures
        ({
            let t = run(s, expert_passes(p, l, x, y), 1);
            &&& t[y] == expert_sum(
                s,
                p,
                l,
                s[x],
                s[l.buf(LayerBuf::MoeIds)],
                s[l.buf(LayerBuf::MoeWts)],
            )
            &&& forall|b: MoeBuf| !expert_scratch(l, b) && b != y ==> #[trigger] t[b] == s[b]
        }),
{
    let eg = gate_experts(p, l);
    let eu = up_experts(p, l);
    let ed = down_experts(p, l);
    let ids = l.buf(LayerBuf::MoeIds);
    let wts = l.buf(LayerBuf::MoeWts);
    let g = l.buf(LayerBuf::YGate);
    let u = l.buf(LayerBuf::YUp);
    let act = l.buf(LayerBuf::MoeAct);
    let k = p.d.top_k as int;
    let ps = expert_passes(p, l, x, y);
    lemma_whole(p, l);
    lemma_even(k, p.d.moe_inter as int);
    assert(p.d.moe_inter * p.d.top_k == p.d.top_k * p.d.moe_inter) by (nonlinear_arith);
    if p.sw.grouped {
        step_w4_gu(s, p.sw, "g4m-moe-gu"@, eg, eu, x, act, ids, k);
        let s1 = step(s, ps[0], 1);
        if w4_rows(p.sw, ed) == 8 {
            lemma_run2(s, ps[0], ps[1], 1);
            assert(ps =~= seq![ps[0], ps[1]]);
            step_down_combine(s1, "g4m-moe-downcomb"@, ed, act, y, ids, wts, k);
        } else {
            lemma_run3(s, ps[0], ps[1], ps[2], 1);
            assert(ps =~= seq![ps[0], ps[1], ps[2]]);
            lemma_down(s1, p, l, ps[1], ps[2], y);
        }
    } else {
        let head = seq![ps[0], ps[1], ps[2], ps[3]];
        lemma_run4(s, ps[0], ps[1], ps[2], ps[3], 1);
        lemma_run_push(s, head, ps[4], 1);
        assert(ps =~= head.push(ps[4]));
        step_w4(s, p.sw, "g4m-moe-gate"@, eg, x, g, ids, k, false);
        let s1 = step(s, ps[0], 1);
        step_w4(s1, p.sw, "g4m-moe-up"@, eu, x, u, ids, k, false);
        let s2 = step(s1, ps[1], 1);
        step_gelu(s2, "g4m-moe-gelu"@, g, u, act, p.d.top_k * p.d.moe_inter / 2, 1);
        lemma_down(step(s2, ps[2], 1), p, l, ps[3], ps[4], y);
    }
}

proof fn lemma_whole(p: MoePlan, l: MoeLayer)
    requires
        sized(p, l),
    ensures
        whole(gate_experts(p, l)),
        whole(up_experts(p, l)),
        whole(down_experts(p, l)),
        p.d.moe_inter > 0,
        p.d.hidden > 0,
{
    assert(p.d.hidden * p.d.moe_inter == p.d.moe_inter * p.d.hidden) by (nonlinear_arith);
}

/// The experts' down products and their weighted sum.
proof fn lemma_down(s: State, p: MoePlan, l: MoeLayer, a: MoeModel, b: MoeModel, y: MoeBuf)
    requires
        sized(p, l),
        chosen(s[l.buf(LayerBuf::MoeIds)]) == Some(p.d.top_k as int),
        a == gemv_w4_pass(
            p.sw,
            "g4m-moe-down"@,
            down_experts(p, l),
            l.buf(LayerBuf::MoeAct),
            l.buf(LayerBuf::YDown),
            l.buf(LayerBuf::MoeIds),
            p.d.top_k as int,
            true,
        ),
        b == combine_pass(p, l, y),
    ensures
        ({
            let down = expert(
                s[l.buf(LayerBuf::Ed)],
                s[l.buf(LayerBuf::EdScales)],
                s[l.buf(LayerBuf::MoeAct)],
                s[l.buf(LayerBuf::MoeIds)],
                p.d.hidden,
                p.d.moe_inter,
                true,
            );
            step(step(s, a, 1), b, 1) == s.insert(l.buf(LayerBuf::YDown), down).insert(
                y,
                of2(
                    Op::Combine { width: p.d.hidden as u32, k: p.d.top_k as u32 },
                    down,
                    s[l.buf(LayerBuf::MoeWts)],
                ),
            )
        }),
{
    lemma_whole(p, l);
    step_w4(
        s,
        p.sw,
        "g4m-moe-down"@,
        down_experts(p, l),
        l.buf(LayerBuf::MoeAct),
        l.buf(LayerBuf::YDown),
        l.buf(LayerBuf::MoeIds),
        p.d.top_k as int,
        true,
    );
    reveal(step);
    lemma_moe_kernels();
}

pub open spec fn combine_pass(p: MoePlan, l: MoeLayer, y: MoeBuf) -> MoeModel {
    let hw = p.d.hidden as int / 2;
    moe_pass(
        "g4m-moe-combine"@,
        MoeSource::Moe,
        "g4m_moe_combine"@,
        seq![
            mb(20, l.buf(LayerBuf::YDown)),
            mb(21, l.buf(LayerBuf::MoeWts)),
            mb(22, y),
            mu(
                23,
                MoeUniform::Combine {
                    hidden_words: hw as u32,
                    k: p.d.top_k as u32,
                    slot_stride_words: hw as u32,
                },
            ),
        ],
        over(hw, 64),
    )
}

/// The expert block of a decode row leaves its value.
pub proof fn law_moe(s: State, p: MoePlan, l: MoeLayer, r: MoeBuf, x: MoeBuf, y: MoeBuf)
    requires
        sized(p, l),
        s[l.buf(LayerBuf::MoeOnes)] == Val::Ones,
        !route_scratch(l, r),
        !route_scratch(l, x) && !expert_scratch(l, x),
        !route_scratch(l, y) && !expert_scratch(l, y),
    ensures
        ({
            let t = run(s, moe_passes(p, l, r, x, y), 1);
            &&& t[y] == routed(s, p, l, s[r], s[x])
            &&& forall|b: MoeBuf|
                !route_scratch(l, b) && !expert_scratch(l, b) && b != y ==> #[trigger] t[b] == s[b]
        }),
{
    law_route(s, p, l, r);
    let mid = run(s, route_passes(p, l, r), 1);
    lemma_run_cat(s, route_passes(p, l, r), expert_passes(p, l, x, y), 1);
    law_experts(mid, p, l, x, y);
}

pub open spec fn pf_moe_scratch(b: MoeBuf) -> bool {
    ||| b == MoeBuf::Pf(PfBuf::Rnormed)
    ||| b == MoeBuf::Pf(PfBuf::RouterIn)
    ||| b == MoeBuf::Pf(PfBuf::Rlogits)
    ||| b == MoeBuf::Pf(PfBuf::Ids)
    ||| b == MoeBuf::Pf(PfBuf::Wts)
    ||| b == MoeBuf::Pf(PfBuf::YGate)
    ||| b == MoeBuf::Pf(PfBuf::YUp)
    ||| b == MoeBuf::Pf(PfBuf::MoeAct)
    ||| b == MoeBuf::Pf(PfBuf::YDown)
}

/// The scaled row of the router, the rows of a chunk at once.
proof fn step_pf_mul(s: State, p: MoePlan, l: MoeLayer, r: MoeBuf, x: MoeBuf, y: MoeBuf)
    requires
        sized(p, l),
        width_of(s[MoeBuf::Pf(PfBuf::Rnormed)]) == Some(p.d.hidden as int),
    ensures
        step(s, pf_moe_passes(p, l, r, x, y)[1], p.d.m as int) == s.insert(
            MoeBuf::Pf(PfBuf::RouterIn),
            of2(Op::Times, s[MoeBuf::Pf(PfBuf::Rnormed)], s[l.buf(LayerBuf::MoeRscale)]),
        ),
{
    reveal(step);
    lemma_prefill_kernels();
}

proof fn step_pf_topk(s: State, p: MoePlan, l: MoeLayer, r: MoeBuf, x: MoeBuf, y: MoeBuf)
    requires
        sized(p, l),
    ensures
        ({
            let logits = s[MoeBuf::Pf(PfBuf::Rlogits)];
            step(s, pf_moe_passes(p, l, r, x, y)[3], p.d.m as int) == s.insert(
                MoeBuf::Pf(PfBuf::Ids),
                of1(Op::TopIds { n: p.d.n_experts as u32, k: p.d.top_k as u32 }, logits),
            ).insert(
                MoeBuf::Pf(PfBuf::Wts),
                of2(
                    Op::TopWeights { n: p.d.n_experts as u32, k: p.d.top_k as u32 },
                    logits,
                    s[l.buf(LayerBuf::MoePes)],
                ),
            )
        }),
{
    reveal(step);
    lemma_prefill_kernels();
}

proof fn step_pf_combine(s: State, p: MoePlan, l: MoeLayer, r: MoeBuf, x: MoeBuf, y: MoeBuf)
    requires
        sized(p, l),
        width_of(s[MoeBuf::Pf(PfBuf::YDown)]) == Some(p.d.hidden * p.d.top_k),
    ensures
        step(s, pf_moe_passes(p, l, r, x, y)[8], p.d.m as int) == s.insert(
            y,
            of2(
                Op::Combine { width: p.d.hidden as u32, k: p.d.top_k as u32 },
                s[MoeBuf::Pf(PfBuf::YDown)],
                s[MoeBuf::Pf(PfBuf::Wts)],
            ),
        ),
{
    reveal(step);
    lemma_prefill_kernels();
}

/// Each row of a chunk goes through the experts that the router chooses for it.
pub proof fn law_pf_moe(s: State, p: MoePlan, l: MoeLayer, r: MoeBuf, x: MoeBuf, y: MoeBuf)
    requires
        sized(p, l),
        s[l.buf(LayerBuf::MoeOnes)] == Val::Ones,
        !pf_moe_scratch(r),
        !pf_moe_scratch(x),
        !pf_moe_scratch(y),
    ensures
        ({
            let t = run(s, pf_moe_passes(p, l, r, x, y), p.d.m as int);
            &&& t[y] == routed(s, p, l, s[r], s[x])
            &&& forall|b: MoeBuf| !pf_moe_scratch(b) && b != y ==> #[trigger] t[b] == s[b]
        }),
{
    let m = p.d.m as int;
    let hw = p.d.hidden as int / 2;
    let k = p.d.top_k as int;
    let ids = MoeBuf::Pf(PfBuf::Ids);
    let g = MoeBuf::Pf(PfBuf::YGate);
    let u = MoeBuf::Pf(PfBuf::YUp);
    let act = MoeBuf::Pf(PfBuf::MoeAct);
    let ps = pf_moe_passes(p, l, r, x, y);
    let choice = seq![ps[0], ps[1], ps[2], ps[3]];
    let sums = seq![ps[4], ps[5], ps[6], ps[7]];
    assert(ps =~= (choice + sums).push(ps[8]));
    lemma_run_push(s, choice + sums, ps[8], m);
    lemma_run_cat(s, choice, sums, m);
    lemma_run4(s, ps[0], ps[1], ps[2], ps[3], m);
    lemma_whole(p, l);
    step_pf_norm(
        s,
        p,
        "g4m-pf-moe-rnorm"@,
        r,
        l.buf(LayerBuf::MoeOnes),
        MoeBuf::Pf(PfBuf::Rnormed),
        m,
    );
    let s1 = step(s, ps[0], m);
    step_pf_mul(s1, p, l, r, x, y);
    let s2 = step(s1, ps[1], m);
    step_pf_gemm(
        s2,
        "g4m-pf-moe-rproj"@,
        router_mat(p, l),
        MoeBuf::Pf(PfBuf::RouterIn),
        hw,
        MoeBuf::Pf(PfBuf::Rlogits),
        p.d.n_experts as int,
        true,
        p.f.router_alpha,
        m,
    );
    let s3 = step(s2, ps[2], m);
    step_pf_topk(s3, p, l, r, x, y);
    let s4 = step(s3, ps[3], m);
    assert(s4[ids] == route_ids(s, p, l, s[r]));
    assert(s4[MoeBuf::Pf(PfBuf::Wts)] == route_weights(s, p, l, s[r]));
    lemma_run4(s4, ps[4], ps[5], ps[6], ps[7], m);
    step_pf_w4(s4, "g4m-pf-moe-gate"@, gate_experts(p, l), x, false, g, ids, m * k, k, m);
    let s5 = step(s4, ps[4], m);
    step_pf_w4(s5, "g4m-pf-moe-up"@, up_experts(p, l), x, false, u, ids, m * k, k, m);
    let s6 = step(s5, ps[5], m);
    lemma_even(m * k, p.d.moe_inter as int);
    assert(m * k * p.d.moe_inter == m * (p.d.moe_inter * k)) by (nonlinear_arith);
    step_gelu(s6, "g4m-pf-moe-gelu"@, g, u, act, m * k * p.d.moe_inter / 2, m);
    let s7 = step(s6, ps[6], m);
    step_pf_w4(
        s7,
        "g4m-pf-moe-down"@,
        down_experts(p, l),
        act,
        true,
        MoeBuf::Pf(PfBuf::YDown),
        ids,
        m * k,
        k,
        m,
    );
    step_pf_combine(step(s7, ps[7], m), p, l, r, x, y);
}

} // verus!
