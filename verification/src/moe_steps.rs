//! What each kind of pass of a mixture-of-experts graph leaves in the buffers.
use vstd::prelude::*;
use crate::e4b_emit::F32_ONE;
use crate::moe_emit::{
    down_combine_pass, gelu_pass, gemv_bf16_pass, gemv_gu_pass, gemv_scaled_pass, gemv_w4_gu_pass,
    gemv_w4_pass, norm_pass, norm_residual_pass, pack_pass, pf_gemm_pass, pf_norm_pass,
    pf_norm_residual_pass, pf_w4_pass, residual_pass, MoeExperts, MoeMat, MoePlan, MoeSwitches,
};
use crate::moe_ir::{MoeBuf, MoeModel};
use crate::moe_values::{
    chosen, lemma_kernels, lemma_moe_kernels, lemma_prefill_kernels, lemma_run_push, normed, of2,
    run, step, sum, width_of, Op, State, Val,
};

verus! {

/// A matrix of `n` rows of `k` times a row.
pub open spec fn product(w: Val, x: Val, n: usize, k: usize) -> Val {
    of2(Op::Product { n: n as u32, k: (k / 2) as u32, alpha: F32_ONE, full: false }, w, x)
}

pub proof fn lemma_run1(s: State, a: MoeModel, m: int)
    ensures
        run(s, seq![a], m) == step(s, a, m),
{
    lemma_run_push(s, Seq::empty(), a, m);
    assert(seq![a] =~= Seq::<MoeModel>::empty().push(a));
}

pub proof fn lemma_run2(s: State, a: MoeModel, b: MoeModel, m: int)
    ensures
        run(s, seq![a, b], m) == step(step(s, a, m), b, m),
{
    lemma_run1(s, a, m);
    lemma_run_push(s, seq![a], b, m);
    assert(seq![a, b] =~= seq![a].push(b));
}

pub proof fn lemma_run3(s: State, a: MoeModel, b: MoeModel, c: MoeModel, m: int)
    ensures
        run(s, seq![a, b, c], m) == step(step(step(s, a, m), b, m), c, m),
{
    lemma_run2(s, a, b, m);
    lemma_run_push(s, seq![a, b], c, m);
    assert(seq![a, b, c] =~= seq![a, b].push(c));
}

pub proof fn lemma_run4(s: State, a: MoeModel, b: MoeModel, c: MoeModel, d: MoeModel, m: int)
    ensures
        run(s, seq![a, b, c, d], m) == step(step(step(step(s, a, m), b, m), c, m), d, m),
{
    lemma_run3(s, a, b, c, m);
    lemma_run_push(s, seq![a, b, c], d, m);
    assert(seq![a, b, c, d] =~= seq![a, b, c].push(d));
}

/// Rows of even length are whole words together.
pub proof fn lemma_even(m: int, n: int)
    requires
        n % 2 == 0,
        0 <= m,
        0 <= n,
    ensures
        m * n % 2 == 0,
        m * (n / 2) == m * n / 2,
        0 <= m * n,
{
    assert(m * n == 2 * (m * (n / 2))) by (nonlinear_arith)
        requires
            n % 2 == 0,
    ;
    assert(0 <= m * n) by (nonlinear_arith)
        requires
            0 <= m,
            0 <= n,
    ;
}

/// A row product leaves the product.
pub proof fn step_gemv(s: State, sw: MoeSwitches, label: Seq<char>, w: MoeMat, x: MoeBuf, y: MoeBuf)
    requires
        w.n <= u32::MAX,
        !(w.buf is EmbedChunk),
    ensures
        step(s, gemv_bf16_pass(sw, label, w, x, y), 1) == s.insert(
            y,
            product(s[w.buf], s[x], w.n, w.k),
        ),
{
    reveal(step);
    lemma_kernels();
}

pub proof fn step_gemv_scaled(s: State, label: Seq<char>, w: MoeMat, x: MoeBuf, y: MoeBuf, alpha: u32)
    requires
        w.n <= u32::MAX,
        !(w.buf is EmbedChunk),
    ensures
        step(s, gemv_scaled_pass(label, w, x, y, alpha), 1) == s.insert(
            y,
            of2(Op::Product { n: w.n as u32, k: (w.k / 2) as u32, alpha, full: true }, s[w.buf], s[x]),
        ),
{
    reveal(step);
    lemma_kernels();
}

pub proof fn step_gemv_gu(
    s: State,
    sw: MoeSwitches,
    label: Seq<char>,
    wg: MoeMat,
    wu: MoeMat,
    x: MoeBuf,
    y: MoeBuf,
    gate_label: Seq<char>,
)
    requires
        wg.n <= u32::MAX,
        wg.n == wu.n,
        wg.k == wu.k,
    ensures
        step(s, gemv_gu_pass(sw, label, wg, wu, x, y, gate_label), 1) == s.insert(
            y,
            of2(
                Op::Gelu,
                product(s[wg.buf], s[x], wg.n, wg.k),
                product(s[wu.buf], s[x], wu.n, wu.k),
            ),
        ),
{
    reveal(step);
    lemma_kernels();
}

pub proof fn step_gelu(s: State, label: Seq<char>, g: MoeBuf, u: MoeBuf, y: MoeBuf, words: int, m: int)
    requires
        0 <= words <= u32::MAX,
        width_of(s[g]) is Some,
        width_of(s[g]) == width_of(s[u]),
        2 * words == m * width_of(s[g])->0,
    ensures
        step(s, gelu_pass(label, g, u, y, words), m) == s.insert(y, of2(Op::Gelu, s[g], s[u])),
{
    reveal(step);
    lemma_moe_kernels();
}

pub proof fn step_norm(s: State, p: MoePlan, label: Seq<char>, x: MoeBuf, w: MoeBuf, y: MoeBuf)
    requires
        p.d.hidden <= u32::MAX,
    ensures
        step(s, norm_pass(p, label, x, w, y), 1) == s.insert(
            y,
            normed(s[x], s[w], p.d.hidden as u32, p.f.eps),
        ),
{
    reveal(step);
    lemma_kernels();
}

pub proof fn step_pf_norm(s: State, p: MoePlan, label: Seq<char>, x: MoeBuf, w: MoeBuf, y: MoeBuf, m: int)
    requires
        p.d.hidden <= u32::MAX,
        0 <= m <= u32::MAX,
    ensures
        step(s, pf_norm_pass(p, label, x, w, y, m), m) == s.insert(
            y,
            normed(s[x], s[w], p.d.hidden as u32, p.f.eps),
        ),
{
    reveal(step);
    lemma_prefill_kernels();
}

pub proof fn step_norm_residual(
    s: State,
    p: MoePlan,
    label: Seq<char>,
    x: MoeBuf,
    res: MoeBuf,
    w: MoeBuf,
    y: MoeBuf,
)
    requires
        p.d.hidden <= u32::MAX,
    ensures
        ({
            let r = of2(Op::Add, s[x], s[res]);
            step(s, norm_residual_pass(p, label, x, res, w, y), 1) == s.insert(res, r).insert(
                y,
                normed(r, s[w], p.d.hidden as u32, p.f.eps),
            )
        }),
{
    reveal(step);
    lemma_kernels();
}

pub proof fn step_pf_norm_residual(
    s: State,
    p: MoePlan,
    label: Seq<char>,
    x: MoeBuf,
    res: MoeBuf,
    w: MoeBuf,
    y: MoeBuf,
    m: int,
)
    requires
        p.d.hidden <= u32::MAX,
        0 <= m <= u32::MAX,
    ensures
        ({
            let r = of2(Op::Add, s[x], s[res]);
            step(s, pf_norm_residual_pass(p, label, x, res, w, y, m), m) == s.insert(res, r).insert(
                y,
                normed(r, s[w], p.d.hidden as u32, p.f.eps),
            )
        }),
{
    reveal(step);
    lemma_prefill_kernels();
}

pub proof fn step_residual(
    s: State,
    label: Seq<char>,
    a: MoeBuf,
    b: MoeBuf,
    y: MoeBuf,
    n: int,
    words: int,
    scale: u32,
    m: int,
)
    requires
        0 <= n <= u32::MAX,
        0 <= words <= u32::MAX,
        width_of(s[a]) is Some,
        n == m * width_of(s[a])->0,
        2 * words == n,
    ensures
        step(s, residual_pass(label, a, b, y, n, words, scale), m) == s.insert(
            y,
            sum(s[a], s[b], scale),
        ),
{
    reveal(step);
}

pub proof fn step_pf_gemm(
    s: State,
    label: Seq<char>,
    w: MoeMat,
    x: MoeBuf,
    x_stride: int,
    y: MoeBuf,
    y_stride: int,
    out_f32: bool,
    alpha: u32,
    m: int,
)
    requires
        w.n <= u32::MAX,
        x_stride == w.k as int / 2,
        w.k <= u32::MAX,
        y_stride == if out_f32 { w.n as int } else { w.n as int / 2 },
    ensures
        step(s, pf_gemm_pass(label, w, x, x_stride, y, y_stride, out_f32, alpha), m) == s.insert(
            y,
            of2(
                Op::Product { n: w.n as u32, k: (w.k / 2) as u32, alpha, full: out_f32 },
                s[w.buf],
                s[x],
            ),
        ),
{
    reveal(step);
    lemma_prefill_kernels();
}

pub proof fn step_pack(s: State, label: Seq<char>, x: MoeBuf, y: MoeBuf, words: int, m: int)
    requires
        0 <= words <= u32::MAX,
        width_of(s[x]) is Some,
        2 * words == m * width_of(s[x])->0,
    ensures
        step(s, pack_pass(label, x, y, words), m) == s.insert(y, s[x]),
{
    reveal(step);
    lemma_moe_kernels();
}

/// Matrices in four bits whose rows are whole groups.
pub open spec fn whole(e: MoeExperts) -> bool {
    e.n % 2 == 0 && e.k % 32 == 0 && e.n * e.k <= u32::MAX && e.n <= u32::MAX && e.k <= u32::MAX
}

pub proof fn step_w4(
    s: State,
    sw: MoeSwitches,
    label: Seq<char>,
    e: MoeExperts,
    x: MoeBuf,
    y: MoeBuf,
    sel: MoeBuf,
    slots: int,
    own: bool,
)
    requires
        whole(e),
        e.k > 0,
        0 <= slots <= u32::MAX,
        chosen(s[sel]) == Some(slots),
    ensures
        step(s, gemv_w4_pass(sw, label, e, x, y, sel, slots, own), 1) == s.insert(
            y,
            expert(s[e.w], s[e.scales], s[x], s[sel], e.n, e.k, own),
        ),
{
    reveal(step);
    lemma_kernels();
    lemma_strides(e.n, e.k);
}

pub proof fn step_w4_gu(
    s: State,
    sw: MoeSwitches,
    label: Seq<char>,
    eg: MoeExperts,
    eu: MoeExperts,
    x: MoeBuf,
    y: MoeBuf,
    sel: MoeBuf,
    slots: int,
)
    requires
        whole(eg),
        eg.k > 0,
        eu.n == eg.n && eu.k == eg.k,
        0 <= slots <= u32::MAX,
        chosen(s[sel]) == Some(slots),
    ensures
        step(s, gemv_w4_gu_pass(sw, label, eg, eu, x, y, sel, slots), 1) == s.insert(
            y,
            of2(
                Op::Gelu,
                expert(s[eg.w], s[eg.scales], s[x], s[sel], eg.n, eg.k, false),
                expert(s[eu.w], s[eu.scales], s[x], s[sel], eu.n, eu.k, false),
            ),
        ),
{
    reveal(step);
    lemma_kernels();
    lemma_strides(eg.n, eg.k);
}

pub proof fn step_down_combine(
    s: State,
    label: Seq<char>,
    e: MoeExperts,
    x: MoeBuf,
    y: MoeBuf,
    sel: MoeBuf,
    wts: MoeBuf,
    slots: int,
)
    requires
        whole(e),
        e.k > 0,
        0 <= slots <= u32::MAX,
        chosen(s[sel]) == Some(slots),
    ensures
        step(s, down_combine_pass(label, e, x, y, sel, wts, slots), 1) == s.insert(
            y,
            of2(
                Op::Combine { width: e.n as u32, k: slots as u32 },
                expert(s[e.w], s[e.scales], s[x], s[sel], e.n, e.k, true),
                s[wts],
            ),
        ),
{
    reveal(step);
    lemma_kernels();
    lemma_strides(e.n, e.k);
}

pub proof fn step_pf_w4(
    s: State,
    label: Seq<char>,
    e: MoeExperts,
    x: MoeBuf,
    own: bool,
    y: MoeBuf,
    sel: MoeBuf,
    slots: int,
    top: int,
    m: int,
)
    requires
        whole(e),
        e.k > 0,
        0 <= slots <= u32::MAX,
        0 <= top <= u32::MAX,
        slots == m * top,
        chosen(s[sel]) == Some(top),
    ensures
        ({
            let half = e.k as int / 2;
            let p = if own {
                pf_w4_pass(label, e, x, 0, half, y, sel, slots, top)
            } else {
                pf_w4_pass(label, e, x, half, 0, y, sel, slots, top)
            };
            step(s, p, m) == s.insert(
                y,
                expert(s[e.w], s[e.scales], s[x], s[sel], e.n, e.k, own),
            )
        }),
{
    reveal(step);
    lemma_prefill_kernels();
    lemma_strides(e.n, e.k);
}

pub open spec fn expert(w: Val, scales: Val, x: Val, ids: Val, n: usize, k: usize, own: bool) -> Val {
    Val::Of(Op::Expert { n: n as u32, k: k as u32, own_rows: own }, seq![w, scales, x, ids])
}

/// The strides of a matrix of `n` rows of `k` in four bits.
pub proof fn lemma_strides(n: usize, k: usize)
    requires
        n % 2 == 0,
        k % 32 == 0,
        n * k <= u32::MAX,
        n <= u32::MAX,
        k <= u32::MAX,
    ensures
        ({
            let groups = (k / 32) as u32;
            &&& 32 * groups == k
            &&& groups == k / 32
            &&& 8 * ((n * k / 8) as u32) == (n as u32) * (32 * groups)
            &&& ((n * (k / 32)) as u32) == (n as u32) * groups
            &&& 2 * ((n / 2) as u32) == n
        }),
{
    let g = k as int / 32;
    assert(n * k == 32 * (n * g)) by (nonlinear_arith)
        requires
            k == 32 * g,
    ;
    assert(0 <= n * g) by (nonlinear_arith)
        requires
            g >= 0,
            n >= 0,
    ;
    assert(n * (32 * g) == 32 * (n * g)) by (nonlinear_arith);
}

} // verus!
