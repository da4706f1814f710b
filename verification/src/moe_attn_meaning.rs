//! What the attention of a mixture-of-experts layer computes, and that its passes compute it: for
//! a decode row, with stacked projections or without, and for the rows of a chunk alike.
use vstd::prelude::*;
use crate::config::LayerType;
use crate::e4b_emit::F32_ONE;
use crate::moe_attn::{
    attn_passes, flash_passes, kv_passes, norm_rope_pass, pf_attn_passes, pf_core_passes,
    pf_kv_passes, pf_qkv_passes, pf_rope_pass, q_buf, qkv_passes, serial_passes, stacked,
    takes_flash, MoeLayer,
};
use crate::moe_emit::MoePlan;
use crate::moe_ir::{LayerBuf, MoeBuf, MoeModel, PfBuf};
use crate::moe_meaning::sized;
use crate::moe_steps::{
    lemma_even, lemma_run1, lemma_run2, lemma_run3, product, step_gemv, step_pack, step_pf_gemm,
};
use crate::moe_values::{
    head_count, head_words, heads_of, lemma_attn_kernels, lemma_prefill_kernels, lemma_run_cat, of3,
    queries, run, step, width_of, Op, State, Val,
};

verus! {

/// A projection's heads, normed and, where asked for, turned to the position.
pub open spec fn head_row(
    s: State,
    p: MoePlan,
    l: MoeLayer,
    w: Val,
    n: Val,
    x: Val,
    heads: usize,
    pos: Val,
    turn: bool,
) -> Val {
    heads_of(
        product(w, x, (heads * l.hd) as usize, p.d.hidden),
        n,
        s[MoeBuf::RopeCos(l.rope)],
        s[MoeBuf::RopeSin(l.rope)],
        pos,
        heads as u32,
        l.hd as u32,
        p.f.eps,
        turn,
    )
}

pub open spec fn query(s: State, p: MoePlan, l: MoeLayer, x: Val, pos: Val) -> Val {
    head_row(s, p, l, s[l.buf(LayerBuf::Qw)], s[l.buf(LayerBuf::Qn)], x, p.d.n_q, pos, true)
}

pub open spec fn key(s: State, p: MoePlan, l: MoeLayer, x: Val, pos: Val) -> Val {
    head_row(s, p, l, s[l.buf(LayerBuf::Kw)], s[l.buf(LayerBuf::Kn)], x, l.n_kv, pos, true)
}

/// The values, which no position turns; a layer without value weights has them of its keys'.
pub open spec fn value(s: State, p: MoePlan, l: MoeLayer, x: Val, pos: Val) -> Val {
    let w = if l.has_v {
        s[l.buf(LayerBuf::Vw)]
    } else {
        s[l.buf(LayerBuf::Kw)]
    };
    head_row(s, p, l, w, s[l.buf(LayerBuf::Vn)], x, l.n_kv, pos, false)
}

/// A cache after a row was written at its position.
pub open spec fn cached(p: MoePlan, l: MoeLayer, cache: Val, row: Val, pos: Val) -> Val {
    if p.sw.fp8 {
        of3(
            Op::PutCodes { kv_heads: l.n_kv as u32, head_dim: l.hd as u32, ring: l.ring_rows() },
            cache,
            row,
            pos,
        )
    } else {
        of3(
            Op::Put { words: (l.n_kv * l.hd / 2) as u32, ring: l.ring_rows() },
            cache,
            row,
            pos,
        )
    }
}

/// The scales of a cache in eight bits after a row was written.
pub open spec fn cached_scales(p: MoePlan, l: MoeLayer, scales: Val, row: Val, pos: Val) -> Val {
    if p.sw.fp8 {
        of3(
            Op::PutScales { kv_heads: l.n_kv as u32, head_dim: l.hd as u32, ring: l.ring_rows() },
            scales,
            row,
            pos,
        )
    } else {
        scales
    }
}

pub open spec fn key_cache(s: State, p: MoePlan, l: MoeLayer, x: Val, pos: Val) -> Val {
    cached(p, l, s[l.buf(LayerBuf::Kc)], key(s, p, l, x, pos), pos)
}

pub open spec fn value_cache(s: State, p: MoePlan, l: MoeLayer, x: Val, pos: Val) -> Val {
    cached(p, l, s[l.buf(LayerBuf::Vc)], value(s, p, l, x, pos), pos)
}

pub open spec fn key_scales(s: State, p: MoePlan, l: MoeLayer, x: Val, pos: Val) -> Val {
    cached_scales(p, l, s[l.buf(LayerBuf::Ksc)], key(s, p, l, x, pos), pos)
}

pub open spec fn value_scales(s: State, p: MoePlan, l: MoeLayer, x: Val, pos: Val) -> Val {
    cached_scales(p, l, s[l.buf(LayerBuf::Vsc)], value(s, p, l, x, pos), pos)
}

/// The parameters of the attention in parts.
pub open spec fn flash_block(l: MoeLayer) -> MoeBuf {
    MoeBuf::Flash(l.kind == LayerType::FullAttention)
}

/// Attention of the row's queries over caches that hold the row too.
pub open spec fn attended(
    s: State,
    p: MoePlan,
    l: MoeLayer,
    x: Val,
    pos: Val,
    in_parts: bool,
) -> Val {
    let q = query(s, p, l, x, pos);
    let k = key_cache(s, p, l, x, pos);
    let v = value_cache(s, p, l, x, pos);
    let by = if in_parts {
        s[flash_block(l)]
    } else {
        pos
    };
    let op = if in_parts {
        flash_op(p)
    } else {
        attend_op(p, l)
    };
    if p.sw.fp8 {
        Val::Of(
            op,
            seq![q, k, v, by, key_scales(s, p, l, x, pos), value_scales(s, p, l, x, pos)],
        )
    } else {
        Val::Of(op, seq![q, k, v, by])
    }
}

/// The attention block: the attended values through the output weights.
pub open spec fn attention(
    s: State,
    p: MoePlan,
    l: MoeLayer,
    x: Val,
    pos: Val,
    in_parts: bool,
) -> Val {
    product(
        s[l.buf(LayerBuf::Ow)],
        attended(s, p, l, x, pos, in_parts),
        p.d.hidden,
        (p.d.n_q * l.hd) as usize,
    )
}

pub open spec fn attn_scratch(l: MoeLayer, b: MoeBuf) -> bool {
    ||| b == l.buf(LayerBuf::QRaw)
    ||| b == l.buf(LayerBuf::KRaw)
    ||| b == l.buf(LayerBuf::VRaw)
    ||| b == l.buf(LayerBuf::QkvRaw)
    ||| b == l.buf(LayerBuf::Q)
    ||| b == l.buf(LayerBuf::K)
    ||| b == l.buf(LayerBuf::V)
    ||| b == l.buf(LayerBuf::Qkv)
    ||| b == l.buf(LayerBuf::AttnBf16)
    ||| b == l.buf(LayerBuf::FlashScratch)
    ||| b == l.buf(LayerBuf::Scores)
    ||| b == l.buf(LayerBuf::AttnF32)
}

pub open spec fn pf_attn_scratch(b: MoeBuf) -> bool {
    ||| b == MoeBuf::Pf(PfBuf::QRaw)
    ||| b == MoeBuf::Pf(PfBuf::KRaw)
    ||| b == MoeBuf::Pf(PfBuf::VRaw)
    ||| b == MoeBuf::Pf(PfBuf::Q)
    ||| b == MoeBuf::Pf(PfBuf::K)
    ||| b == MoeBuf::Pf(PfBuf::V)
    ||| b == MoeBuf::Pf(PfBuf::Scores)
    ||| b == MoeBuf::Pf(PfBuf::AttnF32)
    ||| b == MoeBuf::Pf(PfBuf::AttnBf16)
}

pub open spec fn cache_buf(l: MoeLayer, b: MoeBuf) -> bool {
    ||| b == l.buf(LayerBuf::Kc)
    ||| b == l.buf(LayerBuf::Vc)
    ||| b == l.buf(LayerBuf::Ksc)
    ||| b == l.buf(LayerBuf::Vsc)
}

/// The caches of a layer after a row or the rows of a chunk.
pub open spec fn caches_hold(t: State, s: State, p: MoePlan, l: MoeLayer, x: Val, pos: Val) -> bool {
    &&& t[l.buf(LayerBuf::Kc)] == key_cache(s, p, l, x, pos)
    &&& t[l.buf(LayerBuf::Vc)] == value_cache(s, p, l, x, pos)
    &&& t[l.buf(LayerBuf::Ksc)] == key_scales(s, p, l, x, pos)
    &&& t[l.buf(LayerBuf::Vsc)] == value_scales(s, p, l, x, pos)
}

/// Where projections are stacked, the stacked buffers hold the weights of the single ones.
pub open spec fn stacks_hold(s: State, p: MoePlan, l: MoeLayer) -> bool {
    stacked(p) ==> {
        let q = s[l.buf(LayerBuf::Qw)];
        let k = s[l.buf(LayerBuf::Kw)];
        let v = s[l.buf(LayerBuf::Vw)];
        &&& s[l.buf(LayerBuf::QkvW)] == Val::Of(Op::Stack, if l.has_v {
            seq![q, k, v]
        } else {
            seq![q, k]
        })
        &&& s[l.buf(LayerBuf::QkvN)] == Val::Of(
            Op::Stack,
            seq![s[l.buf(LayerBuf::Qn)], s[l.buf(LayerBuf::Kn)], s[l.buf(LayerBuf::Vn)]],
        )
    }
}

/// The widths of the projections as words.
proof fn lemma_widths(p: MoePlan, l: MoeLayer)
    requires
        sized(p, l),
    ensures
        l.hd <= u32::MAX,
        p.d.n_q <= u32::MAX,
        l.n_kv <= u32::MAX,
        0 <= p.d.n_q * l.hd,
        0 <= l.n_kv * l.hd,
        p.d.n_q * l.hd + 2 * (l.n_kv * l.hd) <= u32::MAX,
        (p.d.n_q * l.hd) % 2 == 0,
        (l.n_kv * l.hd) % 2 == 0,
        p.d.m * p.d.n_q * l.hd == p.d.m * (p.d.n_q * l.hd),
        (p.d.m * (p.d.n_q * l.hd)) % 2 == 0,
        0 <= p.d.m * (p.d.n_q * l.hd),
{
    let q = p.d.n_q as int;
    let n = l.n_kv as int;
    let h = l.hd as int;
    let m = p.d.m as int;
    assert((q + 2 * n) * h == q * h + 2 * (n * h)) by (nonlinear_arith);
    assert(h <= (q + 2 * n) * h) by (nonlinear_arith)
        requires
            q >= 0,
            n >= 1,
            h >= 0,
    ;
    assert(m * q * h == m * (q * h)) by (nonlinear_arith);
    lemma_even(q, h);
    lemma_even(n, h);
    lemma_even(m, q * h);
}

proof fn step_rope(
    s: State,
    p: MoePlan,
    l: MoeLayer,
    label: Seq<char>,
    src: MoeBuf,
    w: MoeBuf,
    dst: MoeBuf,
    heads: usize,
    turn: bool,
)
    requires
        heads <= u32::MAX,
        l.hd <= u32::MAX,
        width_of(s[src]) == Some(heads * l.hd),
    ensures
        step(s, norm_rope_pass(p, l, label, src, w, dst, heads as int, turn), 1) == s.insert(
            dst,
            heads_of(
                s[src],
                s[w],
                s[MoeBuf::RopeCos(l.rope)],
                s[MoeBuf::RopeSin(l.rope)],
                s[MoeBuf::Pos],
                heads as u32,
                l.hd as u32,
                p.f.eps,
                turn,
            ),
        ),
{
    reveal(step);
    lemma_attn_kernels();
}

proof fn step_pf_rope(
    s: State,
    p: MoePlan,
    l: MoeLayer,
    label: Seq<char>,
    src: PfBuf,
    w: LayerBuf,
    dst: PfBuf,
    heads: usize,
    turn: bool,
)
    requires
        heads <= u32::MAX,
        l.hd <= u32::MAX,
        0 <= heads * l.hd <= u32::MAX,
        width_of(s[MoeBuf::Pf(src)]) == Some(heads * l.hd),
    ensures
        step(s, pf_rope_pass(p, l, label, src, w, dst, heads as int, turn), p.d.m as int)
            == s.insert(
            MoeBuf::Pf(dst),
            heads_of(
                s[MoeBuf::Pf(src)],
                s[l.buf(w)],
                s[MoeBuf::RopeCos(l.rope)],
                s[MoeBuf::RopeSin(l.rope)],
                s[MoeBuf::Pf(PfBuf::Pos)],
                heads as u32,
                l.hd as u32,
                p.f.eps,
                turn,
            ),
        ),
{
    reveal(step);
    lemma_prefill_kernels();
}

/// The queries, keys and values of a decode row.
proof fn lemma_qkv(s: State, p: MoePlan, l: MoeLayer, x: MoeBuf)
    requires
        sized(p, l),
        stacks_hold(s, p, l),
        !attn_scratch(l, x),
    ensures
        ({
            let t = run(s, qkv_passes(p, l, x), 1);
            let pos = s[MoeBuf::Pos];
            let q = query(s, p, l, s[x], pos);
            let k = key(s, p, l, s[x], pos);
            let v = value(s, p, l, s[x], pos);
            &&& if stacked(p) {
                t[l.buf(LayerBuf::Qkv)] == of3(Op::Heads, q, k, v)
            } else {
                &&& t[l.buf(LayerBuf::Q)] == q
                &&& t[l.buf(LayerBuf::K)] == k
                &&& t[l.buf(LayerBuf::V)] == v
            }
            &&& forall|b: MoeBuf| !attn_scratch(l, b) ==> #[trigger] t[b] == s[b]
        }),
{
    lemma_widths(p, l);
    let ps = qkv_passes(p, l, x);
    let qr = l.buf(LayerBuf::QRaw);
    let kr = l.buf(LayerBuf::KRaw);
    let vr = l.buf(LayerBuf::VRaw);
    if stacked(p) {
        lemma_run2(s, ps[0], ps[1], 1);
        assert(ps =~= seq![ps[0], ps[1]]);
        step_gemv(s, p.sw, "g4m-at-qkvproj"@, l.wqkv(p), x, l.buf(LayerBuf::QkvRaw));
        reveal(step);
        lemma_attn_kernels();
    } else {
        let n = if l.has_v {
            3int
        } else {
            2
        };
        let raw = ps.subrange(0, n);
        let rest = seq![ps[n], ps[n + 1], ps[n + 2]];
        assert(ps =~= raw + rest);
        lemma_run_cat(s, raw, rest, 1);
        step_gemv(s, p.sw, "g4m-at-qproj"@, l.wq(p), x, qr);
        let s1 = step(s, ps[0], 1);
        step_gemv(s1, p.sw, "g4m-at-kproj"@, l.wk(p), x, kr);
        let s2 = step(s1, ps[1], 1);
        let v_raw = if l.has_v {
            vr
        } else {
            kr
        };
        if l.has_v {
            lemma_run3(s, ps[0], ps[1], ps[2], 1);
            assert(raw =~= seq![ps[0], ps[1], ps[2]]);
            step_gemv(s2, p.sw, "g4m-at-vproj"@, l.wv(p), x, vr);
        } else {
            lemma_run2(s, ps[0], ps[1], 1);
            assert(raw =~= seq![ps[0], ps[1]]);
        }
        let s3 = run(s, raw, 1);
        lemma_run3(s3, ps[n], ps[n + 1], ps[n + 2], 1);
        step_rope(
            s3,
            p,
            l,
            "g4m-at-qnorm"@,
            qr,
            l.buf(LayerBuf::Qn),
            l.buf(LayerBuf::Q),
            p.d.n_q,
            true,
        );
        let s4 = step(s3, ps[n], 1);
        step_rope(
            s4,
            p,
            l,
            "g4m-at-knorm"@,
            kr,
            l.buf(LayerBuf::Kn),
            l.buf(LayerBuf::K),
            l.n_kv,
            true,
        );
        let s5 = step(s4, ps[n + 1], 1);
        step_rope(
            s5,
            p,
            l,
            "g4m-at-vnorm"@,
            v_raw,
            l.buf(LayerBuf::Vn),
            l.buf(LayerBuf::V),
            l.n_kv,
            false,
        );
    }
}

/// The caches after a decode row.
proof fn lemma_kv(s: State, p: MoePlan, l: MoeLayer, q: Val, k: Val, v: Val)
    requires
        sized(p, l),
        head_words(q) == Some(p.d.n_q * l.hd / 2),
        head_words(k) == Some(l.n_kv * l.hd / 2),
        head_words(v) == Some(l.n_kv * l.hd / 2),
        if stacked(p) {
            s[l.buf(LayerBuf::Qkv)] == of3(Op::Heads, q, k, v)
        } else {
            s[l.buf(LayerBuf::K)] == k && s[l.buf(LayerBuf::V)] == v
        },
    ensures
        ({
            let t = run(s, kv_passes(p, l), 1);
            let pos = s[MoeBuf::Pos];
            &&& t[l.buf(LayerBuf::Kc)] == cached(p, l, s[l.buf(LayerBuf::Kc)], k, pos)
            &&& t[l.buf(LayerBuf::Vc)] == cached(p, l, s[l.buf(LayerBuf::Vc)], v, pos)
            &&& t[l.buf(LayerBuf::Ksc)] == cached_scales(p, l, s[l.buf(LayerBuf::Ksc)], k, pos)
            &&& t[l.buf(LayerBuf::Vsc)] == cached_scales(p, l, s[l.buf(LayerBuf::Vsc)], v, pos)
            &&& forall|b: MoeBuf| !cache_buf(l, b) ==> #[trigger] t[b] == s[b]
        }),
{
    lemma_widths(p, l);
    let ps = kv_passes(p, l);
    reveal(step);
    lemma_attn_kernels();
    if p.sw.fp8 {
        lemma_run2(s, ps[0], ps[1], 1);
        assert(ps =~= seq![ps[0], ps[1]]);
    } else {
        lemma_run1(s, ps[0], 1);
        assert(ps =~= seq![ps[0]]);
    }
}

/// Attention over what the caches hold.
pub open spec fn over_caches(s: State, p: MoePlan, l: MoeLayer, q: Val, by: Val, op: Op) -> Val {
    let k = s[l.buf(LayerBuf::Kc)];
    let v = s[l.buf(LayerBuf::Vc)];
    Val::Of(
        op,
        if p.sw.fp8 {
            seq![q, k, v, by, s[l.buf(LayerBuf::Ksc)], s[l.buf(LayerBuf::Vsc)]]
        } else {
            seq![q, k, v, by]
        },
    )
}

pub open spec fn attend_op(p: MoePlan, l: MoeLayer) -> Op {
    Op::Attend {
        heads: p.d.n_q as u32,
        kv_heads: l.n_kv as u32,
        head_dim: l.hd as u32,
        window: l.window as u32,
        ring: l.ring_rows(),
        scale: F32_ONE,
    }
}

pub open spec fn flash_op(p: MoePlan) -> Op {
    Op::Flash { heads: p.d.n_q as u32, splits: p.sw.splits }
}

/// Where a row's queries stand.
pub open spec fn queries_hold(s: State, p: MoePlan, l: MoeLayer, q: Val) -> bool {
    &&& head_count(q) == Some(p.d.n_q as u32)
    &&& if stacked(p) {
        queries(s[l.buf(LayerBuf::Qkv)]) == q
    } else {
        s[l.buf(LayerBuf::Q)] == q
    }
}

proof fn step_flash(s: State, p: MoePlan, l: MoeLayer, q: Val)
    requires
        sized(p, l),
        queries_hold(s, p, l, q),
    ensures
        step(s, flash_passes(p, l)[0], 1) == s.insert(
            l.buf(LayerBuf::FlashScratch),
            over_caches(s, p, l, q, s[flash_block(l)], flash_op(p)),
        ),
{
    reveal(step);
    lemma_attn_kernels();
    lemma_widths(p, l);
}

proof fn step_merge(s: State, p: MoePlan, l: MoeLayer, v: Val)
    requires
        sized(p, l),
        s[l.buf(LayerBuf::FlashScratch)] == v,
        v is Of,
        v->Of_0 == flash_op(p),
        v->Of_1[3] == s[flash_block(l)],
    ensures
        step(s, flash_passes(p, l)[1], 1) == s.insert(l.buf(LayerBuf::AttnBf16), v),
{
    reveal(step);
    lemma_attn_kernels();
    lemma_widths(p, l);
}

proof fn step_serial(s: State, p: MoePlan, l: MoeLayer, q: Val)
    requires
        sized(p, l),
        queries_hold(s, p, l, q),
    ensures
        step(s, serial_passes(p, l)[0], 1) == s.insert(
            l.buf(LayerBuf::Scores),
            Val::Junk,
        ).insert(
            l.buf(LayerBuf::AttnF32),
            over_caches(s, p, l, q, s[MoeBuf::Pos], attend_op(p, l)),
        ),
{
    reveal(step);
    lemma_attn_kernels();
    lemma_widths(p, l);
}

/// The passes between the caches and the output weights.
pub open spec fn core_passes(p: MoePlan, l: MoeLayer) -> Seq<MoeModel> {
    if takes_flash(p, l.kind) {
        flash_passes(p, l)
    } else {
        serial_passes(p, l)
    }
}

/// The attended values of a decode row.
proof fn lemma_core(s: State, p: MoePlan, l: MoeLayer, q: Val)
    requires
        sized(p, l),
        queries_hold(s, p, l, q),
    ensures
        ({
            let t = run(s, core_passes(p, l), 1);
            &&& t[l.buf(LayerBuf::AttnBf16)] == if takes_flash(p, l.kind) {
                over_caches(s, p, l, q, s[flash_block(l)], flash_op(p))
            } else {
                over_caches(s, p, l, q, s[MoeBuf::Pos], attend_op(p, l))
            }
            &&& forall|b: MoeBuf| !attn_scratch(l, b) ==> #[trigger] t[b] == s[b]
        }),
{
    lemma_widths(p, l);
    if takes_flash(p, l.kind) {
        let ps = flash_passes(p, l);
        lemma_run2(s, ps[0], ps[1], 1);
        assert(ps =~= seq![ps[0], ps[1]]);
        step_flash(s, p, l, q);
        step_merge(
            step(s, ps[0], 1),
            p,
            l,
            over_caches(s, p, l, q, s[flash_block(l)], flash_op(p)),
        );
    } else {
        let ps = serial_passes(p, l);
        lemma_run2(s, ps[0], ps[1], 1);
        assert(ps =~= seq![ps[0], ps[1]]);
        let out = l.buf(LayerBuf::AttnF32);
        step_serial(s, p, l, q);
        let s1 = step(s, ps[0], 1);
        step_pack(s1, "g4m-at-pack"@, out, l.buf(LayerBuf::AttnBf16), p.d.n_q * l.hd / 2, 1);
    }
}

/// A decode row's attention, with stacked projections or without, in parts or not, leaves the
/// attention of `x` in `y` and the row's keys and values in the caches.
pub proof fn law_attn(s: State, p: MoePlan, l: MoeLayer, x: MoeBuf, y: MoeBuf)
    requires
        sized(p, l),
        stacks_hold(s, p, l),
        !attn_scratch(l, x) && !cache_buf(l, x),
        !attn_scratch(l, y) && !cache_buf(l, y),
    ensures
        ({
            let t = run(s, attn_passes(p, l, x, y), 1);
            let pos = s[MoeBuf::Pos];
            &&& t[y] == attention(s, p, l, s[x], pos, takes_flash(p, l.kind))
            &&& caches_hold(t, s, p, l, s[x], pos)
            &&& forall|b: MoeBuf|
                !attn_scratch(l, b) && !cache_buf(l, b) && b != y ==> #[trigger] t[b] == s[b]
        }),
{
    lemma_widths(p, l);
    let pos = s[MoeBuf::Pos];
    let q = query(s, p, l, s[x], pos);
    let k = key(s, p, l, s[x], pos);
    let v = value(s, p, l, s[x], pos);
    let a = qkv_passes(p, l, x);
    let b = kv_passes(p, l);
    let c = core_passes(p, l);
    let d = crate::moe_emit::gemv_bf16_pass(
        p.sw,
        "g4m-at-oproj"@,
        l.wo(p),
        l.buf(LayerBuf::AttnBf16),
        y,
    );
    lemma_qkv(s, p, l, x);
    let s1 = run(s, a, 1);
    lemma_kv(s1, p, l, q, k, v);
    lemma_run_cat(s, a, b, 1);
    let s2 = run(s1, b, 1);
    assert(s2[q_buf(p, l)] == s1[q_buf(p, l)]);
    assert(attn_passes(p, l, x, y) =~= a + b + c + seq![d]);
    lemma_core(s2, p, l, q);
    lemma_run_cat(s, a + b, c, 1);
    let s3 = run(s2, c, 1);
    lemma_run_cat(s, a + b + c, seq![d], 1);
    lemma_run1(s3, d, 1);
    step_gemv(s3, p.sw, "g4m-at-oproj"@, l.wo(p), l.buf(LayerBuf::AttnBf16), y);
    assert(s3[l.buf(LayerBuf::AttnBf16)] == attended(
        s,
        p,
        l,
        s[x],
        pos,
        takes_flash(p, l.kind),
    ));
    assert(caches_hold(s2, s, p, l, s[x], pos));
}

/// The queries, keys and values of a chunk's rows.
proof fn lemma_pf_qkv(s: State, p: MoePlan, l: MoeLayer, x: MoeBuf)
    requires
        sized(p, l),
        !pf_attn_scratch(x),
    ensures
        ({
            let t = run(s, pf_qkv_passes(p, l, x), p.d.m as int);
            let pos = s[MoeBuf::Pf(PfBuf::Pos)];
            &&& t[MoeBuf::Pf(PfBuf::Q)] == query(s, p, l, s[x], pos)
            &&& t[MoeBuf::Pf(PfBuf::K)] == key(s, p, l, s[x], pos)
            &&& t[MoeBuf::Pf(PfBuf::V)] == value(s, p, l, s[x], pos)
            &&& forall|b: MoeBuf| !pf_attn_scratch(b) ==> #[trigger] t[b] == s[b]
        }),
{
    lemma_widths(p, l);
    let m = p.d.m as int;
    let ps = pf_qkv_passes(p, l, x);
    let hw = p.d.hidden as int / 2;
    let qw = p.d.n_q * l.hd / 2;
    let kw = l.n_kv * l.hd / 2;
    let qr = MoeBuf::Pf(PfBuf::QRaw);
    let kr = MoeBuf::Pf(PfBuf::KRaw);
    let vr = MoeBuf::Pf(PfBuf::VRaw);
    let n = if l.has_v {
        3int
    } else {
        2
    };
    let raw = ps.subrange(0, n);
    let rest = seq![ps[n], ps[n + 1], ps[n + 2]];
    assert(ps =~= raw + rest);
    lemma_run_cat(s, raw, rest, m);
    step_pf_gemm(s, "g4m-pf-qproj"@, l.wq(p), x, hw, qr, qw, false, F32_ONE, m);
    let s1 = step(s, ps[0], m);
    step_pf_gemm(s1, "g4m-pf-kproj"@, l.wk(p), x, hw, kr, kw, false, F32_ONE, m);
    let s2 = step(s1, ps[1], m);
    let v_raw = if l.has_v {
        PfBuf::VRaw
    } else {
        PfBuf::KRaw
    };
    if l.has_v {
        lemma_run3(s, ps[0], ps[1], ps[2], m);
        assert(raw =~= seq![ps[0], ps[1], ps[2]]);
        step_pf_gemm(s2, "g4m-pf-vproj"@, l.wv(p), x, hw, vr, kw, false, F32_ONE, m);
    } else {
        lemma_run2(s, ps[0], ps[1], m);
        assert(raw =~= seq![ps[0], ps[1]]);
    }
    let s3 = run(s, raw, m);
    lemma_run3(s3, ps[n], ps[n + 1], ps[n + 2], m);
    step_pf_rope(
        s3,
        p,
        l,
        "g4m-pf-qnorm"@,
        PfBuf::QRaw,
        LayerBuf::Qn,
        PfBuf::Q,
        p.d.n_q,
        true,
    );
    let s4 = step(s3, ps[n], m);
    step_pf_rope(s4, p, l, "g4m-pf-knorm"@, PfBuf::KRaw, LayerBuf::Kn, PfBuf::K, l.n_kv, true);
    let s5 = step(s4, ps[n + 1], m);
    step_pf_rope(s5, p, l, "g4m-pf-vnorm"@, v_raw, LayerBuf::Vn, PfBuf::V, l.n_kv, false);
}

/// The caches after a chunk's rows.
proof fn lemma_pf_kv(s: State, p: MoePlan, l: MoeLayer)
    requires
        sized(p, l),
        head_words(s[MoeBuf::Pf(PfBuf::K)]) == Some(l.n_kv * l.hd / 2),
        head_words(s[MoeBuf::Pf(PfBuf::V)]) == Some(l.n_kv * l.hd / 2),
    ensures
        ({
            let t = run(s, pf_kv_passes(p, l), p.d.m as int);
            let pos = s[MoeBuf::Pf(PfBuf::Pos)];
            let k = s[MoeBuf::Pf(PfBuf::K)];
            let v = s[MoeBuf::Pf(PfBuf::V)];
            &&& t[l.buf(LayerBuf::Kc)] == cached(p, l, s[l.buf(LayerBuf::Kc)], k, pos)
            &&& t[l.buf(LayerBuf::Vc)] == cached(p, l, s[l.buf(LayerBuf::Vc)], v, pos)
            &&& t[l.buf(LayerBuf::Ksc)] == cached_scales(p, l, s[l.buf(LayerBuf::Ksc)], k, pos)
            &&& t[l.buf(LayerBuf::Vsc)] == cached_scales(p, l, s[l.buf(LayerBuf::Vsc)], v, pos)
            &&& forall|b: MoeBuf| !cache_buf(l, b) ==> #[trigger] t[b] == s[b]
        }),
{
    lemma_widths(p, l);
    let m = p.d.m as int;
    let ps = pf_kv_passes(p, l);
    reveal(step);
    lemma_prefill_kernels();
    if p.sw.fp8 {
        lemma_run2(s, ps[0], ps[1], m);
        assert(ps =~= seq![ps[0], ps[1]]);
    } else {
        lemma_run1(s, ps[0], m);
        assert(ps =~= seq![ps[0]]);
    }
}

proof fn step_pf_serial(s: State, p: MoePlan, l: MoeLayer)
    requires
        sized(p, l),
    ensures
        step(s, pf_core_passes(p, l)[0], p.d.m as int) == s.insert(
            MoeBuf::Pf(PfBuf::Scores),
            Val::Junk,
        ).insert(
            MoeBuf::Pf(PfBuf::AttnF32),
            over_caches(
                s,
                p,
                l,
                s[MoeBuf::Pf(PfBuf::Q)],
                s[MoeBuf::Pf(PfBuf::Pos)],
                attend_op(p, l),
            ),
        ),
{
    reveal(step);
    lemma_prefill_kernels();
    lemma_widths(p, l);
}

/// The attended values of a chunk's rows.
proof fn lemma_pf_core(s: State, p: MoePlan, l: MoeLayer)
    requires
        sized(p, l),
    ensures
        ({
            let t = run(s, pf_core_passes(p, l), p.d.m as int);
            let q = s[MoeBuf::Pf(PfBuf::Q)];
            let pos = s[MoeBuf::Pf(PfBuf::Pos)];
            &&& t[MoeBuf::Pf(PfBuf::AttnBf16)] == over_caches(s, p, l, q, pos, attend_op(p, l))
            &&& forall|b: MoeBuf| !pf_attn_scratch(b) ==> #[trigger] t[b] == s[b]
        }),
{
    lemma_widths(p, l);
    let m = p.d.m as int;
    let ps = pf_core_passes(p, l);
    lemma_run2(s, ps[0], ps[1], m);
    assert(ps =~= seq![ps[0], ps[1]]);
    step_pf_serial(s, p, l);
    step_pack(
        step(s, ps[0], m),
        "g4m-pf-pack"@,
        MoeBuf::Pf(PfBuf::AttnF32),
        MoeBuf::Pf(PfBuf::AttnBf16),
        p.d.m * p.d.n_q * l.hd / 2,
        m,
    );
}

/// The attention of a chunk leaves for each row what a decode row's leaves, and writes the same
/// keys and values.
pub proof fn law_pf_attn(s: State, p: MoePlan, l: MoeLayer, x: MoeBuf, y: MoeBuf)
    requires
        sized(p, l),
        !pf_attn_scratch(x) && !cache_buf(l, x),
        !pf_attn_scratch(y) && !cache_buf(l, y),
    ensures
        ({
            let t = run(s, pf_attn_passes(p, l, x, y), p.d.m as int);
            let pos = s[MoeBuf::Pf(PfBuf::Pos)];
            &&& t[y] == attention(s, p, l, s[x], pos, false)
            &&& caches_hold(t, s, p, l, s[x], pos)
            &&& forall|b: MoeBuf|
                !pf_attn_scratch(b) && !cache_buf(l, b) && b != y ==> #[trigger] t[b] == s[b]
        }),
{
    lemma_widths(p, l);
    let m = p.d.m as int;
    let pos = s[MoeBuf::Pf(PfBuf::Pos)];
    let a = pf_qkv_passes(p, l, x);
    let b = pf_kv_passes(p, l);
    let c = pf_core_passes(p, l);
    let at = MoeBuf::Pf(PfBuf::AttnBf16);
    let d = crate::moe_emit::pf_gemm_pass(
        "g4m-pf-oproj"@,
        l.wo(p),
        at,
        p.d.n_q * l.hd / 2,
        y,
        p.d.hidden as int / 2,
        false,
        F32_ONE,
    );
    lemma_pf_qkv(s, p, l, x);
    let s1 = run(s, a, m);
    lemma_pf_kv(s1, p, l);
    lemma_run_cat(s, a, b, m);
    let s2 = run(s1, b, m);
    lemma_pf_core(s2, p, l);
    lemma_run_cat(s, a + b, c, m);
    let s3 = run(s2, c, m);
    lemma_run_cat(s, a + b + c, seq![d], m);
    lemma_run1(s3, d, m);
    step_pf_gemm(
        s3,
        "g4m-pf-oproj"@,
        l.wo(p),
        at,
        p.d.n_q * l.hd / 2,
        y,
        p.d.hidden as int / 2,
        false,
        F32_ONE,
        m,
    );
    assert(s3[at] == attended(s, p, l, s[x], pos, false));
}

} // verus!
