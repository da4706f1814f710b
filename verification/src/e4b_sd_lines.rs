//! The lines of the generated stages: those that the rewrite to shift-decoding passes by, and
//! those that call a decoder.
use vstd::prelude::*;
use crate::e4b_flash_src::{
    F1_ACC, F1_AFTER, F1_BODY, F1_DECL, F1_DOT, F1_END, F1_EPILOGUE, F1_KEEP, F1_KEY, F1_KEY_ELEM,
    F1_KEY_FIRST, F1_KEY_REST, F1_LOOP, F1_REDUCE_SG, F1_REDUCE_WB, F1_SCORE, F1_VALUE, QT_ACC,
    QT_DOT1, QT_DOT4, QT_END, QT_HEAD, QT_KEEP, QT_KEY, QT_KEY_ELEM, QT_KEY_END, QT_KEY_REST,
    QT_KEY_SCALAR, QT_KEY_WALK, QT_OUT_CLOSE, QT_OUT_OPEN, QT_PARTIAL, QT_ROUNDS, QT_ROUNDS_END,
    QT_ROW_VARS, QT_SCORE, QT_SOFTMAX, QT_STAGE, QT_VALUE, QT_VALUES, QT_VALUE_CLOSE, QT_VALUE_OPEN,
};
use crate::e4b_sd_text::{
    clean, clean_at, hole_ok, lemma_fill_clean, lemma_fill_last, lemma_fill_none, lemma_fill_sum,
    lined, plain_value,
};
use crate::text::with_text;
use crate::text_laws::lacks;

verus! {

/// Lines that call the decoder `m` once.
pub open spec fn calls(s: Seq<char>, m: Seq<char>, l: Seq<char>, r: Seq<char>) -> bool {
    &&& s == l + m + r
    &&& clean(l) && clean(r)
    &&& l.len() > 0 && l.last() == ' '
    &&& r.len() > 0 && r.last() == '\n'
}

pub open spec fn calls_once(s: Seq<char>, m: Seq<char>) -> bool {
    exists|l: Seq<char>, r: Seq<char>| #[trigger] calls(s, m, l, r)
}

/// Filling a hole leaves the call as it is.
pub proof fn lemma_fill_calls(
    s: Seq<char>,
    m: Seq<char>,
    l: Seq<char>,
    r: Seq<char>,
    hole: char,
    v: Seq<char>,
)
    requires
        calls(s, m, l, r),
        m.len() > 0,
        m.last() == '(',
        lacks(m, '{'),
        hole_ok(hole),
        plain_value(v),
    ensures
        calls(with_text(s, hole, v), m, with_text(l, hole, v), with_text(r, hole, v)),
{
    lemma_fill_sum(l + m, r, hole, v);
    lemma_fill_sum(l, m, hole, v);
    lemma_fill_none(m, hole, v);
    lemma_fill_clean(l, hole, v);
    lemma_fill_clean(r, hole, v);
    lemma_fill_last(l, hole, v);
    lemma_fill_last(r, hole, v);
}

pub proof fn lemma_f1_decl()
    ensures
        clean(F1_DECL@),
        lined(F1_DECL@),
{
    reveal_strlit(r"var<workgroup> f1{T}_qsh: array<f32, {H}>;
var<workgroup> f1{T}_sacc: array<f32, {A}>;
var<workgroup> f1{T}_sm: array<f32, 8>;
var<workgroup> f1{T}_sl: array<f32, 8>;
");
    let s = F1_DECL@;
    assert forall|i: int| 0 <= i < s.len() implies #[trigger] clean_at(s, i) by {}
}

pub proof fn lemma_f1_reduce_sg()
    ensures
        clean(F1_REDUCE_SG@),
        lined(F1_REDUCE_SG@),
{
    reveal_strlit(r"
fn f1{T}_reduce(lid: u32, x: f32) -> f32 {
    var a = x;
    a = a + subgroupShuffleXor(a, 16u);
    a = a + subgroupShuffleXor(a, 8u);
    a = a + subgroupShuffleXor(a, 4u);
    a = a + subgroupShuffleXor(a, 2u);
    a = a + subgroupShuffleXor(a, 1u);
    return a;
}
");
    let s = F1_REDUCE_SG@;
    assert forall|i: int| 0 <= i < s.len() implies #[trigger] clean_at(s, i) by {}
}

pub proof fn lemma_f1_reduce_wb()
    ensures
        clean(F1_REDUCE_WB@),
        lined(F1_REDUCE_WB@),
{
    reveal_strlit(r"var<workgroup> f1{T}_red: array<f32, 256>;

fn f1{T}_reduce(lid: u32, x: f32) -> f32 {
    f1{T}_red[lid] = x;
    workgroupBarrier();
    for (var o = 16u; o > 0u; o = o >> 1u) {
        let other = f1{T}_red[lid ^ o];
        workgroupBarrier();
        f1{T}_red[lid] = f1{T}_red[lid] + other;
        workgroupBarrier();
    }
    return f1{T}_red[lid];
}
");
    let s = F1_REDUCE_WB@;
    assert forall|i: int| 0 <= i < s.len() implies #[trigger] clean_at(s, i) by {}
}

#[verifier::rlimit(100)]
pub proof fn lemma_f1_epilogue()
    ensures
        clean(F1_EPILOGUE@),
        lined(F1_EPILOGUE@),
{
    reveal_strlit(r"
fn f1{T}_epilogue(lid: u32, lane: u32, warp: u32, hd: u32, slot: u32, m: f32, l: f32) {
    if (lane == 0u) {
        f1{T}_sm[warp] = m;
        f1{T}_sl[warp] = l;
    }
    workgroupBarrier();
    if (warp == 0u) {
        var m_blk = fd_neg_inf();
        for (var w = 0u; w < FD_WARPS; w = w + 1u) {
            m_blk = max(m_blk, f1{T}_sm[w]);
        }
        var l_blk = 0.0;
        for (var w = 0u; w < FD_WARPS; w = w + 1u) {
            if (f1{T}_sm[w] > fd_neg_inf()) {
           l_blk = l_blk + fd_round(f1{T}_sl[w] * fd_exp(f1{T}_sm[w] - m_blk));
            }
    }
        if (lane == 0u) {
            fd_scratch[slot] = m_blk;
            fd_scratch[slot + 1u] = l_blk;
        }
    }
    var m_blk = fd_neg_inf();
    for (var w = 0u; w < FD_WARPS; w = w + 1u) {
        m_blk = max(m_blk, f1{T}_sm[w]);
    }
    for (var d = lid; d < hd; d = d + FD_BLOCK) {
        var a = 0.0;
        for (var w = 0u; w < FD_WARPS; w = w + 1u) {
            if (f1{T}_sm[w] > fd_neg_inf()) {
                a = a + fd_round(f1{T}_sacc[w * {H}u + d] * fd_exp(f1{T}_sm[w] - m_blk));
            }
        }
        fd_scratch[slot + 2u + d] = a;
    }
}

@compute @workgroup_size(256)
");
    let s = F1_EPILOGUE@;
    assert forall|i: int| 0 <= i < s.len() implies #[trigger] clean_at(s, i) by {}
}

#[verifier::rlimit(40)]
pub proof fn lemma_f1_body()
    ensures
        clean(F1_BODY@),
        lined(F1_BODY@),
{
    reveal_strlit(r"    @builtin(workgroup_id) wg: vec3<u32>,
    @builtin(local_invocation_id) tid: vec3<u32>
) {
    let h = wg.x;
    let split = wg.y;
    if (h >= fd_params.n_heads) {
        return;
    }
    let hd = fd_params.head_dim;
    let nkv = fd_params.n_kv;
    let group = fd_params.n_heads / nkv;
    let kvh = h / group;
    let lid = tid.x;
    let lane = lid & 31u;
    let warp = lid >> 5u;

    for (var d = lid; d < hd; d = d + FD_BLOCK) {
        f1{T}_qsh[d] = fd_q[h * hd + d];
    }
    workgroupBarrier();

");
    let s = F1_BODY@;
    assert forall|i: int| 0 <= i < s.len() implies #[trigger] clean_at(s, i) by {}
}

pub proof fn lemma_f1_acc()
    ensures
        clean(F1_ACC@),
        lined(F1_ACC@),
{
    reveal_strlit(r"    var acc{i} = 0.0;
");
    let s = F1_ACC@;
    assert forall|i: int| 0 <= i < s.len() implies #[trigger] clean_at(s, i) by {}
}

#[verifier::rlimit(40)]
pub proof fn lemma_f1_loop()
    ensures
        clean(F1_LOOP@),
        lined(F1_LOOP@),
{
    reveal_strlit(r"    var m = fd_neg_inf();
    var l = 0.0;

    let total = fd_params.total;
    let base = fd_params.start + split * FD_WARPS;
    let stride = fd_params.splits * FD_WARPS;
    var rounds = 0u;
    if (total > base) {
        rounds = (total - base + stride - 1u) / stride;
    }
    let use_vec4 = (hd & 3u) == 0u;

    for (var r = 0u; r < rounds; r = r + 1u) {
        let p = base + warp + r * stride;
        let live = p < total;
        var sp = p;
        if (fd_params.ring > 0u) {
            sp = p % fd_params.ring;
        }
        var partial = 0.0;
        var ks = 0.0;
 if (live) {
            let kbase = (sp * nkv + kvh) * hd;
");
    let s = F1_LOOP@;
    assert forall|i: int| 0 <= i < s.len() implies #[trigger] clean_at(s, i) by {}
}

pub proof fn lemma_f1_key()
    ensures
        clean(F1_KEY@),
        lined(F1_KEY@),
{
    reveal_strlit(r"            if (use_vec4) {
                let n4 = hd >> 2u;
                for (var j = lane; j < n4; j = j + FD_LANES) {
                    let qb = j * 4u;
                    let kb = kbase + qb;
");
    let s = F1_KEY@;
    assert forall|i: int| 0 <= i < s.len() implies #[trigger] clean_at(s, i) by {}
}

pub proof fn lemma_f1_dot()
    ensures
        clean(F1_DOT@),
        lined(F1_DOT@),
{
    reveal_strlit(r"                var t = f1{T}_qsh[qb + 1u] * f1;
                    t = fma(f1{T}_qsh[qb], f0, t);
    t = fma(f1{T}_qsh[qb + 2u], f2, t);
                    t = fma(f1{T}_qsh[qb + 3u], f3, t);
                    partial = partial + t;
                }
            } else {
                for (var d = lane; d < hd; d = d + FD_LANES) {
");
    let s = F1_DOT@;
    assert forall|i: int| 0 <= i < s.len() implies #[trigger] clean_at(s, i) by {}
}

pub proof fn lemma_f1_score()
    ensures
        clean(F1_SCORE@),
        lined(F1_SCORE@),
{
    reveal_strlit(r"                }
          }
        }
        let score = (f1{T}_reduce(lid, partial) * ks) * fd_params.scaling;
        if (live) {
            let m_new = max(m, score);
        let corr = fd_exp(m - m_new);
            let w = fd_exp(score - m_new);
            l = fma(l, corr, w);
            let vbase = (sp * nkv + kvh) * hd;
");
    let s = F1_SCORE@;
    assert forall|i: int| 0 <= i < s.len() implies #[trigger] clean_at(s, i) by {}
}

pub proof fn lemma_f1_after()
    ensures
        clean(F1_AFTER@),
        lined(F1_AFTER@),
{
    reveal_strlit(r"            m = m_new;
        }
    }

");
    let s = F1_AFTER@;
    assert forall|i: int| 0 <= i < s.len() implies #[trigger] clean_at(s, i) by {}
}

pub proof fn lemma_f1_keep()
    ensures
        clean(F1_KEEP@),
        lined(F1_KEEP@),
{
    reveal_strlit(r"    {
        let d = lane + {i}u * FD_LANES;
        if (d < hd) {
            f1{T}_sacc[warp * {H}u + d] = acc{i};
        }
    }
");
    let s = F1_KEEP@;
    assert forall|i: int| 0 <= i < s.len() implies #[trigger] clean_at(s, i) by {}
}

pub proof fn lemma_f1_end()
    ensures
        clean(F1_END@),
        lined(F1_END@),
{
    reveal_strlit(r"    let slot = (h * fd_params.splits + split) * (hd + 2u);
    f1{T}_epilogue(lid, lane, warp, hd, slot, m, l);
}
");
    let s = F1_END@;
    assert forall|i: int| 0 <= i < s.len() implies #[trigger] clean_at(s, i) by {}
}

pub proof fn lemma_qt_head()
    ensures
        clean(QT_HEAD@),
        lined(QT_HEAD@),
{
    reveal_strlit(r"
@compute @workgroup_size(256)
");
    let s = QT_HEAD@;
    assert forall|i: int| 0 <= i < s.len() implies #[trigger] clean_at(s, i) by {}
}

#[verifier::rlimit(100)]
pub proof fn lemma_qt_stage()
    ensures
        clean(QT_STAGE@),
        lined(QT_STAGE@),
{
    reveal_strlit(r"    @builtin(workgroup_id) wg: vec3<u32>,
    @builtin(local_invocation_id) tid: vec3<u32>
) {
    let h = wg.x;
    let split = wg.y;
    if (h >= fd_params.n_heads) {
        return;
    }
    let hd = fd_params.head_dim;
    let nkv = fd_params.n_kv;
    let group = fd_params.n_heads / nkv;
    let kvh = h / group;
    let lid = tid.x;
    let lane = lid & 31u;
    let warp = lid >> 5u;
    let mr = fd_params.m_rows;
    let use_vec4 = (hd & 3u) == 0u;
    let stride = fd_params.splits * FD_WARPS;
    let base = split * FD_WARPS;

    for (var q0 = 0u; q0 < mr; q0 = q0 + {Q}u) {
        workgroupBarrier();
        for (var t = lid; t < {Q}u * hd; t = t + FD_BLOCK) {
            let jj = t / hd;
            let d = t - jj * hd;
            let qi = q0 + jj;
            var qv = 0.0;
            if (qi < mr) {
                qv = fd_q[(qi * fd_params.n_heads + h) * hd + d];
            }
            fd_qsh_mk[t] = qv;
        }
        workgroupBarrier();
");
    let s = QT_STAGE@;
    assert forall|i: int| 0 <= i < s.len() implies #[trigger] clean_at(s, i) by {}
}

pub proof fn lemma_qt_row_vars()
    ensures
        clean(QT_ROW_VARS@),
        lined(QT_ROW_VARS@),
{
    reveal_strlit(r"        var m{j} = fd_neg_inf();
        var l{j} = 0.0;
");
    let s = QT_ROW_VARS@;
    assert forall|i: int| 0 <= i < s.len() implies #[trigger] clean_at(s, i) by {}
}

pub proof fn lemma_qt_acc()
    ensures
        clean(QT_ACC@),
        lined(QT_ACC@),
{
    reveal_strlit(r"        var a{j}_{i} = 0.0;
");
    let s = QT_ACC@;
    assert forall|i: int| 0 <= i < s.len() implies #[trigger] clean_at(s, i) by {}
}

#[verifier::rlimit(40)]
pub proof fn lemma_qt_rounds()
    ensures
        clean(QT_ROUNDS@),
        lined(QT_ROUNDS@),
{
    reveal_strlit(r"        let qhi = min(q0 + {Q}u - 1u, mr - 1u);
        let tot_hi = fd_params.total - (mr - 1u - qhi);
        var rounds = 0u;
        if (tot_hi > base) {
            rounds = (tot_hi - base + stride - 1u) / stride;
        }
        for (var r = 0u; r < rounds; r = r + 1u) {
            let p = base + warp + r * stride;
            let any = p < tot_hi;
            var sp = p;
            if (fd_params.ring > 0u) {
                sp = p % fd_params.ring;
            }
");
    let s = QT_ROUNDS@;
    assert forall|i: int| 0 <= i < s.len() implies #[trigger] clean_at(s, i) by {}
}

pub proof fn lemma_qt_partial()
    ensures
        clean(QT_PARTIAL@),
        lined(QT_PARTIAL@),
{
    reveal_strlit(r"            var pt{j} = 0.0;
");
    let s = QT_PARTIAL@;
    assert forall|i: int| 0 <= i < s.len() implies #[trigger] clean_at(s, i) by {}
}

pub proof fn lemma_qt_key()
    ensures
        clean(QT_KEY@),
        lined(QT_KEY@),
{
    reveal_strlit(r"            var ks = 0.0;
            if (any) {
                let kbase = (sp * nkv + kvh) * hd;
");
    let s = QT_KEY@;
    assert forall|i: int| 0 <= i < s.len() implies #[trigger] clean_at(s, i) by {}
}

pub proof fn lemma_qt_key_walk()
    ensures
        clean(QT_KEY_WALK@),
        lined(QT_KEY_WALK@),
{
    reveal_strlit(r"                if (use_vec4) {
                    let n4 = hd >> 2u;
                    for (var jv = lane; jv < n4; jv = jv + FD_LANES) {
                        let qb = jv * 4u;
                        let kb = kbase + qb;
");
    let s = QT_KEY_WALK@;
    assert forall|i: int| 0 <= i < s.len() implies #[trigger] clean_at(s, i) by {}
}

pub proof fn lemma_qt_dot4()
    ensures
        clean(QT_DOT4@),
        lined(QT_DOT4@),
{
    reveal_strlit(r"                        {
                            let qo = {j}u * hd + qb;
                            var t = fd_qsh_mk[qo + 1u] * e1;
                            t = fma(fd_qsh_mk[qo], e0, t);
                            t = fma(fd_qsh_mk[qo + 2u], e2, t);
                            t = fma(fd_qsh_mk[qo + 3u], e3, t);
                            pt{j} = pt{j} + t;
                        }
");
    let s = QT_DOT4@;
    assert forall|i: int| 0 <= i < s.len() implies #[trigger] clean_at(s, i) by {}
}

pub proof fn lemma_qt_key_scalar()
    ensures
        clean(QT_KEY_SCALAR@),
        lined(QT_KEY_SCALAR@),
{
    reveal_strlit(r"                    }
                } else {
                    for (var d = lane; d < hd; d = d + FD_LANES) {
");
    let s = QT_KEY_SCALAR@;
    assert forall|i: int| 0 <= i < s.len() implies #[trigger] clean_at(s, i) by {}
}

pub proof fn lemma_qt_dot1()
    ensures
        clean(QT_DOT1@),
        lined(QT_DOT1@),
{
    reveal_strlit(r"                        pt{j} = fma(fd_qsh_mk[{j}u * hd + d], kx, pt{j});
");
    let s = QT_DOT1@;
    assert forall|i: int| 0 <= i < s.len() implies #[trigger] clean_at(s, i) by {}
}

pub proof fn lemma_qt_key_end()
    ensures
        clean(QT_KEY_END@),
        lined(QT_KEY_END@),
{
    reveal_strlit(r"                    }
                }
            }
");
    let s = QT_KEY_END@;
    assert forall|i: int| 0 <= i < s.len() implies #[trigger] clean_at(s, i) by {}
}

pub proof fn lemma_qt_score()
    ensures
        clean(QT_SCORE@),
        lined(QT_SCORE@),
{
    reveal_strlit(r"            let sc{j} = (fd_warp_sum(lid, pt{j}) * ks) * fd_params.scaling;
");
    let s = QT_SCORE@;
    assert forall|i: int| 0 <= i < s.len() implies #[trigger] clean_at(s, i) by {}
}

pub proof fn lemma_qt_values()
    ensures
        clean(QT_VALUES@),
        lined(QT_VALUES@),
{
    reveal_strlit(r"            if (any) {
                let vbase = (sp * nkv + kvh) * hd;
");
    let s = QT_VALUES@;
    assert forall|i: int| 0 <= i < s.len() implies #[trigger] clean_at(s, i) by {}
}

#[verifier::rlimit(40)]
pub proof fn lemma_qt_softmax()
    ensures
        clean(QT_SOFTMAX@),
        lined(QT_SOFTMAX@),
{
    reveal_strlit(r"                let qj{j} = min(q0 + {j}u, mr - 1u);
                let lv{j} = (q0 + {j}u < mr) && (p < fd_params.total - (mr - 1u - qj{j}));
                var cr{j} = 1.0;
                var wv{j} = 0.0;
                if (lv{j}) {
                    let mn = max(m{j}, sc{j});
                    cr{j} = fd_exp(m{j} - mn);
                    let wt = fd_exp(sc{j} - mn);
                    l{j} = fma(l{j}, cr{j}, wt);
                    wv{j} = wt * vsc;
                    m{j} = mn;
                }
");
    let s = QT_SOFTMAX@;
    assert forall|i: int| 0 <= i < s.len() implies #[trigger] clean_at(s, i) by {}
}

pub proof fn lemma_qt_value()
    ensures
        clean(QT_VALUE@),
        lined(QT_VALUE@),
{
    reveal_strlit(r"                        if (lv{j}) {
                            a{j}_{i} = fma(wv{j}, vx, a{j}_{i} * cr{j});
                        }
");
    let s = QT_VALUE@;
    assert forall|i: int| 0 <= i < s.len() implies #[trigger] clean_at(s, i) by {}
}

pub proof fn lemma_qt_value_close()
    ensures
        clean(QT_VALUE_CLOSE@),
        lined(QT_VALUE_CLOSE@),
{
    reveal_strlit(r"                    }
                }
");
    let s = QT_VALUE_CLOSE@;
    assert forall|i: int| 0 <= i < s.len() implies #[trigger] clean_at(s, i) by {}
}

pub proof fn lemma_qt_rounds_end()
    ensures
        clean(QT_ROUNDS_END@),
        lined(QT_ROUNDS_END@),
{
    reveal_strlit(r"            }
        }

");
    let s = QT_ROUNDS_END@;
    assert forall|i: int| 0 <= i < s.len() implies #[trigger] clean_at(s, i) by {}
}

pub proof fn lemma_qt_out_open()
    ensures
        clean(QT_OUT_OPEN@),
        lined(QT_OUT_OPEN@),
{
    reveal_strlit(r"        if (q0 + {j}u < mr) {
            workgroupBarrier();
");
    let s = QT_OUT_OPEN@;
    assert forall|i: int| 0 <= i < s.len() implies #[trigger] clean_at(s, i) by {}
}

pub proof fn lemma_qt_keep()
    ensures
        clean(QT_KEEP@),
        lined(QT_KEEP@),
{
    reveal_strlit(r"            {
                let d = lane + {i}u * FD_LANES;
                if (d < hd) {
                    fd_sacc[warp * FD_MAX_HD + d] = a{j}_{i};
                }
            }
");
    let s = QT_KEEP@;
    assert forall|i: int| 0 <= i < s.len() implies #[trigger] clean_at(s, i) by {}
}

pub proof fn lemma_qt_out_close()
    ensures
        clean(QT_OUT_CLOSE@),
        lined(QT_OUT_CLOSE@),
{
    reveal_strlit(r"            let slot{j} = ((h * mr + q0 + {j}u) * fd_params.splits + split) * (hd + 2u);
            fd_stage1_epilogue(lid, lane, warp, hd, slot{j}, m{j}, l{j});
        }
");
    let s = QT_OUT_CLOSE@;
    assert forall|i: int| 0 <= i < s.len() implies #[trigger] clean_at(s, i) by {}
}

pub proof fn lemma_qt_end()
    ensures
        clean(QT_END@),
        lined(QT_END@),
{
    reveal_strlit(r"    }
}
");
    let s = QT_END@;
    assert forall|i: int| 0 <= i < s.len() implies #[trigger] clean_at(s, i) by {}
}

pub proof fn lemma_f1_key_first()
    ensures
        calls_once(F1_KEY_FIRST@, "fd_k_fp8("@),
{
    reveal_strlit(r"                    let f0 = fd_k_fp8(kb);
");
    reveal_strlit(r"                    let f0 = ");
    reveal_strlit("fd_k_fp8(");
    reveal_strlit(r"kb);
");
    let l = r"                    let f0 = "@;
    let r = r"kb);
"@;
    assert(F1_KEY_FIRST@ =~= l + "fd_k_fp8("@ + r);
    assert forall|i: int| 0 <= i < l.len() implies #[trigger] clean_at(l, i) by {}
    assert forall|i: int| 0 <= i < r.len() implies #[trigger] clean_at(r, i) by {}
    assert(calls(F1_KEY_FIRST@, "fd_k_fp8("@, l, r));
}

pub proof fn lemma_f1_key_elem()
    ensures
        calls_once(F1_KEY_ELEM@, "fd_k_fp8("@),
{
    reveal_strlit(r"                    let f{i} = fd_k_fp8(kb + {i}u);
");
    reveal_strlit(r"                    let f{i} = ");
    reveal_strlit("fd_k_fp8(");
    reveal_strlit(r"kb + {i}u);
");
    let l = r"                    let f{i} = "@;
    let r = r"kb + {i}u);
"@;
    assert(F1_KEY_ELEM@ =~= l + "fd_k_fp8("@ + r);
    assert forall|i: int| 0 <= i < l.len() implies #[trigger] clean_at(l, i) by {}
    assert forall|i: int| 0 <= i < r.len() implies #[trigger] clean_at(r, i) by {}
    assert(calls(F1_KEY_ELEM@, "fd_k_fp8("@, l, r));
}

pub proof fn lemma_f1_key_rest()
    ensures
        calls_once(F1_KEY_REST@, "fd_k_fp8("@),
{
    reveal_strlit(r"                    partial = fma(f1{T}_qsh[d], fd_k_fp8(kbase + d), partial);
");
    reveal_strlit(r"                    partial = fma(f1{T}_qsh[d], ");
    reveal_strlit("fd_k_fp8(");
    reveal_strlit(r"kbase + d), partial);
");
    let l = r"                    partial = fma(f1{T}_qsh[d], "@;
    let r = r"kbase + d), partial);
"@;
    assert(F1_KEY_REST@ =~= l + "fd_k_fp8("@ + r);
    assert forall|i: int| 0 <= i < l.len() implies #[trigger] clean_at(l, i) by {}
    assert forall|i: int| 0 <= i < r.len() implies #[trigger] clean_at(r, i) by {}
    assert(calls(F1_KEY_REST@, "fd_k_fp8("@, l, r));
}

pub proof fn lemma_f1_value()
    ensures
        calls_once(F1_VALUE@, "fd_v_fp8("@),
{
    reveal_strlit(r"            {
                let d = lane + {i}u * FD_LANES;
                if (d < hd) {
                    acc{i} = fma(w_v, fd_v_fp8(vbase + d), acc{i} * corr);
                }
            }
");
    reveal_strlit(r"            {
                let d = lane + {i}u * FD_LANES;
                if (d < hd) {
                    acc{i} = fma(w_v, ");
    reveal_strlit("fd_v_fp8(");
    reveal_strlit(r"vbase + d), acc{i} * corr);
                }
            }
");
    let l = r"            {
                let d = lane + {i}u * FD_LANES;
                if (d < hd) {
                    acc{i} = fma(w_v, "@;
    let r = r"vbase + d), acc{i} * corr);
                }
            }
"@;
    assert(F1_VALUE@ =~= l + "fd_v_fp8("@ + r);
    assert forall|i: int| 0 <= i < l.len() implies #[trigger] clean_at(l, i) by {}
    assert forall|i: int| 0 <= i < r.len() implies #[trigger] clean_at(r, i) by {}
    assert(calls(F1_VALUE@, "fd_v_fp8("@, l, r));
}

pub proof fn lemma_qt_key_elem()
    ensures
        calls_once(QT_KEY_ELEM@, "fd_k_fp8("@),
{
    reveal_strlit(r"                        let e{i} = fd_k_fp8(kb + {i}u);
");
    reveal_strlit(r"                        let e{i} = ");
    reveal_strlit("fd_k_fp8(");
    reveal_strlit(r"kb + {i}u);
");
    let l = r"                        let e{i} = "@;
    let r = r"kb + {i}u);
"@;
    assert(QT_KEY_ELEM@ =~= l + "fd_k_fp8("@ + r);
    assert forall|i: int| 0 <= i < l.len() implies #[trigger] clean_at(l, i) by {}
    assert forall|i: int| 0 <= i < r.len() implies #[trigger] clean_at(r, i) by {}
    assert(calls(QT_KEY_ELEM@, "fd_k_fp8("@, l, r));
}

pub proof fn lemma_qt_key_rest()
    ensures
        calls_once(QT_KEY_REST@, "fd_k_fp8("@),
{
    reveal_strlit(r"                        let kx = fd_k_fp8(kbase + d);
");
    reveal_strlit(r"                        let kx = ");
    reveal_strlit("fd_k_fp8(");
    reveal_strlit(r"kbase + d);
");
    let l = r"                        let kx = "@;
    let r = r"kbase + d);
"@;
    assert(QT_KEY_REST@ =~= l + "fd_k_fp8("@ + r);
    assert forall|i: int| 0 <= i < l.len() implies #[trigger] clean_at(l, i) by {}
    assert forall|i: int| 0 <= i < r.len() implies #[trigger] clean_at(r, i) by {}
    assert(calls(QT_KEY_REST@, "fd_k_fp8("@, l, r));
}

pub proof fn lemma_qt_value_open()
    ensures
        calls_once(QT_VALUE_OPEN@, "fd_v_fp8("@),
{
    reveal_strlit(r"                {
                    let d = lane + {i}u * FD_LANES;
                    if (d < hd) {
                        let vx = fd_v_fp8(vbase + d);
");
    reveal_strlit(r"                {
                    let d = lane + {i}u * FD_LANES;
                    if (d < hd) {
                        let vx = ");
    reveal_strlit("fd_v_fp8(");
    reveal_strlit(r"vbase + d);
");
    let l = r"                {
                    let d = lane + {i}u * FD_LANES;
                    if (d < hd) {
                        let vx = "@;
    let r = r"vbase + d);
"@;
    assert(QT_VALUE_OPEN@ =~= l + "fd_v_fp8("@ + r);
    assert forall|i: int| 0 <= i < l.len() implies #[trigger] clean_at(l, i) by {}
    assert forall|i: int| 0 <= i < r.len() implies #[trigger] clean_at(r, i) by {}
    assert(calls(QT_VALUE_OPEN@, "fd_v_fp8("@, l, r));
}

} // verus!
