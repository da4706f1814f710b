//! Sources of the attention stages and norm chains, generated for given widths.
use vstd::prelude::*;
use crate::e4b_sd_laws::{law_flash1_shift_decodes, law_qtile_shift_decodes};
use crate::e4b_sd_pieces::undone;
use crate::text::{
    chars_of, contains, count_from, count_of, dec, decimal, each_text, fill_num, fill_text,
    find_from, first_from, last_until, mentions, nest_text, push_each, push_nest, push_scaled,
    replace_all, replace_first, replaced, replaced_once, rfind_until, scaled_text, with_num,
    with_text,
};

verus! {

/// Workgroup storage of the first attention stage.
pub const F1_DECL: &'static str = r"var<workgroup> f1{T}_qsh: array<f32, {H}>;
var<workgroup> f1{T}_sacc: array<f32, {A}>;
var<workgroup> f1{T}_sm: array<f32, 8>;
var<workgroup> f1{T}_sl: array<f32, 8>;
";

/// Reduction by subgroup shuffles.
pub const F1_REDUCE_SG: &'static str = r"
fn f1{T}_reduce(lid: u32, x: f32) -> f32 {
    var a = x;
    a = a + subgroupShuffleXor(a, 16u);
    a = a + subgroupShuffleXor(a, 8u);
    a = a + subgroupShuffleXor(a, 4u);
    a = a + subgroupShuffleXor(a, 2u);
    a = a + subgroupShuffleXor(a, 1u);
    return a;
}
";

/// Reduction through workgroup storage.
pub const F1_REDUCE_WB: &'static str = r"var<workgroup> f1{T}_red: array<f32, 256>;

fn f1{T}_reduce(lid: u32, x: f32) -> f32 {
    f1{T}_red[lid] = x;
    workgroupBarrier();
    for (var o = 16u; o > 0u; o = o >> 1u) {
        let other = f1{T}_red[lid ^ o];
        workgroupBarrier();
        f1{T}_red[lid] = f1{T}_red[lid] + other;
        workgroupBarrier();
    }
    return f1{T}_red[lid];
}
";

/// The epilogue.
pub const F1_EPILOGUE: &'static str = r"
fn f1{T}_epilogue(lid: u32, lane: u32, warp: u32, hd: u32, slot: u32, m: f32, l: f32) {
    if (lane == 0u) {
        f1{T}_sm[warp] = m;
        f1{T}_sl[warp] = l;
    }
    workgroupBarrier();
    if (warp == 0u) {
        var m_blk = fd_neg_inf();
        for (var w = 0u; w < FD_WARPS; w = w + 1u) {
            m_blk = max(m_blk, f1{T}_sm[w]);
        }
        var l_blk = 0.0;
        for (var w = 0u; w < FD_WARPS; w = w + 1u) {
            if (f1{T}_sm[w] > fd_neg_inf()) {
           l_blk = l_blk + fd_round(f1{T}_sl[w] * fd_exp(f1{T}_sm[w] - m_blk));
            }
    }
        if (lane == 0u) {
            fd_scratch[slot] = m_blk;
            fd_scratch[slot + 1u] = l_blk;
        }
    }
    var m_blk = fd_neg_inf();
    for (var w = 0u; w < FD_WARPS; w = w + 1u) {
        m_blk = max(m_blk, f1{T}_sm[w]);
    }
    for (var d = lid; d < hd; d = d + FD_BLOCK) {
        var a = 0.0;
        for (var w = 0u; w < FD_WARPS; w = w + 1u) {
            if (f1{T}_sm[w] > fd_neg_inf()) {
                a = a + fd_round(f1{T}_sacc[w * {H}u + d] * fd_exp(f1{T}_sm[w] - m_blk));
            }
        }
        fd_scratch[slot + 2u + d] = a;
    }
}

@compute @workgroup_size(256)
";

/// The declaration of a stage.
pub const STAGE_DECL: &'static str = r"fn {E}(
";

/// The start of the stage.
pub const F1_BODY: &'static str = r"    @builtin(workgroup_id) wg: vec3<u32>,
    @builtin(local_invocation_id) tid: vec3<u32>
) {
    let h = wg.x;
    let split = wg.y;
    if (h >= fd_params.n_heads) {
        return;
    }
    let hd = fd_params.head_dim;
    let nkv = fd_params.n_kv;
    let group = fd_params.n_heads / nkv;
    let kvh = h / group;
    let lid = tid.x;
    let lane = lid & 31u;
    let warp = lid >> 5u;

    for (var d = lid; d < hd; d = d + FD_BLOCK) {
        f1{T}_qsh[d] = fd_q[h * hd + d];
    }
    workgroupBarrier();

";

/// One accumulator per 32 head elements.
pub const F1_ACC: &'static str = r"    var acc{i} = 0.0;
";

/// The walk over keys.
pub const F1_LOOP: &'static str = r"    var m = fd_neg_inf();
    var l = 0.0;

    let total = fd_params.total;
    let base = fd_params.start + split * FD_WARPS;
    let stride = fd_params.splits * FD_WARPS;
    var rounds = 0u;
    if (total > base) {
        rounds = (total - base + stride - 1u) / stride;
    }
    let use_vec4 = (hd & 3u) == 0u;

    for (var r = 0u; r < rounds; r = r + 1u) {
        let p = base + warp + r * stride;
        let live = p < total;
        var sp = p;
        if (fd_params.ring > 0u) {
            sp = p % fd_params.ring;
        }
        var partial = 0.0;
        var ks = 0.0;
 if (live) {
            let kbase = (sp * nkv + kvh) * hd;
";

/// The scale of a key.
pub const F1_KEY_SCALE: &'static str = r"            ks = fd_k_scales[sp * nkv + kvh];
";

/// The vector walk over a key.
pub const F1_KEY: &'static str = r"            if (use_vec4) {
                let n4 = hd >> 2u;
                for (var j = lane; j < n4; j = j + FD_LANES) {
                    let qb = j * 4u;
                    let kb = kbase + qb;
";

/// The first key element of four.
pub const F1_KEY_FIRST: &'static str = r"                    let f0 = fd_k_fp8(kb);
";

/// One key element more.
pub const F1_KEY_ELEM: &'static str = r"                    let f{i} = fd_k_fp8(kb + {i}u);
";

/// The product with four key elements, and the walk without vectors.
pub const F1_DOT: &'static str = r"                var t = f1{T}_qsh[qb + 1u] * f1;
                    t = fma(f1{T}_qsh[qb], f0, t);
    t = fma(f1{T}_qsh[qb + 2u], f2, t);
                    t = fma(f1{T}_qsh[qb + 3u], f3, t);
                    partial = partial + t;
                }
            } else {
                for (var d = lane; d < hd; d = d + FD_LANES) {
";

/// The product with one key element.
pub const F1_KEY_REST: &'static str = r"                    partial = fma(f1{T}_qsh[d], fd_k_fp8(kbase + d), partial);
";

/// The running softmax.
pub const F1_SCORE: &'static str = r"                }
          }
        }
        let score = (f1{T}_reduce(lid, partial) * ks) * fd_params.scaling;
        if (live) {
            let m_new = max(m, score);
        let corr = fd_exp(m - m_new);
            let w = fd_exp(score - m_new);
            l = fma(l, corr, w);
            let vbase = (sp * nkv + kvh) * hd;
";

/// The scale of a value.
pub const F1_VALUE_SCALE: &'static str = r"            let w_v = w * fd_v_scales[sp * nkv + kvh];
";

/// A value accumulation.
pub const F1_VALUE: &'static str = r"            {
                let d = lane + {i}u * FD_LANES;
                if (d < hd) {
                    acc{i} = fma(w_v, fd_v_fp8(vbase + d), acc{i} * corr);
                }
            }
";

/// The end of the walk.
pub const F1_AFTER: &'static str = r"            m = m_new;
        }
    }

";

/// An accumulator into workgroup storage.
pub const F1_KEEP: &'static str = r"    {
        let d = lane + {i}u * FD_LANES;
        if (d < hd) {
            f1{T}_sacc[warp * {H}u + d] = acc{i};
        }
    }
";

/// The end of the stage.
pub const F1_END: &'static str = r"    let slot = (h * fd_params.splits + split) * (hd + 2u);
    f1{T}_epilogue(lid, lane, warp, hd, slot, m, l);
}
";

/// Start of the query-tiled stage.
pub const QT_HEAD: &'static str = r"
@compute @workgroup_size(256)
";

/// Its staging of query rows.
pub const QT_STAGE: &'static str = r"    @builtin(workgroup_id) wg: vec3<u32>,
    @builtin(local_invocation_id) tid: vec3<u32>
) {
    let h = wg.x;
    let split = wg.y;
    if (h >= fd_params.n_heads) {
        return;
    }
    let hd = fd_params.head_dim;
    let nkv = fd_params.n_kv;
    let group = fd_params.n_heads / nkv;
    let kvh = h / group;
    let lid = tid.x;
    let lane = lid & 31u;
    let warp = lid >> 5u;
    let mr = fd_params.m_rows;
    let use_vec4 = (hd & 3u) == 0u;
    let stride = fd_params.splits * FD_WARPS;
    let base = split * FD_WARPS;

    for (var q0 = 0u; q0 < mr; q0 = q0 + {Q}u) {
        workgroupBarrier();
        for (var t = lid; t < {Q}u * hd; t = t + FD_BLOCK) {
            let jj = t / hd;
            let d = t - jj * hd;
            let qi = q0 + jj;
            var qv = 0.0;
            if (qi < mr) {
                qv = fd_q[(qi * fd_params.n_heads + h) * hd + d];
            }
            fd_qsh_mk[t] = qv;
        }
        workgroupBarrier();
";

/// The running softmax of a query row.
pub const QT_ROW_VARS: &'static str = r"        var m{j} = fd_neg_inf();
        var l{j} = 0.0;
";

/// One accumulator of a query row.
pub const QT_ACC: &'static str = r"        var a{j}_{i} = 0.0;
";

/// The walk over keys.
pub const QT_ROUNDS: &'static str = r"        let qhi = min(q0 + {Q}u - 1u, mr - 1u);
        let tot_hi = fd_params.total - (mr - 1u - qhi);
        var rounds = 0u;
        if (tot_hi > base) {
            rounds = (tot_hi - base + stride - 1u) / stride;
        }
        for (var r = 0u; r < rounds; r = r + 1u) {
            let p = base + warp + r * stride;
            let any = p < tot_hi;
            var sp = p;
            if (fd_params.ring > 0u) {
                sp = p % fd_params.ring;
            }
";

/// A query row's partial score.
pub const QT_PARTIAL: &'static str = r"            var pt{j} = 0.0;
";

/// The key of one position.
pub const QT_KEY: &'static str = r"            var ks = 0.0;
            if (any) {
                let kbase = (sp * nkv + kvh) * hd;
";

/// The scale of the key.
pub const QT_KEY_SCALE: &'static str = r"                ks = fd_k_scales[sp * nkv + kvh];
";

/// The vector walk over the key.
pub const QT_KEY_WALK: &'static str = r"                if (use_vec4) {
                    let n4 = hd >> 2u;
                    for (var jv = lane; jv < n4; jv = jv + FD_LANES) {
                        let qb = jv * 4u;
                        let kb = kbase + qb;
";

/// One key element.
pub const QT_KEY_ELEM: &'static str = r"                        let e{i} = fd_k_fp8(kb + {i}u);
";

/// A query row's product with four key elements.
pub const QT_DOT4: &'static str = r"                        {
                            let qo = {j}u * hd + qb;
                            var t = fd_qsh_mk[qo + 1u] * e1;
                            t = fma(fd_qsh_mk[qo], e0, t);
                            t = fma(fd_qsh_mk[qo + 2u], e2, t);
                            t = fma(fd_qsh_mk[qo + 3u], e3, t);
                            pt{j} = pt{j} + t;
                        }
";

/// The key walk without vectors.
pub const QT_KEY_SCALAR: &'static str = r"                    }
                } else {
                    for (var d = lane; d < hd; d = d + FD_LANES) {
";

/// One key element of it.
pub const QT_KEY_REST: &'static str = r"                        let kx = fd_k_fp8(kbase + d);
";

/// A query row's product with one key element.
pub const QT_DOT1: &'static str = r"                        pt{j} = fma(fd_qsh_mk[{j}u * hd + d], kx, pt{j});
";

/// The end of the key.
pub const QT_KEY_END: &'static str = r"                    }
                }
            }
";

/// A query row's score.
pub const QT_SCORE: &'static str = r"            let sc{j} = (fd_warp_sum(lid, pt{j}) * ks) * fd_params.scaling;
";

/// The value of one position.
pub const QT_VALUES: &'static str = r"            if (any) {
                let vbase = (sp * nkv + kvh) * hd;
";

/// The scale of the value.
pub const QT_VALUE_SCALE: &'static str = r"                let vsc = fd_v_scales[sp * nkv + kvh];
";

/// A query row's softmax step.
pub const QT_SOFTMAX: &'static str = r"                let qj{j} = min(q0 + {j}u, mr - 1u);
                let lv{j} = (q0 + {j}u < mr) && (p < fd_params.total - (mr - 1u - qj{j}));
                var cr{j} = 1.0;
                var wv{j} = 0.0;
                if (lv{j}) {
                    let mn = max(m{j}, sc{j});
                    cr{j} = fd_exp(m{j} - mn);
                    let wt = fd_exp(sc{j} - mn);
                    l{j} = fma(l{j}, cr{j}, wt);
                    wv{j} = wt * vsc;
                    m{j} = mn;
                }
";

/// One slice of the value.
pub const QT_VALUE_OPEN: &'static str = r"                {
                    let d = lane + {i}u * FD_LANES;
                    if (d < hd) {
                        let vx = fd_v_fp8(vbase + d);
";

/// A query row's value accumulation.
pub const QT_VALUE: &'static str = r"                        if (lv{j}) {
                            a{j}_{i} = fma(wv{j}, vx, a{j}_{i} * cr{j});
                        }
";

/// The end of the slice.
pub const QT_VALUE_CLOSE: &'static str = r"                    }
                }
";

/// The end of the walk.
pub const QT_ROUNDS_END: &'static str = r"            }
        }

";

/// The output of a query row.
pub const QT_OUT_OPEN: &'static str = r"        if (q0 + {j}u < mr) {
            workgroupBarrier();
";

/// An accumulator into workgroup storage.
pub const QT_KEEP: &'static str = r"            {
                let d = lane + {i}u * FD_LANES;
                if (d < hd) {
                    fd_sacc[warp * FD_MAX_HD + d] = a{j}_{i};
                }
            }
";

/// The epilogue of a query row.
pub const QT_OUT_CLOSE: &'static str = r"            let slot{j} = ((h * mr + q0 + {j}u) * fd_params.splits + split) * (hd + 2u);
            fd_stage1_epilogue(lid, lane, warp, hd, slot{j}, m{j}, l{j});
        }
";

/// The end of the stage.
pub const QT_END: &'static str = r"    }
}
";

/// Storage, reduction and start of the deep stage.
pub const DT_HEAD: &'static str = r"var<workgroup> {P}_qsh: array<f32, {A}>;
var<workgroup> {P}_sacc: array<f32, {B}>;
var<workgroup> {P}_sm: array<f32, 8>;
var<workgroup> {P}_sl: array<f32, 8>;

fn {P}_reduce(lid: u32, x: f32) -> f32 {
    var a = x;
    a = a + subgroupShuffleXor(a, 16u);
    a = a + subgroupShuffleXor(a, 8u);
    a = a + subgroupShuffleXor(a, 4u);
    a = a + subgroupShuffleXor(a, 2u);
    a = a + subgroupShuffleXor(a, 1u);
    return a;
}

fn {P}_epilogue(lid: u32, lane: u32, warp: u32, hd: u32, slot: u32, m: f32, l: f32) {
    if (lane == 0u) {
        {P}_sm[warp] = m;
        {P}_sl[warp] = l;
    }
    workgroupBarrier();
    if (warp == 0u) {
        var m_blk = fd_neg_inf();
        for (var w = 0u; w < FD_WARPS; w = w + 1u) {
            m_blk = max(m_blk, {P}_sm[w]);
        }
        var l_blk = 0.0;
        for (var w = 0u; w < FD_WARPS; w = w + 1u) {
            if ({P}_sm[w] > fd_neg_inf()) {
             l_blk = l_blk + fd_round({P}_sl[w] * fd_exp({P}_sm[w] - m_blk));
            }
       }
        if (lane == 0u) {
            fd_scratch[slot] = m_blk;
            fd_scratch[slot + 1u] = l_blk;
        }
    }
    var m_blk = fd_neg_inf();
    for (var w = 0u; w < FD_WARPS; w = w + 1u) {
        m_blk = max(m_blk, {P}_sm[w]);
    }
    for (var d = lid; d < hd; d = d + FD_BLOCK) {
        var a = 0.0;
        for (var w = 0u; w < FD_WARPS; w = w + 1u) {
            if ({P}_sm[w] > fd_neg_inf()) {
                a = a + fd_round({P}_sacc[w * {H}u + d] * fd_exp({P}_sm[w] - m_blk));
            }
        }
        fd_scratch[slot + 2u + d] = a;
    }
}

@compute @workgroup_size(256)
fn {E}(
    @builtin(workgroup_id) wg: vec3<u32>,
    @builtin(local_invocation_id) tid: vec3<u32>
) {
    let h0 = wg.x * {F}u;
    let split = wg.y;
    if (h0 >= fd_params.n_heads) {
        return;
  }
    let hd = fd_params.head_dim;
    let nkv = fd_params.n_kv;
    let group = fd_params.n_heads / nkv;
    let kvh = h0 / group;
    let lid = tid.x;
    let lane = lid & 31u;
    let warp = lid >> 5u;

    for (var d = lid; d < hd * {F}u; d = d + FD_BLOCK) {
        {P}_qsh[d] = fd_q[h0 * hd + d];
    }
    workgroupBarrier();
";

/// The running softmax of a query head.
pub const DT_ROW_VARS: &'static str = r"    var m{j} = fd_neg_inf();
    var l{j} = 0.0;
";

/// One accumulator of a query head.
pub const DT_ACC: &'static str = r"    var a{j}_{i} = 0.0;
";

/// The walk over keys.
pub const DT_ROUNDS: &'static str = r"    let total = fd_params.total;
    let base = fd_params.start + split * FD_WARPS;
  let stride = fd_params.splits * FD_WARPS;
    var rounds = 0u;
    if (total > base) {
        rounds = (total - base + stride - 1u) / stride;
    }
    let trounds = (rounds + {W}u - 1u) / {W}u;
    let n4 = hd >> 2u;

    for (var r = 0u; r < trounds; r = r + 1u) {
";

/// One position in flight.
pub const DT_TOKEN: &'static str = r"        let p{t} = base + warp + (r * {W}u + {t}u) * stride;
        let live{t} = p{t} < total;
        var sp{t} = 0u;
        if (live{t}) {
            sp{t} = p{t};
            if (fd_params.ring > 0u) {
                sp{t} = p{t} % fd_params.ring;
            }
        }
        var ks{t} = 0.0;
        if (live{t}) {
            ks{t} = fd_k_scales[sp{t} * nkv + kvh]{C};
      }
        let kb{t} = (sp{t} * nkv + kvh) * hd;
";

/// A partial score.
pub const DT_PARTIAL: &'static str = r"        var pt{j}_{t} = 0.0;
";

/// The vector walk over a key.
pub const DT_KEYS: &'static str = r"        for (var jv = lane; jv < n4; jv = jv + FD_LANES) {
            let qb = jv * 4u;
";

/// One key element.
pub const DT_KEY_ELEM: &'static str = r"            let f{t}_{i} = {K}(kb{t} + qb + {i}u);
";

/// A head's product with four key elements.
pub const DT_DOT4: &'static str = r"            {
                let qo = {j}u * hd + qb;
                var tv = {P}_qsh[qo + 1u] * f{t}_1;
                tv = fma({P}_qsh[qo], f{t}_0, tv);
                tv = fma({P}_qsh[qo + 2u], f{t}_2, tv);
                tv = fma({P}_qsh[qo + 3u], f{t}_3, tv);
                pt{j}_{t} = pt{j}_{t} + tv;
            }
";

/// The end of the key.
pub const DT_KEYS_END: &'static str = r"        }
";

/// A score.
pub const DT_SCORE: &'static str = r"        let sc{j}_{t} = ({P}_reduce(lid, pt{j}_{t}) * ks{t}) * fd_params.scaling;
";

/// Where a position's value starts.
pub const DT_VALUE_BASE: &'static str = r"            let vb{t} = (sp{t} * nkv + kvh) * hd;
            let vs{t} = fd_v_scales[sp{t} * nkv + kvh]{C};
";

/// The new maximum of a head.
pub const DT_MAX: &'static str = r"            var mn{j} = m{j};
";

/// The maximum with one position.
pub const DT_MAX_TOKEN: &'static str = r"            if (live{t}) {
                mn{j} = max(mn{j}, sc{j}_{t});
    }
";

/// The correction of a head.
pub const DT_CORR: &'static str = r"            let cr{j} = fd_exp(m{j} - mn{j});
";

/// The weight of one position.
pub const DT_WEIGHT: &'static str = r"            let w{j}_{t} = select(0.0, fd_exp(sc{j}_{t} - mn{j}), live{t}) * vs{t};
            let lw{j}_{t} = select(0.0, fd_exp(sc{j}_{t} - mn{j}), live{t});
";

/// The maximum moves on.
pub const DT_MAX_END: &'static str = r"            m{j} = mn{j};
";

/// One slice of the values.
pub const DT_VALUE_OPEN: &'static str = r"            {
                let d = lane + {i}u * FD_LANES;
                if (d < hd) {
";

/// One position's value.
pub const DT_VALUE: &'static str = r"                    let v{t} = {V}(vb{t} + d);
";

/// The end of the slice.
pub const DT_VALUE_CLOSE: &'static str = r"                }
            }
";

/// The end of the walk.
pub const DT_ROUNDS_END: &'static str = r"        }
    }
";

/// The output of a head.
pub const DT_OUT_OPEN: &'static str = r"    workgroupBarrier();
";

/// An accumulator into workgroup storage.
pub const DT_KEEP: &'static str = r"    {
        let d = lane + {i}u * FD_LANES;
        if (d < hd) {
        {P}_sacc[warp * {H}u + d] = a{j}_{i};
        }
    }
";

/// The epilogue of a head.
pub const DT_OUT_CLOSE: &'static str = r"    {P}_epilogue(lid, lane, warp, hd, ((h0 + {j}u) * fd_params.splits + split) * (hd + 2u), m{j}, l{j});
";

/// The end of the stage.
pub const DT_END: &'static str = r"}
";

/// The second attention stage for any number of partial results.
pub const FLASH2_DEEP: &'static str = r"
var<workgroup> f2d_m: array<f32, 256>;
var<workgroup> f2d_ssc: array<f32, 256>;
var<workgroup> f2d_l: array<f32, 256>;

@compute @workgroup_size(256)
fn e4b_flash2_pk_deep_rt(
    @builtin(workgroup_id) wg: vec3<u32>,
    @builtin(local_invocation_id) tid: vec3<u32>
) {
    let h = wg.x;
    if (h >= fd_params.n_heads) {
        return;
    }
    let hd = fd_params.head_dim;
    let splits = {N}u;
    let stride = hd + 2u;
    let base = h * splits * stride;
    let lid = tid.x;
    var m_i = fd_neg_inf();
    if (lid < splits) {
        m_i = fd_scratch[base + lid * stride];
    }
    f2d_m[lid] = m_i;
    workgroupBarrier();
    var m_glob = fd_neg_inf();
    for (var s = 0u; s < splits; s = s + 1u) {
        m_glob = max(m_glob, f2d_m[s]);
    }
    var sc = 0.0;
    if (lid < splits && m_i > fd_neg_inf()) {
        sc = fd_exp(m_i - m_glob);
    }
    f2d_ssc[lid] = sc;
    var lc = 0.0;
    if (lid < splits) {
        lc = fd_scratch[base + lid * stride + 1u] * sc;
    }
    f2d_l[lid] = lc;
    workgroupBarrier();
    var l_glob = 0.0;
    for (var s = 0u; s < splits; s = s + 1u) {
        l_glob = l_glob + f2d_l[s];
    }
    var inv_l = 0.0;
    if (l_glob > 0.0) {
        inv_l = fd_recip(l_glob);
    }
    let hw = hd >> 1u;
    for (var w = lid; w < hw; w = w + FD_BLOCK) {
        let d0 = w * 2u;
        var a0 = 0.0;
        var a1 = 0.0;
        for (var s = 0u; s < splits; s = s + 1u) {
            let sb = base + s * stride + 2u + d0;
            let ssc = f2d_ssc[s];
            a0 = fma(fd_scratch[sb], ssc, a0);
            a1 = fma(fd_scratch[sb + 1u], ssc, a1);
        }
        fd_out[h * hw + w] = (bf16_encode(a0 * inv_l) & 0xffffu)
            | ((bf16_encode(a1 * inv_l) & 0xffffu) << 16u);
    }
}
";

/// The start of an unrolled norm chain.
pub const FNCU_OPEN: &'static str = r"
@compute @workgroup_size(256)
fn {E}(
    @builtin(workgroup_id) wg: vec3<u32>,
    @builtin(num_workgroups) nwg: vec3<u32>,
    @builtin(local_invocation_id) tid: vec3<u32>
) {
    let row = wg.x + wg.y * nwg.x;
    if (row >= fncu_params.batch) { return; }
    let lid = tid.x;
    let base = row * {N}u;
    let hw = base + (lid >> 1u);
    let odd = (lid & 1u) == 1u;
";

/// One input word.
pub const FNCU_INPUT: &'static str = r"    let a{k} = fncu_in[hw + {O}u];
";

/// The sum of squares.
pub const FNCU_ACC: &'static str = r"    var acc = 0.0;
";

/// One square.
pub const FNCU_SQUARE: &'static str = r"    let v{k} = select(bf16_lo(a{k}), bf16_hi(a{k}), odd);
    acc = fma(v{k}, v{k}, acc);
";

/// The first norm.
pub const FNCU_RMS1: &'static str = r"    let rms1 = fncu_rms_reduce(lid, acc);
";

/// One word of input, weight and residual.
pub const FNCU_LOAD: &'static str = r"    let x{k} = fncu_in[base + lid + {O}u];
    let g{k} = fncu_w1[lid + {O}u];
    let r{k} = fncu_res[base + lid + {O}u];
";

/// The second sum of squares.
pub const FNCU_ACC2: &'static str = r"    var acc2 = 0.0;
";

/// One residual word and its squares.
pub const FNCU_RES_SQUARE: &'static str = r"    let tlo{k} = bf16_lo(x{k}) * rms1 * bf16_lo(g{k});
    let thi{k} = bf16_hi(x{k}) * rms1 * bf16_hi(g{k});
    let tw{k} = bf16_pack(tlo{k}, thi{k});
    let lo{k} = bf16_lo(tw{k}) + bf16_lo(r{k});
    let hi{k} = bf16_hi(tw{k}) + bf16_hi(r{k});
    let sw{k} = bf16_pack(lo{k}, hi{k});
    fncu_res[base + lid + {O}u] = sw{k};
    acc2 = acc2 + lo{k} * lo{k} + hi{k} * hi{k};
";

/// The second norm, of the residual.
pub const FNCU_RMS2_RES: &'static str = r"    let rms2 = fncu_res_reduce(lid, acc2);
";

/// The normed output.
pub const FNCU_TAIL: &'static str = r"    for (var i = lid; i < fncu_params.words_per_row; i = i + 256u) {
        let sw = {S}[base + i];
        let ww = fncu_w2[i];
        let lo = bf16_lo(sw) * rms2 * bf16_lo(ww);
        let hi = bf16_hi(sw) * rms2 * bf16_hi(ww);
        {D}[base + i] = bf16_pack(lo, hi);
    }
";

/// The end of a chain.
pub const FNCU_CLOSE: &'static str = r"}
";

/// The output scale.
pub const FNCU_SCALE: &'static str = r"    let scale = fncu_params.scale;
";

/// One scaled residual word.
pub const FNCU_RES_OUT: &'static str = r"    let tlo{k} = bf16_lo(x{k}) * rms1 * bf16_lo(g{k});
    let thi{k} = bf16_hi(x{k}) * rms1 * bf16_hi(g{k});
    let tw{k} = bf16_pack(tlo{k}, thi{k});
    let lo{k} = (bf16_lo(r{k}) + bf16_lo(tw{k})) * scale;
    let hi{k} = (bf16_hi(r{k}) + bf16_hi(tw{k})) * scale;
    fncu_out[base + lid + {O}u] = bf16_pack(lo{k}, hi{k});
";

/// The output is read back.
pub const FNCU_BARRIER: &'static str = r"    storageBarrier();
";

/// One output word.
pub const FNCU_READ_BACK: &'static str = r"    let d{k} = fncu_out[hw + {O}u];
";

/// The sum of squares of the output.
pub const FNCU_ACC3: &'static str = r"    var acc3 = 0.0;
";

/// One square of the output.
pub const FNCU_OUT_SQUARE: &'static str = r"    let u{k} = select(bf16_lo(d{k}), bf16_hi(d{k}), odd);
    acc3 = fma(u{k}, u{k}, acc3);
";

/// The second norm, of the output.
pub const FNCU_RMS2_OUT: &'static str = r"    let rms2 = fncu_rms_reduce(lid, acc3);
";

/// The head widths that the attention stages are generated for.
pub open spec fn head_width_ok(hd: u32) -> bool {
    hd > 0 && hd % 32 == 0 && hd <= 512
}

pub open spec fn flash1_tag_text(hd: u32, sg: bool) -> Seq<char> {
    dec(hd as nat) + if sg { "sg"@ } else { "wb"@ }
}

/// The tag that tells apart the first stages of one module.
pub fn flash1_e4b_tag(hd_max: u32, sg: bool) -> (r: String)
    ensures
        r@ == flash1_tag_text(hd_max, sg),
{
    let mut b = decimal(hd_max as u64);
    b.append(if sg { "sg" } else { "wb" });
    b
}

pub open spec fn flash1_entry_text(hd: u32, sg: bool) -> Seq<char> {
    with_text("e4b_flash1_{T}_fp8"@, 'T', flash1_tag_text(hd, sg))
}

pub fn flash1_e4b_entry(hd_max: u32, sg: bool) -> (r: String)
    ensures
        r@ == flash1_entry_text(hd_max, sg),
{
    let tag = flash1_e4b_tag(hd_max, sg);
    fill_text("e4b_flash1_{T}_fp8", 'T', tag.as_str())
}

pub open spec fn flash1_body_text(sg: bool, accs: nat) -> Seq<char> {
    let b = Seq::<char>::empty() + F1_DECL@ + (if sg { F1_REDUCE_SG@ } else { F1_REDUCE_WB@ })
        + F1_EPILOGUE@ + STAGE_DECL@ + F1_BODY@;
    let b = each_text(b, F1_ACC@, 'i', 0, accs) + F1_LOOP@ + F1_KEY_SCALE@ + F1_KEY@ + F1_KEY_FIRST@;
    let b = each_text(b, F1_KEY_ELEM@, 'i', 1, 4) + F1_DOT@ + F1_KEY_REST@ + F1_SCORE@
        + F1_VALUE_SCALE@;
    let b = each_text(b, F1_VALUE@, 'i', 0, accs);
    each_text(b + F1_AFTER@, F1_KEEP@, 'i', 0, accs) + F1_END@
}

pub open spec fn flash1_text(hd: u32, sg: bool) -> Seq<char> {
    let b = with_text(flash1_body_text(sg, (hd / 32) as nat), 'T', flash1_tag_text(hd, sg));
    let b = with_num(b, 'H', hd as nat);
    let b = with_num(b, 'A', (hd * 8) as nat);
    with_text(b, 'E', flash1_entry_text(hd, sg))
}

/// The first attention stage of a decode row for heads of up to `hd_max` elements.
pub fn flash1_e4b_source(hd_max: u32, sg: bool) -> (r: String)
    requires
        head_width_ok(hd_max),
    ensures
        r@ == flash1_text(hd_max, sg),
{
    let accs: u64 = (hd_max / 32) as u64;
    let mut b = String::new();
    b.append(F1_DECL);
    b.append(if sg { F1_REDUCE_SG } else { F1_REDUCE_WB });
    b.append(F1_EPILOGUE);
    b.append(STAGE_DECL);
    b.append(F1_BODY);
    push_each(&mut b, F1_ACC, 'i', 0, accs);
    b.append(F1_LOOP);
    b.append(F1_KEY_SCALE);
    b.append(F1_KEY);
    b.append(F1_KEY_FIRST);
    push_each(&mut b, F1_KEY_ELEM, 'i', 1, 4);
    b.append(F1_DOT);
    b.append(F1_KEY_REST);
    b.append(F1_SCORE);
    b.append(F1_VALUE_SCALE);
    push_each(&mut b, F1_VALUE, 'i', 0, accs);
    b.append(F1_AFTER);
    push_each(&mut b, F1_KEEP, 'i', 0, accs);
    b.append(F1_END);
    let tag = flash1_e4b_tag(hd_max, sg);
    let entry = flash1_e4b_entry(hd_max, sg);
    let b = fill_text(b.as_str(), 'T', tag.as_str());
    let b = fill_num(b.as_str(), 'H', hd_max as u64);
    let b = fill_num(b.as_str(), 'A', (hd_max * 8) as u64);
    fill_text(b.as_str(), 'E', entry.as_str())
}

/// The statement that loads a key scale.
pub const E4B_SD_K_SCALE_ANCHOR: &'static str = "ks = fd_k_scales[sp * nkv + kvh];";

/// The statement that weighs a value scale.
pub const E4B_SD_W_V_SCALE_ANCHOR: &'static str = "let w_v = w * fd_v_scales[sp * nkv + kvh];";

/// The statement that loads a value scale.
pub const E4B_SD_VSC_SCALE_ANCHOR: &'static str = "let vsc = fd_v_scales[sp * nkv + kvh];";

pub open spec fn ends_statement(anchor: Seq<char>) -> bool {
    anchor.len() > 0 && anchor.last() == ';'
}

/// The anchor's statement with the power of two that shift-decoding leaves out folded in.
pub open spec fn folded(anchor: Seq<char>) -> Seq<char> {
    anchor.drop_last() + " * bitcast<f32>(0x7B800000u);"@
}

pub open spec fn decl_text(entry: Seq<char>) -> Seq<char> {
    "fn "@ + entry + "("@
}

/// The kernel rewritten to decode by shifts: its entry and decoders renamed, its two scale
/// loads folded.
pub open spec fn sd_text(base: Seq<char>, entry: Seq<char>, k_anchor: Seq<char>, v_anchor: Seq<char>)
    -> Seq<char> {
    let b = replaced_once(base, decl_text(entry), decl_text(entry + "_sd"@));
    let b = replaced(b, "fd_k_fp8("@, "fd_k_fp8_sd("@);
    let b = replaced(b, "fd_v_fp8("@, "fd_v_fp8_sd("@);
    let b = replaced_once(b, k_anchor, folded(k_anchor));
    replaced_once(b, v_anchor, folded(v_anchor))
}

/// Both scales are read once, in the anchored statements, and both decoders are called.
pub open spec fn sd_base_ok(base: Seq<char>, k_anchor: Seq<char>, v_anchor: Seq<char>) -> bool {
    &&& count_from(base, k_anchor, 0) == 1
    &&& count_from(base, "fd_k_scales"@, 0) == 1
    &&& count_from(base, v_anchor, 0) == 1
    &&& count_from(base, "fd_v_scales"@, 0) == 1
    &&& contains(base, "fd_k_fp8("@)
    &&& contains(base, "fd_v_fp8("@)
}

/// The rewritten kernel has the new entry, the new decoders and both folds.
pub open spec fn sd_result_ok(sd: Seq<char>, entry: Seq<char>) -> bool {
    &&& contains(sd, decl_text(entry + "_sd"@))
    &&& contains(sd, "fd_k_fp8_sd("@)
    &&& contains(sd, "fd_v_fp8_sd("@)
    &&& count_from(sd, "0x7B800000"@, 0) == 2
}

pub open spec fn sd_rewritten(
    base: Seq<char>,
    entry: Seq<char>,
    k_anchor: Seq<char>,
    v_anchor: Seq<char>,
) -> Option<Seq<char>> {
    if sd_base_ok(base, k_anchor, v_anchor) && ends_statement(k_anchor) && ends_statement(v_anchor)
        && sd_result_ok(sd_text(base, entry, k_anchor, v_anchor), entry) {
        Some(sd_text(base, entry, k_anchor, v_anchor))
    } else {
        None
    }
}

fn decl(entry: &str) -> (r: String)
    ensures
        r@ == decl_text(entry@),
{
    let mut b = "fn ".to_owned();
    b.append(entry);
    b.append("(");
    b
}

fn fold_anchor(anchor: &str) -> (r: Option<String>)
    ensures
        match r {
            Some(t) => ends_statement(anchor@) && t@ == folded(anchor@),
            None => !ends_statement(anchor@),
        },
{
    let v = chars_of(anchor);
    if v.len() == 0 {
        return None;
    }
    let n: usize = v.len() - 1;
    if v[n] != ';' {
        return None;
    }
    let mut b = anchor.substring_char(0, n).to_owned();
    assert(anchor@.subrange(0, n as int) =~= anchor@.drop_last());
    b.append(" * bitcast<f32>(0x7B800000u);");
    Some(b)
}

/// Rewrites an attention kernel to decode its cache by shifts; `None` when the kernel does not
/// have the statements that the rewrite relies on.
pub fn flash_sd_rewrite(base: &str, entry: &str, k_anchor: &str, v_anchor: &str) -> (r: Option<String>)
    ensures
        match r {
            Some(t) => sd_rewritten(base@, entry@, k_anchor@, v_anchor@) == Some(t@),
            None => sd_rewritten(base@, entry@, k_anchor@, v_anchor@) is None,
        },
{
    proof {
        reveal_strlit("fd_k_scales");
        reveal_strlit("fd_v_scales");
        reveal_strlit("fd_k_fp8(");
        reveal_strlit("fd_v_fp8(");
        reveal_strlit("0x7B800000");
    }
    let k_fold = match fold_anchor(k_anchor) {
        Some(t) => t,
        None => {
            return None;
        },
    };
    let v_fold = match fold_anchor(v_anchor) {
        Some(t) => t,
        None => {
            return None;
        },
    };
    if count_of(base, k_anchor) != 1 || count_of(base, "fd_k_scales") != 1 {
        return None;
    }
    if count_of(base, v_anchor) != 1 || count_of(base, "fd_v_scales") != 1 {
        return None;
    }
    if !mentions(base, "fd_k_fp8(") || !mentions(base, "fd_v_fp8(") {
        return None;
    }
    let mut twin = entry.to_owned();
    twin.append("_sd");
    let old_decl = decl(entry);
    let new_decl = decl(twin.as_str());
    let b = replace_first(base, old_decl.as_str(), new_decl.as_str());
    let b = replace_all(b.as_str(), "fd_k_fp8(", "fd_k_fp8_sd(");
    let b = replace_all(b.as_str(), "fd_v_fp8(", "fd_v_fp8_sd(");
    let b = replace_first(b.as_str(), k_anchor, k_fold.as_str());
    let sd = replace_first(b.as_str(), v_anchor, v_fold.as_str());
    if !mentions(sd.as_str(), new_decl.as_str()) || !mentions(sd.as_str(), "fd_k_fp8_sd(") || !mentions(
        sd.as_str(),
        "fd_v_fp8_sd(",
    ) {
        return None;
    }
    if count_of(sd.as_str(), "0x7B800000") != 2 {
        return None;
    }
    Some(sd)
}

pub fn flash1_e4b_entry_sd(hd_max: u32, sg: bool) -> (r: String)
    ensures
        r@ == flash1_entry_text(hd_max, sg) + "_sd"@,
{
    let mut b = flash1_e4b_entry(hd_max, sg);
    b.append("_sd");
    b
}

pub open spec fn flash1_sd_text(hd: u32, sg: bool) -> Seq<char> {
    sd_text(
        flash1_text(hd, sg),
        flash1_entry_text(hd, sg),
        E4B_SD_K_SCALE_ANCHOR@,
        E4B_SD_W_V_SCALE_ANCHOR@,
    )
}

/// The first attention stage, decoding by shifts.
pub fn flash1_e4b_source_sd(hd_max: u32, sg: bool) -> (r: String)
    requires
        head_width_ok(hd_max),
    ensures
        r@ == flash1_sd_text(hd_max, sg),
        undone(r@) == flash1_text(hd_max, sg),
{
    let base = flash1_e4b_source(hd_max, sg);
    let entry = flash1_e4b_entry(hd_max, sg);
    let twin = flash_sd_rewrite(
        base.as_str(),
        entry.as_str(),
        E4B_SD_K_SCALE_ANCHOR,
        E4B_SD_W_V_SCALE_ANCHOR,
    );
    proof {
        law_flash1_shift_decodes(hd_max, sg);
    }
    twin.unwrap()
}

pub const FLASH_ROWS_STAGE1_ENTRY: &'static str = "g4w_flash_rows_stage1_fp8";

pub const FLASH_ROWS_STAGE1_ENTRY_SD: &'static str = "g4w_flash_rows_stage1_fp8_sd";

/// The text of the many-row first stage within its module: from the attribute before its
/// declaration to the first closing brace at the start of a line.
pub open spec fn rows_stage1_text(module: Seq<char>) -> Option<Seq<char>> {
    let decl = decl_text(FLASH_ROWS_STAGE1_ENTRY@);
    if count_from(module, decl, 0) != 1 {
        None
    } else {
        match first_from(module, decl, 0) {
            None => None,
            Some(fn_pos) => match last_until(module.take(fn_pos), "@compute"@, fn_pos) {
                None => None,
                Some(head) => match first_from(module, "\n}"@, fn_pos) {
                    None => None,
                    Some(end) => Some(module.subrange(head, end + 2)),
                },
            },
        }
    }
}

fn rows_stage1(module: &str) -> (r: Option<String>)
    ensures
        match r {
            Some(t) => rows_stage1_text(module@) == Some(t@),
            None => rows_stage1_text(module@) is None,
        },
{
    let d = decl(FLASH_ROWS_STAGE1_ENTRY);
    proof {
        reveal_strlit("fn ");
        reveal_strlit("\n}");
        reveal_strlit("@compute");
    }
    if count_of(module, d.as_str()) != 1 {
        return None;
    }
    let mv = chars_of(module);
    let len: usize = mv.len();
    let fn_pos: usize = match find_from(&mv, &chars_of(d.as_str()), 0) {
        Some(p) => p,
        None => {
            return None;
        },
    };
    let before = chars_of(module.substring_char(0, fn_pos));
    assert(module@.subrange(0, fn_pos as int) =~= module@.take(fn_pos as int));
    let head: usize = match rfind_until(&before, &chars_of("@compute"), fn_pos) {
        Some(h) => h,
        None => {
            return None;
        },
    };
    let end: usize = match find_from(&mv, &chars_of("\n}"), fn_pos) {
        Some(e) => e,
        None => {
            return None;
        },
    };
    Some(module.substring_char(head, end + 2).to_owned())
}

pub open spec fn rows_stage1_sd_text(module: Seq<char>) -> Option<Seq<char>> {
    match rows_stage1_text(module) {
        None => None,
        Some(base) => sd_rewritten(
            base,
            FLASH_ROWS_STAGE1_ENTRY@,
            E4B_SD_K_SCALE_ANCHOR@,
            E4B_SD_W_V_SCALE_ANCHOR@,
        ),
    }
}

/// The many-row first stage of `module`, decoding by shifts.
pub fn flash_rows_stage1_source_sd(module: &str) -> (r: Option<String>)
    ensures
        match r {
            Some(t) => rows_stage1_sd_text(module@) == Some(t@),
            None => rows_stage1_sd_text(module@) is None,
        },
{
    match rows_stage1(module) {
        None => None,
        Some(base) => flash_sd_rewrite(
            base.as_str(),
            FLASH_ROWS_STAGE1_ENTRY,
            E4B_SD_K_SCALE_ANCHOR,
            E4B_SD_W_V_SCALE_ANCHOR,
        ),
    }
}

/// The entry point of the second stage for any number of partial results.
pub const FLASH2_DEEP_ENTRY: &'static str = "e4b_flash2_pk_deep_rt";

/// The second attention stage that merges `splits` partial results.
pub fn e4b_flash2_deep_source(splits: u32, max_splits: u32) -> (r: String)
    requires
        1 <= splits <= max_splits,
    ensures
        r@ == with_num(FLASH2_DEEP@, 'N', splits as nat),
{
    fill_num(FLASH2_DEEP, 'N', splits as u64)
}

/// The most query rows that one tile handles.
pub const PREFILL_QTILE_MAX: u32 = 8;

/// Elements of the staging that a tile of query rows shares.
pub const MK_QSH_ELEMS: u32 = 2048;

pub open spec fn qtile_entry_text(hd: u32, tile: u32) -> Seq<char> {
    with_num(
        with_num("g4w_flash_rows_stage1_fp8_q{H}_{Q}"@, 'H', hd as nat),
        'Q',
        tile as nat,
    )
}

pub fn flash1_mk_qtile_entry(hd_max: u32, tile: u32) -> (r: String)
    ensures
        r@ == qtile_entry_text(hd_max, tile),
{
    let b = fill_num("g4w_flash_rows_stage1_fp8_q{H}_{Q}", 'H', hd_max as u64);
    fill_num(b.as_str(), 'Q', tile as u64)
}

/// A tile of query rows fits the staging they share.
pub open spec fn qtile_ok(hd: u32, tile: u32) -> bool {
    head_width_ok(hd) && 1 <= tile <= PREFILL_QTILE_MAX && tile * hd <= MK_QSH_ELEMS
}

pub open spec fn qtile_body_text(tile: nat, accs: nat) -> Seq<char> {
    let b = Seq::<char>::empty() + QT_HEAD@ + STAGE_DECL@ + QT_STAGE@;
    let b = nest_text(b, QT_ROW_VARS@, QT_ACC@, ""@, 'j', tile, 'i', accs) + QT_ROUNDS@;
    let b = each_text(b, QT_PARTIAL@, 'j', 0, tile) + QT_KEY@ + QT_KEY_SCALE@ + QT_KEY_WALK@;
    let b = each_text(b, QT_KEY_ELEM@, 'i', 0, 4);
    let b = each_text(b, QT_DOT4@, 'j', 0, tile) + QT_KEY_SCALAR@ + QT_KEY_REST@;
    let b = each_text(b, QT_DOT1@, 'j', 0, tile) + QT_KEY_END@;
    let b = each_text(b, QT_SCORE@, 'j', 0, tile) + QT_VALUES@ + QT_VALUE_SCALE@;
    let b = each_text(b, QT_SOFTMAX@, 'j', 0, tile);
    let b = nest_text(b, QT_VALUE_OPEN@, QT_VALUE@, QT_VALUE_CLOSE@, 'i', accs, 'j', tile)
        + QT_ROUNDS_END@;
    nest_text(b, QT_OUT_OPEN@, QT_KEEP@, QT_OUT_CLOSE@, 'j', tile, 'i', accs) + QT_END@
}

pub open spec fn qtile_text(hd: u32, tile: u32) -> Seq<char> {
    let b = with_num(qtile_body_text(tile as nat, (hd / 32) as nat), 'Q', tile as nat);
    with_text(b, 'E', qtile_entry_text(hd, tile))
}

/// The many-row first stage that shares each key among `tile` query rows.
pub fn flash1_mk_qtile_source(hd_max: u32, tile: u32) -> (r: String)
    requires
        qtile_ok(hd_max, tile),
    ensures
        r@ == qtile_text(hd_max, tile),
{
    let accs: u64 = (hd_max / 32) as u64;
    let n: u64 = tile as u64;
    let mut b = String::new();
    b.append(QT_HEAD);
    b.append(STAGE_DECL);
    b.append(QT_STAGE);
    push_nest(&mut b, QT_ROW_VARS, QT_ACC, "", 'j', n, 'i', accs);
    b.append(QT_ROUNDS);
    push_each(&mut b, QT_PARTIAL, 'j', 0, n);
    b.append(QT_KEY);
    b.append(QT_KEY_SCALE);
    b.append(QT_KEY_WALK);
    push_each(&mut b, QT_KEY_ELEM, 'i', 0, 4);
    push_each(&mut b, QT_DOT4, 'j', 0, n);
    b.append(QT_KEY_SCALAR);
    b.append(QT_KEY_REST);
    push_each(&mut b, QT_DOT1, 'j', 0, n);
    b.append(QT_KEY_END);
    push_each(&mut b, QT_SCORE, 'j', 0, n);
    b.append(QT_VALUES);
    b.append(QT_VALUE_SCALE);
    push_each(&mut b, QT_SOFTMAX, 'j', 0, n);
    push_nest(&mut b, QT_VALUE_OPEN, QT_VALUE, QT_VALUE_CLOSE, 'i', accs, 'j', n);
    b.append(QT_ROUNDS_END);
    push_nest(&mut b, QT_OUT_OPEN, QT_KEEP, QT_OUT_CLOSE, 'j', n, 'i', accs);
    b.append(QT_END);
    let entry = flash1_mk_qtile_entry(hd_max, tile);
    let b = fill_num(b.as_str(), 'Q', n);
    fill_text(b.as_str(), 'E', entry.as_str())
}

pub fn flash1_mk_qtile_entry_sd(hd_max: u32, tile: u32) -> (r: String)
    ensures
        r@ == qtile_entry_text(hd_max, tile) + "_sd"@,
{
    let mut b = flash1_mk_qtile_entry(hd_max, tile);
    b.append("_sd");
    b
}

pub open spec fn qtile_sd_text(hd: u32, tile: u32) -> Seq<char> {
    sd_text(
        qtile_text(hd, tile),
        qtile_entry_text(hd, tile),
        E4B_SD_K_SCALE_ANCHOR@,
        E4B_SD_VSC_SCALE_ANCHOR@,
    )
}

/// The query-tiled first stage, decoding by shifts.
pub fn flash1_mk_qtile_source_sd(hd_max: u32, tile: u32) -> (r: String)
    requires
        qtile_ok(hd_max, tile),
    ensures
        r@ == qtile_sd_text(hd_max, tile),
        undone(r@) == qtile_text(hd_max, tile),
{
    let base = flash1_mk_qtile_source(hd_max, tile);
    let entry = flash1_mk_qtile_entry(hd_max, tile);
    let twin = flash_sd_rewrite(
        base.as_str(),
        entry.as_str(),
        E4B_SD_K_SCALE_ANCHOR,
        E4B_SD_VSC_SCALE_ANCHOR,
    );
    proof {
        law_qtile_shift_decodes(hd_max, tile);
    }
    twin.unwrap()
}

/// The most positions that one warp keeps in flight.
pub const E4B_DEEP_TPW_MAX: u32 = 4;

pub open spec fn deep_tpw_entry_text(hd: u32, fold: u32, tpw: u32, sd: bool) -> Seq<char> {
    let b = with_num("e4b_dfold{F}t{W}_{H}_stage1_fp8"@, 'F', fold as nat);
    let b = with_num(with_num(b, 'W', tpw as nat), 'H', hd as nat);
    b + if sd { "_sd"@ } else { ""@ }
}

pub fn deep_tpw_entry(hd_max: u32, fold: u32, tpw: u32, sd: bool) -> (r: String)
    ensures
        r@ == deep_tpw_entry_text(hd_max, fold, tpw, sd),
{
    let b = fill_num("e4b_dfold{F}t{W}_{H}_stage1_fp8", 'F', fold as u64);
    let b = fill_num(b.as_str(), 'W', tpw as u64);
    let mut b = fill_num(b.as_str(), 'H', hd_max as u64);
    b.append(if sd { "_sd" } else { "" });
    b
}

/// The softmax step of the first `n` query heads over the positions in flight.
pub open spec fn deep_steps_text(b: Seq<char>, tpw: nat, n: nat) -> Seq<char>
    decreases n,
{
    if n == 0 {
        b
    } else {
        let j = (n - 1) as nat;
        let b = deep_steps_text(b, tpw, j) + with_num(DT_MAX@, 'j', j);
        let b = each_text(b, with_num(DT_MAX_TOKEN@, 'j', j), 't', 0, tpw) + with_num(
            DT_CORR@,
            'j',
            j,
        );
        let b = each_text(b, with_num(DT_WEIGHT@, 'j', j), 't', 0, tpw) + with_num(
            "            l{j} = fma(l{j}, cr{j}, lw{j}_0"@,
            'j',
            j,
        );
        each_text(b, with_num(" + lw{j}_{t}"@, 'j', j), 't', 1, tpw) + ");\n"@ + with_num(
            DT_MAX_END@,
            'j',
            j,
        )
    }
}

fn push_deep_steps(b: &mut String, tpw: u64, fold: u64)
    ensures
        final(b)@ == deep_steps_text(old(b)@, tpw as nat, fold as nat),
{
    let mut j: u64 = 0;
    while j < fold
        invariant
            j <= fold,
            b@ == deep_steps_text(old(b)@, tpw as nat, j as nat),
        decreases fold - j,
    {
        let t = fill_num(DT_MAX, 'j', j);
        b.append(t.as_str());
        let t = fill_num(DT_MAX_TOKEN, 'j', j);
        push_each(b, t.as_str(), 't', 0, tpw);
        let t = fill_num(DT_CORR, 'j', j);
        b.append(t.as_str());
        let t = fill_num(DT_WEIGHT, 'j', j);
        push_each(b, t.as_str(), 't', 0, tpw);
        let t = fill_num("            l{j} = fma(l{j}, cr{j}, lw{j}_0", 'j', j);
        b.append(t.as_str());
        let t = fill_num(" + lw{j}_{t}", 'j', j);
        push_each(b, t.as_str(), 't', 1, tpw);
        b.append(");\n");
        let t = fill_num(DT_MAX_END, 'j', j);
        b.append(t.as_str());
        j = j + 1;
    }
}

/// The nested accumulation of head `j` and slice `i` over the first `n` positions.
pub open spec fn deep_fma_text(j: nat, i: nat, n: nat) -> Seq<char>
    decreases n,
{
    if n == 0 {
        with_num(with_num("a{j}_{i} * cr{j}"@, 'j', j), 'i', i)
    } else {
        let t = (n - 1) as nat;
        with_num(with_num("fma(w{j}_{t}, v{t}, "@, 'j', j), 't', t) + deep_fma_text(j, i, t) + ")"@
    }
}

fn deep_fma(j: u64, i: u64, n: u64) -> (r: String)
    ensures
        r@ == deep_fma_text(j as nat, i as nat, n as nat),
    decreases n,
{
    if n == 0 {
        let t = fill_num("a{j}_{i} * cr{j}", 'j', j);
        return fill_num(t.as_str(), 'i', i);
    }
    let t = fill_num("fma(w{j}_{t}, v{t}, ", 'j', j);
    let mut b = fill_num(t.as_str(), 't', n - 1);
    let inner = deep_fma(j, i, n - 1);
    b.append(inner.as_str());
    b.append(")");
    b
}

/// The accumulations of slice `i` for the first `n` heads.
pub open spec fn deep_heads_text(b: Seq<char>, i: nat, tpw: nat, n: nat) -> Seq<char>
    decreases n,
{
    if n == 0 {
        b
    } else {
        let j = (n - 1) as nat;
        deep_heads_text(b, i, tpw, j) + with_num(
            with_num("                    a{j}_{i} = "@, 'j', j),
            'i',
            i,
        ) + deep_fma_text(j, i, tpw) + ";\n"@
    }
}

fn push_deep_heads(b: &mut String, i: u64, tpw: u64, fold: u64)
    ensures
        final(b)@ == deep_heads_text(old(b)@, i as nat, tpw as nat, fold as nat),
{
    let mut j: u64 = 0;
    while j < fold
        invariant
            j <= fold,
            b@ == deep_heads_text(old(b)@, i as nat, tpw as nat, j as nat),
        decreases fold - j,
    {
        let t = fill_num("                    a{j}_{i} = ", 'j', j);
        let t = fill_num(t.as_str(), 'i', i);
        b.append(t.as_str());
        let t = deep_fma(j, i, tpw);
        b.append(t.as_str());
        b.append(";\n");
        j = j + 1;
    }
}

/// The value accumulation over the first `n` slices of a head.
pub open spec fn deep_values_text(b: Seq<char>, tpw: nat, fold: nat, n: nat) -> Seq<char>
    decreases n,
{
    if n == 0 {
        b
    } else {
        let i = (n - 1) as nat;
        let b = deep_values_text(b, tpw, fold, i) + with_num(DT_VALUE_OPEN@, 'i', i);
        deep_heads_text(each_text(b, DT_VALUE@, 't', 0, tpw), i, tpw, fold) + DT_VALUE_CLOSE@
    }
}

fn push_deep_values(b: &mut String, tpw: u64, fold: u64, accs: u64)
    ensures
        final(b)@ == deep_values_text(old(b)@, tpw as nat, fold as nat, accs as nat),
{
    let mut i: u64 = 0;
    while i < accs
        invariant
            i <= accs,
            b@ == deep_values_text(old(b)@, tpw as nat, fold as nat, i as nat),
        decreases accs - i,
    {
        let t = fill_num(DT_VALUE_OPEN, 'i', i);
        b.append(t.as_str());
        push_each(b, DT_VALUE, 't', 0, tpw);
        push_deep_heads(b, i, tpw, fold);
        b.append(DT_VALUE_CLOSE);
        i = i + 1;
    }
}

pub open spec fn deep_body_text(fold: nat, tpw: nat, accs: nat) -> Seq<char> {
    let b = Seq::<char>::empty() + DT_HEAD@;
    let b = nest_text(b, DT_ROW_VARS@, DT_ACC@, ""@, 'j', fold, 'i', accs) + DT_ROUNDS@;
    let b = each_text(b, DT_TOKEN@, 't', 0, tpw);
    let b = nest_text(b, ""@, DT_PARTIAL@, ""@, 'j', fold, 't', tpw) + DT_KEYS@;
    let b = nest_text(b, ""@, DT_KEY_ELEM@, ""@, 't', tpw, 'i', 4);
    let b = nest_text(b, ""@, DT_DOT4@, ""@, 'j', fold, 't', tpw) + DT_KEYS_END@;
    let b = nest_text(b, ""@, DT_SCORE@, ""@, 'j', fold, 't', tpw) + "        if (live0"@;
    let b = each_text(b, " || live{t}"@, 't', 1, tpw) + ") {\n"@;
    let b = deep_steps_text(each_text(b, DT_VALUE_BASE@, 't', 0, tpw), tpw, fold);
    let b = deep_values_text(b, tpw, fold, accs) + DT_ROUNDS_END@;
    nest_text(b, DT_OUT_OPEN@, DT_KEEP@, DT_OUT_CLOSE@, 'j', fold, 'i', accs) + DT_END@
}

pub open spec fn deep_tpw_text(hd: u32, fold: u32, tpw: u32, sd: bool) -> Seq<char> {
    let b = deep_body_text(fold as nat, tpw as nat, (hd / 32) as nat);
    let b = with_text(
        b,
        'P',
        with_num("df{F}t{W}h{H}"@ + if sd { "s"@ } else { "e"@ }, 'H', hd as nat),
    );
    let b = with_num(with_num(b, 'H', hd as nat), 'F', fold as nat);
    let b = with_num(b, 'W', tpw as nat);
    let b = with_num(with_num(b, 'A', (hd * fold) as nat), 'B', (hd * 8) as nat);
    let b = with_text(b, 'K', if sd { "fd_k_fp8_sd"@ } else { "fd_k_fp8"@ });
    let b = with_text(b, 'V', if sd { "fd_v_fp8_sd"@ } else { "fd_v_fp8"@ });
    let b = with_text(b, 'C', if sd { " * bitcast<f32>(0x7B800000u)"@ } else { ""@ });
    with_text(b, 'E', deep_tpw_entry_text(hd, fold, tpw, sd))
}

/// The deep first stage: `fold` query heads per group, `tpw` positions in flight per warp.
pub fn deep_tpw_source(hd_max: u32, fold: u32, tpw: u32, sd: bool, max_fold: u32) -> (r: String)
    requires
        head_width_ok(hd_max),
        1 <= fold <= max_fold,
        2 <= tpw <= E4B_DEEP_TPW_MAX,
        hd_max * fold <= u32::MAX,
    ensures
        r@ == deep_tpw_text(hd_max, fold, tpw, sd),
{
    let accs: u64 = (hd_max / 32) as u64;
    let n: u64 = fold as u64;
    let w: u64 = tpw as u64;
    let mut b = String::new();
    b.append(DT_HEAD);
    push_nest(&mut b, DT_ROW_VARS, DT_ACC, "", 'j', n, 'i', accs);
    b.append(DT_ROUNDS);
    push_each(&mut b, DT_TOKEN, 't', 0, w);
    push_nest(&mut b, "", DT_PARTIAL, "", 'j', n, 't', w);
    b.append(DT_KEYS);
    push_nest(&mut b, "", DT_KEY_ELEM, "", 't', w, 'i', 4);
    push_nest(&mut b, "", DT_DOT4, "", 'j', n, 't', w);
    b.append(DT_KEYS_END);
    push_nest(&mut b, "", DT_SCORE, "", 'j', n, 't', w);
    b.append("        if (live0");
    push_each(&mut b, " || live{t}", 't', 1, w);
    b.append(") {\n");
    push_each(&mut b, DT_VALUE_BASE, 't', 0, w);
    push_deep_steps(&mut b, w, n);
    push_deep_values(&mut b, w, n, accs);
    b.append(DT_ROUNDS_END);
    push_nest(&mut b, DT_OUT_OPEN, DT_KEEP, DT_OUT_CLOSE, 'j', n, 'i', accs);
    b.append(DT_END);
    let mut prefix = "df{F}t{W}h{H}".to_owned();
    prefix.append(if sd { "s" } else { "e" });
    let prefix = fill_num(prefix.as_str(), 'H', hd_max as u64);
    let b = fill_text(b.as_str(), 'P', prefix.as_str());
    let b = fill_num(b.as_str(), 'H', hd_max as u64);
    let b = fill_num(b.as_str(), 'F', n);
    let b = fill_num(b.as_str(), 'W', w);
    let b = fill_num(b.as_str(), 'A', (hd_max * fold) as u64);
    let b = fill_num(b.as_str(), 'B', (hd_max * 8) as u64);
    let b = fill_text(b.as_str(), 'K', if sd { "fd_k_fp8_sd" } else { "fd_k_fp8" });
    let b = fill_text(b.as_str(), 'V', if sd { "fd_v_fp8_sd" } else { "fd_v_fp8" });
    let b = fill_text(b.as_str(), 'C', if sd { " * bitcast<f32>(0x7B800000u)" } else { "" });
    let entry = deep_tpw_entry(hd_max, fold, tpw, sd);
    fill_text(b.as_str(), 'E', entry.as_str())
}

pub const FNCU_ENTRY_A: &'static str = "e4b_fncu_a";

pub const FNCU_ENTRY_B: &'static str = "e4b_fncu_b";

pub const FNCU_ENTRY_C: &'static str = "e4b_fncu_c";

/// Threads of a workgroup of the norm chains.
pub const FNCU_BLOCK: usize = 256;

/// The start of a chain: its first norm, and the words it works on.
pub open spec fn fncu_open_text(b: Seq<char>, entry: Seq<char>, hidden: nat) -> Seq<char> {
    let it1 = hidden / 256;
    let it2 = hidden / 2 / 256;
    let b = b + with_num(with_text(FNCU_OPEN@, 'E', entry), 'N', hidden / 2);
    let b = scaled_text(b, FNCU_INPUT@, 'k', 'O', 128, it1) + FNCU_ACC@;
    let b = each_text(b, FNCU_SQUARE@, 'k', 0, it1) + FNCU_RMS1@;
    scaled_text(b, FNCU_LOAD@, 'k', 'O', 256, it2)
}

pub open spec fn fncu_tail_text(src: Seq<char>, dst: Seq<char>) -> Seq<char> {
    with_text(with_text(FNCU_TAIL@, 'S', src), 'D', dst)
}

pub open spec fn fncu_text(prelude: Seq<char>, hidden: nat) -> Seq<char> {
    let it1 = hidden / 256;
    let it2 = hidden / 2 / 256;
    let b = fncu_open_text(prelude, FNCU_ENTRY_A@, hidden) + FNCU_ACC2@;
    let b = scaled_text(b, FNCU_RES_SQUARE@, 'k', 'O', 256, it2) + FNCU_RMS2_RES@ + fncu_tail_text(
        "fncu_res"@,
        "fncu_out"@,
    ) + FNCU_CLOSE@;
    let b = fncu_open_text(b, FNCU_ENTRY_B@, hidden) + FNCU_SCALE@;
    let b = scaled_text(b, FNCU_RES_OUT@, 'k', 'O', 256, it2) + FNCU_CLOSE@;
    let b = fncu_open_text(b, FNCU_ENTRY_C@, hidden) + FNCU_SCALE@;
    let b = scaled_text(b, FNCU_RES_OUT@, 'k', 'O', 256, it2) + FNCU_BARRIER@;
    let b = scaled_text(b, FNCU_READ_BACK@, 'k', 'O', 128, it1) + FNCU_ACC3@;
    each_text(b, FNCU_OUT_SQUARE@, 'k', 0, it1) + FNCU_RMS2_OUT@ + fncu_tail_text(
        "fncu_out"@,
        "fncu_out2"@,
    ) + FNCU_CLOSE@
}

fn push_fncu_open(b: &mut String, entry: &str, hidden: usize)
    ensures
        final(b)@ == fncu_open_text(old(b)@, entry@, hidden as nat),
{
    let it1: u64 = (hidden / FNCU_BLOCK) as u64;
    let it2: u64 = (hidden / 2 / FNCU_BLOCK) as u64;
    let t = fill_text(FNCU_OPEN, 'E', entry);
    let t = fill_num(t.as_str(), 'N', (hidden / 2) as u64);
    b.append(t.as_str());
    push_scaled(b, FNCU_INPUT, 'k', 'O', 128, it1);
    b.append(FNCU_ACC);
    push_each(b, FNCU_SQUARE, 'k', 0, it1);
    b.append(FNCU_RMS1);
    push_scaled(b, FNCU_LOAD, 'k', 'O', 256, it2);
}

fn fncu_tail(src: &str, dst: &str) -> (r: String)
    ensures
        r@ == fncu_tail_text(src@, dst@),
{
    let t = fill_text(FNCU_TAIL, 'S', src);
    fill_text(t.as_str(), 'D', dst)
}

/// The three norm chains unrolled for one hidden size; `None` for a size that is not a
/// positive multiple of two words per thread.
pub fn fnc_unrolled_source(prelude: &str, hidden: usize) -> (r: Option<String>)
    ensures
        match r {
            Some(t) => hidden > 0 && hidden % 512 == 0 && t@ == fncu_text(prelude@, hidden as nat),
            None => hidden == 0 || hidden % 512 != 0,
        },
{
    if hidden == 0 || hidden % (2 * FNCU_BLOCK) != 0 {
        return None;
    }
    let it1: u64 = (hidden / FNCU_BLOCK) as u64;
    let it2: u64 = (hidden / 2 / FNCU_BLOCK) as u64;
    let mut b = prelude.to_owned();
    push_fncu_open(&mut b, FNCU_ENTRY_A, hidden);
    b.append(FNCU_ACC2);
    push_scaled(&mut b, FNCU_RES_SQUARE, 'k', 'O', 256, it2);
    b.append(FNCU_RMS2_RES);
    let t = fncu_tail("fncu_res", "fncu_out");
    b.append(t.as_str());
    b.append(FNCU_CLOSE);
    push_fncu_open(&mut b, FNCU_ENTRY_B, hidden);
    b.append(FNCU_SCALE);
    push_scaled(&mut b, FNCU_RES_OUT, 'k', 'O', 256, it2);
    b.append(FNCU_CLOSE);
    push_fncu_open(&mut b, FNCU_ENTRY_C, hidden);
    b.append(FNCU_SCALE);
    push_scaled(&mut b, FNCU_RES_OUT, 'k', 'O', 256, it2);
    b.append(FNCU_BARRIER);
    push_scaled(&mut b, FNCU_READ_BACK, 'k', 'O', 128, it1);
    b.append(FNCU_ACC3);
    push_each(&mut b, FNCU_OUT_SQUARE, 'k', 0, it1);
    b.append(FNCU_RMS2_OUT);
    let t = fncu_tail("fncu_out", "fncu_out2");
    b.append(t.as_str());
    b.append(FNCU_CLOSE);
    Some(b)
}

} // verus!
