//! Sources of the many-row projection kernels, generated for a given number of rows.
use vstd::prelude::*;
use crate::text::{
    each_text, fill_num, fill_text, push_each, replace_all, replaced, with_num, with_text,
};

verus! {

/// One accumulator per row.
pub const ROW_ACC: &'static str = r"    var acc{t} = 0.0;
";

/// The start of a kernel.
pub const ENTRY_OPEN: &'static str = r"@compute @workgroup_size(256)
fn {E}(
";

/// The end of a function.
pub const CLOSE_FN: &'static str = r"}

";

/// Bindings and helpers of the four-bit many-row kernels.
pub const W4_HEAD: &'static str = r"struct G4wSplitParams {
    q_rows: u32,
    kv_rows: u32,
    v_off: u32,
    pad0: u32,
};

struct G4wMkParams {
    m: u32,
    x_stride_words: u32,
    y_stride_words: u32,
    dst_word_off: u32,
};

@group(0) @binding(31) var<storage, read_write> g4w_y_q: array<u32>;
@group(0) @binding(32) var<storage, read_write> g4w_y_k: array<u32>;
@group(0) @binding(33) var<storage, read_write> g4w_y_v: array<u32>;
@group(0) @binding(34) var<uniform> g4w_split_params: G4wSplitParams;
@group(0) @binding(35) var<uniform> g4w_mk_params: G4wMkParams;

fn g4w_w4_pair_word(tid: u32, total: f32, hi_live: bool) -> u32 {
    let lo = bf16_encode(total) & 0xffffu;
    let hi = bf16_encode(w4a16_partial[tid + W4A16_LANES]) & 0xffffu;
    return lo | (select(0u, hi, hi_live) << 16u);
}

fn w4a16_dot8_xoff(pv: u32, kb: u32, xoff_words: u32, acc_in: f32) -> f32 {
    var acc = acc_in;
    let xb = (kb >> 1u) + xoff_words;
    for (var i = 0u; i < 4u; i = i + 1u) {
        let xp = w4a16_x_pair(xb + i);
        acc = fma(w4a16_q(pv, 2u * i), xp.x, acc);
        acc = fma(w4a16_q(pv, 2u * i + 1u), xp.y, acc);
    }
    return acc;
}

";

/// The arguments and first lines of a four-bit kernel.
pub const W4_OPEN: &'static str = r"    @builtin(workgroup_id) wid: vec3<u32>,
    @builtin(local_invocation_id) lid: vec3<u32>
) {
    let tid = lid.x;
    let lane = tid & (W4A16_LANES - 1u);
    let warp = tid / W4A16_LANES;
    let row = wid.x * W4A16_ROWS + warp;
    let live = row < w4a16_params.n_rows;
";

/// What the block walk reads before its loop.
pub const W4_BLOCK_VARS: &'static str = r"    let kv = select(0u, w4a16_params.k_elems >> 5u, live);
    let wbase = select(0u, row * w4a16_params.w_row_words, live);
    let sbase = select(0u, row * w4a16_params.scale_row_stride, live);
    let gs = w4a16_params.gs;
    let mm = g4w_mk_params.m;
    let xs = g4w_mk_params.x_stride_words;
";

/// The block walk over whole scale groups.
pub const W4_BLOCK_LOOP: &'static str = r"    if (gs >= 32u) {
        for (var v = lane; v < kv; v = v + W4A16_LANES) {
            let kbase = v * 32u;
            let sc = w4a16_scale_at(sbase, kbase / gs);
";

/// A row's sum over one block.
pub const W4_BLOCK_SUM: &'static str = r"            var blk{t} = 0.0;
";

/// The words of one block.
pub const W4_BLOCK_WORDS: &'static str = r"            for (var j = 0u; j < 4u; j = j + 1u) {
                let pv = w4a16_packed[wbase + v * 4u + j];
                let kb = kbase + j * 8u;
";

/// A row's product with one word.
pub const W4_BLOCK_DOT: &'static str = r"                if ({t}u < mm) { blk{t} = w4a16_dot8_xoff(pv, kb, {X}, blk{t}); }
";

/// The end of the words of one block.
pub const W4_BLOCK_CLOSE: &'static str = r"            }
";

/// A row's scaled block sum.
pub const W4_BLOCK_FMA: &'static str = r"            if ({t}u < mm) { acc{t} = fma(sc, blk{t}, acc{t}); }
";

/// The walk over groups smaller than a block.
pub const W4_SMALL_LOOP: &'static str = r"        }
    } else {
        for (var v = lane; v < kv; v = v + W4A16_LANES) {
            let kbase = v * 32u;
            for (var j = 0u; j < 4u; j = j + 1u) {
                let pv = w4a16_packed[wbase + v * 4u + j];
                let kb = kbase + j * 8u;
                let sc = w4a16_scale_at(sbase, kb / gs);
";

/// A row's scaled product with one word.
pub const W4_SMALL_DOT: &'static str = r"                if ({t}u < mm) { let a{t} = w4a16_dot8_xoff(pv, kb, {X}, 0.0); acc{t} = fma(a{t}, sc, acc{t}); }
";

/// The end of the block walk.
pub const W4_SMALL_CLOSE: &'static str = r"            }
        }
    }
";

/// What the vector walk reads before its loop.
pub const W4_V4_VARS: &'static str = r"    let kv = select(0u, w4a16_params.k_elems >> 5u, live);
    let wbase4 = select(0u, row * (w4a16_params.w_row_words >> 2u), live);
    let sbase = select(0u, row * w4a16_params.scale_row_stride, live);
    let gs = w4a16_params.gs;
    let mm = g4w_mk_params.m;
    let xs4 = g4w_mk_params.x_stride_words >> 2u;
";

/// The vector walk.
pub const W4_V4_LOOP: &'static str = r"    for (var v = lane; v < kv; v = v + W4A16_LANES) {
        let sc = w4a16_scale_at(sbase, (v << 5u) / gs);
        let wv = w4a16_packed4[wbase4 + v];
";

/// A row's product with one vector.
pub const W4_V4_DOT: &'static str = r"        if ({t}u < mm) { acc{t} = fma(sc, w4a16_dot32_v4(wv, {X}), acc{t}); }
";

/// The end of the vector walk.
pub const W4_V4_CLOSE: &'static str = r"    }
";

/// A row's word into one packed output.
pub const W4_STORE_PK: &'static str = r"                w4a16_y[g4w_mk_params.dst_word_off + {t}u * g4w_mk_params.y_stride_words + (row >> 1u)] = word;
";

/// A row's word into the query, key or value output.
pub const W4_STORE_PK3: &'static str = r"                if (row < g4w_split_params.q_rows) {
                    g4w_y_q[{t}u * (g4w_split_params.q_rows >> 1u) + (row >> 1u)] = word;
                } else {
                    let kr = row - g4w_split_params.q_rows;
                    if (kr < g4w_split_params.kv_rows) {
                        g4w_y_k[{t}u * (g4w_split_params.kv_rows >> 1u) + (kr >> 1u)] = word;
                    }
                    if (row >= g4w_split_params.v_off) {
                        let vr = row - g4w_split_params.v_off;
                        if (vr < g4w_split_params.kv_rows) {
                            g4w_y_v[{t}u * (g4w_split_params.kv_rows >> 1u) + (vr >> 1u)] = word;
                        }
                    }
                }
";

/// A row's reduction, with its store `S`.
pub const W4_FINISH: &'static str = r"    if ({t}u < mm) {
        let total = w4a16_lane_reduce(tid, lane, acc{t});
        if (lane == 0u && live && (warp & 1u) == 0u) {
            let word = g4w_w4_pair_word(tid, total, row + 1u < w4a16_params.n_rows);
{S}        }
        workgroupBarrier();
    }
";

/// Bindings and helpers of the bf16 many-row kernels.
pub const MK_HEAD: &'static str = r"struct G4wSplitParams {
    q_rows: u32,
    kv_rows: u32,
    v_off: u32,
    pad0: u32,
};

struct G4wMkParams {
    m: u32,
    x_stride_words: u32,
    y_stride_words: u32,
    dst_word_off: u32,
};

@group(0) @binding(31) var<storage, read_write> g4w_y_q: array<u32>;
@group(0) @binding(32) var<storage, read_write> g4w_y_k: array<u32>;
@group(0) @binding(33) var<storage, read_write> g4w_y_v: array<u32>;
@group(0) @binding(34) var<uniform> g4w_split_params: G4wSplitParams;
@group(0) @binding(35) var<uniform> g4w_mk_params: G4wMkParams;

fn g4w_pair_word(tid: u32, total: f32, hi_live: bool) -> u32 {
    let lo = bf16_encode(total) & 0xffffu;
    let hi = bf16_encode(gemv_bf16_partial[tid + GEMV_BF16_LANES]) & 0xffffu;
    return lo | (select(0u, hi, hi_live) << 16u);
}

";

/// The arguments and first lines of a bf16 many-row kernel.
pub const MK_OPEN: &'static str = r"    @builtin(workgroup_id) wid: vec3<u32>,
    @builtin(local_invocation_id) lid: vec3<u32>
) {
    let tid = lid.x;
    let lane = tid & (GEMV_BF16_LANES - 1u);
    let warp = tid / GEMV_BF16_LANES;
    let row = wid.x * GEMV_BF16_ROWS + warp;
    let live = row < gemv_bf16_params.n_rows;
    let kv = select(0u, gemv_bf16_params.k_elems >> 3u, live);
    let w_base = select(0u, row * gemv_bf16_params.w_row_words, live);
    let mm = g4w_mk_params.m;
    let xs = g4w_mk_params.x_stride_words;
";

/// The walk over a weight row.
pub const MK_LOOP: &'static str = r"    for (var v = lane; v < kv; v = v + GEMV_BF16_LANES) {
        let wo = w_base + (v << 2u);
        let xo = v << 2u;
        for (var j = 0u; j < 4u; j = j + 1u) {
            let ww = gemv_bf16_w[wo + j];
            let wl = bf16_lo(ww);
            let wh = bf16_hi(ww);
";

/// A row's product with one word.
pub const MK_DOT: &'static str = r"            if ({t}u < mm) { let xw = gemv_bf16_x[{X}]; acc{t} = acc{t} + (wl * bf16_lo(xw) + wh * bf16_hi(xw)); }
";

/// The end of the walk.
pub const MK_LOOP_CLOSE: &'static str = r"        }
    }
";

/// A row's word into one packed output.
pub const MK_STORE_PK: &'static str = r"            gemv_bf16_y[g4w_mk_params.dst_word_off + {t}u * g4w_mk_params.y_stride_words + (row >> 1u)] = word;
";

/// A row's word into the query, key or value output.
pub const MK_STORE_PK3: &'static str = r"            if (row < g4w_split_params.q_rows) {
                g4w_y_q[{t}u * (g4w_split_params.q_rows >> 1u) + (row >> 1u)] = word;
            } else {
                let kr = row - g4w_split_params.q_rows;
                if (kr < g4w_split_params.kv_rows) {
                    g4w_y_k[{t}u * (g4w_split_params.kv_rows >> 1u) + (kr >> 1u)] = word;
                }
                if (row >= g4w_split_params.v_off) {
                    let vr = row - g4w_split_params.v_off;
                    if (vr < g4w_split_params.kv_rows) {
                        g4w_y_v[{t}u * (g4w_split_params.kv_rows >> 1u) + (vr >> 1u)] = word;
                    }
                }
            }
";

/// A row's reduction, with its store `S`.
pub const MK_FINISH: &'static str = r"    if ({t}u < mm) {
        let total = gemv_bf16_reduce(tid, lane, acc{t});
        if (lane == 0u && live && (warp & 1u) == 0u) {
            let word = g4w_pair_word(tid, total, row + 1u < gemv_bf16_params.n_rows);
{S}        }
        workgroupBarrier();
    }
";

/// Bindings of the eight-bit many-row kernels.
pub const I8_HEAD: &'static str = r"struct G4wSplitParams {
    q_rows: u32,
    kv_rows: u32,
    v_off: u32,
    pad0: u32,
};

struct G4wMkParams {
    m: u32,
    x_stride_words: u32,
    y_stride_words: u32,
    dst_word_off: u32,
};

@group(0) @binding(22) var<storage, read> g4w_i8_scales: array<f32>;
@group(0) @binding(31) var<storage, read_write> g4w_y_q: array<u32>;
@group(0) @binding(32) var<storage, read_write> g4w_y_k: array<u32>;
@group(0) @binding(33) var<storage, read_write> g4w_y_v: array<u32>;
@group(0) @binding(34) var<uniform> g4w_split_params: G4wSplitParams;
@group(0) @binding(35) var<uniform> g4w_mk_params: G4wMkParams;

";

/// The arguments and first lines of an eight-bit many-row kernel.
pub const I8_OPEN: &'static str = r"    @builtin(workgroup_id) wid: vec3<u32>,
    @builtin(local_invocation_id) lid: vec3<u32>
) {
    let tid = lid.x;
    let lane = tid & (GEMV_BF16_LANES - 1u);
    let warp = tid / GEMV_BF16_LANES;
    let row = wid.x * GEMV_BF16_ROWS + warp;
    let live = row < gemv_bf16_params.n_rows;
    let kv = select(0u, gemv_bf16_params.k_elems >> 3u, live);
    let w_base = select(0u, row * gemv_bf16_params.w_row_words, live);
    let mm = g4w_mk_params.m;
    let xs = g4w_mk_params.x_stride_words;
";

/// The first scale of a row.
pub const I8_SBASE: &'static str = r"    let sbase = select(0u, row * (gemv_bf16_params.k_elems >> 7u), live);
";

/// The walk over a weight row.
pub const I8_LOOP: &'static str = r"    for (var v = lane; v < kv; v = v + GEMV_BF16_LANES) {
        let wo = w_base + (v << 1u);
        let xo = v << 2u;
        let w0 = gemv_bf16_w[wo];
        let w1 = gemv_bf16_w[wo + 1u];
";

/// The scale of the current group.
pub const I8_GROUP_SCALE: &'static str = r"        let sg = g4w_i8_scales[sbase + (v >> 4u)];
";

/// A row's inputs and its product `D`.
pub const I8_ROW: &'static str = r"        if ({t}u < mm) {
            let x0 = gemv_bf16_x[{X}];
            let x1 = gemv_bf16_x[{X} + 1u];
            let x2 = gemv_bf16_x[{X} + 2u];
            let x3 = gemv_bf16_x[{X} + 3u];
{D}        }
";

/// A row's sum over one group.
pub const I8_ROW_GROUP_SUM: &'static str = r"            var d = 0.0;
";

/// A row's scaled group sum.
pub const I8_ROW_GROUP_FMA: &'static str = r"            acc{t} = fma(sg, d, acc{t});
";

/// The end of the walk.
pub const I8_LOOP_CLOSE: &'static str = r"    }
";

/// Grouped sums are scaled already.
pub const I8_UNIT_SCALE: &'static str = r"    let sc = 1.0;
";

/// The scale of the weight row.
pub const I8_ROW_SCALE: &'static str = r"    let sc = g4w_i8_scales[select(0u, row, live)];
";

/// A row's reduction, with its store `S`.
pub const I8_FINISH: &'static str = r"    if ({t}u < mm) {
        let total = gemv_bf16_reduce(tid, lane, acc{t}) * sc;
        workgroupBarrier();
        if (lane == 0u) {
            gemv_bf16_partial[tid] = total;
        }
        workgroupBarrier();
        if (lane == 0u && live && (warp & 1u) == 0u) {
            let lo = bf16_encode(total) & 0xffffu;
            let hi_live = row + 1u < gemv_bf16_params.n_rows;
            let hi = bf16_encode(gemv_bf16_partial[tid + GEMV_BF16_LANES]) & 0xffffu;
            let word = lo | (select(0u, hi, hi_live) << 16u);
{S}        }
        workgroupBarrier();
    }
";

/// Eight products summed into `A`, indented by `I`.
pub const I8_DOT: &'static str = r"{I}{A} = fma(int8_decode(w0, 0u), bf16_lo(x0), {A});
{I}{A} = fma(int8_decode(w0, 1u), bf16_hi(x0), {A});
{I}{A} = fma(int8_decode(w0, 2u), bf16_lo(x1), {A});
{I}{A} = fma(int8_decode(w0, 3u), bf16_hi(x1), {A});
{I}{A} = fma(int8_decode(w1, 0u), bf16_lo(x2), {A});
{I}{A} = fma(int8_decode(w1, 1u), bf16_hi(x2), {A});
{I}{A} = fma(int8_decode(w1, 2u), bf16_lo(x3), {A});
{I}{A} = fma(int8_decode(w1, 3u), bf16_hi(x3), {A});
";

/// Bindings of the eight-bit single-row kernels.
pub const GEMV_I8_HEAD: &'static str = r"struct G4wPkParams {
    dst_word_off: u32,
    pad0: u32,
    pad1: u32,
    pad2: u32,
};

struct G4wSplitParams {
    q_rows: u32,
    kv_rows: u32,
    v_off: u32,
    pad0: u32,
};

@group(0) @binding(22) var<storage, read> g4w_i8_scales: array<f32>;
@group(0) @binding(30) var<uniform> g4w_pk_params: G4wPkParams;
@group(0) @binding(31) var<storage, read_write> g4w_y_q: array<u32>;
@group(0) @binding(32) var<storage, read_write> g4w_y_k: array<u32>;
@group(0) @binding(33) var<storage, read_write> g4w_y_v: array<u32>;
@group(0) @binding(34) var<uniform> g4w_split_params: G4wSplitParams;

";

/// A word into one packed output.
pub const GEMV_I8_STORE_PK: &'static str = r"        gemv_bf16_y[g4w_pk_params.dst_word_off + (row >> 1u)] = word;
";

/// A word into the query, key or value output.
pub const GEMV_I8_STORE_PK3: &'static str = r"        if (row < g4w_split_params.q_rows) {
            g4w_y_q[row >> 1u] = word;
        } else {
            let kr = row - g4w_split_params.q_rows;
            if (kr < g4w_split_params.kv_rows) {
                g4w_y_k[kr >> 1u] = word;
            }
            if (row >= g4w_split_params.v_off) {
                let vr = row - g4w_split_params.v_off;
                if (vr < g4w_split_params.kv_rows) {
                    g4w_y_v[vr >> 1u] = word;
                }
            }
        }
";

/// The arguments and first lines of an eight-bit single-row kernel.
pub const GEMV_I8_OPEN: &'static str = r"    @builtin(workgroup_id) wid: vec3<u32>,
    @builtin(local_invocation_id) lid: vec3<u32>
) {
    let tid = lid.x;
    let lane = tid & (GEMV_BF16_LANES - 1u);
    let warp = tid / GEMV_BF16_LANES;
    let row = gemv_bf16_row(wid, warp);
    let live = row < gemv_bf16_params.n_rows;
    let kv = select(0u, gemv_bf16_params.k_elems >> 3u, live);
    let w_base = select(0u, row * gemv_bf16_params.w_row_words, live);
";

/// The walk over a weight row.
pub const GEMV_I8_LOOP: &'static str = r"    var acc = 0.0;
    for (var v = lane; v < kv; v = v + GEMV_BF16_LANES) {
        let wo = w_base + (v << 1u);
        let xo = v << 2u;
        let w0 = gemv_bf16_w[wo];
        let w1 = gemv_bf16_w[wo + 1u];
        let x0 = gemv_bf16_x[xo];
        let x1 = gemv_bf16_x[xo + 1u];
        let x2 = gemv_bf16_x[xo + 2u];
        let x3 = gemv_bf16_x[xo + 3u];
";

/// The sum over one group.
pub const GEMV_I8_GROUP_SUM: &'static str = r"        var d = 0.0;
";

/// The scaled group sum.
pub const GEMV_I8_GROUP_FMA: &'static str = r"        acc = fma(g4w_i8_scales[sbase + (v >> 4u)], d, acc);
";

/// The end of the walk and its reduction.
pub const GEMV_I8_REDUCE: &'static str = r"    }
    let sum = gemv_bf16_reduce(tid, lane, acc);
";

/// Grouped sums are scaled already.
pub const GEMV_I8_UNIT_TOTAL: &'static str = r"    let total = sum;
";

/// The sum scaled by the row.
pub const GEMV_I8_ROW_TOTAL: &'static str = r"    let total = sum * g4w_i8_scales[select(0u, row, live)];
";

/// Two rows packed into one word.
pub const GEMV_I8_PAIR: &'static str = r"    workgroupBarrier();
    if (lane == 0u) {
        gemv_bf16_partial[tid] = total;
    }
    workgroupBarrier();
    if (lane == 0u && live && (warp & 1u) == 0u) {
        let lo = bf16_encode(total) & 0xffffu;
        let hi_live = row + 1u < gemv_bf16_params.n_rows;
        let hi = bf16_encode(gemv_bf16_partial[tid + GEMV_BF16_LANES]) & 0xffffu;
        let word = lo | (select(0u, hi, hi_live) << 16u);
";

/// The end of the kernel.
pub const GEMV_I8_CLOSE: &'static str = r"    }
}

";

/// Bindings and helpers of the verify head.
pub const SMK_HEAD: &'static str = r"struct SmkLiveParams {
    n_rows: u32,
    k_elems: u32,
    row_words: u32,
    groups_x: u32,
    m_live: u32,
    pad0: u32,
    pad1: u32,
    pad2: u32,
};

@group(0) @binding(0) var<storage, read> smk_w: array<u32>;
@group(0) @binding(1) var<storage, read> smk_x: array<u32>;
@group(0) @binding(2) var<storage, read_write> smk_y: array<u32>;
@group(0) @binding(3) var<uniform> smk_params: SmkLiveParams;

const SMK_LANES: u32 = 32u;
const SMK_ROWS: u32 = 8u;

var<workgroup> smk_partial: array<f32, 256>;

fn smk_row(wid: vec3<u32>, warp: u32) -> u32 {
    return (wid.x + wid.y * smk_params.groups_x) * SMK_ROWS + warp;
}

fn smk_reduce(tid: u32, lane: u32, acc: f32) -> f32 {
    workgroupBarrier();
    smk_partial[tid] = acc;
    workgroupBarrier();
    for (var stride = SMK_LANES >> 1u; stride > 0u; stride = stride >> 1u) {
        if (lane < stride) {
            smk_partial[tid] = smk_partial[tid] + smk_partial[tid + stride];
        }
        workgroupBarrier();
    }
    return smk_partial[tid - lane];
}

";

/// The arguments and first lines of the verify head.
pub const SMK_OPEN: &'static str = r"    @builtin(workgroup_id) wid: vec3<u32>,
    @builtin(local_invocation_id) lid: vec3<u32>
) {
    let tid = lid.x;
    let lane = tid & (SMK_LANES - 1u);
    let warp = tid / SMK_LANES;
    let row = smk_row(wid, warp);
    let live = row < smk_params.n_rows;
    let kv = select(0u, smk_params.k_elems >> 3u, live);
    let w_base = select(0u, row * smk_params.row_words, live);
    let ml = smk_params.m_live;
";

/// The walk over a weight row.
pub const SMK_LOOP: &'static str = r"    for (var v = lane; v < kv; v = v + SMK_LANES) {
        let wo = w_base + (v << 2u);
        let xo = v << 2u;
        for (var j = 0u; j < 4u; j = j + 1u) {
            let ww = smk_w[wo + j];
            let wl = bf16_lo(ww);
            let wh = bf16_hi(ww);
";

/// A row's product with one word.
pub const SMK_DOT: &'static str = r"            if ({t}u < ml) { let xw = smk_x[{X}]; acc{t} = acc{t} + (wl * bf16_lo(xw) + wh * bf16_hi(xw)); }
";

/// A row's reduction and store.
pub const SMK_FINISH: &'static str = r"    if ({t}u < ml) {
        let total = smk_reduce(tid, lane, acc{t});
        if (lane == 0u && live) {
            smk_y[{t}u * smk_params.n_rows + row] = bf16_encode(total);
        }
    }
";

/// The end of the kernel.
pub const SMK_CLOSE: &'static str = r"}
";

/// A template per row whose input offset `X` is spelled `first` in row zero and `rest` in the
/// others.
pub open spec fn rows_text(
    b: Seq<char>,
    template: Seq<char>,
    first: Seq<char>,
    rest: Seq<char>,
    rows: nat,
) -> Seq<char> {
    if rows == 0 {
        b
    } else {
        each_text(
            b + with_num(with_text(template, 'X', first), 't', 0),
            with_text(template, 'X', rest),
            't',
            1,
            rows,
        )
    }
}

fn push_rows(b: &mut String, template: &str, first: &str, rest: &str, rows: u64)
    ensures
        final(b)@ == rows_text(old(b)@, template@, first@, rest@, rows as nat),
{
    if rows == 0 {
        return ;
    }
    let head = fill_text(template, 'X', first);
    let head = fill_num(head.as_str(), 't', 0);
    b.append(head.as_str());
    let tail = fill_text(template, 'X', rest);
    push_each(b, tail.as_str(), 't', 1, rows);
}

/// The row walk of a four-bit kernel.
pub open spec fn w4_walk_text(b: Seq<char>, v4: bool, rows: nat) -> Seq<char> {
    if v4 {
        let b = each_text(b + W4_V4_VARS@, ROW_ACC@, 't', 0, rows);
        rows_text(b + W4_V4_LOOP@, W4_V4_DOT@, "(v << 2u)"@, "{t}u * xs4 + (v << 2u)"@, rows)
            + W4_V4_CLOSE@
    } else {
        let b = each_text(b + W4_BLOCK_VARS@, ROW_ACC@, 't', 0, rows);
        let b = each_text(b + W4_BLOCK_LOOP@, W4_BLOCK_SUM@, 't', 0, rows);
        let b = rows_text(b + W4_BLOCK_WORDS@, W4_BLOCK_DOT@, "0u"@, "{t}u * xs"@, rows);
        let b = each_text(b + W4_BLOCK_CLOSE@, W4_BLOCK_FMA@, 't', 0, rows);
        rows_text(b + W4_SMALL_LOOP@, W4_SMALL_DOT@, "0u"@, "{t}u * xs"@, rows) + W4_SMALL_CLOSE@
    }
}

fn push_w4_walk(b: &mut String, v4: bool, rows: u64)
    ensures
        final(b)@ == w4_walk_text(old(b)@, v4, rows as nat),
{
    if v4 {
        b.append(W4_V4_VARS);
        push_each(b, ROW_ACC, 't', 0, rows);
        b.append(W4_V4_LOOP);
        push_rows(b, W4_V4_DOT, "(v << 2u)", "{t}u * xs4 + (v << 2u)", rows);
        b.append(W4_V4_CLOSE);
    } else {
        b.append(W4_BLOCK_VARS);
        push_each(b, ROW_ACC, 't', 0, rows);
        b.append(W4_BLOCK_LOOP);
        push_each(b, W4_BLOCK_SUM, 't', 0, rows);
        b.append(W4_BLOCK_WORDS);
        push_rows(b, W4_BLOCK_DOT, "0u", "{t}u * xs", rows);
        b.append(W4_BLOCK_CLOSE);
        push_each(b, W4_BLOCK_FMA, 't', 0, rows);
        b.append(W4_SMALL_LOOP);
        push_rows(b, W4_SMALL_DOT, "0u", "{t}u * xs", rows);
        b.append(W4_SMALL_CLOSE);
    }
}

/// The entry point of a four-bit kernel: by its row walk and its output.
pub open spec fn w4_entry(v4: bool, split: bool) -> Seq<char> {
    if v4 {
        if split {
            "g4w_gemm_w4a16_v4_mk_pk3"@
        } else {
            "g4w_gemm_w4a16_v4_mk_pk"@
        }
    } else {
        if split {
            "g4w_gemm_w4a16_block_mk_pk3"@
        } else {
            "g4w_gemm_w4a16_block_mk_pk"@
        }
    }
}

fn push_entry(b: &mut String, entry: &str, open: &str)
    ensures
        final(b)@ == old(b)@ + (with_text(ENTRY_OPEN@, 'E', entry@) + open@),
{
    let line = fill_text(ENTRY_OPEN, 'E', entry);
    b.append(line.as_str());
    b.append(open);
    assert(b@ =~= old(b)@ + (with_text(ENTRY_OPEN@, 'E', entry@) + open@));
}

/// One four-bit kernel: a row walk, then the reduction and store of every row.
pub open spec fn w4_kernel_text(b: Seq<char>, v4: bool, split: bool, rows: nat) -> Seq<char> {
    let open = with_text(ENTRY_OPEN@, 'E', w4_entry(v4, split)) + W4_OPEN@;
    let finish = with_text(W4_FINISH@, 'S', if split { W4_STORE_PK3@ } else { W4_STORE_PK@ });
    each_text(w4_walk_text(b + open, v4, rows), finish, 't', 0, rows) + CLOSE_FN@
}

fn push_w4_kernel(b: &mut String, v4: bool, split: bool, rows: u64)
    ensures
        final(b)@ == w4_kernel_text(old(b)@, v4, split, rows as nat),
{
    let entry = if v4 {
        if split {
            "g4w_gemm_w4a16_v4_mk_pk3"
        } else {
            "g4w_gemm_w4a16_v4_mk_pk"
        }
    } else {
        if split {
            "g4w_gemm_w4a16_block_mk_pk3"
        } else {
            "g4w_gemm_w4a16_block_mk_pk"
        }
    };
    push_entry(b, entry, W4_OPEN);
    push_w4_walk(b, v4, rows);
    let finish = fill_text(W4_FINISH, 'S', if split { W4_STORE_PK3 } else { W4_STORE_PK });
    push_each(b, finish.as_str(), 't', 0, rows);
    b.append(CLOSE_FN);
}

pub open spec fn w4_mk_unrolled_text(rows: nat) -> Seq<char> {
    let b = Seq::<char>::empty() + W4_HEAD@;
    let b = w4_kernel_text(b, false, false, rows);
    let b = w4_kernel_text(b, false, true, rows);
    let b = w4_kernel_text(b, true, false, rows);
    w4_kernel_text(b, true, true, rows)
}

/// The four-bit many-row kernels with one scalar accumulator per row, for up to `mk_max` rows.
pub fn w4_mk_unrolled_source(mk_max: usize) -> (r: String)
    ensures
        r@ == w4_mk_unrolled_text(mk_max as nat),
{
    let rows: u64 = mk_max as u64;
    let mut b = String::new();
    b.append(W4_HEAD);
    push_w4_kernel(&mut b, false, false, rows);
    push_w4_kernel(&mut b, false, true, rows);
    push_w4_kernel(&mut b, true, false, rows);
    push_w4_kernel(&mut b, true, true, rows);
    b
}

/// One bf16 kernel. Rows zero and one spell their input offset without a factor.
pub open spec fn mk_kernel_text(b: Seq<char>, entry: Seq<char>, split: bool, rows: nat) -> Seq<char> {
    let b = each_text(b + (with_text(ENTRY_OPEN@, 'E', entry) + MK_OPEN@), ROW_ACC@, 't', 0, rows) + MK_LOOP@;
    let b = if rows == 0 {
        b
    } else {
        b + with_num(with_text(MK_DOT@, 'X', "xo + j"@), 't', 0)
    };
    let b = if rows <= 1 {
        b
    } else {
        each_text(
            b + with_num(with_text(MK_DOT@, 'X', "xs + xo + j"@), 't', 1),
            with_text(MK_DOT@, 'X', "{t}u * xs + xo + j"@),
            't',
            2,
            rows,
        )
    };
    let finish = with_text(MK_FINISH@, 'S', if split { MK_STORE_PK3@ } else { MK_STORE_PK@ });
    each_text(b + MK_LOOP_CLOSE@, finish, 't', 0, rows) + CLOSE_FN@
}

fn push_mk_kernel(b: &mut String, entry: &str, split: bool, rows: u64)
    ensures
        final(b)@ == mk_kernel_text(old(b)@, entry@, split, rows as nat),
{
    push_entry(b, entry, MK_OPEN);
    push_each(b, ROW_ACC, 't', 0, rows);
    b.append(MK_LOOP);
    if rows > 0 {
        let row = fill_text(MK_DOT, 'X', "xo + j");
        let row = fill_num(row.as_str(), 't', 0);
        b.append(row.as_str());
    }
    if rows > 1 {
        let row = fill_text(MK_DOT, 'X', "xs + xo + j");
        let row = fill_num(row.as_str(), 't', 1);
        b.append(row.as_str());
        let rest = fill_text(MK_DOT, 'X', "{t}u * xs + xo + j");
        push_each(b, rest.as_str(), 't', 2, rows);
    }
    b.append(MK_LOOP_CLOSE);
    let finish = fill_text(MK_FINISH, 'S', if split { MK_STORE_PK3 } else { MK_STORE_PK });
    push_each(b, finish.as_str(), 't', 0, rows);
    b.append(CLOSE_FN);
}

pub open spec fn mk_unrolled_text(rows: nat) -> Seq<char> {
    let b = Seq::<char>::empty() + MK_HEAD@;
    let b = mk_kernel_text(b, "g4w_gemm_bf16_mk_pk"@, false, rows);
    mk_kernel_text(b, "g4w_gemm_bf16_mk_pk3"@, true, rows)
}

/// The bf16 many-row kernels with one scalar accumulator per row, for up to `mk_max` rows.
pub fn mk_unrolled_source(mk_max: usize) -> (r: String)
    ensures
        r@ == mk_unrolled_text(mk_max as nat),
{
    let rows: u64 = mk_max as u64;
    let mut b = String::new();
    b.append(MK_HEAD);
    push_mk_kernel(&mut b, "g4w_gemm_bf16_mk_pk", false, rows);
    push_mk_kernel(&mut b, "g4w_gemm_bf16_mk_pk3", true, rows);
    b
}

/// Eight decoded products summed into `acc`.
pub open spec fn i8_dot_text(indent: Seq<char>, acc: Seq<char>) -> Seq<char> {
    with_text(with_text(I8_DOT@, 'I', indent), 'A', acc)
}

/// The inner product of eight weights.
pub fn i8_inner_dot(indent: &str, acc: &str) -> (r: String)
    ensures
        r@ == i8_dot_text(indent@, acc@),
{
    let t = fill_text(I8_DOT, 'I', indent);
    fill_text(t.as_str(), 'A', acc)
}

/// A row's part of the eight-bit walk: grouped weights sum a group before scaling it.
pub open spec fn i8_row_text(grouped: bool) -> Seq<char> {
    let dot = if grouped {
        I8_ROW_GROUP_SUM@ + i8_dot_text("            "@, "d"@) + I8_ROW_GROUP_FMA@
    } else {
        i8_dot_text("            "@, "acc{t}"@)
    };
    with_text(I8_ROW@, 'D', dot)
}

fn i8_row(grouped: bool) -> (r: String)
    ensures
        r@ == i8_row_text(grouped),
{
    if grouped {
        let mut dot = I8_ROW_GROUP_SUM.to_owned();
        let inner = i8_inner_dot("            ", "d");
        dot.append(inner.as_str());
        dot.append(I8_ROW_GROUP_FMA);
        fill_text(I8_ROW, 'D', dot.as_str())
    } else {
        let dot = i8_inner_dot("            ", "acc{t}");
        fill_text(I8_ROW, 'D', dot.as_str())
    }
}

pub open spec fn i8_kernel_text(
    b: Seq<char>,
    entry: Seq<char>,
    grouped: bool,
    split: bool,
    rows: nat,
) -> Seq<char> {
    let b = each_text(b + (with_text(ENTRY_OPEN@, 'E', entry) + I8_OPEN@), ROW_ACC@, 't', 0, rows);
    let b = (if grouped { b + I8_SBASE@ } else { b }) + I8_LOOP@;
    let b = if grouped { b + I8_GROUP_SCALE@ } else { b };
    let b = rows_text(b, i8_row_text(grouped), "xo"@, "{t}u * xs + xo"@, rows) + I8_LOOP_CLOSE@;
    let b = b + if grouped { I8_UNIT_SCALE@ } else { I8_ROW_SCALE@ };
    let finish = with_text(I8_FINISH@, 'S', if split { MK_STORE_PK3@ } else { MK_STORE_PK@ });
    each_text(b, finish, 't', 0, rows) + CLOSE_FN@
}

fn push_i8_kernel(b: &mut String, entry: &str, grouped: bool, split: bool, rows: u64)
    ensures
        final(b)@ == i8_kernel_text(old(b)@, entry@, grouped, split, rows as nat),
{
    push_entry(b, entry, I8_OPEN);
    push_each(b, ROW_ACC, 't', 0, rows);
    if grouped {
        b.append(I8_SBASE);
    }
    b.append(I8_LOOP);
    if grouped {
        b.append(I8_GROUP_SCALE);
    }
    let row = i8_row(grouped);
    push_rows(b, row.as_str(), "xo", "{t}u * xs + xo", rows);
    b.append(I8_LOOP_CLOSE);
    b.append(if grouped { I8_UNIT_SCALE } else { I8_ROW_SCALE });
    let finish = fill_text(I8_FINISH, 'S', if split { MK_STORE_PK3 } else { MK_STORE_PK });
    push_each(b, finish.as_str(), 't', 0, rows);
    b.append(CLOSE_FN);
}

pub open spec fn mk_unrolled_i8_text(rows: nat) -> Seq<char> {
    let b = Seq::<char>::empty() + I8_HEAD@;
    let b = i8_kernel_text(b, "g4w_gemm_i8_mk_pk"@, false, false, rows);
    let b = i8_kernel_text(b, "g4w_gemm_i8_mk_pk3"@, false, true, rows);
    let b = i8_kernel_text(b, "g4w_gemm_i8g_mk_pk"@, true, false, rows);
    i8_kernel_text(b, "g4w_gemm_i8g_mk_pk3"@, true, true, rows)
}

/// The eight-bit many-row kernels, with one scale per row and with one per group.
pub fn mk_unrolled_i8_source(mk_max: usize) -> (r: String)
    ensures
        r@ == mk_unrolled_i8_text(mk_max as nat),
{
    let rows: u64 = mk_max as u64;
    let mut b = String::new();
    b.append(I8_HEAD);
    push_i8_kernel(&mut b, "g4w_gemm_i8_mk_pk", false, false, rows);
    push_i8_kernel(&mut b, "g4w_gemm_i8_mk_pk3", false, true, rows);
    push_i8_kernel(&mut b, "g4w_gemm_i8g_mk_pk", true, false, rows);
    push_i8_kernel(&mut b, "g4w_gemm_i8g_mk_pk3", true, true, rows);
    b
}

pub open spec fn gemv_i8_kernel_text(b: Seq<char>, entry: Seq<char>, grouped: bool, split: bool) -> Seq<
    char,
> {
    let b = b + (with_text(ENTRY_OPEN@, 'E', entry) + GEMV_I8_OPEN@);
    let b = (if grouped { b + I8_SBASE@ } else { b }) + GEMV_I8_LOOP@;
    let b = if grouped {
        b + GEMV_I8_GROUP_SUM@ + i8_dot_text("        "@, "d"@) + GEMV_I8_GROUP_FMA@
    } else {
        b + i8_dot_text("        "@, "acc"@)
    };
    let b = b + GEMV_I8_REDUCE@ + (if grouped { GEMV_I8_UNIT_TOTAL@ } else { GEMV_I8_ROW_TOTAL@ });
    b + GEMV_I8_PAIR@ + (if split { GEMV_I8_STORE_PK3@ } else { GEMV_I8_STORE_PK@ })
        + GEMV_I8_CLOSE@
}

fn push_gemv_i8_kernel(b: &mut String, entry: &str, grouped: bool, split: bool)
    ensures
        final(b)@ == gemv_i8_kernel_text(old(b)@, entry@, grouped, split),
{
    push_entry(b, entry, GEMV_I8_OPEN);
    if grouped {
        b.append(I8_SBASE);
    }
    b.append(GEMV_I8_LOOP);
    if grouped {
        b.append(GEMV_I8_GROUP_SUM);
        let dot = i8_inner_dot("        ", "d");
        b.append(dot.as_str());
        b.append(GEMV_I8_GROUP_FMA);
    } else {
        let dot = i8_inner_dot("        ", "acc");
        b.append(dot.as_str());
    }
    b.append(GEMV_I8_REDUCE);
    b.append(if grouped { GEMV_I8_UNIT_TOTAL } else { GEMV_I8_ROW_TOTAL });
    b.append(GEMV_I8_PAIR);
    b.append(if split { GEMV_I8_STORE_PK3 } else { GEMV_I8_STORE_PK });
    b.append(GEMV_I8_CLOSE);
}

pub open spec fn gemv_i8_pk_text() -> Seq<char> {
    let b = Seq::<char>::empty() + GEMV_I8_HEAD@;
    let b = gemv_i8_kernel_text(b, "g4w_gemv_i8_pk"@, false, false);
    let b = gemv_i8_kernel_text(b, "g4w_gemv_i8_pk3"@, false, true);
    let b = gemv_i8_kernel_text(b, "g4w_gemv_i8g_pk"@, true, false);
    gemv_i8_kernel_text(b, "g4w_gemv_i8g_pk3"@, true, true)
}

/// The eight-bit single-row kernels.
pub fn gemv_i8_pk_source() -> (r: String)
    ensures
        r@ == gemv_i8_pk_text(),
{
    let mut b = String::new();
    b.append(GEMV_I8_HEAD);
    push_gemv_i8_kernel(&mut b, "g4w_gemv_i8_pk", false, false);
    push_gemv_i8_kernel(&mut b, "g4w_gemv_i8_pk3", false, true);
    push_gemv_i8_kernel(&mut b, "g4w_gemv_i8g_pk", true, false);
    push_gemv_i8_kernel(&mut b, "g4w_gemv_i8g_pk3", true, true);
    b
}

/// The entry point of the verify head.
pub const SMK_LIVE_ENTRY: &'static str = "e4b_verify_smk_live";

pub open spec fn verify_smk_live_text(rows: nat) -> Seq<char> {
    let open = with_text(ENTRY_OPEN@, 'E', SMK_LIVE_ENTRY@) + SMK_OPEN@;
    let b = each_text(Seq::<char>::empty() + SMK_HEAD@ + open, ROW_ACC@, 't', 0, rows);
    let b = rows_text(
        b + SMK_LOOP@,
        SMK_DOT@,
        "xo + j"@,
        "{t}u * smk_params.row_words + xo + j"@,
        rows,
    );
    each_text(b + MK_LOOP_CLOSE@, SMK_FINISH@, 't', 0, rows) + SMK_CLOSE@
}

/// The verify head for up to `m` rows, before the shared helpers are put in front of it.
pub fn verify_smk_live_source(m: usize) -> (r: String)
    ensures
        r@ == verify_smk_live_text(m as nat),
{
    let rows: u64 = m as u64;
    let mut b = String::new();
    b.append(SMK_HEAD);
    push_entry(&mut b, SMK_LIVE_ENTRY, SMK_OPEN);
    push_each(&mut b, ROW_ACC, 't', 0, rows);
    b.append(SMK_LOOP);
    push_rows(&mut b, SMK_DOT, "xo + j", "{t}u * smk_params.row_words + xo + j", rows);
    b.append(MK_LOOP_CLOSE);
    push_each(&mut b, SMK_FINISH, 't', 0, rows);
    b.append(SMK_CLOSE);
    b
}

/// `src` with its eight-row arrays and loops widened; sources for at most eight rows stay.
pub open spec fn mk_widened(src: Seq<char>, rows: nat) -> Seq<char> {
    if rows <= 8 {
        src
    } else {
        replaced(
            replaced(src, "array<f32, 8>"@, with_num("array<f32, {t}>"@, 't', rows)),
            "t < 8u"@,
            with_num("t < {t}u"@, 't', rows),
        )
    }
}

pub fn mk_widen(src: &str, mk_max: usize) -> (r: String)
    ensures
        r@ == mk_widened(src@, mk_max as nat),
{
    if mk_max <= 8 {
        return src.to_owned();
    }
    proof {
        reveal_strlit("array<f32, 8>");
        reveal_strlit("t < 8u");
    }
    let array = fill_num("array<f32, {t}>", 't', mk_max as u64);
    let bound = fill_num("t < {t}u", 't', mk_max as u64);
    let wide = replace_all(src, "array<f32, 8>", array.as_str());
    replace_all(wide.as_str(), "t < 8u", bound.as_str())
}

/// The single-row kernels followed by their many-row kernels.
pub fn gemv_pk_wgsl(single: &str, many: &str) -> (r: String)
    ensures
        r@ == single@ + many@,
{
    let mut b = single.to_owned();
    b.append(many);
    b
}

/// The second attention stage followed by its many-row kernels.
pub fn flash2_pk_wgsl(single: &str, many: &str) -> (r: String)
    ensures
        r@ == single@ + many@,
{
    let mut b = single.to_owned();
    b.append(many);
    b
}

} // verus!
