//! The shader text of the prefill kernels, generated for a given number of rows.
use vstd::prelude::*;
use crate::text::{each_text, push_each};

verus! {

/// Rows that come from outside take the place of embeddings.
pub const EMBED_ROW_SPLICE_WGSL: &'static str = r"
struct PmSpParams { hidden_words: u32, m: u32, pad0: u32, pad1: u32 };
@group(0) @binding(100) var<storage, read> psp_rows: array<u32>;
@group(0) @binding(101) var<storage, read> psp_mask: array<u32>;
@group(0) @binding(102) var<storage, read_write> psp_out: array<u32>;
@group(0) @binding(103) var<uniform> psp_p: PmSpParams;

@compute @workgroup_size(256)
fn pm_splice_embed_rows(
    @builtin(workgroup_id) wid: vec3<u32>,
    @builtin(local_invocation_id) lid: vec3<u32>
) {
    let t = wid.y;
    if (t >= psp_p.m || psp_mask[t] == 0u) {
        return;
    }
    let w = wid.x * 256u + lid.x;
    if (w >= psp_p.hidden_words) {
        return;
    }
    psp_out[t * psp_p.hidden_words + w] = psp_rows[t * psp_p.hidden_words + w];
}
";

/// The choice of the largest logit in each row of a verify batch.
pub const VERIFY_ARGMAX_WGSL: &'static str = r"
struct PmVamParams { n: u32, groups: u32, pad0: u32, pad1: u32 };
@group(0) @binding(110) var<storage, read> vam_x: array<u32>;
@group(0) @binding(111) var<storage, read_write> vam_pv: array<f32>;
@group(0) @binding(112) var<storage, read_write> vam_pi: array<u32>;
@group(0) @binding(113) var<storage, read_write> vam_out: array<u32>;
@group(0) @binding(114) var<uniform> vam_p: PmVamParams;

var<workgroup> vam_v: array<f32, 256>;
var<workgroup> vam_i: array<u32, 256>;

fn vam_reduce(tid: u32) {
    for (var s = 128u; s > 0u; s = s >> 1u) {
        if (tid < s) {
            let o = tid + s;
            if (vam_v[o] > vam_v[tid] || (vam_v[o] == vam_v[tid] && vam_i[o] < vam_i[tid])) {
                vam_v[tid] = vam_v[o];
                vam_i[tid] = vam_i[o];
            }
        }
        workgroupBarrier();
    }
}

@compute @workgroup_size(256)
fn pm_verify_argmax_bf16_stage1(
    @builtin(workgroup_id) wid: vec3<u32>,
    @builtin(local_invocation_id) lid: vec3<u32>
) {
    let g = wid.x;
    let r = wid.y;
    let tid = lid.x;
    let n_words = (vam_p.n + 1u) / 2u;
    let xbase = r * n_words;
    var bv = -3.4028235e38;
    var bi = 0xffffffffu;
    for (var w = g * 256u + tid; w < n_words; w = w + vam_p.groups * 256u) {
        let word = vam_x[xbase + w];
        let i0 = w * 2u;
        let v0 = bf16_lo(word);
        if (i0 < vam_p.n && (v0 > bv || (v0 == bv && i0 < bi))) {
            bv = v0;
            bi = i0;
        }
        let v1 = bf16_hi(word);
        if (i0 + 1u < vam_p.n && (v1 > bv || (v1 == bv && i0 + 1u < bi))) {
            bv = v1;
            bi = i0 + 1u;
        }
    }
    vam_v[tid] = bv;
    vam_i[tid] = bi;
    workgroupBarrier();
    vam_reduce(tid);
    if (tid == 0u) {
        vam_pv[r * vam_p.groups + g] = vam_v[0];
        vam_pi[r * vam_p.groups + g] = vam_i[0];
    }
}

@compute @workgroup_size(256)
fn pm_verify_argmax_stage2(
    @builtin(workgroup_id) wid: vec3<u32>,
    @builtin(local_invocation_id) lid: vec3<u32>
) {
    let r = wid.y;
    let tid = lid.x;
    var bv = -3.4028235e38;
    var bi = 0xffffffffu;
    if (tid < vam_p.groups) {
        bv = vam_pv[r * vam_p.groups + tid];
        bi = vam_pi[r * vam_p.groups + tid];
    }
    vam_v[tid] = bv;
    vam_i[tid] = bi;
    workgroupBarrier();
    vam_reduce(tid);
    if (tid == 0u) {
        vam_out[r] = vam_i[0];
    }
}
";

/// The start of the many-row product.
pub const GEMM_OPEN: &'static str = r"
@compute @workgroup_size(256)
fn pm_gemm_bf16(
    @builtin(workgroup_id) wid: vec3<u32>,
    @builtin(local_invocation_id) lid: vec3<u32>
) {
    let tid = lid.x;
    let half = tid >> 7u;
    let lane = tid & 127u;
    let pair = wid.x + wid.y * pb_p.groups_x;
    let row = pair * 2u + half;
    let live = row < pb_p.n_rows;
    let wbase = select(0u, row * pb_p.w_row_words, live);
    let kw = select(0u, pb_p.k_words, live);
";

/// One accumulator per row.
pub const GEMM_ACC: &'static str = r"    var acc{t} = 0.0;
";

/// The walk over the words of a weight row.
pub const GEMM_LOOP: &'static str = r"    for (var i = lane; i < kw; i = i + 128u) {
        let ww = pb_w[wbase + i];
        let wl = bf16_lo(ww);
        let wh = bf16_hi(ww);
";

/// One row of the chunk against a weight word.
pub const GEMM_STEP: &'static str = r"        let xw{t} = pb_x[{t}u * pb_p.x_stride_words + i];
        acc{t} = fma(wl, bf16_lo(xw{t}), acc{t});
        acc{t} = fma(wh, bf16_hi(xw{t}), acc{t});
";

/// The end of the walk.
pub const GEMM_LOOP_END: &'static str = r"    }
";

/// The sum over a row of the chunk and its output.
pub const GEMM_REDUCE: &'static str = r"    pb_red[tid] = acc{t};
    workgroupBarrier();
    for (var stride = 64u; stride > 0u; stride = stride >> 1u) {
        if (lane < stride) {
            pb_red[tid] = pb_red[tid] + pb_red[tid + stride];
        }
        workgroupBarrier();
    }
    if (pb_p.out_f32 == 1u) {
        if (lane == 0u && live) {
            pb_y[{t}u * pb_p.y_stride_words + pb_p.y_off_words + row] = bitcast<u32>(pb_red[tid] * pb_p.alpha);
        }
    } else if (tid == 0u) {
        let lo{t} = pb_red[0] * pb_p.alpha;
        var hi{t} = 0.0;
        if (row + 1u < pb_p.n_rows) {
            hi{t} = pb_red[128] * pb_p.alpha;
        }
        pb_y[{t}u * pb_p.y_stride_words + pb_p.y_off_words + (row >> 1u)] = bf16_pack(lo{t}, hi{t});
    }
    workgroupBarrier();
";

/// The end of the kernel.
pub const GEMM_END: &'static str = r"}
";

/// The kernels of a chunk of `m` rows: the common part `head`, then the product with one
/// accumulator per row.
pub open spec fn prefill_text(head: Seq<char>, m: nat) -> Seq<char> {
    let a = each_text(head + GEMM_OPEN@, GEMM_ACC@, 't', 0, m);
    let b = each_text(a + GEMM_LOOP@, GEMM_STEP@, 't', 0, m);
    let c = each_text(b + GEMM_LOOP_END@, GEMM_REDUCE@, 't', 0, m);
    c + GEMM_END@
}

pub fn prefill_wgsl(head: &str, m: usize) -> (r: String)
    ensures
        r@ == prefill_text(head@, m as nat),
{
    let mut b = String::new();
    b.append(head);
    assert(b@ =~= head@);
    b.append(GEMM_OPEN);
    push_each(&mut b, GEMM_ACC, 't', 0, m as u64);
    b.append(GEMM_LOOP);
    push_each(&mut b, GEMM_STEP, 't', 0, m as u64);
    b.append(GEMM_LOOP_END);
    push_each(&mut b, GEMM_REDUCE, 't', 0, m as u64);
    b.append(GEMM_END);
    b
}

/// All prefill kernels; nothing without prefill.
pub open spec fn prefill_module(head: Seq<char>, m: nat) -> Seq<char> {
    if m == 0 {
        Seq::empty()
    } else {
        prefill_text(head, m) + "\n"@ + EMBED_ROW_SPLICE_WGSL@ + "\n"@ + VERIFY_ARGMAX_WGSL@
    }
}

/// The text of all prefill kernels, before it is composed with the common declarations.
pub fn prefill_source(head: &str, m: usize) -> (r: String)
    ensures
        r@ == prefill_module(head@, m as nat),
{
    if m == 0 {
        let b = String::new();
        assert(b@ =~= Seq::<char>::empty());
        return b;
    }
    let mut b = prefill_wgsl(head, m);
    b.append("\n");
    b.append(EMBED_ROW_SPLICE_WGSL);
    b.append("\n");
    b.append(VERIFY_ARGMAX_WGSL);
    b
}

} // verus!
