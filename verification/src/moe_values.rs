//! What the passes of a mixture-of-experts graph compute: every kernel as an operation on the
//! values that its buffers hold.
//!
//! A value is a formula over what the buffers held at first. Running a list of passes leaves a
//! formula in every buffer, which says what the list computes apart from how it is written
//! down. A kernel whose parameters do not fit its operands leaves [`Val::Junk`].
use vstd::prelude::*;
use crate::e4b_emit::{groups_for, F32_ONE};
use crate::e4b_ir::GroupsX;
use crate::moe_env::I8_GS;
use crate::moe_ir::{MoeArg, MoeBuf, MoeGrid, MoeModel, MoeSource, MoeUniform, W4Params};

verus! {

/// An operation on rows.
pub ghost enum Op {
    /// A matrix of `n` rows of `k` words times a row, in words of its own where `full`.
    Product { n: u32, k: u32, alpha: u32, full: bool },
    /// The first operand through the activation, times the second.
    Gelu,
    /// A row divided by its root mean square, times a weight row.
    Norm { width: u32, eps: u32 },
    /// The same with all weights one.
    UnitNorm { width: u32, eps: u32 },
    Times,
    Add,
    Scale(u32),
    /// Each head of a row divided by its root mean square, times a weight row.
    HeadNorm { heads: u32, head_dim: u32, eps: u32 },
    /// Each head of a row turned by the angles of its position.
    Rotate { half: u32 },
    /// The heads of queries, keys and values in one row.
    Heads,
    /// Matrices or rows one after the other.
    Stack,
    /// A cache with the rows of some positions written.
    Put { words: u32, ring: u32 },
    /// A cache in eight bits with the rows of some positions written, and its scales.
    PutCodes { kv_heads: u32, head_dim: u32, ring: u32 },
    PutScales { kv_heads: u32, head_dim: u32, ring: u32 },
    /// Attention of queries over a cache up to their positions.
    Attend { heads: u32, kv_heads: u32, head_dim: u32, window: u32, ring: u32, scale: u32 },
    /// The same with its numbers in a parameter block, over parts of the cache.
    Flash { heads: u32, splits: u32 },
    /// The numbers of the chosen experts, and their weights.
    TopIds { n: u32, k: u32 },
    TopWeights { n: u32, k: u32 },
    /// The matrices of the chosen experts times a row, or times a row for each.
    Expert { n: u32, k: u32, own_rows: bool },
    /// The rows of the chosen experts, weighted and added up.
    Combine { width: u32, k: u32 },
    /// The scaled embedding of a token among the first `upto`.
    Found { upto: int, words: u32, vocab: u32, scale: u32 },
    /// Rows with those that a mask names put in.
    Spliced { words: u32 },
    /// The products of rows with the first `upto` rows of the output table: of the row that
    /// begins at word `x_off`, from word `base` on, after all rows before it.
    Logits { x_off: int, base: int, upto: int, k: int },
    /// Logits kept within a bound, or as they are.
    Capped { n: u32, cap: u32, inv_cap: u32 },
    Plain { n: u32 },
    /// The largest of `n` logits for each of `rows` rows: by parts, and the token.
    Best { n: u32, rows: u32 },
    Token { n: u32, rows: u32 },
}

/// A formula.
pub ghost enum Val {
    Held(MoeBuf),
    Ones,
    Junk,
    /// The rows `from..from + n` of the embedding table.
    Rows { from: int, n: int },
    Of(Op, Seq<Val>),
}

pub open spec fn of1(op: Op, a: Val) -> Val {
    Val::Of(op, seq![a])
}

pub open spec fn of2(op: Op, a: Val, b: Val) -> Val {
    Val::Of(op, seq![a, b])
}

pub open spec fn of3(op: Op, a: Val, b: Val, c: Val) -> Val {
    Val::Of(op, seq![a, b, c])
}

pub open spec fn of4(op: Op, a: Val, b: Val, c: Val, d: Val) -> Val {
    Val::Of(op, seq![a, b, c, d])
}

/// A normed row; weights of one are no weights.
pub open spec fn normed(x: Val, w: Val, width: u32, eps: u32) -> Val {
    if w == Val::Ones {
        of1(Op::UnitNorm { width, eps }, x)
    } else {
        of2(Op::Norm { width, eps }, x, w)
    }
}

/// A sum, scaled unless by one.
pub open spec fn sum(a: Val, b: Val, scale: u32) -> Val {
    let s = of2(Op::Add, a, b);
    if scale == F32_ONE {
        s
    } else {
        of1(Op::Scale(scale), s)
    }
}

/// The elements of a token's row, where the formula says.
pub open spec fn width_of(v: Val) -> Option<int> {
    match v {
        Val::Of(Op::Product { n, .. }, _) => Some(n as int),
        Val::Of(Op::Norm { width, .. }, _) => Some(width as int),
        Val::Of(Op::UnitNorm { width, .. }, _) => Some(width as int),
        Val::Of(Op::Attend { heads, head_dim, .. }, _) => Some(heads * head_dim),
        Val::Of(Op::Expert { n, .. }, args) => match args[3] {
            Val::Of(Op::TopIds { k, .. }, _) => Some(n * k),
            _ => None,
        },
        _ => None,
    }
}

/// How many experts a choice names.
pub open spec fn chosen(ids: Val) -> Option<int> {
    match ids {
        Val::Of(Op::TopIds { k, .. }, _) => Some(k as int),
        _ => None,
    }
}

/// The queries of a row of heads, or the row itself.
pub open spec fn queries(v: Val) -> Val {
    match v {
        Val::Of(Op::Heads, parts) => parts[0],
        _ => v,
    }
}

/// What all buffers hold.
pub type State = Map<MoeBuf, Val>;

/// The kernels by their entry points.
pub ghost enum Kernel {
    Norm,
    NormMul,
    NormResidual,
    NormNormResidual,
    NormTwo,
    NormAddNorm,
    ResAdd,
    Product,
    ProductGelu,
    Expert,
    ExpertGelu,
    ExpertCombine,
    Gelu,
    Mul,
    Pack,
    Combine,
    TopK,
    Rope,
    RopeHeads,
    KvWrite,
    KvWriteHeads,
    KvFp8,
    Attn,
    AttnFp8,
    Flash1,
    Flash1Fp8,
    Flash2,
    PfNorm,
    PfNormResidual,
    PfProduct,
    PfRope,
    PfKvWrite,
    PfAttn,
    PfAttnFp8,
    PfTopK,
    PfExpert,
    PfCombine,
    PfMul,
    Gather,
    PfGather,
    Splice,
    HeadI8,
    Softcap,
    Cast,
    Argmax1,
    Argmax2,
    PfArgmax1,
    PfArgmax2,
    Other,
}

pub open spec fn prop_kernel(e: Seq<char>) -> Kernel {
    if e == "g4m_norm"@ {
        Kernel::Norm
    } else if e == "g4m_norm_mul"@ {
        Kernel::NormMul
    } else if e == "g4m_norm_residual"@ {
        Kernel::NormResidual
    } else if e == "g4m_norm_norm_residual"@ {
        Kernel::NormNormResidual
    } else if e == "g4m_norm_x2"@ {
        Kernel::NormTwo
    } else if e == "g4m_norm_add_norm_resout"@ {
        Kernel::NormAddNorm
    } else {
        Kernel::Other
    }
}

pub open spec fn w4_kernel(e: Seq<char>) -> Kernel {
    if e == "g4m_gemv_w4"@ || e == "g4m_gemv_w4_r8"@ {
        Kernel::Expert
    } else if e == "g4m_gemv_w4_gu_gelu"@ || e == "g4m_gemv_w4_r8_gu_gelu"@ {
        Kernel::ExpertGelu
    } else if e == "g4m_gemv_w4_r8_down_combine"@ {
        Kernel::ExpertCombine
    } else {
        Kernel::Other
    }
}

pub open spec fn moe_kernel(e: Seq<char>) -> Kernel {
    if e == "g4m_gelu_mul"@ {
        Kernel::Gelu
    } else if e == "g4m_mul_bf16"@ {
        Kernel::Mul
    } else if e == "g4m_pack_f32"@ {
        Kernel::Pack
    } else if e == "g4m_moe_combine"@ {
        Kernel::Combine
    } else if e == "g4m_router_topk"@ || e == "g4m_router_topk_par"@ {
        Kernel::TopK
    } else if e == "g4m_gather_embed"@ {
        Kernel::Gather
    } else if e == "g4m_argmax_bf16_stage1"@ {
        Kernel::Argmax1
    } else if e == "g4m_argmax_stage2"@ {
        Kernel::Argmax2
    } else {
        Kernel::Other
    }
}

pub open spec fn attn_kernel(e: Seq<char>) -> Kernel {
    if e == "g4m_attn_norm_rope"@ {
        Kernel::Rope
    } else if e == "g4m_attn_norm_rope_qkv"@ {
        Kernel::RopeHeads
    } else if e == "g4m_kv_write"@ {
        Kernel::KvWrite
    } else if e == "g4m_kv_write_stacked"@ {
        Kernel::KvWriteHeads
    } else if e == "g4m_attn_decode"@ {
        Kernel::Attn
    } else if e == "g4m_attn_decode_fp8"@ {
        Kernel::AttnFp8
    } else {
        Kernel::Other
    }
}

pub open spec fn flash_kernel(e: Seq<char>) -> Kernel {
    if e == "g4m_flash_stage1_bf16"@ {
        Kernel::Flash1
    } else if e == "g4m_flash_stage1_fp8"@ {
        Kernel::Flash1Fp8
    } else if e == "g4m_flash_stage2_pk"@ {
        Kernel::Flash2
    } else {
        Kernel::Other
    }
}

pub open spec fn prefill_kernel(e: Seq<char>) -> Kernel {
    if e == "pm_norm"@ {
        Kernel::PfNorm
    } else if e == "pm_norm_residual"@ {
        Kernel::PfNormResidual
    } else if e == "pm_gemm_bf16"@ {
        Kernel::PfProduct
    } else if e == "pm_attn_norm_rope"@ {
        Kernel::PfRope
    } else if e == "pm_kv_write"@ {
        Kernel::PfKvWrite
    } else if e == "pm_attn"@ {
        Kernel::PfAttn
    } else if e == "pm_attn_fp8"@ {
        Kernel::PfAttnFp8
    } else if e == "pm_router_topk"@ {
        Kernel::PfTopK
    } else if e == "pm_gemv_w4"@ {
        Kernel::PfExpert
    } else if e == "pm_moe_combine"@ {
        Kernel::PfCombine
    } else if e == "pm_mul_rowscale"@ {
        Kernel::PfMul
    } else if e == "pm_gather_embed"@ {
        Kernel::PfGather
    } else if e == "pm_splice_embed_rows"@ {
        Kernel::Splice
    } else if e == "pm_verify_argmax_bf16_stage1"@ {
        Kernel::PfArgmax1
    } else if e == "pm_verify_argmax_stage2"@ {
        Kernel::PfArgmax2
    } else {
        Kernel::Other
    }
}

pub open spec fn gemv_kernel(e: Seq<char>) -> Kernel {
    if e == "g4m_gemv_bf16"@ {
        Kernel::Product
    } else if e == "g4m_gemv_bf16_gu_gelu"@ {
        Kernel::ProductGelu
    } else {
        Kernel::Other
    }
}

pub open spec fn kernel_of(p: MoeModel) -> Kernel {
    match p.src {
        MoeSource::Prop => prop_kernel(p.entry),
        MoeSource::GemvBf16 => gemv_kernel(p.entry),
        MoeSource::GemvW4 => w4_kernel(p.entry),
        MoeSource::Moe => moe_kernel(p.entry),
        MoeSource::Attn => attn_kernel(p.entry),
        MoeSource::Flash => flash_kernel(p.entry),
        MoeSource::Prefill => prefill_kernel(p.entry),
        MoeSource::KvFp8 => if p.entry == "quantize_kv_fp8"@ {
            Kernel::KvFp8
        } else {
            Kernel::Other
        },
        MoeSource::ResScale => if p.entry == "residual_add_scale_bf16"@ {
            Kernel::ResAdd
        } else if p.entry == "tanh_softcap_bf16_to_f32"@ {
            Kernel::Softcap
        } else if p.entry == "cast_bf16_to_f32"@ {
            Kernel::Cast
        } else {
            Kernel::Other
        },
        MoeSource::GemvI8 => Kernel::HeadI8,
        MoeSource::GemvI8V4 => Kernel::HeadI8,
    }
}

/// The buffer that binding `i` has at `slot`.
pub open spec fn bound(p: MoeModel, i: int, slot: u32) -> MoeBuf {
    if 0 <= i < p.binds.len() && p.binds[i].slot == slot {
        match p.binds[i].arg {
            MoeArg::Buf(b) => b,
            MoeArg::Uni(_) => MoeBuf::Tok,
        }
    } else {
        MoeBuf::Tok
    }
}

/// The parameters that binding `i` has at `slot`.
pub open spec fn given(p: MoeModel, i: int, slot: u32) -> Option<MoeUniform> {
    if 0 <= i < p.binds.len() && p.binds[i].slot == slot {
        match p.binds[i].arg {
            MoeArg::Uni(u) => Some(u),
            MoeArg::Buf(_) => None,
        }
    } else {
        None
    }
}

/// The same, where the launch has one group for each of `n`.
pub open spec fn launched(p: MoeModel, i: int, slot: u32, n: int) -> Option<MoeUniform> {
    if each(p.grid, n) {
        given(p, i, slot)
    } else {
        None
    }
}

/// Whether a launch has enough groups for `n` of them.
pub open spec fn launches(g: MoeGrid, n: int) -> bool {
    match g {
        MoeGrid::Dims(x, _, _) => x >= n,
        MoeGrid::OneD(c) => c.wg == 1 && c.invocations >= n,
        MoeGrid::OneDSlots(c, _) => c.wg == 1 && c.invocations >= n,
    }
}

/// Whether a launch has enough invocations for `n` of them.
pub open spec fn covers(g: MoeGrid, n: int) -> bool {
    match g {
        MoeGrid::OneD(c) => c.wg > 0 && c.invocations >= n,
        _ => false,
    }
}

/// Whether a launch has `slots` of them.
pub open spec fn has_slots(g: MoeGrid, slots: int) -> bool {
    match g {
        MoeGrid::OneDSlots(_, z) => z == slots,
        _ => false,
    }
}

/// Whether a launch has one group for each of `n`.
pub open spec fn each(g: MoeGrid, n: int) -> bool {
    match g {
        MoeGrid::Dims(x, y, z) => x == n && y == 1 && z == 1,
        _ => false,
    }
}

/// Whether a launch has, for each of `m` rows, enough groups of 64 for `words`.
pub open spec fn per_row(g: MoeGrid, words: int, m: int) -> bool {
    match g {
        MoeGrid::Dims(x, y, z) => x >= groups_for(words, 64) && y == m && z == 1,
        _ => false,
    }
}

/// Whether the groups that a kernel counts by are those of the launch.
pub open spec fn counts(g: MoeGrid, c: GroupsX) -> bool {
    match g {
        MoeGrid::OneD(d) => c == d,
        MoeGrid::OneDSlots(d, _) => c == d,
        _ => false,
    }
}

/// A normed row, by the parameters of the kernel for `m` rows.
pub open spec fn norm_by(u: Option<MoeUniform>, m: int, x: Val, w: Val) -> Val {
    match u {
        Some(MoeUniform::Norm { hidden, words, eps, .. }) => if words == hidden / 2 && m == 1 {
            normed(x, w, hidden, eps)
        } else {
            Val::Junk
        },
        Some(MoeUniform::PfNorm { hidden, words, eps, m: rows }) => if words == hidden / 2 && rows
            == m {
            normed(x, w, hidden, eps)
        } else {
            Val::Junk
        },
        _ => Val::Junk,
    }
}

/// A product, by the parameters of the kernel.
pub open spec fn product_by(u: Option<MoeUniform>, g: MoeGrid, w: Val, x: Val) -> Val {
    match u {
        Some(MoeUniform::Gemv(v)) => if v.w_row_words == v.k_words && v.x_off_words == 0
            && v.y_off_words == 0 && launches(g, groups_for(v.n_rows as int, 2)) && counts(g, v.groups_x) {
            of2(
                Op::Product { n: v.n_rows, k: v.k_words, alpha: v.alpha, full: v.out_f32 == 1 },
                w,
                x,
            )
        } else {
            Val::Junk
        },
        Some(
            MoeUniform::PfGemm {
                n_rows,
                k_words,
                groups_x,
                out_f32,
                w_row_words,
                x_stride_words,
                y_stride_words,
                alpha,
            },
        ) => if w_row_words == k_words && x_stride_words == k_words && y_stride_words == (
        if out_f32 == 1 {
            n_rows
        } else {
            n_rows / 2
        }) && launches(g, groups_for(n_rows as int, 2)) && counts(g, groups_x) {
            of2(Op::Product { n: n_rows, k: k_words, alpha, full: out_f32 == 1 }, w, x)
        } else {
            Val::Junk
        },
        _ => Val::Junk,
    }
}

/// The gated activation of the rows of `m` tokens, over `words` words.
pub open spec fn gelu_by(u: Option<MoeUniform>, grid: MoeGrid, m: int, gate: Val, up: Val) -> Val {
    match u {
        Some(MoeUniform::Words { n_words }) => if width_of(gate) is Some && width_of(gate)
            == width_of(up) && 2 * n_words == m * width_of(gate)->0 && covers(grid, n_words as int) {
            of2(Op::Gelu, gate, up)
        } else {
            Val::Junk
        },
        _ => Val::Junk,
    }
}

/// A product with the matrices of the chosen experts, by the parameters of the kernel.
pub open spec fn expert_by(v: W4Params, grid: MoeGrid, m: int, w: Val, s: Val, x: Val, ids: Val) -> Val {
    let k = 32 * v.groups;
    match chosen(ids) {
        Some(top) => if counts(grid, v.groups_x) && 8 * v.w_e_stride_words == v.n_rows * k && v.s_e_stride_elems == v.n_rows
            * v.groups && 2 * v.y_slot_stride_words == v.n_rows && has_slots(grid, m * top) {
            if v.x_slot_stride_words == 0 && (m == 1 && v.x_tok_stride_words == 0 || 2
                * v.x_tok_stride_words == k && v.k_top == top) {
                Val::Of(Op::Expert { n: v.n_rows, k: k as u32, own_rows: false }, seq![w, s, x, ids])
            } else if 2 * v.x_slot_stride_words == k && v.x_tok_stride_words == 0 {
                Val::Of(Op::Expert { n: v.n_rows, k: k as u32, own_rows: true }, seq![w, s, x, ids])
            } else {
                Val::Junk
            }
        } else {
            Val::Junk
        },
        None => Val::Junk,
    }
}

/// The weighted sum of the experts' rows, by the parameters of the kernel.
pub open spec fn combine_by(u: Option<MoeUniform>, g: MoeGrid, m: int, y: Val, w: Val) -> Val {
    match u {
        Some(MoeUniform::Combine { hidden_words, k, slot_stride_words }) => if m == 1
            && covers(g, hidden_words as int) && slot_stride_words == hidden_words && width_of(y)
            == Some(2 * hidden_words * k) {
            of2(Op::Combine { width: (2 * hidden_words) as u32, k }, y, w)
        } else {
            Val::Junk
        },
        Some(MoeUniform::PfCombine { hidden_words, k, slot_stride_words, m: rows }) => if m == rows
            && per_row(g, hidden_words as int, m) && slot_stride_words == hidden_words && width_of(y)
            == Some(2 * hidden_words * k) {
            of2(Op::Combine { width: (2 * hidden_words) as u32, k }, y, w)
        } else {
            Val::Junk
        },
        _ => Val::Junk,
    }
}

/// The heads of a row, normed and, where asked for, turned.
pub open spec fn heads_of(
    x: Val,
    w: Val,
    cos: Val,
    sin: Val,
    pos: Val,
    heads: u32,
    head_dim: u32,
    eps: u32,
    turn: bool,
) -> Val {
    let n = of2(Op::HeadNorm { heads, head_dim, eps }, x, w);
    if turn {
        of4(Op::Rotate { half: head_dim / 2 }, n, cos, sin, pos)
    } else {
        n
    }
}

/// The heads of a row by the parameters of the kernel for `m` rows.
pub open spec fn rope_by(
    u: Option<MoeUniform>,
    grid: MoeGrid,
    m: int,
    x: Val,
    w: Val,
    cos: Val,
    sin: Val,
    pos: Val,
) -> Val {
    match u {
        Some(
            MoeUniform::NormRope { n_rows, head_dim, src_stride, rot_half, has_rope, eps, .. },
        ) => if m == 1 && src_stride == head_dim && rot_half == head_dim / 2 && width_of(x) == Some(
            n_rows * head_dim,
        ) && each(grid, n_rows as int) {
            heads_of(x, w, cos, sin, pos, n_rows, head_dim, eps, has_rope == 1)
        } else {
            Val::Junk
        },
        Some(
            MoeUniform::PfRope {
                n_rows,
                head_dim,
                src_stride,
                rot_half,
                has_rope,
                tok_src_stride,
                tok_dst_stride,
                eps,
            },
        ) => if src_stride == head_dim && rot_half == head_dim / 2 && width_of(x) == Some(
            n_rows * head_dim,
        ) && tok_src_stride == n_rows * head_dim && tok_dst_stride == n_rows * head_dim && grid
            == MoeGrid::Dims(n_rows, m as u32, 1) {
            heads_of(x, w, cos, sin, pos, n_rows, head_dim, eps, has_rope == 1)
        } else {
            Val::Junk
        },
        _ => Val::Junk,
    }
}

/// The heads of queries, keys and values from one product with stacked matrices. Without
/// values of its own a layer norms its keys as values.
pub open spec fn all_heads_by(
    u: Option<MoeUniform>,
    g: MoeGrid,
    raw: Val,
    w: Val,
    cos: Val,
    sin: Val,
    pos: Val,
) -> Val {
    match (u, raw, w) {
        (
            Some(
                MoeUniform::NormRope {
                    n_rows,
                    head_dim,
                    src_stride,
                    rot_half,
                    has_rope,
                    n_q,
                    n_kv,
                    eps,
                },
            ),
            Val::Of(Op::Product { n, k, alpha, full }, args),
            Val::Of(Op::Stack, ws),
        ) => match args[0] {
            Val::Of(Op::Stack, mats) => {
                let own = has_rope == 1;
                let q_n = (n_q * head_dim) as u32;
                let kv_n = (n_kv * head_dim) as u32;
                let x = args[1];
                let qr = of2(Op::Product { n: q_n, k, alpha, full }, mats[0], x);
                let kr = of2(Op::Product { n: kv_n, k, alpha, full }, mats[1], x);
                let vr = if own {
                    of2(Op::Product { n: kv_n, k, alpha, full }, mats[2], x)
                } else {
                    kr
                };
                if each(g, n_rows as int) && n_rows == n_q + 2 * n_kv && src_stride == head_dim && rot_half == head_dim / 2
                    && ws.len() == 3 && mats.len() == (if own {
                    3int
                } else {
                    2
                }) && n == n_q * head_dim + (if own {
                    2 * (n_kv * head_dim)
                } else {
                    n_kv * head_dim
                }) {
                    of3(
                        Op::Heads,
                        heads_of(qr, ws[0], cos, sin, pos, n_q, head_dim, eps, true),
                        heads_of(kr, ws[1], cos, sin, pos, n_kv, head_dim, eps, true),
                        heads_of(vr, ws[2], cos, sin, pos, n_kv, head_dim, eps, false),
                    )
                } else {
                    Val::Junk
                }
            },
            _ => Val::Junk,
        },
        _ => Val::Junk,
    }
}

/// How many heads a row has.
pub open spec fn head_count(v: Val) -> Option<u32> {
    match v {
        Val::Of(Op::HeadNorm { heads, .. }, _) => Some(heads),
        Val::Of(Op::Rotate { .. }, args) => match args[0] {
            Val::Of(Op::HeadNorm { heads, .. }, _) => Some(heads),
            _ => None,
        },
        _ => None,
    }
}

/// The words of a row of heads.
pub open spec fn head_words(v: Val) -> Option<int> {
    match v {
        Val::Of(Op::HeadNorm { heads, head_dim, .. }, _) => Some(heads * head_dim / 2),
        Val::Of(Op::Rotate { .. }, args) => match args[0] {
            Val::Of(Op::HeadNorm { heads, head_dim, .. }, _) => Some(heads * head_dim / 2),
            _ => None,
        },
        _ => None,
    }
}

/// A cache with rows written, by the words and the ring of the kernel.
pub open spec fn put_by(cache: Val, rows: Val, pos: Val, words: u32, ring: u32) -> Val {
    if head_words(rows) == Some(words as int) {
        of3(Op::Put { words, ring }, cache, rows, pos)
    } else {
        Val::Junk
    }
}

/// Attention by the parameters of the kernel.
pub open spec fn attend_by(u: Option<MoeUniform>, g: MoeGrid, m: int, args: Seq<Val>) -> Val {
    match u {
        Some(
            MoeUniform::AttnDecode { n_heads, n_kv, head_dim, group, window, ring, scale, .. },
        ) => if m == 1 && each(g, n_heads as int) && n_kv > 0 && group == n_heads / n_kv {
            Val::Of(
                Op::Attend { heads: n_heads, kv_heads: n_kv, head_dim, window, ring, scale },
                args,
            )
        } else {
            Val::Junk
        },
        Some(
            MoeUniform::PfAttn {
                n_heads,
                n_kv,
                head_dim,
                group,
                window,
                m: rows,
                ring,
                scale,
                ..
            },
        ) => if m == rows && g == MoeGrid::Dims(n_heads, rows, 1) && n_kv > 0 && group == n_heads
            / n_kv {
            Val::Of(
                Op::Attend { heads: n_heads, kv_heads: n_kv, head_dim, window, ring, scale },
                args,
            )
        } else {
            Val::Junk
        },
        _ => Val::Junk,
    }
}

/// Attention in parts, a group for each query head and each part.
pub open spec fn flash_by(g: MoeGrid, args: Seq<Val>) -> Val {
    match g {
        MoeGrid::Dims(x, y, z) => if head_count(args[0]) == Some(x) && z == 1 {
            Val::Of(Op::Flash { heads: x, splits: y }, args)
        } else {
            Val::Junk
        },
        _ => Val::Junk,
    }
}

/// The embedding of a token after one more chunk of the table was looked through.
pub open spec fn found_more(
    old: Val,
    tok: Val,
    table: Val,
    row_off: u32,
    n_rows: u32,
    words: u32,
    vocab: u32,
    scale: u32,
) -> Val {
    let upto = row_off + n_rows;
    if table == (Val::Rows { from: row_off as int, n: n_rows as int }) && upto <= vocab && (row_off
        == 0 || old == of1(Op::Found { upto: row_off as int, words, vocab, scale }, tok)) {
        of1(Op::Found { upto, words, vocab, scale }, tok)
    } else {
        Val::Junk
    }
}

/// Logits after those of one more chunk of the table, or the first of one more row.
pub open spec fn logits_more(
    old: Val,
    x: Val,
    table: Val,
    n_rows: u32,
    x_off: int,
    y_off: int,
    k: int,
) -> Val {
    match table {
        Val::Rows { from, n } => {
            let base = y_off - from / 2;
            let begins = x_off == 0 && base == 0;
            let follows = match old {
                Val::Of(Op::Logits { x_off: x0, base: b0, upto, k: k0 }, args) => k0 == k && args
                    == seq![x] && x_off == x0 + k / 2 && base == b0 + upto / 2,
                _ => false,
            };
            if n == n_rows && (if from == 0 {
                begins || follows
            } else {
                old == of1(Op::Logits { x_off, base, upto: from, k }, x)
            }) {
                of1(Op::Logits { x_off, base, upto: from + n, k }, x)
            } else {
                Val::Junk
            }
        },
        _ => Val::Junk,
    }
}

/// The token of the best logits, where both parts of the first stage belong together.
pub open spec fn token_by(val: Val, idx: Val, n: u32, rows: u32) -> Val {
    match val {
        Val::Of(Op::Best { n: k, rows: r }, args) => if idx == val && k == n && r == rows {
            Val::Of(Op::Token { n, rows }, args)
        } else {
            Val::Junk
        },
        _ => Val::Junk,
    }
}

/// What the buffers hold after a pass over the rows of `m` tokens.
#[verifier::opaque]
pub open spec fn step(s: State, p: MoeModel, m: int) -> State {
    match kernel_of(p) {
        Kernel::Norm => s.insert(
            bound(p, 2, 2),
            norm_by(launched(p, 3, 3, 1), m, s[bound(p, 0, 0)], s[bound(p, 1, 1)]),
        ),
        Kernel::PfNorm => s.insert(
            bound(p, 2, 12),
            norm_by(launched(p, 3, 13, m), m, s[bound(p, 0, 10)], s[bound(p, 1, 11)]),
        ),
        Kernel::NormMul => s.insert(
            bound(p, 2, 2),
            of2(
                Op::Times,
                norm_by(launched(p, 3, 3, 1), m, s[bound(p, 0, 0)], Val::Ones),
                s[bound(p, 1, 1)],
            ),
        ),
        Kernel::NormResidual => {
            let r = sum(s[bound(p, 0, 0)], s[bound(p, 4, 4)], F32_ONE);
            s.insert(bound(p, 4, 4), r).insert(
                bound(p, 2, 2),
                norm_by(launched(p, 3, 3, 1), m, r, s[bound(p, 1, 1)]),
            )
        },
        Kernel::PfNormResidual => {
            let r = sum(s[bound(p, 0, 10)], s[bound(p, 4, 14)], F32_ONE);
            s.insert(bound(p, 4, 14), r).insert(
                bound(p, 2, 12),
                norm_by(launched(p, 3, 13, m), m, r, s[bound(p, 1, 11)]),
            )
        },
        Kernel::NormNormResidual => {
            let u = launched(p, 3, 3, 1);
            let a = norm_by(u, m, s[bound(p, 0, 0)], s[bound(p, 1, 1)]);
            let r = sum(a, s[bound(p, 4, 4)], F32_ONE);
            s.insert(bound(p, 4, 4), r).insert(
                bound(p, 2, 2),
                norm_by(u, m, r, s[bound(p, 5, 5)]),
            )
        },
        Kernel::NormTwo => {
            let u = launched(p, 3, 3, 2);
            s.insert(
                bound(p, 2, 2),
                norm_by(u, m, s[bound(p, 0, 0)], s[bound(p, 1, 1)]),
            ).insert(bound(p, 6, 7), norm_by(u, m, s[bound(p, 4, 4)], s[bound(p, 5, 5)]))
        },
        Kernel::NormAddNorm => {
            let u = launched(p, 3, 3, 1);
            let a = norm_by(u, m, s[bound(p, 0, 0)], s[bound(p, 1, 1)]);
            let b = norm_by(u, m, sum(s[bound(p, 6, 6)], a, F32_ONE), s[bound(p, 5, 5)]);
            s.insert(
                bound(p, 2, 2),
                match u {
                    Some(MoeUniform::Norm { scale, .. }) => sum(b, s[bound(p, 4, 4)], scale),
                    _ => Val::Junk,
                },
            )
        },
        Kernel::ResAdd => s.insert(
            bound(p, 2, 2),
            match given(p, 3, 3) {
                Some(MoeUniform::ResScale { n, n_words, scale, .. }) => {
                    let a = s[bound(p, 0, 0)];
                    if width_of(a) is Some && n == m * width_of(a)->0 && 2 * n_words == n && covers(
                        p.grid,
                        n_words as int,
                    ) {
                        sum(a, s[bound(p, 1, 1)], scale)
                    } else {
                        Val::Junk
                    }
                },
                _ => Val::Junk,
            },
        ),
        Kernel::Product => s.insert(
            bound(p, 3, 3),
            if bound(p, 0, 0) is EmbedChunk {
                match given(p, 2, 2) {
                    Some(MoeUniform::Gemv(v)) => if v.w_row_words == v.k_words && v.out_f32 == 0
                        && v.alpha == F32_ONE && launches(p.grid, groups_for(v.n_rows as int, 2))
                        && counts(p.grid, v.groups_x) {
                        logits_more(
                            s[bound(p, 3, 3)],
                            s[bound(p, 1, 1)],
                            s[bound(p, 0, 0)],
                            v.n_rows,
                            v.x_off_words as int,
                            v.y_off_words as int,
                            2 * v.k_words,
                        )
                    } else {
                        Val::Junk
                    },
                    _ => Val::Junk,
                }
            } else if m == 1 {
                product_by(given(p, 2, 2), p.grid, s[bound(p, 0, 0)], s[bound(p, 1, 1)])
            } else {
                Val::Junk
            },
        ),
        Kernel::PfProduct => s.insert(
            bound(p, 3, 23),
            product_by(given(p, 2, 22), p.grid, s[bound(p, 0, 20)], s[bound(p, 1, 21)]),
        ),
        Kernel::ProductGelu => {
            let u = given(p, 2, 2);
            let x = s[bound(p, 1, 1)];
            s.insert(
                bound(p, 3, 3),
                of2(
                    Op::Gelu,
                    product_by(u, p.grid, s[bound(p, 0, 0)], x),
                    product_by(u, p.grid, s[bound(p, 4, 4)], x),
                ),
            )
        },
        Kernel::Gelu => s.insert(
            bound(p, 2, 12),
            gelu_by(given(p, 3, 13), p.grid, m, s[bound(p, 0, 10)], s[bound(p, 1, 11)]),
        ),
        Kernel::Mul => s.insert(
            bound(p, 2, 42),
            match given(p, 3, 43) {
                Some(MoeUniform::Words { n_words }) => if width_of(s[bound(p, 0, 40)]) == Some(
                    2 * n_words,
                ) && covers(p.grid, n_words as int) {
                    of2(Op::Times, s[bound(p, 0, 40)], s[bound(p, 1, 41)])
                } else {
                    Val::Junk
                },
                _ => Val::Junk,
            },
        ),
        Kernel::PfMul => s.insert(
            bound(p, 2, 92),
            match given(p, 3, 93) {
                Some(MoeUniform::PfMul { row_words, m: rows }) => if rows == m && per_row(
                    p.grid,
                    row_words as int,
                    m,
                ) && width_of(s[bound(p, 0, 90)]) == Some(2 * row_words) {
                    of2(Op::Times, s[bound(p, 0, 90)], s[bound(p, 1, 91)])
                } else {
                    Val::Junk
                },
                _ => Val::Junk,
            },
        ),
        Kernel::TopK => match launched(p, 3, 3, 1) {
            Some(MoeUniform::Router { n_experts, k }) => {
                let l = s[bound(p, 0, 0)];
                s.insert(
                    bound(p, 1, 1),
                    of1(Op::TopIds { n: n_experts, k }, l),
                ).insert(
                    bound(p, 2, 2),
                    of2(Op::TopWeights { n: n_experts, k }, l, s[bound(p, 4, 4)]),
                )
            },
            _ => s.insert(bound(p, 1, 1), Val::Junk).insert(bound(p, 2, 2), Val::Junk),
        },
        Kernel::PfTopK => match launched(p, 3, 63, m) {
            Some(MoeUniform::PfRouter { n_experts, k, m: rows }) if rows == m => {
                let l = s[bound(p, 0, 60)];
                s.insert(
                    bound(p, 1, 61),
                    of1(Op::TopIds { n: n_experts, k }, l),
                ).insert(
                    bound(p, 2, 62),
                    of2(Op::TopWeights { n: n_experts, k }, l, s[bound(p, 4, 64)]),
                )
            },
            _ => s.insert(bound(p, 1, 61), Val::Junk).insert(bound(p, 2, 62), Val::Junk),
        },
        Kernel::Expert => s.insert(
            bound(p, 4, 15),
            match given(p, 3, 14) {
                Some(MoeUniform::W4(v)) => expert_by(
                    v,
                    p.grid,
                    m,
                    s[bound(p, 0, 10)],
                    s[bound(p, 1, 11)],
                    s[bound(p, 2, 12)],
                    s[bound(p, 5, 16)],
                ),
                _ => Val::Junk,
            },
        ),
        Kernel::PfExpert => s.insert(
            bound(p, 4, 74),
            match given(p, 3, 73) {
                Some(MoeUniform::PfW4(v)) => expert_by(
                    v,
                    p.grid,
                    m,
                    s[bound(p, 0, 70)],
                    s[bound(p, 1, 71)],
                    s[bound(p, 2, 72)],
                    s[bound(p, 5, 75)],
                ),
                _ => Val::Junk,
            },
        ),
        Kernel::ExpertGelu => s.insert(
            bound(p, 4, 15),
            match given(p, 3, 14) {
                Some(MoeUniform::W4(v)) => {
                    let x = s[bound(p, 2, 12)];
                    let ids = s[bound(p, 5, 16)];
                    of2(
                        Op::Gelu,
                        expert_by(v, p.grid, m, s[bound(p, 0, 10)], s[bound(p, 1, 11)], x, ids),
                        expert_by(v, p.grid, m, s[bound(p, 6, 17)], s[bound(p, 7, 18)], x, ids),
                    )
                },
                _ => Val::Junk,
            },
        ),
        Kernel::ExpertCombine => s.insert(
            bound(p, 4, 15),
            match given(p, 3, 14) {
                Some(MoeUniform::W4(v)) => {
                    let ids = s[bound(p, 5, 16)];
                    // One launch goes over all slots.
                    let all = MoeGrid::OneDSlots(v.groups_x, v.k_top);
                    let y = expert_by(
                        v,
                        all,
                        m,
                        s[bound(p, 0, 10)],
                        s[bound(p, 1, 11)],
                        s[bound(p, 2, 12)],
                        ids,
                    );
                    if has_slots(p.grid, 1) && counts(p.grid, v.groups_x) {
                        of2(Op::Combine { width: v.n_rows, k: v.k_top }, y, s[bound(p, 8, 19)])
                    } else {
                        Val::Junk
                    }
                },
                _ => Val::Junk,
            },
        ),
        Kernel::Combine => s.insert(
            bound(p, 2, 22),
            combine_by(given(p, 3, 23), p.grid, m, s[bound(p, 0, 20)], s[bound(p, 1, 21)]),
        ),
        Kernel::PfCombine => s.insert(
            bound(p, 2, 82),
            combine_by(given(p, 3, 83), p.grid, m, s[bound(p, 0, 80)], s[bound(p, 1, 81)]),
        ),
        Kernel::Pack => s.insert(
            bound(p, 1, 51),
            match given(p, 2, 52) {
                Some(MoeUniform::Words { n_words }) => {
                    let x = s[bound(p, 0, 50)];
                    if width_of(x) is Some && 2 * n_words == m * width_of(x)->0 && covers(
                        p.grid,
                        n_words as int,
                    ) {
                        x
                    } else {
                        Val::Junk
                    }
                },
                _ => Val::Junk,
            },
        ),
        Kernel::Rope => s.insert(
            bound(p, 5, 5),
            rope_by(
                given(p, 6, 6),
                p.grid,
                m,
                s[bound(p, 0, 0)],
                s[bound(p, 1, 1)],
                s[bound(p, 2, 2)],
                s[bound(p, 3, 3)],
                s[bound(p, 4, 4)],
            ),
        ),
        Kernel::PfRope => s.insert(
            bound(p, 5, 35),
            rope_by(
                given(p, 6, 36),
                p.grid,
                m,
                s[bound(p, 0, 30)],
                s[bound(p, 1, 31)],
                s[bound(p, 2, 32)],
                s[bound(p, 3, 33)],
                s[bound(p, 4, 34)],
            ),
        ),
        Kernel::RopeHeads => s.insert(
            bound(p, 5, 5),
            all_heads_by(
                given(p, 6, 6),
                p.grid,
                s[bound(p, 0, 0)],
                s[bound(p, 1, 1)],
                s[bound(p, 2, 2)],
                s[bound(p, 3, 3)],
                s[bound(p, 4, 4)],
            ),
        ),
        Kernel::KvWrite => match given(p, 5, 15) {
            Some(MoeUniform::KvWrite { words, ring, k_off_words }) if k_off_words == 0 && covers(
                p.grid,
                words as int,
            ) => {
                let pos = s[bound(p, 4, 14)];
                s.insert(
                    bound(p, 2, 12),
                    put_by(s[bound(p, 2, 12)], s[bound(p, 0, 10)], pos, words, ring),
                ).insert(
                    bound(p, 3, 13),
                    put_by(s[bound(p, 3, 13)], s[bound(p, 1, 11)], pos, words, ring),
                )
            },
            _ => s.insert(bound(p, 2, 12), Val::Junk).insert(bound(p, 3, 13), Val::Junk),
        },
        Kernel::PfKvWrite => match given(p, 5, 45) {
            Some(MoeUniform::PfKv { words, m: rows, ring }) if rows == m && per_row(
                p.grid,
                words as int,
                m,
            ) => {
                let pos = s[bound(p, 4, 44)];
                s.insert(
                    bound(p, 2, 42),
                    put_by(s[bound(p, 2, 42)], s[bound(p, 0, 40)], pos, words, ring),
                ).insert(
                    bound(p, 3, 43),
                    put_by(s[bound(p, 3, 43)], s[bound(p, 1, 41)], pos, words, ring),
                )
            },
            _ => s.insert(bound(p, 2, 42), Val::Junk).insert(bound(p, 3, 43), Val::Junk),
        },
        Kernel::KvWriteHeads => match (given(p, 4, 15), s[bound(p, 0, 10)]) {
            (
                Some(MoeUniform::KvWrite { words, ring, k_off_words }),
                Val::Of(Op::Heads, parts),
            ) if head_words(parts[0]) == Some(k_off_words as int) && covers(p.grid, words as int) => {
                let pos = s[bound(p, 3, 14)];
                s.insert(
                    bound(p, 1, 12),
                    put_by(s[bound(p, 1, 12)], parts[1], pos, words, ring),
                ).insert(bound(p, 2, 13), put_by(s[bound(p, 2, 13)], parts[2], pos, words, ring))
            },
            _ => s.insert(bound(p, 1, 12), Val::Junk).insert(bound(p, 2, 13), Val::Junk),
        },
        Kernel::KvFp8 => match given(p, 4, 4) {
            Some(MoeUniform::KvFp8 { n_tokens, n_kv, head_dim, ring, pairs, .. }) if n_tokens == m
                && pairs == m * n_kv && p.grid == MoeGrid::Dims(pairs, 1, 1) && head_words(
                s[bound(p, 0, 0)],
            ) == Some(n_kv * head_dim / 2) => {
                let x = s[bound(p, 0, 0)];
                let pos = s[bound(p, 3, 3)];
                s.insert(
                    bound(p, 1, 1),
                    of3(
                        Op::PutCodes { kv_heads: n_kv, head_dim, ring },
                        s[bound(p, 1, 1)],
                        x,
                        pos,
                    ),
                ).insert(
                    bound(p, 2, 2),
                    of3(
                        Op::PutScales { kv_heads: n_kv, head_dim, ring },
                        s[bound(p, 2, 2)],
                        x,
                        pos,
                    ),
                )
            },
            _ => s.insert(bound(p, 1, 1), Val::Junk).insert(bound(p, 2, 2), Val::Junk),
        },
        Kernel::Attn => s.insert(bound(p, 3, 23), Val::Junk).insert(
            bound(p, 4, 24),
            attend_by(
                given(p, 6, 26),
                p.grid,
                m,
                seq![
                    queries(s[bound(p, 0, 20)]),
                    s[bound(p, 1, 21)],
                    s[bound(p, 2, 22)],
                    s[bound(p, 5, 25)],
                ],
            ),
        ),
        Kernel::AttnFp8 => s.insert(bound(p, 3, 23), Val::Junk).insert(
            bound(p, 4, 24),
            attend_by(
                given(p, 6, 26),
                p.grid,
                m,
                seq![
                    s[bound(p, 0, 20)],
                    s[bound(p, 1, 21)],
                    s[bound(p, 2, 22)],
                    s[bound(p, 5, 25)],
                    s[bound(p, 7, 27)],
                    s[bound(p, 8, 28)],
                ],
            ),
        ),
        Kernel::PfAttn => s.insert(bound(p, 3, 53), Val::Junk).insert(
            bound(p, 4, 54),
            attend_by(
                given(p, 6, 56),
                p.grid,
                m,
                seq![
                    s[bound(p, 0, 50)],
                    s[bound(p, 1, 51)],
                    s[bound(p, 2, 52)],
                    s[bound(p, 5, 55)],
                ],
            ),
        ),
        Kernel::PfAttnFp8 => s.insert(bound(p, 3, 53), Val::Junk).insert(
            bound(p, 4, 54),
            attend_by(
                given(p, 6, 56),
                p.grid,
                m,
                seq![
                    s[bound(p, 0, 50)],
                    s[bound(p, 1, 51)],
                    s[bound(p, 2, 52)],
                    s[bound(p, 5, 55)],
                    s[bound(p, 7, 57)],
                    s[bound(p, 8, 58)],
                ],
            ),
        ),
        Kernel::Flash1 => s.insert(
            bound(p, 3, 3),
            flash_by(
                p.grid,
                seq![
                    queries(s[bound(p, 0, 0)]),
                    s[bound(p, 1, 1)],
                    s[bound(p, 2, 2)],
                    s[bound(p, 4, 6)],
                ],
            ),
        ),
        Kernel::Flash1Fp8 => s.insert(
            bound(p, 3, 3),
            flash_by(
                p.grid,
                seq![
                    s[bound(p, 0, 0)],
                    s[bound(p, 1, 1)],
                    s[bound(p, 2, 2)],
                    s[bound(p, 4, 6)],
                    s[bound(p, 5, 7)],
                    s[bound(p, 6, 8)],
                ],
            ),
        ),
        Kernel::HeadI8 => s.insert(
            bound(p, 3, 3),
            match (bound(p, 0, 0), bound(p, 4, 4), given(p, 2, 2)) {
                (MoeBuf::LmI8(c), MoeBuf::LmI8Scales(d), Some(MoeUniform::GemvI8(v))) => {
                    let k = if p.src == MoeSource::GemvI8V4 {
                        16 * v.k_words
                    } else {
                        4 * v.k_words
                    };
                    if c == d && v.w_row_words == v.k_words && v.out_f32 == 0 && v.alpha == F32_ONE
                        && v.s_row_elems == k / (I8_GS as int) && launches(
                        p.grid,
                        groups_for(v.n_rows as int, 2),
                    ) && counts(p.grid, v.groups_x) {
                        logits_more(
                            s[bound(p, 3, 3)],
                            s[bound(p, 1, 1)],
                            s[bound(p, 0, 0)],
                            v.n_rows,
                            v.x_off_words as int,
                            v.y_off_words as int,
                            k,
                        )
                    } else {
                        Val::Junk
                    }
                },
                _ => Val::Junk,
            },
        ),
        Kernel::Gather => s.insert(
            bound(p, 2, 32),
            match given(p, 3, 33) {
                Some(MoeUniform::Gather { row_off, n_rows, hidden_words, vocab, scale }) => if m
                    == 1 && covers(p.grid, hidden_words as int) {
                    found_more(
                        s[bound(p, 2, 32)],
                        s[bound(p, 1, 31)],
                        s[bound(p, 0, 30)],
                        row_off,
                        n_rows,
                        hidden_words,
                        vocab,
                        scale,
                    )
                } else {
                    Val::Junk
                },
                _ => Val::Junk,
            },
        ),
        Kernel::PfGather => s.insert(
            bound(p, 2, 2),
            match given(p, 3, 3) {
                Some(
                    MoeUniform::PfGather { row_off, n_rows, hidden_words, vocab, scale, m: rows },
                ) => if m == rows && p.grid == MoeGrid::Dims(
                    groups_for(hidden_words as int, 256) as u32,
                    rows,
                    1,
                ) {
                    found_more(
                        s[bound(p, 2, 2)],
                        s[bound(p, 1, 1)],
                        s[bound(p, 0, 0)],
                        row_off,
                        n_rows,
                        hidden_words,
                        vocab,
                        scale,
                    )
                } else {
                    Val::Junk
                },
                _ => Val::Junk,
            },
        ),
        Kernel::Splice => s.insert(
            bound(p, 2, 102),
            match given(p, 3, 103) {
                Some(MoeUniform::PfSplice { hidden_words, m: rows }) => if m == rows && p.grid
                    == MoeGrid::Dims(groups_for(hidden_words as int, 256) as u32, rows, 1) {
                    of3(
                        Op::Spliced { words: hidden_words },
                        s[bound(p, 2, 102)],
                        s[bound(p, 0, 100)],
                        s[bound(p, 1, 101)],
                    )
                } else {
                    Val::Junk
                },
                _ => Val::Junk,
            },
        ),
        Kernel::Softcap => s.insert(
            bound(p, 2, 4),
            match given(p, 1, 3) {
                Some(MoeUniform::ResScale { n, n_words, cap, inv_cap, .. }) => if n_words == n / 2
                    && covers(p.grid, n_words as int) {
                    of1(Op::Capped { n, cap, inv_cap }, s[bound(p, 0, 0)])
                } else {
                    Val::Junk
                },
                _ => Val::Junk,
            },
        ),
        Kernel::Cast => s.insert(
            bound(p, 2, 4),
            match given(p, 1, 3) {
                Some(MoeUniform::ResScale { n, n_words, .. }) => if n_words == n / 2 && covers(
                    p.grid,
                    n_words as int,
                ) {
                    of1(Op::Plain { n }, s[bound(p, 0, 0)])
                } else {
                    Val::Junk
                },
                _ => Val::Junk,
            },
        ),
        Kernel::Argmax1 => {
            let v = match given(p, 3, 64) {
                Some(MoeUniform::Argmax { n, groups }) => if m == 1 && each(p.grid, groups as int) {
                    of1(Op::Best { n, rows: 1 }, s[bound(p, 0, 60)])
                } else {
                    Val::Junk
                },
                _ => Val::Junk,
            };
            s.insert(bound(p, 1, 61), v).insert(bound(p, 2, 62), v)
        },
        Kernel::PfArgmax1 => {
            let v = match given(p, 3, 114) {
                Some(MoeUniform::PfArgmax { n, groups }) => if p.grid == MoeGrid::Dims(
                    groups,
                    m as u32,
                    1,
                ) {
                    of1(Op::Best { n, rows: m as u32 }, s[bound(p, 0, 110)])
                } else {
                    Val::Junk
                },
                _ => Val::Junk,
            };
            s.insert(bound(p, 1, 111), v).insert(bound(p, 2, 112), v)
        },
        Kernel::Argmax2 => s.insert(
            bound(p, 2, 63),
            match given(p, 3, 64) {
                Some(MoeUniform::Argmax { n, .. }) => if each(p.grid, 1) {
                    token_by(s[bound(p, 0, 61)], s[bound(p, 1, 62)], n, 1)
                } else {
                    Val::Junk
                },
                _ => Val::Junk,
            },
        ),
        Kernel::PfArgmax2 => s.insert(
            bound(p, 2, 113),
            match given(p, 3, 114) {
                Some(MoeUniform::PfArgmax { n, .. }) => if p.grid == MoeGrid::Dims(1, m as u32, 1) {
                    token_by(s[bound(p, 0, 111)], s[bound(p, 1, 112)], n, m as u32)
                } else {
                    Val::Junk
                },
                _ => Val::Junk,
            },
        ),
        // The second stage merges what the first left, by the same parameters.
        Kernel::Flash2 => s.insert(
            bound(p, 1, 4),
            match s[bound(p, 0, 3)] {
                Val::Of(Op::Flash { heads, .. }, args) if args[3] == s[bound(p, 2, 6)] && each(
                    p.grid,
                    heads as int,
                ) => s[bound(p, 0, 3)],
                _ => Val::Junk,
            },
        ),
        Kernel::Other => s,
    }
}

/// What the buffers hold after a list of passes over the rows of `m` tokens.
pub open spec fn run(s: State, ps: Seq<MoeModel>, m: int) -> State
    decreases ps.len(),
{
    if ps.len() == 0 {
        s
    } else {
        step(run(s, ps.drop_last(), m), ps.last(), m)
    }
}

pub proof fn lemma_run_cat(s: State, a: Seq<MoeModel>, b: Seq<MoeModel>, m: int)
    ensures
        run(s, a + b, m) == run(run(s, a, m), b, m),
    decreases b.len(),
{
    if b.len() == 0 {
        assert(a + b =~= a);
    } else {
        assert((a + b).drop_last() =~= a + b.drop_last());
        assert((a + b).last() == b.last());
        lemma_run_cat(s, a, b.drop_last(), m);
    }
}

pub proof fn lemma_run_push(s: State, a: Seq<MoeModel>, p: MoeModel, m: int)
    ensures
        run(s, a.push(p), m) == step(run(s, a, m), p, m),
{
    assert(a.push(p).drop_last() =~= a);
}


/// Each entry point names one kernel.
pub proof fn lemma_kernels()
    ensures
        prop_kernel("g4m_norm"@) == Kernel::Norm,
        prop_kernel("g4m_norm_mul"@) == Kernel::NormMul,
        prop_kernel("g4m_norm_residual"@) == Kernel::NormResidual,
        prop_kernel("g4m_norm_norm_residual"@) == Kernel::NormNormResidual,
        prop_kernel("g4m_norm_x2"@) == Kernel::NormTwo,
        prop_kernel("g4m_norm_add_norm_resout"@) == Kernel::NormAddNorm,
        gemv_kernel("g4m_gemv_bf16"@) == Kernel::Product,
        gemv_kernel("g4m_gemv_bf16_gu_gelu"@) == Kernel::ProductGelu,
        w4_kernel("g4m_gemv_w4"@) == Kernel::Expert,
        w4_kernel("g4m_gemv_w4_r8"@) == Kernel::Expert,
        w4_kernel("g4m_gemv_w4_gu_gelu"@) == Kernel::ExpertGelu,
        w4_kernel("g4m_gemv_w4_r8_gu_gelu"@) == Kernel::ExpertGelu,
        w4_kernel("g4m_gemv_w4_r8_down_combine"@) == Kernel::ExpertCombine,
{
    reveal_strlit("g4m_norm");
    assert("g4m_norm"@.len() == 8);
    reveal_strlit("g4m_norm_mul");
    assert("g4m_norm_mul"@.len() == 12);
    reveal_strlit("g4m_norm_residual");
    assert("g4m_norm_residual"@.len() == 17);
    reveal_strlit("g4m_norm_norm_residual");
    assert("g4m_norm_norm_residual"@.len() == 22);
    reveal_strlit("g4m_norm_x2");
    assert("g4m_norm_x2"@.len() == 11);
    reveal_strlit("g4m_norm_add_norm_resout");
    assert("g4m_norm_add_norm_resout"@.len() == 24);
    reveal_strlit("g4m_gemv_bf16");
    assert("g4m_gemv_bf16"@.len() == 13);
    reveal_strlit("g4m_gemv_bf16_gu_gelu");
    assert("g4m_gemv_bf16_gu_gelu"@.len() == 21);
    reveal_strlit("g4m_gemv_w4");
    assert("g4m_gemv_w4"@.len() == 11);
    reveal_strlit("g4m_gemv_w4_r8");
    assert("g4m_gemv_w4_r8"@.len() == 14);
    reveal_strlit("g4m_gemv_w4_gu_gelu");
    assert("g4m_gemv_w4_gu_gelu"@.len() == 19);
    reveal_strlit("g4m_gemv_w4_r8_gu_gelu");
    assert("g4m_gemv_w4_r8_gu_gelu"@.len() == 22);
    reveal_strlit("g4m_gemv_w4_r8_down_combine");
    assert("g4m_gemv_w4_r8_down_combine"@.len() == 27);
}

pub proof fn lemma_moe_kernels()
    ensures
        moe_kernel("g4m_gelu_mul"@) == Kernel::Gelu,
        moe_kernel("g4m_mul_bf16"@) == Kernel::Mul,
        moe_kernel("g4m_pack_f32"@) == Kernel::Pack,
        moe_kernel("g4m_moe_combine"@) == Kernel::Combine,
        moe_kernel("g4m_router_topk"@) == Kernel::TopK,
        moe_kernel("g4m_router_topk_par"@) == Kernel::TopK,
{
    reveal_strlit("g4m_gelu_mul");
    assert("g4m_gelu_mul"@.len() == 12);
    reveal_strlit("g4m_mul_bf16");
    assert("g4m_mul_bf16"@.len() == 12);
    reveal_strlit("g4m_pack_f32");
    assert("g4m_pack_f32"@.len() == 12);
    reveal_strlit("g4m_moe_combine");
    assert("g4m_moe_combine"@.len() == 15);
    reveal_strlit("g4m_router_topk");
    assert("g4m_router_topk"@.len() == 15);
    reveal_strlit("g4m_router_topk_par");
    assert("g4m_router_topk_par"@.len() == 19);
    assert("g4m_gelu_mul"@[4] == 'g' && "g4m_mul_bf16"@[4] == 'm' && "g4m_pack_f32"@[4] == 'p');
    assert("g4m_moe_combine"@[4] == 'm' && "g4m_router_topk"@[4] == 'r');
}

pub proof fn lemma_attn_kernels()
    ensures
        attn_kernel("g4m_attn_norm_rope"@) == Kernel::Rope,
        attn_kernel("g4m_attn_norm_rope_qkv"@) == Kernel::RopeHeads,
        attn_kernel("g4m_kv_write"@) == Kernel::KvWrite,
        attn_kernel("g4m_kv_write_stacked"@) == Kernel::KvWriteHeads,
        attn_kernel("g4m_attn_decode"@) == Kernel::Attn,
        attn_kernel("g4m_attn_decode_fp8"@) == Kernel::AttnFp8,
        flash_kernel("g4m_flash_stage1_bf16"@) == Kernel::Flash1,
        flash_kernel("g4m_flash_stage1_fp8"@) == Kernel::Flash1Fp8,
        flash_kernel("g4m_flash_stage2_pk"@) == Kernel::Flash2,
{
    reveal_strlit("g4m_attn_norm_rope");
    assert("g4m_attn_norm_rope"@.len() == 18);
    reveal_strlit("g4m_attn_norm_rope_qkv");
    assert("g4m_attn_norm_rope_qkv"@.len() == 22);
    reveal_strlit("g4m_kv_write");
    assert("g4m_kv_write"@.len() == 12);
    reveal_strlit("g4m_kv_write_stacked");
    assert("g4m_kv_write_stacked"@.len() == 20);
    reveal_strlit("g4m_attn_decode");
    assert("g4m_attn_decode"@.len() == 15);
    reveal_strlit("g4m_attn_decode_fp8");
    assert("g4m_attn_decode_fp8"@.len() == 19);
    reveal_strlit("g4m_flash_stage1_bf16");
    assert("g4m_flash_stage1_bf16"@.len() == 21);
    reveal_strlit("g4m_flash_stage1_fp8");
    assert("g4m_flash_stage1_fp8"@.len() == 20);
    reveal_strlit("g4m_flash_stage2_pk");
    assert("g4m_flash_stage2_pk"@.len() == 19);
}

pub proof fn lemma_prefill_kernels()
    ensures
        prefill_kernel("pm_norm"@) == Kernel::PfNorm,
        prefill_kernel("pm_norm_residual"@) == Kernel::PfNormResidual,
        prefill_kernel("pm_gemm_bf16"@) == Kernel::PfProduct,
        prefill_kernel("pm_attn_norm_rope"@) == Kernel::PfRope,
        prefill_kernel("pm_kv_write"@) == Kernel::PfKvWrite,
        prefill_kernel("pm_attn"@) == Kernel::PfAttn,
        prefill_kernel("pm_attn_fp8"@) == Kernel::PfAttnFp8,
        prefill_kernel("pm_router_topk"@) == Kernel::PfTopK,
        prefill_kernel("pm_gemv_w4"@) == Kernel::PfExpert,
        prefill_kernel("pm_moe_combine"@) == Kernel::PfCombine,
        prefill_kernel("pm_mul_rowscale"@) == Kernel::PfMul,
{
    reveal_strlit("pm_norm");
    assert("pm_norm"@.len() == 7);
    reveal_strlit("pm_norm_residual");
    assert("pm_norm_residual"@.len() == 16);
    reveal_strlit("pm_gemm_bf16");
    assert("pm_gemm_bf16"@.len() == 12);
    reveal_strlit("pm_attn_norm_rope");
    assert("pm_attn_norm_rope"@.len() == 17);
    reveal_strlit("pm_kv_write");
    assert("pm_kv_write"@.len() == 11);
    reveal_strlit("pm_attn");
    assert("pm_attn"@.len() == 7);
    reveal_strlit("pm_attn_fp8");
    assert("pm_attn_fp8"@.len() == 11);
    reveal_strlit("pm_router_topk");
    assert("pm_router_topk"@.len() == 14);
    reveal_strlit("pm_gemv_w4");
    assert("pm_gemv_w4"@.len() == 10);
    reveal_strlit("pm_moe_combine");
    assert("pm_moe_combine"@.len() == 14);
    reveal_strlit("pm_mul_rowscale");
    assert("pm_mul_rowscale"@.len() == 15);
    assert("pm_norm"@[3] == 'n' && "pm_attn"@[3] == 'a');
    assert("pm_kv_write"@[3] == 'k' && "pm_attn_fp8"@[3] == 'a');
    assert("pm_router_topk"@[3] == 'r' && "pm_moe_combine"@[3] == 'm');
}

pub proof fn lemma_edge_kernels()
    ensures
        moe_kernel("g4m_gather_embed"@) == Kernel::Gather,
        moe_kernel("g4m_argmax_bf16_stage1"@) == Kernel::Argmax1,
        moe_kernel("g4m_argmax_stage2"@) == Kernel::Argmax2,
        prefill_kernel("pm_gather_embed"@) == Kernel::PfGather,
        prefill_kernel("pm_splice_embed_rows"@) == Kernel::Splice,
        prefill_kernel("pm_verify_argmax_bf16_stage1"@) == Kernel::PfArgmax1,
        prefill_kernel("pm_verify_argmax_stage2"@) == Kernel::PfArgmax2,
        "tanh_softcap_bf16_to_f32"@ != "residual_add_scale_bf16"@,
        "cast_bf16_to_f32"@ != "residual_add_scale_bf16"@,
        "cast_bf16_to_f32"@ != "tanh_softcap_bf16_to_f32"@,
{
    reveal_strlit("g4m_gelu_mul");
    assert("g4m_gelu_mul"@.len() == 12);
    reveal_strlit("g4m_mul_bf16");
    assert("g4m_mul_bf16"@.len() == 12);
    reveal_strlit("g4m_pack_f32");
    assert("g4m_pack_f32"@.len() == 12);
    reveal_strlit("g4m_moe_combine");
    assert("g4m_moe_combine"@.len() == 15);
    reveal_strlit("g4m_router_topk");
    assert("g4m_router_topk"@.len() == 15);
    reveal_strlit("g4m_router_topk_par");
    assert("g4m_router_topk_par"@.len() == 19);
    reveal_strlit("g4m_gather_embed");
    assert("g4m_gather_embed"@.len() == 16);
    reveal_strlit("g4m_argmax_bf16_stage1");
    assert("g4m_argmax_bf16_stage1"@.len() == 22);
    reveal_strlit("g4m_argmax_stage2");
    assert("g4m_argmax_stage2"@.len() == 17);
    reveal_strlit("pm_norm");
    assert("pm_norm"@.len() == 7);
    reveal_strlit("pm_norm_residual");
    assert("pm_norm_residual"@.len() == 16);
    reveal_strlit("pm_gemm_bf16");
    assert("pm_gemm_bf16"@.len() == 12);
    reveal_strlit("pm_attn_norm_rope");
    assert("pm_attn_norm_rope"@.len() == 17);
    reveal_strlit("pm_kv_write");
    assert("pm_kv_write"@.len() == 11);
    reveal_strlit("pm_attn");
    assert("pm_attn"@.len() == 7);
    reveal_strlit("pm_attn_fp8");
    assert("pm_attn_fp8"@.len() == 11);
    reveal_strlit("pm_router_topk");
    assert("pm_router_topk"@.len() == 14);
    reveal_strlit("pm_gemv_w4");
    assert("pm_gemv_w4"@.len() == 10);
    reveal_strlit("pm_moe_combine");
    assert("pm_moe_combine"@.len() == 14);
    reveal_strlit("pm_mul_rowscale");
    assert("pm_mul_rowscale"@.len() == 15);
    reveal_strlit("pm_gather_embed");
    assert("pm_gather_embed"@.len() == 15);
    reveal_strlit("pm_splice_embed_rows");
    assert("pm_splice_embed_rows"@.len() == 20);
    reveal_strlit("pm_verify_argmax_bf16_stage1");
    assert("pm_verify_argmax_bf16_stage1"@.len() == 28);
    reveal_strlit("pm_verify_argmax_stage2");
    assert("pm_verify_argmax_stage2"@.len() == 23);
    reveal_strlit("tanh_softcap_bf16_to_f32");
    assert("tanh_softcap_bf16_to_f32"@.len() == 24);
    reveal_strlit("residual_add_scale_bf16");
    assert("residual_add_scale_bf16"@.len() == 23);
    reveal_strlit("cast_bf16_to_f32");
    assert("cast_bf16_to_f32"@.len() == 16);
    assert("pm_mul_rowscale"@[3] == 'm' && "pm_gather_embed"@[3] == 'g');
}

} // verus!
