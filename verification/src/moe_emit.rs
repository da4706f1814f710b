//! The passes that a mixture-of-experts graph is put together from.
use vstd::prelude::*;
use crate::e4b_emit::{div_up, groups_for, F32_ONE};
use crate::e4b_ir::GroupsX;
use crate::moe_env::{
    eight_rows, gemv_wide_enabled, takes_eight_rows, wide_for, I8Head, I8_GS, W4_GS,
};
use crate::moe_ir::{
    bind4, bind5, bind6, bind8, bind9, grid1, mb, mbuf, moe_pass, mu, muni, over, GemvBf16Params,
    GemvI8Params, MoeBuf, MoeGrid, MoeList, MoeModel, MoeSource, MoeUniform, W4Params,
};
use crate::parse::text_of;

verus! {

/// The sizes of a graph; `m` is the rows of a prefill chunk, zero without prefill.
#[derive(Clone, Copy, Debug, PartialEq, Eq, Structural)]
pub struct MoeDims {
    pub hidden: usize,
    pub inter: usize,
    pub moe_inter: usize,
    pub n_experts: usize,
    pub top_k: usize,
    pub vocab: usize,
    pub n_q: usize,
    pub n_layers: usize,
    pub max_seq: usize,
    pub m: usize,
}

/// Floating-point factors, as their bits.
#[derive(Clone, Copy, Debug, PartialEq, Eq, Structural)]
pub struct MoeFactors {
    pub eps: u32,
    pub router_alpha: u32,
    pub embed_scale: u32,
    pub cap: u32,
    pub inv_cap: u32,
    /// The logits are capped.
    pub capped: bool,
}

/// What the graph is asked for.
#[derive(Clone, Copy, Debug)]
pub struct MoeSwitches<'a> {
    pub grouped: bool,
    pub fp8: bool,
    pub kind_labels: bool,
    pub flash_full: bool,
    pub flash_sliding: bool,
    pub splits: u32,
    pub wide: Option<&'a str>,
    pub topk: Option<&'a str>,
    pub w4: Option<&'a str>,
    pub i8_head: Option<I8Head>,
}

/// Everything that a layer's passes depend on besides the layer.
#[derive(Clone, Copy, Debug)]
pub struct MoePlan<'a> {
    pub d: MoeDims,
    pub f: MoeFactors,
    pub sw: MoeSwitches<'a>,
}

/// A bf16 matrix of `n` rows of `k`.
#[derive(Clone, Copy, Debug, PartialEq, Eq, Structural)]
pub struct MoeMat {
    pub buf: MoeBuf,
    pub n: usize,
    pub k: usize,
}

/// The four-bit matrices of all experts, of `n` rows of `k` each.
#[derive(Clone, Copy, Debug, PartialEq, Eq, Structural)]
pub struct MoeExperts {
    pub w: MoeBuf,
    pub scales: MoeBuf,
    pub n: usize,
    pub k: usize,
}

pub open spec fn flag(b: bool) -> u32 {
    if b { 1 } else { 0 }
}

fn as_flag(b: bool) -> (r: u32)
    ensures
        r == flag(b),
{
    if b { 1 } else { 0 }
}

/// Whether a row product loads four words at a time.
pub open spec fn loads_wide(sw: MoeSwitches, label: Seq<char>, k: int, x_off: int) -> bool {
    wide_for(text_of(sw.wide), label) && k % 8 == 0 && x_off % 4 == 0
}

fn wide_flag(sw: &MoeSwitches, label: &str, k: usize, x_off: usize) -> (r: u32)
    ensures
        r == flag(loads_wide(*sw, label@, k as int, x_off as int)),
{
    as_flag(gemv_wide_enabled(sw.wide, label) && k % 8 == 0 && x_off % 4 == 0)
}

/// The parameters of a product of a whole row.
pub open spec fn gemv_params(w: MoeMat, out_f32: bool, wide: bool, alpha: u32) -> MoeUniform {
    MoeUniform::Gemv(
        GemvBf16Params {
            n_rows: w.n as u32,
            k_words: (w.k / 2) as u32,
            groups_x: GroupsX { invocations: groups_for(w.n as int, 2) as u64, wg: 1 },
            out_f32: flag(out_f32),
            w_row_words: (w.k / 2) as u32,
            x_off_words: 0,
            y_off_words: 0,
            wide: flag(wide),
            alpha,
        },
    )
}

/// A row times a bf16 matrix.
pub open spec fn gemv_bf16_pass(
    sw: MoeSwitches,
    label: Seq<char>,
    w: MoeMat,
    x: MoeBuf,
    y: MoeBuf,
) -> MoeModel {
    moe_pass(
        label,
        MoeSource::GemvBf16,
        "g4m_gemv_bf16"@,
        seq![
            mb(0, w.buf),
            mb(1, x),
            mu(2, gemv_params(w, false, loads_wide(sw, label, w.k as int, 0), F32_ONE)),
            mb(3, y),
        ],
        over(groups_for(w.n as int, 2), 1),
    )
}

fn gemv_uniform(w: &MoeMat, out_f32: bool, wide: u32, alpha: u32) -> (r: MoeUniform)
    requires
        wide <= 1,
    ensures
        r == gemv_params(*w, out_f32, wide == 1, alpha),
{
    let pairs: usize = div_up(w.n, 2);
    MoeUniform::Gemv(
        GemvBf16Params {
            n_rows: w.n as u32,
            k_words: (w.k / 2) as u32,
            groups_x: GroupsX { invocations: pairs as u64, wg: 1 },
            out_f32: as_flag(out_f32),
            w_row_words: (w.k / 2) as u32,
            x_off_words: 0,
            y_off_words: 0,
            wide,
            alpha,
        },
    )
}

pub fn push_gemv_bf16(
    out: &mut MoeList,
    sw: &MoeSwitches,
    label: &'static str,
    w: &MoeMat,
    x: MoeBuf,
    y: MoeBuf,
)
    ensures
        final(out)@ == old(out)@.push(gemv_bf16_pass(*sw, label@, *w, x, y)),
{
    let wide: u32 = wide_flag(sw, label, w.k, 0);
    let p = gemv_uniform(w, false, wide, F32_ONE);
    let grid = grid1(div_up(w.n, 2), 1);
    out.push(
        label,
        MoeSource::GemvBf16,
        "g4m_gemv_bf16",
        bind4(mbuf(0, w.buf), mbuf(1, x), muni(2, p), mbuf(3, y)),
        grid,
    );
}

/// A row times a bf16 matrix, scaled by `alpha` and left in single precision. It never loads
/// wide.
pub open spec fn gemv_scaled_pass(label: Seq<char>, w: MoeMat, x: MoeBuf, y: MoeBuf, alpha: u32) -> MoeModel {
    moe_pass(
        label,
        MoeSource::GemvBf16,
        "g4m_gemv_bf16"@,
        seq![mb(0, w.buf), mb(1, x), mu(2, gemv_params(w, true, false, alpha)), mb(3, y)],
        over(groups_for(w.n as int, 2), 1),
    )
}

pub fn push_gemv_bf16_alpha(
    out: &mut MoeList,
    label: &'static str,
    w: &MoeMat,
    x: MoeBuf,
    y: MoeBuf,
    alpha: u32,
)
    ensures
        final(out)@ == old(out)@.push(gemv_scaled_pass(label@, *w, x, y, alpha)),
{
    let p = gemv_uniform(w, true, 0, alpha);
    let grid = grid1(div_up(w.n, 2), 1);
    out.push(
        label,
        MoeSource::GemvBf16,
        "g4m_gemv_bf16",
        bind4(mbuf(0, w.buf), mbuf(1, x), muni(2, p), mbuf(3, y)),
        grid,
    );
}

/// The gated activation of two products with matrices of one shape. It loads wide where the
/// gate's own pass would.
pub open spec fn gemv_gu_pass(
    sw: MoeSwitches,
    label: Seq<char>,
    wg: MoeMat,
    wu: MoeMat,
    x: MoeBuf,
    act: MoeBuf,
    gate_label: Seq<char>,
) -> MoeModel {
    moe_pass(
        label,
        MoeSource::GemvBf16,
        "g4m_gemv_bf16_gu_gelu"@,
        seq![
            mb(0, wg.buf),
            mb(1, x),
            mu(2, gemv_params(wg, false, loads_wide(sw, gate_label, wg.k as int, 0), F32_ONE)),
            mb(3, act),
            mb(4, wu.buf),
        ],
        over(groups_for(wg.n as int, 2), 1),
    )
}

pub fn push_gemv_bf16_gu_gelu(
    out: &mut MoeList,
    sw: &MoeSwitches,
    label: &'static str,
    wg: &MoeMat,
    wu: &MoeMat,
    x: MoeBuf,
    act: MoeBuf,
    gate_label: &'static str,
)
    requires
        wg.n == wu.n,
        wg.k == wu.k,
    ensures
        final(out)@ == old(out)@.push(
            gemv_gu_pass(*sw, label@, *wg, *wu, x, act, gate_label@),
        ),
{
    let wide: u32 = wide_flag(sw, gate_label, wg.k, 0);
    let p = gemv_uniform(wg, false, wide, F32_ONE);
    let grid = grid1(div_up(wg.n, 2), 1);
    out.push(
        label,
        MoeSource::GemvBf16,
        "g4m_gemv_bf16_gu_gelu",
        bind5(mbuf(0, wg.buf), mbuf(1, x), muni(2, p), mbuf(3, act), mbuf(4, wu.buf)),
        grid,
    );
}

/// The rows of a four-bit matrix that one workgroup takes.
pub open spec fn w4_rows(sw: MoeSwitches, e: MoeExperts) -> int {
    if eight_rows(text_of(sw.w4), (e.k / W4_GS) as int, e.n as int) { 8 } else { 2 }
}

pub open spec fn w4_params(e: MoeExperts, rows: int, x_slot: int, x_tok: int, k_top: int) -> W4Params {
    W4Params {
        n_rows: e.n as u32,
        groups: (e.k / W4_GS) as u32,
        groups_x: GroupsX { invocations: groups_for(e.n as int, rows) as u64, wg: 1 },
        w_e_stride_words: (e.n * e.k / 8) as u32,
        s_e_stride_elems: (e.n * (e.k / W4_GS)) as u32,
        x_slot_stride_words: x_slot as u32,
        y_slot_stride_words: (e.n / 2) as u32,
        x_tok_stride_words: x_tok as u32,
        k_top: k_top as u32,
    }
}

impl MoeExperts {
    /// The size of an expert's matrix fits the address type.
    pub open spec fn fits(self) -> bool {
        self.n * self.k <= usize::MAX
    }
}

fn w4_uniform(e: &MoeExperts, rows: usize, x_slot: usize, x_tok: usize, k_top: usize) -> (r: W4Params)
    requires
        e.fits(),
        rows > 0,
    ensures
        r == w4_params(*e, rows as int, x_slot as int, x_tok as int, k_top as int),
{
    let groups: usize = e.k / W4_GS;
    assert(e.n * groups <= e.n * e.k) by (nonlinear_arith)
        requires
            groups <= e.k,
    ;
    let rows_groups: usize = div_up(e.n, rows);
    W4Params {
        n_rows: e.n as u32,
        groups: groups as u32,
        groups_x: GroupsX { invocations: rows_groups as u64, wg: 1 },
        w_e_stride_words: (e.n * e.k / 8) as u32,
        s_e_stride_elems: (e.n * groups) as u32,
        x_slot_stride_words: x_slot as u32,
        y_slot_stride_words: (e.n / 2) as u32,
        x_tok_stride_words: x_tok as u32,
        k_top: k_top as u32,
    }
}

pub open spec fn slots_grid(e: MoeExperts, rows: int, slots: int) -> MoeGrid {
    MoeGrid::OneDSlots(
        GroupsX { invocations: groups_for(e.n as int, rows) as u64, wg: 1 },
        slots as u32,
    )
}

fn over_slots(e: &MoeExperts, rows: usize, slots: usize) -> (r: MoeGrid)
    requires
        rows > 0,
    ensures
        r == slots_grid(*e, rows as int, slots as int),
{
    let n: usize = div_up(e.n, rows);
    MoeGrid::OneDSlots(GroupsX { invocations: n as u64, wg: 1 }, slots as u32)
}

/// The product with the matrix of each chosen expert. Each slot has an input row of its own,
/// or all share one.
pub open spec fn gemv_w4_pass(
    sw: MoeSwitches,
    label: Seq<char>,
    e: MoeExperts,
    x: MoeBuf,
    y: MoeBuf,
    sel: MoeBuf,
    slots: int,
    per_slot: bool,
) -> MoeModel {
    let rows = w4_rows(sw, e);
    moe_pass(
        label,
        MoeSource::GemvW4,
        if rows == 8 { "g4m_gemv_w4_r8"@ } else { "g4m_gemv_w4"@ },
        seq![
            mb(10, e.w),
            mb(11, e.scales),
            mb(12, x),
            mu(
                14,
                MoeUniform::W4(
                    w4_params(e, rows, if per_slot { (e.k / 2) as int } else { 0 }, 0, 0),
                ),
            ),
            mb(15, y),
            mb(16, sel),
        ],
        slots_grid(e, rows, slots),
    )
}

fn rows_of(sw: &MoeSwitches, e: &MoeExperts) -> (r: usize)
    ensures
        r == w4_rows(*sw, *e),
        r == 8 || r == 2,
{
    if takes_eight_rows(sw.w4, e.k / W4_GS, e.n) { 8 } else { 2 }
}

pub fn push_gemv_w4(
    out: &mut MoeList,
    sw: &MoeSwitches,
    label: &'static str,
    e: &MoeExperts,
    x: MoeBuf,
    y: MoeBuf,
    sel: MoeBuf,
    slots: usize,
    per_slot: bool,
)
    requires
        e.fits(),
    ensures
        final(out)@ == old(out)@.push(
            gemv_w4_pass(*sw, label@, *e, x, y, sel, slots as int, per_slot),
        ),
{
    let rows: usize = rows_of(sw, e);
    let x_slot: usize = if per_slot { e.k / 2 } else { 0 };
    let p = MoeUniform::W4(w4_uniform(e, rows, x_slot, 0, 0));
    let grid = over_slots(e, rows, slots);
    out.push(
        label,
        MoeSource::GemvW4,
        if rows == 8 { "g4m_gemv_w4_r8" } else { "g4m_gemv_w4" },
        bind6(mbuf(10, e.w), mbuf(11, e.scales), mbuf(12, x), muni(14, p), mbuf(15, y), mbuf(16, sel)),
        grid,
    );
}

/// The gated activation of the products with the chosen experts' gate and up matrices.
pub open spec fn gemv_w4_gu_pass(
    sw: MoeSwitches,
    label: Seq<char>,
    eg: MoeExperts,
    eu: MoeExperts,
    x: MoeBuf,
    act: MoeBuf,
    sel: MoeBuf,
    slots: int,
) -> MoeModel {
    let rows = w4_rows(sw, eg);
    moe_pass(
        label,
        MoeSource::GemvW4,
        if rows == 8 { "g4m_gemv_w4_r8_gu_gelu"@ } else { "g4m_gemv_w4_gu_gelu"@ },
        seq![
            mb(10, eg.w),
            mb(11, eg.scales),
            mb(12, x),
            mu(14, MoeUniform::W4(w4_params(eg, rows, 0, 0, 0))),
            mb(15, act),
            mb(16, sel),
            mb(17, eu.w),
            mb(18, eu.scales),
        ],
        slots_grid(eg, rows, slots),
    )
}

pub fn push_gemv_w4_gu_gelu(
    out: &mut MoeList,
    sw: &MoeSwitches,
    label: &'static str,
    eg: &MoeExperts,
    eu: &MoeExperts,
    x: MoeBuf,
    act: MoeBuf,
    sel: MoeBuf,
    slots: usize,
)
    requires
        eg.fits(),
        eg.n == eu.n,
        eg.k == eu.k,
    ensures
        final(out)@ == old(out)@.push(
            gemv_w4_gu_pass(*sw, label@, *eg, *eu, x, act, sel, slots as int),
        ),
{
    let rows: usize = rows_of(sw, eg);
    let p = MoeUniform::W4(w4_uniform(eg, rows, 0, 0, 0));
    let grid = over_slots(eg, rows, slots);
    out.push(
        label,
        MoeSource::GemvW4,
        if rows == 8 { "g4m_gemv_w4_r8_gu_gelu" } else { "g4m_gemv_w4_gu_gelu" },
        bind8(
            mbuf(10, eg.w),
            mbuf(11, eg.scales),
            mbuf(12, x),
            muni(14, p),
            mbuf(15, act),
            mbuf(16, sel),
            mbuf(17, eu.w),
            mbuf(18, eu.scales),
        ),
        grid,
    );
}

/// The weighted sum of the products with the chosen experts' down matrices. There is only an
/// eight-row kernel for it.
pub open spec fn down_combine_pass(
    label: Seq<char>,
    ed: MoeExperts,
    act: MoeBuf,
    y: MoeBuf,
    sel: MoeBuf,
    wts: MoeBuf,
    k_top: int,
) -> MoeModel {
    moe_pass(
        label,
        MoeSource::GemvW4,
        "g4m_gemv_w4_r8_down_combine"@,
        seq![
            mb(10, ed.w),
            mb(11, ed.scales),
            mb(12, act),
            mu(14, MoeUniform::W4(w4_params(ed, 8, (ed.k / 2) as int, 0, k_top))),
            mb(15, y),
            mb(16, sel),
            mb(17, ed.w),
            mb(18, ed.scales),
            mb(19, wts),
        ],
        slots_grid(ed, 8, 1),
    )
}

pub fn push_gemv_w4_down_combine(
    out: &mut MoeList,
    sw: &MoeSwitches,
    label: &'static str,
    ed: &MoeExperts,
    act: MoeBuf,
    y: MoeBuf,
    sel: MoeBuf,
    wts: MoeBuf,
    k_top: usize,
)
    requires
        ed.fits(),
        w4_rows(*sw, *ed) == 8,
    ensures
        final(out)@ == old(out)@.push(
            down_combine_pass(label@, *ed, act, y, sel, wts, k_top as int),
        ),
{
    let p = MoeUniform::W4(w4_uniform(ed, 8, ed.k / 2, 0, k_top));
    let grid = over_slots(ed, 8, 1);
    out.push(
        label,
        MoeSource::GemvW4,
        "g4m_gemv_w4_r8_down_combine",
        bind9(
            mbuf(10, ed.w),
            mbuf(11, ed.scales),
            mbuf(12, act),
            muni(14, p),
            mbuf(15, y),
            mbuf(16, sel),
            mbuf(17, ed.w),
            mbuf(18, ed.scales),
            mbuf(19, wts),
        ),
        grid,
    );
}

pub open spec fn norm_params(hidden: usize, eps: u32, scale: u32) -> MoeUniform {
    MoeUniform::Norm { hidden: hidden as u32, words: (hidden / 2) as u32, eps, scale }
}

pub fn norm_uniform(hidden: usize, eps: u32, scale: u32) -> (r: MoeUniform)
    ensures
        r == norm_params(hidden, eps, scale),
{
    MoeUniform::Norm { hidden: hidden as u32, words: (hidden / 2) as u32, eps, scale }
}

/// A row divided by its root mean square and multiplied by a weight row.
pub open spec fn norm_pass(p: MoePlan, label: Seq<char>, x: MoeBuf, w: MoeBuf, y: MoeBuf) -> MoeModel {
    moe_pass(
        label,
        MoeSource::Prop,
        "g4m_norm"@,
        seq![mb(0, x), mb(1, w), mb(2, y), mu(3, norm_params(p.d.hidden, p.f.eps, 0))],
        MoeGrid::Dims(1, 1, 1),
    )
}

pub fn push_norm(
    out: &mut MoeList,
    p: &MoePlan,
    label: &'static str,
    x: MoeBuf,
    w: MoeBuf,
    y: MoeBuf,
)
    ensures
        final(out)@ == old(out)@.push(norm_pass(*p, label@, x, w, y)),
{
    let u = norm_uniform(p.d.hidden, p.f.eps, 0);
    out.push(
        label,
        MoeSource::Prop,
        "g4m_norm",
        bind4(mbuf(0, x), mbuf(1, w), mbuf(2, y), muni(3, u)),
        MoeGrid::Dims(1, 1, 1),
    );
}

/// A normed row added to a residual that stays in place, and the sum normed again.
pub open spec fn norm_residual_pass(
    p: MoePlan,
    label: Seq<char>,
    x: MoeBuf,
    res: MoeBuf,
    w: MoeBuf,
    y: MoeBuf,
) -> MoeModel {
    moe_pass(
        label,
        MoeSource::Prop,
        "g4m_norm_residual"@,
        seq![mb(0, x), mb(1, w), mb(2, y), mu(3, norm_params(p.d.hidden, p.f.eps, 0)), mb(4, res)],
        MoeGrid::Dims(1, 1, 1),
    )
}

pub fn push_norm_residual(
    out: &mut MoeList,
    p: &MoePlan,
    label: &'static str,
    x: MoeBuf,
    res: MoeBuf,
    w: MoeBuf,
    y: MoeBuf,
)
    ensures
        final(out)@ == old(out)@.push(norm_residual_pass(*p, label@, x, res, w, y)),
{
    let u = norm_uniform(p.d.hidden, p.f.eps, 0);
    out.push(
        label,
        MoeSource::Prop,
        "g4m_norm_residual",
        bind5(mbuf(0, x), mbuf(1, w), mbuf(2, y), muni(3, u), mbuf(4, res)),
        MoeGrid::Dims(1, 1, 1),
    );
}

/// The sum of two rows of `n` elements, scaled.
pub open spec fn residual_pass(
    label: Seq<char>,
    a: MoeBuf,
    b: MoeBuf,
    y: MoeBuf,
    n: int,
    words: int,
    scale: u32,
) -> MoeModel {
    moe_pass(
        label,
        MoeSource::ResScale,
        "residual_add_scale_bf16"@,
        seq![
            mb(0, a),
            mb(1, b),
            mb(2, y),
            mu(
                3,
                MoeUniform::ResScale {
                    n: n as u32,
                    n_words: words as u32,
                    scale,
                    cap: 0,
                    inv_cap: 0,
                },
            ),
        ],
        over(words, 256),
    )
}

pub fn push_residual(
    out: &mut MoeList,
    label: &'static str,
    a: MoeBuf,
    b: MoeBuf,
    y: MoeBuf,
    n: usize,
    words: usize,
    scale: u32,
)
    ensures
        final(out)@ == old(out)@.push(
            residual_pass(label@, a, b, y, n as int, words as int, scale),
        ),
{
    let u = MoeUniform::ResScale {
        n: n as u32,
        n_words: words as u32,
        scale,
        cap: 0,
        inv_cap: 0,
    };
    let grid = grid1(words, 256);
    out.push(
        label,
        MoeSource::ResScale,
        "residual_add_scale_bf16",
        bind4(mbuf(0, a), mbuf(1, b), mbuf(2, y), muni(3, u)),
        grid,
    );
}

/// The gated activation of two buffers of `words` words.
pub open spec fn gelu_pass(label: Seq<char>, g: MoeBuf, u: MoeBuf, y: MoeBuf, words: int) -> MoeModel {
    moe_pass(
        label,
        MoeSource::Moe,
        "g4m_gelu_mul"@,
        seq![
            mb(10, g),
            mb(11, u),
            mb(12, y),
            mu(13, MoeUniform::Words { n_words: words as u32 }),
        ],
        over(words, 64),
    )
}

pub fn push_gelu(
    out: &mut MoeList,
    label: &'static str,
    g: MoeBuf,
    u: MoeBuf,
    y: MoeBuf,
    words: usize,
)
    ensures
        final(out)@ == old(out)@.push(gelu_pass(label@, g, u, y, words as int)),
{
    let p = MoeUniform::Words { n_words: words as u32 };
    let grid = grid1(words, 64);
    out.push(
        label,
        MoeSource::Moe,
        "g4m_gelu_mul",
        bind4(mbuf(10, g), mbuf(11, u), mbuf(12, y), muni(13, p)),
        grid,
    );
}

/// Packs `words` words of single precision values to bf16.
pub open spec fn pack_pass(label: Seq<char>, x: MoeBuf, y: MoeBuf, words: int) -> MoeModel {
    moe_pass(
        label,
        MoeSource::Moe,
        "g4m_pack_f32"@,
        seq![mb(50, x), mb(51, y), mu(52, MoeUniform::Words { n_words: words as u32 })],
        over(words, 64),
    )
}

pub fn push_pack(out: &mut MoeList, label: &'static str, x: MoeBuf, y: MoeBuf, words: usize)
    ensures
        final(out)@ == old(out)@.push(pack_pass(label@, x, y, words as int)),
{
    let p = MoeUniform::Words { n_words: words as u32 };
    let grid = grid1(words, 64);
    out.push(
        label,
        MoeSource::Moe,
        "g4m_pack_f32",
        crate::moe_ir::bind3(mbuf(50, x), mbuf(51, y), muni(52, p)),
        grid,
    );
}

/// The rows of a chunk times a bf16 matrix.
pub open spec fn pf_gemm_pass(
    label: Seq<char>,
    w: MoeMat,
    x: MoeBuf,
    x_stride: int,
    y: MoeBuf,
    y_stride: int,
    out_f32: bool,
    alpha: u32,
) -> MoeModel {
    moe_pass(
        label,
        MoeSource::Prefill,
        "pm_gemm_bf16"@,
        seq![
            mb(20, w.buf),
            mb(21, x),
            mu(
                22,
                MoeUniform::PfGemm {
                    n_rows: w.n as u32,
                    k_words: (w.k / 2) as u32,
                    groups_x: GroupsX { invocations: groups_for(w.n as int, 2) as u64, wg: 1 },
                    out_f32: flag(out_f32),
                    w_row_words: (w.k / 2) as u32,
                    x_stride_words: x_stride as u32,
                    y_stride_words: y_stride as u32,
                    alpha,
                },
            ),
            mb(23, y),
        ],
        over(groups_for(w.n as int, 2), 1),
    )
}

pub fn pf_gemm_bf16(
    out: &mut MoeList,
    label: &'static str,
    w: &MoeMat,
    x: MoeBuf,
    x_stride: usize,
    y: MoeBuf,
    y_stride: usize,
    out_f32: bool,
    alpha: u32,
)
    ensures
        final(out)@ == old(out)@.push(
            pf_gemm_pass(label@, *w, x, x_stride as int, y, y_stride as int, out_f32, alpha),
        ),
{
    let pairs: usize = div_up(w.n, 2);
    let u = MoeUniform::PfGemm {
        n_rows: w.n as u32,
        k_words: (w.k / 2) as u32,
        groups_x: GroupsX { invocations: pairs as u64, wg: 1 },
        out_f32: as_flag(out_f32),
        w_row_words: (w.k / 2) as u32,
        x_stride_words: x_stride as u32,
        y_stride_words: y_stride as u32,
        alpha,
    };
    let grid = grid1(pairs, 1);
    out.push(
        label,
        MoeSource::Prefill,
        "pm_gemm_bf16",
        bind4(mbuf(20, w.buf), mbuf(21, x), muni(22, u), mbuf(23, y)),
        grid,
    );
}

pub open spec fn pf_norm_params(p: MoePlan, m: int) -> MoeUniform {
    MoeUniform::PfNorm {
        hidden: p.d.hidden as u32,
        words: (p.d.hidden / 2) as u32,
        eps: p.f.eps,
        m: m as u32,
    }
}

fn pf_norm_uniform(p: &MoePlan, m: usize) -> (r: MoeUniform)
    ensures
        r == pf_norm_params(*p, m as int),
{
    MoeUniform::PfNorm {
        hidden: p.d.hidden as u32,
        words: (p.d.hidden / 2) as u32,
        eps: p.f.eps,
        m: m as u32,
    }
}

/// [`norm_pass`] for `m` rows.
pub open spec fn pf_norm_pass(
    p: MoePlan,
    label: Seq<char>,
    x: MoeBuf,
    w: MoeBuf,
    y: MoeBuf,
    m: int,
) -> MoeModel {
    moe_pass(
        label,
        MoeSource::Prefill,
        "pm_norm"@,
        seq![mb(10, x), mb(11, w), mb(12, y), mu(13, pf_norm_params(p, m))],
        MoeGrid::Dims(m as u32, 1, 1),
    )
}

pub fn pf_norm(
    out: &mut MoeList,
    p: &MoePlan,
    label: &'static str,
    x: MoeBuf,
    w: MoeBuf,
    y: MoeBuf,
    m: usize,
)
    ensures
        final(out)@ == old(out)@.push(pf_norm_pass(*p, label@, x, w, y, m as int)),
{
    let u = pf_norm_uniform(p, m);
    out.push(
        label,
        MoeSource::Prefill,
        "pm_norm",
        bind4(mbuf(10, x), mbuf(11, w), mbuf(12, y), muni(13, u)),
        MoeGrid::Dims(m as u32, 1, 1),
    );
}

/// [`norm_residual_pass`] for `m` rows.
pub open spec fn pf_norm_residual_pass(
    p: MoePlan,
    label: Seq<char>,
    x: MoeBuf,
    res: MoeBuf,
    w: MoeBuf,
    y: MoeBuf,
    m: int,
) -> MoeModel {
    moe_pass(
        label,
        MoeSource::Prefill,
        "pm_norm_residual"@,
        seq![mb(10, x), mb(11, w), mb(12, y), mu(13, pf_norm_params(p, m)), mb(14, res)],
        MoeGrid::Dims(m as u32, 1, 1),
    )
}

pub fn pf_norm_residual(
    out: &mut MoeList,
    p: &MoePlan,
    label: &'static str,
    x: MoeBuf,
    res: MoeBuf,
    w: MoeBuf,
    y: MoeBuf,
    m: usize,
)
    ensures
        final(out)@ == old(out)@.push(pf_norm_residual_pass(*p, label@, x, res, w, y, m as int)),
{
    let u = pf_norm_uniform(p, m);
    out.push(
        label,
        MoeSource::Prefill,
        "pm_norm_residual",
        bind5(mbuf(10, x), mbuf(11, w), mbuf(12, y), muni(13, u), mbuf(14, res)),
        MoeGrid::Dims(m as u32, 1, 1),
    );
}

/// [`gemv_w4_pass`] for the slots of all rows of a chunk.
pub open spec fn pf_w4_pass(
    label: Seq<char>,
    e: MoeExperts,
    x: MoeBuf,
    x_tok: int,
    x_slot: int,
    y: MoeBuf,
    sel: MoeBuf,
    slots: int,
    k_top: int,
) -> MoeModel {
    moe_pass(
        label,
        MoeSource::Prefill,
        "pm_gemv_w4"@,
        seq![
            mb(70, e.w),
            mb(71, e.scales),
            mb(72, x),
            mu(73, MoeUniform::PfW4(w4_params(e, 2, x_slot, x_tok, k_top))),
            mb(74, y),
            mb(75, sel),
        ],
        slots_grid(e, 2, slots),
    )
}

pub fn pf_gemv_w4(
    out: &mut MoeList,
    label: &'static str,
    e: &MoeExperts,
    x: MoeBuf,
    x_tok: usize,
    x_slot: usize,
    y: MoeBuf,
    sel: MoeBuf,
    slots: usize,
    k_top: usize,
)
    requires
        e.fits(),
    ensures
        final(out)@ == old(out)@.push(
            pf_w4_pass(
                label@,
                *e,
                x,
                x_tok as int,
                x_slot as int,
                y,
                sel,
                slots as int,
                k_top as int,
            ),
        ),
{
    let u = MoeUniform::PfW4(w4_uniform(e, 2, x_slot, x_tok, k_top));
    let grid = over_slots(e, 2, slots);
    out.push(
        label,
        MoeSource::Prefill,
        "pm_gemv_w4",
        bind6(mbuf(70, e.w), mbuf(71, e.scales), mbuf(72, x), muni(73, u), mbuf(74, y), mbuf(75, sel)),
        grid,
    );
}

/// The rows of the embedding table that a chunk of the head has.
#[derive(Clone, Copy, Debug, PartialEq, Eq, Structural)]
pub struct HeadChunk {
    pub index: usize,
    pub row_off: usize,
    pub n_rows: usize,
}

/// The logits of one row for one chunk of the vocabulary. The int8 head takes the decode row
/// only.
pub open spec fn lmhead_pass(
    p: MoePlan,
    c: HeadChunk,
    x: MoeBuf,
    x_off: int,
    y: MoeBuf,
    y_off: int,
) -> MoeModel {
    let groups = GroupsX { invocations: groups_for(c.n_rows as int, 2) as u64, wg: 1 };
    match p.sw.i8_head {
        Some(head) => {
            let kw = if head == I8Head::V4 { p.d.hidden / 16 } else { p.d.hidden / 4 };
            moe_pass(
                "g4m-lmhead"@,
                if head == I8Head::V4 { MoeSource::GemvI8V4 } else { MoeSource::GemvI8 },
                head.text(),
                seq![
                    mb(0, MoeBuf::LmI8(c.index)),
                    mb(1, x),
                    mu(
                        2,
                        MoeUniform::GemvI8(
                            GemvI8Params {
                                n_rows: c.n_rows as u32,
                                k_words: kw as u32,
                                groups_x: groups,
                                out_f32: 0,
                                w_row_words: kw as u32,
                                x_off_words: 0,
                                y_off_words: y_off as u32,
                                s_row_elems: (p.d.hidden / I8_GS) as u32,
                                alpha: F32_ONE,
                            },
                        ),
                    ),
                    mb(3, y),
                    mb(4, MoeBuf::LmI8Scales(c.index)),
                ],
                over(groups_for(c.n_rows as int, 2), 1),
            )
        },
        None => moe_pass(
            "g4m-lmhead"@,
            MoeSource::GemvBf16,
            "g4m_gemv_bf16"@,
            seq![
                mb(0, MoeBuf::EmbedChunk(c.index)),
                mb(1, x),
                mu(
                    2,
                    MoeUniform::Gemv(
                        GemvBf16Params {
                            n_rows: c.n_rows as u32,
                            k_words: (p.d.hidden / 2) as u32,
                            groups_x: groups,
                            out_f32: 0,
                            w_row_words: (p.d.hidden / 2) as u32,
                            x_off_words: x_off as u32,
                            y_off_words: y_off as u32,
                            wide: flag(loads_wide(p.sw, "g4m-lmhead"@, p.d.hidden as int, 0)),
                            alpha: F32_ONE,
                        },
                    ),
                ),
                mb(3, y),
            ],
            over(groups_for(c.n_rows as int, 2), 1),
        ),
    }
}

pub fn push_lmhead_row(
    out: &mut MoeList,
    p: &MoePlan,
    c: &HeadChunk,
    x: MoeBuf,
    x_off: usize,
    y: MoeBuf,
    y_off: usize,
)
    requires
        p.sw.i8_head is Some ==> x_off == 0 && p.d.hidden % 16 == 0,
    ensures
        final(out)@ == old(out)@.push(lmhead_pass(*p, *c, x, x_off as int, y, y_off as int)),
{
    let pairs: usize = div_up(c.n_rows, 2);
    let groups_x = GroupsX { invocations: pairs as u64, wg: 1 };
    let grid = grid1(pairs, 1);
    match p.sw.i8_head {
        Some(head) => {
            let kw: usize = if head == I8Head::V4 { p.d.hidden / 16 } else { p.d.hidden / 4 };
            let u = MoeUniform::GemvI8(
                GemvI8Params {
                    n_rows: c.n_rows as u32,
                    k_words: kw as u32,
                    groups_x,
                    out_f32: 0,
                    w_row_words: kw as u32,
                    x_off_words: 0,
                    y_off_words: y_off as u32,
                    s_row_elems: (p.d.hidden / I8_GS) as u32,
                    alpha: F32_ONE,
                },
            );
            out.push(
                "g4m-lmhead",
                if head == I8Head::V4 { MoeSource::GemvI8V4 } else { MoeSource::GemvI8 },
                head.entry(),
                bind5(
                    mbuf(0, MoeBuf::LmI8(c.index)),
                    mbuf(1, x),
                    muni(2, u),
                    mbuf(3, y),
                    mbuf(4, MoeBuf::LmI8Scales(c.index)),
                ),
                grid,
            );
        },
        None => {
            let u = MoeUniform::Gemv(
                GemvBf16Params {
                    n_rows: c.n_rows as u32,
                    k_words: (p.d.hidden / 2) as u32,
                    groups_x,
                    out_f32: 0,
                    w_row_words: (p.d.hidden / 2) as u32,
                    x_off_words: x_off as u32,
                    y_off_words: y_off as u32,
                    wide: wide_flag(&p.sw, "g4m-lmhead", p.d.hidden, 0),
                    alpha: F32_ONE,
                },
            );
            out.push(
                "g4m-lmhead",
                MoeSource::GemvBf16,
                "g4m_gemv_bf16",
                bind4(mbuf(0, MoeBuf::EmbedChunk(c.index)), mbuf(1, x), muni(2, u), mbuf(3, y)),
                grid,
            );
        },
    }
}

} // verus!
