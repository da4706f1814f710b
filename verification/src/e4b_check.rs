//! Decides whether a layer can be emitted: every size fits and every kernel was built.
use vstd::prelude::*;
use crate::config::LayerType;
use crate::e4b_emit::{
    div_up, gemv_mk_ok, gemv_ready, on_tensor_route, row_bytes, rows_fit, tensor_fits, Dst, Limits,
    MkSet, Pipelines, Proj, Target, Toolkit,
};
use crate::e4b_ir::{Buf, LoraKind, W4Variant, Work};
use crate::e4b_layer::{
    attn_ready, flash1_pick, layer_fits, layer_ok, lora_site_ok, packed, project_ok, prologue_ok,
    EmitCfg, LayerEmit, LayerLora,
};
use crate::e4b_lora::{
    lemma_total_take, lora_ok, max_width, meta_offset, total, E4bLoraSite, LoraMeta,
};

verus! {

/// The product, if it fits the address type.
pub fn product(a: usize, b: usize) -> (r: Option<usize>)
    ensures
        match r {
            Some(p) => p == a * b,
            None => a * b > usize::MAX,
        },
{
    a.checked_mul(b)
}

/// The product of three factors, if it fits the address type.
pub fn product3(a: usize, b: usize, c: usize) -> (r: Option<usize>)
    ensures
        match r {
            Some(p) => p == a * b * c,
            None => a * b * c > usize::MAX || a * b > usize::MAX,
        },
{
    match a.checked_mul(b) {
        Some(p) => p.checked_mul(c),
        None => None,
    }
}

fn mul_fits(a: usize, b: usize) -> (r: bool)
    ensures
        r == (a * b <= usize::MAX),
{
    a.checked_mul(b).is_some()
}

fn row_bytes_fit(m: usize, words: usize) -> (r: bool)
    ensures
        r == (row_bytes(m as int, words as int) <= usize::MAX),
{
    match m.checked_mul(words) {
        Some(p) => p.checked_mul(4).is_some(),
        None => false,
    }
}

fn check_gemv(pl: &Pipelines, proj: &Proj) -> (r: bool)
    ensures
        r == gemv_ready(*pl, *proj),
{
    match proj {
        Proj::Bf16 { .. } => true,
        Proj::I8 { group, .. } => if *group > 0 {
            pl.i8g
        } else {
            pl.i8
        },
        Proj::W4 { variant, .. } => *variant != W4Variant::Sg16 || pl.sg || pl.sgm,
    }
}

fn check_rows(m: usize, x_stride: usize, dst: &Dst) -> (r: bool)
    ensures
        r == rows_fit(m as int, x_stride as int, *dst),
{
    if !row_bytes_fit(m, x_stride) {
        return false;
    }
    match dst {
        Dst::Packed { word_off, y_stride_words, .. } => {
            match m.checked_mul(*y_stride_words) {
                Some(p) => p.checked_add(*word_off).is_some(),
                None => false,
            }
        },
        Dst::SplitQkv { q_rows, kv_rows, .. } => {
            row_bytes_fit(m, *q_rows / 2) && row_bytes_fit(m, *kv_rows / 2)
        },
    }
}

fn takes_tensor_route(kit: &Toolkit, target: Target, proj: &Proj, m: usize, dst: &Dst) -> (r: bool)
    ensures
        r == on_tensor_route(*kit, target, *proj, m as int, *dst),
{
    match proj {
        Proj::W4 { n, k, gs, .. } => target == Target::Prefill && kit.pl.tensor_route && tensor_fits(
            kit,
            *n,
            *k,
            *gs,
            m,
            dst,
        ),
        _ => false,
    }
}

fn check_gemv_mk(kit: &Toolkit, target: Target, proj: &Proj, m: usize, x_stride: usize, dst: &Dst)
    -> (r: bool)
    ensures
        r == gemv_mk_ok(*kit, target, *proj, m as int, x_stride as int, *dst),
{
    if kit.lim.slab_rows == 0 {
        return false;
    }
    let mut set: Option<MkSet> = kit.pl.mk;
    if target == Target::Verify && kit.pl.mk_verify.is_some() {
        set = kit.pl.mk_verify;
    }
    if set.is_none() {
        return false;
    }
    let rows: usize = if kit.lim.slab_rows < m { kit.lim.slab_rows } else { m };
    if takes_tensor_route(kit, target, proj, rows, dst) {
        return check_rows(m, x_stride, dst);
    }
    let built = match set {
        None => false,
        Some(s) => match proj {
            Proj::Bf16 { .. } => true,
            Proj::I8 { group, .. } => if *group > 0 {
                s.i8g
            } else {
                s.i8
            },
            Proj::W4 { variant, .. } => *variant != W4Variant::Sg16 || s.sg,
        },
    };
    if !built {
        return false;
    }
    let rows_per_group: usize = if proj.sg() { kit.lim.sg_rows_per_group as usize } else { 8 };
    if rows_per_group == 0 {
        return false;
    }
    if div_up(proj.n(), rows_per_group) as u32 > kit.lim.max_groups_per_dim {
        return false;
    }
    check_rows(m, x_stride, dst)
}

/// Whether a projection of `m` rows can be emitted.
pub fn check_project(
    kit: &Toolkit,
    target: Target,
    proj: &Proj,
    m: usize,
    x_stride: usize,
    dst: &Dst,
) -> (r: bool)
    ensures
        r == project_ok(*kit, target, *proj, m as int, x_stride as int, *dst),
{
    if m == 1 {
        check_gemv(&kit.pl, proj)
    } else {
        check_gemv_mk(kit, target, proj, m, x_stride, dst)
    }
}

fn packed_to(y: Buf, stride: usize) -> (r: Dst)
    ensures
        r == packed(y, stride),
{
    Dst::Packed { y, word_off: 0, y_stride_words: stride }
}

/// Whether the passes before the first layer can be emitted.
pub fn check_prologue(kit: &Toolkit, target: Target, cfg: &EmitCfg, m: usize, plmp: &Proj) -> (r: bool)
    ensures
        r == prologue_ok(*kit, target, *cfg, m as int, *plmp),
{
    (m == 1 || kit.pl.mk.is_some()) && mul_fits(m, cfg.hidden) && mul_fits(m, cfg.ple_row)
        && mul_fits(m, cfg.n_layers) && check_project(
        kit,
        target,
        plmp,
        m,
        cfg.hidden / 2,
        &packed_to(Buf::Work(false, Work::PleProj), cfg.ple_row / 2),
    )
}

fn check_attn(pl: &Pipelines, a: &LayerEmit) -> (r: bool)
    ensures
        r == attn_ready(*pl, *a),
{
    if pl.gqa_fold == 0 {
        return false;
    }
    let covered = if pl.gqa_fold > 1 {
        flash1_pick(&pl.flash1_fold, a.hd).is_some()
    } else {
        flash1_pick(&pl.flash1, a.hd).is_some()
    };
    if !covered {
        return false;
    }
    if pl.deep_splits.is_some() && a.kind == LayerType::FullAttention && pl.flash1_fold_deep.len()
        > 0 {
        flash1_pick(&pl.flash1_fold_deep, a.hd).is_some()
    } else {
        true
    }
}

fn check_sizes(cfg: &EmitCfg, a: &LayerEmit) -> (r: bool)
    ensures
        r == layer_fits(*cfg, *a),
{
    let half: usize = a.hd / 2;
    let q = match product(a.m, cfg.n_q) {
        Some(p) => mul_fits(p, half),
        None => false,
    };
    let kv = match product(a.m, a.nkv) {
        Some(p) => mul_fits(p, half),
        None => false,
    };
    mul_fits(a.m, cfg.hidden) && mul_fits(a.m, cfg.inter) && mul_fits(a.m, cfg.hpl) && mul_fits(
        a.li,
        cfg.hpl,
    ) && q && kv && a.q_dim.checked_add(a.kv_dim).is_some()
}

/// The sum of widths, if it fits the address type.
pub fn checked_total(v: &Vec<usize>) -> (r: Option<usize>)
    ensures
        match r {
            Some(t) => t == total(v@),
            None => total(v@) > usize::MAX,
        },
{
    let mut acc: usize = 0;
    let mut i: usize = 0;
    while i < v.len()
        invariant
            i <= v.len(),
            acc == total(v@.take(i as int)),
        decreases v.len() - i,
    {
        proof {
            lemma_total_take(v@, i as int);
            lemma_total_take(v@, i + 1);
        }
        match acc.checked_add(v[i]) {
            Some(t) => {
                acc = t;
            },
            None => {
                return None;
            },
        }
        i = i + 1;
    }
    assert(v@.take(i as int) =~= v@);
    Some(acc)
}

proof fn lemma_product_zero(a: int, b: int, c: int)
    by (nonlinear_arith)
    requires
        a >= 0,
        b >= 0,
        c >= 1,
    ensures
        a * b <= a * b * c,
{
}

fn meta_fits(meta: &LoraMeta, slices: usize) -> (r: bool)
    ensures
        r == (meta_offset(*meta, slices as int, 7) <= usize::MAX),
{
    let mut acc: usize = meta.token_indices_sorted.len();
    match acc.checked_add(meta.num_tokens_per_lora.len()) {
        Some(t) => { acc = t; },
        None => { return false; },
    }
    match acc.checked_add(meta.lora_token_start_loc.len()) {
        Some(t) => { acc = t; },
        None => { return false; },
    }
    match acc.checked_add(meta.active_lora_ids.len()) {
        Some(t) => { acc = t; },
        None => { return false; },
    }
    match slices.checked_mul(4) {
        Some(t) => acc.checked_add(t).is_some(),
        None => false,
    }
}

/// Whether an adapter site can be emitted for `m` rows.
pub fn check_lora(lim: &Limits, site: &E4bLoraSite, meta: &LoraMeta, m: usize) -> (r: bool)
    ensures
        r == lora_ok(*lim, *site, *meta, m as int),
{
    if lim.lora_cols_per_group == 0 {
        return false;
    }
    let width = match checked_total(&site.widths) {
        Some(t) => t,
        None => { return false; },
    };
    let seg_width = match checked_total(&site.segs) {
        Some(t) => t,
        None => {
            return false;
        },
    };
    if site.widths.len() == 0 || site.segs.len() == 0 || width != seg_width || site.rank == 0
        || site.k == 0 || site.rank > lim.lora_max_rank {
        return false;
    }
    let a_len: usize = site.a.len();
    let b_len: usize = site.b.len();
    proof {
        lemma_product_zero(site.widths@.len() as int, site.rank as int, site.k as int);
        assert(a_len == site.a@.len() && b_len == site.b@.len());
    }
    match product3(site.widths.len(), site.rank, site.k) {
        Some(_) => {},
        None => { return false; },
    }
    match product(width, site.rank) {
        Some(_) => {},
        None => { return false; },
    }
    if site.validate(lim.lora_max_rank).is_err() {
        return false;
    }
    proof {
        lemma_product_zero(meta.max_loras as int, width as int, site.rank as int);
    }
    if !mul_fits(m, seg_width) || !mul_fits(site.rank, site.k) || product3(
        meta.max_loras,
        width,
        site.rank,
    ).is_none() {
        return false;
    }
    if !meta_fits(meta, site.widths.len()) {
        return false;
    }
    let cols: usize = div_up(max_width(&site.widths), lim.lora_cols_per_group as usize);
    match product(m, cols) {
        Some(g) => g as u32 <= lim.max_groups_per_dim && site.widths.len() as u32
            <= lim.max_groups_per_dim && meta.grid_loras as u32 <= lim.max_groups_per_dim,
        None => false,
    }
}

fn check_site(kit: &Toolkit, a: &LayerEmit, lora: &Option<LayerLora<'_>>, kind: LoraKind) -> (r: bool)
    ensures
        r == lora_site_ok(*kit, *a, *lora, kind),
{
    match lora {
        None => true,
        Some(l) => {
            let site = match kind {
                LoraKind::Qkv => &l.sites.qkv,
                LoraKind::O => &l.sites.o,
                LoraKind::GateUp => &l.sites.gate_up,
                LoraKind::Down => &l.sites.down,
            };
            match site {
                None => true,
                Some(s) => {
                    let segs: usize = if kind == LoraKind::Qkv && a.shared.is_none() { 3 } else { 1 };
                    s.segs.len() == segs && check_lora(&kit.lim, s, l.meta, a.m)
                },
            }
        },
    }
}

/// Whether the passes of a layer can be emitted.
pub fn check_layer(
    kit: &Toolkit,
    target: Target,
    cfg: &EmitCfg,
    a: &LayerEmit,
    lora: &Option<LayerLora<'_>>,
) -> (r: bool)
    ensures
        r == layer_ok(*kit, target, *cfg, *a, *lora),
{
    if !check_sizes(cfg, a) {
        return false;
    }
    if a.m == 1 {
        if !(target == Target::Decode && check_attn(&kit.pl, a)) {
            return false;
        }
    } else if kit.pl.mk.is_none() {
        return false;
    }
    let h: usize = cfg.hidden / 2;
    let qa = Buf::Work(a.prefill, Work::Qa);
    let dst = if a.shared.is_some() {
        packed_to(qa, a.q_dim / 2)
    } else {
        Dst::SplitQkv {
            q: qa,
            k: Buf::Work(a.prefill, Work::Ka),
            v: Buf::Work(a.prefill, Work::Va),
            q_rows: a.q_dim,
            kv_rows: a.kv_dim,
            v_off: if a.has_v { a.q_dim + a.kv_dim } else { a.q_dim },
        }
    };
    check_project(kit, target, &a.qkv, a.m, h, &dst) && check_project(
        kit,
        target,
        &a.o,
        a.m,
        a.q_dim / 2,
        &packed_to(Buf::Work(a.prefill, Work::T1), h),
    ) && check_project(
        kit,
        target,
        &a.gate_up,
        a.m,
        h,
        &packed_to(Buf::Work(a.prefill, Work::GuPack), cfg.inter),
    ) && check_project(
        kit,
        target,
        &a.down,
        a.m,
        cfg.inter / 2,
        &packed_to(Buf::Work(a.prefill, Work::T0), h),
    ) && check_project(
        kit,
        target,
        &a.pl_gate,
        a.m,
        h,
        &packed_to(Buf::Work(a.prefill, Work::PlGate), cfg.hpl / 2),
    ) && check_project(
        kit,
        target,
        &a.pl_proj,
        a.m,
        cfg.hpl / 2,
        &packed_to(Buf::Work(a.prefill, Work::T1), h),
    ) && check_site(kit, a, lora, LoraKind::Qkv) && check_site(kit, a, lora, LoraKind::O)
        && check_site(kit, a, lora, LoraKind::GateUp) && check_site(kit, a, lora, LoraKind::Down)
}

} // verus!
