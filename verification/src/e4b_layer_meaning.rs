//! What a layer of the E4B decoder computes, and that its passes compute it: one formula for a
//! decode row, with its kernels joined or not, and for each row of a chunk.
use vstd::prelude::*;
use crate::config::LayerType;
use crate::e4b_emit::{one_d, Lists, Target, Toolkit, F32_ONE};
use crate::e4b_ir::{
    at, param, Buf, Grid, GroupsX, KvPart, LoraKind, MkPipe, Norm, Pipe, Site, Uniform, Work,
};
use crate::e4b_caches::target_list;
use crate::e4b_layer::{
    flash1_binds, flash1_pipe, flash2_binds, packed, qkv_dst, qkv_segs, tensor_attn_pipe, EmitCfg,
    LayerEmit, LayerLora, FLASH_SPLITS,
};
use crate::e4b_meaning::{adapted, lemma_lora, newest, site_fits};
use crate::e4b_steps::{
    has_shape, k_of, lemma_project, lemma_project_split, lemma_resadd, lemma_rms, rows_sized,
    takes_rows,
};
use crate::e4b_values::{
    attend, held, lemma_held_pushed, norm, product, rotate, step, sum, Op, State, Val,
};

verus! {

/// The number of rows of the stacked query, key and value weights.
pub open spec fn qkv_rows(a: LayerEmit) -> int {
    if a.shared is Some {
        a.q_dim as int
    } else if a.has_v {
        a.q_dim + 2 * a.kv_dim
    } else {
        a.q_dim + a.kv_dim
    }
}

/// The projections of a layer are those of its sites, with the extents of the model.
pub open spec fn projections_fit(cfg: EmitCfg, a: LayerEmit) -> bool {
    let m = a.m as int;
    &&& a.qkv.spec_site() == Site::Qkv(a.li)
    &&& a.qkv.spec_n() == qkv_rows(a) && k_of(a.qkv) == cfg.hidden
    &&& a.o.spec_site() == Site::O(a.li)
    &&& a.o.spec_n() == cfg.hidden && k_of(a.o) == a.q_dim
    &&& a.gate_up.spec_site() == Site::GateUp(a.li)
    &&& a.gate_up.spec_n() == 2 * cfg.inter && k_of(a.gate_up) == cfg.hidden
    &&& a.down.spec_site() == Site::Down(a.li)
    &&& a.down.spec_n() == cfg.hidden && k_of(a.down) == cfg.inter
    &&& a.pl_gate.spec_site() == Site::PerLayerGate(a.li)
    &&& a.pl_gate.spec_n() == cfg.hpl && k_of(a.pl_gate) == cfg.hidden
    &&& a.pl_proj.spec_site() == Site::PerLayerProj(a.li)
    &&& a.pl_proj.spec_n() == cfg.hidden && k_of(a.pl_proj) == cfg.hpl
    &&& rows_sized(a.qkv, m) && rows_sized(a.o, m) && rows_sized(a.gate_up, m)
    &&& rows_sized(a.down, m) && rows_sized(a.pl_gate, m) && rows_sized(a.pl_proj, m)
}

/// The sizes that kernels read fit their words.
pub open spec fn sized(cfg: EmitCfg, a: LayerEmit) -> bool {
    &&& projections_fit(cfg, a)
    &&& a.hd <= u32::MAX
    &&& a.m * cfg.n_q <= u32::MAX
    &&& a.m * a.nkv <= u32::MAX
    &&& cfg.n_q <= u32::MAX
    &&& a.nkv <= u32::MAX
    &&& a.m * cfg.n_q * (a.hd / 2) <= u32::MAX
    &&& a.m * a.nkv * (a.hd / 2) <= u32::MAX
    &&& cfg.ple_row <= u32::MAX
    &&& (a.li + 1) * cfg.hpl <= cfg.ple_row
}

/// The device holds the extents of the layer's matrices.
pub open spec fn shapes_hold(s: State, a: LayerEmit) -> bool {
    &&& has_shape(s, a.qkv)
    &&& has_shape(s, a.o)
    &&& has_shape(s, a.gate_up)
    &&& has_shape(s, a.down)
    &&& has_shape(s, a.pl_gate)
    &&& has_shape(s, a.pl_proj)
}

pub open spec fn adapters_fit(a: LayerEmit, lora: Option<LayerLora<'_>>) -> bool {
    &&& site_fits(lora, LoraKind::Qkv, qkv_segs(a).len() as int)
    &&& site_fits(lora, LoraKind::O, 1)
    &&& site_fits(lora, LoraKind::GateUp, 1)
    &&& site_fits(lora, LoraKind::Down, 1)
}

/// A buffer that no layer writes.
pub open spec fn constant(b: Buf) -> bool {
    !(b is Work) && !(b is Kv) && !(b is LoraScratch)
}

/// A row normed by the weights of one of the model's norms.
pub open spec fn row_norm(s: State, cfg: EmitCfg, a: LayerEmit, w: Norm, x: Val) -> Val {
    norm(x, s[Buf::Norm(w)], cfg.hidden as u32, a.m as u32, cfg.eps)
}

/// Heads normed one by one.
pub open spec fn head_norm(s: State, cfg: EmitCfg, a: LayerEmit, w: Norm, x: Val, heads: usize) -> Val {
    norm(x, s[Buf::Norm(w)], a.hd as u32, (a.m * heads) as u32, cfg.eps)
}

/// Heads turned to the positions of their rows.
pub open spec fn turned(s: State, a: LayerEmit, x: Val, heads: usize) -> Val {
    rotate(
        x,
        s[Buf::RopeCos(a.kind)],
        s[Buf::RopeSin(a.kind)],
        s[Buf::RopePos],
        heads as u32,
        (a.hd / 2) as u32,
        (a.m * heads * (a.hd / 2)) as u32,
    )
}

/// The products of a row with the query, key and value weights, in the order of their rows in
/// the stacked matrix. Values without weights of their own are those of the keys.
pub open spec fn qkv_raw(a: LayerEmit, x: Val) -> Seq<Val> {
    let site = Site::Qkv(a.li);
    let q = product(site, 0, a.q_dim as int, x);
    if a.shared is Some {
        seq![q]
    } else {
        seq![
            q,
            product(site, a.q_dim as int, a.kv_dim as int, x),
            product(
                site,
                if a.has_v {
                    a.q_dim + a.kv_dim
                } else {
                    a.q_dim as int
                },
                a.kv_dim as int,
                x,
            ),
        ]
    }
}

pub open spec fn query(s: State, cfg: EmitCfg, a: LayerEmit, lora: Option<LayerLora<'_>>, x: Val) -> Val {
    let raw = adapted(s, a, lora, LoraKind::Qkv, x, qkv_raw(a, x), 0);
    turned(s, a, head_norm(s, cfg, a, Norm::Q(a.li), raw, cfg.n_q), cfg.n_q)
}

pub open spec fn key(s: State, cfg: EmitCfg, a: LayerEmit, lora: Option<LayerLora<'_>>, x: Val) -> Val {
    let raw = adapted(s, a, lora, LoraKind::Qkv, x, qkv_raw(a, x), 1);
    turned(s, a, head_norm(s, cfg, a, Norm::K(a.li), raw, a.nkv), a.nkv)
}

/// The values, which no position turns.
pub open spec fn value(s: State, cfg: EmitCfg, a: LayerEmit, lora: Option<LayerLora<'_>>, x: Val) -> Val {
    let raw = adapted(s, a, lora, LoraKind::Qkv, x, qkv_raw(a, x), 2);
    head_norm(s, cfg, a, Norm::V(a.li), raw, a.nkv)
}

/// A part of the layer's cache after its rows were written; a layer that reads another's cache
/// writes none.
pub open spec fn cached(
    s: State,
    cfg: EmitCfg,
    a: LayerEmit,
    lora: Option<LayerLora<'_>>,
    x: Val,
    part: KvPart,
) -> Val {
    let old = s[Buf::Kv(a.kv, part)];
    let start = s[Buf::KvStart];
    let heads = a.nkv as u32;
    let head_dim = a.hd as u32;
    let rows = (a.m * a.nkv) as u32;
    if a.shared is Some {
        old
    } else {
        match part {
            KvPart::K => Val::Of(
                Op::PutCodes { heads, head_dim, rows },
                seq![old, key(s, cfg, a, lora, x), start],
            ),
            KvPart::KScales => Val::Of(
                Op::PutScales { heads, head_dim, rows },
                seq![old, key(s, cfg, a, lora, x), start],
            ),
            KvPart::V => Val::Of(
                Op::PutCodes { heads, head_dim, rows },
                seq![old, value(s, cfg, a, lora, x), start],
            ),
            KvPart::VScales => Val::Of(
                Op::PutScales { heads, head_dim, rows },
                seq![old, value(s, cfg, a, lora, x), start],
            ),
        }
    }
}

/// Attention of a row's queries over a cache that holds the row too.
pub open spec fn attended(s: State, cfg: EmitCfg, a: LayerEmit, lora: Option<LayerLora<'_>>, x: Val) -> Val {
    attend(
        query(s, cfg, a, lora, x),
        cached(s, cfg, a, lora, x, KvPart::K),
        cached(s, cfg, a, lora, x, KvPart::V),
        cached(s, cfg, a, lora, x, KvPart::KScales),
        cached(s, cfg, a, lora, x, KvPart::VScales),
        s[Buf::Fd(a.prefill, a.kind)],
    )
}

/// A product with one of the layer's matrices, and what the adapter adds to it.
pub open spec fn projected(
    s: State,
    a: LayerEmit,
    lora: Option<LayerLora<'_>>,
    kind: LoraKind,
    site: Site,
    n: int,
    x: Val,
) -> Val {
    adapted(s, a, lora, kind, x, seq![product(site, 0, n, x)], 0)
}

/// The residual after the attention.
pub open spec fn after_attention(
    s: State,
    cfg: EmitCfg,
    a: LayerEmit,
    lora: Option<LayerLora<'_>>,
    r: Val,
    x: Val,
) -> Val {
    let n = (a.m * cfg.hidden) as u32;
    let o = projected(
        s,
        a,
        lora,
        LoraKind::O,
        Site::O(a.li),
        cfg.hidden as int,
        attended(s, cfg, a, lora, x),
    );
    sum(r, row_norm(s, cfg, a, Norm::PostAttn(a.li), o), n, F32_ONE)
}

/// The feed-forward block: down(gelu(gate x) * (up x)), with gate weights in the first rows.
pub open spec fn feed_forward(s: State, cfg: EmitCfg, a: LayerEmit, lora: Option<LayerLora<'_>>, x: Val) -> Val {
    let gu = projected(
        s,
        a,
        lora,
        LoraKind::GateUp,
        Site::GateUp(a.li),
        2 * cfg.inter,
        x,
    );
    let act = Val::Of(Op::Gelu { inter: cfg.inter as u32, rows: a.m as u32 }, seq![gu]);
    projected(s, a, lora, LoraKind::Down, Site::Down(a.li), cfg.hidden as int, act)
}

/// The residual after the feed-forward block.
pub open spec fn after_ff(
    s: State,
    cfg: EmitCfg,
    a: LayerEmit,
    lora: Option<LayerLora<'_>>,
    r: Val,
) -> Val {
    let n = (a.m * cfg.hidden) as u32;
    let y = feed_forward(s, cfg, a, lora, row_norm(s, cfg, a, Norm::PreFf(a.li), r));
    sum(r, row_norm(s, cfg, a, Norm::PostFf(a.li), y), n, F32_ONE)
}

/// A layer's own piece of the per-layer input row: the pieces of the layers stand one after the
/// other.
pub open spec fn own_piece(cfg: EmitCfg, a: LayerEmit, pli: Val) -> Val {
    let words = cfg.hpl as int / 2;
    Val::Of(
        Op::Piece {
            from: (a.li * words) as u32,
            words: words as u32,
            row: (cfg.ple_row / 2) as u32,
        },
        seq![pli],
    )
}

/// A layer's piece of the per-layer input, gated by the residual.
pub open spec fn gated(cfg: EmitCfg, a: LayerEmit, r: Val, pli: Val) -> Val {
    Val::Of(
        Op::Gated { words: (a.m * (cfg.hpl as int / 2)) as u32 },
        seq![
            product(Site::PerLayerGate(a.li), 0, cfg.hpl as int, r),
            own_piece(cfg, a, pli),
        ],
    )
}

/// What the per-layer input adds to the residual.
pub open spec fn per_layer(cfg: EmitCfg, a: LayerEmit, r: Val, pli: Val) -> Val {
    product(Site::PerLayerProj(a.li), 0, cfg.hidden as int, gated(cfg, a, r, pli))
}

/// The residual that a layer leaves.
pub open spec fn after_per_layer(s: State, cfg: EmitCfg, a: LayerEmit, r: Val, pli: Val) -> Val {
    let n = (a.m * cfg.hidden) as u32;
    let y = per_layer(cfg, a, r, pli);
    sum(r, row_norm(s, cfg, a, Norm::PostPerLayer(a.li), y), n, a.layer_scalar)
}

/// What a layer makes of a row and its per-layer input.
pub open spec fn layer_value(
    s: State,
    cfg: EmitCfg,
    a: LayerEmit,
    lora: Option<LayerLora<'_>>,
    r: Val,
    pli: Val,
) -> Val {
    let x = row_norm(s, cfg, a, Norm::Input(a.li), r);
    let r1 = after_attention(s, cfg, a, lora, r, x);
    let r2 = after_ff(s, cfg, a, lora, r1);
    after_per_layer(s, cfg, a, r2, pli)
}

proof fn lemma_sized(cfg: EmitCfg, a: LayerEmit)
    requires
        sized(cfg, a),
    ensures
        0 < a.m <= u32::MAX,
        cfg.hidden % 2 == 0,
        cfg.hpl % 2 == 0,
        cfg.hidden <= u32::MAX,
        cfg.hpl <= u32::MAX,
        cfg.inter <= u32::MAX,
        a.m * cfg.hidden <= u32::MAX,
        0 <= a.m * cfg.hidden,
        (a.m * cfg.hidden) % 2 == 0,
        0 <= a.m * cfg.inter <= u32::MAX,
        0 <= a.m * cfg.hpl <= u32::MAX,
        a.m * cfg.hpl / 2 == a.m * (cfg.hpl as int / 2),
        a.li * cfg.hpl / 2 == a.li * (cfg.hpl as int / 2),
        a.li * (cfg.hpl as int / 2) + cfg.hpl as int / 2 <= cfg.ple_row as int / 2,
        0 <= a.li * (cfg.hpl as int / 2),
        0 <= a.m * cfg.n_q,
        0 <= a.m * a.nkv,
        0 <= a.m * cfg.n_q * (a.hd / 2),
        0 <= a.m * a.nkv * (a.hd / 2),
{
    let m = a.m as int;
    crate::moe_steps::lemma_even(m, cfg.hidden as int);
    crate::moe_steps::lemma_even(m, cfg.hpl as int);
    crate::moe_steps::lemma_even(a.li as int, cfg.hpl as int);
    assert(0 <= m * cfg.inter && m * (2 * cfg.inter) == 2 * (m * cfg.inter)) by (nonlinear_arith)
        requires
            m >= 0,
    ;
    assert((a.li + 1) * cfg.hpl == a.li * cfg.hpl + cfg.hpl) by (nonlinear_arith);
    assert(0 <= a.m * cfg.n_q && 0 <= a.m * a.nkv) by (nonlinear_arith);
    let h = a.hd as int / 2;
    assert(0 <= (a.m * cfg.n_q) * h && 0 <= (a.m * a.nkv) * h) by (nonlinear_arith)
        requires
            0 <= a.m * cfg.n_q,
            0 <= a.m * a.nkv,
            0 <= h,
    ;
}

/// What a stage of a layer leaves: it touches no constant.
pub open spec fn constants_stay(t: State, h: State) -> bool {
    forall|b: Buf| constant(b) ==> #[trigger] t[b] == h[b]
}

/// Whether the layer's normed input stands ready from the layer before.
pub open spec fn input_ready(h: State, kit: Toolkit, cfg: EmitCfg, a: LayerEmit) -> bool {
    a.fused_norms(kit) && a.li > 0 ==> h[a.work(Work::T0)] == row_norm(
        h,
        cfg,
        a,
        Norm::Input(a.li),
        h[a.x_in()],
    )
}

proof fn lemma_input(s: State, l: Lists, kit: Toolkit, cfg: EmitCfg, a: LayerEmit)
    requires
        sized(cfg, a),
        input_ready(held(s, l, a.m as int), kit, cfg, a),
    ensures
        ({
            let h = held(s, l, a.m as int);
            let u = l.layer_input(kit, cfg, a);
            let t = held(s, u, a.m as int);
            &&& u.target == l.target
            &&& t[a.work(Work::T0)] == row_norm(h, cfg, a, Norm::Input(a.li), h[a.x_in()])
            &&& forall|b: Buf| b != a.work(Work::T0) ==> #[trigger] t[b] == h[b]
        }),
{
    lemma_sized(cfg, a);
    if !a.fused_norms(kit) || a.li == 0 {
        lemma_rms(
            s,
            l,
            a.m as int,
            a.x_in(),
            Buf::Norm(Norm::Input(a.li)),
            a.work(Work::T0),
            a.m as int,
            cfg.hidden,
            cfg.eps,
        );
    }
}

pub open spec fn qkv_work(a: LayerEmit, b: Buf) -> bool {
    ||| b == a.work(Work::Qa)
    ||| b == a.work(Work::Ka)
    ||| b == a.work(Work::Va)
    ||| b == Buf::LoraScratch(a.prefill)
}

proof fn lemma_qkv(
    s: State,
    l: Lists,
    kit: Toolkit,
    cfg: EmitCfg,
    a: LayerEmit,
    lora: Option<LayerLora<'_>>,
)
    requires
        sized(cfg, a),
        takes_rows(kit, l, a.m as int),
        shapes_hold(held(s, l, a.m as int), a),
        adapters_fit(a, lora),
    ensures
        ({
            let h = held(s, l, a.m as int);
            let u = l.layer_qkv(kit, cfg, a, lora);
            let t = held(s, u, a.m as int);
            let x = h[a.work(Work::T0)];
            let raw = qkv_raw(a, x);
            &&& u.target == l.target
            &&& t[a.work(Work::Qa)] == adapted(h, a, lora, LoraKind::Qkv, x, raw, 0)
            &&& a.shared is None ==> {
                &&& t[a.work(Work::Ka)] == adapted(h, a, lora, LoraKind::Qkv, x, raw, 1)
                &&& t[a.work(Work::Va)] == adapted(h, a, lora, LoraKind::Qkv, x, raw, 2)
            }
            &&& forall|b: Buf| !qkv_work(a, b) ==> #[trigger] t[b] == h[b]
        }),
{
    reveal(Lists::layer_qkv);
    lemma_sized(cfg, a);
    let m = a.m as int;
    let h = held(s, l, m);
    let x = a.work(Work::T0);
    let raw = qkv_raw(a, h[x]);
    let segs = qkv_segs(a);
    let dst = qkv_dst(a);
    let stride = cfg.hidden as int / 2;
    let l1 = l.project(kit, a.qkv, x, m, stride, dst);
    if a.shared is Some {
        lemma_project(s, l, kit, a.qkv, x, m, stride, dst, a.work(Work::Qa));
    } else {
        let v_off = if a.has_v {
            (a.q_dim + a.kv_dim) as usize
        } else {
            a.q_dim
        };
        lemma_project_split(
            s,
            l,
            kit,
            a.qkv,
            x,
            m,
            stride,
            dst,
            a.work(Work::Qa),
            a.work(Work::Ka),
            a.work(Work::Va),
            a.q_dim,
            a.kv_dim,
            v_off,
        );
    }
    let h1 = held(s, l1, m);
    assert forall|j: int| 0 <= j < segs.len() implies h1[#[trigger] segs[j]] == raw[j] by {}
    lemma_lora(s, l1, kit.lim, a, lora, LoraKind::Qkv, x, segs, raw);
    let t = held(s, l1.lora(kit.lim, a, lora, LoraKind::Qkv, x, segs), m);
    assert(t[segs[0]] == adapted(h1, a, lora, LoraKind::Qkv, h1[x], raw, 0));
    if a.shared is None {
        assert(t[segs[1]] == adapted(h1, a, lora, LoraKind::Qkv, h1[x], raw, 1));
        assert(t[segs[2]] == adapted(h1, a, lora, LoraKind::Qkv, h1[x], raw, 2));
    }
    assert forall|b: Buf| !qkv_work(a, b) implies !segs.contains(b) by {}
}

/// The buffers that the head rows and the cache go through.
pub open spec fn rows_work(a: LayerEmit, b: Buf) -> bool {
    ||| b == a.work(Work::Qb)
    ||| b == a.work(Work::Ka)
    ||| b == a.work(Work::Kb)
    ||| b == a.work(Work::Vb)
    ||| b == a.work(Work::QF32)
}

/// What the head rows leave, from the three products.
pub open spec fn rows_done(t: State, h: State, cfg: EmitCfg, a: LayerEmit) -> bool {
    let q = head_norm(h, cfg, a, Norm::Q(a.li), h[a.work(Work::Qa)], cfg.n_q);
    let k = turned(h, a, head_norm(h, cfg, a, Norm::K(a.li), h[a.work(Work::Ka)], a.nkv), a.nkv);
    let v = head_norm(h, cfg, a, Norm::V(a.li), h[a.work(Work::Va)], a.nkv);
    let heads = a.nkv as u32;
    let head_dim = a.hd as u32;
    let rows = (a.m * a.nkv) as u32;
    let start = h[Buf::KvStart];
    &&& t[a.work(Work::QF32)] == turned(h, a, q, cfg.n_q)
    &&& a.shared is None ==> {
        &&& t[a.cache(KvPart::K)] == Val::Of(
            Op::PutCodes { heads, head_dim, rows },
            seq![h[a.cache(KvPart::K)], k, start],
        )
        &&& t[a.cache(KvPart::KScales)] == Val::Of(
            Op::PutScales { heads, head_dim, rows },
            seq![h[a.cache(KvPart::KScales)], k, start],
        )
        &&& t[a.cache(KvPart::V)] == Val::Of(
            Op::PutCodes { heads, head_dim, rows },
            seq![h[a.cache(KvPart::V)], v, start],
        )
        &&& t[a.cache(KvPart::VScales)] == Val::Of(
            Op::PutScales { heads, head_dim, rows },
            seq![h[a.cache(KvPart::VScales)], v, start],
        )
    }
    &&& forall|b: Buf|
        !rows_work(a, b) && (a.shared is Some || forall|part: KvPart| b != #[trigger] a.cache(part))
            ==> #[trigger] t[b] == h[b]
}

proof fn lemma_rows_fused(s: State, l: Lists, cfg: EmitCfg, a: LayerEmit)
    requires
        sized(cfg, a),
    ensures
        rows_done(
            held(s, l.attn_rows_fused(cfg, a), a.m as int),
            held(s, l, a.m as int),
            cfg,
            a,
        ),
        l.attn_rows_fused(cfg, a).target == l.target,
{
    reveal(Lists::attn_rows_fused);
    reveal(step);
    lemma_sized(cfg, a);
    let m = a.m as int;
    let alone = LayerEmit { shared: Some(0), ..a };
    let l1 = l.attn_rows_fused(cfg, alone);
    let p = newest(l1);
    lemma_held_pushed(s, l, m, p.pipe, p.binds, p.grid);
    assert(l1 == l.pushed(p.pipe, p.binds, p.grid));
    let h = held(s, l, m);
    let h1 = held(s, l1, m);
    let q = head_norm(h, cfg, a, Norm::Q(a.li), h[a.work(Work::Qa)], cfg.n_q);
    assert(h1 == h.insert(a.work(Work::QF32), turned(h, a, q, cfg.n_q)));
    if a.shared is None {
        let l3 = l.attn_rows_fused(cfg, a);
        let pv = newest(l3);
        let done = target_list(l3);
        let pk = done[done.len() - 2];
        let l2 = l1.pushed(pk.pipe, pk.binds, pk.grid);
        lemma_held_pushed(s, l1, m, pk.pipe, pk.binds, pk.grid);
        assert(l3 == l2.pushed(pv.pipe, pv.binds, pv.grid));
        lemma_held_pushed(s, l2, m, pv.pipe, pv.binds, pv.grid);
    }
}

/// A rotation of the queries.
proof fn lemma_rope_q(s: State, l: Lists, cfg: EmitCfg, a: LayerEmit)
    ensures
        ({
            let h = held(s, l, a.m as int);
            let u = l.rope_q(cfg, a);
            &&& held(s, u, a.m as int) == h.insert(
                a.work(Work::QF32),
                turned(h, a, h[a.work(Work::Qb)], cfg.n_q),
            )
            &&& u.target == l.target
        }),
{
    let u = l.rope_q(cfg, a);
    let p = newest(u);
    lemma_held_pushed(s, l, a.m as int, p.pipe, p.binds, p.grid);
    assert(u == l.pushed(p.pipe, p.binds, p.grid));
    reveal(step);
}

/// Rows written to a cache.
proof fn lemma_kv_quant(
    s: State,
    l: Lists,
    cfg: EmitCfg,
    a: LayerEmit,
    x: Work,
    part: KvPart,
    scales: KvPart,
)
    requires
        sized(cfg, a),
    ensures
        ({
            let h = held(s, l, a.m as int);
            let u = l.kv_quant(cfg, a, x, part, scales);
            &&& held(s, u, a.m as int) == crate::e4b_values::put_in(
                h,
                a.nkv as u32,
                a.hd as u32,
                (a.m * a.nkv) as u32,
                a.cache(part),
                a.cache(scales),
                h[a.work(x)],
                h[Buf::KvStart],
            )
            &&& u.target == l.target
        }),
{
    lemma_sized(cfg, a);
    let u = l.kv_quant(cfg, a, x, part, scales);
    let p = newest(u);
    lemma_held_pushed(s, l, a.m as int, p.pipe, p.binds, p.grid);
    assert(u == l.pushed(p.pipe, p.binds, p.grid));
    reveal(step);
}

proof fn lemma_rows_plain(s: State, l: Lists, cfg: EmitCfg, a: LayerEmit)
    requires
        sized(cfg, a),
    ensures
        rows_done(held(s, l.attn_rows(cfg, a), a.m as int), held(s, l, a.m as int), cfg, a),
        l.attn_rows(cfg, a).target == l.target,
{
    reveal(Lists::attn_rows);
    lemma_sized(cfg, a);
    let m = a.m as int;
    let qb = a.work(Work::Qb);
    let ka = a.work(Work::Ka);
    let kb = a.work(Work::Kb);
    let vb = a.work(Work::Vb);
    let qn = Buf::Norm(Norm::Q(a.li));
    let kn = Buf::Norm(Norm::K(a.li));
    let vn = Buf::Norm(Norm::V(a.li));
    let l1 = l.rms(a.work(Work::Qa), qn, qb, a.m * cfg.n_q, a.hd, cfg.eps);
    lemma_rms(s, l, m, a.work(Work::Qa), qn, qb, a.m * cfg.n_q, a.hd, cfg.eps);
    if a.shared is Some {
        lemma_rope_q(s, l1, cfg, a);
    } else {
        let l2 = l1.rms(ka, kn, kb, a.m * a.nkv, a.hd, cfg.eps);
        lemma_rms(s, l1, m, ka, kn, kb, a.m * a.nkv, a.hd, cfg.eps);
        let l3 = l2.rms(a.work(Work::Va), vn, vb, a.m * a.nkv, a.hd, cfg.eps);
        lemma_rms(s, l2, m, a.work(Work::Va), vn, vb, a.m * a.nkv, a.hd, cfg.eps);
        let l4 = l3.rope_q(cfg, a);
        lemma_rope_q(s, l3, cfg, a);
        let l7 = l.attn_rows(cfg, a);
        let done = target_list(l7);
        let p = done[done.len() - 3];
        let l5 = l4.pushed(p.pipe, p.binds, p.grid);
        lemma_held_pushed(s, l4, m, p.pipe, p.binds, p.grid);
        let h4 = held(s, l4, m);
        assert(held(s, l5, m) == h4.insert(ka, turned(h4, a, h4[kb], a.nkv))) by {
            reveal(step);
        }
        let l6 = l5.kv_quant(cfg, a, Work::Ka, KvPart::K, KvPart::KScales);
        lemma_kv_quant(s, l5, cfg, a, Work::Ka, KvPart::K, KvPart::KScales);
        lemma_kv_quant(s, l6, cfg, a, Work::Vb, KvPart::V, KvPart::VScales);
        assert(l7 == l6.kv_quant(cfg, a, Work::Vb, KvPart::V, KvPart::VScales));
    }
}

/// The queries' attention, by parts that are merged or at once.
proof fn lemma_attn(s: State, l: Lists, kit: Toolkit, cfg: EmitCfg, a: LayerEmit)
    ensures
        ({
            let h = held(s, l, a.m as int);
            let u = l.layer_attn(kit, cfg, a);
            let t = held(s, u, a.m as int);
            &&& u.target == l.target
            &&& t[a.work(Work::AttnPack)] == attend(
                h[a.work(Work::QF32)],
                h[a.cache(KvPart::K)],
                h[a.cache(KvPart::V)],
                h[a.cache(KvPart::KScales)],
                h[a.cache(KvPart::VScales)],
                h[Buf::Fd(a.prefill, a.kind)],
            )
            &&& forall|b: Buf|
                b != a.work(Work::AttnPack) && b != a.work(Work::Scratch) ==> #[trigger] t[b]
                    == h[b]
        }),
{
    reveal(Lists::layer_attn);
    let m = a.m as int;
    let u = l.layer_attn(kit, cfg, a);
    if a.m == 1 {
        let gx = cfg.n_q as u32 / kit.pl.gqa_fold;
        let l2 = lemma_two_stages(
            s,
            l,
            a,
            flash1_pipe(kit.pl, a.hd),
            Grid::Dims(gx, kit.pl.decode_splits, 1),
            Pipe::Flash2Pk,
            Grid::Dims(cfg.n_q as u32, 1, 1),
        );
        assert(u == l2.deep_attn(kit.pl, cfg, a, gx));
        assert(target_list(u) == target_list(l2));
        assert(held(s, u, m) == held(s, l2, m)) by {
            reveal(held);
        }
    } else {
        match tensor_attn_pipe(kit, a.hd as int, cfg.n_q as int, a.nkv as int) {
            Some(pipe) if l.target == Target::Prefill && kit.pl.tensor_attn => {
                let p = newest(u);
                lemma_held_pushed(s, l, m, p.pipe, p.binds, p.grid);
                assert(u == l.pushed(p.pipe, p.binds, p.grid));
                reveal(step);
            },
            _ => {
                let pipe = if a.kind == LayerType::FullAttention && kit.pl.mk->0.qtile {
                    Pipe::Mk(false, MkPipe::Flash1Qtile)
                } else {
                    Pipe::Mk(false, MkPipe::Flash1)
                };
                let l2 = lemma_two_stages(
                    s,
                    l,
                    a,
                    pipe,
                    Grid::Dims(cfg.n_q as u32, FLASH_SPLITS, 1),
                    Pipe::Mk(false, MkPipe::Flash2Pk),
                    Grid::Dims(cfg.n_q as u32, a.m as u32, 1),
                );
                assert(u == l2);
            },
        }
    }
}

/// Whether a kernel is a first stage of the attention, or a second.
pub open spec fn first_stage(pipe: Pipe) -> bool {
    ||| pipe is Flash1
    ||| pipe is Flash1Fold
    ||| pipe is Flash1FoldDeep
    ||| pipe == Pipe::Mk(false, MkPipe::Flash1)
    ||| pipe == Pipe::Mk(false, MkPipe::Flash1Qtile)
}

pub open spec fn second_stage(pipe: Pipe) -> bool {
    ||| pipe is Flash2Pk
    ||| pipe is Flash2PkDeep
    ||| pipe == Pipe::Mk(false, MkPipe::Flash2Pk)
}

/// Attention in parts, and their merge.
proof fn lemma_two_stages(
    s: State,
    l: Lists,
    a: LayerEmit,
    first: Pipe,
    first_grid: Grid,
    second: Pipe,
    second_grid: Grid,
) -> (l2: Lists)
    requires
        first_stage(first),
        second_stage(second),
    ensures
        l2 == l.pushed(first, flash1_binds(a), first_grid).pushed(
            second,
            flash2_binds(a),
            second_grid,
        ),
        l2.target == l.target,
        ({
            let h = held(s, l, a.m as int);
            let t = held(s, l2, a.m as int);
            &&& t[a.work(Work::AttnPack)] == attend(
                h[a.work(Work::QF32)],
                h[a.cache(KvPart::K)],
                h[a.cache(KvPart::V)],
                h[a.cache(KvPart::KScales)],
                h[a.cache(KvPart::VScales)],
                h[Buf::Fd(a.prefill, a.kind)],
            )
            &&& forall|b: Buf|
                b != a.work(Work::AttnPack) && b != a.work(Work::Scratch) ==> #[trigger] t[b]
                    == h[b]
        }),
{
    let m = a.m as int;
    let l1 = l.pushed(first, flash1_binds(a), first_grid);
    lemma_held_pushed(s, l, m, first, flash1_binds(a), first_grid);
    lemma_held_pushed(s, l1, m, second, flash2_binds(a), second_grid);
    reveal(step);
    l1.pushed(second, flash2_binds(a), second_grid)
}

/// The buffer that the feed-forward block reads.
pub open spec fn ff_input(kit: Toolkit, a: LayerEmit) -> Buf {
    a.work(if a.fused_norms(kit) { Work::T2 } else { Work::T1 })
}

proof fn lemma_attn_out(
    s: State,
    l: Lists,
    kit: Toolkit,
    cfg: EmitCfg,
    a: LayerEmit,
    lora: Option<LayerLora<'_>>,
)
    requires
        sized(cfg, a),
        takes_rows(kit, l, a.m as int),
        shapes_hold(held(s, l, a.m as int), a),
        adapters_fit(a, lora),
    ensures
        ({
            let h = held(s, l, a.m as int);
            let u = l.layer_attn_out(kit, cfg, a, lora);
            let t = held(s, u, a.m as int);
            let o = projected(
                h,
                a,
                lora,
                LoraKind::O,
                Site::O(a.li),
                cfg.hidden as int,
                h[a.work(Work::AttnPack)],
            );
            let r = sum(
                h[a.x_in()],
                row_norm(h, cfg, a, Norm::PostAttn(a.li), o),
                (a.m * cfg.hidden) as u32,
                F32_ONE,
            );
            &&& u.target == l.target
            &&& t[a.x_in()] == r
            &&& t[ff_input(kit, a)] == row_norm(h, cfg, a, Norm::PreFf(a.li), r)
            &&& forall|b: Buf|
                b != a.x_in() && b != a.work(Work::T0) && b != a.work(Work::T1) && b != a.work(
                    Work::T2,
                ) && b != Buf::LoraScratch(a.prefill) ==> #[trigger] t[b] == h[b]
        }),
{
    reveal(Lists::layer_attn_out);
    lemma_sized(cfg, a);
    let m = a.m as int;
    let h = held(s, l, m);
    let x = a.work(Work::AttnPack);
    let t1 = a.work(Work::T1);
    let stride = a.q_dim as int / 2;
    let dst = packed(t1, cfg.hidden / 2);
    let l1 = l.project(kit, a.o, x, m, stride, dst);
    lemma_project(s, l, kit, a.o, x, m, stride, dst, t1);
    let segs = seq![t1];
    let raw = seq![product(Site::O(a.li), 0, cfg.hidden as int, h[x])];
    lemma_lora(s, l1, kit.lim, a, lora, LoraKind::O, x, segs, raw);
    let l2 = l1.lora(kit.lim, a, lora, LoraKind::O, x, segs);
    let h2 = held(s, l2, m);
    assert(h2[segs[0]] == projected(
        h,
        a,
        lora,
        LoraKind::O,
        Site::O(a.li),
        cfg.hidden as int,
        h[x],
    ));
    assert forall|b: Buf| b != t1 implies !segs.contains(b) by {}
    let u = l.layer_attn_out(kit, cfg, a, lora);
    if a.fused_norms(kit) {
        let p = newest(u);
        lemma_held_pushed(s, l2, m, p.pipe, p.binds, p.grid);
        assert(u == l2.pushed(p.pipe, p.binds, p.grid));
        reveal(step);
    } else {
        let w = Buf::Norm(Norm::PostAttn(a.li));
        let l3 = l2.rms(t1, w, a.work(Work::T0), m, cfg.hidden, cfg.eps);
        lemma_rms(s, l2, m, t1, w, a.work(Work::T0), m, cfg.hidden, cfg.eps);
        let p = newest(u);
        lemma_held_pushed(s, l3, m, p.pipe, p.binds, p.grid);
        assert(u == l3.pushed(p.pipe, p.binds, p.grid));
        reveal(step);
    }
}

/// The buffers of the feed-forward block.
pub open spec fn ff_work(a: LayerEmit, b: Buf) -> bool {
    ||| b == a.work(Work::GuPack)
    ||| b == a.work(Work::ActPack)
    ||| b == a.work(Work::T0)
    ||| b == a.work(Work::T1)
    ||| b == a.work(Work::Mid)
    ||| b == Buf::LoraScratch(a.prefill)
}

/// The two products of the feed-forward block and the activation between them.
proof fn lemma_ff_products(
    s: State,
    l: Lists,
    kit: Toolkit,
    cfg: EmitCfg,
    a: LayerEmit,
    lora: Option<LayerLora<'_>>,
    before: Lists,
)
    requires
        sized(cfg, a),
        takes_rows(kit, l, a.m as int),
        shapes_hold(held(s, l, a.m as int), a),
        adapters_fit(a, lora),
        before == l.project(
            kit,
            a.gate_up,
            ff_input(kit, a),
            a.m as int,
            cfg.hidden as int / 2,
            packed(a.work(Work::GuPack), cfg.inter),
        ).lora(
            kit.lim,
            a,
            lora,
            LoraKind::GateUp,
            ff_input(kit, a),
            seq![a.work(Work::GuPack)],
        ),
    ensures
        ({
            let h = held(s, l, a.m as int);
            let u = before.pushed(
                Pipe::GeluEven,
                seq![
                    at(3, a.work(Work::GuPack), 0),
                    at(4, a.work(Work::ActPack), 0),
                    param(
                        5,
                        Uniform::Gelu {
                            inter: cfg.inter as u32,
                            inter_words: (cfg.inter / 2) as u32,
                            rows: a.m as u32,
                            tot_pairs: (a.m * cfg.inter) as u32,
                        },
                    ),
                ],
                Grid::OneDRows(
                    GroupsX { invocations: (cfg.inter / 2) as u64, wg: 256 },
                    a.m as u32,
                ),
            ).project(
                kit,
                a.down,
                a.work(Work::ActPack),
                a.m as int,
                cfg.inter as int / 2,
                packed(a.work(Work::T0), cfg.hidden / 2),
            ).lora(
                kit.lim,
                a,
                lora,
                LoraKind::Down,
                a.work(Work::ActPack),
                seq![a.work(Work::T0)],
            );
            let t = held(s, u, a.m as int);
            &&& u.target == l.target
            &&& t[a.work(Work::T0)] == feed_forward(h, cfg, a, lora, h[ff_input(kit, a)])
            &&& forall|b: Buf|
                b != a.work(Work::GuPack) && b != a.work(Work::ActPack) && b != a.work(Work::T0)
                    && b != Buf::LoraScratch(a.prefill) ==> #[trigger] t[b] == h[b]
        }),
{
    lemma_sized(cfg, a);
    let m = a.m as int;
    let h = held(s, l, m);
    let x = ff_input(kit, a);
    let gu = a.work(Work::GuPack);
    let act = a.work(Work::ActPack);
    let t0 = a.work(Work::T0);
    let hw = cfg.hidden as int / 2;
    let dst = packed(gu, cfg.inter);
    let l1 = l.project(kit, a.gate_up, x, m, hw, dst);
    lemma_project(s, l, kit, a.gate_up, x, m, hw, dst, gu);
    let raw = seq![product(Site::GateUp(a.li), 0, 2 * cfg.inter, h[x])];
    lemma_lora(s, l1, kit.lim, a, lora, LoraKind::GateUp, x, seq![gu], raw);
    let h2 = held(s, before, m);
    let guv = projected(h, a, lora, LoraKind::GateUp, Site::GateUp(a.li), 2 * cfg.inter, h[x]);
    assert(h2[seq![gu][0]] == guv);
    assert forall|b: Buf| b != gu implies !seq![gu].contains(b) by {}
    let binds = seq![
        at(3, gu, 0),
        at(4, act, 0),
        param(
            5,
            Uniform::Gelu {
                inter: cfg.inter as u32,
                inter_words: (cfg.inter / 2) as u32,
                rows: a.m as u32,
                tot_pairs: (a.m * cfg.inter) as u32,
            },
        ),
    ];
    let grid = Grid::OneDRows(
        GroupsX { invocations: (cfg.inter / 2) as u64, wg: 256 },
        a.m as u32,
    );
    let l3 = before.pushed(Pipe::GeluEven, binds, grid);
    lemma_held_pushed(s, before, m, Pipe::GeluEven, binds, grid);
    let h3 = held(s, l3, m);
    let actv = Val::Of(Op::Gelu { inter: cfg.inter as u32, rows: a.m as u32 }, seq![guv]);
    assert(h3 == h2.insert(act, actv)) by {
        reveal(step);
    }
    let dst2 = packed(t0, cfg.hidden / 2);
    let l4 = l3.project(kit, a.down, act, m, cfg.inter as int / 2, dst2);
    lemma_project(s, l3, kit, a.down, act, m, cfg.inter as int / 2, dst2, t0);
    let raw2 = seq![product(Site::Down(a.li), 0, cfg.hidden as int, actv)];
    lemma_lora(s, l4, kit.lim, a, lora, LoraKind::Down, act, seq![t0], raw2);
    let l5 = l4.lora(kit.lim, a, lora, LoraKind::Down, act, seq![t0]);
    let h5 = held(s, l5, m);
    assert(h5[seq![t0][0]] == feed_forward(h, cfg, a, lora, h[x]));
    assert forall|b: Buf| b != t0 implies !seq![t0].contains(b) by {}
}

proof fn lemma_ff(
    s: State,
    l: Lists,
    kit: Toolkit,
    cfg: EmitCfg,
    a: LayerEmit,
    lora: Option<LayerLora<'_>>,
)
    requires
        sized(cfg, a),
        takes_rows(kit, l, a.m as int),
        shapes_hold(held(s, l, a.m as int), a),
        adapters_fit(a, lora),
    ensures
        ({
            let h = held(s, l, a.m as int);
            let u = l.layer_ff(kit, cfg, a, lora);
            let t = held(s, u, a.m as int);
            let y = feed_forward(h, cfg, a, lora, h[ff_input(kit, a)]);
            &&& u.target == l.target
            &&& t[a.work(Work::Mid)] == sum(
                h[a.x_in()],
                row_norm(h, cfg, a, Norm::PostFf(a.li), y),
                (a.m * cfg.hidden) as u32,
                F32_ONE,
            )
            &&& forall|b: Buf| !ff_work(a, b) ==> #[trigger] t[b] == h[b]
        }),
{
    reveal(Lists::layer_ff);
    lemma_sized(cfg, a);
    let m = a.m as int;
    let gu = a.work(Work::GuPack);
    let act = a.work(Work::ActPack);
    let t0 = a.work(Work::T0);
    let t1 = a.work(Work::T1);
    let mid = a.work(Work::Mid);
    let before = l.project(
        kit,
        a.gate_up,
        ff_input(kit, a),
        m,
        cfg.hidden as int / 2,
        packed(gu, cfg.inter),
    ).lora(kit.lim, a, lora, LoraKind::GateUp, ff_input(kit, a), seq![gu]);
    lemma_ff_products(s, l, kit, cfg, a, lora, before);
    let binds = seq![
        at(3, gu, 0),
        at(4, act, 0),
        param(
            5,
            Uniform::Gelu {
                inter: cfg.inter as u32,
                inter_words: (cfg.inter / 2) as u32,
                rows: a.m as u32,
                tot_pairs: (a.m * cfg.inter) as u32,
            },
        ),
    ];
    let grid = Grid::OneDRows(
        GroupsX { invocations: (cfg.inter / 2) as u64, wg: 256 },
        a.m as u32,
    );
    let l5 = before.pushed(Pipe::GeluEven, binds, grid).project(
        kit,
        a.down,
        act,
        m,
        cfg.inter as int / 2,
        packed(t0, cfg.hidden / 2),
    ).lora(kit.lim, a, lora, LoraKind::Down, act, seq![t0]);
    let u = l.layer_ff(kit, cfg, a, lora);
    if a.fused_norms(kit) {
        let p = newest(u);
        lemma_held_pushed(s, l5, m, p.pipe, p.binds, p.grid);
        assert(u == l5.pushed(p.pipe, p.binds, p.grid));
        reveal(step);
    } else {
        let w = Buf::Norm(Norm::PostFf(a.li));
        let l6 = l5.rms(t0, w, t1, m, cfg.hidden, cfg.eps);
        lemma_rms(s, l5, m, t0, w, t1, m, cfg.hidden, cfg.eps);
        lemma_resadd(s, l6, m, a.x_in(), t1, mid, a.m * cfg.hidden, F32_ONE);
        assert(u == l6.resadd(a.x_in(), t1, mid, a.m * cfg.hidden, F32_ONE));
    }
}

/// The buffers of the per-layer input block.
pub open spec fn pli_work(a: LayerEmit, b: Buf) -> bool {
    ||| b == a.work(Work::PlGate)
    ||| b == a.work(Work::PlGated)
    ||| b == a.work(Work::T0)
    ||| b == a.work(Work::T1)
    ||| b == a.work(Work::T2)
    ||| b == a.x_out()
}

proof fn lemma_pli(s: State, l: Lists, kit: Toolkit, cfg: EmitCfg, a: LayerEmit)
    requires
        sized(cfg, a),
        takes_rows(kit, l, a.m as int),
        shapes_hold(held(s, l, a.m as int), a),
    ensures
        ({
            let h = held(s, l, a.m as int);
            let u = l.layer_per_layer_input(kit, cfg, a);
            let t = held(s, u, a.m as int);
            let r = h[a.work(Work::Mid)];
            &&& u.target == l.target
            &&& t[a.work(Work::PlGated)] == gated(cfg, a, r, h[a.work(Work::Pli)])
            &&& t[a.x_out()] == after_per_layer(h, cfg, a, r, h[a.work(Work::Pli)])
            &&& a.fused_norms(kit) ==> t[a.work(Work::T0)] == row_norm(
                h,
                cfg,
                a,
                a.ln_next,
                t[a.x_out()],
            )
            &&& forall|b: Buf| !pli_work(a, b) ==> #[trigger] t[b] == h[b]
        }),
{
    reveal(Lists::layer_per_layer_input);
    lemma_sized(cfg, a);
    let m = a.m as int;
    let h = held(s, l, m);
    let mid = a.work(Work::Mid);
    let pg = a.work(Work::PlGate);
    let pgd = a.work(Work::PlGated);
    let t1 = a.work(Work::T1);
    let t2 = a.work(Work::T2);
    let hw = cfg.hidden as int / 2;
    let dst = packed(pg, cfg.hpl / 2);
    let l1 = l.project(kit, a.pl_gate, mid, m, hw, dst);
    lemma_project(s, l, kit, a.pl_gate, mid, m, hw, dst, pg);
    let h1 = held(s, l1, m);
    let gm = a.m * cfg.hpl / 2;
    let pipe = if a.m == 1 {
        Pipe::GateMul
    } else {
        Pipe::Mk(false, MkPipe::GateMul)
    };
    let binds = seq![
        at(0, pg, 0),
        at(1, a.work(Work::Pli), 0),
        at(2, pgd, 0),
        param(
            3,
            Uniform::GateMul {
                n_words: gm as u32,
                pli_word_off: (a.li * cfg.hpl / 2) as u32,
                tok_words: (cfg.hpl / 2) as u32,
                pli_stride: (cfg.ple_row / 2) as u32,
            },
        ),
    ];
    let grid = one_d(gm, 256);
    let l2 = l1.pushed(pipe, binds, grid);
    lemma_held_pushed(s, l1, m, pipe, binds, grid);
    assert(held(s, l2, m) == h1.insert(pgd, gated(cfg, a, h[mid], h[a.work(Work::Pli)]))) by {
        reveal(step);
    }
    let dst2 = packed(t1, cfg.hidden / 2);
    let l3 = l2.project(kit, a.pl_proj, pgd, m, cfg.hpl as int / 2, dst2);
    lemma_project(s, l2, kit, a.pl_proj, pgd, m, cfg.hpl as int / 2, dst2, t1);
    let h3 = held(s, l3, m);
    assert(h3[t1] == per_layer(cfg, a, h[mid], h[a.work(Work::Pli)]));
    let u = l.layer_per_layer_input(kit, cfg, a);
    if a.fused_norms(kit) {
        let p = newest(u);
        lemma_held_pushed(s, l3, m, p.pipe, p.binds, p.grid);
        assert(u == l3.pushed(p.pipe, p.binds, p.grid));
        reveal(step);
    } else {
        let w = Buf::Norm(Norm::PostPerLayer(a.li));
        let l4 = l3.rms(t1, w, t2, m, cfg.hidden, cfg.eps);
        lemma_rms(s, l3, m, t1, w, t2, m, cfg.hidden, cfg.eps);
        lemma_resadd(s, l4, m, mid, t2, a.x_out(), a.m * cfg.hidden, a.layer_scalar);
        assert(u == l4.resadd(mid, t2, a.x_out(), a.m * cfg.hidden, a.layer_scalar));
    }
}

/// The buffers that a layer writes besides its caches.
pub open spec fn layer_work(a: LayerEmit, b: Buf) -> bool {
    ||| b == a.x_in()
    ||| b == a.x_out()
    ||| b == a.work(Work::T0)
    ||| b == a.work(Work::T1)
    ||| b == a.work(Work::T2)
    ||| b == a.work(Work::AttnPack)
    ||| b == a.work(Work::Scratch)
    ||| qkv_work(a, b)
    ||| rows_work(a, b)
    ||| ff_work(a, b)
    ||| pli_work(a, b)
}

/// What running a layer leaves: the layer's value of the residual that it reads, the row's keys
/// and values in its cache, and, where norms are joined, the next norm's row.
pub open spec fn layer_done(
    t: State,
    h: State,
    kit: Toolkit,
    cfg: EmitCfg,
    a: LayerEmit,
    lora: Option<LayerLora<'_>>,
) -> bool {
    let r = h[a.x_in()];
    let pli = h[a.work(Work::Pli)];
    let x = row_norm(h, cfg, a, Norm::Input(a.li), r);
    let r2 = after_ff(h, cfg, a, lora, after_attention(h, cfg, a, lora, r, x));
    &&& t[a.x_out()] == layer_value(h, cfg, a, lora, r, pli)
    &&& t[a.work(Work::PlGated)] == gated(cfg, a, r2, pli)
    &&& a.fused_norms(kit) ==> t[a.work(Work::T0)] == row_norm(h, cfg, a, a.ln_next, t[a.x_out()])
    &&& forall|part: KvPart|
        t[#[trigger] a.cache(part)] == cached(h, cfg, a, lora, x, part)
}

/// The passes of a layer, with its kernels joined or not, for a decode row or the rows of a
/// chunk, compute the layer and leave all else as it was.
pub proof fn law_layer(
    s: State,
    l: Lists,
    kit: Toolkit,
    cfg: EmitCfg,
    a: LayerEmit,
    lora: Option<LayerLora<'_>>,
)
    requires
        sized(cfg, a),
        takes_rows(kit, l, a.m as int),
        shapes_hold(held(s, l, a.m as int), a),
        adapters_fit(a, lora),
        input_ready(held(s, l, a.m as int), kit, cfg, a),
    ensures
        ({
            let h = held(s, l, a.m as int);
            let u = l.layer(kit, cfg, a, lora);
            let t = held(s, u, a.m as int);
            &&& u.target == l.target
            &&& layer_done(t, h, kit, cfg, a, lora)
            &&& forall|b: Buf|
                !layer_work(a, b) && (a.shared is Some || forall|part: KvPart|
                    b != #[trigger] a.cache(part)) ==> #[trigger] t[b] == h[b]
        }),
{
    let m = a.m as int;
    let h = held(s, l, m);
    let r = h[a.x_in()];
    let x = row_norm(h, cfg, a, Norm::Input(a.li), r);
    let l1 = l.layer_input(kit, cfg, a);
    lemma_input(s, l, kit, cfg, a);
    let h1 = held(s, l1, m);
    let l2 = l1.layer_qkv(kit, cfg, a, lora);
    lemma_qkv(s, l1, kit, cfg, a, lora);
    let h2 = held(s, l2, m);
    let l3 = if a.fused_attn(kit) {
        l2.attn_rows_fused(cfg, a)
    } else {
        l2.attn_rows(cfg, a)
    };
    if a.fused_attn(kit) {
        lemma_rows_fused(s, l2, cfg, a);
    } else {
        lemma_rows_plain(s, l2, cfg, a);
    }
    let h3 = held(s, l3, m);
    assert(rows_done(h3, h2, cfg, a));
    assert(h3[a.work(Work::QF32)] == query(h, cfg, a, lora, x));
    assert forall|part: KvPart| h3[#[trigger] a.cache(part)] == cached(
        h,
        cfg,
        a,
        lora,
        x,
        part,
    ) by {
        assert(h2[a.cache(part)] == h[a.cache(part)]);
    }
    lemma_rows_frame(h3, h2, cfg, a);
    let l4 = l3.layer_attn(kit, cfg, a);
    lemma_attn(s, l3, kit, cfg, a);
    let h4 = held(s, l4, m);
    assert(h4[a.work(Work::AttnPack)] == attended(h, cfg, a, lora, x));
    let l5 = l4.layer_attn_out(kit, cfg, a, lora);
    lemma_attn_out(s, l4, kit, cfg, a, lora);
    let h5 = held(s, l5, m);
    let r1 = after_attention(h, cfg, a, lora, r, x);
    assert(h5[a.x_in()] == r1);
    let l6 = l5.layer_ff(kit, cfg, a, lora);
    lemma_ff(s, l5, kit, cfg, a, lora);
    let h6 = held(s, l6, m);
    assert(h6[a.work(Work::Mid)] == after_ff(h, cfg, a, lora, r1));
    lemma_pli(s, l6, kit, cfg, a);
    let t = held(s, l6.layer_per_layer_input(kit, cfg, a), m);
    assert forall|part: KvPart| t[#[trigger] a.cache(part)] == cached(
        h,
        cfg,
        a,
        lora,
        x,
        part,
    ) by {
        assert(h3[a.cache(part)] == cached(h, cfg, a, lora, x, part));
    }
}

/// The head rows touch no constant and nothing that the rest of the layer reads.
proof fn lemma_rows_frame(t: State, h: State, cfg: EmitCfg, a: LayerEmit)
    requires
        rows_done(t, h, cfg, a),
    ensures
        constants_stay(t, h),
        t[a.x_in()] == h[a.x_in()],
        t[a.work(Work::Pli)] == h[a.work(Work::Pli)],
{
    assert forall|b: Buf| constant(b) implies #[trigger] t[b] == h[b] by {
        assert forall|part: KvPart| b != #[trigger] a.cache(part) by {}
    }
    assert forall|part: KvPart| a.x_in() != #[trigger] a.cache(part) by {}
    assert forall|part: KvPart| a.work(Work::Pli) != #[trigger] a.cache(part) by {}
}

/// A run of words of a row of `row` words.
pub ghost struct Span {
    pub from: int,
    pub words: int,
    pub row: int,
}

/// The piece of the per-layer input that a gated value was made with.
pub open spec fn piece_of(v: Val) -> Option<Span> {
    match v {
        Val::Of(Op::Gated { .. }, args) => match args[1] {
            Val::Of(Op::Piece { from, words, row }, _) => Some(
                Span { from: from as int, words: words as int, row: row as int },
            ),
            _ => None,
        },
        _ => None,
    }
}

/// The pieces that the layers read of the per-layer input row are disjoint and cover it: the
/// first layer's begins the row, each layer's begins where the one before ends, and the last
/// layer's ends the row.
pub proof fn law_pieces(
    s: State,
    l: Lists,
    kit: Toolkit,
    cfg: EmitCfg,
    a: LayerEmit,
    la: Option<LayerLora<'_>>,
    b: LayerEmit,
    lb: Option<LayerLora<'_>>,
)
    requires
        cfg.ple_row == cfg.n_layers * cfg.hpl,
        sized(cfg, a),
        takes_rows(kit, l, a.m as int),
        shapes_hold(held(s, l, a.m as int), a),
        adapters_fit(a, la),
        input_ready(held(s, l, a.m as int), kit, cfg, a),
        sized(cfg, b),
        takes_rows(kit, l, b.m as int),
        shapes_hold(held(s, l, b.m as int), b),
        adapters_fit(b, lb),
        input_ready(held(s, l, b.m as int), kit, cfg, b),
    ensures
        ({
            let ta = held(s, l.layer(kit, cfg, a, la), a.m as int);
            let tb = held(s, l.layer(kit, cfg, b, lb), b.m as int);
            let pa = piece_of(ta[a.work(Work::PlGated)]);
            let pb = piece_of(tb[b.work(Work::PlGated)]);
            &&& pa is Some && pb is Some
            &&& pa->0.row == pb->0.row
            &&& 2 * pa->0.words == cfg.hpl
            &&& 2 * pa->0.row == cfg.n_layers * cfg.hpl
            &&& a.li == 0 ==> pa->0.from == 0
            &&& b.li == a.li + 1 ==> pb->0.from == pa->0.from + pa->0.words
            &&& a.li + 1 == cfg.n_layers ==> pa->0.from + pa->0.words == pa->0.row
            &&& pa->0.from + pa->0.words <= pa->0.row
            &&& a.li != b.li ==> pa->0.from + pa->0.words <= pb->0.from || pb->0.from + pb->0.words <= pa->0.from
        }),
{
    law_layer(s, l, kit, cfg, a, la);
    law_layer(s, l, kit, cfg, b, lb);
    lemma_sized(cfg, a);
    lemma_sized(cfg, b);
    let w = cfg.hpl as int / 2;
    let i = a.li as int;
    let j = b.li as int;
    crate::moe_steps::lemma_even(cfg.n_layers as int, cfg.hpl as int);
    assert((i + 1) * w == i * w + w) by (nonlinear_arith);
    assert((j + 1) * w == j * w + w) by (nonlinear_arith);
    assert(0 * w == 0);
    assert(j == i + 1 ==> j * w == (i + 1) * w);
    assert(i + 1 == cfg.n_layers ==> (i + 1) * w == cfg.n_layers * w);
    assert(piece_of(held(s, l.layer(kit, cfg, a, la), a.m as int)[a.work(Work::PlGated)]) == Some(
        Span { from: i * w, words: w, row: cfg.ple_row as int / 2 },
    ));
    assert(piece_of(held(s, l.layer(kit, cfg, b, lb), b.m as int)[b.work(Work::PlGated)]) == Some(
        Span { from: j * w, words: w, row: cfg.ple_row as int / 2 },
    ));
    if i < j {
        assert((i + 1) * w <= j * w) by (nonlinear_arith)
            requires
                i + 1 <= j,
                0 <= w,
        ;
    }
    if j < i {
        assert((j + 1) * w <= i * w) by (nonlinear_arith)
            requires
                j + 1 <= i,
                0 <= w,
        ;
    }
}

} // verus!
