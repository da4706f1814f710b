//! Which passes of the E4B graph write the caches of keys and values.
use vstd::prelude::*;
use crate::config::Gemma4Config;
use crate::e4b_build::wants_verify_list;
use crate::e4b_emit::{Dst, Limits, Lists, Proj, Target, Toolkit};
use crate::e4b_head::{final_hid, Softcap};
use crate::e4b_host::{one_more, HostBuild};
use crate::e4b_ir::{Arg, Bind, Buf, Grid, KvPart, LoraKind, Norm, PassModel, Pipe, Work};
use crate::e4b_laws::before_attn;
use crate::e4b_layer::{EmitCfg, LayerEmit, LayerLora, Table};
use crate::e4b_weights::Tally;

verus! {

/// Whether a kernel writes to a cache.
pub open spec fn writes_cache(pipe: Pipe) -> bool {
    pipe is FacK || pipe is FacV || pipe is KvQuant
}

/// The operand that such a kernel writes to.
pub open spec fn cache_operand(p: PassModel) -> Arg {
    if p.pipe is FacK {
        p.binds[6].arg
    } else if p.pipe is FacV {
        p.binds[3].arg
    } else {
        p.binds[1].arg
    }
}

/// What the passes of a list write to caches, in order.
pub open spec fn cache_writes(s: Seq<PassModel>) -> Seq<Arg>
    decreases s.len(),
{
    if s.len() == 0 {
        Seq::empty()
    } else if writes_cache(s.last().pipe) {
        cache_writes(s.drop_last()).push(cache_operand(s.last()))
    } else {
        cache_writes(s.drop_last())
    }
}

proof fn lemma_writes_push(s: Seq<PassModel>, p: PassModel)
    ensures
        cache_writes(s.push(p)) == if writes_cache(p.pipe) {
            cache_writes(s).push(cache_operand(p))
        } else {
            cache_writes(s)
        },
{
    assert(s.push(p).drop_last() =~= s);
}

/// The list that passes are appended to.
pub open spec fn target_list(s: Lists) -> Seq<PassModel> {
    match s.target {
        Target::Decode => s.decode,
        Target::Prefill => s.prefill,
        Target::Verify => s.verify,
    }
}

/// `t` follows from `s` by appending passes to the target list, which write `w` to caches.
pub open spec fn wrote(s: Lists, t: Lists, w: Seq<Arg>) -> bool {
    &&& t.target == s.target
    &&& cache_writes(target_list(t)) == cache_writes(target_list(s)) + w
    &&& s.target != Target::Decode ==> t.decode == s.decode
    &&& s.target != Target::Prefill ==> t.prefill == s.prefill
    &&& s.target != Target::Verify ==> t.verify == s.verify
}

pub open spec fn none_written() -> Seq<Arg> {
    Seq::empty()
}

proof fn lemma_wrote_self(s: Lists)
    ensures
        wrote(s, s, none_written()),
{
    assert(cache_writes(target_list(s)) + none_written() =~= cache_writes(target_list(s)));
}

broadcast proof fn lemma_wrote_pushed(
    s: Lists,
    t: Lists,
    w: Seq<Arg>,
    pipe: Pipe,
    binds: Seq<Bind>,
    grid: Grid,
)
    requires
        !writes_cache(pipe),
        wrote(s, t, w),
    ensures
        #[trigger] wrote(s, t.pushed(pipe, binds, grid), w),
{
    lemma_writes_push(target_list(t), PassModel { pipe, binds, grid });
}

proof fn lemma_wrote_cache(
    s: Lists,
    t: Lists,
    w: Seq<Arg>,
    pipe: Pipe,
    binds: Seq<Bind>,
    grid: Grid,
)
    requires
        writes_cache(pipe),
        wrote(s, t, w),
    ensures
        wrote(
            s,
            t.pushed(pipe, binds, grid),
            w.push(cache_operand(PassModel { pipe, binds, grid })),
        ),
{
    let p = PassModel { pipe, binds, grid };
    lemma_writes_push(target_list(t), p);
    let before = cache_writes(target_list(s));
    assert((before + w).push(cache_operand(p)) =~= before + w.push(cache_operand(p)));
}

proof fn lemma_wrote_mk(
    s: Lists,
    t: Lists,
    w: Seq<Arg>,
    kit: Toolkit,
    proj: Proj,
    x: Buf,
    row0: int,
    m: int,
    x_stride: int,
    dst: Dst,
)
    requires
        wrote(s, t, w),
    ensures
        wrote(s, t.gemv_mk_from(kit, proj, x, row0, m, x_stride, dst), w),
    decreases m - row0,
{
    broadcast use lemma_wrote_pushed;

    if row0 >= m || kit.lim.slab_rows == 0 {
    } else {
        let rows = crate::e4b_emit::min_int(kit.lim.slab_rows as int, m - row0);
        let u = t.gemv_mk_slab(kit, proj, x, row0, rows, x_stride, dst);
        assert(wrote(s, u, w));
        lemma_wrote_mk(s, u, w, kit, proj, x, row0 + rows, m, x_stride, dst);
    }
}

broadcast proof fn lemma_wrote_project(
    s: Lists,
    t: Lists,
    w: Seq<Arg>,
    kit: Toolkit,
    proj: Proj,
    x: Buf,
    m: int,
    x_stride: int,
    dst: Dst,
)
    requires
        wrote(s, t, w),
    ensures
        #[trigger] wrote(s, t.project(kit, proj, x, m, x_stride, dst), w),
{
    broadcast use lemma_wrote_pushed;

    let rows = crate::e4b_emit::mk_rows(kit.pl, t.target, m);
    lemma_wrote_mk(s, t, w, kit, proj, x, 0, rows, x_stride, dst);
}

proof fn lemma_wrote_cvt(
    s: Lists,
    t: Lists,
    w: Seq<Arg>,
    widen: bool,
    scratch: Buf,
    m: int,
    widths: Seq<usize>,
    segs: Seq<Buf>,
    n: int,
)
    requires
        wrote(s, t, w),
    ensures
        wrote(s, t.lora_cvt(widen, scratch, m, widths, segs, n), w),
    decreases n,
{
    broadcast use lemma_wrote_pushed;

    if n > 0 {
        lemma_wrote_cvt(s, t, w, widen, scratch, m, widths, segs, n - 1);
    }
}

broadcast proof fn lemma_wrote_lora(
    s: Lists,
    t: Lists,
    w: Seq<Arg>,
    lim: Limits,
    a: LayerEmit,
    lora: Option<LayerLora<'_>>,
    kind: LoraKind,
    x: Buf,
    segs: Seq<Buf>,
)
    requires
        wrote(s, t, w),
    ensures
        #[trigger] wrote(s, t.lora(lim, a, lora, kind, x, segs), w),
{
    broadcast use lemma_wrote_pushed;

    match crate::e4b_layer::lora_site_of(lora, kind) {
        None => {},
        Some(site) => {
            let n = site.segs@.len() as int;
            let m = a.m as int;
            let meta = *lora->0.meta;
            let scratch = Buf::LoraScratch(a.prefill);
            lemma_wrote_cvt(s, t, w, true, scratch, m, site.segs@, segs, n);
            let u = t.lora_cvt(true, scratch, m, site.segs@, segs, n).pushed(
                Pipe::LoraFused,
                seq![
                    crate::e4b_ir::at(0, x, 0),
                    crate::e4b_ir::at(1, Buf::LoraA(a.li, kind), 0),
                    crate::e4b_ir::at(2, Buf::LoraB(a.li, kind), 0),
                    crate::e4b_ir::at(3, scratch, 0),
                    crate::e4b_ir::at(4, Buf::LoraMeta(a.prefill, a.li, kind), 0),
                    crate::e4b_ir::param(5, crate::e4b_lora::fused_params(meta, site, m)),
                ],
                crate::e4b_lora::fused_grid(lim, meta, site, m),
            );
            assert(wrote(s, u, w));
            lemma_wrote_cvt(s, u, w, false, scratch, m, site.segs@, segs, n);
        },
    }
}

/// What a layer writes to caches: its keys and its values where it has a cache of its own.
pub open spec fn layer_writes(a: LayerEmit) -> Seq<Arg> {
    if a.shared is Some {
        Seq::empty()
    } else {
        seq![Arg::Buf(a.cache(KvPart::K)), Arg::Buf(a.cache(KvPart::V))]
    }
}

proof fn lemma_rows_fused(s: Lists, t: Lists, cfg: EmitCfg, a: LayerEmit)
    requires
        wrote(s, t, none_written()),
    ensures
        wrote(s, t.attn_rows_fused(cfg, a), layer_writes(a)),
{
    broadcast use lemma_wrote_pushed;

    reveal(Lists::attn_rows_fused);
    let u = t.attn_rows_fused(cfg, a);
    if a.shared is None {
        let n = target_list(u).len();
        let v = target_list(u)[n - 1];
        let k = target_list(u)[n - 2];
        let q = t.pushed(
            Pipe::FacQ,
            target_list(u)[n - 3].binds,
            target_list(u)[n - 3].grid,
        );
        assert(wrote(s, q, none_written()));
        lemma_wrote_cache(s, q, none_written(), k.pipe, k.binds, k.grid);
        let w = none_written().push(cache_operand(k));
        lemma_wrote_cache(s, q.pushed(k.pipe, k.binds, k.grid), w, v.pipe, v.binds, v.grid);
        assert(w.push(cache_operand(v)) =~= layer_writes(a));
        assert(u == q.pushed(k.pipe, k.binds, k.grid).pushed(v.pipe, v.binds, v.grid));
    }
}

proof fn lemma_rows_plain(s: Lists, t: Lists, cfg: EmitCfg, a: LayerEmit)
    requires
        wrote(s, t, none_written()),
    ensures
        wrote(s, t.attn_rows(cfg, a), layer_writes(a)),
{
    broadcast use lemma_wrote_pushed;

    reveal(Lists::attn_rows);
    let u = t.attn_rows(cfg, a);
    if a.shared is None {
        let n = target_list(u).len();
        let v = target_list(u)[n - 1];
        let k = target_list(u)[n - 2];
        let r = t.rms(
            a.work(Work::Qa),
            Buf::Norm(Norm::Q(a.li)),
            a.work(Work::Qb),
            a.m * cfg.n_q,
            a.hd,
            cfg.eps,
        ).rms(
            a.work(Work::Ka),
            Buf::Norm(Norm::K(a.li)),
            a.work(Work::Kb),
            a.m * a.nkv,
            a.hd,
            cfg.eps,
        ).rms(
            a.work(Work::Va),
            Buf::Norm(Norm::V(a.li)),
            a.work(Work::Vb),
            a.m * a.nkv,
            a.hd,
            cfg.eps,
        ).rope_q(cfg, a);
        let p = target_list(u)[n - 3];
        let q = r.pushed(p.pipe, p.binds, p.grid);
        assert(wrote(s, q, none_written()));
        lemma_wrote_cache(s, q, none_written(), k.pipe, k.binds, k.grid);
        let w = none_written().push(cache_operand(k));
        lemma_wrote_cache(s, q.pushed(k.pipe, k.binds, k.grid), w, v.pipe, v.binds, v.grid);
        assert(w.push(cache_operand(v)) =~= layer_writes(a));
        assert(u == q.pushed(k.pipe, k.binds, k.grid).pushed(v.pipe, v.binds, v.grid));
    }
}

proof fn lemma_attn_quiet(
    s: Lists,
    t: Lists,
    w: Seq<Arg>,
    kit: Toolkit,
    cfg: EmitCfg,
    a: LayerEmit,
)
    requires
        wrote(s, t, w),
    ensures
        wrote(s, t.layer_attn(kit, cfg, a), w),
{
    broadcast use lemma_wrote_pushed;

    reveal(Lists::layer_attn);
    if a.m == 1 {
        let gx = cfg.n_q as u32 / kit.pl.gqa_fold;
        let pipe = crate::e4b_layer::flash1_pipe(kit.pl, a.hd);
        assert(!writes_cache(pipe));
        let binds = crate::e4b_layer::flash1_binds(a);
        let grid = Grid::Dims(gx, kit.pl.decode_splits, 1);
        lemma_wrote_pushed(s, t, w, pipe, binds, grid);
        let first = t.pushed(pipe, binds, grid);
        let d = first.pushed(
            Pipe::Flash2Pk,
            crate::e4b_layer::flash2_binds(a),
            Grid::Dims(cfg.n_q as u32, 1, 1),
        );
        assert(wrote(s, d, w));
        let e = d.deep_attn(kit.pl, cfg, a, gx);
        assert(e.target == d.target && target_list(e) == target_list(d));
    }
}

/// A layer writes its keys and its values to its own cache, each once, and writes nothing
/// where it reads the cache of another layer. It appends to the target list alone.
pub proof fn law_layer_writes(
    s: Lists,
    kit: Toolkit,
    cfg: EmitCfg,
    a: LayerEmit,
    lora: Option<LayerLora<'_>>,
)
    ensures
        wrote(s, s.layer(kit, cfg, a, lora), layer_writes(a)),
{
    broadcast use {lemma_wrote_pushed, lemma_wrote_project, lemma_wrote_lora};

    lemma_wrote_self(s);
    let t = s.layer_input(kit, cfg, a);
    assert(wrote(s, t, none_written()));
    let u = t.layer_qkv(kit, cfg, a, lora);
    assert(wrote(s, u, none_written())) by {
        reveal(Lists::layer_qkv);
    }
    lemma_rows_fused(s, u, cfg, a);
    lemma_rows_plain(s, u, cfg, a);
    let b = before_attn(s, kit, cfg, a, lora);
    assert(wrote(s, b, layer_writes(a)));
    let c = b.layer_attn(kit, cfg, a);
    lemma_attn_quiet(s, b, layer_writes(a), kit, cfg, a);
    let d = c.layer_attn_out(kit, cfg, a, lora);
    assert(wrote(s, d, layer_writes(a))) by {
        reveal(Lists::layer_attn_out);
    }
    let e = d.layer_ff(kit, cfg, a, lora);
    assert(wrote(s, e, layer_writes(a))) by {
        reveal(Lists::layer_ff);
    }
    assert(wrote(s, e.layer_per_layer_input(kit, cfg, a), layer_writes(a))) by {
        reveal(Lists::layer_per_layer_input);
    }
}

proof fn lemma_prologue_quiet(
    s: Lists,
    kit: Toolkit,
    cfg: EmitCfg,
    prefill: bool,
    m: int,
    embed: Table,
    ple: Table,
    plmp: Proj,
)
    ensures
        wrote(s, s.prologue(kit, cfg, prefill, m, embed, ple, plmp), none_written()),
{
    broadcast use {lemma_wrote_pushed, lemma_wrote_project};

    lemma_wrote_self(s);
}

/// What the first `n` layers of a model write to caches in a step.
pub open spec fn model_writes(c: Gemma4Config, n: int) -> Seq<Arg>
    decreases n,
{
    if n <= 0 {
        Seq::empty()
    } else if c.kv_sources@[n - 1] is Some {
        model_writes(c, n - 1)
    } else {
        model_writes(c, n - 1) + seq![
            Arg::Buf(Buf::Kv((n - 1) as usize, KvPart::K)),
            Arg::Buf(Buf::Kv((n - 1) as usize, KvPart::V)),
        ]
    }
}

/// The decode, prefill and verify lists each write the caches of the first `n` layers.
pub open spec fn writes_model(s: Lists, h: HostBuild, n: int) -> bool {
    let w = model_writes(*h.config, n);
    &&& s.target == Target::Decode
    &&& cache_writes(s.decode) == w
    &&& cache_writes(s.prefill) == if h.prefill_m > 0 { w } else { none_written() }
    &&& cache_writes(s.verify) == if h.prefill_m > 0 && wants_verify_list(h.kit.pl) {
        w
    } else {
        none_written()
    }
}

proof fn lemma_start_quiet(h: HostBuild)
    ensures
        writes_model(h.start().lists(), h, 0),
{
    let s = h.start();
    let embed = s.embed_table()->Ok_0;
    let ple = s.ple_table()->Ok_0;
    let plmp = s.plmp_placed()->Ok_0.0;
    let empty = Lists::empty();
    let m = s.prefill_m as int;
    lemma_prologue_quiet(empty, *s.kit, s.cfg(), false, 1, embed, ple, plmp);
    let d = empty.prologue(*s.kit, s.cfg(), false, 1, embed, ple, plmp);
    let p = d.retarget(Target::Prefill);
    lemma_prologue_quiet(p, *s.kit, s.cfg(), true, m, embed, ple, plmp);
    let v = p.prologue(*s.kit, s.cfg(), true, m, embed, ple, plmp).retarget(Target::Verify);
    lemma_prologue_quiet(v, *s.kit, s.cfg(), true, m, embed, ple, plmp);
    assert(none_written() + none_written() =~= none_written());
}

proof fn lemma_layer_model(h: HostBuild, s: Lists, t: Tally, n: int)
    requires
        0 <= n < h.config.num_hidden_layers,
        writes_model(s, h, n),
        one_more(h.layer(n), h.start().cfg(), n as usize, (s, t), h.prefill_m) is Ok,
    ensures
        writes_model(
            one_more(h.layer(n), h.start().cfg(), n as usize, (s, t), h.prefill_m)->Ok_0.0,
            h,
            n + 1,
        ),
{
    reveal(one_more);
    let l = h.layer(n);
    let li = n as usize;
    let cfg = h.start().cfg();
    let m = h.prefill_m;
    assert(l.error(cfg, li, t, m) is None);
    assert(l.shape_defect(li) is None);
    assert(l.hl.kv_source == h.config.kv_sources@[n]);
    let p = l.all_placed(li, t)->Ok_0.0;
    let one = l.emit(li, p, false, 1);
    let rows = l.emit(li, p, true, m);
    law_layer_writes(s, *l.kit, cfg, one, l.adapter(false));
    let d = s.layer(*l.kit, cfg, one, l.adapter(false));
    let a = d.retarget(Target::Prefill);
    law_layer_writes(a, *l.kit, cfg, rows, l.adapter(true));
    let b = a.layer(*l.kit, cfg, rows, l.adapter(true)).retarget(Target::Verify);
    law_layer_writes(b, *l.kit, cfg, rows, l.adapter(true));
    let w = model_writes(*h.config, n);
    assert(layer_writes(one) == layer_writes(rows));
    assert(w + layer_writes(one) =~= model_writes(*h.config, n + 1));
}

/// In every list of a graph that can be built, each layer with a cache of its own writes its
/// keys and its values once, in the order of the layers, and no other pass writes a cache.
pub proof fn law_caches_written_once(h: HostBuild, n: int)
    requires
        0 <= n <= h.config.num_hidden_layers,
        h.after(n) is Ok,
    ensures
        writes_model(h.after(n)->Ok_0.0, h, n),
    decreases n,
{
    reveal_with_fuel(HostBuild::after, 2);
    if n == 0 {
        lemma_start_quiet(h);
    } else {
        law_caches_written_once(h, n - 1);
        let so_far = h.after(n - 1)->Ok_0;
        lemma_layer_model(h, so_far.0, so_far.1, n - 1);
    }
}

proof fn lemma_wrote_lm_chunks(s: Lists, t: Lists, kit: Toolkit, cfg: EmitCfg, tab: Table, n: int)
    requires
        wrote(s, t, none_written()),
    ensures
        wrote(s, t.lm_chunks(kit, cfg, tab, n), none_written()),
    decreases n,
{
    broadcast use lemma_wrote_pushed;

    if n > 0 {
        lemma_wrote_lm_chunks(s, t, kit, cfg, tab, n - 1);
    }
}

proof fn lemma_head_quiet(
    s: Lists,
    kit: Toolkit,
    cfg: EmitCfg,
    tab: Table,
    cap: Softcap,
    fused: bool,
)
    ensures
        wrote(s, s.head(kit, cfg, tab, cap, fused), none_written()),
{
    broadcast use lemma_wrote_pushed;

    lemma_wrote_self(s);
    let normed = if kit.pl.fnc {
        s
    } else {
        s.rms(
            Buf::Work(false, final_hid(cfg.n_layers as int)),
            Buf::Norm(Norm::Final),
            Buf::Work(false, Work::T0),
            1,
            cfg.hidden,
            cfg.eps,
        )
    };
    assert(wrote(s, normed, none_written()));
    lemma_wrote_lm_chunks(s, normed, kit, cfg, tab, tab.plan.n_chunks as int);
}

/// A graph that can be built writes, in a step as in a chunk of rows, the keys and the values
/// of each layer with a cache of its own, once and in the order of the layers, and nothing
/// else of a cache.
pub proof fn law_graph_caches(h: HostBuild)
    requires
        h.error() is None,
    ensures
        writes_model(h.lists(), h, h.config.num_hidden_layers as int),
{
    let n = h.config.num_hidden_layers as int;
    law_caches_written_once(h, n);
    let s = h.after(n)->Ok_0.0;
    lemma_head_quiet(s, *h.kit, h.start().cfg(), h.embed(), h.cap, h.fused_head);
    assert(model_writes(*h.config, n) + none_written() =~= model_writes(*h.config, n));
}

/// The residual stream goes from layer to layer: the prologue leaves it where the first layer
/// reads it, each layer leaves it where the next one does, and the last where the head does.
pub proof fn law_residual_stream(a: LayerEmit, b: LayerEmit, n: int)
    requires
        b.prefill == a.prefill,
    ensures
        a.li == 0 ==> a.x_in() == a.work(Work::HidA),
        b.li == a.li + 1 ==> b.x_in() == a.x_out(),
        n == a.li + 1 ==> a.x_out() == a.work(final_hid(n)),
        a.x_in() != a.x_out(),
{
}

} // verus!
