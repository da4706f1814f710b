//! What emission does to the pass lists: which list grows, and which twins are recorded.
use vstd::prelude::*;
use crate::e4b_emit::{Dst, Limits, Lists, Pipelines, Proj, Target, Toolkit};
use crate::e4b_ir::{Bind, Buf, Grid, LoraKind, PassModel, Pipe, Work};
use crate::e4b_layer::{EmitCfg, LayerEmit, LayerLora, Table};
use crate::e4b_lora::LoraMeta;
use crate::e4b_head::Softcap;
use crate::e4b_layer_meaning::{first_stage, second_stage};
use crate::e4b_values::{step, State};

verus! {

/// Whether a kernel is a first attention stage of a decode row.
pub open spec fn is_flash1(pipe: Pipe) -> bool {
    pipe is Flash1 || pipe is Flash1Fold
}

/// How many passes of a list are first attention stages of a decode row.
pub open spec fn flash1_passes(s: Seq<PassModel>) -> int
    decreases s.len(),
{
    if s.len() == 0 {
        0
    } else {
        flash1_passes(s.drop_last()) + if is_flash1(s.last().pipe) { 1int } else { 0 }
    }
}

proof fn lemma_flash1_push(s: Seq<PassModel>, p: PassModel)
    ensures
        flash1_passes(s.push(p)) == flash1_passes(s) + if is_flash1(p.pipe) { 1int } else { 0 },
{
    assert(s.push(p).drop_last() =~= s);
}

/// `t` follows from `s` by appending passes to the target list only, none of them a first
/// attention stage of a decode row.
pub open spec fn grown(s: Lists, t: Lists) -> bool {
    &&& t.target == s.target
    &&& flash1_passes(t.decode) == flash1_passes(s.decode)
    &&& t.deep == s.deep
    &&& s.decode.is_prefix_of(t.decode)
    &&& s.prefill.is_prefix_of(t.prefill)
    &&& s.verify.is_prefix_of(t.verify)
    &&& s.target != Target::Decode ==> t.decode == s.decode
    &&& s.target != Target::Prefill ==> t.prefill == s.prefill
    &&& s.target != Target::Verify ==> t.verify == s.verify
}

proof fn lemma_prefix_trans<A>(a: Seq<A>, b: Seq<A>, c: Seq<A>)
    requires
        a.is_prefix_of(b),
        b.is_prefix_of(c),
    ensures
        a.is_prefix_of(c),
{
    assert(c.subrange(0, a.len() as int) =~= b.subrange(0, a.len() as int)) by {
        assert(b =~= c.subrange(0, b.len() as int));
    }
}

pub proof fn lemma_grown_trans(s: Lists, t: Lists, u: Lists)
    requires
        grown(s, t),
        grown(t, u),
    ensures
        grown(s, u),
{
    lemma_prefix_trans(s.decode, t.decode, u.decode);
    lemma_prefix_trans(s.prefill, t.prefill, u.prefill);
    lemma_prefix_trans(s.verify, t.verify, u.verify);
}

proof fn lemma_push_prefix<A>(a: Seq<A>, x: A)
    ensures
        a.is_prefix_of(a.push(x)),
        a.is_prefix_of(a),
{
    assert(a.push(x).subrange(0, a.len() as int) =~= a);
    assert(a.subrange(0, a.len() as int) =~= a);
}

pub proof fn lemma_grown_self(s: Lists)
    ensures
        grown(s, s),
{
    assert(s.decode.subrange(0, s.decode.len() as int) =~= s.decode);
    assert(s.prefill.subrange(0, s.prefill.len() as int) =~= s.prefill);
    assert(s.verify.subrange(0, s.verify.len() as int) =~= s.verify);
}

pub proof fn lemma_grown_push(s: Lists, pipe: Pipe, binds: Seq<Bind>, grid: Grid)
    requires
        !is_flash1(pipe),
    ensures
        grown(s, s.pushed(pipe, binds, grid)),
{
    let p = PassModel { pipe, binds, grid };
    lemma_push_prefix(s.decode, p);
    lemma_push_prefix(s.prefill, p);
    lemma_push_prefix(s.verify, p);
    lemma_flash1_push(s.decode, p);
}

/// Appending one pass after `t`.
proof fn lemma_then_push(s: Lists, t: Lists, pipe: Pipe, binds: Seq<Bind>, grid: Grid)
    requires
        !is_flash1(pipe),
        grown(s, t),
    ensures
        grown(s, t.pushed(pipe, binds, grid)),
{
    lemma_grown_push(t, pipe, binds, grid);
    lemma_grown_trans(s, t, t.pushed(pipe, binds, grid));
}

broadcast proof fn lemma_grown_pushed(s: Lists, t: Lists, pipe: Pipe, binds: Seq<Bind>, grid: Grid)
    requires
        !is_flash1(pipe),
        grown(s, t),
    ensures
        #[trigger] grown(s, t.pushed(pipe, binds, grid)),
{
    lemma_then_push(s, t, pipe, binds, grid);
}

proof fn lemma_grown_mk(
    s: Lists,
    t: Lists,
    kit: Toolkit,
    proj: Proj,
    x: Buf,
    row0: int,
    m: int,
    x_stride: int,
    dst: Dst,
)
    requires
        grown(s, t),
    ensures
        grown(s, t.gemv_mk_from(kit, proj, x, row0, m, x_stride, dst)),
    decreases m - row0,
{
    broadcast use lemma_grown_pushed;

    if row0 >= m || kit.lim.slab_rows == 0 {
    } else {
        let rows = crate::e4b_emit::min_int(kit.lim.slab_rows as int, m - row0);
        let u = t.gemv_mk_slab(kit, proj, x, row0, rows, x_stride, dst);
        assert(grown(s, u));
        lemma_grown_mk(s, u, kit, proj, x, row0 + rows, m, x_stride, dst);
    }
}

broadcast proof fn lemma_grown_project(
    s: Lists,
    t: Lists,
    kit: Toolkit,
    proj: Proj,
    x: Buf,
    m: int,
    x_stride: int,
    dst: Dst,
)
    requires
        grown(s, t),
    ensures
        #[trigger] grown(s, t.project(kit, proj, x, m, x_stride, dst)),
{
    broadcast use lemma_grown_pushed;

    lemma_grown_mk(
        s,
        t,
        kit,
        proj,
        x,
        0,
        crate::e4b_emit::mk_rows(kit.pl, t.target, m),
        x_stride,
        dst,
    );
}

proof fn lemma_grown_cvt(
    s: Lists,
    t: Lists,
    widen: bool,
    scratch: Buf,
    m: int,
    widths: Seq<usize>,
    segs: Seq<Buf>,
    n: int,
)
    requires
        grown(s, t),
    ensures
        grown(s, t.lora_cvt(widen, scratch, m, widths, segs, n)),
    decreases n,
{
    broadcast use lemma_grown_pushed;

    if n > 0 {
        lemma_grown_cvt(s, t, widen, scratch, m, widths, segs, n - 1);
    }
}

broadcast proof fn lemma_grown_lora(
    s: Lists,
    t: Lists,
    lim: Limits,
    a: LayerEmit,
    lora: Option<LayerLora<'_>>,
    kind: LoraKind,
    x: Buf,
    segs: Seq<Buf>,
)
    requires
        grown(s, t),
    ensures
        #[trigger] grown(s, t.lora(lim, a, lora, kind, x, segs)),
{
    broadcast use lemma_grown_pushed;

    match crate::e4b_layer::lora_site_of(lora, kind) {
        None => {},
        Some(site) => {
            let n = site.segs@.len() as int;
            let scratch = Buf::LoraScratch(a.prefill);
            lemma_grown_cvt(s, t, true, scratch, a.m as int, site.segs@, segs, n);
            let u = t.lora_cvt(true, scratch, a.m as int, site.segs@, segs, n).pushed(
                Pipe::LoraFused,
                seq![
                    crate::e4b_ir::at(0, x, 0),
                    crate::e4b_ir::at(1, Buf::LoraA(a.li, kind), 0),
                    crate::e4b_ir::at(2, Buf::LoraB(a.li, kind), 0),
                    crate::e4b_ir::at(3, scratch, 0),
                    crate::e4b_ir::at(4, Buf::LoraMeta(a.prefill, a.li, kind), 0),
                    crate::e4b_ir::param(
                        5,
                        crate::e4b_lora::fused_params(*lora->0.meta, site, a.m as int),
                    ),
                ],
                crate::e4b_lora::fused_grid(lim, *lora->0.meta, site, a.m as int),
            );
            assert(grown(s, u));
            lemma_grown_cvt(s, u, false, scratch, a.m as int, site.segs@, segs, n);
        },
    }
}

proof fn lemma_grown_before_attn(
    s: Lists,
    kit: Toolkit,
    cfg: EmitCfg,
    a: LayerEmit,
    lora: Option<LayerLora<'_>>,
)
    ensures
        grown(s, before_attn(s, kit, cfg, a, lora)),
{
    broadcast use {lemma_grown_pushed, lemma_grown_project, lemma_grown_lora};

    reveal(Lists::layer_qkv);
    reveal(Lists::attn_rows_fused);
    reveal(Lists::attn_rows);
    lemma_grown_self(s);
    let t = s.layer_input(kit, cfg, a);
    assert(grown(s, t));
    let u = t.layer_qkv(kit, cfg, a, lora);
    assert(grown(s, u));
    assert(grown(s, u.attn_rows_fused(cfg, a)));
    assert(grown(s, u.attn_rows(cfg, a)));
}

/// The lists after everything of a layer that comes before its attention.
pub open spec fn before_attn(
    s: Lists,
    kit: Toolkit,
    cfg: EmitCfg,
    a: LayerEmit,
    lora: Option<LayerLora<'_>>,
) -> Lists {
    let t = s.layer_input(kit, cfg, a).layer_qkv(kit, cfg, a, lora);
    if a.fused_attn(kit) {
        t.attn_rows_fused(cfg, a)
    } else {
        t.attn_rows(cfg, a)
    }
}

proof fn lemma_grown_after_attn(
    s: Lists,
    kit: Toolkit,
    cfg: EmitCfg,
    a: LayerEmit,
    lora: Option<LayerLora<'_>>,
)
    ensures
        grown(
            s,
            s.layer_attn_out(kit, cfg, a, lora).layer_ff(kit, cfg, a, lora).layer_per_layer_input(
                kit,
                cfg,
                a,
            ),
        ),
{
    broadcast use {lemma_grown_pushed, lemma_grown_project, lemma_grown_lora};

    reveal(Lists::layer_attn_out);
    reveal(Lists::layer_ff);
    reveal(Lists::layer_per_layer_input);
    lemma_grown_self(s);
    let t = s.layer_attn_out(kit, cfg, a, lora);
    assert(grown(s, t));
    let u = t.layer_ff(kit, cfg, a, lora);
    assert(grown(s, u));
}

proof fn lemma_attn_pushes(
    b: Lists,
    p1: Pipe,
    b1: Seq<Bind>,
    g1: Grid,
    p2: Pipe,
    b2: Seq<Bind>,
    g2: Grid,
)
    requires
        b.target == Target::Decode,
        is_flash1(p1),
        !is_flash1(p2),
    ensures
        ({
            let d = b.pushed(p1, b1, g1).pushed(p2, b2, g2);
            &&& d.target == b.target
            &&& d.deep == b.deep
            &&& d.prefill == b.prefill
            &&& d.verify == b.verify
            &&& b.decode.is_prefix_of(d.decode)
            &&& d.decode.len() == b.decode.len() + 2
            &&& flash1_passes(d.decode) == flash1_passes(b.decode) + 1
        }),
{
    let m1 = PassModel { pipe: p1, binds: b1, grid: g1 };
    let m2 = PassModel { pipe: p2, binds: b2, grid: g2 };
    lemma_push_prefix(b.decode, m1);
    lemma_push_prefix(b.decode.push(m1), m2);
    lemma_prefix_trans(b.decode, b.decode.push(m1), b.decode.push(m1).push(m2));
    lemma_flash1_push(b.decode, m1);
    lemma_flash1_push(b.decode.push(m1), m2);
}

proof fn lemma_deep_twins(d: Lists, pl: Pipelines, cfg: EmitCfg, a: LayerEmit, gx: u32)
    ensures
        ({
            let c = d.deep_attn(pl, cfg, a, gx);
            &&& c.target == d.target
            &&& c.decode == d.decode
            &&& c.prefill == d.prefill
            &&& c.verify == d.verify
            &&& if pl.deep_splits is Some {
                &&& c.deep.len() == d.deep.len() + 2
                &&& d.deep.is_prefix_of(c.deep)
                &&& c.deep[d.deep.len() as int].0 == d.decode.len() - 2
                &&& c.deep[d.deep.len() as int + 1].0 == d.decode.len() - 1
            } else {
                c.deep == d.deep
            }
        }),
{
    let c = d.deep_attn(pl, cfg, a, gx);
    if pl.deep_splits is Some {
        assert(c.deep.subrange(0, d.deep.len() as int) =~= d.deep);
    }
}

proof fn lemma_grown_row_attn(b: Lists, kit: Toolkit, cfg: EmitCfg, a: LayerEmit)
    requires
        a.m != 1,
    ensures
        grown(b, b.layer_attn(kit, cfg, a)),
{
    broadcast use lemma_grown_pushed;

    reveal(Lists::layer_attn);
    lemma_grown_self(b);
}

/// Every twin stands for a decode pass, and no two for the same one.
pub open spec fn twins_distinct(twins: Seq<(int, PassModel)>, n_passes: int) -> bool {
    &&& forall|i: int| 0 <= i < twins.len() ==> 0 <= (#[trigger] twins[i]).0 < n_passes
    &&& forall|i: int, j: int|
        0 <= i < j < twins.len() ==> (#[trigger] twins[i]).0 != (#[trigger] twins[j]).0
}

/// A layer appends passes to the target list only. A decode row records, when the graph has a
/// deep arm, exactly two twins: one for each of two neighbouring passes that it appended. It
/// also appends exactly one first attention stage.
pub proof fn law_layer_twins(
    s: Lists,
    kit: Toolkit,
    cfg: EmitCfg,
    a: LayerEmit,
    lora: Option<LayerLora<'_>>,
)
    requires
        a.m == 1 ==> s.target == Target::Decode,
    ensures
        ({
            let t = s.layer(kit, cfg, a, lora);
            &&& t.target == s.target
            &&& s.decode.is_prefix_of(t.decode)
            &&& s.prefill.is_prefix_of(t.prefill)
            &&& s.verify.is_prefix_of(t.verify)
            &&& s.target != Target::Decode ==> t.decode == s.decode
            &&& s.target != Target::Prefill ==> t.prefill == s.prefill
            &&& s.target != Target::Verify ==> t.verify == s.verify
            &&& flash1_passes(t.decode) == flash1_passes(s.decode) + if a.m == 1 { 1int } else { 0 }
            &&& if a.m == 1 && kit.pl.deep_splits is Some {
                &&& t.deep.len() == s.deep.len() + 2
                &&& s.deep.is_prefix_of(t.deep)
                &&& s.decode.len() <= t.deep[s.deep.len() as int].0
                &&& t.deep[s.deep.len() as int + 1].0 == t.deep[s.deep.len() as int].0 + 1
                &&& t.deep[s.deep.len() as int + 1].0 < t.decode.len()
            } else {
                t.deep == s.deep
            }
        }),
{
    let b = before_attn(s, kit, cfg, a, lora);
    lemma_grown_before_attn(s, kit, cfg, a, lora);
    let c = b.layer_attn(kit, cfg, a);
    let t = c.layer_attn_out(kit, cfg, a, lora).layer_ff(kit, cfg, a, lora).layer_per_layer_input(
        kit,
        cfg,
        a,
    );
    lemma_grown_after_attn(c, kit, cfg, a, lora);
    assert(t == s.layer(kit, cfg, a, lora));
    if a.m == 1 {
        reveal(Lists::layer_attn);
        let gx = cfg.n_q as u32 / kit.pl.gqa_fold;
        let d = b.pushed(
            crate::e4b_layer::flash1_pipe(kit.pl, a.hd),
            crate::e4b_layer::flash1_binds(a),
            Grid::Dims(gx, kit.pl.decode_splits, 1),
        ).pushed(
            Pipe::Flash2Pk,
            crate::e4b_layer::flash2_binds(a),
            Grid::Dims(cfg.n_q as u32, 1, 1),
        );
        lemma_attn_pushes(
            b,
            crate::e4b_layer::flash1_pipe(kit.pl, a.hd),
            crate::e4b_layer::flash1_binds(a),
            Grid::Dims(gx, kit.pl.decode_splits, 1),
            Pipe::Flash2Pk,
            crate::e4b_layer::flash2_binds(a),
            Grid::Dims(cfg.n_q as u32, 1, 1),
        );
        assert(c == d.deep_attn(kit.pl, cfg, a, gx));
        lemma_deep_twins(d, kit.pl, cfg, a, gx);
        lemma_prefix_trans(s.decode, b.decode, d.decode);
        lemma_prefix_trans(s.decode, c.decode, t.decode);
        assert(s.decode.len() <= b.decode.len());
    } else {
        lemma_grown_row_attn(b, kit, cfg, a);
        lemma_grown_trans(s, b, c);
        lemma_grown_trans(s, c, t);
    }
}

/// A twin has the operands of the stage that it stands for.
proof fn lemma_twin_binds(d: Lists, pl: Pipelines, cfg: EmitCfg, a: LayerEmit, gx: u32, k: int)
    requires
        pl.deep_splits is Some,
        0 <= k < 2,
    ensures
        ({
            let twin = d.deep_attn(pl, cfg, a, gx).deep[d.deep.len() + k].1;
            if k == 0 {
                twin.binds == crate::e4b_layer::flash1_binds(a) && first_stage(twin.pipe)
            } else {
                twin.binds == crate::e4b_layer::flash2_binds(a) && second_stage(twin.pipe)
            }
        }),
{
}

/// Stages with the same operands compute the same.
proof fn lemma_same_stage(x: State, p: PassModel, q: PassModel)
    requires
        p.binds == q.binds,
        first_stage(p.pipe) && first_stage(q.pipe) || second_stage(p.pipe) && second_stage(q.pipe),
    ensures
        step(x, p, 1) == step(x, q, 1),
{
    reveal(step);
}

proof fn lemma_two_pushed(b: Lists, p: PassModel, q: PassModel) -> (d: Lists)
    requires
        b.target == Target::Decode,
    ensures
        d == b.pushed(p.pipe, p.binds, p.grid).pushed(q.pipe, q.binds, q.grid),
        d.deep == b.deep,
        d.decode.len() == b.decode.len() + 2,
        d.decode[b.decode.len() as int] == p,
        d.decode[b.decode.len() as int + 1] == q,
{
    b.pushed(p.pipe, p.binds, p.grid).pushed(q.pipe, q.binds, q.grid)
}

proof fn lemma_attn_twins(b: Lists, kit: Toolkit, cfg: EmitCfg, a: LayerEmit, k: int, x: State)
    requires
        a.m == 1,
        b.target == Target::Decode,
        kit.pl.deep_splits is Some,
        0 <= k < 2,
    ensures
        ({
            let c = b.layer_attn(kit, cfg, a);
            let twin = c.deep[b.deep.len() + k];
            &&& 0 <= twin.0 < c.decode.len()
            &&& step(x, twin.1, 1) == step(x, c.decode[twin.0], 1)
        }),
{
    reveal(Lists::layer_attn);
    let gx = cfg.n_q as u32 / kit.pl.gqa_fold;
    let m1 = PassModel {
        pipe: crate::e4b_layer::flash1_pipe(kit.pl, a.hd),
        binds: crate::e4b_layer::flash1_binds(a),
        grid: Grid::Dims(gx, kit.pl.decode_splits, 1),
    };
    let m2 = PassModel {
        pipe: Pipe::Flash2Pk,
        binds: crate::e4b_layer::flash2_binds(a),
        grid: Grid::Dims(cfg.n_q as u32, 1, 1),
    };
    let d = lemma_two_pushed(b, m1, m2);
    assert(b.layer_attn(kit, cfg, a) == d.deep_attn(kit.pl, cfg, a, gx));
    lemma_deep_twins(d, kit.pl, cfg, a, gx);
    lemma_twin_binds(d, kit.pl, cfg, a, gx, k);
    let twin = d.deep_attn(kit.pl, cfg, a, gx).deep[b.deep.len() + k];
    assert(twin.0 == b.decode.len() + k);
    assert(d.decode[b.decode.len() as int] == m1);
    assert(d.decode[b.decode.len() as int + 1] == m2);
    lemma_same_stage(x, twin.1, d.decode[twin.0]);
}

/// A twin of the deep arm computes what the decode pass that it stands for computes, whatever
/// the buffers hold.
pub proof fn law_twins_agree(
    s: Lists,
    kit: Toolkit,
    cfg: EmitCfg,
    a: LayerEmit,
    lora: Option<LayerLora<'_>>,
    k: int,
    x: State,
)
    requires
        a.m == 1,
        s.target == Target::Decode,
        kit.pl.deep_splits is Some,
        0 <= k < 2,
    ensures
        ({
            let t = s.layer(kit, cfg, a, lora);
            let twin = t.deep[s.deep.len() + k];
            step(x, twin.1, 1) == step(x, t.decode[twin.0], 1)
        }),
{
    let b = before_attn(s, kit, cfg, a, lora);
    lemma_grown_before_attn(s, kit, cfg, a, lora);
    let c = b.layer_attn(kit, cfg, a);
    let t = s.layer(kit, cfg, a, lora);
    lemma_grown_after_attn(c, kit, cfg, a, lora);
    assert(grown(c, t));
    lemma_attn_twins(b, kit, cfg, a, k, x);
    let i = c.deep[b.deep.len() + k].0;
    assert(t.decode.subrange(0, c.decode.len() as int)[i] == t.decode[i]);
}

pub proof fn lemma_grown_prologue(
    s: Lists,
    kit: Toolkit,
    cfg: EmitCfg,
    prefill: bool,
    m: int,
    embed: Table,
    ple: Table,
    plmp: Proj,
)
    ensures
        grown(s, s.prologue(kit, cfg, prefill, m, embed, ple, plmp)),
{
    broadcast use {lemma_grown_pushed, lemma_grown_project};

    lemma_grown_self(s);
}

/// The lists keep their bookkeeping: `done` layers have each put one first attention stage
/// into the decode list, and two twins if there is a deep arm, for passes all different.
pub open spec fn kept(s: Lists, deep: bool, done: int) -> bool {
    &&& s.target == Target::Decode
    &&& twins_distinct(s.deep, s.decode.len() as int)
    &&& s.deep.len() == if deep { 2 * done } else { 0 }
    &&& flash1_passes(s.decode) == done
}

pub proof fn lemma_kept_grown(s: Lists, t: Lists, deep: bool, done: int)
    requires
        kept(s, deep, done),
        grown(s, t),
    ensures
        kept(t, deep, done),
{
    assert(s.decode.len() <= t.decode.len());
}

/// One more decode layer keeps the bookkeeping.
pub proof fn law_layer_kept(
    s: Lists,
    kit: Toolkit,
    cfg: EmitCfg,
    a: LayerEmit,
    lora: Option<LayerLora<'_>>,
    done: int,
)
    requires
        a.m == 1,
        kept(s, kit.pl.deep_splits is Some, done),
    ensures
        kept(s.layer(kit, cfg, a, lora), kit.pl.deep_splits is Some, done + 1),
{
    law_layer_twins(s, kit, cfg, a, lora);
    let t = s.layer(kit, cfg, a, lora);
    assert(s.decode.len() <= t.decode.len());
    if kit.pl.deep_splits is Some {
        let n = s.deep.len() as int;
        assert forall|i: int| 0 <= i < t.deep.len() implies 0 <= (#[trigger] t.deep[i]).0
            < t.decode.len() by {
            if i < n {
                assert(t.deep[i] == s.deep[i]);
            }
        }
        assert forall|i: int, j: int| 0 <= i < j < t.deep.len() implies (#[trigger] t.deep[i]).0 != (
        #[trigger] t.deep[j]).0 by {
            if i < n {
                assert(t.deep[i] == s.deep[i]);
            }
            if j < n {
                assert(t.deep[j] == s.deep[j]);
            }
        }
    }
}

proof fn lemma_grown_lm_chunks(s: Lists, t: Lists, kit: Toolkit, cfg: EmitCfg, tab: Table, n: int)
    requires
        grown(s, t),
    ensures
        grown(s, t.lm_chunks(kit, cfg, tab, n)),
    decreases n,
{
    broadcast use lemma_grown_pushed;

    if n > 0 {
        lemma_grown_lm_chunks(s, t, kit, cfg, tab, n - 1);
    }
}

pub proof fn lemma_grown_head(
    s: Lists,
    kit: Toolkit,
    cfg: EmitCfg,
    tab: Table,
    cap: Softcap,
    fused: bool,
)
    ensures
        grown(s, s.head(kit, cfg, tab, cap, fused)),
{
    broadcast use lemma_grown_pushed;

    lemma_grown_self(s);
    let normed = if kit.pl.fnc {
        s
    } else {
        s.rms(
            Buf::Work(false, crate::e4b_head::final_hid(cfg.n_layers as int)),
            Buf::Norm(crate::e4b_ir::Norm::Final),
            Buf::Work(false, Work::T0),
            1,
            cfg.hidden,
            cfg.eps,
        )
    };
    assert(grown(s, normed));
    lemma_grown_lm_chunks(s, normed, kit, cfg, tab, tab.plan.n_chunks as int);
}

} // verus!
