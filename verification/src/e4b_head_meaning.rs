//! What stands before the layers of the E4B decoder and after them: the token's rows, and the
//! tokens that the last residual is turned into.
use vstd::prelude::*;
use crate::e4b_emit::{Lists, Proj, Target, Toolkit};
use crate::e4b_head::{final_hid, verify_rows, Softcap};
use crate::e4b_ir::{Buf, Norm, Pipe, Site, Work};
use crate::e4b_layer::{packed, EmitCfg, LayerEmit, LayerLora, Table};
use crate::e4b_layer_meaning::{
    adapters_fit, input_ready, law_layer, layer_value, row_norm, shapes_hold, sized,
};
use crate::e4b_meaning::newest;
use crate::e4b_steps::{has_shape, k_of, lemma_project, lemma_rms, rows_sized, takes_rows};
use crate::e4b_values::{
    chunk_at, held, lemma_held_pushed, lookup, norm, product, step, Op, State, Val,
};

verus! {

/// The chunks of the output table hold its rows in order.
pub open spec fn table_holds(s: State, tab: Table, i8: bool) -> bool {
    forall|c: int|
        0 <= c < tab.plan.n_chunks ==> s[#[trigger] chunk_of(c, i8)] == Val::Rows {
            from: tab.chunk_start(c),
            n: tab.spec_chunk_rows(c),
        }
}

pub open spec fn chunk_of(c: int, i8: bool) -> Buf {
    if i8 {
        Buf::LmI8Weight(c as usize)
    } else {
        Buf::EmbedChunk(c as usize)
    }
}

proof fn lemma_first_start(tab: Table)
    ensures
        tab.chunk_start(0) == 0,
{
    assert(0 * tab.plan.rows_per_chunk == 0) by (nonlinear_arith);
}

proof fn lemma_starts_even(tab: Table, c: int)
    requires
        tab.sound(),
        0 <= c < tab.plan.n_chunks,
    ensures
        tab.chunk_start(c) % 2 == 0,
        0 <= tab.chunk_start(c),
    decreases c,
{
    if c == 0 {
        lemma_first_start(tab);
    } else {
        lemma_starts_even(tab, c - 1);
        assert(tab.spec_chunk_rows(c - 1) % 2 == 0);
    }
}

/// The logits of a row over the whole table.
pub open spec fn logits(cfg: EmitCfg, upto: int, x: Val) -> Val {
    Val::Of(Op::Logits { upto, k: cfg.hidden as u32 }, seq![x])
}

proof fn lemma_lm_chunks(s: State, l: Lists, kit: Toolkit, cfg: EmitCfg, tab: Table, n: int)
    requires
        tab.sound(),
        tab.rows <= u32::MAX,
        cfg.hidden <= u32::MAX,
        0 < n <= tab.plan.n_chunks,
        table_holds(held(s, l, 1), tab, kit.pl.lmhead_i8),
    ensures
        ({
            let h = held(s, l, 1);
            let u = l.lm_chunks(kit, cfg, tab, n);
            let t = held(s, u, 1);
            let upto = if n < tab.plan.n_chunks {
                tab.chunk_start(n)
            } else {
                tab.rows as int
            };
            &&& u.target == l.target
            &&& t == h.insert(Buf::LogitsPk, logits(cfg, upto, h[Buf::Work(false, Work::T0)]))
        }),
    decreases n,
{
    let c = n - 1;
    let h = held(s, l, 1);
    let before = l.lm_chunks(kit, cfg, tab, c);
    let u = l.lm_chunks(kit, cfg, tab, n);
    if c > 0 {
        lemma_lm_chunks(s, l, kit, cfg, tab, c);
    } else {
        assert(before == l);
    }
    lemma_starts_even(tab, c);
    assert(tab.chunk_start(c) < tab.rows);
    if c + 1 < tab.plan.n_chunks {
        assert(tab.chunk_start(c + 1) < tab.rows);
    }
    lemma_first_start(tab);
    assert(h[chunk_of(c, kit.pl.lmhead_i8)] == Val::Rows {
        from: tab.chunk_start(c),
        n: tab.spec_chunk_rows(c),
    });
    let p = newest(u);
    lemma_held_pushed(s, before, 1, p.pipe, p.binds, p.grid);
    assert(u == before.pushed(p.pipe, p.binds, p.grid));
    let upto = tab.chunk_start(c) + tab.spec_chunk_rows(c);
    let v = logits(cfg, upto, h[Buf::Work(false, Work::T0)]);
    assert(held(s, u, 1) == held(s, before, 1).insert(Buf::LogitsPk, v)) by {
        reveal(step);
    }
    assert(held(s, u, 1) =~= h.insert(Buf::LogitsPk, v));
}

/// The logits as the choice reads them.
pub open spec fn bounded(tab: Table, cap: Softcap, fused: bool, v: Val) -> Val {
    Val::Of(
        if cap.on || fused {
            Op::Capped { n: tab.rows as u32, cap: cap.cap }
        } else {
            Op::Plain { n: tab.rows as u32 }
        },
        seq![v],
    )
}

/// The token that a decode row's normed residual is turned into.
pub open spec fn token(cfg: EmitCfg, tab: Table, cap: Softcap, fused: bool, x: Val) -> Val {
    Val::Of(
        Op::Token { rows: 1, n: tab.rows as u32 },
        seq![bounded(tab, cap, fused, logits(cfg, tab.rows as int, x))],
    )
}

proof fn lemma_choose(s: State, l: Lists, kit: Toolkit, tab: Table, cap: Softcap, fused: bool)
    requires
        tab.rows <= u32::MAX,
    ensures
        ({
            let h = held(s, l, 1);
            let u = l.choose_token(kit, tab.rows, cap, fused);
            let t = held(s, u, 1);
            &&& u.target == l.target
            &&& t[Buf::TokenOut] == Val::Of(
                Op::Token { rows: 1, n: tab.rows as u32 },
                seq![bounded(tab, cap, fused, h[Buf::LogitsPk])],
            )
        }),
{
    let u = l.choose_token(kit, tab.rows, cap, fused);
    let done = crate::e4b_caches::target_list(u);
    let n = done.len() as int;
    let p3 = done[n - 1];
    let p2 = done[n - 2];
    reveal(step);
    if fused {
        let l1 = l.pushed(p2.pipe, p2.binds, p2.grid);
        lemma_held_pushed(s, l, 1, p2.pipe, p2.binds, p2.grid);
        lemma_held_pushed(s, l1, 1, p3.pipe, p3.binds, p3.grid);
        assert(u == l1.pushed(p3.pipe, p3.binds, p3.grid));
    } else {
        let p1 = done[n - 3];
        let l1 = l.pushed(p1.pipe, p1.binds, p1.grid);
        let l2 = l1.pushed(p2.pipe, p2.binds, p2.grid);
        lemma_held_pushed(s, l, 1, p1.pipe, p1.binds, p1.grid);
        lemma_held_pushed(s, l1, 1, p2.pipe, p2.binds, p2.grid);
        lemma_held_pushed(s, l2, 1, p3.pipe, p3.binds, p3.grid);
        assert(u == l2.pushed(p3.pipe, p3.binds, p3.grid));
    }
}

/// The decode head turns the last residual, normed, into a token; where norms are joined, the
/// normed row stands ready from the last layer.
pub proof fn law_head(
    s: State,
    l: Lists,
    kit: Toolkit,
    cfg: EmitCfg,
    tab: Table,
    cap: Softcap,
    fused: bool,
)
    requires
        tab.sound(),
        tab.rows <= u32::MAX,
        cfg.hidden <= u32::MAX,
        table_holds(held(s, l, 1), tab, kit.pl.lmhead_i8),
        kit.pl.fnc ==> held(s, l, 1)[Buf::Work(false, Work::T0)] == norm(
            held(s, l, 1)[Buf::Work(false, final_hid(cfg.n_layers as int))],
            held(s, l, 1)[Buf::Norm(Norm::Final)],
            cfg.hidden as u32,
            1,
            cfg.eps,
        ),
    ensures
        ({
            let h = held(s, l, 1);
            let t = held(s, l.head(kit, cfg, tab, cap, fused), 1);
            let r = h[Buf::Work(false, final_hid(cfg.n_layers as int))];
            t[Buf::TokenOut] == token(
                cfg,
                tab,
                cap,
                fused,
                norm(r, h[Buf::Norm(Norm::Final)], cfg.hidden as u32, 1, cfg.eps),
            )
        }),
{
    let x = Buf::Work(false, final_hid(cfg.n_layers as int));
    let t0 = Buf::Work(false, Work::T0);
    let w = Buf::Norm(Norm::Final);
    let l1 = if kit.pl.fnc {
        l
    } else {
        l.rms(x, w, t0, 1, cfg.hidden, cfg.eps)
    };
    if !kit.pl.fnc {
        lemma_rms(s, l, 1, x, w, t0, 1, cfg.hidden, cfg.eps);
    }
    assert(table_holds(held(s, l1, 1), tab, kit.pl.lmhead_i8));
    let n = tab.plan.n_chunks as int;
    lemma_lm_chunks(s, l1, kit, cfg, tab, n);
    lemma_choose(s, l1.lm_chunks(kit, cfg, tab, n), kit, tab, cap, fused);
}

/// The token that a step makes of a residual that came out of the last layer.
pub proof fn law_last_layer_feeds_head(
    s: State,
    l: Lists,
    kit: Toolkit,
    cfg: EmitCfg,
    a: LayerEmit,
    lora: Option<LayerLora<'_>>,
    tab: Table,
    cap: Softcap,
    fused: bool,
)
    requires
        sized(cfg, a),
        a.m == 1,
        !a.prefill,
        a.li + 1 == cfg.n_layers,
        a.ln_next == Norm::Final,
        shapes_hold(held(s, l, 1), a),
        adapters_fit(a, lora),
        input_ready(held(s, l, 1), kit, cfg, a),
        tab.sound(),
        tab.rows <= u32::MAX,
        table_holds(held(s, l, 1), tab, kit.pl.lmhead_i8),
    ensures
        ({
            let h = held(s, l, 1);
            let t = held(s, l.layer(kit, cfg, a, lora).head(kit, cfg, tab, cap, fused), 1);
            let r = layer_value(h, cfg, a, lora, h[a.x_in()], h[a.work(Work::Pli)]);
            t[Buf::TokenOut] == token(
                cfg,
                tab,
                cap,
                fused,
                row_norm(h, cfg, a, Norm::Final, r),
            )
        }),
{
    law_layer(s, l, kit, cfg, a, lora);
    let h = held(s, l, 1);
    let l1 = l.layer(kit, cfg, a, lora);
    let h1 = held(s, l1, 1);
    assert forall|c: int| 0 <= c < tab.plan.n_chunks implies h1[#[trigger] chunk_of(
        c,
        kit.pl.lmhead_i8,
    )] == h[chunk_of(c, kit.pl.lmhead_i8)] by {
        let b = chunk_of(c, kit.pl.lmhead_i8);
        assert forall|part: crate::e4b_ir::KvPart| b != #[trigger] a.cache(part) by {}
    }
    let w = Buf::Norm(Norm::Final);
    assert(h1[w] == h[w]) by {
        assert forall|part: crate::e4b_ir::KvPart| w != #[trigger] a.cache(part) by {}
    }
    law_head(s, l1, kit, cfg, tab, cap, fused);
}

/// The logits of each row of a chunk over the rows of the table up to `upto`.
pub open spec fn row_logits(
    cfg: EmitCfg,
    tab: Table,
    cap: Softcap,
    rows: int,
    upto: int,
    x: Val,
) -> Val {
    Val::Of(
        Op::RowLogits {
            upto,
            k: cfg.hidden as u32,
            rows: rows as u32,
            vocab: tab.rows as u32,
            cap: if cap.on {
                Some((cap.cap, cap.inv_cap))
            } else {
                None
            },
        },
        seq![x],
    )
}

/// The tokens that the normed residuals of a chunk's rows are turned into.
pub open spec fn row_tokens(cfg: EmitCfg, tab: Table, cap: Softcap, rows: int, x: Val) -> Val {
    Val::Of(
        Op::Token { rows: rows as u32, n: tab.rows as u32 },
        seq![row_logits(cfg, tab, cap, rows, tab.rows as int, x)],
    )
}

pub open spec fn verify_buf(b: Buf) -> bool {
    b is VerifyY || b is VerifyLogits
}

proof fn lemma_verify_chunks(
    s: State,
    l: Lists,
    m: int,
    kit: Toolkit,
    cfg: EmitCfg,
    tab: Table,
    cap: Softcap,
    rows: int,
    n: int,
)
    requires
        tab.sound(),
        tab.rows <= u32::MAX,
        cfg.hidden <= u32::MAX,
        0 <= rows <= u32::MAX,
        rows * tab.rows <= u64::MAX,
        0 < n <= tab.plan.n_chunks,
        table_holds(held(s, l, m), tab, false),
    ensures
        ({
            let h = held(s, l, m);
            let u = l.verify_chunks(kit, cfg, tab, cap, rows, n);
            let t = held(s, u, m);
            let upto = if n < tab.plan.n_chunks {
                tab.chunk_start(n)
            } else {
                tab.rows as int
            };
            let x = h[Buf::Work(true, Work::T0)];
            &&& u.target == l.target
            &&& t[Buf::VerifyLogits] == row_logits(cfg, tab, cap, rows, upto, x)
            &&& forall|b: Buf| !verify_buf(b) ==> #[trigger] t[b] == h[b]
        }),
    decreases n,
{
    let c = n - 1;
    let h = held(s, l, m);
    let x = h[Buf::Work(true, Work::T0)];
    let before = l.verify_chunks(kit, cfg, tab, cap, rows, c);
    let u = l.verify_chunks(kit, cfg, tab, cap, rows, n);
    if c > 0 {
        lemma_verify_chunks(s, l, m, kit, cfg, tab, cap, rows, c);
    } else {
        assert(before == l);
    }
    let h0 = held(s, before, m);
    lemma_first_start(tab);
    lemma_starts_even(tab, c);
    assert(tab.chunk_start(c) < tab.rows);
    if c + 1 < tab.plan.n_chunks {
        assert(tab.chunk_start(c + 1) < tab.rows);
    }
    let from = tab.chunk_start(c);
    let count = tab.spec_chunk_rows(c);
    assert(0 <= rows * count <= rows * tab.rows) by (nonlinear_arith)
        requires
            0 <= rows,
            0 <= count <= tab.rows,
    ;
    assert(h[chunk_of(c, false)] == Val::Rows { from, n: count });
    assert(h0[chunk_of(c, false)] == h[chunk_of(c, false)]);
    assert(c > 0 ==> from > 0) by {
        if c > 0 {
            lemma_starts_even(tab, c - 1);
            assert(tab.chunk_start(c - 1) < tab.rows);
        }
    }
    let done = crate::e4b_caches::target_list(u);
    let p2 = done[done.len() - 1];
    let p1 = done[done.len() - 2];
    let l1 = before.pushed(p1.pipe, p1.binds, p1.grid);
    lemma_held_pushed(s, before, m, p1.pipe, p1.binds, p1.grid);
    lemma_held_pushed(s, l1, m, p2.pipe, p2.binds, p2.grid);
    assert(u == l1.pushed(p2.pipe, p2.binds, p2.grid));
    let some = Val::Of(
        Op::SomeLogits { from, n: count, k: cfg.hidden as u32, rows: rows as u32 },
        seq![x],
    );
    assert(held(s, l1, m) == h0.insert(Buf::VerifyY(c as usize), some)) by {
        reveal(step);
    }
    assert(held(s, u, m) == held(s, l1, m).insert(
        Buf::VerifyLogits,
        row_logits(cfg, tab, cap, rows, from + count, x),
    )) by {
        reveal(step);
    }
}

/// The verify epilogue turns the residuals of the last layer, normed, into a token for each row.
pub proof fn law_verify_head(
    s: State,
    l: Lists,
    kit: Toolkit,
    cfg: EmitCfg,
    tab: Table,
    cap: Softcap,
    m: int,
)
    requires
        tab.sound(),
        tab.rows <= u32::MAX,
        cfg.hidden <= u32::MAX,
        0 <= m <= u32::MAX,
        verify_rows(kit, m) >= 0,
        verify_rows(kit, m) * tab.rows <= u64::MAX,
        table_holds(held(s, l, m), tab, false),
    ensures
        ({
            let h = held(s, l, m);
            let t = held(s, l.verify_head(kit, cfg, tab, cap, m), m);
            let r = h[Buf::Work(true, final_hid(cfg.n_layers as int))];
            t[Buf::TokenOut] == row_tokens(
                cfg,
                tab,
                cap,
                verify_rows(kit, m),
                norm(r, h[Buf::Norm(Norm::Final)], cfg.hidden as u32, m as u32, cfg.eps),
            )
        }),
{
    let x = Buf::Work(true, final_hid(cfg.n_layers as int));
    let t0 = Buf::Work(true, Work::T0);
    let w = Buf::Norm(Norm::Final);
    let rows = verify_rows(kit, m);
    let l1 = l.rms(x, w, t0, m, cfg.hidden, cfg.eps);
    lemma_rms(s, l, m, x, w, t0, m, cfg.hidden, cfg.eps);
    assert(table_holds(held(s, l1, m), tab, false));
    let n = tab.plan.n_chunks as int;
    lemma_verify_chunks(s, l1, m, kit, cfg, tab, cap, rows, n);
    let l2 = l1.verify_chunks(kit, cfg, tab, cap, rows, n);
    let u = l.verify_head(kit, cfg, tab, cap, m);
    let done = crate::e4b_caches::target_list(u);
    let p2 = done[done.len() - 1];
    let p1 = done[done.len() - 2];
    let l3 = l2.pushed(p1.pipe, p1.binds, p1.grid);
    lemma_held_pushed(s, l2, m, p1.pipe, p1.binds, p1.grid);
    lemma_held_pushed(s, l3, m, p2.pipe, p2.binds, p2.grid);
    assert(u == l3.pushed(p2.pipe, p2.binds, p2.grid));
    reveal(step);
}

/// The verify epilogue reads what the last layer of a chunk wrote: run after that layer, from a
/// list of its own, it makes each row's token of the layer's value of that row, as the decode
/// head does of a decode row's.
pub proof fn law_last_layer_feeds_verify(
    s: State,
    l: Lists,
    kit: Toolkit,
    cfg: EmitCfg,
    a: LayerEmit,
    lora: Option<LayerLora<'_>>,
    tab: Table,
    cap: Softcap,
)
    requires
        sized(cfg, a),
        takes_rows(kit, l, a.m as int),
        a.prefill,
        a.li + 1 == cfg.n_layers,
        shapes_hold(held(s, l, a.m as int), a),
        adapters_fit(a, lora),
        input_ready(held(s, l, a.m as int), kit, cfg, a),
        tab.sound(),
        tab.rows <= u32::MAX,
        verify_rows(kit, a.m as int) * tab.rows <= u64::MAX,
        table_holds(held(s, l, a.m as int), tab, false),
    ensures
        ({
            let m = a.m as int;
            let h = held(s, l, m);
            let after = held(s, l.layer(kit, cfg, a, lora), m);
            let own = Lists::empty().retarget(Target::Prefill);
            let t = held(after, own.verify_head(kit, cfg, tab, cap, m), m);
            let r = layer_value(h, cfg, a, lora, h[a.x_in()], h[a.work(Work::Pli)]);
            t[Buf::TokenOut] == row_tokens(
                cfg,
                tab,
                cap,
                verify_rows(kit, m),
                row_norm(h, cfg, a, Norm::Final, r),
            )
        }),
{
    let m = a.m as int;
    law_layer(s, l, kit, cfg, a, lora);
    let h = held(s, l, m);
    let after = held(s, l.layer(kit, cfg, a, lora), m);
    let own = Lists::empty().retarget(Target::Prefill);
    assert(held(after, own, m) == after) by {
        reveal(held);
    }
    assert forall|c: int| 0 <= c < tab.plan.n_chunks implies after[#[trigger] chunk_of(c, false)]
        == h[chunk_of(c, false)] by {
        let b = chunk_of(c, false);
        assert forall|part: crate::e4b_ir::KvPart| b != #[trigger] a.cache(part) by {}
    }
    let w = Buf::Norm(Norm::Final);
    assert(after[w] == h[w]) by {
        assert forall|part: crate::e4b_ir::KvPart| w != #[trigger] a.cache(part) by {}
    }
    law_verify_head(after, own, kit, cfg, tab, cap, m);
}

/// The rows of a table that the tokens name.
pub open spec fn looked_up(tab: Table, tokens: Val, m: int) -> Val {
    Val::Of(
        Op::Lookup {
            embed: tab.embed,
            row_words: tab.row_words as u32,
            rows: tab.rows as u32,
            chunk: tab.plan.rows_per_chunk as u32,
            chunks: tab.plan.n_chunks as u32,
            tokens: m as u32,
        },
        seq![tokens],
    )
}

proof fn lemma_gather(s: State, l: Lists, kit: Toolkit, tab: Table, dst: Buf, m: int)
    requires
        tab.sound(),
        0 <= m <= u32::MAX,
    ensures
        ({
            let h = held(s, l, m);
            let u = l.gather(kit, tab, dst, m);
            &&& u.target == l.target
            &&& held(s, u, m) == h.insert(dst, looked_up(tab, h[Buf::TokIdx], m))
        }),
{
    let u = l.gather(kit, tab, dst, m);
    let p = newest(u);
    lemma_held_pushed(s, l, m, p.pipe, p.binds, p.grid);
    assert(u == l.pushed(p.pipe, p.binds, p.grid));
    assert forall|i: int| 0 <= i < tab.plan.n_chunks implies #[trigger] chunk_at(p, i, tab.embed)
        == Some(i as usize) by {
        assert(p.binds[i] == tab.chunk_binds()[i]);
    }
    assert(p.binds[0] == tab.chunk_binds()[0]);
    let h = held(s, l, m);
    assert(lookup(p, h[Buf::TokIdx], m) == looked_up(tab, h[Buf::TokIdx], m));
    reveal(step);
}

/// What the layers start from: the token's scaled embedding as the residual, and as the
/// per-layer input the mix of its normed projection with the token's own per-layer row.
pub open spec fn start_residual(cfg: EmitCfg, embed: Table, tokens: Val, m: int) -> Val {
    Val::Of(
        Op::Scale { n: (m * cfg.hidden) as u32, by: cfg.embed_scale },
        seq![looked_up(embed, tokens, m)],
    )
}

pub open spec fn start_pli(s: State, cfg: EmitCfg, embed: Table, ple: Table, tokens: Val, m: int) -> Val {
    let x = start_residual(cfg, embed, tokens, m);
    let p = norm(
        product(Site::PerLayerModel, 0, cfg.ple_row as int, x),
        s[Buf::Norm(Norm::PerLayerProjection)],
        cfg.hpl as u32,
        (m * cfg.n_layers) as u32,
        cfg.eps,
    );
    Val::Of(
        Op::Mix { words: (m * cfg.ple_row / 2) as u32, a: cfg.pli_sa, b: cfg.pli_sb },
        seq![p, looked_up(ple, tokens, m)],
    )
}

/// The prologue leaves the start of the layers, for a decode row and for a chunk alike.
pub proof fn law_prologue(
    s: State,
    l: Lists,
    kit: Toolkit,
    cfg: EmitCfg,
    prefill: bool,
    m: int,
    embed: Table,
    ple: Table,
    plmp: Proj,
)
    requires
        embed.sound(),
        ple.sound(),
        takes_rows(kit, l, m),
        plmp.spec_site() == Site::PerLayerModel,
        plmp.spec_n() == cfg.ple_row,
        k_of(plmp) == cfg.hidden,
        rows_sized(plmp, m),
        has_shape(held(s, l, m), plmp),
        cfg.hpl <= u32::MAX,
        0 <= m * cfg.n_layers <= u32::MAX,
    ensures
        ({
            let h = held(s, l, m);
            let u = l.prologue(kit, cfg, prefill, m, embed, ple, plmp);
            let t = held(s, u, m);
            let tokens = h[Buf::TokIdx];
            &&& u.target == l.target
            &&& t[Buf::Work(prefill, Work::HidA)] == start_residual(cfg, embed, tokens, m)
            &&& t[Buf::Work(prefill, Work::Pli)] == start_pli(h, cfg, embed, ple, tokens, m)
            &&& forall|b: Buf| !(b is Work) ==> #[trigger] t[b] == h[b]
        }),
{
    let w = |x: Work| Buf::Work(prefill, x);
    let h = held(s, l, m);
    let hid = Buf::Work(prefill, Work::HidA);
    let t0 = Buf::Work(prefill, Work::T0);
    let raw = Buf::Work(prefill, Work::PleRaw);
    let proj = Buf::Work(prefill, Work::PleProj);
    let normed = Buf::Work(prefill, Work::PleNormed);
    crate::moe_steps::lemma_even(m, cfg.hidden as int);
    crate::moe_steps::lemma_even(m, cfg.ple_row as int);
    let u = l.prologue(kit, cfg, prefill, m, embed, ple, plmp);
    let l1 = l.gather(kit, embed, t0, m);
    lemma_gather(s, l, kit, embed, t0, m);
    let hw = m * cfg.hidden;
    let binds = seq![
        crate::e4b_ir::at(0, t0, 0),
        crate::e4b_ir::at(2, hid, 0),
        crate::e4b_ir::param(
            3,
            crate::e4b_ir::Uniform::Scale {
                n: hw as u32,
                n_words: (hw / 2) as u32,
                scale: cfg.embed_scale,
                cap: 0,
                inv_cap: 0,
            },
        ),
    ];
    let grid = crate::e4b_emit::one_d(hw / 2, 256);
    let l2 = l1.pushed(Pipe::Scale, binds, grid);
    lemma_held_pushed(s, l1, m, Pipe::Scale, binds, grid);
    let h1 = held(s, l1, m);
    let x = start_residual(cfg, embed, h[Buf::TokIdx], m);
    assert(held(s, l2, m) == h1.insert(hid, x)) by {
        reveal(step);
    }
    let l3 = l2.gather(kit, ple, raw, m);
    lemma_gather(s, l2, kit, ple, raw, m);
    let dst = packed(proj, cfg.ple_row / 2);
    let l4 = l3.project(kit, plmp, hid, m, cfg.hidden as int / 2, dst);
    lemma_project(s, l3, kit, plmp, hid, m, cfg.hidden as int / 2, dst, proj);
    let nw = Buf::Norm(Norm::PerLayerProjection);
    let l5 = l4.rms(proj, nw, normed, m * cfg.n_layers, cfg.hpl, cfg.eps);
    lemma_rms(s, l4, m, proj, nw, normed, m * cfg.n_layers, cfg.hpl, cfg.eps);
    let p = newest(u);
    lemma_held_pushed(s, l5, m, p.pipe, p.binds, p.grid);
    assert(u == l5.pushed(p.pipe, p.binds, p.grid));
    reveal(step);
}

} // verus!
