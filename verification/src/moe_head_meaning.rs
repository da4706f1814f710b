//! What a step of the mixture-of-experts model computes from the token to the next token, and
//! that its passes compute it; the same for the rows of a chunk.
use vstd::prelude::*;
use crate::moe_attn::takes_flash;
use crate::moe_attn_meaning::{cache_buf, stacks_hold};
use crate::moe_build::{layer_passes, pf, pf_layer_passes, res_in};
use crate::moe_emit::{lmhead_pass, HeadChunk, MoePlan};
use crate::moe_env::{chunks_from, law_embed_chunks};
use crate::moe_graph::{
    final_norm_pass, gather_pass, gathers, head_passes, logit_row, pf_gather_pass, pf_gathers,
    splice_pass, verify_logits, verify_passes, MoeStart,
};
use crate::moe_ir::{LayerBuf, MoeBuf, MoeModel, PfBuf};
use crate::moe_layer_meaning::{law_layer, law_pf_layer, layer_scratch, layer_value, pf_layer_scratch};
use crate::moe_meaning::sized;
use crate::moe_steps::{lemma_run1, lemma_run3, step_norm, step_pf_norm};
use crate::moe_values::{
    found_more, lemma_edge_kernels, lemma_kernels, lemma_run_cat, lemma_run_push, logits_more,
    normed, of1, of3, run, step, Op, State, Val,
};

verus! {

/// The chunks of the table follow each other from the first row to the last.
pub open spec fn in_order(c: Seq<HeadChunk>, vocab: usize) -> bool {
    &&& c.len() > 0
    &&& c[0].row_off == 0
    &&& forall|i: int|
        0 <= i < c.len() ==> {
            &&& 0 < (#[trigger] c[i]).n_rows
            &&& c[i].row_off % 2 == 0
            &&& c[i].row_off + c[i].n_rows == if i + 1 < c.len() {
                c[i + 1].row_off as int
            } else {
                vocab as int
            }
            &&& c[i].row_off + c[i].n_rows <= vocab
        }
}

/// The rows of the table that the first `n` chunks hold.
pub open spec fn rows_upto(c: Seq<HeadChunk>, n: int) -> int {
    if n <= 0 {
        0
    } else {
        c[n - 1].row_off + c[n - 1].n_rows
    }
}

/// The chunks on the device hold the rows of the embedding table.
pub open spec fn table_holds(s: State, c: Seq<HeadChunk>, i8: bool) -> bool {
    forall|i: int|
        0 <= i < c.len() ==> s[#[trigger] chunk_buf(c[i], i8)] == Val::Rows {
            from: c[i].row_off as int,
            n: c[i].n_rows as int,
        }
}

pub open spec fn chunk_buf(c: HeadChunk, i8: bool) -> MoeBuf {
    if i8 {
        MoeBuf::LmI8(c.index)
    } else {
        MoeBuf::EmbedChunk(c.index)
    }
}

/// The chunks that a graph is built with are in order.
pub proof fn law_chunks_in_order(start: MoeStart)
    requires
        start.wf(),
        start.config.base.vocab_size > 0,
    ensures
        in_order(start.chunks(), start.config.base.vocab_size),
{
    let v = start.config.base.vocab_size as int;
    let k = start.chunk_rows as int;
    let c = chunks_from(v, k, 0);
    assert(c.len() > 0);
    assert forall|i: int| 0 <= i < c.len() implies {
        &&& 0 < (#[trigger] start.chunks()[i]).n_rows
        &&& start.chunks()[i].row_off == c[i].0
        &&& start.chunks()[i].n_rows == c[i].1
        &&& start.chunks()[i].row_off % 2 == 0
        &&& c[i].0 + c[i].1 <= v
        &&& i + 1 < c.len() ==> c[i + 1].0 == c[i].0 + c[i].1
        &&& i + 1 == c.len() ==> c[i].0 + c[i].1 == v
        &&& c[0].0 == 0
    } by {
        law_embed_chunks(v, k, 0, i);
    }
    assert(start.chunks()[0].row_off == c[0].0);
    assert forall|i: int| 0 <= i < start.chunks().len() implies {
        &&& 0 < (#[trigger] start.chunks()[i]).n_rows
        &&& start.chunks()[i].row_off % 2 == 0
        &&& start.chunks()[i].row_off + start.chunks()[i].n_rows == if i + 1 < start.chunks().len() {
            start.chunks()[i + 1].row_off as int
        } else {
            v
        }
        &&& start.chunks()[i].row_off + start.chunks()[i].n_rows <= v
    } by {
        if i + 1 < start.chunks().len() {
            assert(start.chunks()[i + 1].row_off == c[i + 1].0);
        }
    }
}

/// A token's scaled embedding.
pub open spec fn embedded(p: MoePlan, upto: int, tok: Val) -> Val {
    of1(
        Op::Found {
            upto,
            words: (p.d.hidden as int / 2) as u32,
            vocab: p.d.vocab as u32,
            scale: p.f.embed_scale,
        },
        tok,
    )
}

pub open spec fn plan_fits(p: MoePlan) -> bool {
    &&& p.d.vocab <= u32::MAX
    &&& p.d.hidden <= u32::MAX
    &&& p.d.hidden > 0
    &&& p.d.hidden % 32 == 0
}

/// A look through one chunk of the table.
proof fn step_gather(h: State, p: MoePlan, c: HeadChunk)
    requires
        plan_fits(p),
        c.row_off + c.n_rows <= p.d.vocab,
    ensures
        step(h, gather_pass(p, c), 1) == h.insert(
            MoeBuf::ResA,
            found_more(
                h[MoeBuf::ResA],
                h[MoeBuf::Tok],
                h[MoeBuf::EmbedChunk(c.index)],
                c.row_off as u32,
                c.n_rows as u32,
                (p.d.hidden as int / 2) as u32,
                p.d.vocab as u32,
                p.f.embed_scale,
            ),
        ),
{
    lemma_edge_kernels();
    reveal(step);
}

/// The logits of one chunk of the table.
proof fn step_lmhead(
    h: State,
    p: MoePlan,
    c: HeadChunk,
    x: MoeBuf,
    x_off: int,
    y: MoeBuf,
    y_off: int,
    m: int,
)
    requires
        plan_fits(p),
        c.row_off + c.n_rows <= p.d.vocab,
        p.sw.i8_head is Some ==> x_off == 0,
        0 <= x_off <= u32::MAX,
        0 <= y_off <= u32::MAX,
    ensures
        step(h, lmhead_pass(p, c, x, x_off, y, y_off), m) == h.insert(
            y,
            logits_more(
                h[y],
                h[x],
                h[chunk_buf(c, p.sw.i8_head is Some)],
                c.n_rows as u32,
                x_off,
                y_off,
                p.d.hidden as int,
            ),
        ),
{
    lemma_kernels();
    reveal(step);
}

proof fn lemma_gathers(s: State, p: MoePlan, c: Seq<HeadChunk>, n: int)
    requires
        plan_fits(p),
        in_order(c, p.d.vocab),
        table_holds(s, c, false),
        0 < n <= c.len(),
    ensures
        run(s, gathers(p, c).take(n), 1) == s.insert(
            MoeBuf::ResA,
            embedded(p, rows_upto(c, n), s[MoeBuf::Tok]),
        ),
    decreases n,
{
    let i = n - 1;
    let ps = gathers(p, c);
    let before = ps.take(i);
    assert(ps.take(n) =~= before.push(gather_pass(p, c[i])));
    lemma_run_push(s, before, gather_pass(p, c[i]), 1);
    if i > 0 {
        lemma_gathers(s, p, c, i);
        assert(c[i - 1].n_rows > 0);
    } else {
        assert(before =~= Seq::<MoeModel>::empty());
    }
    let h = run(s, before, 1);
    assert(s[chunk_buf(c[i], false)] == Val::Rows {
        from: c[i].row_off as int,
        n: c[i].n_rows as int,
    });
    step_gather(h, p, c[i]);
    let v = embedded(p, rows_upto(c, n), s[MoeBuf::Tok]);
    assert(h.insert(MoeBuf::ResA, v) =~= s.insert(MoeBuf::ResA, v));
}

/// The logits of the row that begins at word `x_off`, after those of all rows before it.
pub open spec fn logits(p: MoePlan, x_off: int, base: int, upto: int, x: Val) -> Val {
    of1(Op::Logits { x_off, base, upto, k: p.d.hidden as int }, x)
}

proof fn lemma_logit_row(
    s: State,
    p: MoePlan,
    c: Seq<HeadChunk>,
    x: MoeBuf,
    x_off: int,
    y: MoeBuf,
    y_off: int,
    n: int,
    m: int,
)
    requires
        plan_fits(p),
        in_order(c, p.d.vocab),
        table_holds(s, c, p.sw.i8_head is Some),
        p.sw.i8_head is Some ==> x_off == 0,
        0 < n <= c.len(),
        x != y,
        !(y is EmbedChunk) && !(y is LmI8),
        0 <= x_off <= u32::MAX,
        0 <= y_off,
        y_off + p.d.vocab <= u32::MAX,
        x_off == 0 && y_off == 0 || s[y] == logits(
            p,
            x_off - p.d.hidden as int / 2,
            y_off - p.d.vocab as int / 2,
            p.d.vocab as int,
            s[x],
        ),
    ensures
        run(s, logit_row(p, c, x, x_off, y, y_off).take(n), m) == s.insert(
            y,
            logits(p, x_off, y_off, rows_upto(c, n), s[x]),
        ),
    decreases n,
{
    let i = n - 1;
    let ps = logit_row(p, c, x, x_off, y, y_off);
    let before = ps.take(i);
    assert(ps.take(n) =~= before.push(ps[i]));
    lemma_run_push(s, before, ps[i], m);
    if i > 0 {
        lemma_logit_row(s, p, c, x, x_off, y, y_off, i, m);
        assert(c[i - 1].n_rows > 0);
    } else {
        assert(before =~= Seq::<MoeModel>::empty());
    }
    let h = run(s, before, m);
    assert(s[chunk_buf(c[i], p.sw.i8_head is Some)] == Val::Rows {
        from: c[i].row_off as int,
        n: c[i].n_rows as int,
    });
    assert(c[i].row_off + c[i].n_rows <= p.d.vocab);
    let v = logits(p, x_off, y_off, rows_upto(c, n), s[x]);
    step_lmhead(h, p, c[i], x, x_off, y, y_off + c[i].row_off as int / 2, m);
    assert(step(h, ps[i], m) == h.insert(y, v));
    assert(h.insert(y, v) =~= s.insert(y, v));
}

/// The token that a decode row's normed residual is turned into.
pub open spec fn token(p: MoePlan, x: Val) -> Val {
    of1(Op::Token { n: p.d.vocab as u32, rows: 1 }, logits(p, 0, 0, p.d.vocab as int, x))
}

/// Logits as a caller reads them.
pub open spec fn bounded(p: MoePlan, n: int, v: Val) -> Val {
    of1(
        if p.f.capped {
            Op::Capped { n: n as u32, cap: p.f.cap, inv_cap: p.f.inv_cap }
        } else {
            Op::Plain { n: n as u32 }
        },
        v,
    )
}

/// The head leaves the logits of the normed residual and their best token.
pub proof fn law_head(s: State, p: MoePlan, c: Seq<HeadChunk>)
    requires
        plan_fits(p),
        in_order(c, p.d.vocab),
        table_holds(s, c, p.sw.i8_head is Some),
    ensures
        ({
            let t = run(s, head_passes(p, c), 1);
            let x = s[MoeBuf::FinalX];
            &&& t[MoeBuf::TokenOut] == token(p, x)
            &&& t[MoeBuf::Logits] == bounded(
                p,
                p.d.vocab as int,
                logits(p, 0, 0, p.d.vocab as int, x),
            )
        }),
{
    let row = logit_row(p, c, MoeBuf::FinalX, 0, MoeBuf::LogitsBf16, 0);
    let n = c.len() as int;
    lemma_logit_row(s, p, c, MoeBuf::FinalX, 0, MoeBuf::LogitsBf16, 0, n, 1);
    assert(row.take(n) =~= row);
    assert(rows_upto(c, n) == p.d.vocab) by {
        assert(c[n - 1].n_rows > 0);
    }
    let all = head_passes(p, c);
    let tail = seq![all[n], all[n + 1], all[n + 2]];
    assert(all =~= row + tail);
    lemma_run_cat(s, row, tail, 1);
    let h = run(s, row, 1);
    lemma_run3(h, all[n], all[n + 1], all[n + 2], 1);
    lemma_head_tail(h, p, c);
}

/// The bound and the choice of a decode row.
proof fn lemma_head_tail(h: State, p: MoePlan, c: Seq<HeadChunk>)
    requires
        plan_fits(p),
    ensures
        ({
            let n = c.len() as int;
            let all = head_passes(p, c);
            let t = step(step(step(h, all[n], 1), all[n + 1], 1), all[n + 2], 1);
            let l = h[MoeBuf::LogitsBf16];
            &&& t[MoeBuf::TokenOut] == of1(Op::Token { n: p.d.vocab as u32, rows: 1 }, l)
            &&& t[MoeBuf::Logits] == bounded(p, p.d.vocab as int, l)
        }),
{
    let n = c.len() as int;
    let all = head_passes(p, c);
    let l = h[MoeBuf::LogitsBf16];
    lemma_edge_kernels();
    let h1 = step(h, all[n], 1);
    assert(h1 == h.insert(MoeBuf::Logits, bounded(p, p.d.vocab as int, l))) by {
        reveal(step);
    }
    let best = of1(Op::Best { n: p.d.vocab as u32, rows: 1 }, l);
    let h2 = step(h1, all[n + 1], 1);
    assert(h2 == h1.insert(MoeBuf::ArgVal, best).insert(MoeBuf::ArgIdx, best)) by {
        reveal(step);
    }
    let tok = of1(Op::Token { n: p.d.vocab as u32, rows: 1 }, l);
    assert(step(h2, all[n + 2], 1) == h2.insert(MoeBuf::TokenOut, tok)) by {
        reveal(step);
    }
}

/// The tokens that the normed residuals of a chunk's first rows are turned into.
pub open spec fn row_tokens(p: MoePlan, rows: int, x: Val) -> Val {
    of1(
        Op::Token { n: p.d.vocab as u32, rows: rows as u32 },
        row_logits(p, rows, x),
    )
}

/// The logits of the first `rows` rows.
pub open spec fn row_logits(p: MoePlan, rows: int, x: Val) -> Val {
    logits(
        p,
        (rows - 1) * (p.d.hidden as int / 2),
        (rows - 1) * (p.d.vocab as int / 2),
        p.d.vocab as int,
        x,
    )
}

proof fn lemma_verify_logits(s: State, p: MoePlan, c: Seq<HeadChunk>, rows: int, m: int)
    requires
        plan_fits(p),
        in_order(c, p.d.vocab),
        p.sw.i8_head is None,
        table_holds(s, c, false),
        0 < rows,
        rows * p.d.hidden <= u32::MAX,
        (rows + 1) * p.d.vocab <= u32::MAX,
    ensures
        run(s, verify_logits(p, c, rows), m) == s.insert(
            MoeBuf::VerifyLogitsBf16,
            row_logits(p, rows, s[MoeBuf::VerifyNormed]),
        ),
    decreases rows,
{
    let r = rows - 1;
    let hw = p.d.hidden as int / 2;
    let vw = p.d.vocab as int / 2;
    let x = MoeBuf::VerifyNormed;
    let y = MoeBuf::VerifyLogitsBf16;
    let before = verify_logits(p, c, r);
    let row = logit_row(p, c, x, r * hw, y, r * vw);
    let n = c.len() as int;
    assert(row.take(n) =~= row);
    assert(rows_upto(c, n) == p.d.vocab) by {
        assert(c[n - 1].n_rows > 0);
    }
    assert(0 <= r * hw <= rows * p.d.hidden && 0 <= r * vw && r * vw + p.d.vocab <= (rows + 1)
        * p.d.vocab && r * p.d.hidden <= rows * p.d.hidden && (r + 1) * p.d.vocab <= (rows + 1)
        * p.d.vocab) by (nonlinear_arith)
        requires
            0 <= r,
            rows == r + 1,
            0 <= hw <= p.d.hidden,
            0 <= vw <= p.d.vocab,
    ;
    assert(r * hw - hw == (r - 1) * hw && r * vw - vw == (r - 1) * vw) by (nonlinear_arith);
    assert(0 * hw == 0 && 0 * vw == 0) by (nonlinear_arith);
    lemma_run_cat(s, before, row, m);
    if r > 0 {
        lemma_verify_logits(s, p, c, r, m);
    } else {
        assert(before =~= Seq::<MoeModel>::empty());
    }
    let h = run(s, before, m);
    lemma_logit_row(h, p, c, x, r * hw, y, r * vw, n, m);
    let v = row_logits(p, rows, s[x]);
    assert(h.insert(y, v) =~= s.insert(y, v));
}

/// The verify epilogue turns the residuals of a chunk's first rows, normed, into a token each.
pub proof fn law_verify(s: State, p: MoePlan, c: Seq<HeadChunk>, rows: int)
    requires
        plan_fits(p),
        in_order(c, p.d.vocab),
        p.sw.i8_head is None,
        table_holds(s, c, false),
        0 < rows,
        rows * p.d.hidden <= u32::MAX,
        (rows + 1) * p.d.vocab <= u32::MAX,
    ensures
        ({
            let t = run(s, verify_passes(p, c, rows), rows);
            let r = s[res_in(p.d.n_layers as int, true)];
            let x = normed(r, s[MoeBuf::FinalLn], p.d.hidden as u32, p.f.eps);
            &&& t[MoeBuf::VerifyTokens] == row_tokens(p, rows, x)
            &&& t[MoeBuf::VerifyLogits] == bounded(p, rows * p.d.vocab, row_logits(p, rows, x))
        }),
{
    let all = verify_passes(p, c, rows);
    let mid = verify_logits(p, c, rows);
    let k = mid.len() as int;
    assert(rows <= rows * p.d.hidden) by (nonlinear_arith)
        requires
            0 < rows,
            0 < p.d.hidden,
    ;
    assert(0 <= rows * p.d.vocab <= (rows + 1) * p.d.vocab) by (nonlinear_arith)
        requires
            0 < rows,
            0 <= p.d.vocab,
    ;
    let head = seq![all[0]];
    let tail = seq![all[k + 1], all[k + 2], all[k + 3]];
    assert(all =~= head + mid + tail);
    lemma_run_cat(s, head + mid, tail, rows);
    lemma_run_cat(s, head, mid, rows);
    lemma_run1(s, all[0], rows);
    step_pf_norm(
        s,
        p,
        "g4m-verify-final-rms"@,
        res_in(p.d.n_layers as int, true),
        MoeBuf::FinalLn,
        MoeBuf::VerifyNormed,
        rows,
    );
    let h = run(s, head, rows);
    lemma_verify_logits(h, p, c, rows, rows);
    let h2 = run(h, mid, rows);
    lemma_run3(h2, all[k + 1], all[k + 2], all[k + 3], rows);
    lemma_verify_tail(h2, p, c, rows, k);
}

/// The bound and the choice of a chunk's first rows.
proof fn lemma_verify_tail(h: State, p: MoePlan, c: Seq<HeadChunk>, rows: int, k: int)
    requires
        plan_fits(p),
        k == verify_logits(p, c, rows).len(),
        0 < rows <= u32::MAX,
        0 <= rows * p.d.vocab <= u32::MAX,
    ensures
        ({
            let all = verify_passes(p, c, rows);
            let t = step(step(step(h, all[k + 1], rows), all[k + 2], rows), all[k + 3], rows);
            let l = h[MoeBuf::VerifyLogitsBf16];
            &&& t[MoeBuf::VerifyTokens] == of1(
                Op::Token { n: p.d.vocab as u32, rows: rows as u32 },
                l,
            )
            &&& t[MoeBuf::VerifyLogits] == bounded(p, rows * p.d.vocab, l)
        }),
{
    let all = verify_passes(p, c, rows);
    let l = h[MoeBuf::VerifyLogitsBf16];
    lemma_edge_kernels();
    let h1 = step(h, all[k + 1], rows);
    assert(h1 == h.insert(MoeBuf::VerifyLogits, bounded(p, rows * p.d.vocab, l))) by {
        reveal(step);
    }
    let best = of1(Op::Best { n: p.d.vocab as u32, rows: rows as u32 }, l);
    let h2 = step(h1, all[k + 2], rows);
    assert(h2 == h1.insert(MoeBuf::VerifyArgVal, best).insert(MoeBuf::VerifyArgIdx, best)) by {
        reveal(step);
    }
    let tok = of1(Op::Token { n: p.d.vocab as u32, rows: rows as u32 }, l);
    assert(step(h2, all[k + 3], rows) == h2.insert(MoeBuf::VerifyTokens, tok)) by {
        reveal(step);
    }
}

proof fn step_pf_gather(h: State, p: MoePlan, c: HeadChunk)
    requires
        plan_fits(p),
        c.row_off + c.n_rows <= p.d.vocab,
        p.d.m <= u32::MAX,
    ensures
        step(h, pf_gather_pass(p, c), p.d.m as int) == h.insert(
            pf(PfBuf::ResA),
            found_more(
                h[pf(PfBuf::ResA)],
                h[pf(PfBuf::Tok)],
                h[MoeBuf::EmbedChunk(c.index)],
                c.row_off as u32,
                c.n_rows as u32,
                (p.d.hidden as int / 2) as u32,
                p.d.vocab as u32,
                p.f.embed_scale,
            ),
        ),
{
    lemma_edge_kernels();
    reveal(step);
}

proof fn step_splice(h: State, p: MoePlan)
    requires
        plan_fits(p),
        p.d.m <= u32::MAX,
    ensures
        step(h, splice_pass(p), p.d.m as int) == h.insert(
            pf(PfBuf::ResA),
            of3(
                Op::Spliced { words: (p.d.hidden as int / 2) as u32 },
                h[pf(PfBuf::ResA)],
                h[pf(PfBuf::SpliceRows)],
                h[pf(PfBuf::SpliceMask)],
            ),
        ),
{
    lemma_edge_kernels();
    reveal(step);
}

proof fn lemma_pf_gathers(s: State, p: MoePlan, c: Seq<HeadChunk>, n: int)
    requires
        plan_fits(p),
        p.d.m <= u32::MAX,
        in_order(c, p.d.vocab),
        table_holds(s, c, false),
        0 < n <= c.len(),
    ensures
        run(s, pf_gathers(p, c).take(n), p.d.m as int) == s.insert(
            pf(PfBuf::ResA),
            embedded(p, rows_upto(c, n), s[pf(PfBuf::Tok)]),
        ),
    decreases n,
{
    let m = p.d.m as int;
    let i = n - 1;
    let ps = pf_gathers(p, c);
    let before = ps.take(i);
    assert(ps.take(n) =~= before.push(pf_gather_pass(p, c[i])));
    lemma_run_push(s, before, pf_gather_pass(p, c[i]), m);
    if i > 0 {
        lemma_pf_gathers(s, p, c, i);
        assert(c[i - 1].n_rows > 0);
    } else {
        assert(before =~= Seq::<MoeModel>::empty());
    }
    let h = run(s, before, m);
    assert(s[chunk_buf(c[i], false)] == Val::Rows {
        from: c[i].row_off as int,
        n: c[i].n_rows as int,
    });
    step_pf_gather(h, p, c[i]);
    let v = embedded(p, rows_upto(c, n), s[pf(PfBuf::Tok)]);
    assert(h.insert(pf(PfBuf::ResA), v) =~= s.insert(pf(PfBuf::ResA), v));
}

/// What the layers make of a row: the first `n` of them, one after the other.
pub open spec fn stream(s: State, start: MoeStart, n: int, x: Val, pos: Val, chunk: bool) -> Val
    decreases n,
{
    if n <= 0 {
        x
    } else {
        let l = start.layer(n - 1);
        layer_value(
            s,
            start.plan(),
            l,
            stream(s, start, n - 1, x, pos, chunk),
            pos,
            !chunk && takes_flash(start.plan(), l.kind),
        )
    }
}

/// The sizes of all layers fit, and the device holds the constants that they read.
pub open spec fn ready(s: State, start: MoeStart) -> bool {
    forall|i: int|
        0 <= i < start.config.base.num_hidden_layers ==> {
            let l = #[trigger] start.layer(i);
            &&& sized(start.plan(), l)
            &&& stacks_hold(s, start.plan(), l)
            &&& s[l.buf(LayerBuf::MoeOnes)] == Val::Ones
        }
}

/// What the first `n` layers do not write: the buffers of the others, and whatever is neither a
/// layer's nor the residual.
pub open spec fn beyond(b: MoeBuf, n: int) -> bool {
    match b {
        MoeBuf::Layer(li, _) => li >= n,
        MoeBuf::Pf(q) => q == PfBuf::Tok || q == PfBuf::Pos || q == PfBuf::SpliceRows || q
            == PfBuf::SpliceMask,
        MoeBuf::ResA | MoeBuf::ResB | MoeBuf::Normed => false,
        _ => true,
    }
}

/// A layer's value rests on the layer's own buffers and the shared tables alone.
proof fn lemma_same_layer(t: State, s: State, start: MoeStart, n: int, x: Val, pos: Val, parts: bool)
    requires
        forall|b: MoeBuf| beyond(b, n) ==> #[trigger] t[b] == s[b],
        0 <= n < start.config.base.num_hidden_layers,
    ensures
        layer_value(t, start.plan(), start.layer(n), x, pos, parts) == layer_value(
            s,
            start.plan(),
            start.layer(n),
            x,
            pos,
            parts,
        ),
        stacks_hold(s, start.plan(), start.layer(n)) ==> stacks_hold(
            t,
            start.plan(),
            start.layer(n),
        ),
{
    let l = start.layer(n);
    assert(l.li == n);
    assert forall|b: LayerBuf| t[#[trigger] l.buf(b)] == s[l.buf(b)] by {
        assert(beyond(l.buf(b), n));
    }
    assert(t[MoeBuf::RopeCos(l.rope)] == s[MoeBuf::RopeCos(l.rope)]);
    assert(t[MoeBuf::RopeSin(l.rope)] == s[MoeBuf::RopeSin(l.rope)]);
    assert(t[MoeBuf::Flash(true)] == s[MoeBuf::Flash(true)]);
    assert(t[MoeBuf::Flash(false)] == s[MoeBuf::Flash(false)]);
}

/// The layers of a decode row, one after the other.
pub proof fn law_layers(s: State, start: MoeStart, n: int)
    requires
        ready(s, start),
        0 <= n <= start.config.base.num_hidden_layers,
    ensures
        ({
            let t = run(s, start.layers(n), 1);
            &&& t[res_in(n, false)] == stream(
                s,
                start,
                n,
                s[MoeBuf::ResA],
                s[MoeBuf::Pos],
                false,
            )
            &&& forall|b: MoeBuf| beyond(b, n) ==> #[trigger] t[b] == s[b]
        }),
    decreases n,
{
    if n > 0 {
        let k = n - 1;
        let p = start.plan();
        let l = start.layer(k);
        law_layers(s, start, k);
        let h = run(s, start.layers(k), 1);
        lemma_run_cat(s, start.layers(k), layer_passes(p, l), 1);
        lemma_same_layer(
            h,
            s,
            start,
            k,
            h[res_in(k, false)],
            s[MoeBuf::Pos],
            takes_flash(p, l.kind),
        );
        assert(beyond(l.buf(LayerBuf::MoeOnes), k));
        assert(beyond(MoeBuf::Pos, k));
        law_layer(h, p, l);
        let t = run(s, start.layers(n), 1);
        assert forall|b: MoeBuf| beyond(b, n) implies #[trigger] t[b] == s[b] by {
            assert(beyond(b, k));
            assert(!layer_scratch(l, b) && !cache_buf(l, b));
        }
    } else {
        assert(start.layers(0) =~= Seq::<MoeModel>::empty());
    }
}

/// The layers of a chunk, one after the other, compute for each row what they make of a decode
/// row.
pub proof fn law_pf_layers(s: State, start: MoeStart, n: int)
    requires
        ready(s, start),
        0 <= n <= start.config.base.num_hidden_layers,
    ensures
        ({
            let t = run(s, start.pf_layers(n), start.plan().d.m as int);
            &&& t[res_in(n, true)] == stream(
                s,
                start,
                n,
                s[pf(PfBuf::ResA)],
                s[pf(PfBuf::Pos)],
                true,
            )
            &&& forall|b: MoeBuf| beyond(b, n) ==> #[trigger] t[b] == s[b]
        }),
    decreases n,
{
    let m = start.plan().d.m as int;
    if n > 0 {
        let k = n - 1;
        let p = start.plan();
        let l = start.layer(k);
        law_pf_layers(s, start, k);
        let h = run(s, start.pf_layers(k), m);
        lemma_run_cat(s, start.pf_layers(k), pf_layer_passes(p, l), m);
        lemma_same_layer(h, s, start, k, h[res_in(k, true)], s[pf(PfBuf::Pos)], false);
        assert(beyond(l.buf(LayerBuf::MoeOnes), k));
        assert(beyond(pf(PfBuf::Pos), k));
        law_pf_layer(h, p, l);
        let t = run(s, start.pf_layers(n), m);
        assert forall|b: MoeBuf| beyond(b, n) implies #[trigger] t[b] == s[b] by {
            assert(beyond(b, k));
            assert(!pf_layer_scratch(b) && !cache_buf(l, b));
        }
    } else {
        assert(start.pf_layers(0) =~= Seq::<MoeModel>::empty());
    }
}

/// The token after `tok`: its embedding through all layers, normed, and the best of its logits.
pub open spec fn next_token(s: State, start: MoeStart, tok: Val) -> Val {
    let p = start.plan();
    let x = embedded(p, p.d.vocab as int, tok);
    let r = stream(s, start, p.d.n_layers as int, x, s[MoeBuf::Pos], false);
    token(p, normed(r, s[MoeBuf::FinalLn], p.d.hidden as u32, p.f.eps))
}

/// A layer's value rests on nothing that a residual or a token's row stands in.
proof fn lemma_same_stream(t: State, s: State, start: MoeStart, n: int, x: Val, pos: Val, chunk: bool)
    requires
        forall|b: MoeBuf| beyond(b, 0) ==> #[trigger] t[b] == s[b],
        0 <= n <= start.config.base.num_hidden_layers,
    ensures
        stream(t, start, n, x, pos, chunk) == stream(s, start, n, x, pos, chunk),
    decreases n,
{
    if n > 0 {
        let l = start.layer(n - 1);
        lemma_same_stream(t, s, start, n - 1, x, pos, chunk);
        assert forall|b: MoeBuf| beyond(b, n - 1) implies #[trigger] t[b] == s[b] by {
            assert(beyond(b, 0));
        }
        lemma_same_layer(
            t,
            s,
            start,
            n - 1,
            stream(s, start, n - 1, x, pos, chunk),
            pos,
            !chunk && takes_flash(start.plan(), l.kind),
        );
    }
}

proof fn lemma_ready(t: State, s: State, start: MoeStart)
    requires
        ready(s, start),
        forall|b: MoeBuf| beyond(b, 0) ==> #[trigger] t[b] == s[b],
    ensures
        ready(t, start),
{
    assert forall|i: int| 0 <= i < start.config.base.num_hidden_layers implies {
        let l = #[trigger] start.layer(i);
        &&& sized(start.plan(), l)
        &&& stacks_hold(t, start.plan(), l)
        &&& t[l.buf(LayerBuf::MoeOnes)] == Val::Ones
    } by {
        let l = start.layer(i);
        assert forall|b: MoeBuf| beyond(b, i) implies #[trigger] t[b] == s[b] by {
            assert(beyond(b, 0));
        }
        lemma_same_layer(t, s, start, i, Val::Junk, Val::Junk, false);
        assert(beyond(l.buf(LayerBuf::MoeOnes), 0));
    }
}

/// A decode step, from the token that it is given to the token that it leaves.
pub proof fn law_step(s: State, start: MoeStart)
    requires
        start.wf(),
        start.config.base.vocab_size > 0,
        plan_fits(start.plan()),
        ready(s, start),
        table_holds(s, start.chunks(), false),
        table_holds(s, start.chunks(), start.sw.i8_head is Some),
    ensures
        run(s, start.body() + head_passes(start.plan(), start.chunks()), 1)[MoeBuf::TokenOut]
            == next_token(s, start, s[MoeBuf::Tok]),
{
    let p = start.plan();
    let c = start.chunks();
    let n = p.d.n_layers as int;
    law_chunks_in_order(start);
    let g = gathers(p, c);
    let k = c.len() as int;
    assert(g.take(k) =~= g);
    lemma_gathers(s, p, c, k);
    assert(rows_upto(c, k) == p.d.vocab) by {
        assert(c[k - 1].n_rows > 0);
    }
    let h = run(s, g, 1);
    assert forall|b: MoeBuf| beyond(b, 0) implies #[trigger] h[b] == s[b] by {}
    lemma_ready(h, s, start);
    law_layers(h, start, n);
    lemma_same_stream(h, s, start, n, h[MoeBuf::ResA], s[MoeBuf::Pos], false);
    assert(beyond(MoeBuf::Pos, 0));
    let ls = start.layers(n);
    lemma_run_cat(s, g, ls, 1);
    let h1 = run(h, ls, 1);
    lemma_run_push(s, g + ls, final_norm_pass(p), 1);
    step_norm(
        h1,
        p,
        "g4m-final-rms"@,
        res_in(n, false),
        MoeBuf::FinalLn,
        MoeBuf::FinalX,
    );
    let h2 = run(s, start.body(), 1);
    assert(beyond(MoeBuf::FinalLn, n) && beyond(MoeBuf::FinalLn, 0));
    assert(h1[MoeBuf::FinalLn] == s[MoeBuf::FinalLn]);
    lemma_run_cat(s, start.body(), head_passes(p, c), 1);
    assert forall|i: int| 0 <= i < c.len() implies h2[#[trigger] chunk_buf(
        c[i],
        p.sw.i8_head is Some,
    )] == (Val::Rows { from: c[i].row_off as int, n: c[i].n_rows as int }) by {
        let b = chunk_buf(c[i], p.sw.i8_head is Some);
        assert(beyond(b, n) && beyond(b, 0));
        assert(h1[b] == h[b]);
        assert(h[b] == s[b]);
    }
    law_head(h2, p, c);
}

/// What the rows of a chunk start from: the tokens' embeddings, with the rows of images and
/// sounds put in.
pub open spec fn chunk_start(s: State, p: MoePlan) -> Val {
    of3(
        Op::Spliced { words: (p.d.hidden as int / 2) as u32 },
        embedded(p, p.d.vocab as int, s[pf(PfBuf::Tok)]),
        s[pf(PfBuf::SpliceRows)],
        s[pf(PfBuf::SpliceMask)],
    )
}

/// A chunk leaves each row's residual after all layers, the same function of the row and its
/// position as a decode step computes.
pub proof fn law_chunk(s: State, start: MoeStart)
    requires
        start.wf(),
        start.m() > 0,
        start.config.base.vocab_size > 0,
        start.config.base.num_hidden_layers > 0,
        plan_fits(start.plan()),
        ready(s, start),
        table_holds(s, start.chunks(), false),
    ensures
        ({
            let p = start.plan();
            let n = p.d.n_layers as int;
            let t = run(s, start.prefill(), p.d.m as int);
            &&& t[res_in(n, true)] == stream(
                s,
                start,
                n,
                chunk_start(s, p),
                s[pf(PfBuf::Pos)],
                true,
            )
            &&& t[MoeBuf::FinalLn] == s[MoeBuf::FinalLn]
            &&& table_holds(t, start.chunks(), false)
        }),
{
    let p = start.plan();
    let c = start.chunks();
    let n = p.d.n_layers as int;
    let m = p.d.m as int;
    assert(sized(p, start.layer(0)));
    law_chunks_in_order(start);
    let g = pf_gathers(p, c);
    let k = c.len() as int;
    assert(g =~= g.take(k).push(splice_pass(p)));
    lemma_pf_gathers(s, p, c, k);
    lemma_run_push(s, g.take(k), splice_pass(p), m);
    step_splice(run(s, g.take(k), m), p);
    assert(rows_upto(c, k) == p.d.vocab) by {
        assert(c[k - 1].n_rows > 0);
    }
    let h = run(s, g, m);
    assert(h[pf(PfBuf::ResA)] == chunk_start(s, p));
    assert forall|b: MoeBuf| beyond(b, 0) implies #[trigger] h[b] == s[b] by {}
    lemma_ready(h, s, start);
    law_pf_layers(h, start, n);
    lemma_same_stream(h, s, start, n, h[pf(PfBuf::ResA)], s[pf(PfBuf::Pos)], true);
    assert(beyond(pf(PfBuf::Pos), 0));
    let ls = start.pf_layers(n);
    lemma_run_cat(s, g, ls, m);
    let t = run(s, start.prefill(), m);
    assert(beyond(MoeBuf::FinalLn, n) && beyond(MoeBuf::FinalLn, 0));
    assert(h[MoeBuf::FinalLn] == s[MoeBuf::FinalLn]);
    assert forall|i: int| 0 <= i < c.len() implies t[#[trigger] chunk_buf(c[i], false)] == (
    Val::Rows { from: c[i].row_off as int, n: c[i].n_rows as int }) by {
        let b = chunk_buf(c[i], false);
        assert(beyond(b, n) && beyond(b, 0));
        assert(t[b] == h[b]);
        assert(h[b] == s[b]);
    }
}

/// The verify epilogue, run after a chunk, makes each row's token of the row's residual after
/// all layers.
pub proof fn law_verify_reads_chunk(s: State, start: MoeStart)
    requires
        start.wf(),
        start.has_verify(),
        start.verify_rows() > 0,
        start.config.base.vocab_size > 0,
        start.config.base.num_hidden_layers > 0,
        plan_fits(start.plan()),
        start.verify_rows() * start.plan().d.hidden <= u32::MAX,
        (start.verify_rows() + 1) * start.plan().d.vocab <= u32::MAX,
        ready(s, start),
        table_holds(s, start.chunks(), false),
    ensures
        ({
            let p = start.plan();
            let n = p.d.n_layers as int;
            let rows = start.verify_rows();
            let after = run(s, start.prefill(), p.d.m as int);
            let t = run(after, verify_passes(p, start.chunks(), rows), rows);
            let r = stream(s, start, n, chunk_start(s, p), s[pf(PfBuf::Pos)], true);
            t[MoeBuf::VerifyTokens] == row_tokens(
                p,
                rows,
                normed(r, s[MoeBuf::FinalLn], p.d.hidden as u32, p.f.eps),
            )
        }),
{
    law_chunk(s, start);
    law_chunks_in_order(start);
    let p = start.plan();
    law_verify(run(s, start.prefill(), p.d.m as int), p, start.chunks(), start.verify_rows());
}

} // verus!
