//! What an adapter adds to the products of an E4B layer.
use vstd::prelude::*;
use crate::e4b_emit::{Limits, Lists};
use crate::e4b_ir::{Buf, LoraKind, PassModel};
use crate::e4b_layer::{lora_site_of, LayerEmit, LayerLora};
use crate::e4b_lora::{fused_params, total};
use crate::e4b_values::{held, lemma_held_pushed, step, Op, State, Val};

verus! {

/// The columns of the first `n` segments beside each other.
pub open spec fn wide(raw: Seq<Val>, widths: Seq<usize>, n: int) -> Val
    decreases n,
{
    if n <= 0 {
        Val::Junk
    } else {
        let op = Op::Beside {
            at: total(widths.take(n - 1)) as u32,
            width: widths[n - 1] as u32,
            row: total(widths) as u32,
        };
        if n == 1 {
            Val::Of(op, seq![raw[0]])
        } else {
            Val::Of(op, seq![wide(raw, widths, n - 1), raw[n - 1]])
        }
    }
}

/// Segment `j` of a product after the adapter's own product of `x` was added to all of them.
pub open spec fn adapted(
    s: State,
    a: LayerEmit,
    lora: Option<LayerLora<'_>>,
    kind: LoraKind,
    x: Val,
    raw: Seq<Val>,
    j: int,
) -> Val {
    match lora_site_of(lora, kind) {
        None => raw[j],
        Some(site) => {
            let all = Val::Of(
                Op::Adapt { by: fused_params(*lora->0.meta, site, a.m as int) },
                seq![
                    wide(raw, site.segs@, raw.len() as int),
                    x,
                    s[Buf::LoraA(a.li, kind)],
                    s[Buf::LoraB(a.li, kind)],
                    s[Buf::LoraMeta(a.prefill, a.li, kind)],
                ],
            );
            columns(site.segs@, all, j)
        },
    }
}

pub open spec fn columns(widths: Seq<usize>, all: Val, j: int) -> Val {
    Val::Of(
        Op::Columns {
            at: total(widths.take(j)) as u32,
            width: widths[j] as u32,
            row: total(widths) as u32,
        },
        seq![all],
    )
}

/// The segments of a site are as many as the buffers they are added to, and fit the kernels.
pub open spec fn site_fits(lora: Option<LayerLora<'_>>, kind: LoraKind, n: int) -> bool {
    lora_site_of(lora, kind) matches Some(site) ==> {
        &&& site.segs@.len() == n
        &&& total(site.segs@) <= u32::MAX
        &&& forall|j: int| 0 <= j < n ==> #[trigger] site.segs@[j] > 0
    }
}

proof fn lemma_total_take(w: Seq<usize>, n: int)
    requires
        0 <= n < w.len(),
    ensures
        total(w.take(n + 1)) == total(w.take(n)) + w[n],
        total(w.take(n + 1)) <= total(w),
        0 <= total(w.take(n)),
    decreases w.len() - n,
{
    assert(w.take(n + 1).drop_last() =~= w.take(n));
    lemma_total_pos(w.take(n));
    if n + 1 < w.len() {
        lemma_total_take(w, n + 1);
    } else {
        assert(w.take(n + 1) =~= w);
    }
}

proof fn lemma_total_pos(w: Seq<usize>)
    ensures
        0 <= total(w),
    decreases w.len(),
{
    if w.len() > 0 {
        lemma_total_pos(w.drop_last());
    }
}

/// The pass that was appended last.
pub open spec fn newest(l: Lists) -> PassModel {
    crate::e4b_caches::target_list(l).last()
}

proof fn lemma_widen(
    s: State,
    l: Lists,
    m: int,
    scratch: Buf,
    widths: Seq<usize>,
    segs: Seq<Buf>,
    raw: Seq<Val>,
    n: int,
)
    requires
        0 <= n <= widths.len(),
        segs.len() == widths.len(),
        raw.len() == widths.len(),
        total(widths) <= u32::MAX,
        forall|j: int| 0 <= j < widths.len() ==> #[trigger] widths[j] > 0,
        forall|j: int| 0 <= j < segs.len() ==> #[trigger] segs[j] != scratch,
        forall|j: int| 0 <= j < segs.len() ==> held(s, l, m)[#[trigger] segs[j]] == raw[j],
    ensures
        ({
            let h = held(s, l, m);
            let u = l.lora_cvt(true, scratch, m, widths, segs, n);
            let t = held(s, u, m);
            &&& u.target == l.target
            &&& n > 0 ==> t[scratch] == wide(raw, widths, n)
            &&& forall|b: Buf| b != scratch ==> #[trigger] t[b] == h[b]
        }),
    decreases n,
{
    if n > 0 {
        let i = n - 1;
        lemma_widen(s, l, m, scratch, widths, segs, raw, i);
        let before = l.lora_cvt(true, scratch, m, widths, segs, i);
        let after = l.lora_cvt(true, scratch, m, widths, segs, n);
        let p = newest(after);
        lemma_held_pushed(s, before, m, p.pipe, p.binds, p.grid);
        assert(after == before.pushed(p.pipe, p.binds, p.grid));
        lemma_total_take(widths, i);
        if i > 0 {
            lemma_total_take(widths, i - 1);
            assert(widths[i - 1] > 0);
        } else {
            assert(widths.take(0) =~= Seq::<usize>::empty());
        }
        assert(segs[i] != scratch);
        assert(held(s, before, m)[segs[i]] == raw[i]);
        reveal(step);
    }
}

proof fn lemma_repack(
    s: State,
    l: Lists,
    m: int,
    scratch: Buf,
    widths: Seq<usize>,
    segs: Seq<Buf>,
    n: int,
)
    requires
        0 <= n <= widths.len(),
        segs.len() == widths.len(),
        segs.no_duplicates(),
        forall|j: int| 0 <= j < segs.len() ==> #[trigger] segs[j] != scratch,
    ensures
        ({
            let h = held(s, l, m);
            let u = l.lora_cvt(false, scratch, m, widths, segs, n);
            let t = held(s, u, m);
            &&& u.target == l.target
            &&& forall|j: int|
                0 <= j < n ==> t[#[trigger] segs[j]] == columns(widths, h[scratch], j)
            &&& forall|b: Buf| !segs.contains(b) ==> #[trigger] t[b] == h[b]
            &&& forall|j: int| n <= j < segs.len() ==> t[#[trigger] segs[j]] == h[segs[j]]
        }),
    decreases n,
{
    if n > 0 {
        let i = n - 1;
        lemma_repack(s, l, m, scratch, widths, segs, i);
        let before = l.lora_cvt(false, scratch, m, widths, segs, i);
        let after = l.lora_cvt(false, scratch, m, widths, segs, n);
        let p = newest(after);
        lemma_held_pushed(s, before, m, p.pipe, p.binds, p.grid);
        assert(after == before.pushed(p.pipe, p.binds, p.grid));
        assert(!segs.contains(scratch));
        assert(segs[i] != scratch);
        assert(segs.contains(segs[i]));
        let h1 = held(s, before, m);
        assert(held(s, after, m) == h1.insert(segs[i], columns(widths, h1[scratch], i))) by {
            reveal(step);
        }
    }
}

/// The adapter of a site adds its product to every segment.
pub proof fn lemma_lora(
    s: State,
    l: Lists,
    lim: Limits,
    a: LayerEmit,
    lora: Option<LayerLora<'_>>,
    kind: LoraKind,
    x: Buf,
    segs: Seq<Buf>,
    raw: Seq<Val>,
)
    requires
        site_fits(lora, kind, segs.len() as int),
        segs.no_duplicates(),
        segs.len() > 0,
        raw.len() == segs.len(),
        x is Work,
        forall|j: int| 0 <= j < segs.len() ==> #[trigger] segs[j] is Work && segs[j] != x,
        forall|j: int|
            0 <= j < segs.len() ==> held(s, l, a.m as int)[#[trigger] segs[j]] == raw[j],
    ensures
        ({
            let h = held(s, l, a.m as int);
            let u = l.lora(lim, a, lora, kind, x, segs);
            let t = held(s, u, a.m as int);
            &&& u.target == l.target
            &&& forall|j: int|
                0 <= j < segs.len() ==> t[#[trigger] segs[j]] == adapted(
                    h,
                    a,
                    lora,
                    kind,
                    h[x],
                    raw,
                    j,
                )
            &&& forall|b: Buf|
                !segs.contains(b) && b != Buf::LoraScratch(a.prefill) ==> #[trigger] t[b] == h[b]
        }),
{
    let m = a.m as int;
    match lora_site_of(lora, kind) {
        None => {},
        Some(site) => {
            let scratch = Buf::LoraScratch(a.prefill);
            let n = segs.len() as int;
            let widths = site.segs@;
            let meta = *lora->0.meta;
            let h = held(s, l, m);
            lemma_widen(s, l, m, scratch, widths, segs, raw, n);
            let l1 = l.lora_cvt(true, scratch, m, widths, segs, n);
            let h1 = held(s, l1, m);
            let l2 = l1.pushed(
                crate::e4b_ir::Pipe::LoraFused,
                seq![
                    crate::e4b_ir::at(0, x, 0),
                    crate::e4b_ir::at(1, Buf::LoraA(a.li, kind), 0),
                    crate::e4b_ir::at(2, Buf::LoraB(a.li, kind), 0),
                    crate::e4b_ir::at(3, scratch, 0),
                    crate::e4b_ir::at(4, Buf::LoraMeta(a.prefill, a.li, kind), 0),
                    crate::e4b_ir::param(5, fused_params(meta, site, m)),
                ],
                crate::e4b_lora::fused_grid(lim, meta, site, m),
            );
            let p = newest(l2);
            lemma_held_pushed(s, l1, m, p.pipe, p.binds, p.grid);
            let all = Val::Of(
                Op::Adapt { by: fused_params(meta, site, m) },
                seq![
                    wide(raw, widths, n),
                    h[x],
                    h[Buf::LoraA(a.li, kind)],
                    h[Buf::LoraB(a.li, kind)],
                    h[Buf::LoraMeta(a.prefill, a.li, kind)],
                ],
            );
            assert(held(s, l2, m) == h1.insert(scratch, all)) by {
                reveal(step);
            }
            lemma_repack(s, l2, m, scratch, widths, segs, n);
            assert(l.lora(lim, a, lora, kind, x, segs) == l2.lora_cvt(
                false,
                scratch,
                m,
                widths,
                segs,
                n,
            ));
        },
    }
}

} // verus!
