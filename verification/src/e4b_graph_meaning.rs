//! What an E4B graph computes as a whole: each of its lists runs the layers of the model one
//! after the other, and the head reads what the last one left.
use vstd::prelude::*;
use crate::e4b_caches::{law_caches_written_once, law_layer_writes};
use crate::e4b_emit::{Lists, Target};
use crate::e4b_head::final_hid;
use crate::e4b_head_meaning::{chunk_of, law_head, table_holds, token};
use crate::e4b_host::{one_more, HostBuild};
use crate::e4b_ir::{Buf, KvPart, Norm};
use crate::e4b_layer::LayerEmit;
use crate::e4b_layer_meaning::{
    adapters_fit, constant, input_ready, law_layer, layer_done, layer_work, row_norm,
    shapes_hold, sized,
};
use crate::e4b_values::{held, run, State};
use crate::e4b_weights::Tally;

verus! {

/// The lists after the first `n` layers.
pub open spec fn lists_at(h: HostBuild, n: int) -> Lists {
    h.after(n)->Ok_0.0
}

/// Layer `i` as the decode list (`false`) or the prefill list (`true`) holds it.
pub open spec fn layer_at(h: HostBuild, i: int, prefill: bool) -> LayerEmit {
    let p = h.layer(i).all_placed(i as usize, h.after(i)->Ok_0.1)->Ok_0.0;
    h.layer(i).emit(
        i as usize,
        p,
        prefill,
        if prefill {
            h.prefill_m
        } else {
            1
        },
    )
}

/// What the buffers hold after the first `n` layers of the decode or the prefill list.
pub open spec fn state_at(h: HostBuild, s: State, n: int, prefill: bool) -> State {
    if prefill {
        run(s, lists_at(h, n).prefill, h.prefill_m as int)
    } else {
        run(s, lists_at(h, n).decode, 1)
    }
}

/// The sizes of the first `n` layers fit, and the device holds the extents of their matrices.
pub open spec fn layers_fit(h: HostBuild, s: State, n: int, prefill: bool) -> bool {
    forall|i: int|
        0 <= i < n ==> {
            let a = #[trigger] layer_at(h, i, prefill);
            &&& sized(h.start().cfg(), a)
            &&& adapters_fit(a, h.layer(i).adapter(prefill))
            &&& shapes_hold(s, a)
        }
}

proof fn lemma_earlier(h: HostBuild, n: int, k: int)
    requires
        0 <= k <= n,
        h.after(n) is Ok,
    ensures
        h.after(k) is Ok,
    decreases n,
{
    reveal_with_fuel(HostBuild::after, 2);
    if k < n {
        lemma_earlier(h, n - 1, k);
    }
}

/// What one more layer does to the lists.
pub open spec fn extended(h: HostBuild, s: Lists, t: Lists, i: int, one: LayerEmit, rows: LayerEmit) -> bool {
    let cfg = h.start().cfg();
    let l = h.layer(i);
    let d = s.layer(*h.kit, cfg, one, l.adapter(false));
    &&& t.decode == d.decode
    &&& h.prefill_m > 0 ==> t.prefill == d.retarget(Target::Prefill).layer(
        *h.kit,
        cfg,
        rows,
        l.adapter(true),
    ).prefill
    &&& d.prefill == s.prefill
    &&& d.retarget(Target::Prefill).layer(*h.kit, cfg, rows, l.adapter(true)).target
        == Target::Prefill
}

proof fn lemma_extended(h: HostBuild, s: Lists, t: Tally, i: int)
    requires
        0 <= i < h.config.num_hidden_layers,
        s.target == Target::Decode,
        one_more(h.layer(i), h.start().cfg(), i as usize, (s, t), h.prefill_m) is Ok,
    ensures
        ({
            let p = h.layer(i).all_placed(i as usize, t)->Ok_0.0;
            extended(
                h,
                s,
                one_more(h.layer(i), h.start().cfg(), i as usize, (s, t), h.prefill_m)->Ok_0.0,
                i,
                h.layer(i).emit(i as usize, p, false, 1),
                h.layer(i).emit(i as usize, p, true, h.prefill_m),
            )
        }),
        h.layer(i).hl.kv_source == h.config.kv_sources@[i],
        h.layer(i).kv_layer(i as usize) < h.config.num_hidden_layers,
        h.config.kv_sources@[h.layer(i).kv_layer(i as usize) as int] is None,
{
    reveal(one_more);
    let l = h.layer(i);
    let li = i as usize;
    let cfg = h.start().cfg();
    let m = h.prefill_m;
    assert(l.error(cfg, li, t, m) is None);
    assert(l.shape_defect(li) is None);
    let p = l.all_placed(li, t)->Ok_0.0;
    let one = l.emit(li, p, false, 1);
    let rows = l.emit(li, p, true, m);
    law_layer_writes(s, *l.kit, cfg, one, l.adapter(false));
    let d = s.layer(*l.kit, cfg, one, l.adapter(false));
    let a = d.retarget(Target::Prefill);
    law_layer_writes(a, *l.kit, cfg, rows, l.adapter(true));
    let b = a.layer(*l.kit, cfg, rows, l.adapter(true)).retarget(Target::Verify);
    law_layer_writes(b, *l.kit, cfg, rows, l.adapter(true));
}

/// One more layer of a graph that can be built extends each list by the layer's passes.
proof fn lemma_one_more(h: HostBuild, i: int)
    requires
        0 <= i < h.config.num_hidden_layers,
        h.after(i + 1) is Ok,
    ensures
        h.after(i) is Ok,
        lists_at(h, i).target == Target::Decode,
        extended(
            h,
            lists_at(h, i),
            lists_at(h, i + 1),
            i,
            layer_at(h, i, false),
            layer_at(h, i, true),
        ),
        h.layer(i).hl.kv_source == h.config.kv_sources@[i],
        h.layer(i).kv_layer(i as usize) < h.config.num_hidden_layers,
        h.config.kv_sources@[h.layer(i).kv_layer(i as usize) as int] is None,
{
    lemma_earlier(h, i + 1, i);
    law_caches_written_once(h, i);
    let so_far = h.after(i)->Ok_0;
    assert(h.after(i + 1) == one_more(
        h.layer(i),
        h.start().cfg(),
        i as usize,
        so_far,
        h.prefill_m,
    )) by {
        reveal_with_fuel(HostBuild::after, 2);
    }
    lemma_extended(h, so_far.0, so_far.1, i);
}

/// A layer that has no cache of its own attends over the one that its source layer writes.
pub proof fn law_shared_cache(h: HostBuild, n: int, i: int, j: int, prefill: bool, part: KvPart)
    requires
        0 <= i < n,
        0 <= j < n,
        n <= h.config.num_hidden_layers,
        h.after(n) is Ok,
        h.config.kv_sources@[i] == Some(j as usize),
    ensures
        layer_at(h, i, prefill).shared is Some,
        layer_at(h, j, prefill).shared is None,
        layer_at(h, i, prefill).cache(part) == layer_at(h, j, prefill).cache(part),
        layer_at(h, j, prefill).cache(part) == Buf::Kv(j as usize, part),
{
    lemma_earlier(h, n, i + 1);
    lemma_earlier(h, n, j + 1);
    lemma_one_more(h, i);
    lemma_one_more(h, j);
}

/// A constant is what it was before the layer.
proof fn lemma_constants(t: State, s: State, a: LayerEmit)
    requires
        forall|b: Buf|
            !layer_work(a, b) && (a.shared is Some || forall|part: KvPart|
                b != #[trigger] a.cache(part)) ==> #[trigger] t[b] == s[b],
    ensures
        forall|b: Buf| constant(b) ==> #[trigger] t[b] == s[b],
{
    assert forall|b: Buf| constant(b) implies #[trigger] t[b] == s[b] by {
        assert forall|part: KvPart| b != #[trigger] a.cache(part) by {}
    }
}

/// What holds before layer `i` of a list: the constants are as they were at first, and the
/// layer's normed input stands ready where it has to.
pub open spec fn at_layer(h: HostBuild, s: State, i: int, prefill: bool) -> bool {
    let before = state_at(h, s, i, prefill);
    &&& forall|b: Buf| constant(b) ==> #[trigger] before[b] == state_at(h, s, 0, prefill)[b]
    &&& i < h.config.num_hidden_layers ==> input_ready(
        before,
        *h.kit,
        h.start().cfg(),
        layer_at(h, i, prefill),
    )
}

proof fn lemma_layer_at(h: HostBuild, s: State, i: int, prefill: bool)
    requires
        0 <= i < h.config.num_hidden_layers,
        prefill ==> h.prefill_m > 1 && h.kit.lim.slab_rows > 0,
        h.after(i + 1) is Ok,
        sized(h.start().cfg(), layer_at(h, i, prefill)),
        adapters_fit(layer_at(h, i, prefill), h.layer(i).adapter(prefill)),
        shapes_hold(state_at(h, s, 0, prefill), layer_at(h, i, prefill)),
        at_layer(h, s, i, prefill),
    ensures
        layer_done(
            state_at(h, s, i + 1, prefill),
            state_at(h, s, i, prefill),
            *h.kit,
            h.start().cfg(),
            layer_at(h, i, prefill),
            h.layer(i).adapter(prefill),
        ),
        forall|b: Buf|
            constant(b) ==> #[trigger] state_at(h, s, i + 1, prefill)[b] == state_at(
                h,
                s,
                i,
                prefill,
            )[b],
{
    let cfg = h.start().cfg();
    let kit = *h.kit;
    let a = layer_at(h, i, prefill);
    let before = state_at(h, s, i, prefill);
    let lora = h.layer(i).adapter(prefill);
    lemma_one_more(h, i);
    let d = lists_at(h, i).layer(kit, cfg, layer_at(h, i, false), h.layer(i).adapter(false));
    let l = if prefill {
        d.retarget(Target::Prefill)
    } else {
        lists_at(h, i)
    };
    let m = a.m as int;
    assert(held(s, l, m) == before) by {
        reveal(held);
    }
    lemma_shapes(before, state_at(h, s, 0, prefill), a);
    law_layer(s, l, kit, cfg, a, lora);
    let u = l.layer(kit, cfg, a, lora);
    assert(held(s, u, m) == state_at(h, s, i + 1, prefill)) by {
        reveal(held);
    }
    lemma_constants(held(s, u, m), before, a);
}

proof fn lemma_shapes(t: State, s: State, a: LayerEmit)
    requires
        shapes_hold(s, a),
        forall|b: Buf| constant(b) ==> #[trigger] t[b] == s[b],
    ensures
        shapes_hold(t, a),
{
}

/// Where norms are joined, a layer leaves the normed input of the one that follows it.
proof fn lemma_next(h: HostBuild, s: State, i: int, prefill: bool)
    requires
        0 <= i,
        i + 1 < h.config.num_hidden_layers,
        at_layer(h, s, i, prefill),
        layer_done(
            state_at(h, s, i + 1, prefill),
            state_at(h, s, i, prefill),
            *h.kit,
            h.start().cfg(),
            layer_at(h, i, prefill),
            h.layer(i).adapter(prefill),
        ),
        forall|b: Buf|
            constant(b) ==> #[trigger] state_at(h, s, i + 1, prefill)[b] == state_at(
                h,
                s,
                i,
                prefill,
            )[b],
    ensures
        at_layer(h, s, i + 1, prefill),
{
    let a = layer_at(h, i, prefill);
    let b = layer_at(h, i + 1, prefill);
    let w = Buf::Norm(Norm::Input(b.li));
    assert(a.ln_next == Norm::Input(b.li));
    assert(a.x_out() == b.x_in());
    assert(a.fused_norms(*h.kit) == b.fused_norms(*h.kit));
    assert(constant(w));
    assert(state_at(h, s, i + 1, prefill)[w] == state_at(h, s, i, prefill)[w]);
}

/// In a graph that can be built each layer of the decode list, and of the prefill list for each
/// of its rows, computes the layer of what the layers before it left; where norms are joined,
/// its normed input stands ready.
pub proof fn law_every_layer(h: HostBuild, s: State, i: int, prefill: bool)
    requires
        0 <= i < h.config.num_hidden_layers,
        prefill ==> h.prefill_m > 1 && h.kit.lim.slab_rows > 0,
        h.after(i + 1) is Ok,
        layers_fit(h, state_at(h, s, 0, prefill), i + 1, prefill),
    ensures
        at_layer(h, s, i, prefill),
        layer_done(
            state_at(h, s, i + 1, prefill),
            state_at(h, s, i, prefill),
            *h.kit,
            h.start().cfg(),
            layer_at(h, i, prefill),
            h.layer(i).adapter(prefill),
        ),
        forall|b: Buf|
            constant(b) ==> #[trigger] state_at(h, s, i + 1, prefill)[b] == state_at(
                h,
                s,
                0,
                prefill,
            )[b],
    decreases i,
{
    let a = layer_at(h, i, prefill);
    if i > 0 {
        lemma_earlier(h, i + 1, i);
        law_every_layer(h, s, i - 1, prefill);
        lemma_next(h, s, i - 1, prefill);
    }
    lemma_layer_at(h, s, i, prefill);
}

/// A decode step of a graph that can be built leaves the token of the last layer's residual.
pub proof fn law_graph_token(h: HostBuild, s: State)
    requires
        h.config.num_hidden_layers > 0,
        h.after(h.config.num_hidden_layers as int) is Ok,
        layers_fit(h, state_at(h, s, 0, false), h.config.num_hidden_layers as int, false),
        h.embed().sound(),
        h.embed().rows <= u32::MAX,
        table_holds(state_at(h, s, 0, false), h.embed(), h.kit.pl.lmhead_i8),
    ensures
        ({
            let n = h.config.num_hidden_layers as int;
            let cfg = h.start().cfg();
            let a = layer_at(h, n - 1, false);
            let last = state_at(h, s, n, false);
            let s0 = state_at(h, s, 0, false);
            let t = run(s, h.lists().decode, 1);
            t[Buf::TokenOut] == token(
                cfg,
                h.embed(),
                h.cap,
                h.fused_head,
                row_norm(s0, cfg, a, Norm::Final, last[a.x_out()]),
            )
        }),
{
    let n = h.config.num_hidden_layers as int;
    let cfg = h.start().cfg();
    let a = layer_at(h, n - 1, false);
    let s0 = state_at(h, s, 0, false);
    let last = state_at(h, s, n, false);
    let before = state_at(h, s, n - 1, false);
    law_every_layer(h, s, n - 1, false);
    lemma_one_more(h, n - 1);
    law_caches_written_once(h, n);
    let l = lists_at(h, n);
    assert(held(s, l, 1) == last) by {
        reveal(held);
    }
    let w = Buf::Norm(Norm::Final);
    assert(last[w] == s0[w]);
    assert(before[w] == s0[w]);
    assert(a.ln_next == Norm::Final);
    assert(a.x_out() == Buf::Work(false, final_hid(cfg.n_layers as int)));
    assert(sized(cfg, a));
    assert forall|c: int| 0 <= c < h.embed().plan.n_chunks implies last[#[trigger] chunk_of(
        c,
        h.kit.pl.lmhead_i8,
    )] == s0[chunk_of(c, h.kit.pl.lmhead_i8)] by {
        assert(constant(chunk_of(c, h.kit.pl.lmhead_i8)));
    }
    assert(table_holds(last, h.embed(), h.kit.pl.lmhead_i8));
    law_head(s, l, *h.kit, cfg, h.embed(), h.cap, h.fused_head);
    let u = l.head(*h.kit, cfg, h.embed(), h.cap, h.fused_head);
    crate::e4b_laws::lemma_grown_head(l, *h.kit, cfg, h.embed(), h.cap, h.fused_head);
    assert(held(s, u, 1) == run(s, h.lists().decode, 1)) by {
        reveal(held);
    }
}

} // verus!
