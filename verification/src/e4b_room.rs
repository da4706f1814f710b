//! That the activation buffers of an E4B graph have room for what a layer leaves in them.
use vstd::prelude::*;
use crate::e4b_ir::Work;
use crate::e4b_layer::LayerEmit;
use crate::e4b_sizes::BufDims;

verus! {

/// Sizes that are whole words.
pub open spec fn whole_words(d: BufDims, a: LayerEmit) -> bool {
    &&& d.cfg.hidden % 2 == 0
    &&& d.cfg.inter % 2 == 0
    &&& d.cfg.hpl % 2 == 0
    &&& d.cfg.ple_row % 2 == 0
    &&& d.q_dim_max % 2 == 0
    &&& d.kv_dim_max % 2 == 0
}

/// The buffers that `m` rows of every layer go through have room for them: for as many elements
/// as the rows of the matrix whose product stands there, two to a word where they are packed.
/// The row of the two feed-forward products together fits, and the partial sums of the attention
/// fit for each query head, row and part.
pub proof fn law_work_room(d: BufDims, a: LayerEmit)
    requires
        a.m == d.m,
        a.q_dim <= d.q_dim_max,
        a.kv_dim <= d.kv_dim_max,
        a.hd <= d.hd_max,
        whole_words(d, a),
    ensures
        forall|w: Work|
            w == Work::HidA || w == Work::HidB || w == Work::T0 || w == Work::T1 || w == Work::T2
                || w == Work::Mid ==> 2 * #[trigger] d.words(w) == a.m * d.cfg.hidden,
        forall|w: Work|
            w == Work::PleRaw || w == Work::PleProj || w == Work::PleNormed || w == Work::Pli ==> 2
                * #[trigger] d.words(w) == a.m * d.cfg.ple_row,
        2 * d.words(Work::PlGate) == a.m * d.cfg.hpl,
        2 * d.words(Work::PlGated) == a.m * d.cfg.hpl,
        2 * d.words(Work::Qa) >= a.m * a.q_dim,
        2 * d.words(Work::Qb) >= a.m * a.q_dim,
        d.words(Work::QF32) >= a.m * a.q_dim,
        2 * d.words(Work::AttnPack) >= a.m * a.q_dim,
        2 * d.words(Work::Ka) >= a.m * a.kv_dim,
        2 * d.words(Work::Kb) >= a.m * a.kv_dim,
        2 * d.words(Work::Va) >= a.m * a.kv_dim,
        2 * d.words(Work::Vb) >= a.m * a.kv_dim,
        2 * d.words(Work::GuPack) >= a.m * (2 * d.cfg.inter),
        2 * d.words(Work::ActPack) >= a.m * d.cfg.inter,
        d.words(Work::Scratch) >= d.cfg.n_q * a.m * d.splits * (a.hd + 2),
{
    let m = a.m as int;
    lemma_half(m, d.cfg.hidden as int);
    lemma_half(m, d.cfg.ple_row as int);
    lemma_half(m, d.cfg.hpl as int);
    lemma_half(m, d.q_dim_max as int);
    lemma_half(m, d.kv_dim_max as int);
    lemma_half(m, d.cfg.inter as int);
    lemma_more(m, a.q_dim as int, d.q_dim_max as int);
    lemma_more(m, a.kv_dim as int, d.kv_dim_max as int);
    let wide = crate::e4b_sizes::wider(d.cfg.inter as int, d.cfg.hidden as int);
    lemma_half(m, wide);
    lemma_more(m, d.cfg.inter as int, wide);
    assert(m * (2 * d.cfg.inter) == 2 * (m * d.cfg.inter)) by (nonlinear_arith);
    let rows = d.cfg.n_q * a.m * d.splits;
    assert(0 <= d.cfg.n_q * a.m) by (nonlinear_arith);
    let heads = d.cfg.n_q * a.m;
    assert(0 <= heads * d.splits) by (nonlinear_arith)
        requires
            0 <= heads,
    ;
    lemma_more(rows, a.hd + 2, d.hd_max + 2);
}

proof fn lemma_half(m: int, n: int)
    requires
        0 <= m,
        0 <= n,
        n % 2 == 0,
    ensures
        2 * ((m * n) / 2) == m * n,
        0 <= m * n,
{
    crate::moe_steps::lemma_even(m, n);
}

proof fn lemma_more(m: int, a: int, b: int)
    requires
        0 <= m,
        a <= b,
    ensures
        m * a <= m * b,
{
    assert(m * a <= m * b) by (nonlinear_arith)
        requires
            0 <= m,
            a <= b,
    ;
}

} // verus!
