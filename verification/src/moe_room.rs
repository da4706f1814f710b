//! That the buffers of a mixture-of-experts graph have room for what its passes leave in them.
use vstd::prelude::*;
use crate::moe_attn::MoeLayer;
use crate::moe_emit::MoePlan;
use crate::moe_ir::{LayerBuf, MoeBuf, PfBuf};
use crate::moe_sizes::{layer_factors, pf_factors, product_of, shared_factors, Widest};

verus! {

/// The bytes of a layer's buffer.
pub open spec fn layer_bytes(p: MoePlan, l: MoeLayer, b: LayerBuf) -> int {
    product_of(layer_factors(p, l, b)->0)
}

pub open spec fn pf_bytes(p: MoePlan, w: Widest, b: PfBuf) -> int {
    product_of(pf_factors(p, w, b))
}

pub open spec fn shared_bytes(p: MoePlan, rows: usize, b: MoeBuf) -> int {
    product_of(shared_factors(p, rows, b)->0)
}

/// The layer's buffer that holds for one row what a chunk's buffer holds for each of its rows.
pub open spec fn one_row_of(b: PfBuf) -> Option<LayerBuf> {
    match b {
        PfBuf::AttnOut => Some(LayerBuf::AttnOut),
        PfBuf::AttnPost => Some(LayerBuf::AttnPost),
        PfBuf::NormedMlp => Some(LayerBuf::NormedMlp),
        PfBuf::DenseOut => Some(LayerBuf::DenseOut),
        PfBuf::H1 => Some(LayerBuf::H1),
        PfBuf::MoeIn => Some(LayerBuf::MoeIn),
        PfBuf::MoeOut => Some(LayerBuf::MoeOut),
        PfBuf::H2 => Some(LayerBuf::H2),
        PfBuf::FfwSum => Some(LayerBuf::FfwSum),
        PfBuf::Combined => Some(LayerBuf::Combined),
        PfBuf::QRaw => Some(LayerBuf::QRaw),
        PfBuf::KRaw => Some(LayerBuf::KRaw),
        PfBuf::VRaw => Some(LayerBuf::VRaw),
        PfBuf::Q => Some(LayerBuf::Q),
        PfBuf::K => Some(LayerBuf::K),
        PfBuf::V => Some(LayerBuf::V),
        PfBuf::Scores => Some(LayerBuf::Scores),
        PfBuf::AttnF32 => Some(LayerBuf::AttnF32),
        PfBuf::AttnBf16 => Some(LayerBuf::AttnBf16),
        PfBuf::MlpG => Some(LayerBuf::MlpG),
        PfBuf::MlpU => Some(LayerBuf::MlpU),
        PfBuf::MlpAct => Some(LayerBuf::MlpAct),
        PfBuf::Rnormed => Some(LayerBuf::MoeRnorm),
        PfBuf::RouterIn => Some(LayerBuf::MoeRin),
        PfBuf::Rlogits => Some(LayerBuf::MoeRlogits),
        PfBuf::Ids => Some(LayerBuf::MoeIds),
        PfBuf::Wts => Some(LayerBuf::MoeWts),
        PfBuf::YGate => Some(LayerBuf::YGate),
        PfBuf::YUp => Some(LayerBuf::YUp),
        PfBuf::MoeAct => Some(LayerBuf::MoeAct),
        PfBuf::YDown => Some(LayerBuf::YDown),
        _ => None,
    }
}

proof fn lemma_row(m: int, n: int, k: int, z: int)
    requires
        0 <= m,
        0 <= n,
        0 <= k <= z,
    ensures
        m * (n * k * 2 * 1) <= m * n * z * 2,
        m * (n * k * 4 * 1) <= m * n * z * 4,
{
    assert(n * k <= n * z) by (nonlinear_arith)
        requires
            0 <= n,
            k <= z,
    ;
    let a = n * k;
    let b = n * z;
    assert(m * (a * 2 * 1) <= (m * b) * 2 && m * (a * 4 * 1) <= (m * b) * 4) by (nonlinear_arith)
        requires
            0 <= m,
            a <= b,
    ;
    assert(m * n * z == m * (n * z)) by (nonlinear_arith);
}

/// A chunk's buffer, which all layers share, has room for as many rows as the chunk, each as
/// long as the widest layer's.
pub proof fn law_chunk_room(p: MoePlan, w: Widest, l: MoeLayer, b: PfBuf)
    requires
        one_row_of(b) is Some,
        l.hd <= w.hd,
        l.n_kv <= w.n_kv,
    ensures
        layer_factors(p, l, one_row_of(b)->0) is Some,
        pf_bytes(p, w, b) >= p.d.m * layer_bytes(p, l, one_row_of(b)->0),
{
    let m = p.d.m as int;
    match b {
        PfBuf::QRaw | PfBuf::Q | PfBuf::AttnF32 | PfBuf::AttnBf16 => {
            lemma_row(m, p.d.n_q as int, l.hd as int, w.hd as int);
        },
        PfBuf::KRaw | PfBuf::VRaw | PfBuf::K | PfBuf::V => {
            lemma_kv_row(m, l.n_kv as int, l.hd as int, w.n_kv as int, w.hd as int);
        },
        PfBuf::Scores => {
            lemma_row(m, p.d.n_q as int, p.d.max_seq as int, p.d.max_seq as int);
        },
        PfBuf::YGate | PfBuf::YUp | PfBuf::MoeAct => {
            lemma_row(m, p.d.top_k as int, p.d.moe_inter as int, p.d.moe_inter as int);
        },
        PfBuf::YDown => {
            lemma_row(m, p.d.top_k as int, p.d.hidden as int, p.d.hidden as int);
        },
        PfBuf::MlpG | PfBuf::MlpU | PfBuf::MlpAct => {
            lemma_plain_row(m, p.d.inter as int);
        },
        PfBuf::Rlogits => {
            lemma_plain_row(m, p.d.n_experts as int);
        },
        PfBuf::Ids | PfBuf::Wts => {
            lemma_plain_row(m, p.d.top_k as int);
        },
        _ => {
            lemma_plain_row(m, p.d.hidden as int / 2);
        },
    }
}

proof fn lemma_plain_row(m: int, n: int)
    ensures
        m * (n * 2 * 1 * 1) == m * n * 2 * 1,
        m * (n * 4 * 1 * 1) == m * n * 4 * 1,
{
    assert(m * (n * 2 * 1 * 1) == m * n * 2 * 1) by (nonlinear_arith);
    assert(m * (n * 4 * 1 * 1) == m * n * 4 * 1) by (nonlinear_arith);
}

proof fn lemma_kv_row(m: int, n: int, h: int, n1: int, h1: int)
    requires
        0 <= m,
        0 <= n <= n1,
        0 <= h <= h1,
    ensures
        m * (n * h * 2 * 1) <= m * n1 * h1 * 2,
{
    assert(n * h <= n1 * h1) by (nonlinear_arith)
        requires
            0 <= n <= n1,
            0 <= h <= h1,
    ;
    let a = n * h;
    let b = n1 * h1;
    assert(m * (a * 2 * 1) <= (m * b) * 2) by (nonlinear_arith)
        requires
            0 <= m,
            a <= b,
    ;
    assert(m * n1 * h1 == m * (n1 * h1)) by (nonlinear_arith);
}

/// The buffers of a layer fit together: what a kernel takes element by element is as long as
/// what it leaves, a product's row has two bytes for each row of its matrix, and a cache has
/// room for a row of keys at each of its positions.
pub proof fn law_layer_room(p: MoePlan, l: MoeLayer)
    requires
        l.fits(p),
        p.d.hidden % 2 == 0,
        (l.n_kv * l.hd) % 2 == 0,
    ensures
        ({
            let bytes = |b: LayerBuf| layer_bytes(p, l, b);
            let row = shared_bytes(p, 0, MoeBuf::ResA);
            let rows = l.cache_rows(p.d.max_seq);
            &&& row == 2 * p.d.hidden
            &&& bytes(LayerBuf::AttnOut) == row && bytes(LayerBuf::AttnPost) == row
            &&& bytes(LayerBuf::NormedMlp) == row && bytes(LayerBuf::DenseOut) == row
            &&& bytes(LayerBuf::H1) == row && bytes(LayerBuf::H2) == row
            &&& bytes(LayerBuf::MoeIn) == row && bytes(LayerBuf::MoeOut) == row
            &&& bytes(LayerBuf::FfwSum) == row && bytes(LayerBuf::Combined) == row
            &&& bytes(LayerBuf::MoeRin) == row && bytes(LayerBuf::MoeRnorm) == row
            &&& shared_bytes(p, 0, MoeBuf::ResB) == row && shared_bytes(p, 0, MoeBuf::Normed) == row
            &&& shared_bytes(p, 0, MoeBuf::FinalX) == row
            &&& bytes(LayerBuf::QRaw) == 2 * l.wq(p).n && bytes(LayerBuf::Q) == bytes(LayerBuf::QRaw)
            &&& bytes(LayerBuf::AttnBf16) == bytes(LayerBuf::Q)
            &&& bytes(LayerBuf::AttnF32) == 2 * bytes(LayerBuf::AttnBf16)
            &&& bytes(LayerBuf::AttnBf16) == 2 * l.wo(p).k
            &&& bytes(LayerBuf::KRaw) == 2 * l.wk(p).n && bytes(LayerBuf::K) == bytes(LayerBuf::KRaw)
            &&& bytes(LayerBuf::VRaw) == 2 * l.wv(p).n && bytes(LayerBuf::V) == bytes(LayerBuf::VRaw)
            &&& bytes(LayerBuf::QkvRaw) == 2 * l.wqkv(p).n
            &&& bytes(LayerBuf::Qkv) == bytes(LayerBuf::Q) + bytes(LayerBuf::K) + bytes(LayerBuf::V)
            &&& bytes(LayerBuf::Kc) == bytes(LayerBuf::Vc)
            &&& bytes(LayerBuf::Ksc) == bytes(LayerBuf::Vsc)
            &&& !p.sw.fp8 ==> bytes(LayerBuf::Kc) == rows * bytes(LayerBuf::K)
            &&& p.sw.fp8 ==> 2 * bytes(LayerBuf::Kc) == rows * bytes(LayerBuf::K)
            &&& bytes(LayerBuf::Ksc) == 4 * (rows * l.n_kv)
            &&& bytes(LayerBuf::MlpG) == 2 * p.d.inter
            &&& bytes(LayerBuf::MlpU) == bytes(LayerBuf::MlpG)
            &&& bytes(LayerBuf::MlpAct) == bytes(LayerBuf::MlpG)
            &&& bytes(LayerBuf::YGate) == p.d.top_k * (2 * p.d.moe_inter)
            &&& bytes(LayerBuf::YUp) == bytes(LayerBuf::YGate)
            &&& bytes(LayerBuf::MoeAct) == bytes(LayerBuf::YGate)
            &&& bytes(LayerBuf::YDown) == p.d.top_k * row
            &&& bytes(LayerBuf::MoeRlogits) == 4 * p.d.n_experts
            &&& bytes(LayerBuf::MoeIds) == 4 * p.d.top_k
            &&& bytes(LayerBuf::MoeWts) == bytes(LayerBuf::MoeIds)
            &&& bytes(LayerBuf::Scores) == 4 * (p.d.n_q * p.d.max_seq)
        }),
{
    let q = p.d.n_q as int;
    let n = l.n_kv as int;
    let h = l.hd as int;
    let rows = l.cache_rows(p.d.max_seq) as int;
    let k = p.d.top_k as int;
    let f = p.d.moe_inter as int;
    assert(0 <= q * h && 0 <= n * h) by (nonlinear_arith)
        requires
            q >= 0,
            n >= 0,
            h >= 0,
    ;
    assert((q + 2 * n) * h == q * h + 2 * (n * h) && (q + n + n) * h == q * h + 2 * (n * h) && (q
        + n) * h == q * h + n * h && (q + n + 0) * h == q * h + n * h) by (nonlinear_arith);
    let words = n * h / 2;
    assert(rows * words * 4 * 1 == rows * ((2 * words) * 2)) by (nonlinear_arith);
    assert(2 * (rows * n * h * 1) == rows * ((n * h) * 2)) by (nonlinear_arith);
    assert(rows * n * 4 * 1 == 4 * (rows * n)) by (nonlinear_arith);
    assert(k * f * 2 * 1 == k * (2 * f)) by (nonlinear_arith);
    let d = p.d.hidden as int;
    assert(k * d * 2 * 1 == k * (2 * d)) by (nonlinear_arith);
    let s = p.d.max_seq as int;
    assert(q * s * 4 * 1 == 4 * (q * s)) by (nonlinear_arith);
}

} // verus!
