//! The sizes of the buffers of a mixture-of-experts graph.
use vstd::prelude::*;
use crate::config::Gemma4Config;
use crate::moe_attn::MoeLayer;
use crate::moe_emit::MoePlan;
use crate::moe_env::ARGMAX_GROUPS;
use crate::moe_graph::MoeStart;
use crate::moe_ir::{LayerBuf, MoeBuf, PfBuf};

verus! {

/// The widest heads of either kind of layer, and the most key heads.
#[derive(Clone, Copy, Debug, PartialEq, Eq, Structural)]
pub struct Widest {
    pub hd: usize,
    pub n_kv: usize,
}

/// A size in bytes, as the product of four factors.
pub type Factors = (usize, usize, usize, usize);

pub open spec fn ints(f: Factors) -> (int, int, int, int) {
    (f.0 as int, f.1 as int, f.2 as int, f.3 as int)
}

pub open spec fn product_of(f: (int, int, int, int)) -> int {
    f.0 * f.1 * f.2 * f.3
}

/// A buffer's bytes: whole vectors of sixteen.
pub open spec fn rounded(n: int) -> int {
    (n + 15) / 16 * 16
}

/// The bytes can be computed, factor by factor.
pub open spec fn bytes_fit(f: Factors) -> bool {
    &&& f.0 * f.1 <= usize::MAX
    &&& f.0 * f.1 * f.2 <= usize::MAX
    &&& f.0 * f.1 * f.2 * f.3 <= usize::MAX
    &&& rounded(f.0 * f.1 * f.2 * f.3) <= usize::MAX
}

/// The bytes of a buffer of this size; `None` where they do not fit the address type.
pub fn zeros(f: Factors) -> (r: Option<usize>)
    ensures
        match r {
            Some(n) => bytes_fit(f) && n == rounded(product_of(ints(f))),
            None => !bytes_fit(f),
        },
{
    let ab: usize = match f.0.checked_mul(f.1) {
        Some(x) => x,
        None => {
            return None;
        },
    };
    let abc: usize = match ab.checked_mul(f.2) {
        Some(x) => x,
        None => {
            return None;
        },
    };
    let n: usize = match abc.checked_mul(f.3) {
        Some(x) => x,
        None => {
            return None;
        },
    };
    let r: usize = n % 16;
    if r == 0 {
        Some(n)
    } else {
        n.checked_add(16 - r)
    }
}

/// The words of the mask that says which rows are spliced: at least one vector, and whole
/// vectors.
pub open spec fn mask_words(m: usize) -> int {
    let n = if m < 4 { 4 } else { m as int };
    (n + 3) / 4 * 4
}

/// The size of a prefill buffer.
pub open spec fn pf_factors(p: MoePlan, w: Widest, b: PfBuf) -> (int, int, int, int) {
    match b {
        PfBuf::SpliceRows => (p.d.m as int, p.d.hidden as int / 2, 4, 1),
        PfBuf::ResA => (p.d.m as int, p.d.hidden as int / 2, 4, 1),
        PfBuf::ResB => (p.d.m as int, p.d.hidden as int / 2, 4, 1),
        PfBuf::Normed => (p.d.m as int, p.d.hidden as int / 2, 4, 1),
        PfBuf::AttnOut => (p.d.m as int, p.d.hidden as int / 2, 4, 1),
        PfBuf::AttnPost => (p.d.m as int, p.d.hidden as int / 2, 4, 1),
        PfBuf::NormedMlp => (p.d.m as int, p.d.hidden as int / 2, 4, 1),
        PfBuf::DenseOut => (p.d.m as int, p.d.hidden as int / 2, 4, 1),
        PfBuf::H1 => (p.d.m as int, p.d.hidden as int / 2, 4, 1),
        PfBuf::MoeIn => (p.d.m as int, p.d.hidden as int / 2, 4, 1),
        PfBuf::MoeOut => (p.d.m as int, p.d.hidden as int / 2, 4, 1),
        PfBuf::H2 => (p.d.m as int, p.d.hidden as int / 2, 4, 1),
        PfBuf::FfwSum => (p.d.m as int, p.d.hidden as int / 2, 4, 1),
        PfBuf::Combined => (p.d.m as int, p.d.hidden as int / 2, 4, 1),
        PfBuf::Rnormed => (p.d.m as int, p.d.hidden as int / 2, 4, 1),
        PfBuf::RouterIn => (p.d.m as int, p.d.hidden as int / 2, 4, 1),
        PfBuf::QRaw => (p.d.m as int, p.d.n_q as int, w.hd as int, 2),
        PfBuf::KRaw => (p.d.m as int, w.n_kv as int, w.hd as int, 2),
        PfBuf::VRaw => (p.d.m as int, w.n_kv as int, w.hd as int, 2),
        PfBuf::Q => (p.d.m as int, p.d.n_q as int, w.hd as int, 2),
        PfBuf::K => (p.d.m as int, w.n_kv as int, w.hd as int, 2),
        PfBuf::V => (p.d.m as int, w.n_kv as int, w.hd as int, 2),
        PfBuf::Scores => (p.d.m as int, p.d.n_q as int, p.d.max_seq as int, 4),
        PfBuf::AttnF32 => (p.d.m as int, p.d.n_q as int, w.hd as int, 4),
        PfBuf::AttnBf16 => (p.d.m as int, p.d.n_q as int, w.hd as int, 2),
        PfBuf::MlpG => (p.d.m as int, p.d.inter as int, 2, 1),
        PfBuf::MlpU => (p.d.m as int, p.d.inter as int, 2, 1),
        PfBuf::MlpAct => (p.d.m as int, p.d.inter as int, 2, 1),
        PfBuf::Rlogits => (p.d.m as int, p.d.n_experts as int, 4, 1),
        PfBuf::Ids => (p.d.m as int, p.d.top_k as int, 4, 1),
        PfBuf::Wts => (p.d.m as int, p.d.top_k as int, 4, 1),
        PfBuf::YGate => (p.d.m as int, p.d.top_k as int, p.d.moe_inter as int, 2),
        PfBuf::YUp => (p.d.m as int, p.d.top_k as int, p.d.moe_inter as int, 2),
        PfBuf::MoeAct => (p.d.m as int, p.d.top_k as int, p.d.moe_inter as int, 2),
        PfBuf::YDown => (p.d.m as int, p.d.top_k as int, p.d.hidden as int, 2),
        PfBuf::Tok => (p.d.m as int, 4, 1, 1),
        PfBuf::Pos => (p.d.m as int, 4, 1, 1),
        PfBuf::SpliceMask => (mask_words(p.d.m), 4, 1, 1),
    }
}

pub open spec fn pf_label(b: PfBuf) -> Seq<char> {
    match b {
        PfBuf::SpliceRows => "g4m-pf-splice-rows"@,
        PfBuf::ResA => "g4m-pf-res-a"@,
        PfBuf::ResB => "g4m-pf-res-b"@,
        PfBuf::Normed => "g4m-pf-normed"@,
        PfBuf::AttnOut => "g4m-pf-attn-out"@,
        PfBuf::AttnPost => "g4m-pf-attn-post"@,
        PfBuf::NormedMlp => "g4m-pf-normed-mlp"@,
        PfBuf::DenseOut => "g4m-pf-dense-out"@,
        PfBuf::H1 => "g4m-pf-h1"@,
        PfBuf::MoeIn => "g4m-pf-moe-in"@,
        PfBuf::MoeOut => "g4m-pf-moe-out"@,
        PfBuf::H2 => "g4m-pf-h2"@,
        PfBuf::FfwSum => "g4m-pf-ffw-sum"@,
        PfBuf::Combined => "g4m-pf-combined"@,
        PfBuf::Rnormed => "g4m-pf-rnorm"@,
        PfBuf::RouterIn => "g4m-pf-rin"@,
        PfBuf::QRaw => "g4m-pf-qraw"@,
        PfBuf::KRaw => "g4m-pf-kraw"@,
        PfBuf::VRaw => "g4m-pf-vraw"@,
        PfBuf::Q => "g4m-pf-q"@,
        PfBuf::K => "g4m-pf-k"@,
        PfBuf::V => "g4m-pf-v"@,
        PfBuf::Scores => "g4m-pf-scores"@,
        PfBuf::AttnF32 => "g4m-pf-of32"@,
        PfBuf::AttnBf16 => "g4m-pf-obf16"@,
        PfBuf::MlpG => "g4m-pf-mlp-g"@,
        PfBuf::MlpU => "g4m-pf-mlp-u"@,
        PfBuf::MlpAct => "g4m-pf-mlp-act"@,
        PfBuf::Rlogits => "g4m-pf-rlogits"@,
        PfBuf::Ids => "g4m-pf-ids"@,
        PfBuf::Wts => "g4m-pf-wts"@,
        PfBuf::YGate => "g4m-pf-ygate"@,
        PfBuf::YUp => "g4m-pf-yup"@,
        PfBuf::MoeAct => "g4m-pf-moe-act"@,
        PfBuf::YDown => "g4m-pf-ydown"@,
        PfBuf::Tok => "g4m-pf-tok"@,
        PfBuf::Pos => "g4m-pf-pos"@,
        PfBuf::SpliceMask => "g4m-pf-splice-mask"@,
    }
}

/// The label and the size of a prefill buffer.
pub fn alloc_pf_scratch(p: &MoePlan, w: &Widest, b: PfBuf) -> (r: (&'static str, Factors))
    requires
        p.d.m <= usize::MAX - 3,
    ensures
        r.0@ == pf_label(b),
        ints(r.1) == pf_factors(*p, *w, b),
{
    let n: usize = if p.d.m < 4 { 4 } else { p.d.m };
    let mask: usize = (n + 3) / 4 * 4;
    let f: Factors = match b {
        PfBuf::SpliceRows => (p.d.m, p.d.hidden / 2, 4, 1),
        PfBuf::ResA => (p.d.m, p.d.hidden / 2, 4, 1),
        PfBuf::ResB => (p.d.m, p.d.hidden / 2, 4, 1),
        PfBuf::Normed => (p.d.m, p.d.hidden / 2, 4, 1),
        PfBuf::AttnOut => (p.d.m, p.d.hidden / 2, 4, 1),
        PfBuf::AttnPost => (p.d.m, p.d.hidden / 2, 4, 1),
        PfBuf::NormedMlp => (p.d.m, p.d.hidden / 2, 4, 1),
        PfBuf::DenseOut => (p.d.m, p.d.hidden / 2, 4, 1),
        PfBuf::H1 => (p.d.m, p.d.hidden / 2, 4, 1),
        PfBuf::MoeIn => (p.d.m, p.d.hidden / 2, 4, 1),
        PfBuf::MoeOut => (p.d.m, p.d.hidden / 2, 4, 1),
        PfBuf::H2 => (p.d.m, p.d.hidden / 2, 4, 1),
        PfBuf::FfwSum => (p.d.m, p.d.hidden / 2, 4, 1),
        PfBuf::Combined => (p.d.m, p.d.hidden / 2, 4, 1),
        PfBuf::Rnormed => (p.d.m, p.d.hidden / 2, 4, 1),
        PfBuf::RouterIn => (p.d.m, p.d.hidden / 2, 4, 1),
        PfBuf::QRaw => (p.d.m, p.d.n_q, w.hd, 2),
        PfBuf::KRaw => (p.d.m, w.n_kv, w.hd, 2),
        PfBuf::VRaw => (p.d.m, w.n_kv, w.hd, 2),
        PfBuf::Q => (p.d.m, p.d.n_q, w.hd, 2),
        PfBuf::K => (p.d.m, w.n_kv, w.hd, 2),
        PfBuf::V => (p.d.m, w.n_kv, w.hd, 2),
        PfBuf::Scores => (p.d.m, p.d.n_q, p.d.max_seq, 4),
        PfBuf::AttnF32 => (p.d.m, p.d.n_q, w.hd, 4),
        PfBuf::AttnBf16 => (p.d.m, p.d.n_q, w.hd, 2),
        PfBuf::MlpG => (p.d.m, p.d.inter, 2, 1),
        PfBuf::MlpU => (p.d.m, p.d.inter, 2, 1),
        PfBuf::MlpAct => (p.d.m, p.d.inter, 2, 1),
        PfBuf::Rlogits => (p.d.m, p.d.n_experts, 4, 1),
        PfBuf::Ids => (p.d.m, p.d.top_k, 4, 1),
        PfBuf::Wts => (p.d.m, p.d.top_k, 4, 1),
        PfBuf::YGate => (p.d.m, p.d.top_k, p.d.moe_inter, 2),
        PfBuf::YUp => (p.d.m, p.d.top_k, p.d.moe_inter, 2),
        PfBuf::MoeAct => (p.d.m, p.d.top_k, p.d.moe_inter, 2),
        PfBuf::YDown => (p.d.m, p.d.top_k, p.d.hidden, 2),
        PfBuf::Tok => (p.d.m, 4, 1, 1),
        PfBuf::Pos => (p.d.m, 4, 1, 1),
        PfBuf::SpliceMask => (mask, 4, 1, 1),
    };
    let label = match b {
        PfBuf::SpliceRows => "g4m-pf-splice-rows",
        PfBuf::ResA => "g4m-pf-res-a",
        PfBuf::ResB => "g4m-pf-res-b",
        PfBuf::Normed => "g4m-pf-normed",
        PfBuf::AttnOut => "g4m-pf-attn-out",
        PfBuf::AttnPost => "g4m-pf-attn-post",
        PfBuf::NormedMlp => "g4m-pf-normed-mlp",
        PfBuf::DenseOut => "g4m-pf-dense-out",
        PfBuf::H1 => "g4m-pf-h1",
        PfBuf::MoeIn => "g4m-pf-moe-in",
        PfBuf::MoeOut => "g4m-pf-moe-out",
        PfBuf::H2 => "g4m-pf-h2",
        PfBuf::FfwSum => "g4m-pf-ffw-sum",
        PfBuf::Combined => "g4m-pf-combined",
        PfBuf::Rnormed => "g4m-pf-rnorm",
        PfBuf::RouterIn => "g4m-pf-rin",
        PfBuf::QRaw => "g4m-pf-qraw",
        PfBuf::KRaw => "g4m-pf-kraw",
        PfBuf::VRaw => "g4m-pf-vraw",
        PfBuf::Q => "g4m-pf-q",
        PfBuf::K => "g4m-pf-k",
        PfBuf::V => "g4m-pf-v",
        PfBuf::Scores => "g4m-pf-scores",
        PfBuf::AttnF32 => "g4m-pf-of32",
        PfBuf::AttnBf16 => "g4m-pf-obf16",
        PfBuf::MlpG => "g4m-pf-mlp-g",
        PfBuf::MlpU => "g4m-pf-mlp-u",
        PfBuf::MlpAct => "g4m-pf-mlp-act",
        PfBuf::Rlogits => "g4m-pf-rlogits",
        PfBuf::Ids => "g4m-pf-ids",
        PfBuf::Wts => "g4m-pf-wts",
        PfBuf::YGate => "g4m-pf-ygate",
        PfBuf::YUp => "g4m-pf-yup",
        PfBuf::MoeAct => "g4m-pf-moe-act",
        PfBuf::YDown => "g4m-pf-ydown",
        PfBuf::Tok => "g4m-pf-tok",
        PfBuf::Pos => "g4m-pf-pos",
        PfBuf::SpliceMask => "g4m-pf-splice-mask",
    };
    (label, f)
}

/// The size of a layer's key or value cache.
pub open spec fn cache_factors(p: MoePlan, l: MoeLayer) -> (int, int, int, int) {
    if p.sw.fp8 {
        (l.cache_rows(p.d.max_seq) as int, l.n_kv as int, l.hd as int, 1)
    } else {
        (l.cache_rows(p.d.max_seq) as int, l.n_kv * l.hd / 2, 4, 1)
    }
}

/// The size of a layer's buffer; `None` for one that holds weights.
pub open spec fn layer_factors(p: MoePlan, l: MoeLayer, b: LayerBuf) -> Option<(int, int, int, int)> {
    match b {
        LayerBuf::AttnOut => Some((p.d.hidden as int / 2, 4, 1, 1)),
        LayerBuf::AttnPost => Some((p.d.hidden as int / 2, 4, 1, 1)),
        LayerBuf::NormedMlp => Some((p.d.hidden as int / 2, 4, 1, 1)),
        LayerBuf::DenseOut => Some((p.d.hidden as int / 2, 4, 1, 1)),
        LayerBuf::H1 => Some((p.d.hidden as int / 2, 4, 1, 1)),
        LayerBuf::MoeIn => Some((p.d.hidden as int / 2, 4, 1, 1)),
        LayerBuf::MoeOut => Some((p.d.hidden as int / 2, 4, 1, 1)),
        LayerBuf::H2 => Some((p.d.hidden as int / 2, 4, 1, 1)),
        LayerBuf::FfwSum => Some((p.d.hidden as int / 2, 4, 1, 1)),
        LayerBuf::Combined => Some((p.d.hidden as int / 2, 4, 1, 1)),
        LayerBuf::MoeRin => Some((p.d.hidden as int / 2, 4, 1, 1)),
        LayerBuf::MoeRnorm => Some((p.d.hidden as int / 2, 4, 1, 1)),
        LayerBuf::QRaw => Some((p.d.n_q as int, l.hd as int, 2, 1)),
        LayerBuf::KRaw => Some((l.n_kv as int, l.hd as int, 2, 1)),
        LayerBuf::VRaw => Some((l.n_kv as int, l.hd as int, 2, 1)),
        LayerBuf::QkvRaw => Some((p.d.n_q + l.n_kv + if l.has_v { l.n_kv as int } else { 0 }, l.hd as int, 2, 1)),
        LayerBuf::Qkv => Some((p.d.n_q + 2 * l.n_kv, l.hd as int, 2, 1)),
        LayerBuf::Q => Some((p.d.n_q as int, l.hd as int, 2, 1)),
        LayerBuf::K => Some((l.n_kv as int, l.hd as int, 2, 1)),
        LayerBuf::V => Some((l.n_kv as int, l.hd as int, 2, 1)),
        LayerBuf::Kc => Some(cache_factors(p, l)),
        LayerBuf::Vc => Some(cache_factors(p, l)),
        LayerBuf::Ksc => Some((l.cache_rows(p.d.max_seq) as int, l.n_kv as int, 4, 1)),
        LayerBuf::Vsc => Some((l.cache_rows(p.d.max_seq) as int, l.n_kv as int, 4, 1)),
        LayerBuf::AttnBf16 => Some((p.d.n_q as int, l.hd as int, 2, 1)),
        LayerBuf::FlashScratch => Some((p.d.n_q as int, p.sw.splits as int, l.hd + 2, 4)),
        LayerBuf::Scores => Some((p.d.n_q as int, p.d.max_seq as int, 4, 1)),
        LayerBuf::AttnF32 => Some((p.d.n_q as int, l.hd as int, 4, 1)),
        LayerBuf::MlpAct => Some((p.d.inter as int, 2, 1, 1)),
        LayerBuf::MlpG => Some((p.d.inter as int, 2, 1, 1)),
        LayerBuf::MlpU => Some((p.d.inter as int, 2, 1, 1)),
        LayerBuf::MoeRlogits => Some((p.d.n_experts as int, 4, 1, 1)),
        LayerBuf::MoeIds => Some((p.d.top_k as int, 4, 1, 1)),
        LayerBuf::MoeWts => Some((p.d.top_k as int, 4, 1, 1)),
        LayerBuf::MoeAct => Some((p.d.top_k as int, p.d.moe_inter as int, 2, 1)),
        LayerBuf::YGate => Some((p.d.top_k as int, p.d.moe_inter as int, 2, 1)),
        LayerBuf::YUp => Some((p.d.top_k as int, p.d.moe_inter as int, 2, 1)),
        LayerBuf::YDown => Some((p.d.top_k as int, p.d.hidden as int, 2, 1)),
        _ => None,
    }
}

pub open spec fn layer_label(b: LayerBuf) -> Seq<char> {
    match b {
        LayerBuf::AttnOut => "g4m-attn-out"@,
        LayerBuf::AttnPost => "g4m-attn-post"@,
        LayerBuf::NormedMlp => "g4m-normed-mlp"@,
        LayerBuf::DenseOut => "g4m-dense-out"@,
        LayerBuf::H1 => "g4m-h1"@,
        LayerBuf::MoeIn => "g4m-moe-in"@,
        LayerBuf::MoeOut => "g4m-moe-out"@,
        LayerBuf::H2 => "g4m-h2"@,
        LayerBuf::FfwSum => "g4m-ffw-sum"@,
        LayerBuf::Combined => "g4m-combined"@,
        LayerBuf::MoeRin => "g4m-moe-rin"@,
        LayerBuf::MoeRnorm => "g4m-moe-rnorm"@,
        LayerBuf::QRaw => "g4m-at-qraw"@,
        LayerBuf::KRaw => "g4m-at-kraw"@,
        LayerBuf::VRaw => "g4m-at-vraw"@,
        LayerBuf::QkvRaw => "g4m-at-qkvraw"@,
        LayerBuf::Qkv => "g4m-at-qkv"@,
        LayerBuf::Q => "g4m-at-q"@,
        LayerBuf::K => "g4m-at-k"@,
        LayerBuf::V => "g4m-at-v"@,
        LayerBuf::Kc => "g4m-at-kc"@,
        LayerBuf::Vc => "g4m-at-vc"@,
        LayerBuf::Ksc => "g4m-at-ksc"@,
        LayerBuf::Vsc => "g4m-at-vsc"@,
        LayerBuf::AttnBf16 => "g4m-at-obf16"@,
        LayerBuf::FlashScratch => "g4m-at-fscr"@,
        LayerBuf::Scores => "g4m-at-scores"@,
        LayerBuf::AttnF32 => "g4m-at-of32"@,
        LayerBuf::MlpAct => "g4m-mlp-act"@,
        LayerBuf::MlpG => "g4m-mlp-g"@,
        LayerBuf::MlpU => "g4m-mlp-u"@,
        LayerBuf::MoeRlogits => "g4m-moe-rlogits"@,
        LayerBuf::MoeIds => "g4m-moe-ids"@,
        LayerBuf::MoeWts => "g4m-moe-wts"@,
        LayerBuf::MoeAct => "g4m-moe-act"@,
        LayerBuf::YGate => "g4m-moe-ygate"@,
        LayerBuf::YUp => "g4m-moe-yup"@,
        LayerBuf::YDown => "g4m-moe-ydown"@,
        _ => ""@,
    }
}

/// The label and the size of a layer's buffer; `None` for one that holds weights.
pub fn layer_alloc(p: &MoePlan, l: &MoeLayer, b: LayerBuf) -> (r: Option<(&'static str, Factors)>)
    requires
        l.fits(*p),
    ensures
        match r {
            Some((label, f)) => label@ == layer_label(b) && layer_factors(*p, *l, b) == Some(ints(f)),
            None => layer_factors(*p, *l, b) is None,
        },
{
    proof {
        let q = p.d.n_q as int;
        let n = l.n_kv as int;
        let h = l.hd as int;
        assert(2 * h <= (q + 2 * n) * h && 0 <= n * h && n * h <= (q + 2 * n) * h) by (
        nonlinear_arith)
            requires
                q >= 0,
                n >= 1,
                h >= 0,
        ;
    }
    let rows: usize = match l.ring {
        Some(r) => r,
        None => p.d.max_seq,
    };
    let raw: usize = p.d.n_q + l.n_kv + if l.has_v { l.n_kv } else { 0 };
    let cache: Factors = if p.sw.fp8 {
        (rows, l.n_kv, l.hd, 1)
    } else {
        (rows, l.n_kv * l.hd / 2, 4, 1)
    };
    let f: Factors = match b {
        LayerBuf::AttnOut => (p.d.hidden / 2, 4, 1, 1),
        LayerBuf::AttnPost => (p.d.hidden / 2, 4, 1, 1),
        LayerBuf::NormedMlp => (p.d.hidden / 2, 4, 1, 1),
        LayerBuf::DenseOut => (p.d.hidden / 2, 4, 1, 1),
        LayerBuf::H1 => (p.d.hidden / 2, 4, 1, 1),
        LayerBuf::MoeIn => (p.d.hidden / 2, 4, 1, 1),
        LayerBuf::MoeOut => (p.d.hidden / 2, 4, 1, 1),
        LayerBuf::H2 => (p.d.hidden / 2, 4, 1, 1),
        LayerBuf::FfwSum => (p.d.hidden / 2, 4, 1, 1),
        LayerBuf::Combined => (p.d.hidden / 2, 4, 1, 1),
        LayerBuf::MoeRin => (p.d.hidden / 2, 4, 1, 1),
        LayerBuf::MoeRnorm => (p.d.hidden / 2, 4, 1, 1),
        LayerBuf::QRaw => (p.d.n_q, l.hd, 2, 1),
        LayerBuf::KRaw => (l.n_kv, l.hd, 2, 1),
        LayerBuf::VRaw => (l.n_kv, l.hd, 2, 1),
        LayerBuf::QkvRaw => (raw, l.hd, 2, 1),
        LayerBuf::Qkv => (p.d.n_q + 2 * l.n_kv, l.hd, 2, 1),
        LayerBuf::Q => (p.d.n_q, l.hd, 2, 1),
        LayerBuf::K => (l.n_kv, l.hd, 2, 1),
        LayerBuf::V => (l.n_kv, l.hd, 2, 1),
        LayerBuf::Kc => cache,
        LayerBuf::Vc => cache,
        LayerBuf::Ksc => (rows, l.n_kv, 4, 1),
        LayerBuf::Vsc => (rows, l.n_kv, 4, 1),
        LayerBuf::AttnBf16 => (p.d.n_q, l.hd, 2, 1),
        LayerBuf::FlashScratch => (p.d.n_q, p.sw.splits as usize, l.hd + 2, 4),
        LayerBuf::Scores => (p.d.n_q, p.d.max_seq, 4, 1),
        LayerBuf::AttnF32 => (p.d.n_q, l.hd, 4, 1),
        LayerBuf::MlpAct => (p.d.inter, 2, 1, 1),
        LayerBuf::MlpG => (p.d.inter, 2, 1, 1),
        LayerBuf::MlpU => (p.d.inter, 2, 1, 1),
        LayerBuf::MoeRlogits => (p.d.n_experts, 4, 1, 1),
        LayerBuf::MoeIds => (p.d.top_k, 4, 1, 1),
        LayerBuf::MoeWts => (p.d.top_k, 4, 1, 1),
        LayerBuf::MoeAct => (p.d.top_k, p.d.moe_inter, 2, 1),
        LayerBuf::YGate => (p.d.top_k, p.d.moe_inter, 2, 1),
        LayerBuf::YUp => (p.d.top_k, p.d.moe_inter, 2, 1),
        LayerBuf::YDown => (p.d.top_k, p.d.hidden, 2, 1),
        _ => {
            return None;
        },
    };
    let label = match b {
        LayerBuf::AttnOut => "g4m-attn-out",
        LayerBuf::AttnPost => "g4m-attn-post",
        LayerBuf::NormedMlp => "g4m-normed-mlp",
        LayerBuf::DenseOut => "g4m-dense-out",
        LayerBuf::H1 => "g4m-h1",
        LayerBuf::MoeIn => "g4m-moe-in",
        LayerBuf::MoeOut => "g4m-moe-out",
        LayerBuf::H2 => "g4m-h2",
        LayerBuf::FfwSum => "g4m-ffw-sum",
        LayerBuf::Combined => "g4m-combined",
        LayerBuf::MoeRin => "g4m-moe-rin",
        LayerBuf::MoeRnorm => "g4m-moe-rnorm",
        LayerBuf::QRaw => "g4m-at-qraw",
        LayerBuf::KRaw => "g4m-at-kraw",
        LayerBuf::VRaw => "g4m-at-vraw",
        LayerBuf::QkvRaw => "g4m-at-qkvraw",
        LayerBuf::Qkv => "g4m-at-qkv",
        LayerBuf::Q => "g4m-at-q",
        LayerBuf::K => "g4m-at-k",
        LayerBuf::V => "g4m-at-v",
        LayerBuf::Kc => "g4m-at-kc",
        LayerBuf::Vc => "g4m-at-vc",
        LayerBuf::Ksc => "g4m-at-ksc",
        LayerBuf::Vsc => "g4m-at-vsc",
        LayerBuf::AttnBf16 => "g4m-at-obf16",
        LayerBuf::FlashScratch => "g4m-at-fscr",
        LayerBuf::Scores => "g4m-at-scores",
        LayerBuf::AttnF32 => "g4m-at-of32",
        LayerBuf::MlpAct => "g4m-mlp-act",
        LayerBuf::MlpG => "g4m-mlp-g",
        LayerBuf::MlpU => "g4m-mlp-u",
        LayerBuf::MoeRlogits => "g4m-moe-rlogits",
        LayerBuf::MoeIds => "g4m-moe-ids",
        LayerBuf::MoeWts => "g4m-moe-wts",
        LayerBuf::MoeAct => "g4m-moe-act",
        LayerBuf::YGate => "g4m-moe-ygate",
        LayerBuf::YUp => "g4m-moe-yup",
        LayerBuf::YDown => "g4m-moe-ydown",
        _ => "",
    };
    Some((label, f))
}

/// The size of a buffer of the head or of the residual; `None` for one that holds weights or
/// belongs elsewhere.
pub open spec fn shared_factors(p: MoePlan, rows: usize, b: MoeBuf) -> Option<(int, int, int, int)> {
    match b {
        MoeBuf::ResA => Some((p.d.hidden as int / 2, 4, 1, 1)),
        MoeBuf::ResB => Some((p.d.hidden as int / 2, 4, 1, 1)),
        MoeBuf::Normed => Some((p.d.hidden as int / 2, 4, 1, 1)),
        MoeBuf::FinalX => Some((p.d.hidden as int / 2, 4, 1, 1)),
        MoeBuf::LogitsBf16 => Some((p.d.vocab as int, 2, 1, 1)),
        MoeBuf::Logits => Some((p.d.vocab as int, 4, 1, 1)),
        MoeBuf::ArgVal => Some((ARGMAX_GROUPS as int, 4, 1, 1)),
        MoeBuf::ArgIdx => Some((ARGMAX_GROUPS as int, 4, 1, 1)),
        MoeBuf::TokenOut => Some((4, 1, 1, 1)),
        MoeBuf::VerifyNormed => Some((rows as int, p.d.hidden as int / 2, 4, 1)),
        MoeBuf::VerifyLogitsBf16 => Some((rows as int, p.d.vocab as int, 2, 1)),
        MoeBuf::VerifyLogits => Some((rows as int, p.d.vocab as int, 4, 1)),
        MoeBuf::VerifyArgVal => Some((rows as int, ARGMAX_GROUPS as int, 4, 1)),
        MoeBuf::VerifyArgIdx => Some((rows as int, ARGMAX_GROUPS as int, 4, 1)),
        MoeBuf::VerifyTokens => Some((rows as int, 4, 1, 1)),
        _ => None,
    }
}

pub open spec fn shared_label(b: MoeBuf) -> Seq<char> {
    match b {
        MoeBuf::ResA => "g4m-res-a"@,
        MoeBuf::ResB => "g4m-res-b"@,
        MoeBuf::Normed => "g4m-normed"@,
        MoeBuf::FinalX => "g4m-final-x"@,
        MoeBuf::LogitsBf16 => "g4m-logits-bf16"@,
        MoeBuf::Logits => "g4m-logits"@,
        MoeBuf::ArgVal => "g4m-am-pv"@,
        MoeBuf::ArgIdx => "g4m-am-pi"@,
        MoeBuf::TokenOut => "g4m-token"@,
        MoeBuf::VerifyNormed => "g4m-verify-normed"@,
        MoeBuf::VerifyLogitsBf16 => "g4m-verify-logits-bf16"@,
        MoeBuf::VerifyLogits => "g4m-verify-logits"@,
        MoeBuf::VerifyArgVal => "g4m-verify-am-pv"@,
        MoeBuf::VerifyArgIdx => "g4m-verify-am-pi"@,
        MoeBuf::VerifyTokens => "g4m-verify-tokens"@,
        _ => ""@,
    }
}

/// The label and the size of a buffer of the head or of the residual; `rows` is the rows of
/// a verify batch.
pub fn shared_alloc(p: &MoePlan, rows: usize, b: MoeBuf) -> (r: Option<(&'static str, Factors)>)
    ensures
        match r {
            Some((label, f)) => label@ == shared_label(b) && shared_factors(*p, rows, b) == Some(
                ints(f),
            ),
            None => shared_factors(*p, rows, b) is None,
        },
{
    let f: Factors = match b {
        MoeBuf::ResA => (p.d.hidden / 2, 4, 1, 1),
        MoeBuf::ResB => (p.d.hidden / 2, 4, 1, 1),
        MoeBuf::Normed => (p.d.hidden / 2, 4, 1, 1),
        MoeBuf::FinalX => (p.d.hidden / 2, 4, 1, 1),
        MoeBuf::LogitsBf16 => (p.d.vocab, 2, 1, 1),
        MoeBuf::Logits => (p.d.vocab, 4, 1, 1),
        MoeBuf::ArgVal => (ARGMAX_GROUPS, 4, 1, 1),
        MoeBuf::ArgIdx => (ARGMAX_GROUPS, 4, 1, 1),
        MoeBuf::TokenOut => (4, 1, 1, 1),
        MoeBuf::VerifyNormed => (rows, p.d.hidden / 2, 4, 1),
        MoeBuf::VerifyLogitsBf16 => (rows, p.d.vocab, 2, 1),
        MoeBuf::VerifyLogits => (rows, p.d.vocab, 4, 1),
        MoeBuf::VerifyArgVal => (rows, ARGMAX_GROUPS, 4, 1),
        MoeBuf::VerifyArgIdx => (rows, ARGMAX_GROUPS, 4, 1),
        MoeBuf::VerifyTokens => (rows, 4, 1, 1),
        _ => {
            return None;
        },
    };
    let label = match b {
        MoeBuf::ResA => "g4m-res-a",
        MoeBuf::ResB => "g4m-res-b",
        MoeBuf::Normed => "g4m-normed",
        MoeBuf::FinalX => "g4m-final-x",
        MoeBuf::LogitsBf16 => "g4m-logits-bf16",
        MoeBuf::Logits => "g4m-logits",
        MoeBuf::ArgVal => "g4m-am-pv",
        MoeBuf::ArgIdx => "g4m-am-pi",
        MoeBuf::TokenOut => "g4m-token",
        MoeBuf::VerifyNormed => "g4m-verify-normed",
        MoeBuf::VerifyLogitsBf16 => "g4m-verify-logits-bf16",
        MoeBuf::VerifyLogits => "g4m-verify-logits",
        MoeBuf::VerifyArgVal => "g4m-verify-am-pv",
        MoeBuf::VerifyArgIdx => "g4m-verify-am-pi",
        MoeBuf::VerifyTokens => "g4m-verify-tokens",
        _ => "",
    };
    Some((label, f))
}

/// The caches that a layer keeps between steps, with the bytes that a reset clears.
pub open spec fn state_of(p: MoePlan, l: MoeLayer) -> Seq<(LayerBuf, int)> {
    let c = product_of(cache_factors(p, l));
    let kv = seq![(LayerBuf::Kc, c), (LayerBuf::Vc, c)];
    if p.sw.fp8 {
        let s = l.cache_rows(p.d.max_seq) * l.n_kv * 4;
        kv.push((LayerBuf::Ksc, s)).push((LayerBuf::Vsc, s))
    } else {
        kv
    }
}

/// The caches of a layer with the bytes that a reset clears; `None` where those do not fit
/// the address type.
pub fn state_buffers(p: &MoePlan, l: &MoeLayer) -> (r: Option<Vec<(LayerBuf, usize)>>)
    requires
        l.fits(*p),
    ensures
        match r {
            Some(v) => {
                &&& v@.len() == state_of(*p, *l).len()
                &&& forall|i: int|
                    0 <= i < v@.len() ==> (#[trigger] v@[i]).0 == state_of(*p, *l)[i].0 && v@[i].1
                        == state_of(*p, *l)[i].1
            },
            None => !state_fits(*p, *l),
        },
{
    proof {
        let q = p.d.n_q as int;
        let n = l.n_kv as int;
        let h = l.hd as int;
        assert(0 <= n * h && n * h <= (q + 2 * n) * h) by (nonlinear_arith)
            requires
                q >= 0,
                n >= 1,
                h >= 0,
        ;
    }
    let rows: usize = match l.ring {
        Some(r) => r,
        None => p.d.max_seq,
    };
    let heads: usize = match rows.checked_mul(l.n_kv) {
        Some(x) => x,
        None => {
            return None;
        },
    };
    let scales: usize = match heads.checked_mul(4) {
        Some(x) => x,
        None => {
            return None;
        },
    };
    let cache: Option<usize> = if p.sw.fp8 {
        heads.checked_mul(l.hd)
    } else {
        match rows.checked_mul(l.n_kv * l.hd / 2) {
            Some(x) => x.checked_mul(4),
            None => None,
        }
    };
    let cache: usize = match cache {
        Some(c) => c,
        None => {
            return None;
        },
    };
    proof {
        let words = l.n_kv * l.hd / 2;
        assert(heads * l.hd * 1 == heads * l.hd && rows * words * 4 * 1 == rows * words * 4) by (
        nonlinear_arith);
        assert(product_of(cache_factors(*p, *l)) == cache);
    }
    let mut v: Vec<(LayerBuf, usize)> = vec![(LayerBuf::Kc, cache), (LayerBuf::Vc, cache)];
    if p.sw.fp8 {
        v.push((LayerBuf::Ksc, scales));
        v.push((LayerBuf::Vsc, scales));
    }
    Some(v)
}

/// The sizes of a layer's caches fit the address type.
pub open spec fn state_fits(p: MoePlan, l: MoeLayer) -> bool {
    let rows = l.cache_rows(p.d.max_seq);
    &&& rows * l.n_kv <= usize::MAX
    &&& rows * l.n_kv * 4 <= usize::MAX
    &&& if p.sw.fp8 {
        rows * l.n_kv * l.hd <= usize::MAX
    } else {
        rows * (l.n_kv * l.hd / 2) <= usize::MAX && rows * (l.n_kv * l.hd / 2) * 4 <= usize::MAX
    }
}

/// The wider heads and the more key heads of the two kinds of layers.
pub open spec fn widest_heads(c: Gemma4Config) -> Widest {
    Widest {
        hd: if c.sliding.head_dim > c.full.head_dim { c.sliding.head_dim } else { c.full.head_dim },
        n_kv: if c.sliding.num_kv_heads > c.full.num_kv_heads {
            c.sliding.num_kv_heads
        } else {
            c.full.num_kv_heads
        },
    }
}

impl<'a> MoeStart<'a> {
    /// The size of a buffer of the graph; `None` for one that holds weights or parameters.
    pub open spec fn buffer_factors(&self, b: MoeBuf) -> Option<(int, int, int, int)> {
        match b {
            MoeBuf::Layer(li, x) => if li < self.config.base.num_hidden_layers {
                layer_factors(self.plan(), self.layer(li as int), x)
            } else {
                None
            },
            MoeBuf::Pf(x) => Some(pf_factors(self.plan(), widest_heads(self.config.base), x)),
            _ => shared_factors(self.plan(), self.verify_rows() as usize, b),
        }
    }

    /// The label and the size of a buffer of the graph; `None` for one that holds weights or
    /// parameters.
    pub fn buffer_of(&self, b: MoeBuf) -> (r: Option<(&'static str, Factors)>)
        requires
            self.wf(),
            self.error() is None,
            self.max_seq <= usize::MAX - 3,
        ensures
            match r {
                Some((label, f)) => {
                    &&& self.buffer_factors(b) == Some(ints(f))
                    &&& label@ == match b {
                        MoeBuf::Layer(_, x) => layer_label(x),
                        MoeBuf::Pf(x) => pf_label(x),
                        _ => shared_label(b),
                    }
                },
                None => self.buffer_factors(b) is None,
            },
    {
        let p = self.plan_m();
        let c = &self.config.base;
        match b {
            MoeBuf::Layer(li, x) => {
                if li >= c.num_hidden_layers {
                    return None;
                }
                let l = self.plan_layer(li);
                proof {
                    self.lemma_layer_fits(li as int);
                }
                layer_alloc(&p, &l, x)
            },
            MoeBuf::Pf(x) => {
                let w = Widest {
                    hd: if c.sliding.head_dim > c.full.head_dim {
                        c.sliding.head_dim
                    } else {
                        c.full.head_dim
                    },
                    n_kv: if c.sliding.num_kv_heads > c.full.num_kv_heads {
                        c.sliding.num_kv_heads
                    } else {
                        c.full.num_kv_heads
                    },
                };
                Some(alloc_pf_scratch(&p, &w, x))
            },
            _ => {
                let rows: usize = if p.d.m < self.verify_max { p.d.m } else { self.verify_max };
                shared_alloc(&p, rows, b)
            },
        }
    }

    /// The caches of a layer with the bytes that a reset clears; `None` where those do not fit
    /// the address type.
    pub fn state_of_layer(&self, i: usize) -> (r: Option<Vec<(LayerBuf, usize)>>)
        requires
            self.wf(),
            self.error() is None,
            i < self.config.base.num_hidden_layers,
        ensures
            match r {
                Some(v) => {
                    let want = state_of(self.plan(), self.layer(i as int));
                    &&& v@.len() == want.len()
                    &&& forall|j: int|
                        0 <= j < v@.len() ==> (#[trigger] v@[j]).0 == want[j].0 && v@[j].1
                            == want[j].1
                },
                None => !state_fits(self.plan(), self.layer(i as int)),
            },
    {
        let l = self.plan_layer(i);
        proof {
            self.lemma_layer_fits(i as int);
        }
        state_buffers(&self.plan_m(), &l)
    }
}

} // verus!
