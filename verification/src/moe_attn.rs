//! The attention passes of a mixture-of-experts layer, for one row and for a chunk.
use vstd::prelude::*;
use crate::config::LayerType;
use crate::e4b_emit::F32_ONE;
use crate::moe_emit::{
    flag, gemv_bf16_pass, pack_pass, pf_gemm_bf16, pf_gemm_pass, push_gemv_bf16, push_pack, MoeMat,
    MoePlan,
};
use crate::moe_ir::{
    bind3, bind5, bind6, bind7, grid1, mb, mbuf, moe_pass, mu, muni, over, LayerBuf, MoeBuf,
    MoeGrid, MoeList, MoeModel, MoeSource, MoeUniform, PfBuf, RopeKey,
};

verus! {

/// One layer of the graph. `ring` holds the rows of its cache where they are reused in turn,
/// and `scalar` the bits of its output factor.
#[derive(Clone, Copy, Debug, PartialEq, Eq, Structural)]
pub struct MoeLayer {
    pub li: usize,
    pub kind: LayerType,
    pub hd: usize,
    pub n_kv: usize,
    pub has_v: bool,
    pub window: usize,
    pub ring: Option<usize>,
    pub rope: RopeKey,
    pub scalar: u32,
}

impl MoeLayer {
    pub open spec fn buf(self, b: LayerBuf) -> MoeBuf {
        MoeBuf::Layer(self.li, b)
    }

    fn lb(&self, b: LayerBuf) -> (r: MoeBuf)
        ensures
            r == self.buf(b),
    {
        MoeBuf::Layer(self.li, b)
    }

    /// The rows of the ring, or zero where every position has a row of its own.
    pub open spec fn ring_rows(self) -> u32 {
        match self.ring {
            Some(r) => r as u32,
            None => 0,
        }
    }

    fn ring_u32(&self) -> (r: u32)
        ensures
            r == self.ring_rows(),
    {
        match self.ring {
            Some(r) => r as u32,
            None => 0,
        }
    }

    /// The rows of the cache.
    pub open spec fn cache_rows(self, max_seq: usize) -> usize {
        match self.ring {
            Some(r) => r,
            None => max_seq,
        }
    }

    /// The widths of the projections fit the address type, and every query head has a key
    /// head.
    pub open spec fn fits(self, p: MoePlan) -> bool {
        &&& self.n_kv > 0
        &&& p.d.n_q + 2 * self.n_kv <= usize::MAX
        &&& (p.d.n_q + 2 * self.n_kv) * self.hd <= usize::MAX
        &&& p.d.m * (p.d.n_q * self.hd) <= usize::MAX
        &&& p.d.m * self.n_kv <= usize::MAX
    }

    pub open spec fn wq(self, p: MoePlan) -> MoeMat {
        MoeMat { buf: self.buf(LayerBuf::Qw), n: (p.d.n_q * self.hd) as usize, k: p.d.hidden }
    }

    pub open spec fn wk(self, p: MoePlan) -> MoeMat {
        MoeMat { buf: self.buf(LayerBuf::Kw), n: (self.n_kv * self.hd) as usize, k: p.d.hidden }
    }

    pub open spec fn wv(self, p: MoePlan) -> MoeMat {
        MoeMat { buf: self.buf(LayerBuf::Vw), n: (self.n_kv * self.hd) as usize, k: p.d.hidden }
    }

    pub open spec fn wo(self, p: MoePlan) -> MoeMat {
        MoeMat { buf: self.buf(LayerBuf::Ow), n: p.d.hidden, k: (p.d.n_q * self.hd) as usize }
    }

    /// The projections stacked into one matrix.
    pub open spec fn wqkv(self, p: MoePlan) -> MoeMat {
        MoeMat {
            buf: self.buf(LayerBuf::QkvW),
            n: (p.d.n_q * self.hd + self.n_kv * self.hd + if self.has_v {
                self.n_kv * self.hd
            } else {
                0
            }) as usize,
            k: p.d.hidden,
        }
    }
}

proof fn lemma_fits(p: MoePlan, l: MoeLayer)
    requires
        l.fits(p),
    ensures
        0 <= p.d.n_q * l.hd <= usize::MAX,
        0 <= l.n_kv * l.hd <= usize::MAX,
        p.d.n_q * l.hd + 2 * (l.n_kv * l.hd) <= usize::MAX,
{
    let q = p.d.n_q as int;
    let n = l.n_kv as int;
    let h = l.hd as int;
    assert((q + 2 * n) * h == q * h + 2 * (n * h)) by (nonlinear_arith);
    assert(0 <= q * h && 0 <= n * h) by (nonlinear_arith)
        requires
            q >= 0,
            n >= 0,
            h >= 0,
    ;
}

/// Whether the stacked projection serves: not with a cache in eight bits.
pub open spec fn stacked(p: MoePlan) -> bool {
    p.sw.grouped && !p.sw.fp8
}

/// Where a layer's queries stand after norm and rotation.
pub open spec fn q_buf(p: MoePlan, l: MoeLayer) -> MoeBuf {
    if stacked(p) { l.buf(LayerBuf::Qkv) } else { l.buf(LayerBuf::Q) }
}

pub open spec fn rope_params(l: MoeLayer, rows: int, rope: bool, n_q: int, n_kv: int, eps: u32) -> MoeUniform {
    MoeUniform::NormRope {
        n_rows: rows as u32,
        head_dim: l.hd as u32,
        src_stride: l.hd as u32,
        rot_half: (l.hd / 2) as u32,
        has_rope: flag(rope),
        n_q: n_q as u32,
        n_kv: n_kv as u32,
        eps,
    }
}

/// Norms the rows of a projection, and rotates them if asked to.
pub open spec fn norm_rope_pass(
    p: MoePlan,
    l: MoeLayer,
    label: Seq<char>,
    src: MoeBuf,
    w: MoeBuf,
    dst: MoeBuf,
    rows: int,
    rope: bool,
) -> MoeModel {
    moe_pass(
        label,
        MoeSource::Attn,
        "g4m_attn_norm_rope"@,
        seq![
            mb(0, src),
            mb(1, w),
            mb(2, MoeBuf::RopeCos(l.rope)),
            mb(3, MoeBuf::RopeSin(l.rope)),
            mb(4, MoeBuf::Pos),
            mb(5, dst),
            mu(6, rope_params(l, rows, rope, 0, 0, p.f.eps)),
        ],
        MoeGrid::Dims(rows as u32, 1, 1),
    )
}

fn push_norm_rope(
    out: &mut MoeList,
    p: &MoePlan,
    l: &MoeLayer,
    label: &'static str,
    src: MoeBuf,
    w: MoeBuf,
    dst: MoeBuf,
    rows: usize,
    rope: bool,
)
    ensures
        final(out)@ == old(out)@.push(
            norm_rope_pass(*p, *l, label@, src, w, dst, rows as int, rope),
        ),
{
    let u = MoeUniform::NormRope {
        n_rows: rows as u32,
        head_dim: l.hd as u32,
        src_stride: l.hd as u32,
        rot_half: (l.hd / 2) as u32,
        has_rope: if rope { 1 } else { 0 },
        n_q: 0,
        n_kv: 0,
        eps: p.f.eps,
    };
    out.push(
        label,
        MoeSource::Attn,
        "g4m_attn_norm_rope",
        bind7(
            mbuf(0, src),
            mbuf(1, w),
            mbuf(2, MoeBuf::RopeCos(l.rope)),
            mbuf(3, MoeBuf::RopeSin(l.rope)),
            mbuf(4, MoeBuf::Pos),
            mbuf(5, dst),
            muni(6, u),
        ),
        MoeGrid::Dims(rows as u32, 1, 1),
    );
}

/// Projection, norm and rotation of queries, keys and values. Without values of its own a
/// layer norms its raw keys as values.
pub open spec fn qkv_passes(p: MoePlan, l: MoeLayer, x: MoeBuf) -> Seq<MoeModel> {
    if stacked(p) {
        let rows = p.d.n_q + 2 * l.n_kv;
        seq![
            gemv_bf16_pass(p.sw, "g4m-at-qkvproj"@, l.wqkv(p), x, l.buf(LayerBuf::QkvRaw)),
            moe_pass(
                "g4m-at-qkvnorm"@,
                MoeSource::Attn,
                "g4m_attn_norm_rope_qkv"@,
                seq![
                    mb(0, l.buf(LayerBuf::QkvRaw)),
                    mb(1, l.buf(LayerBuf::QkvN)),
                    mb(2, MoeBuf::RopeCos(l.rope)),
                    mb(3, MoeBuf::RopeSin(l.rope)),
                    mb(4, MoeBuf::Pos),
                    mb(5, l.buf(LayerBuf::Qkv)),
                    mu(
                        6,
                        rope_params(l, rows, l.has_v, p.d.n_q as int, l.n_kv as int, p.f.eps),
                    ),
                ],
                MoeGrid::Dims(rows as u32, 1, 1),
            ),
        ]
    } else {
        let v_raw = if l.has_v { l.buf(LayerBuf::VRaw) } else { l.buf(LayerBuf::KRaw) };
        let qk = seq![
            gemv_bf16_pass(p.sw, "g4m-at-qproj"@, l.wq(p), x, l.buf(LayerBuf::QRaw)),
            gemv_bf16_pass(p.sw, "g4m-at-kproj"@, l.wk(p), x, l.buf(LayerBuf::KRaw)),
        ];
        let qkv = if l.has_v {
            qk.push(gemv_bf16_pass(p.sw, "g4m-at-vproj"@, l.wv(p), x, l.buf(LayerBuf::VRaw)))
        } else {
            qk
        };
        qkv.push(
            norm_rope_pass(
                p,
                l,
                "g4m-at-qnorm"@,
                l.buf(LayerBuf::QRaw),
                l.buf(LayerBuf::Qn),
                l.buf(LayerBuf::Q),
                p.d.n_q as int,
                true,
            ),
        ).push(
            norm_rope_pass(
                p,
                l,
                "g4m-at-knorm"@,
                l.buf(LayerBuf::KRaw),
                l.buf(LayerBuf::Kn),
                l.buf(LayerBuf::K),
                l.n_kv as int,
                true,
            ),
        ).push(
            norm_rope_pass(
                p,
                l,
                "g4m-at-vnorm"@,
                v_raw,
                l.buf(LayerBuf::Vn),
                l.buf(LayerBuf::V),
                l.n_kv as int,
                false,
            ),
        )
    }
}

fn push_qkv(out: &mut MoeList, p: &MoePlan, l: &MoeLayer, x: MoeBuf)
    requires
        l.fits(*p),
    ensures
        final(out)@ == old(out)@ + qkv_passes(*p, *l, x),
{
    proof {
        lemma_fits(*p, *l);
    }
    let hidden: usize = p.d.hidden;
    let q_dim: usize = p.d.n_q * l.hd;
    let kv_dim: usize = l.n_kv * l.hd;
    if p.sw.grouped && !p.sw.fp8 {
        let n: usize = q_dim + kv_dim + if l.has_v { kv_dim } else { 0 };
        let w = MoeMat { buf: l.lb(LayerBuf::QkvW), n, k: hidden };
        push_gemv_bf16(out, &p.sw, "g4m-at-qkvproj", &w, x, l.lb(LayerBuf::QkvRaw));
        let rows: usize = p.d.n_q + 2 * l.n_kv;
        let u = MoeUniform::NormRope {
            n_rows: rows as u32,
            head_dim: l.hd as u32,
            src_stride: l.hd as u32,
            rot_half: (l.hd / 2) as u32,
            has_rope: if l.has_v { 1 } else { 0 },
            n_q: p.d.n_q as u32,
            n_kv: l.n_kv as u32,
            eps: p.f.eps,
        };
        out.push(
            "g4m-at-qkvnorm",
            MoeSource::Attn,
            "g4m_attn_norm_rope_qkv",
            bind7(
                mbuf(0, l.lb(LayerBuf::QkvRaw)),
                mbuf(1, l.lb(LayerBuf::QkvN)),
                mbuf(2, MoeBuf::RopeCos(l.rope)),
                mbuf(3, MoeBuf::RopeSin(l.rope)),
                mbuf(4, MoeBuf::Pos),
                mbuf(5, l.lb(LayerBuf::Qkv)),
                muni(6, u),
            ),
            MoeGrid::Dims(rows as u32, 1, 1),
        );
    } else {
        let wq = MoeMat { buf: l.lb(LayerBuf::Qw), n: q_dim, k: hidden };
        let wk = MoeMat { buf: l.lb(LayerBuf::Kw), n: kv_dim, k: hidden };
        push_gemv_bf16(out, &p.sw, "g4m-at-qproj", &wq, x, l.lb(LayerBuf::QRaw));
        push_gemv_bf16(out, &p.sw, "g4m-at-kproj", &wk, x, l.lb(LayerBuf::KRaw));
        let v_raw = if l.has_v {
            let wv = MoeMat { buf: l.lb(LayerBuf::Vw), n: kv_dim, k: hidden };
            push_gemv_bf16(out, &p.sw, "g4m-at-vproj", &wv, x, l.lb(LayerBuf::VRaw));
            l.lb(LayerBuf::VRaw)
        } else {
            l.lb(LayerBuf::KRaw)
        };
        push_norm_rope(
            out,
            p,
            l,
            "g4m-at-qnorm",
            l.lb(LayerBuf::QRaw),
            l.lb(LayerBuf::Qn),
            l.lb(LayerBuf::Q),
            p.d.n_q,
            true,
        );
        push_norm_rope(
            out,
            p,
            l,
            "g4m-at-knorm",
            l.lb(LayerBuf::KRaw),
            l.lb(LayerBuf::Kn),
            l.lb(LayerBuf::K),
            l.n_kv,
            true,
        );
        push_norm_rope(
            out,
            p,
            l,
            "g4m-at-vnorm",
            v_raw,
            l.lb(LayerBuf::Vn),
            l.lb(LayerBuf::V),
            l.n_kv,
            false,
        );
    }
    assert(out@ =~= old(out)@ + qkv_passes(*p, *l, x));
}

/// Stores `rows` rows of keys or values in eight bits, a scale for each row and head.
pub open spec fn kv_fp8_pass(
    label: Seq<char>,
    src: MoeBuf,
    cache: MoeBuf,
    scales: MoeBuf,
    pos: MoeBuf,
    u: MoeUniform,
    pairs: int,
) -> MoeModel {
    moe_pass(
        label,
        MoeSource::KvFp8,
        "quantize_kv_fp8"@,
        seq![mb(0, src), mb(1, cache), mb(2, scales), mb(3, pos), mu(4, u)],
        MoeGrid::Dims(pairs as u32, 1, 1),
    )
}

fn push_kv_fp8(
    out: &mut MoeList,
    label: &'static str,
    src: MoeBuf,
    cache: MoeBuf,
    scales: MoeBuf,
    pos: MoeBuf,
    u: MoeUniform,
    pairs: usize,
)
    ensures
        final(out)@ == old(out)@.push(
            kv_fp8_pass(label@, src, cache, scales, pos, u, pairs as int),
        ),
{
    out.push(
        label,
        MoeSource::KvFp8,
        "quantize_kv_fp8",
        bind5(mbuf(0, src), mbuf(1, cache), mbuf(2, scales), mbuf(3, pos), muni(4, u)),
        MoeGrid::Dims(pairs as u32, 1, 1),
    );
}

/// The row's keys and values go into the cache.
pub open spec fn kv_passes(p: MoePlan, l: MoeLayer) -> Seq<MoeModel> {
    let words = l.n_kv * l.hd / 2;
    if p.sw.fp8 {
        let u = MoeUniform::KvFp8 {
            n_tokens: 1,
            n_kv: l.n_kv as u32,
            head_dim: l.hd as u32,
            ring: l.ring_rows(),
            pairs: l.n_kv as u32,
            slots: l.cache_rows(p.d.max_seq) as u32,
        };
        seq![
            kv_fp8_pass(
                "g4m-at-kvq-k"@,
                l.buf(LayerBuf::K),
                l.buf(LayerBuf::Kc),
                l.buf(LayerBuf::Ksc),
                MoeBuf::Pos,
                u,
                l.n_kv as int,
            ),
            kv_fp8_pass(
                "g4m-at-kvq-v"@,
                l.buf(LayerBuf::V),
                l.buf(LayerBuf::Vc),
                l.buf(LayerBuf::Vsc),
                MoeBuf::Pos,
                u,
                l.n_kv as int,
            ),
        ]
    } else if stacked(p) {
        seq![
            moe_pass(
                "g4m-at-kvwrite"@,
                MoeSource::Attn,
                "g4m_kv_write_stacked"@,
                seq![
                    mb(10, l.buf(LayerBuf::Qkv)),
                    mb(12, l.buf(LayerBuf::Kc)),
                    mb(13, l.buf(LayerBuf::Vc)),
                    mb(14, MoeBuf::Pos),
                    mu(
                        15,
                        MoeUniform::KvWrite {
                            words: words as u32,
                            ring: l.ring_rows(),
                            k_off_words: (p.d.n_q * l.hd / 2) as u32,
                        },
                    ),
                ],
                over(words, 64),
            ),
        ]
    } else {
        seq![
            moe_pass(
                "g4m-at-kvwrite"@,
                MoeSource::Attn,
                "g4m_kv_write"@,
                seq![
                    mb(10, l.buf(LayerBuf::K)),
                    mb(11, l.buf(LayerBuf::V)),
                    mb(12, l.buf(LayerBuf::Kc)),
                    mb(13, l.buf(LayerBuf::Vc)),
                    mb(14, MoeBuf::Pos),
                    mu(
                        15,
                        MoeUniform::KvWrite {
                            words: words as u32,
                            ring: l.ring_rows(),
                            k_off_words: 0,
                        },
                    ),
                ],
                over(words, 64),
            ),
        ]
    }
}

fn push_kv(out: &mut MoeList, p: &MoePlan, l: &MoeLayer)
    requires
        l.fits(*p),
    ensures
        final(out)@ == old(out)@ + kv_passes(*p, *l),
{
    proof {
        lemma_fits(*p, *l);
    }
    let ring: u32 = l.ring_u32();
    if p.sw.fp8 {
        let slots: usize = match l.ring {
            Some(r) => r,
            None => p.d.max_seq,
        };
        let u = MoeUniform::KvFp8 {
            n_tokens: 1,
            n_kv: l.n_kv as u32,
            head_dim: l.hd as u32,
            ring,
            pairs: l.n_kv as u32,
            slots: slots as u32,
        };
        push_kv_fp8(
            out,
            "g4m-at-kvq-k",
            l.lb(LayerBuf::K),
            l.lb(LayerBuf::Kc),
            l.lb(LayerBuf::Ksc),
            MoeBuf::Pos,
            u,
            l.n_kv,
        );
        push_kv_fp8(
            out,
            "g4m-at-kvq-v",
            l.lb(LayerBuf::V),
            l.lb(LayerBuf::Vc),
            l.lb(LayerBuf::Vsc),
            MoeBuf::Pos,
            u,
            l.n_kv,
        );
    } else {
        let words: usize = l.n_kv * l.hd / 2;
        let grid = grid1(words, 64);
        if p.sw.grouped {
            let off: usize = p.d.n_q * l.hd / 2;
            let u = MoeUniform::KvWrite { words: words as u32, ring, k_off_words: off as u32 };
            out.push(
                "g4m-at-kvwrite",
                MoeSource::Attn,
                "g4m_kv_write_stacked",
                bind5(
                    mbuf(10, l.lb(LayerBuf::Qkv)),
                    mbuf(12, l.lb(LayerBuf::Kc)),
                    mbuf(13, l.lb(LayerBuf::Vc)),
                    mbuf(14, MoeBuf::Pos),
                    muni(15, u),
                ),
                grid,
            );
        } else {
            let u = MoeUniform::KvWrite { words: words as u32, ring, k_off_words: 0 };
            out.push(
                "g4m-at-kvwrite",
                MoeSource::Attn,
                "g4m_kv_write",
                bind6(
                    mbuf(10, l.lb(LayerBuf::K)),
                    mbuf(11, l.lb(LayerBuf::V)),
                    mbuf(12, l.lb(LayerBuf::Kc)),
                    mbuf(13, l.lb(LayerBuf::Vc)),
                    mbuf(14, MoeBuf::Pos),
                    muni(15, u),
                ),
                grid,
            );
        }
    }
    assert(out@ =~= old(out)@ + kv_passes(*p, *l));
}

/// Whether a layer's decode row takes the flash kernels.
pub open spec fn takes_flash(p: MoePlan, kind: LayerType) -> bool {
    match kind {
        LayerType::FullAttention => p.sw.flash_full,
        LayerType::SlidingAttention => p.sw.flash_sliding,
    }
}

/// The label of an attention pass, with the layer's kind where that is wanted.
pub open spec fn kind_label(
    p: MoePlan,
    kind: LayerType,
    plain: Seq<char>,
    sliding: Seq<char>,
    full: Seq<char>,
) -> Seq<char> {
    if !p.sw.kind_labels {
        plain
    } else {
        match kind {
            LayerType::SlidingAttention => sliding,
            LayerType::FullAttention => full,
        }
    }
}

fn pick_label(
    p: &MoePlan,
    kind: LayerType,
    plain: &'static str,
    sliding: &'static str,
    full: &'static str,
) -> (r: &'static str)
    ensures
        r@ == kind_label(*p, kind, plain@, sliding@, full@),
{
    if !p.sw.kind_labels {
        plain
    } else {
        match kind {
            LayerType::SlidingAttention => sliding,
            LayerType::FullAttention => full,
        }
    }
}

/// The attention of the row over the cache in two flash stages.
pub open spec fn flash_passes(p: MoePlan, l: MoeLayer) -> Seq<MoeModel> {
    let fp = MoeBuf::Flash(l.kind == LayerType::FullAttention);
    let plain = seq![
        mb(0, q_buf(p, l)),
        mb(1, l.buf(LayerBuf::Kc)),
        mb(2, l.buf(LayerBuf::Vc)),
        mb(3, l.buf(LayerBuf::FlashScratch)),
        mb(6, fp),
    ];
    seq![
        moe_pass(
            kind_label(
                p,
                l.kind,
                "g4m-at-flash1"@,
                "g4m-at-flash1-sliding"@,
                "g4m-at-flash1-full"@,
            ),
            MoeSource::Flash,
            if p.sw.fp8 { "g4m_flash_stage1_fp8"@ } else { "g4m_flash_stage1_bf16"@ },
            if p.sw.fp8 {
                plain.push(mb(7, l.buf(LayerBuf::Ksc))).push(mb(8, l.buf(LayerBuf::Vsc)))
            } else {
                plain
            },
            MoeGrid::Dims(p.d.n_q as u32, p.sw.splits, 1),
        ),
        moe_pass(
            kind_label(
                p,
                l.kind,
                "g4m-at-flash2"@,
                "g4m-at-flash2-sliding"@,
                "g4m-at-flash2-full"@,
            ),
            MoeSource::Flash,
            "g4m_flash_stage2_pk"@,
            seq![mb(3, l.buf(LayerBuf::FlashScratch)), mb(4, l.buf(LayerBuf::AttnBf16)), mb(6, fp)],
            MoeGrid::Dims(p.d.n_q as u32, 1, 1),
        ),
    ]
}

fn push_flash(out: &mut MoeList, p: &MoePlan, l: &MoeLayer)
    ensures
        final(out)@ == old(out)@ + flash_passes(*p, *l),
{
    let fp = MoeBuf::Flash(l.kind == LayerType::FullAttention);
    let q = if p.sw.grouped && !p.sw.fp8 { l.lb(LayerBuf::Qkv) } else { l.lb(LayerBuf::Q) };
    let mut binds = bind5(
        mbuf(0, q),
        mbuf(1, l.lb(LayerBuf::Kc)),
        mbuf(2, l.lb(LayerBuf::Vc)),
        mbuf(3, l.lb(LayerBuf::FlashScratch)),
        mbuf(6, fp),
    );
    let mut entry = "g4m_flash_stage1_bf16";
    if p.sw.fp8 {
        binds.push(mbuf(7, l.lb(LayerBuf::Ksc)));
        binds.push(mbuf(8, l.lb(LayerBuf::Vsc)));
        entry = "g4m_flash_stage1_fp8";
    }
    out.push(
        pick_label(p, l.kind, "g4m-at-flash1", "g4m-at-flash1-sliding", "g4m-at-flash1-full"),
        MoeSource::Flash,
        entry,
        binds,
        MoeGrid::Dims(p.d.n_q as u32, p.sw.splits, 1),
    );
    out.push(
        pick_label(p, l.kind, "g4m-at-flash2", "g4m-at-flash2-sliding", "g4m-at-flash2-full"),
        MoeSource::Flash,
        "g4m_flash_stage2_pk",
        bind3(mbuf(3, l.lb(LayerBuf::FlashScratch)), mbuf(4, l.lb(LayerBuf::AttnBf16)), mbuf(6, fp)),
        MoeGrid::Dims(p.d.n_q as u32, 1, 1),
    );
    assert(out@ =~= old(out)@ + flash_passes(*p, *l));
}

/// The attention of the row over the cache, head by head.
pub open spec fn serial_passes(p: MoePlan, l: MoeLayer) -> Seq<MoeModel> {
    let plain = seq![
        mb(20, q_buf(p, l)),
        mb(21, l.buf(LayerBuf::Kc)),
        mb(22, l.buf(LayerBuf::Vc)),
        mb(23, l.buf(LayerBuf::Scores)),
        mb(24, l.buf(LayerBuf::AttnF32)),
        mb(25, MoeBuf::Pos),
        mu(
            26,
            MoeUniform::AttnDecode {
                n_heads: p.d.n_q as u32,
                n_kv: l.n_kv as u32,
                head_dim: l.hd as u32,
                max_seq: p.d.max_seq as u32,
                group: (p.d.n_q / l.n_kv) as u32,
                window: l.window as u32,
                ring: l.ring_rows(),
                scale: F32_ONE,
            },
        ),
    ];
    seq![
        moe_pass(
            kind_label(
                p,
                l.kind,
                "g4m-at-decode"@,
                "g4m-at-decode-sliding"@,
                "g4m-at-decode-full"@,
            ),
            MoeSource::Attn,
            if p.sw.fp8 { "g4m_attn_decode_fp8"@ } else { "g4m_attn_decode"@ },
            if p.sw.fp8 {
                plain.push(mb(27, l.buf(LayerBuf::Ksc))).push(mb(28, l.buf(LayerBuf::Vsc)))
            } else {
                plain
            },
            MoeGrid::Dims(p.d.n_q as u32, 1, 1),
        ),
        pack_pass(
            "g4m-at-pack"@,
            l.buf(LayerBuf::AttnF32),
            l.buf(LayerBuf::AttnBf16),
            p.d.n_q * l.hd / 2,
        ),
    ]
}

fn push_serial(out: &mut MoeList, p: &MoePlan, l: &MoeLayer)
    requires
        l.fits(*p),
    ensures
        final(out)@ == old(out)@ + serial_passes(*p, *l),
{
    proof {
        lemma_fits(*p, *l);
    }
    let q = if p.sw.grouped && !p.sw.fp8 { l.lb(LayerBuf::Qkv) } else { l.lb(LayerBuf::Q) };
    let u = MoeUniform::AttnDecode {
        n_heads: p.d.n_q as u32,
        n_kv: l.n_kv as u32,
        head_dim: l.hd as u32,
        max_seq: p.d.max_seq as u32,
        group: (p.d.n_q / l.n_kv) as u32,
        window: l.window as u32,
        ring: l.ring_u32(),
        scale: F32_ONE,
    };
    let mut binds = bind7(
        mbuf(20, q),
        mbuf(21, l.lb(LayerBuf::Kc)),
        mbuf(22, l.lb(LayerBuf::Vc)),
        mbuf(23, l.lb(LayerBuf::Scores)),
        mbuf(24, l.lb(LayerBuf::AttnF32)),
        mbuf(25, MoeBuf::Pos),
        muni(26, u),
    );
    let mut entry = "g4m_attn_decode";
    if p.sw.fp8 {
        binds.push(mbuf(27, l.lb(LayerBuf::Ksc)));
        binds.push(mbuf(28, l.lb(LayerBuf::Vsc)));
        entry = "g4m_attn_decode_fp8";
    }
    out.push(
        pick_label(p, l.kind, "g4m-at-decode", "g4m-at-decode-sliding", "g4m-at-decode-full"),
        MoeSource::Attn,
        entry,
        binds,
        MoeGrid::Dims(p.d.n_q as u32, 1, 1),
    );
    push_pack(
        out,
        "g4m-at-pack",
        l.lb(LayerBuf::AttnF32),
        l.lb(LayerBuf::AttnBf16),
        p.d.n_q * l.hd / 2,
    );
    assert(out@ =~= old(out)@ + serial_passes(*p, *l));
}

/// All attention passes of a decode row.
pub open spec fn attn_passes(p: MoePlan, l: MoeLayer, x: MoeBuf, y: MoeBuf) -> Seq<MoeModel> {
    qkv_passes(p, l, x) + kv_passes(p, l) + if takes_flash(p, l.kind) {
        flash_passes(p, l)
    } else {
        serial_passes(p, l)
    } + seq![gemv_bf16_pass(p.sw, "g4m-at-oproj"@, l.wo(p), l.buf(LayerBuf::AttnBf16), y)]
}

pub fn build_attn(out: &mut MoeList, p: &MoePlan, l: &MoeLayer, x: MoeBuf, y: MoeBuf)
    requires
        l.fits(*p),
    ensures
        final(out)@ == old(out)@ + attn_passes(*p, *l, x, y),
{
    push_qkv(out, p, l, x);
    push_kv(out, p, l);
    let flash = match l.kind {
        LayerType::FullAttention => p.sw.flash_full,
        LayerType::SlidingAttention => p.sw.flash_sliding,
    };
    if flash {
        push_flash(out, p, l);
    } else {
        push_serial(out, p, l);
    }
    proof {
        lemma_fits(*p, *l);
    }
    let wo = MoeMat { buf: l.lb(LayerBuf::Ow), n: p.d.hidden, k: p.d.n_q * l.hd };
    push_gemv_bf16(out, &p.sw, "g4m-at-oproj", &wo, l.lb(LayerBuf::AttnBf16), y);
    assert(out@ =~= old(out)@ + attn_passes(*p, *l, x, y));
}

/// [`norm_rope_pass`] for the rows of a chunk.
pub open spec fn pf_rope_pass(
    p: MoePlan,
    l: MoeLayer,
    label: Seq<char>,
    src: PfBuf,
    w: LayerBuf,
    dst: PfBuf,
    rows: int,
    rope: bool,
) -> MoeModel {
    moe_pass(
        label,
        MoeSource::Prefill,
        "pm_attn_norm_rope"@,
        seq![
            mb(30, MoeBuf::Pf(src)),
            mb(31, l.buf(w)),
            mb(32, MoeBuf::RopeCos(l.rope)),
            mb(33, MoeBuf::RopeSin(l.rope)),
            mb(34, MoeBuf::Pf(PfBuf::Pos)),
            mb(35, MoeBuf::Pf(dst)),
            mu(
                36,
                MoeUniform::PfRope {
                    n_rows: rows as u32,
                    head_dim: l.hd as u32,
                    src_stride: l.hd as u32,
                    rot_half: (l.hd / 2) as u32,
                    has_rope: flag(rope),
                    tok_src_stride: (rows * l.hd) as u32,
                    tok_dst_stride: (rows * l.hd) as u32,
                    eps: p.f.eps,
                },
            ),
        ],
        MoeGrid::Dims(rows as u32, p.d.m as u32, 1),
    )
}

fn push_pf_rope(
    out: &mut MoeList,
    p: &MoePlan,
    l: &MoeLayer,
    label: &'static str,
    src: PfBuf,
    w: LayerBuf,
    dst: PfBuf,
    rows: usize,
    rope: bool,
)
    requires
        rows * l.hd <= usize::MAX,
    ensures
        final(out)@ == old(out)@.push(
            pf_rope_pass(*p, *l, label@, src, w, dst, rows as int, rope),
        ),
{
    let stride: usize = rows * l.hd;
    let u = MoeUniform::PfRope {
        n_rows: rows as u32,
        head_dim: l.hd as u32,
        src_stride: l.hd as u32,
        rot_half: (l.hd / 2) as u32,
        has_rope: if rope { 1 } else { 0 },
        tok_src_stride: stride as u32,
        tok_dst_stride: stride as u32,
        eps: p.f.eps,
    };
    out.push(
        label,
        MoeSource::Prefill,
        "pm_attn_norm_rope",
        bind7(
            mbuf(30, MoeBuf::Pf(src)),
            mbuf(31, l.lb(w)),
            mbuf(32, MoeBuf::RopeCos(l.rope)),
            mbuf(33, MoeBuf::RopeSin(l.rope)),
            mbuf(34, MoeBuf::Pf(PfBuf::Pos)),
            mbuf(35, MoeBuf::Pf(dst)),
            muni(36, u),
        ),
        MoeGrid::Dims(rows as u32, p.d.m as u32, 1),
    );
}

/// Projection, norm and rotation for the rows of a chunk.
pub open spec fn pf_qkv_passes(p: MoePlan, l: MoeLayer, x: MoeBuf) -> Seq<MoeModel> {
    let hw = p.d.hidden as int / 2;
    let qw = p.d.n_q * l.hd / 2;
    let kw = l.n_kv * l.hd / 2;
    let qk = seq![
        pf_gemm_pass("g4m-pf-qproj"@, l.wq(p), x, hw, MoeBuf::Pf(PfBuf::QRaw), qw, false, F32_ONE),
        pf_gemm_pass("g4m-pf-kproj"@, l.wk(p), x, hw, MoeBuf::Pf(PfBuf::KRaw), kw, false, F32_ONE),
    ];
    let qkv = if l.has_v {
        qk.push(
            pf_gemm_pass(
                "g4m-pf-vproj"@,
                l.wv(p),
                x,
                hw,
                MoeBuf::Pf(PfBuf::VRaw),
                kw,
                false,
                F32_ONE,
            ),
        )
    } else {
        qk
    };
    let v_raw = if l.has_v { PfBuf::VRaw } else { PfBuf::KRaw };
    qkv.push(
        pf_rope_pass(
            p,
            l,
            "g4m-pf-qnorm"@,
            PfBuf::QRaw,
            LayerBuf::Qn,
            PfBuf::Q,
            p.d.n_q as int,
            true,
        ),
    ).push(
        pf_rope_pass(
            p,
            l,
            "g4m-pf-knorm"@,
            PfBuf::KRaw,
            LayerBuf::Kn,
            PfBuf::K,
            l.n_kv as int,
            true,
        ),
    ).push(
        pf_rope_pass(p, l, "g4m-pf-vnorm"@, v_raw, LayerBuf::Vn, PfBuf::V, l.n_kv as int, false),
    )
}

fn push_pf_qkv(out: &mut MoeList, p: &MoePlan, l: &MoeLayer, x: MoeBuf)
    requires
        l.fits(*p),
    ensures
        final(out)@ == old(out)@ + pf_qkv_passes(*p, *l, x),
{
    proof {
        lemma_fits(*p, *l);
    }
    let hidden: usize = p.d.hidden;
    let q_dim: usize = p.d.n_q * l.hd;
    let kv_dim: usize = l.n_kv * l.hd;
    let hw: usize = hidden / 2;
    let wq = MoeMat { buf: l.lb(LayerBuf::Qw), n: q_dim, k: hidden };
    let wk = MoeMat { buf: l.lb(LayerBuf::Kw), n: kv_dim, k: hidden };
    pf_gemm_bf16(
        out,
        "g4m-pf-qproj",
        &wq,
        x,
        hw,
        MoeBuf::Pf(PfBuf::QRaw),
        q_dim / 2,
        false,
        F32_ONE,
    );
    pf_gemm_bf16(
        out,
        "g4m-pf-kproj",
        &wk,
        x,
        hw,
        MoeBuf::Pf(PfBuf::KRaw),
        kv_dim / 2,
        false,
        F32_ONE,
    );
    let v_raw = if l.has_v {
        let wv = MoeMat { buf: l.lb(LayerBuf::Vw), n: kv_dim, k: hidden };
        pf_gemm_bf16(
            out,
            "g4m-pf-vproj",
            &wv,
            x,
            hw,
            MoeBuf::Pf(PfBuf::VRaw),
            kv_dim / 2,
            false,
            F32_ONE,
        );
        PfBuf::VRaw
    } else {
        PfBuf::KRaw
    };
    push_pf_rope(
        out,
        p,
        l,
        "g4m-pf-qnorm",
        PfBuf::QRaw,
        LayerBuf::Qn,
        PfBuf::Q,
        p.d.n_q,
        true,
    );
    push_pf_rope(out, p, l, "g4m-pf-knorm", PfBuf::KRaw, LayerBuf::Kn, PfBuf::K, l.n_kv, true);
    push_pf_rope(out, p, l, "g4m-pf-vnorm", v_raw, LayerBuf::Vn, PfBuf::V, l.n_kv, false);
    assert(out@ =~= old(out)@ + pf_qkv_passes(*p, *l, x));
}

/// The chunk's keys and values go into the cache.
pub open spec fn pf_kv_passes(p: MoePlan, l: MoeLayer) -> Seq<MoeModel> {
    let m = p.d.m;
    if p.sw.fp8 {
        let u = MoeUniform::KvFp8 {
            n_tokens: m as u32,
            n_kv: l.n_kv as u32,
            head_dim: l.hd as u32,
            ring: l.ring_rows(),
            pairs: (m * l.n_kv) as u32,
            slots: 0,
        };
        seq![
            kv_fp8_pass(
                "g4m-pf-kvq-k"@,
                MoeBuf::Pf(PfBuf::K),
                l.buf(LayerBuf::Kc),
                l.buf(LayerBuf::Ksc),
                MoeBuf::Pf(PfBuf::Pos),
                u,
                m * l.n_kv,
            ),
            kv_fp8_pass(
                "g4m-pf-kvq-v"@,
                MoeBuf::Pf(PfBuf::V),
                l.buf(LayerBuf::Vc),
                l.buf(LayerBuf::Vsc),
                MoeBuf::Pf(PfBuf::Pos),
                u,
                m * l.n_kv,
            ),
        ]
    } else {
        let words = (l.n_kv * l.hd / 2) as u32;
        seq![
            moe_pass(
                "g4m-pf-kvwrite"@,
                MoeSource::Prefill,
                "pm_kv_write"@,
                seq![
                    mb(40, MoeBuf::Pf(PfBuf::K)),
                    mb(41, MoeBuf::Pf(PfBuf::V)),
                    mb(42, l.buf(LayerBuf::Kc)),
                    mb(43, l.buf(LayerBuf::Vc)),
                    mb(44, MoeBuf::Pf(PfBuf::Pos)),
                    mu(45, MoeUniform::PfKv { words, m: m as u32, ring: l.ring_rows() }),
                ],
                MoeGrid::Dims(groups32(words, 64), m as u32, 1),
            ),
        ]
    }
}

/// How many groups of `wg` cover `n`.
pub open spec fn groups32(n: u32, wg: u32) -> u32 {
    crate::e4b_emit::groups_for(n as int, wg as int) as u32
}

pub fn div_up32(n: u32, wg: u32) -> (r: u32)
    requires
        wg > 1,
    ensures
        r == groups32(n, wg),
{
    let q: u32 = n / wg;
    assert(q < u32::MAX && q * wg <= n) by (nonlinear_arith)
        requires
            q == n / wg,
            wg > 1,
    ;
    if n % wg == 0 { q } else { q + 1 }
}

fn push_pf_kv(out: &mut MoeList, p: &MoePlan, l: &MoeLayer)
    requires
        l.fits(*p),
    ensures
        final(out)@ == old(out)@ + pf_kv_passes(*p, *l),
{
    proof {
        lemma_fits(*p, *l);
    }
    let m: usize = p.d.m;
    let ring: u32 = l.ring_u32();
    if p.sw.fp8 {
        let pairs: usize = m * l.n_kv;
        let u = MoeUniform::KvFp8 {
            n_tokens: m as u32,
            n_kv: l.n_kv as u32,
            head_dim: l.hd as u32,
            ring,
            pairs: pairs as u32,
            slots: 0,
        };
        push_kv_fp8(
            out,
            "g4m-pf-kvq-k",
            MoeBuf::Pf(PfBuf::K),
            l.lb(LayerBuf::Kc),
            l.lb(LayerBuf::Ksc),
            MoeBuf::Pf(PfBuf::Pos),
            u,
            pairs,
        );
        push_kv_fp8(
            out,
            "g4m-pf-kvq-v",
            MoeBuf::Pf(PfBuf::V),
            l.lb(LayerBuf::Vc),
            l.lb(LayerBuf::Vsc),
            MoeBuf::Pf(PfBuf::Pos),
            u,
            pairs,
        );
    } else {
        let words: usize = l.n_kv * l.hd / 2;
        let u = MoeUniform::PfKv { words: words as u32, m: m as u32, ring };
        let x: u32 = div_up32(words as u32, 64);
        out.push(
            "g4m-pf-kvwrite",
            MoeSource::Prefill,
            "pm_kv_write",
            bind6(
                mbuf(40, MoeBuf::Pf(PfBuf::K)),
                mbuf(41, MoeBuf::Pf(PfBuf::V)),
                mbuf(42, l.lb(LayerBuf::Kc)),
                mbuf(43, l.lb(LayerBuf::Vc)),
                mbuf(44, MoeBuf::Pf(PfBuf::Pos)),
                muni(45, u),
            ),
            MoeGrid::Dims(x, m as u32, 1),
        );
    }
    assert(out@ =~= old(out)@ + pf_kv_passes(*p, *l));
}

/// The attention of the chunk's rows over the cache.
pub open spec fn pf_core_passes(p: MoePlan, l: MoeLayer) -> Seq<MoeModel> {
    let plain = seq![
        mb(50, MoeBuf::Pf(PfBuf::Q)),
        mb(51, l.buf(LayerBuf::Kc)),
        mb(52, l.buf(LayerBuf::Vc)),
        mb(53, MoeBuf::Pf(PfBuf::Scores)),
        mb(54, MoeBuf::Pf(PfBuf::AttnF32)),
        mb(55, MoeBuf::Pf(PfBuf::Pos)),
        mu(
            56,
            MoeUniform::PfAttn {
                n_heads: p.d.n_q as u32,
                n_kv: l.n_kv as u32,
                head_dim: l.hd as u32,
                max_seq: p.d.max_seq as u32,
                group: (p.d.n_q / l.n_kv) as u32,
                window: l.window as u32,
                m: p.d.m as u32,
                ring: l.ring_rows(),
                scale: F32_ONE,
            },
        ),
    ];
    seq![
        moe_pass(
            "g4m-pf-attn"@,
            MoeSource::Prefill,
            if p.sw.fp8 { "pm_attn_fp8"@ } else { "pm_attn"@ },
            if p.sw.fp8 {
                plain.push(mb(57, l.buf(LayerBuf::Ksc))).push(mb(58, l.buf(LayerBuf::Vsc)))
            } else {
                plain
            },
            MoeGrid::Dims(p.d.n_q as u32, p.d.m as u32, 1),
        ),
        pack_pass(
            "g4m-pf-pack"@,
            MoeBuf::Pf(PfBuf::AttnF32),
            MoeBuf::Pf(PfBuf::AttnBf16),
            p.d.m * p.d.n_q * l.hd / 2,
        ),
    ]
}

fn push_pf_core(out: &mut MoeList, p: &MoePlan, l: &MoeLayer)
    requires
        l.fits(*p),
    ensures
        final(out)@ == old(out)@ + pf_core_passes(*p, *l),
{
    proof {
        lemma_fits(*p, *l);
    }
    let u = MoeUniform::PfAttn {
        n_heads: p.d.n_q as u32,
        n_kv: l.n_kv as u32,
        head_dim: l.hd as u32,
        max_seq: p.d.max_seq as u32,
        group: (p.d.n_q / l.n_kv) as u32,
        window: l.window as u32,
        m: p.d.m as u32,
        ring: l.ring_u32(),
        scale: F32_ONE,
    };
    let mut binds = bind7(
        mbuf(50, MoeBuf::Pf(PfBuf::Q)),
        mbuf(51, l.lb(LayerBuf::Kc)),
        mbuf(52, l.lb(LayerBuf::Vc)),
        mbuf(53, MoeBuf::Pf(PfBuf::Scores)),
        mbuf(54, MoeBuf::Pf(PfBuf::AttnF32)),
        mbuf(55, MoeBuf::Pf(PfBuf::Pos)),
        muni(56, u),
    );
    let mut entry = "pm_attn";
    if p.sw.fp8 {
        binds.push(mbuf(57, l.lb(LayerBuf::Ksc)));
        binds.push(mbuf(58, l.lb(LayerBuf::Vsc)));
        entry = "pm_attn_fp8";
    }
    out.push(
        "g4m-pf-attn",
        MoeSource::Prefill,
        entry,
        binds,
        MoeGrid::Dims(p.d.n_q as u32, p.d.m as u32, 1),
    );
    let row: usize = p.d.n_q * l.hd;
    let elems: usize = p.d.m * row;
    assert(p.d.m * (p.d.n_q * l.hd) == p.d.m * p.d.n_q * l.hd) by (nonlinear_arith);
    push_pack(
        out,
        "g4m-pf-pack",
        MoeBuf::Pf(PfBuf::AttnF32),
        MoeBuf::Pf(PfBuf::AttnBf16),
        elems / 2,
    );
    assert(out@ =~= old(out)@ + pf_core_passes(*p, *l));
}

/// All attention passes of a chunk.
pub open spec fn pf_attn_passes(p: MoePlan, l: MoeLayer, x: MoeBuf, y: MoeBuf) -> Seq<MoeModel> {
    pf_qkv_passes(p, l, x) + pf_kv_passes(p, l) + pf_core_passes(p, l) + seq![
        pf_gemm_pass(
            "g4m-pf-oproj"@,
            l.wo(p),
            MoeBuf::Pf(PfBuf::AttnBf16),
            p.d.n_q * l.hd / 2,
            y,
            p.d.hidden as int / 2,
            false,
            F32_ONE,
        ),
    ]
}

pub fn build_attn_prefill(out: &mut MoeList, p: &MoePlan, l: &MoeLayer, x: MoeBuf, y: MoeBuf)
    requires
        l.fits(*p),
    ensures
        final(out)@ == old(out)@ + pf_attn_passes(*p, *l, x, y),
{
    push_pf_qkv(out, p, l, x);
    push_pf_kv(out, p, l);
    push_pf_core(out, p, l);
    proof {
        lemma_fits(*p, *l);
    }
    let q_dim: usize = p.d.n_q * l.hd;
    let wo = MoeMat { buf: l.lb(LayerBuf::Ow), n: p.d.hidden, k: q_dim };
    pf_gemm_bf16(
        out,
        "g4m-pf-oproj",
        &wo,
        MoeBuf::Pf(PfBuf::AttnBf16),
        q_dim / 2,
        y,
        p.d.hidden / 2,
        false,
        F32_ONE,
    );
    assert(out@ =~= old(out)@ + pf_attn_passes(*p, *l, x, y));
}

} // verus!
