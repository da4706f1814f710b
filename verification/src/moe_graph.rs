//! The whole mixture-of-experts graph: embedding, layers, head and verify epilogue.
use vstd::prelude::*;
use crate::config::{KindDims, LayerType};
use crate::e4b_emit::F32_ONE;
use crate::moe_attn::{div_up32, groups32, takes_flash, MoeLayer};
use crate::moe_build::{layer_passes, pf_layer_passes, push_layer, push_pf_layer, res_in, residual};
use crate::moe_config::Gemma4MoeConfig;
use crate::moe_emit::{
    lmhead_pass, norm_pass, pf_norm, pf_norm_pass, push_lmhead_row, push_norm, HeadChunk, MoeDims,
    MoeFactors, MoePlan, MoeSwitches,
};
use crate::moe_env::{
    chunks_from, embed_chunks, law_embed_chunks, pairs_int, ARGMAX_GROUPS,
    GROUPED_NORM_CHAIN_MAX_HIDDEN_WORDS_PN_BUF, MAX_EXPERTS, MAX_HEAD_DIM, MAX_TOPK, W4_GS,
};
use crate::moe_ffn::ffn_fits;
use crate::moe_ir::{
    bind3, bind4, grid1, mb, mbuf, moe_pass, mu, muni, over, MoeBuf, MoeGrid, MoeList, MoeModel,
    MoeSource, MoeUniform, PfBuf, RopeKey,
};

verus! {

/// The chunks of the embedding table, numbered.
pub open spec fn numbered(chunks: Seq<(int, int)>) -> Seq<HeadChunk> {
    Seq::new(
        chunks.len(),
        |i: int|
            HeadChunk {
                index: i as usize,
                row_off: chunks[i].0 as usize,
                n_rows: chunks[i].1 as usize,
            },
    )
}

fn head_chunks(vocab: usize, chunk: usize) -> (r: Vec<HeadChunk>)
    requires
        chunk >= 2,
        chunk % 2 == 0,
    ensures
        r@ == numbered(chunks_from(vocab as int, chunk as int, 0)),
{
    let rows = embed_chunks(vocab, chunk);
    let ghost want = numbered(chunks_from(vocab as int, chunk as int, 0));
    let mut r: Vec<HeadChunk> = Vec::new();
    let mut i: usize = 0;
    while i < rows.len()
        invariant
            i <= rows@.len(),
            pairs_int(rows@) == chunks_from(vocab as int, chunk as int, 0),
            want == numbered(chunks_from(vocab as int, chunk as int, 0)),
            r@ == want.take(i as int),
        decreases rows@.len() - i,
    {
        let c = rows[i];
        proof {
            assert(pairs_int(rows@)[i as int] == (c.0 as int, c.1 as int));
        }
        r.push(HeadChunk { index: i, row_off: c.0, n_rows: c.1 });
        i = i + 1;
        assert(want.take(i as int) =~= want.take(i - 1).push(want[i - 1]));
    }
    assert(want.take(i as int) =~= want);
    r
}

/// The embedding of the decode token, from the chunk that holds its row.
pub open spec fn gather_pass(p: MoePlan, c: HeadChunk) -> MoeModel {
    let hw = p.d.hidden as int / 2;
    moe_pass(
        "g4m-gather"@,
        MoeSource::Moe,
        "g4m_gather_embed"@,
        seq![
            mb(30, MoeBuf::EmbedChunk(c.index)),
            mb(31, MoeBuf::Tok),
            mb(32, MoeBuf::ResA),
            mu(
                33,
                MoeUniform::Gather {
                    row_off: c.row_off as u32,
                    n_rows: c.n_rows as u32,
                    hidden_words: hw as u32,
                    vocab: p.d.vocab as u32,
                    scale: p.f.embed_scale,
                },
            ),
        ],
        over(hw, 256),
    )
}

/// The embeddings of a chunk's tokens.
pub open spec fn pf_gather_pass(p: MoePlan, c: HeadChunk) -> MoeModel {
    let hw = (p.d.hidden as int / 2) as u32;
    moe_pass(
        "g4m-pf-gather"@,
        MoeSource::Prefill,
        "pm_gather_embed"@,
        seq![
            mb(0, MoeBuf::EmbedChunk(c.index)),
            mb(1, MoeBuf::Pf(PfBuf::Tok)),
            mb(2, MoeBuf::Pf(PfBuf::ResA)),
            mu(
                3,
                MoeUniform::PfGather {
                    row_off: c.row_off as u32,
                    n_rows: c.n_rows as u32,
                    hidden_words: hw,
                    vocab: p.d.vocab as u32,
                    scale: p.f.embed_scale,
                    m: p.d.m as u32,
                },
            ),
        ],
        MoeGrid::Dims(groups32(hw, 256), p.d.m as u32, 1),
    )
}

/// Rows that come from outside take the place of embeddings.
pub open spec fn splice_pass(p: MoePlan) -> MoeModel {
    let hw = (p.d.hidden as int / 2) as u32;
    moe_pass(
        "g4m-pf-splice"@,
        MoeSource::Prefill,
        "pm_splice_embed_rows"@,
        seq![
            mb(100, MoeBuf::Pf(PfBuf::SpliceRows)),
            mb(101, MoeBuf::Pf(PfBuf::SpliceMask)),
            mb(102, MoeBuf::Pf(PfBuf::ResA)),
            mu(103, MoeUniform::PfSplice { hidden_words: hw, m: p.d.m as u32 }),
        ],
        MoeGrid::Dims(groups32(hw, 256), p.d.m as u32, 1),
    )
}

pub open spec fn gathers(p: MoePlan, c: Seq<HeadChunk>) -> Seq<MoeModel> {
    Seq::new(c.len(), |i: int| gather_pass(p, c[i]))
}

pub open spec fn pf_gathers(p: MoePlan, c: Seq<HeadChunk>) -> Seq<MoeModel> {
    Seq::new(c.len(), |i: int| pf_gather_pass(p, c[i])).push(splice_pass(p))
}

fn push_gathers(out: &mut MoeList, p: &MoePlan, c: &Vec<HeadChunk>)
    ensures
        final(out)@ == old(out)@ + gathers(*p, c@),
{
    let hw: usize = p.d.hidden / 2;
    let mut i: usize = 0;
    while i < c.len()
        invariant
            i <= c@.len(),
            hw == p.d.hidden as int / 2,
            out@ == old(out)@ + gathers(*p, c@.take(i as int)),
        decreases c@.len() - i,
    {
        let u = MoeUniform::Gather {
            row_off: c[i].row_off as u32,
            n_rows: c[i].n_rows as u32,
            hidden_words: hw as u32,
            vocab: p.d.vocab as u32,
            scale: p.f.embed_scale,
        };
        let grid = grid1(hw, 256);
        out.push(
            "g4m-gather",
            MoeSource::Moe,
            "g4m_gather_embed",
            bind4(
                mbuf(30, MoeBuf::EmbedChunk(c[i].index)),
                mbuf(31, MoeBuf::Tok),
                mbuf(32, MoeBuf::ResA),
                muni(33, u),
            ),
            grid,
        );
        i = i + 1;
        assert(out@ =~= old(out)@ + gathers(*p, c@.take(i as int)));
    }
    assert(c@.take(i as int) =~= c@);
}

fn push_pf_gathers(out: &mut MoeList, p: &MoePlan, c: &Vec<HeadChunk>)
    ensures
        final(out)@ == old(out)@ + pf_gathers(*p, c@),
{
    let hw: u32 = (p.d.hidden / 2) as u32;
    let gx: u32 = div_up32(hw, 256);
    let ghost all = Seq::new(c@.len(), |j: int| pf_gather_pass(*p, c@[j]));
    let mut i: usize = 0;
    while i < c.len()
        invariant
            i <= c@.len(),
            hw == (p.d.hidden as int / 2) as u32,
            gx == groups32(hw, 256),
            all == Seq::new(c@.len(), |j: int| pf_gather_pass(*p, c@[j])),
            out@ == old(out)@ + all.take(i as int),
        decreases c@.len() - i,
    {
        let u = MoeUniform::PfGather {
            row_off: c[i].row_off as u32,
            n_rows: c[i].n_rows as u32,
            hidden_words: hw,
            vocab: p.d.vocab as u32,
            scale: p.f.embed_scale,
            m: p.d.m as u32,
        };
        out.push(
            "g4m-pf-gather",
            MoeSource::Prefill,
            "pm_gather_embed",
            bind4(
                mbuf(0, MoeBuf::EmbedChunk(c[i].index)),
                mbuf(1, MoeBuf::Pf(PfBuf::Tok)),
                mbuf(2, MoeBuf::Pf(PfBuf::ResA)),
                muni(3, u),
            ),
            MoeGrid::Dims(gx, p.d.m as u32, 1),
        );
        i = i + 1;
        assert(out@ =~= old(out)@ + all.take(i as int));
    }
    assert(all.take(i as int) =~= all);
    let u = MoeUniform::PfSplice { hidden_words: hw, m: p.d.m as u32 };
    out.push(
        "g4m-pf-splice",
        MoeSource::Prefill,
        "pm_splice_embed_rows",
        bind4(
            mbuf(100, MoeBuf::Pf(PfBuf::SpliceRows)),
            mbuf(101, MoeBuf::Pf(PfBuf::SpliceMask)),
            mbuf(102, MoeBuf::Pf(PfBuf::ResA)),
            muni(103, u),
        ),
        MoeGrid::Dims(gx, p.d.m as u32, 1),
    );
    assert(out@ =~= old(out)@ + pf_gathers(*p, c@));
}

/// The logits in single precision, capped where the model asks for it.
pub open spec fn softcap_pass(
    p: MoePlan,
    label: Seq<char>,
    x: MoeBuf,
    y: MoeBuf,
    n: int,
) -> MoeModel {
    moe_pass(
        label,
        MoeSource::ResScale,
        if p.f.capped { "tanh_softcap_bf16_to_f32"@ } else { "cast_bf16_to_f32"@ },
        seq![
            mb(0, x),
            mu(
                3,
                MoeUniform::ResScale {
                    n: n as u32,
                    n_words: (n / 2) as u32,
                    scale: F32_ONE,
                    cap: p.f.cap,
                    inv_cap: if p.f.capped { p.f.inv_cap } else { 0 },
                },
            ),
            mb(4, y),
        ],
        over(n / 2, 256),
    )
}

fn push_softcap(
    out: &mut MoeList,
    p: &MoePlan,
    label: &'static str,
    x: MoeBuf,
    y: MoeBuf,
    n: usize,
)
    ensures
        final(out)@ == old(out)@.push(softcap_pass(*p, label@, x, y, n as int)),
{
    let u = MoeUniform::ResScale {
        n: n as u32,
        n_words: (n / 2) as u32,
        scale: F32_ONE,
        cap: p.f.cap,
        inv_cap: if p.f.capped { p.f.inv_cap } else { 0 },
    };
    let grid = grid1(n / 2, 256);
    out.push(
        label,
        MoeSource::ResScale,
        if p.f.capped { "tanh_softcap_bf16_to_f32" } else { "cast_bf16_to_f32" },
        bind3(mbuf(0, x), muni(3, u), mbuf(4, y)),
        grid,
    );
}

/// The logits of the row of a batch that begins at word `x_off`, chunk by chunk.
pub open spec fn logit_row(
    p: MoePlan,
    c: Seq<HeadChunk>,
    x: MoeBuf,
    x_off: int,
    y: MoeBuf,
    y_off: int,
) -> Seq<MoeModel> {
    Seq::new(c.len(), |i: int| lmhead_pass(p, c[i], x, x_off, y, y_off + c[i].row_off as int / 2))
}

fn push_logit_row(
    out: &mut MoeList,
    p: &MoePlan,
    c: &Vec<HeadChunk>,
    x: MoeBuf,
    x_off: usize,
    y: MoeBuf,
    y_off: usize,
)
    requires
        p.sw.i8_head is Some ==> x_off == 0 && p.d.hidden % 16 == 0,
        y_off + p.d.vocab <= usize::MAX,
        forall|i: int| 0 <= i < c@.len() ==> (#[trigger] c@[i]).row_off <= p.d.vocab,
    ensures
        final(out)@ == old(out)@ + logit_row(*p, c@, x, x_off as int, y, y_off as int),
{
    let mut i: usize = 0;
    while i < c.len()
        invariant
            i <= c@.len(),
            p.sw.i8_head is Some ==> x_off == 0 && p.d.hidden % 16 == 0,
            y_off + p.d.vocab <= usize::MAX,
            forall|j: int| 0 <= j < c@.len() ==> (#[trigger] c@[j]).row_off <= p.d.vocab,
            out@ == old(out)@ + logit_row(*p, c@.take(i as int), x, x_off as int, y, y_off as int),
        decreases c@.len() - i,
    {
        assert(c@[i as int].row_off <= p.d.vocab);
        push_lmhead_row(out, p, &c[i], x, x_off, y, y_off + c[i].row_off / 2);
        i = i + 1;
        assert(out@ =~= old(out)@ + logit_row(
            *p,
            c@.take(i as int),
            x,
            x_off as int,
            y,
            y_off as int,
        ));
    }
    assert(c@.take(i as int) =~= c@);
}

/// The final norm of the decode row.
pub open spec fn final_norm_pass(p: MoePlan) -> MoeModel {
    norm_pass(
        p,
        "g4m-final-rms"@,
        res_in(p.d.n_layers as int, false),
        MoeBuf::FinalLn,
        MoeBuf::FinalX,
    )
}

/// The decode row's logits and the choice of the next token.
pub open spec fn head_passes(p: MoePlan, c: Seq<HeadChunk>) -> Seq<MoeModel> {
    let u = MoeUniform::Argmax { n: p.d.vocab as u32, groups: ARGMAX_GROUPS as u32 };
    logit_row(p, c, MoeBuf::FinalX, 0, MoeBuf::LogitsBf16, 0) + seq![
        softcap_pass(
            p,
            "g4m-softcap"@,
            MoeBuf::LogitsBf16,
            MoeBuf::Logits,
            p.d.vocab as int,
        ),
        moe_pass(
            "g4m-am1"@,
            MoeSource::Moe,
            "g4m_argmax_bf16_stage1"@,
            seq![
                mb(60, MoeBuf::LogitsBf16),
                mb(61, MoeBuf::ArgVal),
                mb(62, MoeBuf::ArgIdx),
                mu(64, u),
            ],
            MoeGrid::Dims(ARGMAX_GROUPS as u32, 1, 1),
        ),
        moe_pass(
            "g4m-am2"@,
            MoeSource::Moe,
            "g4m_argmax_stage2"@,
            seq![
                mb(61, MoeBuf::ArgVal),
                mb(62, MoeBuf::ArgIdx),
                mb(63, MoeBuf::TokenOut),
                mu(64, u),
            ],
            MoeGrid::Dims(1, 1, 1),
        ),
    ]
}

fn push_head(out: &mut MoeList, p: &MoePlan, c: &Vec<HeadChunk>)
    requires
        p.sw.i8_head is Some ==> p.d.hidden % 16 == 0,
        forall|i: int| 0 <= i < c@.len() ==> (#[trigger] c@[i]).row_off <= p.d.vocab,
    ensures
        final(out)@ == old(out)@ + head_passes(*p, c@),
{
    push_logit_row(out, p, c, MoeBuf::FinalX, 0, MoeBuf::LogitsBf16, 0);
    push_softcap(out, p, "g4m-softcap", MoeBuf::LogitsBf16, MoeBuf::Logits, p.d.vocab);
    let u = MoeUniform::Argmax { n: p.d.vocab as u32, groups: ARGMAX_GROUPS as u32 };
    out.push(
        "g4m-am1",
        MoeSource::Moe,
        "g4m_argmax_bf16_stage1",
        bind4(
            mbuf(60, MoeBuf::LogitsBf16),
            mbuf(61, MoeBuf::ArgVal),
            mbuf(62, MoeBuf::ArgIdx),
            muni(64, u),
        ),
        MoeGrid::Dims(ARGMAX_GROUPS as u32, 1, 1),
    );
    out.push(
        "g4m-am2",
        MoeSource::Moe,
        "g4m_argmax_stage2",
        bind4(
            mbuf(61, MoeBuf::ArgVal),
            mbuf(62, MoeBuf::ArgIdx),
            mbuf(63, MoeBuf::TokenOut),
            muni(64, u),
        ),
        MoeGrid::Dims(1, 1, 1),
    );
    assert(out@ =~= old(out)@ + head_passes(*p, c@));
}

/// The logits of the first `rows` rows of a verify batch.
pub open spec fn verify_logits(p: MoePlan, c: Seq<HeadChunk>, rows: int) -> Seq<MoeModel>
    decreases rows,
{
    if rows <= 0 {
        Seq::empty()
    } else {
        verify_logits(p, c, rows - 1) + logit_row(
            p,
            c,
            MoeBuf::VerifyNormed,
            (rows - 1) * (p.d.hidden as int / 2),
            MoeBuf::VerifyLogitsBf16,
            (rows - 1) * (p.d.vocab as int / 2),
        )
    }
}

/// The epilogue that chooses a token for each row of a verify batch.
pub open spec fn verify_passes(p: MoePlan, c: Seq<HeadChunk>, rows: int) -> Seq<MoeModel> {
    let u = MoeUniform::PfArgmax { n: p.d.vocab as u32, groups: ARGMAX_GROUPS as u32 };
    seq![
        pf_norm_pass(
            p,
            "g4m-verify-final-rms"@,
            res_in(p.d.n_layers as int, true),
            MoeBuf::FinalLn,
            MoeBuf::VerifyNormed,
            rows,
        ),
    ] + verify_logits(p, c, rows) + seq![
        softcap_pass(
            p,
            "g4m-verify-softcap"@,
            MoeBuf::VerifyLogitsBf16,
            MoeBuf::VerifyLogits,
            rows * p.d.vocab,
        ),
        moe_pass(
            "g4m-verify-am1"@,
            MoeSource::Prefill,
            "pm_verify_argmax_bf16_stage1"@,
            seq![
                mb(110, MoeBuf::VerifyLogitsBf16),
                mb(111, MoeBuf::VerifyArgVal),
                mb(112, MoeBuf::VerifyArgIdx),
                mu(114, u),
            ],
            MoeGrid::Dims(ARGMAX_GROUPS as u32, rows as u32, 1),
        ),
        moe_pass(
            "g4m-verify-am2"@,
            MoeSource::Prefill,
            "pm_verify_argmax_stage2"@,
            seq![
                mb(111, MoeBuf::VerifyArgVal),
                mb(112, MoeBuf::VerifyArgIdx),
                mb(113, MoeBuf::VerifyTokens),
                mu(114, u),
            ],
            MoeGrid::Dims(1, rows as u32, 1),
        ),
    ]
}

fn build_verify(p: &MoePlan, c: &Vec<HeadChunk>, rows: usize) -> (out: MoeList)
    requires
        p.sw.i8_head is None,
        (rows + 1) * p.d.vocab <= usize::MAX,
        rows * p.d.hidden <= usize::MAX,
        forall|i: int| 0 <= i < c@.len() ==> (#[trigger] c@[i]).row_off <= p.d.vocab,
    ensures
        out@ == verify_passes(*p, c@, rows as int),
{
    let mut out = MoeList::new();
    let (last, _) = residual(p.d.n_layers, true);
    pf_norm(
        &mut out,
        p,
        "g4m-verify-final-rms",
        last,
        MoeBuf::FinalLn,
        MoeBuf::VerifyNormed,
        rows,
    );
    let ghost first = out@;
    let hw: usize = p.d.hidden / 2;
    let vw: usize = p.d.vocab / 2;
    let mut r: usize = 0;
    while r < rows
        invariant
            r <= rows,
            hw == p.d.hidden as int / 2,
            vw == p.d.vocab as int / 2,
            p.sw.i8_head is None,
            (rows + 1) * p.d.vocab <= usize::MAX,
            rows * p.d.hidden <= usize::MAX,
            forall|i: int| 0 <= i < c@.len() ==> (#[trigger] c@[i]).row_off <= p.d.vocab,
            out@ == first + verify_logits(*p, c@, r as int),
        decreases rows - r,
    {
        assert(0 <= r * hw <= rows * p.d.hidden) by (nonlinear_arith)
            requires
                r < rows,
                hw <= p.d.hidden,
        ;
        assert(0 <= r * vw && r * vw + p.d.vocab <= (rows + 1) * p.d.vocab) by (nonlinear_arith)
            requires
                r < rows,
                vw <= p.d.vocab,
        ;
        push_logit_row(
            &mut out,
            p,
            c,
            MoeBuf::VerifyNormed,
            r * hw,
            MoeBuf::VerifyLogitsBf16,
            r * vw,
        );
        r = r + 1;
        assert(out@ =~= first + verify_logits(*p, c@, r as int));
    }
    assert(rows * p.d.vocab <= (rows + 1) * p.d.vocab) by (nonlinear_arith);
    push_softcap(
        &mut out,
        p,
        "g4m-verify-softcap",
        MoeBuf::VerifyLogitsBf16,
        MoeBuf::VerifyLogits,
        rows * p.d.vocab,
    );
    let u = MoeUniform::PfArgmax { n: p.d.vocab as u32, groups: ARGMAX_GROUPS as u32 };
    out.push(
        "g4m-verify-am1",
        MoeSource::Prefill,
        "pm_verify_argmax_bf16_stage1",
        bind4(
            mbuf(110, MoeBuf::VerifyLogitsBf16),
            mbuf(111, MoeBuf::VerifyArgVal),
            mbuf(112, MoeBuf::VerifyArgIdx),
            muni(114, u),
        ),
        MoeGrid::Dims(ARGMAX_GROUPS as u32, rows as u32, 1),
    );
    out.push(
        "g4m-verify-am2",
        MoeSource::Prefill,
        "pm_verify_argmax_stage2",
        bind4(
            mbuf(111, MoeBuf::VerifyArgVal),
            mbuf(112, MoeBuf::VerifyArgIdx),
            mbuf(113, MoeBuf::VerifyTokens),
            muni(114, u),
        ),
        MoeGrid::Dims(1, rows as u32, 1),
    );
    assert(out@ =~= verify_passes(*p, c@, rows as int));
    out
}

/// Why a model cannot be turned into a graph.
#[derive(Clone, Copy, Debug, PartialEq, Eq, Structural)]
pub enum MoeError {
    MaxSeq,
    HiddenSize,
    MoeIntermediateSize,
    TooManyExperts,
    TooManyTopK,
    HeadDim(LayerType),
    HeadGroups(LayerType),
    OddSizes,
    UntiedHead,
    /// The fused norms stage a whole row in workgroup memory.
    GroupedTooWide,
    /// A cache in eight bits packs four values to a word.
    Fp8HeadDim(usize),
    /// The device cannot run the flash kernels that a layer takes.
    FlashDevice(usize),
    /// A size does not fit the address type.
    Limits,
}

/// What a graph is built from.
pub struct MoeStart<'a> {
    pub config: &'a Gemma4MoeConfig,
    pub max_seq: usize,
    /// The rows of a prefill chunk that were asked for.
    pub prefill_m: usize,
    /// The rows of a sliding layer's ring where rings are on.
    pub ring: Option<usize>,
    pub f: MoeFactors,
    pub sw: MoeSwitches<'a>,
    /// The even number of rows in a chunk of the embedding table.
    pub chunk_rows: usize,
    /// The most rows of a verify batch.
    pub verify_max: usize,
    pub theta_sliding: u32,
    pub theta_full: u32,
    pub partial_sliding: u32,
    pub partial_full: u32,
    /// The output factor of each layer.
    pub scalars: &'a Vec<u32>,
    pub flash_device: bool,
}

/// Heads of one kind can be laid out: an even width that the kernels hold.
pub open spec fn head_dim_ok(d: KindDims) -> bool {
    d.head_dim % 2 == 0 && d.head_dim <= MAX_HEAD_DIM
}

/// The query heads divide evenly among the key heads.
pub open spec fn groups_ok(n_q: usize, d: KindDims) -> bool {
    if d.num_kv_heads == 0 { n_q == 0 } else { n_q % d.num_kv_heads == 0 }
}

impl<'a> MoeStart<'a> {
    pub open spec fn wf(&self) -> bool {
        &&& self.config.base.wf()
        &&& self.scalars@.len() == self.config.base.num_hidden_layers
        &&& self.chunk_rows >= 2
        &&& self.chunk_rows % 2 == 0
    }

    /// The rows of a prefill chunk: none where the cache is shorter than one.
    pub open spec fn m(&self) -> usize {
        if self.prefill_m > self.max_seq { 0 } else { self.prefill_m }
    }

    /// The ring that sliding layers use: only one that is shorter than the cache.
    pub open spec fn ring_used(&self) -> Option<usize> {
        match self.ring {
            Some(r) if self.max_seq > r => Some(r),
            _ => None,
        }
    }

    pub open spec fn plan(&self) -> MoePlan<'a> {
        let c = self.config.base;
        MoePlan {
            d: MoeDims {
                hidden: c.hidden_size,
                inter: c.intermediate_size,
                moe_inter: self.config.moe_intermediate_size,
                n_experts: self.config.num_experts,
                top_k: self.config.top_k_experts,
                vocab: c.vocab_size,
                n_q: c.num_attention_heads,
                n_layers: c.num_hidden_layers,
                max_seq: self.max_seq,
                m: self.m(),
            },
            f: self.f,
            sw: self.sw,
        }
    }

    pub open spec fn layer(&self, i: int) -> MoeLayer {
        let c = self.config.base;
        let kind = c.layer_types@[i];
        let sliding = kind == LayerType::SlidingAttention;
        MoeLayer {
            li: i as usize,
            kind,
            hd: c.dims(kind).head_dim,
            n_kv: c.dims(kind).num_kv_heads,
            has_v: c.spec_has_v(kind),
            window: if sliding { c.sliding_window } else { 0 },
            ring: if sliding { self.ring_used() } else { None },
            rope: RopeKey {
                head_dim: c.dims(kind).head_dim,
                theta: if sliding { self.theta_sliding } else { self.theta_full },
                partial: if sliding { self.partial_sliding } else { self.partial_full },
            },
            scalar: self.scalars@[i],
        }
    }

    pub open spec fn verify_rows(&self) -> int {
        if self.m() < self.verify_max { self.m() as int } else { self.verify_max as int }
    }

    /// The verify epilogue needs prefill rows, the bf16 head, and rows of whole vectors.
    pub open spec fn has_verify(&self) -> bool {
        self.m() > 0 && self.sw.i8_head is None && (self.config.base.hidden_size / 2) % 4 == 0
    }

    pub open spec fn kind_fits(&self, d: KindDims) -> bool {
        let p = self.plan();
        &&& d.num_kv_heads > 0
        &&& p.d.n_q + 2 * d.num_kv_heads <= usize::MAX
        &&& (p.d.n_q + 2 * d.num_kv_heads) * d.head_dim <= usize::MAX
        &&& p.d.m * (p.d.n_q * d.head_dim) <= usize::MAX
        &&& p.d.m * d.num_kv_heads <= usize::MAX
    }

    /// Every size that the passes compute fits the address type.
    pub open spec fn fits(&self) -> bool {
        let p = self.plan();
        &&& self.kind_fits(self.config.base.sliding)
        &&& self.kind_fits(self.config.base.full)
        &&& ffn_fits(p)
        &&& p.d.m * p.d.hidden <= usize::MAX
        &&& p.d.m < usize::MAX
        &&& (p.d.m + 1) * p.d.vocab <= usize::MAX
    }

    /// Why layer `i` or one before it cannot be built.
    pub open spec fn layer_error(&self, n: int) -> Option<MoeError>
        decreases n,
    {
        if n <= 0 {
            None
        } else if self.layer_error(n - 1) is Some {
            self.layer_error(n - 1)
        } else {
            let l = self.layer(n - 1);
            if self.sw.fp8 && l.hd % 4 != 0 {
                Some(MoeError::Fp8HeadDim((n - 1) as usize))
            } else if takes_flash(self.plan(), l.kind) && !self.flash_device {
                Some(MoeError::FlashDevice((n - 1) as usize))
            } else {
                None
            }
        }
    }

    /// The first thing that keeps the graph from being built.
    pub open spec fn error(&self) -> Option<MoeError> {
        let c = self.config.base;
        if self.max_seq == 0 {
            Some(MoeError::MaxSeq)
        } else if c.hidden_size % 64 != 0 {
            Some(MoeError::HiddenSize)
        } else if self.config.moe_intermediate_size % 64 != 0 {
            Some(MoeError::MoeIntermediateSize)
        } else if self.config.num_experts > MAX_EXPERTS {
            Some(MoeError::TooManyExperts)
        } else if self.config.top_k_experts > MAX_TOPK {
            Some(MoeError::TooManyTopK)
        } else if !head_dim_ok(c.sliding) {
            Some(MoeError::HeadDim(LayerType::SlidingAttention))
        } else if !groups_ok(c.num_attention_heads, c.sliding) {
            Some(MoeError::HeadGroups(LayerType::SlidingAttention))
        } else if !head_dim_ok(c.full) {
            Some(MoeError::HeadDim(LayerType::FullAttention))
        } else if !groups_ok(c.num_attention_heads, c.full) {
            Some(MoeError::HeadGroups(LayerType::FullAttention))
        } else if c.intermediate_size % 2 != 0 {
            Some(MoeError::OddSizes)
        } else if !c.tie_word_embeddings {
            Some(MoeError::UntiedHead)
        } else if self.sw.grouped && c.hidden_size / 2
            > GROUPED_NORM_CHAIN_MAX_HIDDEN_WORDS_PN_BUF {
            Some(MoeError::GroupedTooWide)
        } else if self.layer_error(c.num_hidden_layers as int) is Some {
            self.layer_error(c.num_hidden_layers as int)
        } else if !self.fits() {
            Some(MoeError::Limits)
        } else {
            None
        }
    }

    pub open spec fn chunks(&self) -> Seq<HeadChunk> {
        numbered(chunks_from(self.config.base.vocab_size as int, self.chunk_rows as int, 0))
    }

    /// The decode passes of the first `n` layers.
    pub open spec fn layers(&self, n: int) -> Seq<MoeModel>
        decreases n,
    {
        if n <= 0 {
            Seq::empty()
        } else {
            self.layers(n - 1) + layer_passes(self.plan(), self.layer(n - 1))
        }
    }

    pub open spec fn pf_layers(&self, n: int) -> Seq<MoeModel>
        decreases n,
    {
        if n <= 0 {
            Seq::empty()
        } else {
            self.pf_layers(n - 1) + pf_layer_passes(self.plan(), self.layer(n - 1))
        }
    }

    /// The decode passes up to the head.
    pub open spec fn body(&self) -> Seq<MoeModel> {
        (gathers(self.plan(), self.chunks()) + self.layers(
            self.config.base.num_hidden_layers as int,
        )).push(final_norm_pass(self.plan()))
    }

    /// The passes of a chunk; none without prefill.
    pub open spec fn prefill(&self) -> Seq<MoeModel> {
        if self.m() == 0 {
            Seq::empty()
        } else {
            pf_gathers(self.plan(), self.chunks()) + self.pf_layers(
                self.config.base.num_hidden_layers as int,
            )
        }
    }
}

/// A planned graph. The passes before `head_start` leave the final hidden row.
pub struct MoeGraph {
    pub decode: MoeList,
    pub prefill: MoeList,
    pub verify: Option<(usize, MoeList)>,
    pub head_start: usize,
    pub m: usize,
    pub chunks: Vec<HeadChunk>,
}

impl MoeGraph {
    pub open spec fn of(&self, s: &MoeStart) -> bool {
        &&& self.decode@ == s.body() + head_passes(s.plan(), s.chunks())
        &&& self.prefill@ == s.prefill()
        &&& self.head_start == s.body().len()
        &&& self.m == s.m()
        &&& self.chunks@ == s.chunks()
        &&& self.verify is Some == s.has_verify()
        &&& self.verify matches Some((rows, list)) ==> rows == s.verify_rows() && list@
            == verify_passes(s.plan(), s.chunks(), s.verify_rows())
    }
}

impl MoeGraph {
    pub fn prefill_pass_count(&self) -> (r: usize)
        ensures
            r == self.prefill@.len(),
    {
        self.prefill.len()
    }
}

fn fit2(a: usize, b: usize) -> (r: bool)
    ensures
        r == (a * b <= usize::MAX),
{
    a.checked_mul(b).is_some()
}

fn fit3(a: usize, b: usize, c: usize) -> (r: bool)
    requires
        a * b <= usize::MAX,
    ensures
        r == (a * b * c <= usize::MAX),
{
    (a * b).checked_mul(c).is_some()
}

impl<'a> MoeStart<'a> {
    pub(crate) fn plan_m(&self) -> (r: MoePlan<'a>)
        ensures
            r == self.plan(),
    {
        let c = &self.config.base;
        MoePlan {
            d: MoeDims {
                hidden: c.hidden_size,
                inter: c.intermediate_size,
                moe_inter: self.config.moe_intermediate_size,
                n_experts: self.config.num_experts,
                top_k: self.config.top_k_experts,
                vocab: c.vocab_size,
                n_q: c.num_attention_heads,
                n_layers: c.num_hidden_layers,
                max_seq: self.max_seq,
                m: if self.prefill_m > self.max_seq { 0 } else { self.prefill_m },
            },
            f: self.f,
            sw: self.sw,
        }
    }

    pub(crate) fn plan_layer(&self, i: usize) -> (r: MoeLayer)
        requires
            self.wf(),
            i < self.config.base.num_hidden_layers,
        ensures
            r == self.layer(i as int),
    {
        let c = &self.config.base;
        let kind = c.layer_types[i];
        let sliding = match kind {
            LayerType::SlidingAttention => true,
            LayerType::FullAttention => false,
        };
        let ring: Option<usize> = match self.ring {
            Some(r) => if self.max_seq > r { Some(r) } else { None },
            None => None,
        };
        MoeLayer {
            li: i,
            kind,
            hd: c.head_dim_for(kind),
            n_kv: c.num_kv_heads_for(kind),
            has_v: c.has_v(kind),
            window: if sliding { c.sliding_window } else { 0 },
            ring: if sliding { ring } else { None },
            rope: RopeKey {
                head_dim: c.head_dim_for(kind),
                theta: if sliding { self.theta_sliding } else { self.theta_full },
                partial: if sliding { self.partial_sliding } else { self.partial_full },
            },
            scalar: self.scalars[i],
        }
    }

    fn check_kind(&self, d: &KindDims) -> (r: bool)
        ensures
            r == self.kind_fits(*d),
    {
        let p = self.plan_m();
        if d.num_kv_heads == 0 {
            return false;
        }
        let two: usize = match d.num_kv_heads.checked_mul(2) {
            Some(t) => t,
            None => {
                return false;
            },
        };
        let heads: usize = match p.d.n_q.checked_add(two) {
            Some(h) => h,
            None => {
                return false;
            },
        };
        if !fit2(heads, d.head_dim) {
            return false;
        }
        proof {
            let q = p.d.n_q as int;
            let h = heads as int;
            let w = d.head_dim as int;
            assert(0 <= q * w <= h * w) by (nonlinear_arith)
                requires
                    0 <= q <= h,
                    0 <= w,
            ;
        }
        fit2(p.d.m, p.d.n_q * d.head_dim) && fit2(p.d.m, d.num_kv_heads)
    }

    fn check_fits(&self) -> (r: bool)
        ensures
            r == self.fits(),
    {
        let p = self.plan_m();
        self.check_kind(&self.config.base.sliding) && self.check_kind(&self.config.base.full)
            && fit2(p.d.moe_inter, p.d.hidden) && fit2(p.d.top_k, p.d.moe_inter) && fit2(
            p.d.m,
            p.d.inter,
        ) && fit2(p.d.m, p.d.top_k) && fit3(p.d.m, p.d.top_k, p.d.moe_inter) && fit2(
            p.d.m,
            p.d.hidden,
        ) && p.d.m < usize::MAX && fit2(p.d.m + 1, p.d.vocab)
    }

    fn check_layers(&self) -> (r: Result<(), MoeError>)
        requires
            self.wf(),
        ensures
            match r {
                Ok(_) => self.layer_error(self.config.base.num_hidden_layers as int) is None,
                Err(e) => self.layer_error(self.config.base.num_hidden_layers as int) == Some(e),
            },
    {
        let n: usize = self.config.base.num_hidden_layers;
        let mut i: usize = 0;
        while i < n
            invariant
                self.wf(),
                n == self.config.base.num_hidden_layers,
                i <= n,
                self.layer_error(i as int) is None,
            decreases n - i,
        {
            let l = self.plan_layer(i);
            if self.sw.fp8 && l.hd % 4 != 0 {
                proof {
                    self.lemma_layer_error(i + 1, n as int);
                }
                return Err(MoeError::Fp8HeadDim(i));
            }
            let flash = match l.kind {
                LayerType::FullAttention => self.sw.flash_full,
                LayerType::SlidingAttention => self.sw.flash_sliding,
            };
            if flash && !self.flash_device {
                proof {
                    self.lemma_layer_error(i + 1, n as int);
                }
                return Err(MoeError::FlashDevice(i));
            }
            i = i + 1;
        }
        Ok(())
    }

    proof fn lemma_layer_error(&self, i: int, n: int)
        requires
            0 <= i <= n,
            self.layer_error(i) is Some,
        ensures
            self.layer_error(n) == self.layer_error(i),
        decreases n - i,
    {
        if i < n {
            self.lemma_layer_error(i, n - 1);
        }
    }

    /// Whether the graph can be built.
    pub fn check(&self) -> (r: Result<(), MoeError>)
        requires
            self.wf(),
        ensures
            match r {
                Ok(_) => self.error() is None,
                Err(e) => self.error() == Some(e),
            },
    {
        let c = &self.config.base;
        if self.max_seq == 0 {
            return Err(MoeError::MaxSeq);
        }
        if c.hidden_size % (2 * W4_GS) != 0 {
            return Err(MoeError::HiddenSize);
        }
        if self.config.moe_intermediate_size % (2 * W4_GS) != 0 {
            return Err(MoeError::MoeIntermediateSize);
        }
        if self.config.num_experts > MAX_EXPERTS {
            return Err(MoeError::TooManyExperts);
        }
        if self.config.top_k_experts > MAX_TOPK {
            return Err(MoeError::TooManyTopK);
        }
        if !check_head_dim(&c.sliding) {
            return Err(MoeError::HeadDim(LayerType::SlidingAttention));
        }
        if !check_groups(c.num_attention_heads, &c.sliding) {
            return Err(MoeError::HeadGroups(LayerType::SlidingAttention));
        }
        if !check_head_dim(&c.full) {
            return Err(MoeError::HeadDim(LayerType::FullAttention));
        }
        if !check_groups(c.num_attention_heads, &c.full) {
            return Err(MoeError::HeadGroups(LayerType::FullAttention));
        }
        if c.intermediate_size % 2 != 0 {
            return Err(MoeError::OddSizes);
        }
        if !c.tie_word_embeddings {
            return Err(MoeError::UntiedHead);
        }
        if self.sw.grouped && c.hidden_size / 2 > GROUPED_NORM_CHAIN_MAX_HIDDEN_WORDS_PN_BUF {
            return Err(MoeError::GroupedTooWide);
        }
        match self.check_layers() {
            Err(e) => {
                return Err(e);
            },
            Ok(_) => {},
        }
        if !self.check_fits() {
            return Err(MoeError::Limits);
        }
        Ok(())
    }

    pub(crate) proof fn lemma_layer_fits(&self, i: int)
        requires
            self.wf(),
            self.error() is None,
            0 <= i < self.config.base.num_hidden_layers,
        ensures
            self.layer(i).fits(self.plan()),
    {
        let kind = self.config.base.layer_types@[i];
        assert(kind == LayerType::SlidingAttention || kind == LayerType::FullAttention);
    }

    /// Plans the whole graph.
    pub fn build(&self) -> (r: Result<MoeGraph, MoeError>)
        requires
            self.wf(),
        ensures
            match r {
                Ok(g) => self.error() is None && g.of(self),
                Err(e) => self.error() == Some(e),
            },
    {
        match self.check() {
            Err(e) => {
                return Err(e);
            },
            Ok(_) => {},
        }
        let p = self.plan_m();
        let n: usize = self.config.base.num_hidden_layers;
        let chunks = head_chunks(self.config.base.vocab_size, self.chunk_rows);
        proof {
            assert forall|i: int| 0 <= i < chunks@.len() implies (#[trigger] chunks@[i]).row_off
                <= p.d.vocab by {
                law_embed_chunks(p.d.vocab as int, self.chunk_rows as int, 0, i);
            }
            assert(p.d.hidden % 64 == 0 ==> p.d.hidden % 16 == 0);
            assert forall|j: int| 0 <= j < n implies (#[trigger] self.layer(j)).fits(p) by {
                self.lemma_layer_fits(j);
            }
        }
        let mut decode = MoeList::new();
        let mut prefill = MoeList::new();
        push_gathers(&mut decode, &p, &chunks);
        if p.d.m > 0 {
            push_pf_gathers(&mut prefill, &p, &chunks);
        }
        let mut i: usize = 0;
        while i < n
            invariant
                self.wf(),
                forall|j: int| 0 <= j < n ==> (#[trigger] self.layer(j)).fits(p),
                ffn_fits(p),
                p.d.m * p.d.hidden <= usize::MAX,
                n == self.config.base.num_hidden_layers,
                i <= n,
                p == self.plan(),
                chunks@ == self.chunks(),
                decode@ == gathers(p, chunks@) + self.layers(i as int),
                prefill@ == if p.d.m > 0 {
                    pf_gathers(p, chunks@) + self.pf_layers(i as int)
                } else {
                    Seq::empty()
                },
            decreases n - i,
        {
            let l = self.plan_layer(i);
            assert(l.fits(p));
            push_layer(&mut decode, &p, &l);
            if p.d.m > 0 {
                push_pf_layer(&mut prefill, &p, &l);
            }
            i = i + 1;
            assert(decode@ =~= gathers(p, chunks@) + self.layers(i as int));
            if p.d.m > 0 {
                assert(prefill@ =~= pf_gathers(p, chunks@) + self.pf_layers(i as int));
            }
        }
        let (last, _) = residual(n, false);
        push_norm(&mut decode, &p, "g4m-final-rms", last, MoeBuf::FinalLn, MoeBuf::FinalX);
        let head_start: usize = decode.len();
        assert(decode@ =~= self.body());
        push_head(&mut decode, &p, &chunks);
        let verify = if p.d.m > 0 && self.sw.i8_head.is_none() && (p.d.hidden / 2) % 4 == 0 {
            let rows: usize = if p.d.m < self.verify_max { p.d.m } else { self.verify_max };
            proof {
                let v = p.d.vocab as int;
                let h = p.d.hidden as int;
                let r = rows as int;
                let m = p.d.m as int;
                assert((r + 1) * v <= (m + 1) * v && r * h <= m * h) by (nonlinear_arith)
                    requires
                        0 <= r <= m,
                        v >= 0,
                        h >= 0,
                ;
            }
            Some((rows, build_verify(&p, &chunks, rows)))
        } else {
            None
        };
        let m: usize = p.d.m;
        Ok(MoeGraph { decode, prefill, verify, head_start, m, chunks })
    }
}

fn check_head_dim(d: &KindDims) -> (r: bool)
    ensures
        r == head_dim_ok(*d),
{
    d.head_dim % 2 == 0 && d.head_dim <= MAX_HEAD_DIM
}

fn check_groups(n_q: usize, d: &KindDims) -> (r: bool)
    ensures
        r == groups_ok(n_q, *d),
{
    if d.num_kv_heads == 0 { n_q == 0 } else { n_q % d.num_kv_heads == 0 }
}

} // verus!
