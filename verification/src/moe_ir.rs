//! What a mixture-of-experts graph is made of: buffers, kernel parameters and passes.
use vstd::prelude::*;
use crate::e4b_ir::GroupsX;

verus! {

/// A rotary table: layers with equal entries share it. Factors as the bits of their values.
#[derive(Clone, Copy, Debug, PartialEq, Eq, Structural)]
pub struct RopeKey {
    pub head_dim: usize,
    pub theta: u32,
    pub partial: u32,
}

/// A buffer that belongs to one layer.
#[derive(Clone, Copy, Debug, PartialEq, Eq, Structural)]
pub enum LayerBuf {
    InLn,
    PostAttnLn,
    PreFfwLn,
    PostFfw1Ln,
    PreFfw2Ln,
    PostFfw2Ln,
    PostFfwLn,
    AttnOut,
    AttnPost,
    NormedMlp,
    DenseOut,
    H1,
    MoeIn,
    MoeOut,
    H2,
    FfwSum,
    Combined,
    Qw,
    Kw,
    Vw,
    Ow,
    QkvW,
    QRaw,
    KRaw,
    VRaw,
    QkvRaw,
    Qn,
    Kn,
    Vn,
    QkvN,
    Q,
    K,
    V,
    Qkv,
    Kc,
    Vc,
    Ksc,
    Vsc,
    AttnBf16,
    FlashScratch,
    Scores,
    AttnF32,
    MlpGw,
    MlpUw,
    MlpDw,
    MlpG,
    MlpU,
    MlpAct,
    MoeOnes,
    MoeRscale,
    MoeRnorm,
    MoeRin,
    MoeRouter,
    MoeRlogits,
    MoeIds,
    MoeWts,
    MoePes,
    Eg,
    EgScales,
    Eu,
    EuScales,
    Ed,
    EdScales,
    YGate,
    YUp,
    MoeAct,
    YDown,
}

/// A buffer of the prefill rows; all layers use the same ones.
#[derive(Clone, Copy, Debug, PartialEq, Eq, Structural)]
pub enum PfBuf {
    Tok,
    Pos,
    SpliceRows,
    SpliceMask,
    ResA,
    ResB,
    Normed,
    AttnOut,
    AttnPost,
    NormedMlp,
    DenseOut,
    H1,
    MoeIn,
    MoeOut,
    H2,
    FfwSum,
    Combined,
    QRaw,
    KRaw,
    VRaw,
    Q,
    K,
    V,
    Scores,
    AttnF32,
    AttnBf16,
    MlpG,
    MlpU,
    MlpAct,
    Rnormed,
    RouterIn,
    Rlogits,
    Ids,
    Wts,
    YGate,
    YUp,
    MoeAct,
    YDown,
}

#[derive(Clone, Copy, Debug, PartialEq, Eq, Structural)]
pub enum MoeBuf {
    Tok,
    Pos,
    /// The attention parameters that the full (`true`) or the sliding layers share.
    Flash(bool),
    ResA,
    ResB,
    Normed,
    EmbedChunk(usize),
    LmI8(usize),
    LmI8Scales(usize),
    RopeCos(RopeKey),
    RopeSin(RopeKey),
    Layer(usize, LayerBuf),
    Pf(PfBuf),
    FinalLn,
    FinalX,
    LogitsBf16,
    Logits,
    ArgVal,
    ArgIdx,
    TokenOut,
    VerifyNormed,
    VerifyLogitsBf16,
    VerifyLogits,
    VerifyArgVal,
    VerifyArgIdx,
    VerifyTokens,
}

/// The parameters of a bf16 row product; `alpha` as its bits.
#[derive(Clone, Copy, Debug, PartialEq, Eq, Structural)]
pub struct GemvBf16Params {
    pub n_rows: u32,
    pub k_words: u32,
    pub groups_x: GroupsX,
    pub out_f32: u32,
    pub w_row_words: u32,
    pub x_off_words: u32,
    pub y_off_words: u32,
    pub wide: u32,
    pub alpha: u32,
}

/// The parameters of an int8 row product; `alpha` as its bits.
#[derive(Clone, Copy, Debug, PartialEq, Eq, Structural)]
pub struct GemvI8Params {
    pub n_rows: u32,
    pub k_words: u32,
    pub groups_x: GroupsX,
    pub out_f32: u32,
    pub w_row_words: u32,
    pub x_off_words: u32,
    pub y_off_words: u32,
    pub s_row_elems: u32,
    pub alpha: u32,
}

/// The parameters of a product with the matrices of chosen experts.
#[derive(Clone, Copy, Debug, PartialEq, Eq, Structural)]
pub struct W4Params {
    pub n_rows: u32,
    pub groups: u32,
    pub groups_x: GroupsX,
    pub w_e_stride_words: u32,
    pub s_e_stride_elems: u32,
    pub x_slot_stride_words: u32,
    pub y_slot_stride_words: u32,
    pub x_tok_stride_words: u32,
    pub k_top: u32,
}

/// The contents of a uniform; floating-point fields as their bits.
#[derive(Clone, Copy, Debug, PartialEq, Eq, Structural)]
pub enum MoeUniform {
    Gemv(GemvBf16Params),
    GemvI8(GemvI8Params),
    W4(W4Params),
    PfW4(W4Params),
    Norm { hidden: u32, words: u32, eps: u32, scale: u32 },
    ResScale { n: u32, n_words: u32, scale: u32, cap: u32, inv_cap: u32 },
    NormRope {
        n_rows: u32,
        head_dim: u32,
        src_stride: u32,
        rot_half: u32,
        has_rope: u32,
        n_q: u32,
        n_kv: u32,
        eps: u32,
    },
    KvWrite { words: u32, ring: u32, k_off_words: u32 },
    KvFp8 { n_tokens: u32, n_kv: u32, head_dim: u32, ring: u32, pairs: u32, slots: u32 },
    AttnDecode {
        n_heads: u32,
        n_kv: u32,
        head_dim: u32,
        max_seq: u32,
        group: u32,
        window: u32,
        ring: u32,
        scale: u32,
    },
    Router { n_experts: u32, k: u32 },
    Words { n_words: u32 },
    Combine { hidden_words: u32, k: u32, slot_stride_words: u32 },
    Gather { row_off: u32, n_rows: u32, hidden_words: u32, vocab: u32, scale: u32 },
    Argmax { n: u32, groups: u32 },
    PfGather { row_off: u32, n_rows: u32, hidden_words: u32, vocab: u32, scale: u32, m: u32 },
    PfSplice { hidden_words: u32, m: u32 },
    PfArgmax { n: u32, groups: u32 },
    PfNorm { hidden: u32, words: u32, eps: u32, m: u32 },
    PfGemm {
        n_rows: u32,
        k_words: u32,
        groups_x: GroupsX,
        out_f32: u32,
        w_row_words: u32,
        x_stride_words: u32,
        y_stride_words: u32,
        alpha: u32,
    },
    PfRope {
        n_rows: u32,
        head_dim: u32,
        src_stride: u32,
        rot_half: u32,
        has_rope: u32,
        tok_src_stride: u32,
        tok_dst_stride: u32,
        eps: u32,
    },
    PfKv { words: u32, m: u32, ring: u32 },
    PfAttn {
        n_heads: u32,
        n_kv: u32,
        head_dim: u32,
        max_seq: u32,
        group: u32,
        window: u32,
        m: u32,
        ring: u32,
        scale: u32,
    },
    PfRouter { n_experts: u32, k: u32, m: u32 },
    PfMul { row_words: u32, m: u32 },
    PfCombine { hidden_words: u32, k: u32, slot_stride_words: u32, m: u32 },
}

/// The shader text that a kernel's entry point stands in.
#[derive(Clone, Copy, Debug, PartialEq, Eq, Structural)]
pub enum MoeSource {
    GemvBf16,
    GemvW4,
    GemvI8,
    GemvI8V4,
    Attn,
    Flash,
    Moe,
    Prop,
    ResScale,
    Prefill,
    KvFp8,
}

/// How many workgroups a pass launches: fixed extents, or enough in one dimension to cover
/// the invocations, repeated for each slot.
#[derive(Clone, Copy, Debug, PartialEq, Eq, Structural)]
pub enum MoeGrid {
    Dims(u32, u32, u32),
    OneD(GroupsX),
    OneDSlots(GroupsX, u32),
}

#[derive(Clone, Copy, Debug, PartialEq, Eq, Structural)]
pub enum MoeArg {
    Buf(MoeBuf),
    Uni(MoeUniform),
}

#[derive(Clone, Copy, Debug, PartialEq, Eq, Structural)]
pub struct MoeBind {
    pub slot: u32,
    pub arg: MoeArg,
}

/// One dispatch of a kernel.
pub struct MoePass {
    pub label: &'static str,
    pub src: MoeSource,
    pub entry: &'static str,
    pub binds: Vec<MoeBind>,
    pub grid: MoeGrid,
}

/// The mathematical content of a [`MoePass`].
#[verifier::ext_equal]
pub ghost struct MoeModel {
    pub label: Seq<char>,
    pub src: MoeSource,
    pub entry: Seq<char>,
    pub binds: Seq<MoeBind>,
    pub grid: MoeGrid,
}

impl View for MoePass {
    type V = MoeModel;

    open spec fn view(&self) -> MoeModel {
        MoeModel {
            label: self.label@,
            src: self.src,
            entry: self.entry@,
            binds: self.binds@,
            grid: self.grid,
        }
    }
}

pub open spec fn moe_models(s: Seq<MoePass>) -> Seq<MoeModel> {
    Seq::new(s.len(), |i: int| s[i]@)
}

/// A pass list under construction.
pub struct MoeList {
    pub passes: Vec<MoePass>,
}

impl View for MoeList {
    type V = Seq<MoeModel>;

    open spec fn view(&self) -> Seq<MoeModel> {
        moe_models(self.passes@)
    }
}

pub open spec fn moe_pass(
    label: Seq<char>,
    src: MoeSource,
    entry: Seq<char>,
    binds: Seq<MoeBind>,
    grid: MoeGrid,
) -> MoeModel {
    MoeModel { label, src, entry, binds, grid }
}

impl MoeList {
    pub fn new() -> (r: MoeList)
        ensures
            r@ == Seq::<MoeModel>::empty(),
    {
        let r = MoeList { passes: Vec::new() };
        assert(r@ =~= Seq::<MoeModel>::empty());
        r
    }

    pub fn push(
        &mut self,
        label: &'static str,
        src: MoeSource,
        entry: &'static str,
        binds: Vec<MoeBind>,
        grid: MoeGrid,
    )
        ensures
            final(self)@ == old(self)@.push(moe_pass(label@, src, entry@, binds@, grid)),
    {
        self.passes.push(MoePass { label, src, entry, binds, grid });
        assert(self@ =~= old(self)@.push(moe_pass(label@, src, entry@, binds@, grid)));
    }

    pub fn len(&self) -> (r: usize)
        ensures
            r == self@.len(),
    {
        self.passes.len()
    }
}

pub open spec fn mb(slot: u32, b: MoeBuf) -> MoeBind {
    MoeBind { slot, arg: MoeArg::Buf(b) }
}

pub open spec fn mu(slot: u32, u: MoeUniform) -> MoeBind {
    MoeBind { slot, arg: MoeArg::Uni(u) }
}

/// Binds a buffer to a slot.
pub fn mbuf(slot: u32, b: MoeBuf) -> (r: MoeBind)
    ensures
        r == mb(slot, b),
{
    MoeBind { slot, arg: MoeArg::Buf(b) }
}

/// Binds a uniform with the given contents to a slot.
pub fn muni(slot: u32, u: MoeUniform) -> (r: MoeBind)
    ensures
        r == mu(slot, u),
{
    MoeBind { slot, arg: MoeArg::Uni(u) }
}

/// Lists of a few bindings.
pub fn bind3(a: MoeBind, b: MoeBind, c: MoeBind) -> (r: Vec<MoeBind>)
    ensures
        r@ == seq![a, b, c],
{
    vec![a, b, c]
}

pub fn bind4(a: MoeBind, b: MoeBind, c: MoeBind, d: MoeBind) -> (r: Vec<MoeBind>)
    ensures
        r@ == seq![a, b, c, d],
{
    vec![a, b, c, d]
}

pub fn bind5(a: MoeBind, b: MoeBind, c: MoeBind, d: MoeBind, e: MoeBind) -> (r: Vec<MoeBind>)
    ensures
        r@ == seq![a, b, c, d, e],
{
    vec![a, b, c, d, e]
}

pub fn bind6(a: MoeBind, b: MoeBind, c: MoeBind, d: MoeBind, e: MoeBind, f: MoeBind) -> (r: Vec<MoeBind>)
    ensures
        r@ == seq![a, b, c, d, e, f],
{
    vec![a, b, c, d, e, f]
}

pub fn bind7(a: MoeBind, b: MoeBind, c: MoeBind, d: MoeBind, e: MoeBind, f: MoeBind, g: MoeBind) -> (r: Vec<MoeBind>)
    ensures
        r@ == seq![a, b, c, d, e, f, g],
{
    vec![a, b, c, d, e, f, g]
}

pub fn bind8(a: MoeBind, b: MoeBind, c: MoeBind, d: MoeBind, e: MoeBind, f: MoeBind, g: MoeBind, h: MoeBind) -> (r: Vec<MoeBind>)
    ensures
        r@ == seq![a, b, c, d, e, f, g, h],
{
    vec![a, b, c, d, e, f, g, h]
}

pub fn bind9(a: MoeBind, b: MoeBind, c: MoeBind, d: MoeBind, e: MoeBind, f: MoeBind, g: MoeBind, h: MoeBind, i: MoeBind) -> (r: Vec<MoeBind>)
    ensures
        r@ == seq![a, b, c, d, e, f, g, h, i],
{
    vec![a, b, c, d, e, f, g, h, i]
}

/// The grid that covers `n` invocations in groups of `wg`.
pub open spec fn over(n: int, wg: u32) -> MoeGrid {
    MoeGrid::OneD(GroupsX { invocations: n as u64, wg })
}

pub fn grid1(n: usize, wg: u32) -> (r: MoeGrid)
    ensures
        r == over(n as int, wg),
{
    MoeGrid::OneD(GroupsX { invocations: n as u64, wg })
}

} // verus!
