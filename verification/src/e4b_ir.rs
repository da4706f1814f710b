//! The pass list of the E4B decoder: which kernel runs, on which buffers, over which grid.
use vstd::prelude::*;
use crate::config::LayerType;

verus! {

/// The activation buffers; one set serves decoding, a second one the prefill rows.
#[derive(Clone, Copy, Debug, PartialEq, Eq, Structural)]
pub enum Work {
    HidA,
    HidB,
    T0,
    T1,
    T2,
    Mid,
    PleRaw,
    PleProj,
    PleNormed,
    Pli,
    PlGate,
    PlGated,
    Qa,
    Qb,
    Ka,
    Kb,
    Va,
    Vb,
    QF32,
    AttnPack,
    GuPack,
    ActPack,
    Scratch,
}

/// A weight matrix of the model; layer sites carry their layer.
#[derive(Clone, Copy, Debug, PartialEq, Eq, Structural)]
pub enum Site {
    PerLayerModel,
    Qkv(usize),
    O(usize),
    GateUp(usize),
    Down(usize),
    PerLayerGate(usize),
    PerLayerProj(usize),
}

/// The device buffers one weight matrix is held in.
#[derive(Clone, Copy, Debug, PartialEq, Eq, Structural)]
pub enum Part {
    Weight,
    Scales,
    Params,
}

#[derive(Clone, Copy, Debug, PartialEq, Eq, Structural)]
pub enum Norm {
    Input(usize),
    PostAttn(usize),
    PreFf(usize),
    PostFf(usize),
    PostPerLayer(usize),
    Q(usize),
    K(usize),
    V(usize),
    PerLayerProjection,
    Final,
}

#[derive(Clone, Copy, Debug, PartialEq, Eq, Structural)]
pub enum KvPart {
    K,
    V,
    KScales,
    VScales,
}

/// The four places of a layer that an adapter can attach to.
#[derive(Clone, Copy, Debug, PartialEq, Eq, Structural)]
pub enum LoraKind {
    Qkv,
    O,
    GateUp,
    Down,
}

/// Every buffer a pass can bind.
#[derive(Clone, Copy, Debug, PartialEq, Eq, Structural)]
pub enum Buf {
    /// An activation buffer of the decode set (`false`) or the prefill set (`true`).
    Work(bool, Work),
    Proj(Site, Part),
    Norm(Norm),
    RopeCos(LayerType),
    RopeSin(LayerType),
    Kv(usize, KvPart),
    /// The attention parameters of the decode (`false`) or prefill (`true`) rows.
    Fd(bool, LayerType),
    RopePos,
    KvStart,
    TokIdx,
    EmbedChunk(usize),
    PleChunk(usize),
    LmI8Weight(usize),
    LmI8Scales(usize),
    LogitsPk,
    LogitsF32,
    AmVal,
    AmIdx,
    TokenOut,
    VerifyLogits,
    VerifyAmVal,
    VerifyAmIdx,
    VerifyY(usize),
    LoraA(usize, LoraKind),
    LoraB(usize, LoraKind),
    /// The adapter's token routing table for the decode or the prefill rows.
    LoraMeta(bool, usize, LoraKind),
    LoraScratch(bool),
}

/// The x extent of the one-dimensional grid that covers `invocations` in groups of `wg`.
#[derive(Clone, Copy, Debug, PartialEq, Eq, Structural)]
pub struct GroupsX {
    pub invocations: u64,
    pub wg: u32,
}

/// How many workgroups a pass launches.
///
/// The device decides how a one-dimensional launch is folded into rows when it exceeds
/// a dimension's limit, so such a launch is described by what it covers.
#[derive(Clone, Copy, Debug, PartialEq, Eq, Structural)]
pub enum Grid {
    Dims(u32, u32, u32),
    OneD(GroupsX),
    /// The x extent of a one-dimensional launch, repeated for this many rows.
    OneDRows(GroupsX, u32),
    TensorOps(u32),
    TensorOpsAttn(u32, u32),
}

/// The parameters of a many-row gemm; `row0` is the first row the pass handles.
#[derive(Clone, Copy, Debug, PartialEq, Eq, Structural)]
pub struct MkParams {
    pub m: u32,
    pub x_stride_words: u32,
    pub y_stride_words: u32,
    pub dst_word_off: u32,
}

/// The contents of a uniform buffer. Fields that the kernels read as `f32` hold its bits.
#[derive(Clone, Copy, Debug, PartialEq, Eq, Structural)]
pub enum Uniform {
    Gather { rows_per_chunk: u32, row_words: u32, total_rows: u32, n_chunks: u32 },
    Scale { n: u32, n_words: u32, scale: u32, cap: u32, inv_cap: u32 },
    Rms { hidden: u32, batch: u32, eps: u32, words_per_row: u32 },
    Fnc { hidden: u32, batch: u32, eps: u32, words_per_row: u32, scale: u32 },
    Axpby { n_words: u32, sa: u32, sb: u32 },
    GateMul { n_words: u32, pli_word_off: u32, tok_words: u32, pli_stride: u32 },
    PkOff { dst_word_off: u32 },
    Split { q_rows: u32, kv_rows: u32, v_off: u32 },
    Mk { params: MkParams, row0: usize },
    TensorOps {
        n_rows: u32,
        k_elems: u32,
        gs: u32,
        scale_row_stride: u32,
        scale_elem_stride: u32,
        q_rows: u32,
        kv_rows: u32,
        v_off: u32,
    },
    Rope { n_heads: u32, half_dim: u32, total_words: u32, table_rows: u32 },
    KvFp8 { n_tokens: u32, n_kv: u32, head_dim: u32, pairs: u32, slots: u32 },
    Fac { n_heads: u32, head_dim: u32, half_dim: u32, eps: u32, rows: u32 },
    Gelu { inter: u32, inter_words: u32, rows: u32, tot_pairs: u32 },
    GemvBf16 { n_rows: u32, k_elems: u32, w_row_words: u32, groups: GroupsX },
    GemvW4 {
        n_rows: u32,
        k_elems: u32,
        gs: u32,
        w_row_words: u32,
        scale_row_stride: u32,
        groups: GroupsX,
    },
    LmI8 { n_rows: u32, k_elems: u32, groups: GroupsX, dst_word_off: u32 },
    ArgmaxRows { rows: u32, n: u32 },
    ArgmaxCap { n: u32, cap: u32 },
    Smk { n_rows: u32, k_elems: u32, row_words: u32, groups: GroupsX, m_live: u32 },
    VerifyCap { n_rows: u32, row_off: u32, vocab: u32, m: u32, cap: u32, inv_cap: u32, softcap: u32 },
    LoraCvt { m: u32, width: u32, pk_row_words: u32, wide_row_elems: u32, wide_col_off: u32, total: u32 },
    LoraFused {
        m: u32,
        rank: u32,
        k: u32,
        a_stride: u32,
        y_row_stride: u32,
        win_len: u32,
        off_counts: u32,
        off_start: u32,
        off_active: u32,
        off_slice_n: u32,
        off_slice_start: u32,
        off_b_off: u32,
        off_b_d0: u32,
    },
}

/// The storage route of a four-bit projection.
#[derive(Clone, Copy, Debug, PartialEq, Eq, Structural)]
pub enum W4Variant {
    Block,
    V4,
    Sg16,
}

/// The kernels with many-row twins, which exist once per row width.
#[derive(Clone, Copy, Debug, PartialEq, Eq, Structural)]
pub enum MkPipe {
    Gather,
    GemmBf16Pk,
    GemmBf16Pk3,
    GemmI8Pk,
    GemmI8Pk3,
    GemmI8gPk,
    GemmI8gPk3,
    GemmW4Pk,
    GemmW4Pk3,
    GemmW4V4Pk,
    GemmW4V4Pk3,
    GemmW4SgPk,
    GemmW4SgPk3,
    Flash1,
    Flash1Qtile,
    Flash2Pk,
    GateMul,
}

/// Every compute pipeline a pass can run.
#[derive(Clone, Copy, Debug, PartialEq, Eq, Structural)]
pub enum Pipe {
    TensorOpsPk,
    TensorOpsPk3,
    TensorOpsAttn,
    TensorOpsAttnWide,
    Gather,
    Scale,
    Rms,
    RmsRes,
    ResAdd,
    CastF32,
    Softcap,
    Rope,
    RopeF32,
    KvQuant,
    Flash1(u32),
    Flash1Fold(u32),
    Flash1FoldDeep(u32),
    Flash2Pk,
    Flash2PkDeep,
    GemvPk,
    GemvPk3,
    GemvW4Pk,
    GemvW4Pk3,
    GemvW4V4Pk,
    GemvW4V4Pk3,
    GemvW4SgPk,
    GemvW4SgPk3,
    GemvW4SgPkm,
    GemvW4SgPkm3,
    GemvI8Pk,
    GemvI8Pk3,
    GemvI8gPk,
    GemvI8gPk3,
    LmHeadSg,
    LmHeadI8,
    GeluEven,
    Axpby,
    GateMul,
    ArgmaxStage1,
    ArgmaxStage2,
    ArgmaxCapStage1,
    FncA,
    FncB,
    FncC,
    FacQ,
    FacK,
    FacV,
    /// A many-row kernel at the prefill width (`false`) or the verify width (`true`).
    Mk(bool, MkPipe),
    VerifySmk,
    VerifyCap,
    LoraFused,
    LoraWiden,
    LoraRepack,
}

/// What is bound to a slot: a buffer, or a uniform with these contents.
#[derive(Clone, Copy, Debug, PartialEq, Eq, Structural)]
pub enum Arg {
    Buf(Buf),
    Uni(Uniform),
}

/// One binding of a pass; `off` is a byte offset into the buffer.
#[derive(Clone, Copy, Debug, PartialEq, Eq, Structural)]
pub struct Bind {
    pub slot: u32,
    pub arg: Arg,
    pub off: u64,
}

/// One dispatch of a kernel.
pub struct Pass {
    pub pipe: Pipe,
    pub binds: Vec<Bind>,
    pub grid: Grid,
}

/// The mathematical content of a [`Pass`].
#[verifier::ext_equal]
pub struct PassModel {
    pub pipe: Pipe,
    pub binds: Seq<Bind>,
    pub grid: Grid,
}

impl View for Pass {
    type V = PassModel;

    open spec fn view(&self) -> PassModel {
        PassModel { pipe: self.pipe, binds: self.binds@, grid: self.grid }
    }
}

pub open spec fn pass_models(s: Seq<Pass>) -> Seq<PassModel> {
    Seq::new(s.len(), |i: int| s[i]@)
}

pub proof fn lemma_models_push(s: Seq<Pass>, p: Pass)
    ensures
        pass_models(s.push(p)) == pass_models(s).push(p@),
{
    assert(pass_models(s.push(p)) =~= pass_models(s).push(p@));
}

/// Binds a whole buffer to a slot.
pub fn buf(slot: u32, b: Buf) -> (r: Bind)
    ensures
        r == at(slot, b, 0),
{
    Bind { slot, arg: Arg::Buf(b), off: 0 }
}

/// Binds a buffer from a byte offset on.
pub fn buf_at(slot: u32, b: Buf, off: u64) -> (r: Bind)
    ensures
        r == at(slot, b, off),
{
    Bind { slot, arg: Arg::Buf(b), off }
}

/// Binds a uniform with the given contents.
pub fn uni(slot: u32, u: Uniform) -> (r: Bind)
    ensures
        r == param(slot, u),
{
    Bind { slot, arg: Arg::Uni(u), off: 0 }
}

pub open spec fn at(slot: u32, b: Buf, off: u64) -> Bind {
    Bind { slot, arg: Arg::Buf(b), off }
}

pub open spec fn param(slot: u32, u: Uniform) -> Bind {
    Bind { slot, arg: Arg::Uni(u), off: 0 }
}

} // verus!
