//! Emission of the E4B decoder's passes: projections, attention, feed-forward and adapters.
use vstd::prelude::*;
use crate::e4b_ir::{
    at, buf, buf_at, lemma_models_push, param, pass_models, uni, Bind, Buf, Grid, GroupsX, MkParams,
    MkPipe, Part, Pass, PassModel, Pipe, Site, Uniform, W4Variant,
};

verus! {

/// Limits and tile sizes of the compute kernels and of the device they run on.
#[derive(Clone, Copy, Debug, PartialEq, Eq, Structural)]
pub struct Limits {
    pub gemv_rows_per_group: u32,
    pub w4_rows_per_group: u32,
    pub sg_rows_per_group: u32,
    /// The most rows one many-row gemm pass handles.
    pub slab_rows: usize,
    pub small_m_max: usize,
    pub small_m_rows_per_group: u32,
    pub argmax_blocks: usize,
    pub flash_max_head_dim: usize,
    pub fused_attn_max_head_dim: usize,
    pub lm_sg_rows_per_group: u32,
    pub tensor_tile_rows: u32,
    pub tensor_head_dim: u32,
    pub tensor_head_dim_wide: u32,
    pub lora_max_rank: usize,
    pub lora_cols_per_group: u32,
    pub max_splits: u32,
    pub max_groups_per_dim: u32,
    pub max_binding_bytes: u64,
    pub storage_align: u64,
    pub max_queries: u32,
}

/// The many-row kernels built at one row width.
#[derive(Clone, Copy, Debug, PartialEq, Eq, Structural)]
pub struct MkSet {
    pub rows: usize,
    pub sg: bool,
    pub i8: bool,
    pub i8g: bool,
    pub qtile: bool,
}

/// Which optional kernels were built, and at which head widths.
pub struct Pipelines {
    pub flash1: Vec<u32>,
    pub flash1_fold: Vec<u32>,
    pub flash1_fold_deep: Vec<u32>,
    pub gqa_fold: u32,
    pub deep_fold: u32,
    pub decode_splits: u32,
    /// The split count of the deep attention arm, when there is one.
    pub deep_splits: Option<u32>,
    pub deep_full_only: bool,
    pub sg: bool,
    pub sgm: bool,
    pub i8: bool,
    pub i8g: bool,
    pub lmhead_sg: bool,
    pub lmhead_i8: bool,
    pub fnc: bool,
    pub fac: bool,
    pub mk: Option<MkSet>,
    pub mk_verify: Option<MkSet>,
    pub tensor_route: bool,
    pub tensor_attn: bool,
    pub tensor_pk: bool,
    pub tensor_pk3: bool,
    pub tensor_attn_narrow: bool,
    pub tensor_attn_wide: bool,
}

/// What emission reads besides the layer itself.
pub struct Toolkit {
    pub pl: Pipelines,
    pub lim: Limits,
}

/// The pass list that emission currently appends to.
#[derive(Clone, Copy, Debug, PartialEq, Eq, Structural)]
pub enum Target {
    Decode,
    Prefill,
    Verify,
}

/// A decode pass that takes the place of the one at `index` once the context is deep.
pub struct DeepTwin {
    pub index: usize,
    pub pass: Pass,
}

/// The pass lists under construction.
pub struct Builder {
    pub target: Target,
    pub passes: Vec<Pass>,
    pub prefill_passes: Vec<Pass>,
    pub verify_prefill_passes: Vec<Pass>,
    pub deep_attn: Vec<DeepTwin>,
}

/// The mathematical content of a [`Builder`].
#[verifier::ext_equal]
pub struct Lists {
    pub target: Target,
    pub decode: Seq<PassModel>,
    pub prefill: Seq<PassModel>,
    pub verify: Seq<PassModel>,
    pub deep: Seq<(int, PassModel)>,
}

pub open spec fn twin_models(s: Seq<DeepTwin>) -> Seq<(int, PassModel)> {
    Seq::new(s.len(), |i: int| (s[i].index as int, s[i].pass@))
}

impl View for Builder {
    type V = Lists;

    open spec fn view(&self) -> Lists {
        Lists {
            target: self.target,
            decode: pass_models(self.passes@),
            prefill: pass_models(self.prefill_passes@),
            verify: pass_models(self.verify_prefill_passes@),
            deep: twin_models(self.deep_attn@),
        }
    }
}

impl Lists {
    pub open spec fn empty() -> Lists {
        Lists {
            target: Target::Decode,
            decode: Seq::empty(),
            prefill: Seq::empty(),
            verify: Seq::empty(),
            deep: Seq::empty(),
        }
    }

    /// Appends one pass to the list that is the target.
    pub open spec fn pushed(self, pipe: Pipe, binds: Seq<Bind>, grid: Grid) -> Lists {
        let p = PassModel { pipe, binds, grid };
        match self.target {
            Target::Decode => Lists { decode: self.decode.push(p), ..self },
            Target::Prefill => Lists { prefill: self.prefill.push(p), ..self },
            Target::Verify => Lists { verify: self.verify.push(p), ..self },
        }
    }

    pub open spec fn retarget(self, target: Target) -> Lists {
        Lists { target, ..self }
    }

    /// Records a twin of the decode pass at `index`.
    pub open spec fn twinned(self, index: int, pipe: Pipe, binds: Seq<Bind>, grid: Grid) -> Lists {
        Lists { deep: self.deep.push((index, PassModel { pipe, binds, grid })), ..self }
    }

    pub open spec fn rms(self, x: Buf, w: Buf, y: Buf, batch: int, hidden: usize, eps: u32) -> Lists {
        self.pushed(
            Pipe::Rms,
            seq![
                at(0, x, 0),
                at(1, w, 0),
                at(2, y, 0),
                param(3, rms_params(batch, hidden, eps)),
            ],
            one_d(batch, 1),
        )
    }

    pub open spec fn resadd(self, a: Buf, b: Buf, y: Buf, n: int, scale: u32) -> Lists {
        self.pushed(
            Pipe::ResAdd,
            seq![
                at(0, a, 0),
                at(1, b, 0),
                at(2, y, 0),
                param(
                    3,
                    Uniform::Scale {
                        n: n as u32,
                        n_words: (n / 2) as u32,
                        scale,
                        cap: 0,
                        inv_cap: 0,
                    },
                ),
            ],
            one_d(n / 2, 256),
        )
    }
}

/// A one-dimensional launch over `invocations`.
pub open spec fn one_d(invocations: int, wg: u32) -> Grid {
    Grid::OneD(GroupsX { invocations: invocations as u64, wg })
}

pub open spec fn rms_params(batch: int, hidden: usize, eps: u32) -> Uniform {
    Uniform::Rms {
        hidden: hidden as u32,
        batch: batch as u32,
        eps,
        words_per_row: (hidden / 2) as u32,
    }
}

pub open spec fn fnc_params(batch: usize, hidden: usize, eps: u32, scale: u32) -> Uniform {
    Uniform::Fnc {
        hidden: hidden as u32,
        batch: batch as u32,
        eps,
        words_per_row: (hidden / 2) as u32,
        scale,
    }
}

/// The bits of the `f32` value one.
pub const F32_ONE: u32 = 0x3f80_0000;

pub fn grid_1d(invocations: usize, wg: u32) -> (r: Grid)
    ensures
        r == one_d(invocations as int, wg),
{
    Grid::OneD(GroupsX { invocations: invocations as u64, wg })
}

impl Builder {
    pub fn new() -> (r: Builder)
        ensures
            r@ == Lists::empty(),
    {
        let r = Builder {
            target: Target::Decode,
            passes: Vec::new(),
            prefill_passes: Vec::new(),
            verify_prefill_passes: Vec::new(),
            deep_attn: Vec::new(),
        };
        assert(r@ =~= Lists::empty());
        r
    }

    /// Appends one pass to the list that is the target.
    pub fn push(&mut self, pipe: Pipe, binds: Vec<Bind>, grid: Grid)
        ensures
            final(self)@ == old(self)@.pushed(pipe, binds@, grid),
    {
        let p = Pass { pipe, binds, grid };
        match self.target {
            Target::Decode => {
                proof {
                    lemma_models_push(self.passes@, p);
                }
                self.passes.push(p);
            },
            Target::Prefill => {
                proof {
                    lemma_models_push(self.prefill_passes@, p);
                }
                self.prefill_passes.push(p);
            },
            Target::Verify => {
                proof {
                    lemma_models_push(self.verify_prefill_passes@, p);
                }
                self.verify_prefill_passes.push(p);
            },
        }
    }

    /// Directs the passes that follow to another list.
    pub fn retarget(&mut self, target: Target)
        ensures
            final(self)@ == old(self)@.retarget(target),
    {
        self.target = target;
    }

    pub(crate) fn twin(&mut self, index: usize, pipe: Pipe, binds: Vec<Bind>, grid: Grid)
        ensures
            final(self)@ == old(self)@.twinned(index as int, pipe, binds@, grid),
    {
        let t = DeepTwin { index, pass: Pass { pipe, binds, grid } };
        assert(twin_models(self.deep_attn@.push(t)) =~= twin_models(self.deep_attn@).push(
            (index as int, t.pass@),
        ));
        self.deep_attn.push(t);
    }

    /// Root-mean-square normalisation of `batch` rows.
    pub fn rms(&mut self, x: Buf, w: Buf, y: Buf, batch: usize, hidden: usize, eps: u32)
        ensures
            final(self)@ == old(self)@.rms(x, w, y, batch as int, hidden, eps),
    {
        let p = Uniform::Rms {
            hidden: hidden as u32,
            batch: batch as u32,
            eps,
            words_per_row: (hidden / 2) as u32,
        };
        self.push(Pipe::Rms, vec![buf(0, x), buf(1, w), buf(2, y), uni(3, p)], grid_1d(batch, 1));
    }

    pub(crate) fn fnc_uni(batch: usize, hidden: usize, eps: u32, scale: u32) -> (r: Uniform)
        ensures
            r == fnc_params(batch, hidden, eps, scale),
    {
        Uniform::Fnc {
            hidden: hidden as u32,
            batch: batch as u32,
            eps,
            words_per_row: (hidden / 2) as u32,
            scale,
        }
    }

    /// Adds two buffers of `n` elements and scales the sum.
    pub fn resadd(&mut self, a: Buf, b: Buf, y: Buf, n: usize, scale: u32)
        ensures
            final(self)@ == old(self)@.resadd(a, b, y, n as int, scale),
    {
        let p = Uniform::Scale {
            n: n as u32,
            n_words: (n / 2) as u32,
            scale,
            cap: 0,
            inv_cap: 0,
        };
        self.push(
            Pipe::ResAdd,
            vec![buf(0, a), buf(1, b), buf(2, y), uni(3, p)],
            grid_1d(n / 2, 256),
        );
    }
}

/// How a weight matrix is stored and launched. `groups` covers its rows.
#[derive(Clone, Copy, Debug, PartialEq, Eq, Structural)]
pub enum Proj {
    Bf16 { site: Site, n: usize, k: usize, groups: GroupsX },
    I8 { site: Site, n: usize, k: usize, group: usize, groups: GroupsX },
    W4 { site: Site, variant: W4Variant, n: usize, k: usize, gs: usize, groups: GroupsX },
}

impl Proj {
    pub open spec fn spec_site(self) -> Site {
        match self {
            Proj::Bf16 { site, .. } => site,
            Proj::I8 { site, .. } => site,
            Proj::W4 { site, .. } => site,
        }
    }

    pub open spec fn spec_n(self) -> usize {
        match self {
            Proj::Bf16 { n, .. } => n,
            Proj::I8 { n, .. } => n,
            Proj::W4 { n, .. } => n,
        }
    }

    pub open spec fn spec_groups(self) -> GroupsX {
        match self {
            Proj::Bf16 { groups, .. } => groups,
            Proj::I8 { groups, .. } => groups,
            Proj::W4 { groups, .. } => groups,
        }
    }

    pub open spec fn is_sg(self) -> bool {
        self matches Proj::W4 { variant: W4Variant::Sg16, .. }
    }

    pub fn n(&self) -> (r: usize)
        ensures
            r == self.spec_n(),
    {
        match self {
            Proj::Bf16 { n, .. } => *n,
            Proj::I8 { n, .. } => *n,
            Proj::W4 { n, .. } => *n,
        }
    }

    pub fn groups(&self) -> (r: GroupsX)
        ensures
            r == self.spec_groups(),
    {
        match self {
            Proj::Bf16 { groups, .. } => *groups,
            Proj::I8 { groups, .. } => *groups,
            Proj::W4 { groups, .. } => *groups,
        }
    }

    pub fn sg(&self) -> (r: bool)
        ensures
            r == self.is_sg(),
    {
        match self {
            Proj::W4 { variant: W4Variant::Sg16, .. } => true,
            _ => false,
        }
    }
}

/// Where a projection's output goes: one packed buffer, or the query, key and value buffers.
#[derive(Clone, Copy, Debug, PartialEq, Eq, Structural)]
pub enum Dst {
    Packed { y: Buf, word_off: usize, y_stride_words: usize },
    SplitQkv { q: Buf, k: Buf, v: Buf, q_rows: usize, kv_rows: usize, v_off: usize },
}

/// The output buffer at `slot`, for a projection that writes one packed buffer.
pub open spec fn packed_out(slot: u32, dst: Dst) -> Seq<Bind> {
    match dst {
        Dst::Packed { y, .. } => seq![at(slot, y, 0)],
        Dst::SplitQkv { .. } => Seq::empty(),
    }
}

/// The operands of a projection in slot order: its weights, its input from byte `x_off` on,
/// and the packed output if there is one.
pub open spec fn operand_binds(proj: Proj, x: Buf, x_off: u64, dst: Dst) -> Seq<Bind> {
    let w = Buf::Proj(proj.spec_site(), Part::Weight);
    let s = Buf::Proj(proj.spec_site(), Part::Scales);
    let p = Buf::Proj(proj.spec_site(), Part::Params);
    match proj {
        Proj::Bf16 { .. } => seq![at(0, w, 0), at(1, x, x_off)] + packed_out(2, dst) + seq![at(3, p, 0)],
        Proj::I8 { .. } => seq![at(0, w, 0), at(1, x, x_off)] + packed_out(2, dst) + seq![
            at(3, p, 0),
            at(22, s, 0),
        ],
        Proj::W4 { variant: W4Variant::Block, .. } => seq![at(0, w, 0), at(1, s, 0), at(2, x, x_off)]
            + packed_out(3, dst) + seq![at(4, p, 0)],
        Proj::W4 { .. } => seq![at(1, s, 0)] + packed_out(3, dst) + seq![
            at(4, p, 0),
            at(6, w, 0),
            at(7, x, x_off),
        ],
    }
}

pub open spec fn split_params(q_rows: usize, kv_rows: usize, v_off: usize) -> Uniform {
    Uniform::Split { q_rows: q_rows as u32, kv_rows: kv_rows as u32, v_off: v_off as u32 }
}

/// The kernel of a single-row projection.
pub open spec fn gemv_pipe(pl: Pipelines, proj: Proj, split: bool) -> Pipe {
    match proj {
        Proj::Bf16 { .. } => if split { Pipe::GemvPk3 } else { Pipe::GemvPk },
        Proj::I8 { group, .. } => if group > 0 {
            if split { Pipe::GemvI8gPk3 } else { Pipe::GemvI8gPk }
        } else {
            if split { Pipe::GemvI8Pk3 } else { Pipe::GemvI8Pk }
        },
        Proj::W4 { variant, .. } => match variant {
            W4Variant::Block => if split { Pipe::GemvW4Pk3 } else { Pipe::GemvW4Pk },
            W4Variant::V4 => if split { Pipe::GemvW4V4Pk3 } else { Pipe::GemvW4V4Pk },
            W4Variant::Sg16 => if pl.sgm {
                if split { Pipe::GemvW4SgPkm3 } else { Pipe::GemvW4SgPkm }
            } else {
                if split { Pipe::GemvW4SgPk3 } else { Pipe::GemvW4SgPk }
            },
        },
    }
}

/// The kernels that a single-row pass over `proj` needs were built.
pub open spec fn gemv_ready(pl: Pipelines, proj: Proj) -> bool {
    match proj {
        Proj::Bf16 { .. } => true,
        Proj::I8 { group, .. } => if group > 0 { pl.i8g } else { pl.i8 },
        Proj::W4 { variant, .. } => variant == W4Variant::Sg16 ==> pl.sg || pl.sgm,
    }
}

impl Lists {
    /// One single-row projection.
    pub open spec fn gemv(self, pl: Pipelines, proj: Proj, x: Buf, dst: Dst) -> Lists {
        let tail = match dst {
            Dst::Packed { word_off, .. } => seq![
                param(30, Uniform::PkOff { dst_word_off: word_off as u32 }),
            ],
            Dst::SplitQkv { q, k, v, q_rows, kv_rows, v_off } => seq![
                at(31, q, 0),
                at(32, k, 0),
                at(33, v, 0),
                param(34, split_params(q_rows, kv_rows, v_off)),
            ],
        };
        self.pushed(
            gemv_pipe(pl, proj, dst is SplitQkv),
            operand_binds(proj, x, 0, dst) + tail,
            Grid::OneD(proj.spec_groups()),
        )
    }
}

fn site_part(proj: &Proj, part: Part) -> (r: Buf)
    ensures
        r == Buf::Proj(proj.spec_site(), part),
{
    let site: Site = match proj {
        Proj::Bf16 { site, .. } => *site,
        Proj::I8 { site, .. } => *site,
        Proj::W4 { site, .. } => *site,
    };
    Buf::Proj(site, part)
}

fn push_packed_out(binds: &mut Vec<Bind>, slot: u32, dst: &Dst)
    ensures
        final(binds)@ == old(binds)@ + packed_out(slot, *dst),
{
    match dst {
        Dst::Packed { y, .. } => {
            binds.push(buf(slot, *y));
        },
        Dst::SplitQkv { .. } => {},
    }
}

fn operands(proj: &Proj, x: Buf, x_off: u64, dst: &Dst) -> (r: Vec<Bind>)
    ensures
        r@ == operand_binds(*proj, x, x_off, *dst),
{
    let w = site_part(proj, Part::Weight);
    let s = site_part(proj, Part::Scales);
    let p = site_part(proj, Part::Params);
    match proj {
        Proj::Bf16 { .. } => {
            let mut r = vec![buf(0, w), buf_at(1, x, x_off)];
            push_packed_out(&mut r, 2, dst);
            r.push(buf(3, p));
            r
        },
        Proj::I8 { .. } => {
            let mut r = vec![buf(0, w), buf_at(1, x, x_off)];
            push_packed_out(&mut r, 2, dst);
            r.push(buf(3, p));
            r.push(buf(22, s));
            r
        },
        Proj::W4 { variant: W4Variant::Block, .. } => {
            let mut r = vec![buf(0, w), buf(1, s), buf_at(2, x, x_off)];
            push_packed_out(&mut r, 3, dst);
            r.push(buf(4, p));
            r
        },
        Proj::W4 { .. } => {
            let mut r = vec![buf(1, s)];
            push_packed_out(&mut r, 3, dst);
            r.push(buf(4, p));
            r.push(buf(6, w));
            r.push(buf_at(7, x, x_off));
            r
        },
    }
}

fn pick_gemv_pipe(pl: &Pipelines, proj: &Proj, split: bool) -> (r: Pipe)
    requires
        gemv_ready(*pl, *proj),
    ensures
        r == gemv_pipe(*pl, *proj, split),
{
    match proj {
        Proj::Bf16 { .. } => if split { Pipe::GemvPk3 } else { Pipe::GemvPk },
        Proj::I8 { group, .. } => if *group > 0 {
            if split { Pipe::GemvI8gPk3 } else { Pipe::GemvI8gPk }
        } else {
            if split { Pipe::GemvI8Pk3 } else { Pipe::GemvI8Pk }
        },
        Proj::W4 { variant, .. } => match variant {
            W4Variant::Block => if split { Pipe::GemvW4Pk3 } else { Pipe::GemvW4Pk },
            W4Variant::V4 => if split { Pipe::GemvW4V4Pk3 } else { Pipe::GemvW4V4Pk },
            W4Variant::Sg16 => if pl.sgm {
                if split { Pipe::GemvW4SgPkm3 } else { Pipe::GemvW4SgPkm }
            } else {
                if split { Pipe::GemvW4SgPk3 } else { Pipe::GemvW4SgPk }
            },
        },
    }
}

impl Builder {
    /// Appends one single-row projection.
    pub fn gemv(&mut self, pl: &Pipelines, proj: &Proj, x: Buf, dst: &Dst)
        requires
            gemv_ready(*pl, *proj),
        ensures
            final(self)@ == old(self)@.gemv(*pl, *proj, x, *dst),
    {
        let mut binds = operands(proj, x, 0, dst);
        let groups = proj.groups();
        match dst {
            Dst::Packed { word_off, .. } => {
                binds.push(uni(30, Uniform::PkOff { dst_word_off: *word_off as u32 }));
                let pipe = pick_gemv_pipe(pl, proj, false);
                assert(binds@ =~= operand_binds(*proj, x, 0, *dst) + seq![
                    param(30, Uniform::PkOff { dst_word_off: *word_off as u32 }),
                ]);
                self.push(pipe, binds, Grid::OneD(groups));
            },
            Dst::SplitQkv { q, k, v, q_rows, kv_rows, v_off } => {
                let sp = Uniform::Split {
                    q_rows: *q_rows as u32,
                    kv_rows: *kv_rows as u32,
                    v_off: *v_off as u32,
                };
                binds.push(buf(31, *q));
                binds.push(buf(32, *k));
                binds.push(buf(33, *v));
                binds.push(uni(34, sp));
                let pipe = pick_gemv_pipe(pl, proj, true);
                assert(binds@ =~= operand_binds(*proj, x, 0, *dst) + seq![
                    at(31, *q, 0),
                    at(32, *k, 0),
                    at(33, *v, 0),
                    param(34, sp),
                ]);
                self.push(pipe, binds, Grid::OneD(groups));
            },
        }
    }
}

/// Workgroups that cover `n` rows at `rows_per_group` rows each.
pub open spec fn groups_for(n: int, rows_per_group: int) -> int {
    if n % rows_per_group == 0 {
        n / rows_per_group
    } else {
        n / rows_per_group + 1
    }
}

pub open spec fn min_int(a: int, b: int) -> int {
    if a <= b {
        a
    } else {
        b
    }
}

/// The many-row kernels that serve a target: the verify width if that list has its own.
pub open spec fn mk_set(pl: Pipelines, target: Target) -> Option<MkSet> {
    if target == Target::Verify && pl.mk_verify is Some {
        pl.mk_verify
    } else {
        pl.mk
    }
}

/// Whether `target` runs the kernels of the verify width.
pub open spec fn on_verify_set(pl: Pipelines, target: Target) -> bool {
    target == Target::Verify && pl.mk_verify is Some
}

/// The kernels that a many-row pass over `proj` needs were built.
pub open spec fn mk_ready(pl: Pipelines, target: Target, proj: Proj) -> bool {
    &&& mk_set(pl, target) is Some
    &&& match proj {
        Proj::Bf16 { .. } => true,
        Proj::I8 { group, .. } => if group > 0 {
            mk_set(pl, target)->0.i8g
        } else {
            mk_set(pl, target)->0.i8
        },
        Proj::W4 { variant, .. } => variant == W4Variant::Sg16 ==> mk_set(pl, target)->0.sg,
    }
}

pub open spec fn mk_pipe(proj: Proj, split: bool) -> MkPipe {
    match proj {
        Proj::Bf16 { .. } => if split { MkPipe::GemmBf16Pk3 } else { MkPipe::GemmBf16Pk },
        Proj::I8 { group, .. } => if group > 0 {
            if split { MkPipe::GemmI8gPk3 } else { MkPipe::GemmI8gPk }
        } else {
            if split { MkPipe::GemmI8Pk3 } else { MkPipe::GemmI8Pk }
        },
        Proj::W4 { variant, .. } => match variant {
            W4Variant::Block => if split { MkPipe::GemmW4Pk3 } else { MkPipe::GemmW4Pk },
            W4Variant::V4 => if split { MkPipe::GemmW4V4Pk3 } else { MkPipe::GemmW4V4Pk },
            W4Variant::Sg16 => if split { MkPipe::GemmW4SgPk3 } else { MkPipe::GemmW4SgPk },
        },
    }
}

/// Rows that one workgroup of the many-row kernel handles.
pub open spec fn mk_rows_per_group(lim: Limits, proj: Proj) -> int {
    if proj.is_sg() {
        lim.sg_rows_per_group as int
    } else {
        8
    }
}

/// The launch of a many-row pass stays within the device's limit.
pub open spec fn mk_grid_fits(lim: Limits, proj: Proj) -> bool {
    &&& mk_rows_per_group(lim, proj) > 0
    &&& groups_for(proj.spec_n() as int, mk_rows_per_group(lim, proj)) as u32
        <= lim.max_groups_per_dim
}

/// Byte offset of row `row0` in a buffer of rows of `words` words.
pub open spec fn row_bytes(row0: int, words: int) -> int {
    row0 * words * 4
}

/// The offsets of rows up to `m` fit the address type.
pub open spec fn rows_fit(m: int, x_stride: int, dst: Dst) -> bool {
    &&& row_bytes(m, x_stride) <= usize::MAX
    &&& match dst {
        Dst::Packed { word_off, y_stride_words, .. } => word_off + m * y_stride_words <= usize::MAX,
        Dst::SplitQkv { q_rows, kv_rows, .. } => {
            &&& row_bytes(m, q_rows as int / 2) <= usize::MAX
            &&& row_bytes(m, kv_rows as int / 2) <= usize::MAX
        },
    }
}

/// The parameters of a pass over `m` rows from `row0` on.
pub open spec fn mk_params(row0: int, m: int, x_stride: int, dst: Dst) -> MkParams {
    MkParams {
        m: m as u32,
        x_stride_words: x_stride as u32,
        y_stride_words: match dst {
            Dst::Packed { y_stride_words, .. } => y_stride_words as u32,
            Dst::SplitQkv { .. } => 0,
        },
        dst_word_off: match dst {
            Dst::Packed { word_off, y_stride_words, .. } => (word_off + row0 * y_stride_words) as u32,
            Dst::SplitQkv { .. } => 0,
        },
    }
}

/// Whether the tensor-ops kernels take this four-bit projection.
pub open spec fn tensor_takes(kit: Toolkit, n: int, k: int, gs: int, m: int, dst: Dst) -> bool {
    &&& m <= kit.lim.tensor_tile_rows
    &&& k % 32 == 0
    &&& gs >= 32
    &&& gs % 32 == 0
    &&& n % 2 == 0
    &&& match dst {
        Dst::Packed { .. } => kit.pl.tensor_pk,
        Dst::SplitQkv { q_rows, kv_rows, v_off, .. } => {
            &&& q_rows % 2 == 0
            &&& kv_rows % 2 == 0
            &&& v_off % 2 == 0
            &&& kit.pl.tensor_pk3
        },
    }
}

/// A prefill pass over `m` rows of `proj` goes to the tensor-ops kernels.
pub open spec fn on_tensor_route(kit: Toolkit, target: Target, proj: Proj, m: int, dst: Dst) -> bool {
    &&& target == Target::Prefill
    &&& kit.pl.tensor_route
    &&& proj matches Proj::W4 { n, k, gs, .. } && tensor_takes(
        kit,
        n as int,
        k as int,
        gs as int,
        m,
        dst,
    )
}

/// One pass over `m` rows of `proj` has its kernels, and its launch fits the device.
pub open spec fn slab_ok(kit: Toolkit, target: Target, proj: Proj, m: int, dst: Dst) -> bool {
    &&& mk_set(kit.pl, target) is Some
    &&& on_tensor_route(kit, target, proj, m, dst) || (mk_ready(kit.pl, target, proj)
        && mk_grid_fits(kit.lim, proj))
}

pub open spec fn tensor_params(variant: W4Variant, n: usize, k: usize, gs: usize, dst: Dst) -> Uniform {
    let (q_rows, kv_rows, v_off) = match dst {
        Dst::Packed { .. } => (0, 0, 0),
        Dst::SplitQkv { q_rows, kv_rows, v_off, .. } => (q_rows, kv_rows, v_off),
    };
    Uniform::TensorOps {
        n_rows: n as u32,
        k_elems: k as u32,
        gs: gs as u32,
        scale_row_stride: (k / gs) as u32,
        scale_elem_stride: if variant == W4Variant::Sg16 { 1 } else { 2 },
        q_rows: q_rows as u32,
        kv_rows: kv_rows as u32,
        v_off: v_off as u32,
    }
}

impl Lists {
    /// One pass of the tensor-ops kernels.
    pub open spec fn tensor_gemm(
        self,
        site: Site,
        variant: W4Variant,
        n: usize,
        k: usize,
        gs: usize,
        x: Buf,
        row0: int,
        m: int,
        x_stride: int,
        dst: Dst,
    ) -> Lists {
        let mk = Uniform::Mk { params: mk_params(row0, m, x_stride, dst), row0: row0 as usize };
        let tp = tensor_params(variant, n, k, gs, dst);
        let ins = seq![
            at(0, Buf::Proj(site, Part::Weight), 0),
            at(1, Buf::Proj(site, Part::Scales), 0),
            at(2, x, row_bytes(row0, x_stride) as u64),
        ];
        match dst {
            Dst::Packed { y, .. } => self.pushed(
                Pipe::TensorOpsPk,
                ins + seq![at(3, y, 0), param(4, mk), param(5, tp)],
                Grid::TensorOps(n as u32),
            ),
            Dst::SplitQkv { q, k: kb, v, q_rows, kv_rows, .. } => self.pushed(
                Pipe::TensorOpsPk3,
                ins + seq![
                    at(3, q, row_bytes(row0, q_rows as int / 2) as u64),
                    at(4, kb, row_bytes(row0, kv_rows as int / 2) as u64),
                    at(5, v, row_bytes(row0, kv_rows as int / 2) as u64),
                    param(6, mk),
                    param(7, tp),
                ],
                Grid::TensorOps(n as u32),
            ),
        }
    }

    /// One pass of the ordinary many-row kernels.
    pub open spec fn slab_gemm(
        self,
        kit: Toolkit,
        proj: Proj,
        x: Buf,
        row0: int,
        m: int,
        x_stride: int,
        dst: Dst,
    ) -> Lists {
        let mk = Uniform::Mk { params: mk_params(row0, m, x_stride, dst), row0: row0 as usize };
        let tail = match dst {
            Dst::Packed { .. } => seq![param(35, mk)],
            Dst::SplitQkv { q, k, v, q_rows, kv_rows, v_off } => seq![
                at(31, q, row_bytes(row0, q_rows as int / 2) as u64),
                at(32, k, row_bytes(row0, kv_rows as int / 2) as u64),
                at(33, v, row_bytes(row0, kv_rows as int / 2) as u64),
                param(34, split_params(q_rows, kv_rows, v_off)),
                param(35, mk),
            ],
        };
        self.pushed(
            Pipe::Mk(on_verify_set(kit.pl, self.target), mk_pipe(proj, dst is SplitQkv)),
            operand_binds(proj, x, row_bytes(row0, x_stride) as u64, dst) + tail,
            Grid::Dims(
                groups_for(proj.spec_n() as int, mk_rows_per_group(kit.lim, proj)) as u32,
                1,
                1,
            ),
        )
    }

    /// A projection of `m` rows from `row0` on, in one pass.
    pub open spec fn gemv_mk_slab(
        self,
        kit: Toolkit,
        proj: Proj,
        x: Buf,
        row0: int,
        m: int,
        x_stride: int,
        dst: Dst,
    ) -> Lists {
        match proj {
            Proj::W4 { site, variant, n, k, gs, .. } if on_tensor_route(
                kit,
                self.target,
                proj,
                m,
                dst,
            ) => self.tensor_gemm(site, variant, n, k, gs, x, row0, m, x_stride, dst),
            _ => self.slab_gemm(kit, proj, x, row0, m, x_stride, dst),
        }
    }

    /// The passes for rows `row0..m`, at most a slab of rows each.
    pub open spec fn gemv_mk_from(
        self,
        kit: Toolkit,
        proj: Proj,
        x: Buf,
        row0: int,
        m: int,
        x_stride: int,
        dst: Dst,
    ) -> Lists
        decreases m - row0,
    {
        if row0 >= m || kit.lim.slab_rows == 0 {
            self
        } else {
            let rows = min_int(kit.lim.slab_rows as int, m - row0);
            self.gemv_mk_slab(kit, proj, x, row0, rows, x_stride, dst).gemv_mk_from(
                kit,
                proj,
                x,
                row0 + rows,
                m,
                x_stride,
                dst,
            )
        }
    }

    /// A projection of `m` rows; the verify list handles no more rows than its kernels do.
    pub open spec fn gemv_mk(self, kit: Toolkit, proj: Proj, x: Buf, m: int, x_stride: int, dst: Dst)
        -> Lists {
        self.gemv_mk_from(kit, proj, x, 0, mk_rows(kit.pl, self.target, m), x_stride, dst)
    }
}

pub open spec fn mk_rows(pl: Pipelines, target: Target, m: int) -> int {
    if on_verify_set(pl, target) {
        min_int(m, pl.mk_verify->0.rows as int)
    } else {
        m
    }
}

/// Everything a many-row projection of `m` rows needs.
pub open spec fn gemv_mk_ok(kit: Toolkit, target: Target, proj: Proj, m: int, x_stride: int, dst: Dst)
    -> bool {
    &&& kit.lim.slab_rows > 0
    &&& slab_ok(kit, target, proj, min_int(kit.lim.slab_rows as int, m), dst)
    &&& rows_fit(m, x_stride, dst)
}

proof fn lemma_row_bytes_monotone(a: int, b: int, words: int)
    by (nonlinear_arith)
    requires
        0 <= a <= b,
        0 <= words,
    ensures
        0 <= a * words <= b * words,
        0 <= row_bytes(a, words) <= row_bytes(b, words),
{
}

fn row_offset(row0: usize, words: usize) -> (r: u64)
    requires
        row_bytes(row0 as int, words as int) <= usize::MAX,
    ensures
        r == row_bytes(row0 as int, words as int) as u64,
        r == row_bytes(row0 as int, words as int),
{
    assert(row0 * words <= row0 * words * 4) by (nonlinear_arith)
        requires
            row0 >= 0,
            words >= 0,
    ;
    (row0 * words * 4) as u64
}

pub fn div_up(n: usize, d: usize) -> (r: usize)
    requires
        d > 0,
    ensures
        r == groups_for(n as int, d as int),
{
    let q: usize = n / d;
    if n % d == 0 {
        q
    } else {
        assert(q < usize::MAX) by (nonlinear_arith)
            requires
                q == n / d,
                n % d != 0,
                d > 0,
                n <= usize::MAX,
        ;
        q + 1
    }
}

fn pick_mk_pipe(proj: &Proj, split: bool) -> (r: MkPipe)
    ensures
        r == mk_pipe(*proj, split),
{
    match proj {
        Proj::Bf16 { .. } => if split { MkPipe::GemmBf16Pk3 } else { MkPipe::GemmBf16Pk },
        Proj::I8 { group, .. } => if *group > 0 {
            if split { MkPipe::GemmI8gPk3 } else { MkPipe::GemmI8gPk }
        } else {
            if split { MkPipe::GemmI8Pk3 } else { MkPipe::GemmI8Pk }
        },
        Proj::W4 { variant, .. } => match variant {
            W4Variant::Block => if split { MkPipe::GemmW4Pk3 } else { MkPipe::GemmW4Pk },
            W4Variant::V4 => if split { MkPipe::GemmW4V4Pk3 } else { MkPipe::GemmW4V4Pk },
            W4Variant::Sg16 => if split { MkPipe::GemmW4SgPk3 } else { MkPipe::GemmW4SgPk },
        },
    }
}

fn mk_params_of(row0: usize, m: usize, x_stride: usize, dst: &Dst) -> (r: MkParams)
    requires
        rows_fit(row0 as int, x_stride as int, *dst),
    ensures
        r == mk_params(row0 as int, m as int, x_stride as int, *dst),
{
    match dst {
        Dst::Packed { word_off, y_stride_words, .. } => {
            assert(0 <= row0 * *y_stride_words) by (nonlinear_arith)
                requires
                    row0 >= 0,
                    *y_stride_words >= 0,
            ;
            MkParams {
                m: m as u32,
                x_stride_words: x_stride as u32,
                y_stride_words: *y_stride_words as u32,
                dst_word_off: (*word_off + row0 * *y_stride_words) as u32,
            }
        },
        Dst::SplitQkv { .. } => MkParams {
            m: m as u32,
            x_stride_words: x_stride as u32,
            y_stride_words: 0,
            dst_word_off: 0,
        },
    }
}

pub(crate) fn tensor_fits(kit: &Toolkit, n: usize, k: usize, gs: usize, m: usize, dst: &Dst) -> (r: bool)
    ensures
        r == tensor_takes(*kit, n as int, k as int, gs as int, m as int, *dst),
{
    if m > kit.lim.tensor_tile_rows as usize {
        return false;
    }
    if k % 32 != 0 || gs < 32 || gs % 32 != 0 || n % 2 != 0 {
        return false;
    }
    match dst {
        Dst::Packed { .. } => kit.pl.tensor_pk,
        Dst::SplitQkv { q_rows, kv_rows, v_off, .. } => {
            *q_rows % 2 == 0 && *kv_rows % 2 == 0 && *v_off % 2 == 0 && kit.pl.tensor_pk3
        },
    }
}

impl Builder {
    /// Appends a tensor-ops pass if those kernels take the projection; says whether they did.
    pub fn emit_na_w4_mk(
        &mut self,
        kit: &Toolkit,
        proj: &Proj,
        x: Buf,
        row0: usize,
        m: usize,
        x_stride: usize,
        dst: &Dst,
    ) -> (taken: bool)
        requires
            rows_fit(row0 as int, x_stride as int, *dst),
        ensures
            match *proj {
                Proj::W4 { site, variant, n, k, gs, .. } => {
                    &&& taken == tensor_takes(*kit, n as int, k as int, gs as int, m as int, *dst)
                    &&& taken ==> final(self)@ == old(self)@.tensor_gemm(
                        site,
                        variant,
                        n,
                        k,
                        gs,
                        x,
                        row0 as int,
                        m as int,
                        x_stride as int,
                        *dst,
                    )
                },
                _ => !taken,
            },
            !taken ==> final(self)@ == old(self)@,
    {
        let (site, variant, n, k, gs) = match proj {
            Proj::W4 { site, variant, n, k, gs, .. } => (*site, *variant, *n, *k, *gs),
            _ => {
                return false;
            },
        };
        if !tensor_fits(kit, n, k, gs, m, dst) {
            return false;
        }
        let mk = Uniform::Mk { params: mk_params_of(row0, m, x_stride, dst), row0 };
        let x_off = row_offset(row0, x_stride);
        let scale_elem_stride: u32 = if variant == W4Variant::Sg16 { 1 } else { 2 };
        let mut binds = vec![
            buf(0, Buf::Proj(site, Part::Weight)),
            buf(1, Buf::Proj(site, Part::Scales)),
            buf_at(2, x, x_off),
        ];
        let ghost ins = binds@;
        let grid = Grid::TensorOps(n as u32);
        match dst {
            Dst::Packed { y, .. } => {
                let tp = Uniform::TensorOps {
                    n_rows: n as u32,
                    k_elems: k as u32,
                    gs: gs as u32,
                    scale_row_stride: (k / gs) as u32,
                    scale_elem_stride,
                    q_rows: 0,
                    kv_rows: 0,
                    v_off: 0,
                };
                binds.push(buf(3, *y));
                binds.push(uni(4, mk));
                binds.push(uni(5, tp));
                assert(binds@ =~= ins + seq![at(3, *y, 0), param(4, mk), param(5, tp)]);
                assert(tp == tensor_params(variant, n, k, gs, *dst));
                self.push(Pipe::TensorOpsPk, binds, grid);
            },
            Dst::SplitQkv { q, k: kb, v, q_rows, kv_rows, v_off } => {
                let tp = Uniform::TensorOps {
                    n_rows: n as u32,
                    k_elems: k as u32,
                    gs: gs as u32,
                    scale_row_stride: (k / gs) as u32,
                    scale_elem_stride,
                    q_rows: *q_rows as u32,
                    kv_rows: *kv_rows as u32,
                    v_off: *v_off as u32,
                };
                let q_off = row_offset(row0, *q_rows / 2);
                let kv_off = row_offset(row0, *kv_rows / 2);
                binds.push(buf_at(3, *q, q_off));
                binds.push(buf_at(4, *kb, kv_off));
                binds.push(buf_at(5, *v, kv_off));
                binds.push(uni(6, mk));
                binds.push(uni(7, tp));
                assert(binds@ =~= ins + seq![
                    at(3, *q, q_off),
                    at(4, *kb, kv_off),
                    at(5, *v, kv_off),
                    param(6, mk),
                    param(7, tp),
                ]);
                self.push(Pipe::TensorOpsPk3, binds, grid);
            },
        }
        true
    }

    /// Appends one pass over `m` rows of a projection, from row `row0` on.
    pub fn gemv_mk_slab(
        &mut self,
        kit: &Toolkit,
        proj: &Proj,
        x: Buf,
        row0: usize,
        m: usize,
        x_stride: usize,
        dst: &Dst,
    )
        requires
            slab_ok(*kit, old(self)@.target, *proj, m as int, *dst),
            rows_fit(row0 as int, x_stride as int, *dst),
        ensures
            final(self)@ == old(self)@.gemv_mk_slab(
                *kit,
                *proj,
                x,
                row0 as int,
                m as int,
                x_stride as int,
                *dst,
            ),
    {
        if self.target == Target::Prefill && kit.pl.tensor_route {
            if self.emit_na_w4_mk(kit, proj, x, row0, m, x_stride, dst) {
                return ;
            }
        }
        let mk = Uniform::Mk { params: mk_params_of(row0, m, x_stride, dst), row0 };
        let x_off = row_offset(row0, x_stride);
        let rows_per_group: usize = if proj.sg() { kit.lim.sg_rows_per_group as usize } else { 8 };
        let groups: u32 = div_up(proj.n(), rows_per_group) as u32;
        let grid = Grid::Dims(groups, 1, 1);
        let on_verify = self.target == Target::Verify && kit.pl.mk_verify.is_some();
        let mut binds = operands(proj, x, x_off, dst);
        let ghost ins = binds@;
        match dst {
            Dst::Packed { .. } => {
                binds.push(uni(35, mk));
                assert(binds@ =~= ins + seq![param(35, mk)]);
                let pipe = Pipe::Mk(on_verify, pick_mk_pipe(proj, false));
                self.push(pipe, binds, grid);
            },
            Dst::SplitQkv { q, k, v, q_rows, kv_rows, v_off } => {
                let q_off = row_offset(row0, *q_rows / 2);
                let kv_off = row_offset(row0, *kv_rows / 2);
                let sp = Uniform::Split {
                    q_rows: *q_rows as u32,
                    kv_rows: *kv_rows as u32,
                    v_off: *v_off as u32,
                };
                binds.push(buf_at(31, *q, q_off));
                binds.push(buf_at(32, *k, kv_off));
                binds.push(buf_at(33, *v, kv_off));
                binds.push(uni(34, sp));
                binds.push(uni(35, mk));
                assert(binds@ =~= ins + seq![
                    at(31, *q, q_off),
                    at(32, *k, kv_off),
                    at(33, *v, kv_off),
                    param(34, sp),
                    param(35, mk),
                ]);
                let pipe = Pipe::Mk(on_verify, pick_mk_pipe(proj, true));
                self.push(pipe, binds, grid);
            },
        }
    }

    /// Appends the passes of a projection of `m` rows.
    pub fn gemv_mk(
        &mut self,
        kit: &Toolkit,
        proj: &Proj,
        x: Buf,
        m: usize,
        x_stride: usize,
        dst: &Dst,
    )
        requires
            gemv_mk_ok(*kit, old(self)@.target, *proj, m as int, x_stride as int, *dst),
        ensures
            final(self)@.target == old(self)@.target,
            final(self)@ == old(self)@.gemv_mk(*kit, *proj, x, m as int, x_stride as int, *dst),
    {
        let mut live: usize = m;
        if self.target == Target::Verify {
            if let Some(v) = kit.pl.mk_verify {
                if v.rows < live {
                    live = v.rows;
                }
            }
        }
        let mut row0: usize = 0;
        while row0 < live
            invariant
                row0 <= live <= m,
                live == mk_rows(kit.pl, old(self)@.target, m as int),
                self@.target == old(self)@.target,
                gemv_mk_ok(*kit, old(self)@.target, *proj, m as int, x_stride as int, *dst),
                self@.gemv_mk_from(
                    *kit,
                    *proj,
                    x,
                    row0 as int,
                    live as int,
                    x_stride as int,
                    *dst,
                ) == old(self)@.gemv_mk_from(
                    *kit,
                    *proj,
                    x,
                    0,
                    live as int,
                    x_stride as int,
                    *dst,
                ),
            decreases live - row0,
        {
            let left: usize = live - row0;
            let rows: usize = if kit.lim.slab_rows < left { kit.lim.slab_rows } else { left };
            proof {
                lemma_rows_fit(row0 as int, m as int, x_stride as int, *dst);
            }
            self.gemv_mk_slab(kit, proj, x, row0, rows, x_stride, dst);
            row0 = row0 + rows;
        }
    }
}

proof fn lemma_rows_fit(a: int, b: int, x_stride: int, dst: Dst)
    requires
        0 <= a <= b,
        0 <= x_stride,
        rows_fit(b, x_stride, dst),
    ensures
        rows_fit(a, x_stride, dst),
{
    lemma_row_bytes_monotone(a, b, x_stride);
    match dst {
        Dst::Packed { y_stride_words, .. } => {
            lemma_row_bytes_monotone(a, b, y_stride_words as int);
        },
        Dst::SplitQkv { q_rows, kv_rows, .. } => {
            lemma_row_bytes_monotone(a, b, q_rows as int / 2);
            lemma_row_bytes_monotone(a, b, kv_rows as int / 2);
        },
    }
}

} // verus!
