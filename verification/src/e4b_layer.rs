//! The passes of one E4B decoder layer and of the embedding prologue before the layers.
use vstd::prelude::*;
use crate::config::LayerType;
use crate::e4b_emit::{
    fnc_params, gemv_mk_ok, gemv_ready, grid_1d, one_d, rms_params, Builder, Dst, Limits, Lists,
    Pipelines, Proj, Target, Toolkit, F32_ONE,
};
use crate::e4b_ir::{
    at, buf, param, uni, Bind, Buf, Grid, GroupsX, KvPart, LoraKind, MkPipe, Norm, Pipe, Uniform,
    Work,
};
use crate::e4b_lora::{emit_lora_site, lora_ok, E4bLoraLayer, E4bLoraSite, LoraMeta, LoraPlace};

verus! {

/// The most chunks that a gathered table can be split into.
pub const MAX_TABLE_CHUNKS: usize = 8;

/// The split count of the attention kernels that handle several rows.
pub const FLASH_SPLITS: u32 = 16;

/// Model dimensions that every layer shares; `f32` values as their bits.
#[derive(Clone, Copy, Debug, PartialEq, Eq, Structural)]
pub struct EmitCfg {
    pub hidden: usize,
    pub inter: usize,
    pub eps: u32,
    pub n_q: usize,
    pub n_layers: usize,
    pub hpl: usize,
    pub ple_row: usize,
    pub max_seq: usize,
    pub embed_scale: u32,
    pub pli_sa: u32,
    pub pli_sb: u32,
}

/// How a table is split into row chunks.
#[derive(Clone, Copy, Debug, PartialEq, Eq, Structural)]
pub struct ChunkPlan {
    pub rows_per_chunk: usize,
    pub n_chunks: usize,
}

/// A table that token ids are looked up in.
#[derive(Clone, Copy, Debug, PartialEq, Eq, Structural)]
pub struct Table {
    /// Whether this is the token embedding rather than the per-layer embedding.
    pub embed: bool,
    pub plan: ChunkPlan,
    pub row_words: usize,
    pub rows: usize,
}

impl Table {
    pub open spec fn chunk_buf(self, c: int) -> Buf {
        if self.embed {
            Buf::EmbedChunk(c as usize)
        } else {
            Buf::PleChunk(c as usize)
        }
    }

    /// Slot `i` holds chunk `i`; slots past the last chunk hold the first one again.
    pub open spec fn chunk_binds(self) -> Seq<Bind> {
        Seq::new(
            MAX_TABLE_CHUNKS as nat,
            |i: int| at(i as u32, self.chunk_buf(if i < self.plan.n_chunks { i } else { 0 }), 0),
        )
    }

    pub open spec fn gather_params(self) -> Uniform {
        Uniform::Gather {
            rows_per_chunk: self.plan.rows_per_chunk as u32,
            row_words: self.row_words as u32,
            total_rows: self.rows as u32,
            n_chunks: self.plan.n_chunks as u32,
        }
    }

    pub fn binds(&self) -> (r: Vec<Bind>)
        ensures
            r@ == self.chunk_binds(),
    {
        let mut v: Vec<Bind> = Vec::new();
        let mut i: usize = 0;
        while i < MAX_TABLE_CHUNKS
            invariant
                i <= MAX_TABLE_CHUNKS,
                v@ == self.chunk_binds().take(i as int),
            decreases MAX_TABLE_CHUNKS - i,
        {
            let c: usize = if i < self.plan.n_chunks { i } else { 0 };
            let b = if self.embed { Buf::EmbedChunk(c) } else { Buf::PleChunk(c) };
            v.push(buf(i as u32, b));
            i = i + 1;
            assert(v@ =~= self.chunk_binds().take(i as int));
        }
        assert(v@ =~= self.chunk_binds());
        v
    }

    pub fn params(&self) -> (r: Uniform)
        ensures
            r == self.gather_params(),
    {
        Uniform::Gather {
            rows_per_chunk: self.plan.rows_per_chunk as u32,
            row_words: self.row_words as u32,
            total_rows: self.rows as u32,
            n_chunks: self.plan.n_chunks as u32,
        }
    }

    /// The first row of chunk `c`.
    pub open spec fn chunk_start(self, c: int) -> int {
        c * self.plan.rows_per_chunk
    }

    /// The rows of chunk `c`: a full chunk, or what is left of the table.
    pub open spec fn spec_chunk_rows(self, c: int) -> int {
        if self.chunk_start(c + 1) <= self.rows {
            self.plan.rows_per_chunk as int
        } else {
            self.rows - self.chunk_start(c)
        }
    }

    pub fn chunk_rows(&self, c: usize) -> (r: usize)
        requires
            c < usize::MAX,
            self.chunk_start(c + 1) <= usize::MAX,
            self.chunk_start(c as int) <= self.rows,
        ensures
            r == self.spec_chunk_rows(c as int),
    {
        assert((c + 1) * self.plan.rows_per_chunk == c * self.plan.rows_per_chunk
            + self.plan.rows_per_chunk) by (nonlinear_arith);
        let lo: usize = c * self.plan.rows_per_chunk;
        let hi: usize = (c + 1) * self.plan.rows_per_chunk;
        if hi <= self.rows {
            hi - lo
        } else {
            self.rows - lo
        }
    }
}

/// What the passes of one layer are emitted from. `kv` is the layer whose cache it reads.
#[derive(Clone, Copy, Debug, PartialEq, Eq, Structural)]
pub struct LayerEmit {
    pub prefill: bool,
    pub m: usize,
    pub li: usize,
    pub shared: Option<usize>,
    pub kind: LayerType,
    pub has_v: bool,
    pub layer_scalar: u32,
    pub hd: usize,
    pub nkv: usize,
    pub q_dim: usize,
    pub kv_dim: usize,
    pub qkv: Proj,
    pub o: Proj,
    pub gate_up: Proj,
    pub down: Proj,
    pub pl_gate: Proj,
    pub pl_proj: Proj,
    pub ln_next: Norm,
    pub kv: usize,
}

impl LayerEmit {
    pub open spec fn work(self, w: Work) -> Buf {
        Buf::Work(self.prefill, w)
    }

    /// The residual stream that the layer reads: even layers read the first buffer.
    pub open spec fn x_in(self) -> Buf {
        self.work(if self.li % 2 == 0 { Work::HidA } else { Work::HidB })
    }

    /// The residual stream that the layer writes.
    pub open spec fn x_out(self) -> Buf {
        self.work(if self.li % 2 == 0 { Work::HidB } else { Work::HidA })
    }

    pub open spec fn cache(self, part: KvPart) -> Buf {
        Buf::Kv(self.kv, part)
    }

    /// Whether the norms of this row count run fused.
    pub open spec fn fused_norms(self, kit: Toolkit) -> bool {
        self.m == 1 && kit.pl.fnc
    }

    pub open spec fn fused_attn(self, kit: Toolkit) -> bool {
        self.m == 1 && kit.pl.fac && self.hd % 4 == 0 && self.hd <= kit.lim.fused_attn_max_head_dim
    }
}

/// The first head width that covers `hd`.
pub open spec fn first_covering(caps: Seq<u32>, hd: int) -> Option<u32>
    decreases caps.len(),
{
    if caps.len() == 0 {
        None
    } else if caps[0] >= hd {
        Some(caps[0])
    } else {
        first_covering(caps.drop_first(), hd)
    }
}

/// Picks the first kernel whose head width covers `hd`.
pub fn flash1_pick(caps: &Vec<u32>, hd: usize) -> (r: Option<u32>)
    ensures
        r == first_covering(caps@, hd as int),
{
    let mut i: usize = 0;
    assert(caps@.skip(0) =~= caps@);
    while i < caps.len()
        invariant
            i <= caps.len(),
            first_covering(caps@.skip(i as int), hd as int) == first_covering(caps@, hd as int),
        decreases caps.len() - i,
    {
        if caps[i] as usize >= hd {
            return Some(caps[i]);
        }
        assert(caps@.skip(i as int).drop_first() =~= caps@.skip(i + 1));
        i = i + 1;
    }
    None
}

impl Lists {
    pub open spec fn gather(self, kit: Toolkit, tab: Table, dst: Buf, m: int) -> Lists {
        self.pushed(
            if m == 1 { Pipe::Gather } else { Pipe::Mk(false, MkPipe::Gather) },
            tab.chunk_binds() + seq![at(8, Buf::TokIdx, 0), at(9, dst, 0), param(10, tab.gather_params())],
            Grid::Dims(m as u32, 1, 1),
        )
    }

    /// A projection of `m` rows, by the single-row kernels where there is one row.
    pub open spec fn project(self, kit: Toolkit, proj: Proj, x: Buf, m: int, x_stride: int, dst: Dst)
        -> Lists {
        if m == 1 {
            self.gemv(kit.pl, proj, x, dst)
        } else {
            self.gemv_mk(kit, proj, x, m, x_stride, dst)
        }
    }

    /// Token embeddings into the residual stream, per-layer inputs into their own buffer.
    pub open spec fn prologue(
        self,
        kit: Toolkit,
        cfg: EmitCfg,
        prefill: bool,
        m: int,
        embed: Table,
        ple: Table,
        plmp: Proj,
    ) -> Lists {
        let w = |x: Work| Buf::Work(prefill, x);
        let hw = m * cfg.hidden;
        let pw = m * cfg.ple_row / 2;
        self.gather(kit, embed, w(Work::T0), m).pushed(
            Pipe::Scale,
            seq![
                at(0, w(Work::T0), 0),
                at(2, w(Work::HidA), 0),
                param(
                    3,
                    Uniform::Scale {
                        n: hw as u32,
                        n_words: (hw / 2) as u32,
                        scale: cfg.embed_scale,
                        cap: 0,
                        inv_cap: 0,
                    },
                ),
            ],
            one_d(hw / 2, 256),
        ).gather(kit, ple, w(Work::PleRaw), m).project(
            kit,
            plmp,
            w(Work::HidA),
            m,
            cfg.hidden as int / 2,
            packed(w(Work::PleProj), cfg.ple_row / 2),
        ).rms(
            w(Work::PleProj),
            Buf::Norm(Norm::PerLayerProjection),
            w(Work::PleNormed),
            m * cfg.n_layers,
            cfg.hpl,
            cfg.eps,
        ).pushed(
            Pipe::Axpby,
            seq![
                at(0, w(Work::PleNormed), 0),
                at(1, w(Work::PleRaw), 0),
                at(2, w(Work::Pli), 0),
                param(3, Uniform::Axpby { n_words: pw as u32, sa: cfg.pli_sa, sb: cfg.pli_sb }),
            ],
            one_d(pw, 256),
        )
    }
}

/// A packed output from the start of `y`.
pub open spec fn packed(y: Buf, stride: usize) -> Dst {
    Dst::Packed { y, word_off: 0, y_stride_words: stride }
}

fn packed_dst(y: Buf, stride: usize) -> (r: Dst)
    ensures
        r == packed(y, stride),
{
    Dst::Packed { y, word_off: 0, y_stride_words: stride }
}

pub open spec fn project_ok(kit: Toolkit, target: Target, proj: Proj, m: int, x_stride: int, dst: Dst)
    -> bool {
    if m == 1 {
        gemv_ready(kit.pl, proj)
    } else {
        gemv_mk_ok(kit, target, proj, m, x_stride, dst)
    }
}

/// The sizes of the prologue fit, and its kernels were built.
pub open spec fn prologue_ok(kit: Toolkit, target: Target, cfg: EmitCfg, m: int, plmp: Proj) -> bool {
    &&& m != 1 ==> kit.pl.mk is Some
    &&& m * cfg.hidden <= usize::MAX
    &&& m * cfg.ple_row <= usize::MAX
    &&& m * cfg.n_layers <= usize::MAX
    &&& project_ok(
        kit,
        target,
        plmp,
        m,
        cfg.hidden as int / 2,
        packed(Buf::Work(false, Work::PleProj), cfg.ple_row / 2),
    )
}

impl Builder {
    fn gather(&mut self, kit: &Toolkit, tab: &Table, dst: Buf, m: usize)
        requires
            m != 1 ==> kit.pl.mk is Some,
        ensures
            final(self)@ == old(self)@.gather(*kit, *tab, dst, m as int),
    {
        let pipe = if m == 1 { Pipe::Gather } else { Pipe::Mk(false, MkPipe::Gather) };
        let mut binds = tab.binds();
        let ghost chunks = binds@;
        binds.push(buf(8, Buf::TokIdx));
        binds.push(buf(9, dst));
        binds.push(uni(10, tab.params()));
        assert(binds@ =~= chunks + seq![
            at(8, Buf::TokIdx, 0),
            at(9, dst, 0),
            param(10, tab.gather_params()),
        ]);
        self.push(pipe, binds, Grid::Dims(m as u32, 1, 1));
    }

    fn project(&mut self, kit: &Toolkit, proj: &Proj, x: Buf, m: usize, x_stride: usize, dst: &Dst)
        requires
            project_ok(*kit, old(self)@.target, *proj, m as int, x_stride as int, *dst),
        ensures
            final(self)@.target == old(self)@.target,
            final(self)@ == old(self)@.project(*kit, *proj, x, m as int, x_stride as int, *dst),
    {
        if m == 1 {
            self.gemv(&kit.pl, proj, x, dst);
        } else {
            self.gemv_mk(kit, proj, x, m, x_stride, dst);
        }
    }

    /// Appends the passes before the first layer.
    pub fn emit_prologue(
        &mut self,
        kit: &Toolkit,
        cfg: &EmitCfg,
        prefill: bool,
        m: usize,
        embed: &Table,
        ple: &Table,
        plmp: &Proj,
    )
        requires
            prologue_ok(*kit, old(self)@.target, *cfg, m as int, *plmp),
        ensures
            final(self)@.target == old(self)@.target,
            final(self)@ == old(self)@.prologue(
                *kit,
                *cfg,
                prefill,
                m as int,
                *embed,
                *ple,
                *plmp,
            ),
    {
        let t0 = Buf::Work(prefill, Work::T0);
        let hid_a = Buf::Work(prefill, Work::HidA);
        let ple_raw = Buf::Work(prefill, Work::PleRaw);
        let ple_proj = Buf::Work(prefill, Work::PleProj);
        let ple_normed = Buf::Work(prefill, Work::PleNormed);
        self.gather(kit, embed, t0, m);
        let n: usize = m * cfg.hidden;
        let scale_p = Uniform::Scale {
            n: n as u32,
            n_words: (n / 2) as u32,
            scale: cfg.embed_scale,
            cap: 0,
            inv_cap: 0,
        };
        self.push(
            Pipe::Scale,
            vec![buf(0, t0), buf(2, hid_a), uni(3, scale_p)],
            grid_1d(n / 2, 256),
        );
        self.gather(kit, ple, ple_raw, m);
        self.project(kit, plmp, hid_a, m, cfg.hidden / 2, &packed_dst(ple_proj, cfg.ple_row / 2));
        self.rms(
            ple_proj,
            Buf::Norm(Norm::PerLayerProjection),
            ple_normed,
            m * cfg.n_layers,
            cfg.hpl,
            cfg.eps,
        );
        let words: usize = m * cfg.ple_row / 2;
        let ax_p = Uniform::Axpby { n_words: words as u32, sa: cfg.pli_sa, sb: cfg.pli_sb };
        self.push(
            Pipe::Axpby,
            vec![
                buf(0, ple_normed),
                buf(1, ple_raw),
                buf(2, Buf::Work(prefill, Work::Pli)),
                uni(3, ax_p),
            ],
            grid_1d(words, 256),
        );
    }
}

/// The adapter of one layer and the token routing of the row count it runs at.
#[derive(Clone, Copy)]
pub struct LayerLora<'a> {
    pub sites: &'a E4bLoraLayer,
    pub meta: &'a LoraMeta,
}

pub open spec fn lora_site_of(lora: Option<LayerLora<'_>>, kind: LoraKind) -> Option<E4bLoraSite> {
    match lora {
        None => None,
        Some(l) => match kind {
            LoraKind::Qkv => l.sites.qkv,
            LoraKind::O => l.sites.o,
            LoraKind::GateUp => l.sites.gate_up,
            LoraKind::Down => l.sites.down,
        },
    }
}

/// The destinations of the fused query, key and value projection.
pub open spec fn qkv_segs(a: LayerEmit) -> Seq<Buf> {
    if a.shared is Some {
        seq![a.work(Work::Qa)]
    } else {
        seq![a.work(Work::Qa), a.work(Work::Ka), a.work(Work::Va)]
    }
}

pub open spec fn qkv_dst(a: LayerEmit) -> Dst {
    if a.shared is Some {
        packed(a.work(Work::Qa), a.q_dim / 2)
    } else {
        Dst::SplitQkv {
            q: a.work(Work::Qa),
            k: a.work(Work::Ka),
            v: a.work(Work::Va),
            q_rows: a.q_dim,
            kv_rows: a.kv_dim,
            v_off: if a.has_v { (a.q_dim + a.kv_dim) as usize } else { a.q_dim },
        }
    }
}

pub open spec fn fac_params(heads: int, hd: usize, eps: u32, m: int) -> Uniform {
    Uniform::Fac {
        n_heads: heads as u32,
        head_dim: hd as u32,
        half_dim: (hd / 2) as u32,
        eps,
        rows: (m * heads) as u32,
    }
}

pub open spec fn rope_params(heads: int, hd: usize, m: int, max_seq: usize) -> Uniform {
    Uniform::Rope {
        n_heads: heads as u32,
        half_dim: (hd / 2) as u32,
        total_words: (m * heads * (hd / 2)) as u32,
        table_rows: max_seq as u32,
    }
}

pub open spec fn kvq_params(a: LayerEmit, max_seq: usize) -> Uniform {
    Uniform::KvFp8 {
        n_tokens: a.m as u32,
        n_kv: a.nkv as u32,
        head_dim: a.hd as u32,
        pairs: (a.m * a.nkv) as u32,
        slots: max_seq as u32,
    }
}

/// The operands of the first attention stage.
pub open spec fn flash1_binds(a: LayerEmit) -> Seq<Bind> {
    seq![
        at(0, a.work(Work::QF32), 0),
        at(4, Buf::Fd(a.prefill, a.kind), 0),
        at(5, a.cache(KvPart::K), 0),
        at(6, a.cache(KvPart::V), 0),
        at(7, a.work(Work::Scratch), 0),
        at(8, a.cache(KvPart::KScales), 0),
        at(9, a.cache(KvPart::VScales), 0),
    ]
}

/// The operands of the second attention stage.
pub open spec fn flash2_binds(a: LayerEmit) -> Seq<Bind> {
    seq![
        at(3, a.work(Work::AttnPack), 0),
        at(4, Buf::Fd(a.prefill, a.kind), 0),
        at(7, a.work(Work::Scratch), 0),
    ]
}

pub open spec fn flash1_pipe(pl: Pipelines, hd: usize) -> Pipe {
    if pl.gqa_fold > 1 {
        Pipe::Flash1Fold(first_covering(pl.flash1_fold@, hd as int)->0)
    } else {
        Pipe::Flash1(first_covering(pl.flash1@, hd as int)->0)
    }
}

/// Whether the tensor-ops attention takes the layer's prefill rows, and which one.
pub open spec fn tensor_attn_pipe(kit: Toolkit, hd: int, n_q: int, nkv: int) -> Option<Pipe> {
    if nkv == 0 || n_q % nkv != 0 {
        None
    } else if hd == kit.lim.tensor_head_dim {
        if kit.pl.tensor_attn_narrow { Some(Pipe::TensorOpsAttn) } else { None }
    } else if hd == kit.lim.tensor_head_dim_wide {
        if kit.pl.tensor_attn_wide { Some(Pipe::TensorOpsAttnWide) } else { None }
    } else {
        None
    }
}

impl Lists {
    pub open spec fn lora(
        self,
        lim: Limits,
        a: LayerEmit,
        lora: Option<LayerLora<'_>>,
        kind: LoraKind,
        x: Buf,
        segs: Seq<Buf>,
    ) -> Lists {
        match lora_site_of(lora, kind) {
            None => self,
            Some(site) => self.lora_site(
                lim,
                LoraPlace { prefill: a.prefill, layer: a.li, kind },
                site,
                *lora->0.meta,
                a.m as int,
                x,
                segs,
            ),
        }
    }

    /// The input norm; fused chains leave it to the layer before.
    pub open spec fn layer_input(self, kit: Toolkit, cfg: EmitCfg, a: LayerEmit) -> Lists {
        if !a.fused_norms(kit) || a.li == 0 {
            self.rms(
                a.x_in(),
                Buf::Norm(Norm::Input(a.li)),
                a.work(Work::T0),
                a.m as int,
                cfg.hidden,
                cfg.eps,
            )
        } else {
            self
        }
    }

    /// Query, key and value rows, with their adapter.
    #[verifier::opaque]
    pub open spec fn layer_qkv(
        self,
        kit: Toolkit,
        cfg: EmitCfg,
        a: LayerEmit,
        lora: Option<LayerLora<'_>>,
    ) -> Lists {
        self.project(
            kit,
            a.qkv,
            a.work(Work::T0),
            a.m as int,
            cfg.hidden as int / 2,
            qkv_dst(a),
        ).lora(kit.lim, a, lora, LoraKind::Qkv, a.work(Work::T0), qkv_segs(a))
    }

    /// Head norms, rotary positions and the cache writes, each row kind in one fused pass.
    #[verifier::opaque]
    pub open spec fn attn_rows_fused(self, cfg: EmitCfg, a: LayerEmit) -> Lists {
        let q = self.pushed(
            Pipe::FacQ,
            seq![
                at(0, a.work(Work::Qa), 0),
                at(1, Buf::Norm(Norm::Q(a.li)), 0),
                at(2, Buf::RopeCos(a.kind), 0),
                at(3, Buf::RopeSin(a.kind), 0),
                at(4, Buf::RopePos, 0),
                at(6, a.work(Work::QF32), 0),
                param(9, fac_params(cfg.n_q as int, a.hd, cfg.eps, a.m as int)),
            ],
            Grid::Dims((a.m * cfg.n_q) as u32, 1, 1),
        );
        if a.shared is Some {
            q
        } else {
            let kv_p = fac_params(a.nkv as int, a.hd, cfg.eps, a.m as int);
            q.pushed(
                Pipe::FacK,
                seq![
                    at(0, a.work(Work::Ka), 0),
                    at(1, Buf::Norm(Norm::K(a.li)), 0),
                    at(2, Buf::RopeCos(a.kind), 0),
                    at(3, Buf::RopeSin(a.kind), 0),
                    at(4, Buf::RopePos, 0),
                    at(5, Buf::KvStart, 0),
                    at(7, a.cache(KvPart::K), 0),
                    at(8, a.cache(KvPart::KScales), 0),
                    param(9, kv_p),
                ],
                Grid::Dims((a.m * a.nkv) as u32, 1, 1),
            ).pushed(
                Pipe::FacV,
                seq![
                    at(0, a.work(Work::Va), 0),
                    at(1, Buf::Norm(Norm::V(a.li)), 0),
                    at(5, Buf::KvStart, 0),
                    at(7, a.cache(KvPart::V), 0),
                    at(8, a.cache(KvPart::VScales), 0),
                    param(9, kv_p),
                ],
                Grid::Dims((a.m * a.nkv) as u32, 1, 1),
            )
        }
    }

    pub open spec fn rope_q(self, cfg: EmitCfg, a: LayerEmit) -> Lists {
        self.pushed(
            Pipe::RopeF32,
            seq![
                at(0, a.work(Work::Qb), 0),
                at(2, Buf::RopeCos(a.kind), 0),
                at(3, Buf::RopeSin(a.kind), 0),
                at(4, Buf::RopePos, 0),
                param(5, rope_params(cfg.n_q as int, a.hd, a.m as int, cfg.max_seq)),
                at(6, a.work(Work::QF32), 0),
            ],
            one_d(a.m * cfg.n_q * (a.hd / 2), 256),
        )
    }

    pub open spec fn kv_quant(self, cfg: EmitCfg, a: LayerEmit, x: Work, part: KvPart, scales: KvPart)
        -> Lists {
        self.pushed(
            Pipe::KvQuant,
            seq![
                at(0, a.work(x), 0),
                at(1, a.cache(part), 0),
                at(2, a.cache(scales), 0),
                at(3, Buf::KvStart, 0),
                param(4, kvq_params(a, cfg.max_seq)),
            ],
            Grid::Dims((a.m * a.nkv) as u32, 1, 1),
        )
    }

    /// Head norms, rotary positions and the cache writes, a pass each.
    #[verifier::opaque]
    pub open spec fn attn_rows(self, cfg: EmitCfg, a: LayerEmit) -> Lists {
        let q = self.rms(
            a.work(Work::Qa),
            Buf::Norm(Norm::Q(a.li)),
            a.work(Work::Qb),
            a.m * cfg.n_q,
            a.hd,
            cfg.eps,
        );
        if a.shared is Some {
            q.rope_q(cfg, a)
        } else {
            q.rms(
                a.work(Work::Ka),
                Buf::Norm(Norm::K(a.li)),
                a.work(Work::Kb),
                a.m * a.nkv,
                a.hd,
                cfg.eps,
            ).rms(
                a.work(Work::Va),
                Buf::Norm(Norm::V(a.li)),
                a.work(Work::Vb),
                a.m * a.nkv,
                a.hd,
                cfg.eps,
            ).rope_q(cfg, a).pushed(
                Pipe::Rope,
                seq![
                    at(0, a.work(Work::Kb), 0),
                    at(1, a.work(Work::Ka), 0),
                    at(2, Buf::RopeCos(a.kind), 0),
                    at(3, Buf::RopeSin(a.kind), 0),
                    at(4, Buf::RopePos, 0),
                    param(5, rope_params(a.nkv as int, a.hd, a.m as int, cfg.max_seq)),
                ],
                one_d(a.m * a.nkv * (a.hd / 2), 256),
            ).kv_quant(cfg, a, Work::Ka, KvPart::K, KvPart::KScales).kv_quant(
                cfg,
                a,
                Work::Vb,
                KvPart::V,
                KvPart::VScales,
            )
        }
    }

    /// The twins of the last two decode passes that serve a deep context.
    pub open spec fn deep_attn(self, pl: Pipelines, cfg: EmitCfg, a: LayerEmit, gx: u32) -> Lists {
        let i1 = self.decode.len() - 2;
        let i2 = self.decode.len() - 1;
        match pl.deep_splits {
            None => self,
            Some(deep) => if a.kind == LayerType::SlidingAttention && pl.deep_full_only {
                self.twinned(
                    i1,
                    flash1_pipe(pl, a.hd),
                    flash1_binds(a),
                    Grid::Dims(gx, pl.decode_splits, 1),
                ).twinned(i2, Pipe::Flash2Pk, flash2_binds(a), Grid::Dims(cfg.n_q as u32, 1, 1))
            } else {
                let folded = a.kind == LayerType::FullAttention && pl.flash1_fold_deep@.len() > 0;
                self.twinned(
                    i1,
                    if folded {
                        Pipe::Flash1FoldDeep(first_covering(pl.flash1_fold_deep@, a.hd as int)->0)
                    } else {
                        flash1_pipe(pl, a.hd)
                    },
                    flash1_binds(a),
                    Grid::Dims(
                        if folded {
                            cfg.n_q as u32 / (if pl.deep_fold > 1 { pl.deep_fold } else { 1 })
                        } else {
                            gx
                        },
                        deep,
                        1,
                    ),
                ).twinned(i2, Pipe::Flash2PkDeep, flash2_binds(a), Grid::Dims(cfg.n_q as u32, 1, 1))
            },
        }
    }

    #[verifier::opaque]
    pub open spec fn layer_attn(self, kit: Toolkit, cfg: EmitCfg, a: LayerEmit) -> Lists {
        if a.m == 1 {
            let gx = cfg.n_q as u32 / kit.pl.gqa_fold;
            self.pushed(
                flash1_pipe(kit.pl, a.hd),
                flash1_binds(a),
                Grid::Dims(gx, kit.pl.decode_splits, 1),
            ).pushed(
                Pipe::Flash2Pk,
                flash2_binds(a),
                Grid::Dims(cfg.n_q as u32, 1, 1),
            ).deep_attn(kit.pl, cfg, a, gx)
        } else {
            match tensor_attn_pipe(kit, a.hd as int, cfg.n_q as int, a.nkv as int) {
                Some(pipe) if self.target == Target::Prefill && kit.pl.tensor_attn => self.pushed(
                    pipe,
                    seq![
                        at(0, a.work(Work::QF32), 0),
                        at(1, a.cache(KvPart::K), 0),
                        at(2, a.cache(KvPart::V), 0),
                        at(3, a.cache(KvPart::KScales), 0),
                        at(4, a.cache(KvPart::VScales), 0),
                        at(5, a.work(Work::AttnPack), 0),
                        at(6, Buf::Fd(a.prefill, a.kind), 0),
                    ],
                    Grid::TensorOpsAttn(cfg.n_q as u32, a.m as u32),
                ),
                _ => self.pushed(
                    if a.kind == LayerType::FullAttention && kit.pl.mk->0.qtile {
                        Pipe::Mk(false, MkPipe::Flash1Qtile)
                    } else {
                        Pipe::Mk(false, MkPipe::Flash1)
                    },
                    flash1_binds(a),
                    Grid::Dims(cfg.n_q as u32, FLASH_SPLITS, 1),
                ).pushed(
                    Pipe::Mk(false, MkPipe::Flash2Pk),
                    flash2_binds(a),
                    Grid::Dims(cfg.n_q as u32, a.m as u32, 1),
                ),
            }
        }
    }

    /// The attention output projection, then the norm before the feed-forward.
    #[verifier::opaque]
    pub open spec fn layer_attn_out(
        self,
        kit: Toolkit,
        cfg: EmitCfg,
        a: LayerEmit,
        lora: Option<LayerLora<'_>>,
    ) -> Lists {
        let s = self.project(
            kit,
            a.o,
            a.work(Work::AttnPack),
            a.m as int,
            a.q_dim as int / 2,
            packed(a.work(Work::T1), cfg.hidden / 2),
        ).lora(kit.lim, a, lora, LoraKind::O, a.work(Work::AttnPack), seq![a.work(Work::T1)]);
        if a.fused_norms(kit) {
            s.pushed(
                Pipe::FncA,
                seq![
                    at(0, a.work(Work::T1), 0),
                    at(1, a.x_in(), 0),
                    at(2, Buf::Norm(Norm::PostAttn(a.li)), 0),
                    at(3, Buf::Norm(Norm::PreFf(a.li)), 0),
                    at(4, a.work(Work::T2), 0),
                    param(5, fnc_params(a.m, cfg.hidden, cfg.eps, F32_ONE)),
                ],
                one_d(a.m as int, 1),
            )
        } else {
            s.rms(
                a.work(Work::T1),
                Buf::Norm(Norm::PostAttn(a.li)),
                a.work(Work::T0),
                a.m as int,
                cfg.hidden,
                cfg.eps,
            ).pushed(
                Pipe::RmsRes,
                seq![
                    at(0, a.work(Work::T0), 0),
                    at(1, a.x_in(), 0),
                    at(2, Buf::Norm(Norm::PreFf(a.li)), 0),
                    at(3, a.work(Work::T1), 0),
                    param(4, rms_params(a.m as int, cfg.hidden, cfg.eps)),
                ],
                Grid::Dims(a.m as u32, 1, 1),
            )
        }
    }

    /// The feed-forward, up to the residual sum in the middle buffer.
    #[verifier::opaque]
    pub open spec fn layer_ff(
        self,
        kit: Toolkit,
        cfg: EmitCfg,
        a: LayerEmit,
        lora: Option<LayerLora<'_>>,
    ) -> Lists {
        let mlp_in = a.work(if a.fused_norms(kit) { Work::T2 } else { Work::T1 });
        let s = self.project(
            kit,
            a.gate_up,
            mlp_in,
            a.m as int,
            cfg.hidden as int / 2,
            packed(a.work(Work::GuPack), cfg.inter),
        ).lora(kit.lim, a, lora, LoraKind::GateUp, mlp_in, seq![a.work(Work::GuPack)]).pushed(
            Pipe::GeluEven,
            seq![
                at(3, a.work(Work::GuPack), 0),
                at(4, a.work(Work::ActPack), 0),
                param(
                    5,
                    Uniform::Gelu {
                        inter: cfg.inter as u32,
                        inter_words: (cfg.inter / 2) as u32,
                        rows: a.m as u32,
                        tot_pairs: (a.m * cfg.inter) as u32,
                    },
                ),
            ],
            Grid::OneDRows(GroupsX { invocations: (cfg.inter / 2) as u64, wg: 256 }, a.m as u32),
        ).project(
            kit,
            a.down,
            a.work(Work::ActPack),
            a.m as int,
            cfg.inter as int / 2,
            packed(a.work(Work::T0), cfg.hidden / 2),
        ).lora(kit.lim, a, lora, LoraKind::Down, a.work(Work::ActPack), seq![a.work(Work::T0)]);
        if a.fused_norms(kit) {
            s.pushed(
                Pipe::FncB,
                seq![
                    at(0, a.work(Work::T0), 0),
                    at(1, a.x_in(), 0),
                    at(2, Buf::Norm(Norm::PostFf(a.li)), 0),
                    at(4, a.work(Work::Mid), 0),
                    param(5, fnc_params(a.m, cfg.hidden, cfg.eps, F32_ONE)),
                ],
                one_d(a.m as int, 1),
            )
        } else {
            s.rms(
                a.work(Work::T0),
                Buf::Norm(Norm::PostFf(a.li)),
                a.work(Work::T1),
                a.m as int,
                cfg.hidden,
                cfg.eps,
            ).resadd(a.x_in(), a.work(Work::T1), a.work(Work::Mid), a.m * cfg.hidden, F32_ONE)
        }
    }

    /// The per-layer input, gated and projected, closes the layer.
    #[verifier::opaque]
    pub open spec fn layer_per_layer_input(self, kit: Toolkit, cfg: EmitCfg, a: LayerEmit) -> Lists {
        let gm = a.m * cfg.hpl / 2;
        let s = self.project(
            kit,
            a.pl_gate,
            a.work(Work::Mid),
            a.m as int,
            cfg.hidden as int / 2,
            packed(a.work(Work::PlGate), cfg.hpl / 2),
        ).pushed(
            if a.m == 1 { Pipe::GateMul } else { Pipe::Mk(false, MkPipe::GateMul) },
            seq![
                at(0, a.work(Work::PlGate), 0),
                at(1, a.work(Work::Pli), 0),
                at(2, a.work(Work::PlGated), 0),
                param(
                    3,
                    Uniform::GateMul {
                        n_words: gm as u32,
                        pli_word_off: (a.li * cfg.hpl / 2) as u32,
                        tok_words: (cfg.hpl / 2) as u32,
                        pli_stride: (cfg.ple_row / 2) as u32,
                    },
                ),
            ],
            one_d(gm, 256),
        ).project(
            kit,
            a.pl_proj,
            a.work(Work::PlGated),
            a.m as int,
            cfg.hpl as int / 2,
            packed(a.work(Work::T1), cfg.hidden / 2),
        );
        if a.fused_norms(kit) {
            s.pushed(
                Pipe::FncC,
                seq![
                    at(0, a.work(Work::T1), 0),
                    at(1, a.work(Work::Mid), 0),
                    at(2, Buf::Norm(Norm::PostPerLayer(a.li)), 0),
                    at(3, Buf::Norm(a.ln_next), 0),
                    at(4, a.x_out(), 0),
                    param(5, fnc_params(a.m, cfg.hidden, cfg.eps, a.layer_scalar)),
                    at(6, a.work(Work::T0), 0),
                ],
                one_d(a.m as int, 1),
            )
        } else {
            s.rms(
                a.work(Work::T1),
                Buf::Norm(Norm::PostPerLayer(a.li)),
                a.work(Work::T2),
                a.m as int,
                cfg.hidden,
                cfg.eps,
            ).resadd(
                a.work(Work::Mid),
                a.work(Work::T2),
                a.x_out(),
                a.m * cfg.hidden,
                a.layer_scalar,
            )
        }
    }

    /// All passes of one layer.
    pub open spec fn layer(
        self,
        kit: Toolkit,
        cfg: EmitCfg,
        a: LayerEmit,
        lora: Option<LayerLora<'_>>,
    ) -> Lists {
        let s = self.layer_input(kit, cfg, a).layer_qkv(kit, cfg, a, lora);
        let s = if a.fused_attn(kit) { s.attn_rows_fused(cfg, a) } else { s.attn_rows(cfg, a) };
        s.layer_attn(kit, cfg, a).layer_attn_out(kit, cfg, a, lora).layer_ff(
            kit,
            cfg,
            a,
            lora,
        ).layer_per_layer_input(kit, cfg, a)
    }
}

pub open spec fn lora_site_ok(kit: Toolkit, a: LayerEmit, lora: Option<LayerLora<'_>>, kind: LoraKind) -> bool {
    lora_site_of(lora, kind) matches Some(site) ==> {
        &&& lora_ok(kit.lim, site, *lora->0.meta, a.m as int)
        &&& site.segs@.len() == if kind == LoraKind::Qkv { qkv_segs(a).len() } else { 1 }
    }
}

/// The attention kernels that a decode row needs were built.
pub open spec fn attn_ready(pl: Pipelines, a: LayerEmit) -> bool {
    &&& pl.gqa_fold > 0
    &&& if pl.gqa_fold > 1 {
        first_covering(pl.flash1_fold@, a.hd as int) is Some
    } else {
        first_covering(pl.flash1@, a.hd as int) is Some
    }
    &&& pl.deep_splits is Some && a.kind == LayerType::FullAttention && pl.flash1_fold_deep@.len() > 0
        ==> first_covering(pl.flash1_fold_deep@, a.hd as int) is Some
}

/// The sizes of a layer's passes fit the address type.
pub open spec fn layer_fits(cfg: EmitCfg, a: LayerEmit) -> bool {
    &&& a.m * cfg.hidden <= usize::MAX
    &&& a.m * cfg.inter <= usize::MAX
    &&& a.m * cfg.hpl <= usize::MAX
    &&& a.li * cfg.hpl <= usize::MAX
    &&& a.m * cfg.n_q <= usize::MAX
    &&& a.m * cfg.n_q * (a.hd / 2) <= usize::MAX
    &&& a.m * a.nkv <= usize::MAX
    &&& a.m * a.nkv * (a.hd / 2) <= usize::MAX
    &&& a.q_dim + a.kv_dim <= usize::MAX
}

/// Everything that emitting a layer needs: sizes that fit and kernels that were built.
pub open spec fn layer_ok(
    kit: Toolkit,
    target: Target,
    cfg: EmitCfg,
    a: LayerEmit,
    lora: Option<LayerLora<'_>>,
) -> bool {
    let m = a.m as int;
    let h = cfg.hidden as int / 2;
    &&& layer_fits(cfg, a)
    &&& if a.m == 1 {
        target == Target::Decode && attn_ready(kit.pl, a)
    } else {
        kit.pl.mk is Some
    }
    &&& project_ok(kit, target, a.qkv, m, h, qkv_dst(a))
    &&& project_ok(kit, target, a.o, m, a.q_dim as int / 2, packed(a.work(Work::T1), cfg.hidden / 2))
    &&& project_ok(kit, target, a.gate_up, m, h, packed(a.work(Work::GuPack), cfg.inter))
    &&& project_ok(
        kit,
        target,
        a.down,
        m,
        cfg.inter as int / 2,
        packed(a.work(Work::T0), cfg.hidden / 2),
    )
    &&& project_ok(kit, target, a.pl_gate, m, h, packed(a.work(Work::PlGate), cfg.hpl / 2))
    &&& project_ok(
        kit,
        target,
        a.pl_proj,
        m,
        cfg.hpl as int / 2,
        packed(a.work(Work::T1), cfg.hidden / 2),
    )
    &&& lora_site_ok(kit, a, lora, LoraKind::Qkv)
    &&& lora_site_ok(kit, a, lora, LoraKind::O)
    &&& lora_site_ok(kit, a, lora, LoraKind::GateUp)
    &&& lora_site_ok(kit, a, lora, LoraKind::Down)
}

impl LayerEmit {
    fn wbuf(&self, w: Work) -> (r: Buf)
        ensures
            r == self.work(w),
    {
        Buf::Work(self.prefill, w)
    }

    fn cache_buf(&self, part: KvPart) -> (r: Buf)
        ensures
            r == self.cache(part),
    {
        Buf::Kv(self.kv, part)
    }

    fn input(&self) -> (r: Buf)
        ensures
            r == self.x_in(),
    {
        self.wbuf(if self.li % 2 == 0 { Work::HidA } else { Work::HidB })
    }

    fn output(&self) -> (r: Buf)
        ensures
            r == self.x_out(),
    {
        self.wbuf(if self.li % 2 == 0 { Work::HidB } else { Work::HidA })
    }

    fn stage1_binds(&self) -> (r: Vec<Bind>)
        ensures
            r@ == flash1_binds(*self),
    {
        vec![
            buf(0, self.wbuf(Work::QF32)),
            buf(4, Buf::Fd(self.prefill, self.kind)),
            buf(5, self.cache_buf(KvPart::K)),
            buf(6, self.cache_buf(KvPart::V)),
            buf(7, self.wbuf(Work::Scratch)),
            buf(8, self.cache_buf(KvPart::KScales)),
            buf(9, self.cache_buf(KvPart::VScales)),
        ]
    }

    fn stage2_binds(&self) -> (r: Vec<Bind>)
        ensures
            r@ == flash2_binds(*self),
    {
        vec![
            buf(3, self.wbuf(Work::AttnPack)),
            buf(4, Buf::Fd(self.prefill, self.kind)),
            buf(7, self.wbuf(Work::Scratch)),
        ]
    }
}

fn pick_flash1(pl: &Pipelines, hd: usize) -> (r: Pipe)
    requires
        pl.gqa_fold > 1 ==> first_covering(pl.flash1_fold@, hd as int) is Some,
        pl.gqa_fold <= 1 ==> first_covering(pl.flash1@, hd as int) is Some,
    ensures
        r == flash1_pipe(*pl, hd),
{
    if pl.gqa_fold > 1 {
        match flash1_pick(&pl.flash1_fold, hd) {
            Some(c) => Pipe::Flash1Fold(c),
            None => Pipe::Flash2Pk,
        }
    } else {
        match flash1_pick(&pl.flash1, hd) {
            Some(c) => Pipe::Flash1(c),
            None => Pipe::Flash2Pk,
        }
    }
}

impl Builder {
    fn lora(
        &mut self,
        lim: &Limits,
        a: &LayerEmit,
        lora: &Option<LayerLora<'_>>,
        kind: LoraKind,
        x: Buf,
        segs: Vec<Buf>,
    )
        requires
            lora_site_of(*lora, kind) matches Some(site) ==> {
                &&& lora_ok(*lim, site, *lora->0.meta, a.m as int)
                &&& site.segs@.len() == segs@.len()
            },
        ensures
            final(self)@.target == old(self)@.target,
            final(self)@ == old(self)@.lora(*lim, *a, *lora, kind, x, segs@),
    {
        match lora {
            None => {},
            Some(l) => {
                let site = match kind {
                    LoraKind::Qkv => &l.sites.qkv,
                    LoraKind::O => &l.sites.o,
                    LoraKind::GateUp => &l.sites.gate_up,
                    LoraKind::Down => &l.sites.down,
                };
                match site {
                    None => {},
                    Some(s) => {
                        let place = LoraPlace { prefill: a.prefill, layer: a.li, kind };
                        emit_lora_site(self, lim, place, s, l.meta, a.m, x, &segs);
                    },
                }
            },
        }
    }

    fn emit_qkv(&mut self, kit: &Toolkit, cfg: &EmitCfg, a: &LayerEmit, lora: &Option<LayerLora<'_>>)
        requires
            layer_ok(*kit, old(self)@.target, *cfg, *a, *lora),
        ensures
            final(self)@.target == old(self)@.target,
            final(self)@ == old(self)@.layer_qkv(*kit, *cfg, *a, *lora),
    {
        proof {
            reveal(Lists::layer_qkv);
        }
        let t0 = a.wbuf(Work::T0);
        let qa = a.wbuf(Work::Qa);
        match a.shared {
            Some(_) => {
                let dst = packed_dst(qa, a.q_dim / 2);
                self.project(kit, &a.qkv, t0, a.m, cfg.hidden / 2, &dst);
                let segs = vec![qa];
                assert(segs@ =~= qkv_segs(*a));
                self.lora(&kit.lim, a, lora, LoraKind::Qkv, t0, segs);
            },
            None => {
                let ka = a.wbuf(Work::Ka);
                let va = a.wbuf(Work::Va);
                let dst = Dst::SplitQkv {
                    q: qa,
                    k: ka,
                    v: va,
                    q_rows: a.q_dim,
                    kv_rows: a.kv_dim,
                    v_off: if a.has_v { a.q_dim + a.kv_dim } else { a.q_dim },
                };
                self.project(kit, &a.qkv, t0, a.m, cfg.hidden / 2, &dst);
                let segs = vec![qa, ka, va];
                assert(segs@ =~= qkv_segs(*a));
                self.lora(&kit.lim, a, lora, LoraKind::Qkv, t0, segs);
            },
        }
    }

    fn emit_attn_rows_fused(&mut self, cfg: &EmitCfg, a: &LayerEmit)
        requires
            layer_fits(*cfg, *a),
        ensures
            final(self)@.target == old(self)@.target,
            final(self)@ == old(self)@.attn_rows_fused(*cfg, *a),
    {
        proof {
            reveal(Lists::attn_rows_fused);
        }
        let half: usize = a.hd / 2;
        let q_rows: usize = a.m * cfg.n_q;
        let q_p = Uniform::Fac {
            n_heads: cfg.n_q as u32,
            head_dim: a.hd as u32,
            half_dim: half as u32,
            eps: cfg.eps,
            rows: q_rows as u32,
        };
        self.push(
            Pipe::FacQ,
            vec![
                buf(0, a.wbuf(Work::Qa)),
                buf(1, Buf::Norm(Norm::Q(a.li))),
                buf(2, Buf::RopeCos(a.kind)),
                buf(3, Buf::RopeSin(a.kind)),
                buf(4, Buf::RopePos),
                buf(6, a.wbuf(Work::QF32)),
                uni(9, q_p),
            ],
            Grid::Dims(q_rows as u32, 1, 1),
        );
        if a.shared.is_none() {
            let kv_rows: usize = a.m * a.nkv;
            let kv_p = Uniform::Fac {
                n_heads: a.nkv as u32,
                head_dim: a.hd as u32,
                half_dim: half as u32,
                eps: cfg.eps,
                rows: kv_rows as u32,
            };
            self.push(
                Pipe::FacK,
                vec![
                    buf(0, a.wbuf(Work::Ka)),
                    buf(1, Buf::Norm(Norm::K(a.li))),
                    buf(2, Buf::RopeCos(a.kind)),
                    buf(3, Buf::RopeSin(a.kind)),
                    buf(4, Buf::RopePos),
                    buf(5, Buf::KvStart),
                    buf(7, a.cache_buf(KvPart::K)),
                    buf(8, a.cache_buf(KvPart::KScales)),
                    uni(9, kv_p),
                ],
                Grid::Dims(kv_rows as u32, 1, 1),
            );
            self.push(
                Pipe::FacV,
                vec![
                    buf(0, a.wbuf(Work::Va)),
                    buf(1, Buf::Norm(Norm::V(a.li))),
                    buf(5, Buf::KvStart),
                    buf(7, a.cache_buf(KvPart::V)),
                    buf(8, a.cache_buf(KvPart::VScales)),
                    uni(9, kv_p),
                ],
                Grid::Dims(kv_rows as u32, 1, 1),
            );
        }
    }

    fn emit_rope_q(&mut self, cfg: &EmitCfg, a: &LayerEmit)
        requires
            layer_fits(*cfg, *a),
        ensures
            final(self)@.target == old(self)@.target,
            final(self)@ == old(self)@.rope_q(*cfg, *a),
    {
        let half: usize = a.hd / 2;
        let words: usize = a.m * cfg.n_q * half;
        let p = Uniform::Rope {
            n_heads: cfg.n_q as u32,
            half_dim: half as u32,
            total_words: words as u32,
            table_rows: cfg.max_seq as u32,
        };
        self.push(
            Pipe::RopeF32,
            vec![
                buf(0, a.wbuf(Work::Qb)),
                buf(2, Buf::RopeCos(a.kind)),
                buf(3, Buf::RopeSin(a.kind)),
                buf(4, Buf::RopePos),
                uni(5, p),
                buf(6, a.wbuf(Work::QF32)),
            ],
            grid_1d(words, 256),
        );
    }

    fn emit_kv_quant(&mut self, cfg: &EmitCfg, a: &LayerEmit, x: Work, part: KvPart, scales: KvPart)
        requires
            layer_fits(*cfg, *a),
        ensures
            final(self)@.target == old(self)@.target,
            final(self)@ == old(self)@.kv_quant(*cfg, *a, x, part, scales),
    {
        let rows: usize = a.m * a.nkv;
        let p = Uniform::KvFp8 {
            n_tokens: a.m as u32,
            n_kv: a.nkv as u32,
            head_dim: a.hd as u32,
            pairs: rows as u32,
            slots: cfg.max_seq as u32,
        };
        self.push(
            Pipe::KvQuant,
            vec![
                buf(0, a.wbuf(x)),
                buf(1, a.cache_buf(part)),
                buf(2, a.cache_buf(scales)),
                buf(3, Buf::KvStart),
                uni(4, p),
            ],
            Grid::Dims(rows as u32, 1, 1),
        );
    }

    fn emit_attn_rows(&mut self, cfg: &EmitCfg, a: &LayerEmit)
        requires
            layer_fits(*cfg, *a),
        ensures
            final(self)@.target == old(self)@.target,
            final(self)@ == old(self)@.attn_rows(*cfg, *a),
    {
        proof {
            reveal(Lists::attn_rows);
        }
        let (qa, qb) = (a.wbuf(Work::Qa), a.wbuf(Work::Qb));
        self.rms(qa, Buf::Norm(Norm::Q(a.li)), qb, a.m * cfg.n_q, a.hd, cfg.eps);
        if a.shared.is_some() {
            self.emit_rope_q(cfg, a);
            return ;
        }
        let (ka, kb) = (a.wbuf(Work::Ka), a.wbuf(Work::Kb));
        let (va, vb) = (a.wbuf(Work::Va), a.wbuf(Work::Vb));
        self.rms(ka, Buf::Norm(Norm::K(a.li)), kb, a.m * a.nkv, a.hd, cfg.eps);
        self.rms(va, Buf::Norm(Norm::V(a.li)), vb, a.m * a.nkv, a.hd, cfg.eps);
        self.emit_rope_q(cfg, a);
        let half: usize = a.hd / 2;
        let words: usize = a.m * a.nkv * half;
        let p = Uniform::Rope {
            n_heads: a.nkv as u32,
            half_dim: half as u32,
            total_words: words as u32,
            table_rows: cfg.max_seq as u32,
        };
        self.push(
            Pipe::Rope,
            vec![
                buf(0, kb),
                buf(1, ka),
                buf(2, Buf::RopeCos(a.kind)),
                buf(3, Buf::RopeSin(a.kind)),
                buf(4, Buf::RopePos),
                uni(5, p),
            ],
            grid_1d(words, 256),
        );
        self.emit_kv_quant(cfg, a, Work::Ka, KvPart::K, KvPart::KScales);
        self.emit_kv_quant(cfg, a, Work::Vb, KvPart::V, KvPart::VScales);
    }

    /// Records the twins of the decode attention that was appended last.
    fn push_deep_decode_attn(&mut self, pl: &Pipelines, cfg: &EmitCfg, a: &LayerEmit, gx: u32)
        requires
            attn_ready(*pl, *a),
            old(self)@.decode.len() >= 2,
        ensures
            final(self)@.target == old(self)@.target,
            final(self)@ == old(self)@.deep_attn(*pl, *cfg, *a, gx),
    {
        let deep: u32 = match pl.deep_splits {
            None => {
                return ;
            },
            Some(d) => d,
        };
        let n_q: u32 = cfg.n_q as u32;
        let i2: usize = self.passes.len() - 1;
        let i1: usize = i2 - 1;
        if a.kind == LayerType::SlidingAttention && pl.deep_full_only {
            self.twin(
                i1,
                pick_flash1(pl, a.hd),
                a.stage1_binds(),
                Grid::Dims(gx, pl.decode_splits, 1),
            );
            self.twin(i2, Pipe::Flash2Pk, a.stage2_binds(), Grid::Dims(n_q, 1, 1));
            return ;
        }
        if a.kind == LayerType::FullAttention && pl.flash1_fold_deep.len() > 0 {
            let cap: u32 = match flash1_pick(&pl.flash1_fold_deep, a.hd) {
                Some(c) => c,
                None => 0,
            };
            let fold: u32 = if pl.deep_fold > 1 { pl.deep_fold } else { 1 };
            self.twin(
                i1,
                Pipe::Flash1FoldDeep(cap),
                a.stage1_binds(),
                Grid::Dims(n_q / fold, deep, 1),
            );
        } else {
            self.twin(i1, pick_flash1(pl, a.hd), a.stage1_binds(), Grid::Dims(gx, deep, 1));
        }
        self.twin(i2, Pipe::Flash2PkDeep, a.stage2_binds(), Grid::Dims(n_q, 1, 1));
    }

    /// Appends the tensor-ops attention if it takes the rows; says whether it did.
    fn emit_na_attn_prefill(&mut self, kit: &Toolkit, cfg: &EmitCfg, a: &LayerEmit) -> (taken: bool)
        ensures
            taken == (tensor_attn_pipe(*kit, a.hd as int, cfg.n_q as int, a.nkv as int) is Some),
            taken ==> old(self)@.target == Target::Prefill && kit.pl.tensor_attn && a.m != 1
                ==> final(self)@ == old(self)@.layer_attn(*kit, *cfg, *a),
            !taken ==> final(self)@ == old(self)@,
    {
        proof {
            reveal(Lists::layer_attn);
        }
        if a.nkv == 0 || cfg.n_q % a.nkv != 0 {
            return false;
        }
        let pipe = if a.hd == kit.lim.tensor_head_dim as usize {
            if !kit.pl.tensor_attn_narrow {
                return false;
            }
            Pipe::TensorOpsAttn
        } else if a.hd == kit.lim.tensor_head_dim_wide as usize {
            if !kit.pl.tensor_attn_wide {
                return false;
            }
            Pipe::TensorOpsAttnWide
        } else {
            return false;
        };
        self.push(
            pipe,
            vec![
                buf(0, a.wbuf(Work::QF32)),
                buf(1, a.cache_buf(KvPart::K)),
                buf(2, a.cache_buf(KvPart::V)),
                buf(3, a.cache_buf(KvPart::KScales)),
                buf(4, a.cache_buf(KvPart::VScales)),
                buf(5, a.wbuf(Work::AttnPack)),
                buf(6, Buf::Fd(a.prefill, a.kind)),
            ],
            Grid::TensorOpsAttn(cfg.n_q as u32, a.m as u32),
        );
        true
    }

    fn emit_attn(&mut self, kit: &Toolkit, cfg: &EmitCfg, a: &LayerEmit)
        requires
            a.m == 1 ==> old(self)@.target == Target::Decode && attn_ready(kit.pl, *a),
            a.m != 1 ==> kit.pl.mk is Some,
        ensures
            final(self)@.target == old(self)@.target,
            final(self)@ == old(self)@.layer_attn(*kit, *cfg, *a),
    {
        proof {
            reveal(Lists::layer_attn);
        }
        let n_q: u32 = cfg.n_q as u32;
        if a.m == 1 {
            let gx: u32 = n_q / kit.pl.gqa_fold;
            self.push(
                pick_flash1(&kit.pl, a.hd),
                a.stage1_binds(),
                Grid::Dims(gx, kit.pl.decode_splits, 1),
            );
            self.push(Pipe::Flash2Pk, a.stage2_binds(), Grid::Dims(n_q, 1, 1));
            self.push_deep_decode_attn(&kit.pl, cfg, a, gx);
            return ;
        }
        if self.target == Target::Prefill && kit.pl.tensor_attn {
            if self.emit_na_attn_prefill(kit, cfg, a) {
                return ;
            }
        }
        let qtile = match kit.pl.mk {
            Some(mk) => mk.qtile,
            None => false,
        };
        let pipe = if a.kind == LayerType::FullAttention && qtile {
            Pipe::Mk(false, MkPipe::Flash1Qtile)
        } else {
            Pipe::Mk(false, MkPipe::Flash1)
        };
        self.push(pipe, a.stage1_binds(), Grid::Dims(n_q, FLASH_SPLITS, 1));
        self.push(
            Pipe::Mk(false, MkPipe::Flash2Pk),
            a.stage2_binds(),
            Grid::Dims(n_q, a.m as u32, 1),
        );
    }

    fn emit_attn_out(&mut self, kit: &Toolkit, cfg: &EmitCfg, a: &LayerEmit, lora: &Option<LayerLora<'_>>)
        requires
            layer_ok(*kit, old(self)@.target, *cfg, *a, *lora),
        ensures
            final(self)@.target == old(self)@.target,
            final(self)@ == old(self)@.layer_attn_out(*kit, *cfg, *a, *lora),
    {
        proof {
            reveal(Lists::layer_attn_out);
        }
        let attn = a.wbuf(Work::AttnPack);
        let t1 = a.wbuf(Work::T1);
        self.project(kit, &a.o, attn, a.m, a.q_dim / 2, &packed_dst(t1, cfg.hidden / 2));
        let segs = vec![t1];
        assert(segs@ =~= seq![t1]);
        self.lora(&kit.lim, a, lora, LoraKind::O, attn, segs);
        if a.m == 1 && kit.pl.fnc {
            let p = Builder::fnc_uni(a.m, cfg.hidden, cfg.eps, F32_ONE);
            self.push(
                Pipe::FncA,
                vec![
                    buf(0, t1),
                    buf(1, a.input()),
                    buf(2, Buf::Norm(Norm::PostAttn(a.li))),
                    buf(3, Buf::Norm(Norm::PreFf(a.li))),
                    buf(4, a.wbuf(Work::T2)),
                    uni(5, p),
                ],
                grid_1d(a.m, 1),
            );
        } else {
            let t0 = a.wbuf(Work::T0);
            self.rms(t1, Buf::Norm(Norm::PostAttn(a.li)), t0, a.m, cfg.hidden, cfg.eps);
            let p = Uniform::Rms {
                hidden: cfg.hidden as u32,
                batch: a.m as u32,
                eps: cfg.eps,
                words_per_row: (cfg.hidden / 2) as u32,
            };
            self.push(
                Pipe::RmsRes,
                vec![
                    buf(0, t0),
                    buf(1, a.input()),
                    buf(2, Buf::Norm(Norm::PreFf(a.li))),
                    buf(3, t1),
                    uni(4, p),
                ],
                Grid::Dims(a.m as u32, 1, 1),
            );
        }
    }

    fn emit_ff(&mut self, kit: &Toolkit, cfg: &EmitCfg, a: &LayerEmit, lora: &Option<LayerLora<'_>>)
        requires
            layer_ok(*kit, old(self)@.target, *cfg, *a, *lora),
        ensures
            final(self)@.target == old(self)@.target,
            final(self)@ == old(self)@.layer_ff(*kit, *cfg, *a, *lora),
    {
        proof {
            reveal(Lists::layer_ff);
        }
        let fuse = a.m == 1 && kit.pl.fnc;
        let mlp_in = a.wbuf(if fuse { Work::T2 } else { Work::T1 });
        let gu = a.wbuf(Work::GuPack);
        let act = a.wbuf(Work::ActPack);
        let t0 = a.wbuf(Work::T0);
        self.project(kit, &a.gate_up, mlp_in, a.m, cfg.hidden / 2, &packed_dst(gu, cfg.inter));
        let segs = vec![gu];
        assert(segs@ =~= seq![gu]);
        self.lora(&kit.lim, a, lora, LoraKind::GateUp, mlp_in, segs);
        let gelu_p = Uniform::Gelu {
            inter: cfg.inter as u32,
            inter_words: (cfg.inter / 2) as u32,
            rows: a.m as u32,
            tot_pairs: (a.m * cfg.inter) as u32,
        };
        self.push(
            Pipe::GeluEven,
            vec![buf(3, gu), buf(4, act), uni(5, gelu_p)],
            Grid::OneDRows(GroupsX { invocations: (cfg.inter / 2) as u64, wg: 256 }, a.m as u32),
        );
        self.project(kit, &a.down, act, a.m, cfg.inter / 2, &packed_dst(t0, cfg.hidden / 2));
        let segs = vec![t0];
        assert(segs@ =~= seq![t0]);
        self.lora(&kit.lim, a, lora, LoraKind::Down, act, segs);
        if fuse {
            let p = Builder::fnc_uni(a.m, cfg.hidden, cfg.eps, F32_ONE);
            self.push(
                Pipe::FncB,
                vec![
                    buf(0, t0),
                    buf(1, a.input()),
                    buf(2, Buf::Norm(Norm::PostFf(a.li))),
                    buf(4, a.wbuf(Work::Mid)),
                    uni(5, p),
                ],
                grid_1d(a.m, 1),
            );
        } else {
            let t1 = a.wbuf(Work::T1);
            self.rms(t0, Buf::Norm(Norm::PostFf(a.li)), t1, a.m, cfg.hidden, cfg.eps);
            self.resadd(a.input(), t1, a.wbuf(Work::Mid), a.m * cfg.hidden, F32_ONE);
        }
    }

    fn emit_per_layer_input(&mut self, kit: &Toolkit, cfg: &EmitCfg, a: &LayerEmit)
        requires
            layer_ok(*kit, old(self)@.target, *cfg, *a, None),
        ensures
            final(self)@.target == old(self)@.target,
            final(self)@ == old(self)@.layer_per_layer_input(*kit, *cfg, *a),
    {
        proof {
            reveal(Lists::layer_per_layer_input);
        }
        let mid = a.wbuf(Work::Mid);
        let gate = a.wbuf(Work::PlGate);
        let gated = a.wbuf(Work::PlGated);
        let t1 = a.wbuf(Work::T1);
        self.project(kit, &a.pl_gate, mid, a.m, cfg.hidden / 2, &packed_dst(gate, cfg.hpl / 2));
        let words: usize = a.m * cfg.hpl / 2;
        let gm_p = Uniform::GateMul {
            n_words: words as u32,
            pli_word_off: (a.li * cfg.hpl / 2) as u32,
            tok_words: (cfg.hpl / 2) as u32,
            pli_stride: (cfg.ple_row / 2) as u32,
        };
        let pipe = if a.m == 1 { Pipe::GateMul } else { Pipe::Mk(false, MkPipe::GateMul) };
        self.push(
            pipe,
            vec![buf(0, gate), buf(1, a.wbuf(Work::Pli)), buf(2, gated), uni(3, gm_p)],
            grid_1d(words, 256),
        );
        self.project(kit, &a.pl_proj, gated, a.m, cfg.hpl / 2, &packed_dst(t1, cfg.hidden / 2));
        if a.m == 1 && kit.pl.fnc {
            let p = Builder::fnc_uni(a.m, cfg.hidden, cfg.eps, a.layer_scalar);
            self.push(
                Pipe::FncC,
                vec![
                    buf(0, t1),
                    buf(1, mid),
                    buf(2, Buf::Norm(Norm::PostPerLayer(a.li))),
                    buf(3, Buf::Norm(a.ln_next)),
                    buf(4, a.output()),
                    uni(5, p),
                    buf(6, a.wbuf(Work::T0)),
                ],
                grid_1d(a.m, 1),
            );
        } else {
            let t2 = a.wbuf(Work::T2);
            self.rms(t1, Buf::Norm(Norm::PostPerLayer(a.li)), t2, a.m, cfg.hidden, cfg.eps);
            self.resadd(mid, t2, a.output(), a.m * cfg.hidden, a.layer_scalar);
        }
    }

    /// Appends all passes of one layer.
    pub fn emit_layer(
        &mut self,
        kit: &Toolkit,
        cfg: &EmitCfg,
        a: &LayerEmit,
        lora: &Option<LayerLora<'_>>,
    )
        requires
            layer_ok(*kit, old(self)@.target, *cfg, *a, *lora),
        ensures
            final(self)@.target == old(self)@.target,
            final(self)@ == old(self)@.layer(*kit, *cfg, *a, *lora),
    {
        let fuse = a.m == 1 && kit.pl.fnc;
        if !fuse || a.li == 0 {
            self.rms(
                a.input(),
                Buf::Norm(Norm::Input(a.li)),
                a.wbuf(Work::T0),
                a.m,
                cfg.hidden,
                cfg.eps,
            );
        }
        self.emit_qkv(kit, cfg, a, lora);
        let fuse_attn = a.m == 1 && kit.pl.fac && a.hd % 4 == 0 && a.hd
            <= kit.lim.fused_attn_max_head_dim;
        if fuse_attn {
            self.emit_attn_rows_fused(cfg, a);
        } else {
            self.emit_attn_rows(cfg, a);
        }
        self.emit_attn(kit, cfg, a);
        self.emit_attn_out(kit, cfg, a, lora);
        self.emit_ff(kit, cfg, a, lora);
        self.emit_per_layer_input(kit, cfg, a);
    }
}

} // verus!
