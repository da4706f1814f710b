//! Assembly of the whole E4B graph: tables, layers, output head and the verify epilogue.
use vstd::prelude::*;
use crate::config::Gemma4Config;
use crate::e4b_check::{check_layer, check_prologue, product};
use crate::e4b_emit::{Builder, Limits, Lists, Pipelines, Proj, Target, Toolkit};
use crate::e4b_ir::{at, LoraKind, Norm, Site};
use crate::e4b_layer::{
    layer_ok, prologue_ok, EmitCfg, LayerEmit, LayerLora, Table, MAX_TABLE_CHUNKS,
};
use crate::e4b_laws::{
    kept, law_layer_kept, law_layer_twins, lemma_grown_prologue, lemma_kept_grown,
};
use crate::e4b_lora::{E4bLoraLayer, E4bLoraSite, LoraMeta, LoraSiteError};
use crate::e4b_weights::{
    chunked, law_chunks_partition, lin_fits, plan_chunks, proj_error, proj_of, upload_proj,
    ChunkError, E4bHostLayer, HostLin, LinFacts, ProjEnv, ProjError, Tally,
};

verus! {

/// Why a lookup table cannot be put on the device.
#[derive(Clone, Copy, Debug, PartialEq, Eq, Structural)]
pub enum TableError {
    Length,
    OddRow,
    Chunks(ChunkError),
}

impl Table {
    /// The chunks partition the rows: non-empty, even, and none past the end.
    pub open spec fn sound(self) -> bool {
        &&& 1 <= self.plan.n_chunks <= MAX_TABLE_CHUNKS
        &&& self.plan.rows_per_chunk <= self.rows
        &&& forall|c: int|
            0 <= c < self.plan.n_chunks ==> {
                &&& #[trigger] self.chunk_start(c) < self.rows
                &&& 0 < self.spec_chunk_rows(c) <= self.plan.rows_per_chunk
                &&& self.spec_chunk_rows(c) % 2 == 0
                &&& self.chunk_start(c) + self.spec_chunk_rows(c) == if c + 1 < self.plan.n_chunks {
                    self.chunk_start(c + 1)
                } else {
                    self.rows as int
                }
            }
    }
}

/// The table of `rows` rows of `row_elems` elements, if `len` elements make one up.
pub open spec fn table_of(embed: bool, len: int, rows: int, row_elems: int, limit: int) -> Result<
    Table,
    TableError,
> {
    if len != rows * row_elems {
        Err(TableError::Length)
    } else if row_elems % 2 != 0 {
        Err(TableError::OddRow)
    } else {
        match chunked(rows, row_elems / 2 * 4, limit) {
            Err(e) => Err(TableError::Chunks(e)),
            Ok(plan) => Ok(
                Table {
                    embed,
                    plan,
                    row_words: (row_elems / 2) as usize,
                    rows: rows as usize,
                },
            ),
        }
    }
}

/// Plans the chunks of a lookup table.
pub fn plan_table(embed: bool, len: usize, rows: usize, row_elems: usize, limit: u64) -> (r: Result<
    Table,
    TableError,
>)
    ensures
        r == table_of(embed, len as int, rows as int, row_elems as int, limit as int),
        r matches Ok(t) ==> t.sound(),
{
    match product(rows, row_elems) {
        Some(p) => {
            if p != len {
                return Err(TableError::Length);
            }
        },
        None => {
            return Err(TableError::Length);
        },
    }
    if row_elems % 2 != 0 {
        return Err(TableError::OddRow);
    }
    let row_words: usize = row_elems / 2;
    let row_bytes: usize = match product(row_words, 4) {
        Some(b) => b,
        None => {
            assert(rows < 2) by (nonlinear_arith)
                requires
                    rows * row_elems <= usize::MAX,
                    row_elems / 2 * 4 > usize::MAX,
            ;
            return Err(TableError::Chunks(ChunkError::OddRows));
        },
    };
    match plan_chunks(rows, row_bytes, limit) {
        Err(e) => Err(TableError::Chunks(e)),
        Ok(plan) => {
            let t = Table { embed, plan, row_words, rows };
            proof {
                law_chunks_partition(rows as int, row_bytes as int, limit as int, t);
            }
            Ok(t)
        },
    }
}

/// Why a graph cannot be built. `Limits` stands for a size that does not fit the address type
/// or a launch that does not fit the device.
#[derive(Clone, Copy, Debug, PartialEq, Eq, Structural)]
pub enum BuildError {
    NoPerLayerEmbeddings,
    LayerCount,
    UntiedHead,
    LoraLayerCount,
    ShapeRule,
    HeadDim,
    Embed(TableError),
    PerLayerEmbed(TableError),
    LmHeadI8Hidden,
    MatrixShape(Site),
    Matrix(Site, ProjError),
    InputNorm(usize),
    KvSource(usize),
    KNorm(usize),
    NoCache(usize),
    Lora(usize, LoraKind, LoraSiteError),
    Limits,
}

/// The bytes of one more matrix can be counted, and its sizes fit.
pub open spec fn placeable(env: ProjEnv, lim: Limits, l: HostLin, facts: LinFacts, t: Tally) -> bool {
    lin_fits(lim, env, l) && t.room(env, l, facts)
}

/// Places one matrix: its storage and the tally with it counted.
pub open spec fn placed(
    env: ProjEnv,
    lim: Limits,
    site: Site,
    l: HostLin,
    facts: LinFacts,
    t: Tally,
) -> Result<(Proj, Tally), BuildError> {
    if !placeable(env, lim, l, facts, t) {
        Err(BuildError::Limits)
    } else {
        match proj_error(env, l, facts) {
            Some(e) => Err(BuildError::Matrix(site, e)),
            None => Ok((proj_of(env, lim, site, l, facts), t.counted(env, l, facts))),
        }
    }
}

fn fits_u64(base: u64, a: u64, b: u64) -> (r: bool)
    ensures
        r == (base + a + b <= u64::MAX),
{
    match base.checked_add(a) {
        Some(s) => s.checked_add(b).is_some(),
        None => false,
    }
}

fn times(factor: u64, n: u64) -> (r: Option<u64>)
    ensures
        match r {
            Some(p) => p == factor * n,
            None => factor * n > u64::MAX,
        },
{
    factor.checked_mul(n)
}

fn can_place(env: &ProjEnv, lim: &Limits, l: &HostLin, facts: &LinFacts, t: &Tally) -> (r: bool)
    ensures
        r == placeable(*env, *lim, *l, *facts, *t),
{
    let elems: u64 = match product(l.n, l.k) {
        Some(p) => p as u64,
        None => {
            return false;
        },
    };
    if lim.sg_rows_per_group.checked_mul(env.w4_mr).is_none() {
        return false;
    }
    if t.block == usize::MAX || t.v4 == usize::MAX || t.sg16 == usize::MAX {
        return false;
    }
    match &l.q {
        Some(q) => {
            if q.gs == 0 {
                return false;
            }
            let sg_ok = env.sg16 && facts.grain_accepts && !(env.w4_route && facts.prefers_v4);
            let variant = if sg_ok { facts.route_with_sg } else { facts.route_without_sg };
            let words: usize = if variant == crate::e4b_ir::W4Variant::Sg16 {
                facts.sg_scale_words
            } else {
                q.scales.len()
            };
            match (times(4, q.packed.len() as u64), times(4, words as u64)) {
                (Some(a), Some(b)) => fits_u64(t.weight_bytes, a, b),
                _ => false,
            }
        },
        None => if env.w8 {
            match times(4, facts.i8_scales as u64) {
                Some(b) => fits_u64(t.weight_bytes, elems, b),
                None => false,
            }
        } else {
            match times(2, elems) {
                Some(a) => fits_u64(t.weight_bytes, a, 0),
                None => false,
            }
        },
    }
}

fn place(env: &ProjEnv, lim: &Limits, site: Site, l: &HostLin, facts: &LinFacts, t: Tally) -> (r:
    Result<(Proj, Tally), BuildError>)
    ensures
        r == placed(*env, *lim, site, *l, *facts, t),
{
    if !can_place(env, lim, l, facts, &t) {
        return Err(BuildError::Limits);
    }
    let mut t: Tally = t;
    match upload_proj(env, lim, site, l, facts, &mut t) {
        Ok(p) => Ok((p, t)),
        Err(e) => Err(BuildError::Matrix(site, e)),
    }
}

/// What a graph is started from. `host_layers` is the number of layers held in host memory,
/// or `None` when layers are streamed from a checkpoint; `lora_layers` that of an adapter.
/// `eps`, `embed_scale`, `pli_sa` and `pli_sb` hold the bits of `f32` values.
pub struct Start<'a> {
    pub config: &'a Gemma4Config,
    pub kit: &'a Toolkit,
    pub env: ProjEnv,
    pub max_seq: usize,
    pub prefill_m: usize,
    pub host_layers: Option<usize>,
    pub lora_layers: Option<usize>,
    pub embed_len: usize,
    pub ple_len: usize,
    pub plmp: &'a HostLin,
    pub plmp_facts: LinFacts,
    pub eps: u32,
    pub embed_scale: u32,
    pub pli_sa: u32,
    pub pli_sb: u32,
}

/// Whether the verify rows get a pass list of their own.
pub open spec fn wants_verify_list(pl: Pipelines) -> bool {
    pl.tensor_route || pl.tensor_attn || pl.mk_verify is Some
}

impl<'a> Start<'a> {
    pub open spec fn ple_row(&self) -> int {
        self.config.num_hidden_layers * self.config.hidden_size_per_layer_input
    }

    pub open spec fn cfg(&self) -> EmitCfg {
        EmitCfg {
            hidden: self.config.hidden_size,
            inter: self.config.intermediate_size,
            eps: self.eps,
            n_q: self.config.num_attention_heads,
            n_layers: self.config.num_hidden_layers,
            hpl: self.config.hidden_size_per_layer_input,
            ple_row: self.ple_row() as usize,
            max_seq: self.max_seq,
            embed_scale: self.embed_scale,
            pli_sa: self.pli_sa,
            pli_sb: self.pli_sb,
        }
    }

    pub open spec fn embed_table(&self) -> Result<Table, TableError> {
        table_of(
            true,
            self.embed_len as int,
            self.config.vocab_size as int,
            self.config.hidden_size as int,
            self.kit.lim.max_binding_bytes as int,
        )
    }

    pub open spec fn ple_table(&self) -> Result<Table, TableError> {
        table_of(
            false,
            self.ple_len as int,
            self.config.vocab_size_per_layer as int,
            self.ple_row(),
            self.kit.lim.max_binding_bytes as int,
        )
    }

    /// Bytes of the output head and of one per-layer embedding row.
    pub open spec fn head_bytes(&self) -> int {
        let elems = self.config.vocab_size * self.config.hidden_size;
        (if self.kit.pl.lmhead_i8 { elems + 4 * self.config.vocab_size } else { 2 * elems }) + 2
            * self.ple_row()
    }

    pub open spec fn head_tally(&self) -> Tally {
        Tally { weight_bytes: self.head_bytes() as u64, block: 0, v4: 0, sg16: 0 }
    }

    pub open spec fn plmp_placed(&self) -> Result<(Proj, Tally), BuildError> {
        placed(
            self.env,
            self.kit.lim,
            Site::PerLayerModel,
            *self.plmp,
            self.plmp_facts,
            self.head_tally(),
        )
    }

    /// The prologues can be emitted.
    pub open spec fn emits(&self, plmp: Proj) -> bool {
        &&& prologue_ok(*self.kit, Target::Decode, self.cfg(), 1, plmp)
        &&& self.prefill_m > 0 ==> {
            &&& prologue_ok(*self.kit, Target::Prefill, self.cfg(), self.prefill_m as int, plmp)
            &&& wants_verify_list(self.kit.pl) ==> prologue_ok(
                *self.kit,
                Target::Verify,
                self.cfg(),
                self.prefill_m as int,
                plmp,
            )
        }
    }

    /// The first reason why the graph cannot be started.
    pub open spec fn error(&self) -> Option<BuildError> {
        let c = *self.config;
        if c.hidden_size_per_layer_input == 0 {
            Some(BuildError::NoPerLayerEmbeddings)
        } else if self.host_layers matches Some(n) && n != c.num_hidden_layers {
            Some(BuildError::LayerCount)
        } else if self.host_layers is None && !c.tie_word_embeddings {
            Some(BuildError::UntiedHead)
        } else if self.lora_layers matches Some(n) && n != c.num_hidden_layers {
            Some(BuildError::LoraLayerCount)
        } else if !(c.hidden_size % 8 == 0 && c.intermediate_size % 2 == 0 && c.vocab_size % 8 == 0
            && c.hidden_size_per_layer_input % 8 == 0) {
            Some(BuildError::ShapeRule)
        } else if c.sliding.head_dim > self.kit.lim.flash_max_head_dim || c.full.head_dim
            > self.kit.lim.flash_max_head_dim {
            Some(BuildError::HeadDim)
        } else if self.ple_row() > usize::MAX {
            Some(BuildError::Limits)
        } else if self.embed_table() is Err {
            Some(BuildError::Embed(self.embed_table()->Err_0))
        } else if self.ple_table() is Err {
            Some(BuildError::PerLayerEmbed(self.ple_table()->Err_0))
        } else if self.kit.pl.lmhead_i8 && c.hidden_size % 16 != 0 {
            Some(BuildError::LmHeadI8Hidden)
        } else if self.plmp.n != self.ple_row() || self.plmp.k != c.hidden_size {
            Some(BuildError::MatrixShape(Site::PerLayerModel))
        } else if self.head_bytes() > u64::MAX {
            Some(BuildError::Limits)
        } else if self.plmp_placed() is Err {
            Some(self.plmp_placed()->Err_0)
        } else if !self.emits(self.plmp_placed()->Ok_0.0) {
            Some(BuildError::Limits)
        } else {
            None
        }
    }

    /// The pass lists with the prologues of every list.
    pub open spec fn lists(&self) -> Lists {
        let embed = self.embed_table()->Ok_0;
        let ple = self.ple_table()->Ok_0;
        let plmp = self.plmp_placed()->Ok_0.0;
        let m = self.prefill_m as int;
        let decode = Lists::empty().prologue(*self.kit, self.cfg(), false, 1, embed, ple, plmp);
        if self.prefill_m == 0 {
            decode
        } else {
            let prefill = decode.retarget(Target::Prefill).prologue(
                *self.kit,
                self.cfg(),
                true,
                m,
                embed,
                ple,
                plmp,
            );
            if wants_verify_list(self.kit.pl) {
                prefill.retarget(Target::Verify).prologue(
                    *self.kit,
                    self.cfg(),
                    true,
                    m,
                    embed,
                    ple,
                    plmp,
                ).retarget(Target::Decode)
            } else {
                prefill.retarget(Target::Decode)
            }
        }
    }
}

/// A graph under construction: the prologues are in place, and `done` layers.
pub struct GraphBuild<'a> {
    pub config: &'a Gemma4Config,
    pub kit: &'a Toolkit,
    pub env: ProjEnv,
    pub cfg: EmitCfg,
    pub prefill_m: usize,
    pub embed: Table,
    pub ple: Table,
    pub plmp: Proj,
    pub tally: Tally,
    pub b: Builder,
    pub done: usize,
}

fn verify_listed(pl: &Pipelines) -> (r: bool)
    ensures
        r == wants_verify_list(*pl),
{
    pl.tensor_route || pl.tensor_attn || pl.mk_verify.is_some()
}

impl<'a> GraphBuild<'a> {
    /// The lists hold the passes of `done` layers, and the bookkeeping of the deep arm and of
    /// the attention stages is in step with them.
    pub open spec fn wf(&self) -> bool {
        &&& self.config.wf()
        &&& self.embed.sound()
        &&& self.done <= self.config.num_hidden_layers
        &&& kept(self.b@, self.kit.pl.deep_splits is Some, self.done as int)
    }

    /// A layer as an input to this graph.
    pub open spec fn input<'b>(
        &self,
        hl: &'b E4bHostLayer,
        facts: LayerFacts,
        lora: Option<&'b E4bLoraLayer>,
        meta: &'b LoraMeta,
        prefill_meta: &'b LoraMeta,
    ) -> LayerIn<'b> where 'a: 'b {
        LayerIn {
            config: self.config,
            kit: self.kit,
            env: self.env,
            hl,
            facts,
            lora,
            meta,
            prefill_meta,
        }
    }

    fn start_cfg(s: &Start<'_>, ple_row: usize) -> (r: EmitCfg)
        requires
            ple_row == s.ple_row(),
        ensures
            r == s.cfg(),
    {
        EmitCfg {
            hidden: s.config.hidden_size,
            inter: s.config.intermediate_size,
            eps: s.eps,
            n_q: s.config.num_attention_heads,
            n_layers: s.config.num_hidden_layers,
            hpl: s.config.hidden_size_per_layer_input,
            ple_row,
            max_seq: s.max_seq,
            embed_scale: s.embed_scale,
            pli_sa: s.pli_sa,
            pli_sb: s.pli_sb,
        }
    }

    fn shape_error(s: &Start<'_>) -> (r: Option<BuildError>)
        ensures
            match r {
                Some(e) => s.error() == Some(e),
                None => {
                    let c = *s.config;
                    &&& c.hidden_size_per_layer_input > 0
                    &&& s.host_layers matches Some(n) ==> n == c.num_hidden_layers
                    &&& s.host_layers is None ==> c.tie_word_embeddings
                    &&& s.lora_layers matches Some(n) ==> n == c.num_hidden_layers
                    &&& c.hidden_size % 8 == 0 && c.intermediate_size % 2 == 0 && c.vocab_size % 8
                        == 0 && c.hidden_size_per_layer_input % 8 == 0
                    &&& c.sliding.head_dim <= s.kit.lim.flash_max_head_dim
                    &&& c.full.head_dim <= s.kit.lim.flash_max_head_dim
                },
            },
    {
        let c = s.config;
        if !c.has_per_layer_embeddings() {
            return Some(BuildError::NoPerLayerEmbeddings);
        }
        match s.host_layers {
            Some(n) => if n != c.num_hidden_layers {
                return Some(BuildError::LayerCount);
            },
            None => if !c.tie_word_embeddings {
                return Some(BuildError::UntiedHead);
            },
        }
        match s.lora_layers {
            Some(n) => if n != c.num_hidden_layers {
                return Some(BuildError::LoraLayerCount);
            },
            None => {},
        }
        if c.hidden_size % 8 != 0 || c.intermediate_size % 2 != 0 || c.vocab_size % 8 != 0
            || c.hidden_size_per_layer_input % 8 != 0 {
            return Some(BuildError::ShapeRule);
        }
        if c.sliding.head_dim > s.kit.lim.flash_max_head_dim || c.full.head_dim
            > s.kit.lim.flash_max_head_dim {
            return Some(BuildError::HeadDim);
        }
        None
    }

    fn head_weight(s: &Start<'_>, ple_row: usize) -> (r: Option<u64>)
        requires
            ple_row == s.ple_row(),
            s.config.vocab_size * s.config.hidden_size <= usize::MAX,
        ensures
            match r {
                Some(b) => b == s.head_bytes(),
                None => s.head_bytes() > u64::MAX,
            },
    {
        let elems: u64 = (s.config.vocab_size * s.config.hidden_size) as u64;
        let ple: u64 = match times(2, ple_row as u64) {
            Some(p) => p,
            None => {
                return None;
            },
        };
        let (a, b) = if s.kit.pl.lmhead_i8 {
            match times(4, s.config.vocab_size as u64) {
                Some(v) => (elems, v),
                None => {
                    return None;
                },
            }
        } else {
            (elems, elems)
        };
        match a.checked_add(b) {
            Some(t) => t.checked_add(ple),
            None => None,
        }
    }

    /// Starts a graph: tables, the per-layer model projection and the prologues.
    pub fn begin(s: &Start<'a>) -> (r: Result<GraphBuild<'a>, BuildError>)
        requires
            s.config.wf(),
        ensures
            match r {
                Err(e) => s.error() == Some(e),
                Ok(g) => {
                    &&& s.error() is None
                    &&& g.wf()
                    &&& g.config == s.config && g.kit == s.kit && g.env == s.env
                    &&& g.cfg == s.cfg()
                    &&& g.prefill_m == s.prefill_m
                    &&& Ok::<Table, TableError>(g.embed) == s.embed_table()
                    &&& Ok::<Table, TableError>(g.ple) == s.ple_table()
                    &&& Ok::<(Proj, Tally), BuildError>((g.plmp, g.tally)) == s.plmp_placed()
                    &&& g.b@ == s.lists()
                    &&& g.done == 0
                },
            },
    {
        match GraphBuild::shape_error(s) {
            Some(e) => {
                return Err(e);
            },
            None => {},
        }
        let c = s.config;
        let limit: u64 = s.kit.lim.max_binding_bytes;
        let ple_row: usize = match product(c.num_hidden_layers, c.hidden_size_per_layer_input) {
            Some(p) => p,
            None => {
                return Err(BuildError::Limits);
            },
        };
        let embed = match plan_table(true, s.embed_len, c.vocab_size, c.hidden_size, limit) {
            Ok(t) => t,
            Err(e) => {
                return Err(BuildError::Embed(e));
            },
        };
        let ple = match plan_table(false, s.ple_len, c.vocab_size_per_layer, ple_row, limit) {
            Ok(t) => t,
            Err(e) => {
                return Err(BuildError::PerLayerEmbed(e));
            },
        };
        if s.kit.pl.lmhead_i8 && c.hidden_size % 16 != 0 {
            return Err(BuildError::LmHeadI8Hidden);
        }
        if s.plmp.n != ple_row || s.plmp.k != c.hidden_size {
            return Err(BuildError::MatrixShape(Site::PerLayerModel));
        }
        let weight_bytes: u64 = match GraphBuild::head_weight(s, ple_row) {
            Some(b) => b,
            None => {
                return Err(BuildError::Limits);
            },
        };
        let tally = Tally { weight_bytes, block: 0, v4: 0, sg16: 0 };
        let (plmp, tally) = match place(
            &s.env,
            &s.kit.lim,
            Site::PerLayerModel,
            s.plmp,
            &s.plmp_facts,
            tally,
        ) {
            Ok(p) => p,
            Err(e) => {
                return Err(e);
            },
        };
        let cfg = GraphBuild::start_cfg(s, ple_row);
        let m: usize = s.prefill_m;
        let verify = verify_listed(&s.kit.pl);
        if !check_prologue(s.kit, Target::Decode, &cfg, 1, &plmp) {
            return Err(BuildError::Limits);
        }
        if m > 0 {
            if !check_prologue(s.kit, Target::Prefill, &cfg, m, &plmp) {
                return Err(BuildError::Limits);
            }
            if verify && !check_prologue(s.kit, Target::Verify, &cfg, m, &plmp) {
                return Err(BuildError::Limits);
            }
        }
        let mut b = Builder::new();
        proof {
            lemma_grown_prologue(b@, *s.kit, cfg, false, 1, embed, ple, plmp);
            lemma_kept_grown(
                b@,
                b@.prologue(*s.kit, cfg, false, 1, embed, ple, plmp),
                s.kit.pl.deep_splits is Some,
                0,
            );
        }
        b.emit_prologue(s.kit, &cfg, false, 1, &embed, &ple, &plmp);
        if m > 0 {
            b.retarget(Target::Prefill);
            proof {
                lemma_grown_prologue(b@, *s.kit, cfg, true, m as int, embed, ple, plmp);
            }
            b.emit_prologue(s.kit, &cfg, true, m, &embed, &ple, &plmp);
            if verify {
                b.retarget(Target::Verify);
                proof {
                    lemma_grown_prologue(b@, *s.kit, cfg, true, m as int, embed, ple, plmp);
                }
                b.emit_prologue(s.kit, &cfg, true, m, &embed, &ple, &plmp);
            }
            b.retarget(Target::Decode);
        }
        Ok(GraphBuild { config: s.config, kit: s.kit, env: s.env, cfg, prefill_m: m, embed, ple, plmp, tally, b, done: 0 })
    }
}

/// Every layer's input norm is as long as the hidden state; the first that is not is reported.
pub fn check_input_norms(hidden: usize, lens: &Vec<usize>) -> (r: Result<(), BuildError>)
    ensures
        match r {
            Ok(_) => forall|i: int| 0 <= i < lens@.len() ==> #[trigger] lens@[i] == hidden,
            Err(e) => exists|i: int|
                0 <= i < lens@.len() && e == BuildError::InputNorm(i as usize) && #[trigger] lens@[i]
                    != hidden && forall|j: int| 0 <= j < i ==> #[trigger] lens@[j] == hidden,
        },
{
    let mut i: usize = 0;
    while i < lens.len()
        invariant
            i <= lens.len(),
            forall|j: int| 0 <= j < i ==> #[trigger] lens@[j] == hidden,
        decreases lens.len() - i,
    {
        if lens[i] != hidden {
            assert(lens@[i as int] != hidden);
            return Err(BuildError::InputNorm(i));
        }
        i = i + 1;
    }
    Ok(())
}

/// What the kernels say of the six matrices of a layer.
#[derive(Clone, Copy, Debug, PartialEq, Eq, Structural)]
pub struct LayerFacts {
    pub qkv: LinFacts,
    pub o: LinFacts,
    pub gate_up: LinFacts,
    pub down: LinFacts,
    pub pl_gate: LinFacts,
    pub pl_proj: LinFacts,
}

/// The six placed matrices of a layer.
#[derive(Clone, Copy, Debug, PartialEq, Eq, Structural)]
pub struct LayerProjs {
    pub qkv: Proj,
    pub o: Proj,
    pub gate_up: Proj,
    pub down: Proj,
    pub pl_gate: Proj,
    pub pl_proj: Proj,
}

/// One layer to be added. The routing tables serve the adapter at one row and at the
/// prefill rows.
pub struct LayerIn<'a> {
    pub config: &'a Gemma4Config,
    pub kit: &'a Toolkit,
    pub env: ProjEnv,
    pub hl: &'a E4bHostLayer,
    pub facts: LayerFacts,
    pub lora: Option<&'a E4bLoraLayer>,
    pub meta: &'a LoraMeta,
    pub prefill_meta: &'a LoraMeta,
}

/// The first defect of a layer's adapter sites.
pub open spec fn lora_defect(lora: Option<&E4bLoraLayer>, li: usize, max_rank: usize) -> Option<
    BuildError,
> {
    match lora {
        None => None,
        Some(l) => if site_defect(l.qkv, max_rank) is Some {
            Some(BuildError::Lora(li, LoraKind::Qkv, site_defect(l.qkv, max_rank)->0))
        } else if site_defect(l.o, max_rank) is Some {
            Some(BuildError::Lora(li, LoraKind::O, site_defect(l.o, max_rank)->0))
        } else if site_defect(l.gate_up, max_rank) is Some {
            Some(BuildError::Lora(li, LoraKind::GateUp, site_defect(l.gate_up, max_rank)->0))
        } else if site_defect(l.down, max_rank) is Some {
            Some(BuildError::Lora(li, LoraKind::Down, site_defect(l.down, max_rank)->0))
        } else {
            None
        },
    }
}

pub open spec fn site_defect(site: Option<E4bLoraSite>, max_rank: usize) -> Option<LoraSiteError> {
    match site {
        None => None,
        Some(s) => s.defect(max_rank),
    }
}

/// The sizes that a check of the adapter's sites computes fit the address type.
pub open spec fn lora_sizes_fit(lora: Option<&E4bLoraLayer>, max_rank: usize) -> bool {
    lora matches Some(l) ==> {
        &&& l.qkv matches Some(s) ==> s.sizes_fit(max_rank)
        &&& l.o matches Some(s) ==> s.sizes_fit(max_rank)
        &&& l.gate_up matches Some(s) ==> s.sizes_fit(max_rank)
        &&& l.down matches Some(s) ==> s.sizes_fit(max_rank)
    }
}

impl<'a> LayerIn<'a> {
    pub open spec fn hd(&self) -> int {
        self.config.dims(self.hl.kind).head_dim as int
    }

    pub open spec fn nkv(&self) -> int {
        self.config.dims(self.hl.kind).num_kv_heads as int
    }

    pub open spec fn q_dim(&self) -> int {
        self.config.num_attention_heads * self.hd()
    }

    pub open spec fn kv_dim(&self) -> int {
        self.nkv() * self.hd()
    }

    /// Rows of the fused query, key and value matrix.
    pub open spec fn qkv_rows(&self) -> int {
        if self.hl.kv_source is Some {
            self.q_dim()
        } else {
            self.q_dim() + self.kv_dim() * (if self.hl.has_v { 2int } else { 1 })
        }
    }

    /// The first matrix whose shape is not what the configuration asks for.
    pub open spec fn shape_defect(&self, li: usize) -> Option<BuildError> {
        let h = self.config.hidden_size;
        let inter = self.config.intermediate_size;
        let hpl = self.config.hidden_size_per_layer_input;
        let hl = *self.hl;
        if hl.kv_source != self.config.kv_sources@[li as int] {
            Some(BuildError::KvSource(li))
        } else if hl.qkv.n != self.qkv_rows() || hl.qkv.k != h {
            Some(BuildError::MatrixShape(Site::Qkv(li)))
        } else if hl.o.k != self.q_dim() || hl.o.n != h {
            Some(BuildError::MatrixShape(Site::O(li)))
        } else if hl.gate_up.n != 2 * inter || hl.gate_up.k != h {
            Some(BuildError::MatrixShape(Site::GateUp(li)))
        } else if hl.down.n != h || hl.down.k != inter {
            Some(BuildError::MatrixShape(Site::Down(li)))
        } else if hl.per_layer_input_gate.n != hpl || hl.per_layer_input_gate.k != h {
            Some(BuildError::MatrixShape(Site::PerLayerGate(li)))
        } else if hl.per_layer_projection.n != h || hl.per_layer_projection.k != hpl {
            Some(BuildError::MatrixShape(Site::PerLayerProj(li)))
        } else {
            None
        }
    }

    /// The six matrices, placed one after the other.
    pub open spec fn all_placed(&self, li: usize, t: Tally) -> Result<
        (LayerProjs, Tally),
        BuildError,
    > {
        let e = self.env;
        let lim = self.kit.lim;
        let f = self.facts;
        match placed(e, lim, Site::Qkv(li), self.hl.qkv, f.qkv, t) {
            Err(x) => Err(x),
            Ok((qkv, t)) => match placed(e, lim, Site::O(li), self.hl.o, f.o, t) {
                Err(x) => Err(x),
                Ok((o, t)) => match placed(
                    e,
                    lim,
                    Site::GateUp(li),
                    self.hl.gate_up,
                    f.gate_up,
                    t,
                ) {
                    Err(x) => Err(x),
                    Ok((gate_up, t)) => match placed(
                        e,
                        lim,
                        Site::Down(li),
                        self.hl.down,
                        f.down,
                        t,
                    ) {
                        Err(x) => Err(x),
                        Ok((down, t)) => match placed(
                            e,
                            lim,
                            Site::PerLayerGate(li),
                            self.hl.per_layer_input_gate,
                            f.pl_gate,
                            t,
                        ) {
                            Err(x) => Err(x),
                            Ok((pl_gate, t)) => match placed(
                                e,
                                lim,
                                Site::PerLayerProj(li),
                                self.hl.per_layer_projection,
                                f.pl_proj,
                                t,
                            ) {
                                Err(x) => Err(x),
                                Ok((pl_proj, t)) => Ok(
                                    (LayerProjs { qkv, o, gate_up, down, pl_gate, pl_proj }, t),
                                ),
                            },
                        },
                    },
                },
            },
        }
    }

    /// The layer whose cache is read: its own, or the one it shares.
    pub open spec fn kv_layer(&self, li: usize) -> usize {
        match self.hl.kv_source {
            Some(s) => s,
            None => li,
        }
    }

    pub open spec fn emit(&self, li: usize, p: LayerProjs, prefill: bool, m: usize) -> LayerEmit {
        LayerEmit {
            prefill,
            m,
            li,
            shared: self.hl.kv_source,
            kind: self.hl.kind,
            has_v: self.hl.has_v,
            layer_scalar: self.hl.layer_scalar,
            hd: self.hd() as usize,
            nkv: self.nkv() as usize,
            q_dim: self.q_dim() as usize,
            kv_dim: self.kv_dim() as usize,
            qkv: p.qkv,
            o: p.o,
            gate_up: p.gate_up,
            down: p.down,
            pl_gate: p.pl_gate,
            pl_proj: p.pl_proj,
            ln_next: if li + 1 < self.config.num_hidden_layers {
                Norm::Input((li + 1) as usize)
            } else {
                Norm::Final
            },
            kv: self.kv_layer(li),
        }
    }

    pub open spec fn adapter(&self, prefill: bool) -> Option<LayerLora<'a>> {
        match self.lora {
            None => None,
            Some(sites) => Some(
                LayerLora { sites, meta: if prefill { self.prefill_meta } else { self.meta } },
            ),
        }
    }

    /// The layer can be emitted into every list.
    pub open spec fn emits(&self, cfg: EmitCfg, li: usize, p: LayerProjs, m: usize) -> bool {
        &&& layer_ok(
            *self.kit,
            Target::Decode,
            cfg,
            self.emit(li, p, false, 1),
            self.adapter(false),
        )
        &&& m > 0 ==> {
            &&& layer_ok(
                *self.kit,
                Target::Prefill,
                cfg,
                self.emit(li, p, true, m),
                self.adapter(true),
            )
            &&& wants_verify_list(self.kit.pl) ==> layer_ok(
                *self.kit,
                Target::Verify,
                cfg,
                self.emit(li, p, true, m),
                self.adapter(true),
            )
        }
    }

    /// The first reason why the layer cannot be added.
    pub open spec fn error(&self, cfg: EmitCfg, li: usize, t: Tally, m: usize) -> Option<BuildError> {
        let kv = self.kv_layer(li);
        if self.q_dim() > usize::MAX || self.kv_dim() > usize::MAX || self.qkv_rows() > usize::MAX {
            Some(BuildError::Limits)
        } else if self.shape_defect(li) is Some {
            self.shape_defect(li)
        } else if self.all_placed(li, t) is Err {
            Some(self.all_placed(li, t)->Err_0)
        } else if self.hl.kv_source is None && self.hl.k_norm@.len() != self.hd() {
            Some(BuildError::KNorm(li))
        } else if kv >= self.config.num_hidden_layers {
            Some(BuildError::Limits)
        } else if self.config.kv_sources@[kv as int] is Some {
            Some(BuildError::NoCache(li))
        } else if !lora_sizes_fit(self.lora, self.kit.lim.lora_max_rank) {
            Some(BuildError::Limits)
        } else if lora_defect(self.lora, li, self.kit.lim.lora_max_rank) is Some {
            lora_defect(self.lora, li, self.kit.lim.lora_max_rank)
        } else if !self.emits(cfg, li, self.all_placed(li, t)->Ok_0.0, m) {
            Some(BuildError::Limits)
        } else {
            None
        }
    }

    /// The lists with the layer's passes appended to each.
    pub open spec fn lists(&self, s: Lists, cfg: EmitCfg, li: usize, p: LayerProjs, m: usize) -> Lists {
        let decode = s.layer(*self.kit, cfg, self.emit(li, p, false, 1), self.adapter(false));
        if m == 0 {
            decode
        } else {
            let prefill = decode.retarget(Target::Prefill).layer(
                *self.kit,
                cfg,
                self.emit(li, p, true, m),
                self.adapter(true),
            );
            if wants_verify_list(self.kit.pl) {
                prefill.retarget(Target::Verify).layer(
                    *self.kit,
                    cfg,
                    self.emit(li, p, true, m),
                    self.adapter(true),
                ).retarget(Target::Decode)
            } else {
                prefill.retarget(Target::Decode)
            }
        }
    }
}

fn check_lora_site(site: &Option<E4bLoraSite>, max_rank: usize) -> (r: Result<(), LoraSiteError>)
    requires
        site matches Some(s) ==> s.sizes_fit(max_rank),
    ensures
        match r {
            Ok(_) => site_defect(*site, max_rank) is None,
            Err(e) => site_defect(*site, max_rank) == Some(e),
        },
{
    match site {
        None => Ok(()),
        Some(s) => s.validate(max_rank),
    }
}

fn check_lora_sites(lora: Option<&E4bLoraLayer>, li: usize, max_rank: usize) -> (r: Result<
    (),
    BuildError,
>)
    requires
        lora_sizes_fit(lora, max_rank),
    ensures
        match r {
            Ok(_) => lora_defect(lora, li, max_rank) is None,
            Err(e) => lora_defect(lora, li, max_rank) == Some(e),
        },
{
    match lora {
        None => Ok(()),
        Some(l) => {
            match check_lora_site(&l.qkv, max_rank) {
                Err(e) => {
                    return Err(BuildError::Lora(li, LoraKind::Qkv, e));
                },
                Ok(_) => {},
            }
            match check_lora_site(&l.o, max_rank) {
                Err(e) => {
                    return Err(BuildError::Lora(li, LoraKind::O, e));
                },
                Ok(_) => {},
            }
            match check_lora_site(&l.gate_up, max_rank) {
                Err(e) => {
                    return Err(BuildError::Lora(li, LoraKind::GateUp, e));
                },
                Ok(_) => {},
            }
            match check_lora_site(&l.down, max_rank) {
                Err(e) => {
                    return Err(BuildError::Lora(li, LoraKind::Down, e));
                },
                Ok(_) => {},
            }
            Ok(())
        },
    }
}

pub fn site_sizes(site: &Option<E4bLoraSite>, max_rank: usize) -> (r: bool)
    ensures
        r == (*site matches Some(s) ==> s.sizes_fit(max_rank)),
{
    match site {
        None => true,
        Some(s) => {
            let width = match crate::e4b_check::checked_total(&s.widths) {
                Some(w) => w,
                None => {
                    return false;
                },
            };
            if crate::e4b_check::checked_total(&s.segs).is_none() {
                return false;
            }
            if s.rank > max_rank {
                return true;
            }
            match product(s.widths.len(), s.rank) {
                Some(p) => product(p, s.k).is_some() && product(width, s.rank).is_some(),
                None => false,
            }
        },
    }
}

fn lora_sizes(lora: Option<&E4bLoraLayer>, max_rank: usize) -> (r: bool)
    ensures
        r == lora_sizes_fit(lora, max_rank),
{
    match lora {
        None => true,
        Some(l) => site_sizes(&l.qkv, max_rank) && site_sizes(&l.o, max_rank) && site_sizes(
            &l.gate_up,
            max_rank,
        ) && site_sizes(&l.down, max_rank),
    }
}

fn same_source(a: Option<usize>, b: Option<usize>) -> (r: bool)
    ensures
        r == (a == b),
{
    match (a, b) {
        (Some(x), Some(y)) => x == y,
        (None, None) => true,
        _ => false,
    }
}

impl<'a> GraphBuild<'a> {
    fn layer_shapes(l: &LayerIn<'_>, li: usize, q_dim: usize, qkv_rows: usize) -> (r: Option<
        BuildError,
    >)
        requires
            l.config.wf(),
            li < l.config.num_hidden_layers,
            q_dim == l.q_dim(),
            qkv_rows == l.qkv_rows(),
        ensures
            r == l.shape_defect(li),
    {
        let h: usize = l.config.hidden_size;
        let inter: usize = l.config.intermediate_size;
        let hpl: usize = l.config.hidden_size_per_layer_input;
        let hl = l.hl;
        if !same_source(hl.kv_source, l.config.kv_sources[li]) {
            return Some(BuildError::KvSource(li));
        }
        if hl.qkv.n != qkv_rows || hl.qkv.k != h {
            return Some(BuildError::MatrixShape(Site::Qkv(li)));
        }
        if hl.o.k != q_dim || hl.o.n != h {
            return Some(BuildError::MatrixShape(Site::O(li)));
        }
        match product(2, inter) {
            Some(two) => if hl.gate_up.n != two || hl.gate_up.k != h {
                return Some(BuildError::MatrixShape(Site::GateUp(li)));
            },
            None => {
                return Some(BuildError::MatrixShape(Site::GateUp(li)));
            },
        }
        if hl.down.n != h || hl.down.k != inter {
            return Some(BuildError::MatrixShape(Site::Down(li)));
        }
        if hl.per_layer_input_gate.n != hpl || hl.per_layer_input_gate.k != h {
            return Some(BuildError::MatrixShape(Site::PerLayerGate(li)));
        }
        if hl.per_layer_projection.n != h || hl.per_layer_projection.k != hpl {
            return Some(BuildError::MatrixShape(Site::PerLayerProj(li)));
        }
        None
    }

    fn place_layer(l: &LayerIn<'_>, li: usize, t: Tally) -> (r: Result<
        (LayerProjs, Tally),
        BuildError,
    >)
        ensures
            r == l.all_placed(li, t),
    {
        let e = &l.env;
        let lim = &l.kit.lim;
        let f = &l.facts;
        let (qkv, t) = match place(e, lim, Site::Qkv(li), &l.hl.qkv, &f.qkv, t) {
            Ok(p) => p,
            Err(x) => {
                return Err(x);
            },
        };
        let (o, t) = match place(e, lim, Site::O(li), &l.hl.o, &f.o, t) {
            Ok(p) => p,
            Err(x) => {
                return Err(x);
            },
        };
        let (gate_up, t) = match place(e, lim, Site::GateUp(li), &l.hl.gate_up, &f.gate_up, t) {
            Ok(p) => p,
            Err(x) => {
                return Err(x);
            },
        };
        let (down, t) = match place(e, lim, Site::Down(li), &l.hl.down, &f.down, t) {
            Ok(p) => p,
            Err(x) => {
                return Err(x);
            },
        };
        let (pl_gate, t) = match place(
            e,
            lim,
            Site::PerLayerGate(li),
            &l.hl.per_layer_input_gate,
            &f.pl_gate,
            t,
        ) {
            Ok(p) => p,
            Err(x) => {
                return Err(x);
            },
        };
        let (pl_proj, t) = match place(
            e,
            lim,
            Site::PerLayerProj(li),
            &l.hl.per_layer_projection,
            &f.pl_proj,
            t,
        ) {
            Ok(p) => p,
            Err(x) => {
                return Err(x);
            },
        };
        Ok((LayerProjs { qkv, o, gate_up, down, pl_gate, pl_proj }, t))
    }

    fn layer_emit(
        l: &LayerIn<'_>,
        li: usize,
        p: &LayerProjs,
        prefill: bool,
        m: usize,
        q_dim: usize,
        kv_dim: usize,
    ) -> (r: LayerEmit)
        requires
            li < l.config.num_hidden_layers,
            q_dim == l.q_dim(),
            kv_dim == l.kv_dim(),
        ensures
            r == l.emit(li, *p, prefill, m),
    {
        LayerEmit {
            prefill,
            m,
            li,
            shared: l.hl.kv_source,
            kind: l.hl.kind,
            has_v: l.hl.has_v,
            layer_scalar: l.hl.layer_scalar,
            hd: l.config.head_dim_for(l.hl.kind),
            nkv: l.config.num_kv_heads_for(l.hl.kind),
            q_dim,
            kv_dim,
            qkv: p.qkv,
            o: p.o,
            gate_up: p.gate_up,
            down: p.down,
            pl_gate: p.pl_gate,
            pl_proj: p.pl_proj,
            ln_next: if li + 1 < l.config.num_hidden_layers {
                Norm::Input(li + 1)
            } else {
                Norm::Final
            },
            kv: match l.hl.kv_source {
                Some(s) => s,
                None => li,
            },
        }
    }

    /// Adds the next layer, or says why it cannot be added and leaves the graph as it was.
    pub fn add_layer<'b>(
        &mut self,
        hl: &'b E4bHostLayer,
        facts: LayerFacts,
        lora: Option<&'b E4bLoraLayer>,
        meta: &'b LoraMeta,
        prefill_meta: &'b LoraMeta,
    ) -> (r: Result<(), BuildError>) where 'a: 'b
        requires
            old(self).wf(),
            old(self).done < old(self).config.num_hidden_layers,
        ensures
            final(self).wf(),
            final(self).config == old(self).config,
            final(self).kit == old(self).kit,
            final(self).env == old(self).env,
            final(self).cfg == old(self).cfg,
            final(self).prefill_m == old(self).prefill_m,
            final(self).embed == old(self).embed,
            final(self).ple == old(self).ple,
            final(self).plmp == old(self).plmp,
            match r {
                Err(e) => {
                    let l = old(self).input(hl, facts, lora, meta, prefill_meta);
                    &&& l.error(old(self).cfg, old(self).done, old(self).tally, old(self).prefill_m)
                        == Some(e)
                    &&& final(self).b@ == old(self).b@
                    &&& final(self).done == old(self).done
                    &&& final(self).tally == old(self).tally
                },
                Ok(_) => {
                    let l = old(self).input(hl, facts, lora, meta, prefill_meta);
                    let li = old(self).done;
                    let m = old(self).prefill_m;
                    let p = l.all_placed(li, old(self).tally)->Ok_0;
                    &&& l.error(old(self).cfg, li, old(self).tally, m) is None
                    &&& final(self).tally == p.1
                    &&& final(self).done == li + 1
                    &&& final(self).b@ == l.lists(old(self).b@, old(self).cfg, li, p.0, m)
                },
            },
    {
        let l = LayerIn {
            config: self.config,
            kit: self.kit,
            env: self.env,
            hl,
            facts,
            lora,
            meta,
            prefill_meta,
        };
        let l = &l;
        let li: usize = self.done;
        let m: usize = self.prefill_m;
        let hd: usize = l.config.head_dim_for(l.hl.kind);
        let nkv: usize = l.config.num_kv_heads_for(l.hl.kind);
        let (q_dim, kv_dim) = match (product(l.config.num_attention_heads, hd), product(nkv, hd)) {
            (Some(q), Some(kv)) => (q, kv),
            _ => {
                return Err(BuildError::Limits);
            },
        };
        let qkv_rows: usize = if l.hl.kv_source.is_some() {
            q_dim
        } else {
            let kv_rows: usize = if l.hl.has_v {
                match product(kv_dim, 2) {
                    Some(k) => k,
                    None => {
                        return Err(BuildError::Limits);
                    },
                }
            } else {
                kv_dim
            };
            match q_dim.checked_add(kv_rows) {
                Some(t) => t,
                None => {
                    return Err(BuildError::Limits);
                },
            }
        };
        match GraphBuild::layer_shapes(l, li, q_dim, qkv_rows) {
            Some(e) => {
                return Err(e);
            },
            None => {},
        }
        let (p, tally) = match GraphBuild::place_layer(l, li, self.tally) {
            Ok(p) => p,
            Err(e) => {
                return Err(e);
            },
        };
        if l.hl.kv_source.is_none() && l.hl.k_norm.len() != hd {
            return Err(BuildError::KNorm(li));
        }
        let kv: usize = match l.hl.kv_source {
            Some(s) => s,
            None => li,
        };
        if kv >= l.config.num_hidden_layers {
            return Err(BuildError::Limits);
        }
        if l.config.kv_sources[kv].is_some() {
            return Err(BuildError::NoCache(li));
        }
        let max_rank: usize = l.kit.lim.lora_max_rank;
        if !lora_sizes(l.lora, max_rank) {
            return Err(BuildError::Limits);
        }
        match check_lora_sites(l.lora, li, max_rank) {
            Err(e) => {
                return Err(e);
            },
            Ok(_) => {},
        }
        let decode = GraphBuild::layer_emit(l, li, &p, false, 1, q_dim, kv_dim);
        let rows = GraphBuild::layer_emit(l, li, &p, true, m, q_dim, kv_dim);
        let lora_row = match l.lora {
            Some(sites) => Some(LayerLora { sites, meta: l.meta }),
            None => None,
        };
        let lora_rows = match l.lora {
            Some(sites) => Some(LayerLora { sites, meta: l.prefill_meta }),
            None => None,
        };
        let verify = verify_listed(&l.kit.pl);
        if !check_layer(l.kit, Target::Decode, &self.cfg, &decode, &lora_row) {
            return Err(BuildError::Limits);
        }
        if m > 0 {
            if !check_layer(l.kit, Target::Prefill, &self.cfg, &rows, &lora_rows) {
                return Err(BuildError::Limits);
            }
            if verify && !check_layer(l.kit, Target::Verify, &self.cfg, &rows, &lora_rows) {
                return Err(BuildError::Limits);
            }
        }
        proof {
            law_layer_kept(self.b@, *l.kit, self.cfg, decode, lora_row, li as int);
        }
        self.b.emit_layer(l.kit, &self.cfg, &decode, &lora_row);
        if m > 0 {
            self.b.retarget(Target::Prefill);
            proof {
                law_layer_twins(self.b@, *l.kit, self.cfg, rows, lora_rows);
            }
            self.b.emit_layer(l.kit, &self.cfg, &rows, &lora_rows);
            if verify {
                self.b.retarget(Target::Verify);
                proof {
                    law_layer_twins(self.b@, *l.kit, self.cfg, rows, lora_rows);
                }
                self.b.emit_layer(l.kit, &self.cfg, &rows, &lora_rows);
            }
            self.b.retarget(Target::Decode);
        }
        self.tally = tally;
        self.done = li + 1;
        Ok(())
    }
}

} // verus!
