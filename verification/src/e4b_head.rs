//! The output head of the E4B graph, the verify epilogue, and the finished graph.
use vstd::prelude::*;
use crate::e4b_build::GraphBuild;
use crate::e4b_check::product;
use crate::e4b_emit::{grid_1d, one_d, twin_models, Builder, DeepTwin, Lists, Target, Toolkit};
use crate::e4b_ir::{
    at, buf, param, pass_models, uni, Buf, Grid, GroupsX, Norm, Pass, PassModel, Pipe, Uniform,
    Work,
};
use crate::e4b_layer::{EmitCfg, Table};
use crate::e4b_laws::{flash1_passes, lemma_grown_head, lemma_kept_grown, twins_distinct};
use crate::e4b_weights::Tally;

verus! {

/// The soft cap of the logits: `f32` values as their bits; the inverse is zero when it is off.
#[derive(Clone, Copy, Debug, PartialEq, Eq, Structural)]
pub struct Softcap {
    pub on: bool,
    pub cap: u32,
    pub inv_cap: u32,
}

impl Softcap {
    pub open spec fn inverse(self) -> u32 {
        if self.on {
            self.inv_cap
        } else {
            0
        }
    }

    fn inv(&self) -> (r: u32)
        ensures
            r == self.inverse(),
    {
        if self.on {
            self.inv_cap
        } else {
            0
        }
    }
}

/// The residual stream after the last of `n_layers` layers.
pub open spec fn final_hid(n_layers: int) -> Work {
    if n_layers % 2 == 0 {
        Work::HidA
    } else {
        Work::HidB
    }
}

/// The rows that a verify batch can have.
pub open spec fn verify_rows(kit: Toolkit, prefill_m: int) -> int {
    let built = match kit.pl.mk_verify {
        Some(v) => v.rows as int,
        None => prefill_m,
    };
    let rows = if built <= prefill_m { built } else { prefill_m };
    if rows <= kit.lim.small_m_max {
        rows
    } else {
        kit.lim.small_m_max as int
    }
}

/// The rows that a verify batch can have.
pub fn verify_row_count(kit: &Toolkit, prefill_m: usize) -> (r: usize)
    ensures
        r == verify_rows(*kit, prefill_m as int),
{
    let built: usize = match kit.pl.mk_verify {
        Some(v) => v.rows,
        None => prefill_m,
    };
    let rows: usize = if built <= prefill_m { built } else { prefill_m };
    if rows <= kit.lim.small_m_max {
        rows
    } else {
        kit.lim.small_m_max
    }
}

/// Whether the graph gets a verify epilogue: it rides the prefill rows and the plain head.
pub open spec fn has_verify(kit: Toolkit, cfg: EmitCfg, prefill_m: int) -> bool {
    prefill_m > 0 && !kit.pl.lmhead_i8 && !kit.pl.lmhead_sg && cfg.hidden % 8 == 0
}

impl Lists {
    /// The head's product over one chunk of the embedding table.
    pub open spec fn lm_chunk(self, kit: Toolkit, cfg: EmitCfg, tab: Table, c: int) -> Lists {
        let rows = tab.spec_chunk_rows(c);
        let t0 = Buf::Work(false, Work::T0);
        let chunk = Buf::EmbedChunk(c as usize);
        let off = (tab.chunk_start(c) / 2) as u32;
        if kit.pl.lmhead_i8 {
            let groups = GroupsX { invocations: rows as u64, wg: kit.lim.gemv_rows_per_group };
            self.pushed(
                Pipe::LmHeadI8,
                seq![
                    at(0, Buf::LmI8Weight(c as usize), 0),
                    at(1, Buf::LmI8Scales(c as usize), 0),
                    at(2, t0, 0),
                    at(3, Buf::LogitsPk, 0),
                    param(
                        4,
                        Uniform::LmI8 {
                            n_rows: rows as u32,
                            k_elems: cfg.hidden as u32,
                            groups,
                            dst_word_off: off,
                        },
                    ),
                ],
                Grid::OneD(groups),
            )
        } else {
            let groups = GroupsX {
                invocations: rows as u64,
                wg: if kit.pl.lmhead_sg {
                    kit.lim.lm_sg_rows_per_group
                } else {
                    kit.lim.gemv_rows_per_group
                },
            };
            self.pushed(
                if kit.pl.lmhead_sg { Pipe::LmHeadSg } else { Pipe::GemvPk },
                seq![
                    at(0, chunk, 0),
                    at(1, t0, 0),
                    at(2, Buf::LogitsPk, 0),
                    param(
                        3,
                        Uniform::GemvBf16 {
                            n_rows: rows as u32,
                            k_elems: cfg.hidden as u32,
                            w_row_words: (cfg.hidden / 2) as u32,
                            groups,
                        },
                    ),
                    param(30, Uniform::PkOff { dst_word_off: off }),
                ],
                Grid::OneD(groups),
            )
        }
    }

    /// The head's product over the first `n` chunks.
    pub open spec fn lm_chunks(self, kit: Toolkit, cfg: EmitCfg, tab: Table, n: int) -> Lists
        decreases n,
    {
        if n <= 0 {
            self
        } else {
            self.lm_chunks(kit, cfg, tab, n - 1).lm_chunk(kit, cfg, tab, n - 1)
        }
    }

    /// Logits to the chosen token.
    pub open spec fn choose_token(self, kit: Toolkit, vocab: usize, cap: Softcap, fused: bool) -> Lists {
        let am_p = Uniform::ArgmaxRows { rows: 1, n: vocab as u32 };
        let blocks = kit.lim.argmax_blocks as u32;
        let staged = if fused {
            self.pushed(
                Pipe::ArgmaxCapStage1,
                seq![
                    at(65, Buf::LogitsPk, 0),
                    at(66, Buf::LogitsF32, 0),
                    at(55, Buf::AmVal, 0),
                    at(56, Buf::AmIdx, 0),
                    param(67, Uniform::ArgmaxCap { n: vocab as u32, cap: cap.cap }),
                ],
                Grid::Dims(blocks, 1, 1),
            )
        } else {
            self.pushed(
                if cap.on { Pipe::Softcap } else { Pipe::CastF32 },
                seq![
                    at(0, Buf::LogitsPk, 0),
                    param(
                        3,
                        Uniform::Scale {
                            n: vocab as u32,
                            n_words: (vocab / 2) as u32,
                            scale: 0,
                            cap: cap.cap,
                            inv_cap: cap.inverse(),
                        },
                    ),
                    at(4, Buf::LogitsF32, 0),
                ],
                one_d(vocab as int / 2, 256),
            ).pushed(
                Pipe::ArgmaxStage1,
                seq![
                    at(54, Buf::LogitsF32, 0),
                    at(55, Buf::AmVal, 0),
                    at(56, Buf::AmIdx, 0),
                    param(58, am_p),
                ],
                Grid::Dims(blocks, 1, 1),
            )
        };
        staged.pushed(
            Pipe::ArgmaxStage2,
            seq![
                at(55, Buf::AmVal, 0),
                at(56, Buf::AmIdx, 0),
                at(57, Buf::TokenOut, 0),
                param(58, am_p),
            ],
            Grid::Dims(1, 1, 1),
        )
    }

    /// The whole head: the final norm where the layers did not fuse it, logits, token.
    pub open spec fn head(self, kit: Toolkit, cfg: EmitCfg, tab: Table, cap: Softcap, fused: bool) -> Lists {
        let normed = if kit.pl.fnc {
            self
        } else {
            self.rms(
                Buf::Work(false, final_hid(cfg.n_layers as int)),
                Buf::Norm(Norm::Final),
                Buf::Work(false, Work::T0),
                1,
                cfg.hidden,
                cfg.eps,
            )
        };
        normed.lm_chunks(kit, cfg, tab, tab.plan.n_chunks as int).choose_token(
            kit,
            tab.rows,
            cap,
            fused,
        )
    }

    /// Logits of the verify rows over one chunk.
    pub open spec fn verify_chunk(
        self,
        kit: Toolkit,
        cfg: EmitCfg,
        tab: Table,
        cap: Softcap,
        vrows: int,
        c: int,
    ) -> Lists {
        let rows = tab.spec_chunk_rows(c);
        let groups = GroupsX { invocations: rows as u64, wg: kit.lim.small_m_rows_per_group };
        self.pushed(
            Pipe::VerifySmk,
            seq![
                at(0, Buf::EmbedChunk(c as usize), 0),
                at(1, Buf::Work(true, Work::T0), 0),
                at(2, Buf::VerifyY(c as usize), 0),
                param(
                    3,
                    Uniform::Smk {
                        n_rows: rows as u32,
                        k_elems: cfg.hidden as u32,
                        row_words: (cfg.hidden / 2) as u32,
                        groups,
                        m_live: vrows as u32,
                    },
                ),
            ],
            Grid::OneD(groups),
        ).pushed(
            Pipe::VerifyCap,
            seq![
                at(0, Buf::VerifyY(c as usize), 0),
                at(1, Buf::VerifyLogits, 0),
                param(
                    2,
                    Uniform::VerifyCap {
                        n_rows: rows as u32,
                        row_off: tab.chunk_start(c) as u32,
                        vocab: tab.rows as u32,
                        m: vrows as u32,
                        cap: cap.cap,
                        inv_cap: cap.inverse(),
                        softcap: if cap.on { 1 } else { 0 },
                    },
                ),
            ],
            one_d(vrows * rows, 256),
        )
    }

    pub open spec fn verify_chunks(
        self,
        kit: Toolkit,
        cfg: EmitCfg,
        tab: Table,
        cap: Softcap,
        vrows: int,
        n: int,
    ) -> Lists
        decreases n,
    {
        if n <= 0 {
            self
        } else {
            self.verify_chunks(kit, cfg, tab, cap, vrows, n - 1).verify_chunk(
                kit,
                cfg,
                tab,
                cap,
                vrows,
                n - 1,
            )
        }
    }

    /// The epilogue that turns the prefill rows into one token each.
    pub open spec fn verify_head(
        self,
        kit: Toolkit,
        cfg: EmitCfg,
        tab: Table,
        cap: Softcap,
        prefill_m: int,
    ) -> Lists {
        let vrows = verify_rows(kit, prefill_m);
        let am_p = Uniform::ArgmaxRows { rows: vrows as u32, n: tab.rows as u32 };
        self.rms(
            Buf::Work(true, final_hid(cfg.n_layers as int)),
            Buf::Norm(Norm::Final),
            Buf::Work(true, Work::T0),
            prefill_m,
            cfg.hidden,
            cfg.eps,
        ).verify_chunks(kit, cfg, tab, cap, vrows, tab.plan.n_chunks as int).pushed(
            Pipe::ArgmaxStage1,
            seq![
                at(54, Buf::VerifyLogits, 0),
                at(55, Buf::VerifyAmVal, 0),
                at(56, Buf::VerifyAmIdx, 0),
                param(58, am_p),
            ],
            Grid::Dims(kit.lim.argmax_blocks as u32, vrows as u32, 1),
        ).pushed(
            Pipe::ArgmaxStage2,
            seq![
                at(55, Buf::VerifyAmVal, 0),
                at(56, Buf::VerifyAmIdx, 0),
                at(57, Buf::TokenOut, 0),
                param(58, am_p),
            ],
            Grid::Dims(vrows as u32, 1, 1),
        )
    }
}

proof fn lemma_chunk_next(tab: Table, c: int)
    requires
        tab.sound(),
        0 <= c < tab.plan.n_chunks,
    ensures
        0 <= tab.chunk_start(c) <= tab.rows,
        tab.chunk_start(c + 1) <= tab.rows + tab.plan.rows_per_chunk,
        tab.chunk_start(c + 1) == tab.chunk_start(c) + tab.plan.rows_per_chunk,
{
    assert(tab.chunk_start(c) < tab.rows);
    assert((c + 1) * tab.plan.rows_per_chunk == c * tab.plan.rows_per_chunk
        + tab.plan.rows_per_chunk) by (nonlinear_arith);
    assert(c * tab.plan.rows_per_chunk >= 0) by (nonlinear_arith)
        requires
            c >= 0,
    ;
}

impl Table {
    /// The rows of chunk `c` of a sound table.
    pub fn rows_of(&self, c: usize) -> (r: usize)
        requires
            self.sound(),
            c < self.plan.n_chunks,
        ensures
            r == self.spec_chunk_rows(c as int),
            self.chunk_start(c as int) + r <= self.rows,
    {
        proof {
            lemma_chunk_next(*self, c as int);
            assert(self.chunk_start(c as int) < self.rows);
            if c + 1 < self.plan.n_chunks {
                assert(self.chunk_start(c + 1) < self.rows);
            }
        }
        let lo: usize = c * self.plan.rows_per_chunk;
        if self.rows - lo >= self.plan.rows_per_chunk {
            self.plan.rows_per_chunk
        } else {
            self.rows - lo
        }
    }
}

impl Builder {
    fn emit_lm_chunk(&mut self, kit: &Toolkit, cfg: &EmitCfg, tab: &Table, c: usize, row_off: usize)
        requires
            tab.sound(),
            c < tab.plan.n_chunks,
            row_off == tab.chunk_start(c as int),
        ensures
            final(self)@ == old(self)@.lm_chunk(*kit, *cfg, *tab, c as int),
    {
        let rows: usize = tab.rows_of(c);
        let t0 = Buf::Work(false, Work::T0);
        let off: u32 = (row_off / 2) as u32;
        if kit.pl.lmhead_i8 {
            let groups = GroupsX { invocations: rows as u64, wg: kit.lim.gemv_rows_per_group };
            let p = Uniform::LmI8 {
                n_rows: rows as u32,
                k_elems: cfg.hidden as u32,
                groups,
                dst_word_off: off,
            };
            self.push(
                Pipe::LmHeadI8,
                vec![
                    buf(0, Buf::LmI8Weight(c)),
                    buf(1, Buf::LmI8Scales(c)),
                    buf(2, t0),
                    buf(3, Buf::LogitsPk),
                    uni(4, p),
                ],
                Grid::OneD(groups),
            );
            return ;
        }
        let wg: u32 = if kit.pl.lmhead_sg {
            kit.lim.lm_sg_rows_per_group
        } else {
            kit.lim.gemv_rows_per_group
        };
        let groups = GroupsX { invocations: rows as u64, wg };
        let p = Uniform::GemvBf16 {
            n_rows: rows as u32,
            k_elems: cfg.hidden as u32,
            w_row_words: (cfg.hidden / 2) as u32,
            groups,
        };
        let pipe = if kit.pl.lmhead_sg { Pipe::LmHeadSg } else { Pipe::GemvPk };
        self.push(
            pipe,
            vec![
                buf(0, Buf::EmbedChunk(c)),
                buf(1, t0),
                buf(2, Buf::LogitsPk),
                uni(3, p),
                uni(30, Uniform::PkOff { dst_word_off: off }),
            ],
            Grid::OneD(groups),
        );
    }

    fn emit_choose_token(&mut self, kit: &Toolkit, vocab: usize, cap: &Softcap, fused: bool)
        ensures
            final(self)@ == old(self)@.choose_token(*kit, vocab, *cap, fused),
    {
        let am_p = Uniform::ArgmaxRows { rows: 1, n: vocab as u32 };
        let blocks: u32 = kit.lim.argmax_blocks as u32;
        if fused {
            self.push(
                Pipe::ArgmaxCapStage1,
                vec![
                    buf(65, Buf::LogitsPk),
                    buf(66, Buf::LogitsF32),
                    buf(55, Buf::AmVal),
                    buf(56, Buf::AmIdx),
                    uni(67, Uniform::ArgmaxCap { n: vocab as u32, cap: cap.cap }),
                ],
                Grid::Dims(blocks, 1, 1),
            );
        } else {
            let cap_p = Uniform::Scale {
                n: vocab as u32,
                n_words: (vocab / 2) as u32,
                scale: 0,
                cap: cap.cap,
                inv_cap: cap.inv(),
            };
            let pipe = if cap.on { Pipe::Softcap } else { Pipe::CastF32 };
            self.push(
                pipe,
                vec![buf(0, Buf::LogitsPk), uni(3, cap_p), buf(4, Buf::LogitsF32)],
                grid_1d(vocab / 2, 256),
            );
            self.push(
                Pipe::ArgmaxStage1,
                vec![
                    buf(54, Buf::LogitsF32),
                    buf(55, Buf::AmVal),
                    buf(56, Buf::AmIdx),
                    uni(58, am_p),
                ],
                Grid::Dims(blocks, 1, 1),
            );
        }
        self.push(
            Pipe::ArgmaxStage2,
            vec![buf(55, Buf::AmVal), buf(56, Buf::AmIdx), buf(57, Buf::TokenOut), uni(58, am_p)],
            Grid::Dims(1, 1, 1),
        );
    }

    fn emit_head(&mut self, kit: &Toolkit, cfg: &EmitCfg, tab: &Table, cap: &Softcap, fused: bool)
        requires
            tab.sound(),
        ensures
            final(self)@ == old(self)@.head(*kit, *cfg, *tab, *cap, fused),
    {
        if !kit.pl.fnc {
            let w = if cfg.n_layers % 2 == 0 { Work::HidA } else { Work::HidB };
            self.rms(
                Buf::Work(false, w),
                Buf::Norm(Norm::Final),
                Buf::Work(false, Work::T0),
                1,
                cfg.hidden,
                cfg.eps,
            );
        }
        let ghost normed = self@;
        let n: usize = tab.plan.n_chunks;
        let mut row_off: usize = 0;
        let mut c: usize = 0;
        assert(tab.chunk_start(0) == 0);
        while c < n
            invariant
                c <= n == tab.plan.n_chunks,
                tab.sound(),
                c < n ==> row_off == tab.chunk_start(c as int),
                self@ == normed.lm_chunks(*kit, *cfg, *tab, c as int),
            decreases n - c,
        {
            self.emit_lm_chunk(kit, cfg, tab, c, row_off);
            assert(tab.chunk_start(c as int) < tab.rows);
            row_off = row_off + tab.rows_of(c);
            c = c + 1;
        }
        self.emit_choose_token(kit, tab.rows, cap, fused);
    }

    fn emit_verify_chunk(
        &mut self,
        kit: &Toolkit,
        cfg: &EmitCfg,
        tab: &Table,
        cap: &Softcap,
        vrows: usize,
        c: usize,
        row_off: usize,
    )
        requires
            tab.sound(),
            c < tab.plan.n_chunks,
            row_off == tab.chunk_start(c as int),
            vrows * tab.rows <= usize::MAX,
        ensures
            final(self)@ == old(self)@.verify_chunk(
                *kit,
                *cfg,
                *tab,
                *cap,
                vrows as int,
                c as int,
            ),
    {
        let rows: usize = tab.rows_of(c);
        assert(vrows * rows <= vrows * tab.rows) by (nonlinear_arith)
            requires
                rows <= tab.rows,
        ;
        let groups = GroupsX { invocations: rows as u64, wg: kit.lim.small_m_rows_per_group };
        let smk = Uniform::Smk {
            n_rows: rows as u32,
            k_elems: cfg.hidden as u32,
            row_words: (cfg.hidden / 2) as u32,
            groups,
            m_live: vrows as u32,
        };
        self.push(
            Pipe::VerifySmk,
            vec![
                buf(0, Buf::EmbedChunk(c)),
                buf(1, Buf::Work(true, Work::T0)),
                buf(2, Buf::VerifyY(c)),
                uni(3, smk),
            ],
            Grid::OneD(groups),
        );
        let cap_p = Uniform::VerifyCap {
            n_rows: rows as u32,
            row_off: row_off as u32,
            vocab: tab.rows as u32,
            m: vrows as u32,
            cap: cap.cap,
            inv_cap: cap.inv(),
            softcap: if cap.on { 1 } else { 0 },
        };
        self.push(
            Pipe::VerifyCap,
            vec![buf(0, Buf::VerifyY(c)), buf(1, Buf::VerifyLogits), uni(2, cap_p)],
            grid_1d(vrows * rows, 256),
        );
    }

    fn emit_verify_head(
        &mut self,
        kit: &Toolkit,
        cfg: &EmitCfg,
        tab: &Table,
        cap: &Softcap,
        prefill_m: usize,
        vrows: usize,
    )
        requires
            tab.sound(),
            vrows == verify_rows(*kit, prefill_m as int),
            vrows * tab.rows <= usize::MAX,
        ensures
            final(self)@ == old(self)@.verify_head(*kit, *cfg, *tab, *cap, prefill_m as int),
    {
        let w = if cfg.n_layers % 2 == 0 { Work::HidA } else { Work::HidB };
        self.rms(
            Buf::Work(true, w),
            Buf::Norm(Norm::Final),
            Buf::Work(true, Work::T0),
            prefill_m,
            cfg.hidden,
            cfg.eps,
        );
        let ghost normed = self@;
        let n: usize = tab.plan.n_chunks;
        let mut row_off: usize = 0;
        let mut c: usize = 0;
        assert(tab.chunk_start(0) == 0);
        while c < n
            invariant
                c <= n == tab.plan.n_chunks,
                tab.sound(),
                vrows * tab.rows <= usize::MAX,
                c < n ==> row_off == tab.chunk_start(c as int),
                self@ == normed.verify_chunks(*kit, *cfg, *tab, *cap, vrows as int, c as int),
            decreases n - c,
        {
            self.emit_verify_chunk(kit, cfg, tab, cap, vrows, c, row_off);
            assert(tab.chunk_start(c as int) < tab.rows);
            row_off = row_off + tab.rows_of(c);
            c = c + 1;
        }
        let am_p = Uniform::ArgmaxRows { rows: vrows as u32, n: tab.rows as u32 };
        self.push(
            Pipe::ArgmaxStage1,
            vec![
                buf(54, Buf::VerifyLogits),
                buf(55, Buf::VerifyAmVal),
                buf(56, Buf::VerifyAmIdx),
                uni(58, am_p),
            ],
            Grid::Dims(kit.lim.argmax_blocks as u32, vrows as u32, 1),
        );
        self.push(
            Pipe::ArgmaxStage2,
            vec![
                buf(55, Buf::VerifyAmVal),
                buf(56, Buf::VerifyAmIdx),
                buf(57, Buf::TokenOut),
                uni(58, am_p),
            ],
            Grid::Dims(vrows as u32, 1, 1),
        );
    }
}

/// The verify epilogue of a finished graph.
pub struct VerifyPlan {
    pub rows: usize,
    pub passes: Vec<Pass>,
}

/// A finished graph. `overlay` says, for each decode pass, which of `twins` takes its place
/// in a deep context; `verify_prefill` is empty when verify rows run the prefill passes.
pub struct E4bGraph {
    pub decode: Vec<Pass>,
    pub prefill: Vec<Pass>,
    pub verify_prefill: Vec<Pass>,
    pub verify: Option<VerifyPlan>,
    pub twins: Vec<DeepTwin>,
    pub overlay: Vec<Option<usize>>,
    pub tally: Tally,
    pub prefill_m: usize,
    pub final_hid: Work,
}

/// Twin `t` stands for decode pass `i`.
pub open spec fn twin_of(twins: Seq<(int, PassModel)>, t: int, i: int) -> bool {
    0 <= t < twins.len() && twins[t].0 == i
}

/// `overlay` maps a decode pass to its twin: exactly the passes that have one.
pub open spec fn overlays(
    overlay: Seq<Option<usize>>,
    twins: Seq<(int, PassModel)>,
    n_passes: int,
) -> bool {
    &&& overlay.len() == n_passes
    &&& forall|i: int|
        0 <= i < n_passes ==> match #[trigger] overlay[i] {
            Some(u) => twin_of(twins, u as int, i),
            None => forall|t: int| !#[trigger] twin_of(twins, t, i),
        }
}

/// Looks up the twin of every decode pass.
pub fn build_overlay(n_passes: usize, twins: &Vec<DeepTwin>) -> (r: Vec<Option<usize>>)
    requires
        twins_distinct(twin_models(twins@), n_passes as int),
    ensures
        overlays(r@, twin_models(twins@), n_passes as int),
{
    let ghost tm = twin_models(twins@);
    let mut overlay: Vec<Option<usize>> = Vec::new();
    let mut i: usize = 0;
    while i < n_passes
        invariant
            i <= n_passes,
            overlay@.len() == i,
            forall|j: int| 0 <= j < i ==> #[trigger] overlay@[j] is None,
        decreases n_passes - i,
    {
        overlay.push(None);
        i = i + 1;
    }
    let mut t: usize = 0;
    while t < twins.len()
        invariant
            t <= twins.len(),
            tm == twin_models(twins@),
            twins_distinct(tm, n_passes as int),
            overlay@.len() == n_passes,
            forall|j: int|
                0 <= j < n_passes ==> match #[trigger] overlay@[j] {
                    Some(u) => u < t && twin_of(tm, u as int, j),
                    None => forall|v: int| v < t ==> !#[trigger] twin_of(tm, v, j),
                },
        decreases twins.len() - t,
    {
        let at: usize = twins[t].index;
        assert(tm[t as int].0 == at);
        overlay.set(at, Some(t));
        t = t + 1;
    }
    overlay
}

impl<'a> GraphBuild<'a> {
    /// The finished lists: the layers followed by the head.
    pub open spec fn with_head(&self, cap: Softcap, fused: bool) -> Lists {
        self.b@.head(*self.kit, self.cfg, self.embed, cap, fused)
    }

    /// The verify epilogue can be sized.
    pub open spec fn verify_fits(&self) -> bool {
        has_verify(*self.kit, self.cfg, self.prefill_m as int) ==> verify_rows(
            *self.kit,
            self.prefill_m as int,
        ) * self.embed.rows <= usize::MAX
    }

    /// Adds the head and the verify epilogue to the layers; `None` when the epilogue's logits
    /// do not fit the address type.
    pub fn finish(self, cap: &Softcap, fused: bool) -> (r: Option<E4bGraph>)
        requires
            self.wf(),
            self.done == self.config.num_hidden_layers,
        ensures
            match r {
                None => !self.verify_fits(),
                Some(g) => {
                    let s = self.with_head(*cap, fused);
                    &&& self.verify_fits()
                    &&& pass_models(g.decode@) == s.decode
                    &&& pass_models(g.prefill@) == s.prefill
                    &&& pass_models(g.verify_prefill@) == s.verify
                    &&& twin_models(g.twins@) == s.deep
                    &&& overlays(g.overlay@, s.deep, s.decode.len() as int)
                    &&& s.deep.len() == if self.kit.pl.deep_splits is Some {
                        2 * self.config.num_hidden_layers as int
                    } else {
                        0
                    }
                    &&& flash1_passes(s.decode) == self.config.num_hidden_layers
                    &&& match g.verify {
                        None => !has_verify(*self.kit, self.cfg, self.prefill_m as int),
                        Some(v) => {
                            &&& has_verify(*self.kit, self.cfg, self.prefill_m as int)
                            &&& v.rows == verify_rows(*self.kit, self.prefill_m as int)
                            &&& pass_models(v.passes@) == Lists::empty().retarget(
                                Target::Prefill,
                            ).verify_head(
                                *self.kit,
                                self.cfg,
                                self.embed,
                                *cap,
                                self.prefill_m as int,
                            ).prefill
                        },
                    }
                    &&& g.tally == self.tally
                    &&& g.prefill_m == self.prefill_m
                    &&& g.final_hid == final_hid(self.cfg.n_layers as int)
                },
            },
    {
        let kit = self.kit;
        let m: usize = self.prefill_m;
        let cfg = self.cfg;
        let embed = self.embed;
        let verify = if m > 0 && !kit.pl.lmhead_i8 && !kit.pl.lmhead_sg && cfg.hidden % 8 == 0 {
            let vrows: usize = verify_row_count(kit, m);
            if product(vrows, embed.rows).is_none() {
                return None;
            }
            let mut vb = Builder::new();
            vb.retarget(Target::Prefill);
            vb.emit_verify_head(kit, &cfg, &embed, cap, m, vrows);
            Some(VerifyPlan { rows: vrows, passes: vb.prefill_passes })
        } else {
            None
        };
        let tally = self.tally;
        let mut b = self.b;
        proof {
            lemma_grown_head(b@, *kit, cfg, embed, *cap, fused);
            lemma_kept_grown(
                b@,
                b@.head(*kit, cfg, embed, *cap, fused),
                kit.pl.deep_splits is Some,
                self.done as int,
            );
        }
        b.emit_head(kit, &cfg, &embed, cap, fused);
        let overlay = build_overlay(b.passes.len(), &b.deep_attn);
        let final_hid = if cfg.n_layers % 2 == 0 { Work::HidA } else { Work::HidB };
        Some(
            E4bGraph {
                decode: b.passes,
                prefill: b.prefill_passes,
                verify_prefill: b.verify_prefill_passes,
                verify,
                twins: b.deep_attn,
                overlay,
                tally,
                prefill_m: m,
                final_hid,
            },
        )
    }
}

/// What the buffers of the head and of the inputs are as long as.
pub struct HeadDims {
    pub prefill_m: usize,
    pub verify_rows: usize,
    pub argmax_blocks: usize,
    /// The most rows that a verify batch can have on any graph.
    pub small_m_max: usize,
    pub embed: Table,
}

impl HeadDims {
    pub open spec fn fits(self) -> bool {
        &&& self.embed.sound()
        &&& self.verify_rows * self.embed.rows <= usize::MAX
        &&& self.verify_rows * self.argmax_blocks <= usize::MAX
    }

    /// The words of a buffer of the head or of the inputs; `None` for another buffer.
    pub open spec fn words(self, b: Buf) -> Option<int> {
        match b {
            Buf::LogitsPk => Some(self.embed.rows as int / 2),
            Buf::LogitsF32 => Some(self.embed.rows as int),
            Buf::AmVal | Buf::AmIdx => Some(self.argmax_blocks as int),
            Buf::TokenOut => Some(self.small_m_max as int),
            Buf::TokIdx | Buf::RopePos => Some(
                if self.prefill_m > 1 {
                    self.prefill_m as int
                } else {
                    1
                },
            ),
            Buf::KvStart => Some(1),
            Buf::VerifyLogits => Some(self.verify_rows * self.embed.rows),
            Buf::VerifyAmVal | Buf::VerifyAmIdx => Some(self.verify_rows * self.argmax_blocks),
            Buf::VerifyY(c) => if c < self.embed.plan.n_chunks {
                Some(self.verify_rows * self.embed.spec_chunk_rows(c as int))
            } else {
                None
            },
            _ => None,
        }
    }

    pub fn alloc_head(&self, b: Buf) -> (r: Option<usize>)
        requires
            self.fits(),
        ensures
            match r {
                Some(n) => self.words(b) == Some(n as int),
                None => self.words(b) is None,
            },
    {
        match b {
            Buf::LogitsPk => Some(self.embed.rows / 2),
            Buf::LogitsF32 => Some(self.embed.rows),
            Buf::AmVal | Buf::AmIdx => Some(self.argmax_blocks),
            Buf::TokenOut => Some(self.small_m_max),
            Buf::TokIdx | Buf::RopePos => Some(if self.prefill_m > 1 { self.prefill_m } else { 1 }),
            Buf::KvStart => Some(1),
            Buf::VerifyLogits => Some(self.verify_rows * self.embed.rows),
            Buf::VerifyAmVal | Buf::VerifyAmIdx => Some(self.verify_rows * self.argmax_blocks),
            Buf::VerifyY(c) => {
                if c >= self.embed.plan.n_chunks {
                    return None;
                }
                let rows: usize = self.embed.rows_of(c);
                let n: usize = self.verify_rows;
                let all: usize = self.embed.rows;
                assert(n * rows <= n * all) by (nonlinear_arith)
                    requires
                        rows <= all,
                ;
                Some(n * rows)
            },
            _ => None,
        }
    }
}

} // verus!
