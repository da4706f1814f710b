//! The text that each kernel of the E4B graph is compiled from.
use vstd::prelude::*;
use crate::e4b_emit::{Pipelines, Toolkit};
use crate::e4b_flash_src::{
    deep_tpw_source, deep_tpw_text, e4b_flash2_deep_source, flash1_e4b_source, flash1_e4b_source_sd,
    flash1_mk_qtile_source, flash1_mk_qtile_source_sd, flash1_sd_text, flash1_text,
    flash_rows_stage1_source_sd, fnc_unrolled_source, fncu_text, head_width_ok, qtile_ok,
    qtile_sd_text, qtile_text, rows_stage1_sd_text, E4B_DEEP_TPW_MAX, FLASH2_DEEP, FNCU_BLOCK,
    MK_QSH_ELEMS, PREFILL_QTILE_MAX,
};
use crate::e4b_gemm_src::{
    flash2_pk_wgsl, gemv_i8_pk_source, gemv_i8_pk_text, gemv_pk_wgsl, mk_unrolled_i8_source,
    mk_unrolled_i8_text, mk_unrolled_source, mk_unrolled_text, mk_widen, mk_widened,
    verify_smk_live_source, verify_smk_live_text, w4_mk_unrolled_source, w4_mk_unrolled_text,
};
use crate::e4b_head::{verify_row_count, verify_rows};
use crate::e4b_ir::{MkPipe, Pipe};
use crate::e4b_pipelines::{
    deep_fold_of, fold_flash2, folded_flash2, max_of, pick_deep_fold, widest_of, PipeOptions,
};
use crate::text::with_num;

verus! {

/// The shared texts that kernels are put together from.
///
/// Texts of whole modules have the shared helpers in front of them already.
pub struct KernelTexts<'a> {
    pub residual_scale: &'a str,
    pub rmsnorm: &'a str,
    pub rmsnorm_residual: &'a str,
    pub rope_bf16: &'a str,
    pub rope_f32: &'a str,
    pub kv_fp8: &'a str,
    pub flash_decode: &'a str,
    /// The second attention stage, and its many-row kernels.
    pub flash2_pk: &'a str,
    pub flash2_pk_mk: &'a str,
    pub gemv_bf16: &'a str,
    /// The packing kernels of sixteen-bit matrices, and their many-row kernels.
    pub gemv_pk: &'a str,
    pub gemv_pk_mk: &'a str,
    pub gemv_w4a16: &'a str,
    pub gemv_w4_pk: &'a str,
    pub graph_decode: &'a str,
    pub gather: &'a str,
    pub axpby: &'a str,
    pub gatemul: &'a str,
    pub lmhead_i8: &'a str,
    pub fused_norm_chain: &'a str,
    pub fused_attn_chain: &'a str,
    pub fncu_prelude: &'a str,
    pub verify_cap: &'a str,
    pub lora_fused: &'a str,
    pub lora_cvt: &'a str,
    /// The hidden size that the norm chains are unrolled for.
    pub hidden: usize,
    /// The many-row kernels are unrolled rather than widened.
    pub mk_unroll: bool,
    /// The most query heads that a fold takes.
    pub max_fold: u32,
}

/// What a kernel is compiled from.
pub enum KernelSource {
    /// This text.
    Whole(String),
    /// This text, with the shared helpers in front of it.
    Body(String),
    /// This text, and on a new line one that the kernel brings.
    Stem(String),
    /// A text that the kernel brings.
    Own,
}

pub enum SourceModel {
    Whole(Seq<char>),
    Body(Seq<char>),
    Stem(Seq<char>),
    Own,
}

impl KernelSource {
    pub open spec fn model(&self) -> SourceModel {
        match self {
            KernelSource::Whole(t) => SourceModel::Whole(t@),
            KernelSource::Body(t) => SourceModel::Body(t@),
            KernelSource::Stem(t) => SourceModel::Stem(t@),
            KernelSource::Own => SourceModel::Own,
        }
    }
}

/// Two texts, the second on a new line.
pub open spec fn lines(a: Seq<char>, b: Seq<char>) -> Seq<char> {
    a + "\n"@ + b
}

fn glue(a: &str, b: &str) -> (r: String)
    ensures
        r@ == lines(a@, b@),
{
    let mut t = a.to_owned();
    t.append("\n");
    t.append(b);
    t
}

impl<'a> KernelTexts<'a> {
    pub open spec fn flash(&self) -> Seq<char> {
        lines(self.flash_decode@, self.flash2_pk@ + self.flash2_pk_mk@)
    }

    pub open spec fn first_stage(&self, hd: u32, o: PipeOptions) -> Seq<char> {
        if o.sd {
            flash1_sd_text(hd, o.sg)
        } else {
            flash1_text(hd, o.sg)
        }
    }

    pub open spec fn tiled_stage(&self, o: PipeOptions) -> Seq<char> {
        let hd = widest_of(o.flash1_hds@);
        if o.sd {
            qtile_sd_text(hd, o.qtile)
        } else {
            qtile_text(hd, o.qtile)
        }
    }

    pub open spec fn bf16_rows(&self, rows: nat) -> Seq<char> {
        lines(
            self.gemv_bf16@,
            if self.mk_unroll {
                mk_unrolled_text(rows)
            } else {
                mk_widened(self.gemv_pk@ + self.gemv_pk_mk@, rows)
            },
        )
    }

    pub open spec fn w4_rows(&self, rows: nat) -> Seq<char> {
        lines(
            self.gemv_w4a16@,
            if self.mk_unroll {
                w4_mk_unrolled_text(rows)
            } else {
                mk_widened(self.gemv_w4_pk@, rows)
            },
        )
    }

    pub open spec fn norm_chain(&self, unrolled: bool) -> SourceModel {
        if unrolled && self.hidden > 0 && self.hidden % 512 == 0 {
            SourceModel::Body(fncu_text(self.fncu_prelude@, self.hidden as nat))
        } else {
            SourceModel::Whole(self.fused_norm_chain@)
        }
    }
}

/// A text with the split count in its place; none where it has no such place.
pub open spec fn folded_or_none(src: Seq<char>, splits: u32) -> Option<SourceModel> {
    let t = folded_flash2(src, splits);
    if splits == 16 || t != src {
        Some(SourceModel::Whole(t))
    } else {
        None
    }
}

pub open spec fn at_least_one(n: u32) -> u32 {
    if n > 1 {
        n
    } else {
        1
    }
}

/// The rows of a many-row kernel: those of a prefill slab, or of a verify batch.
pub open spec fn rows_of(verify: bool, pl: Pipelines) -> Option<nat> {
    let set = if verify { pl.mk_verify } else { pl.mk };
    match set {
        Some(s) => Some(s.rows as nat),
        None => None,
    }
}

pub open spec fn mk_source(mk: MkPipe, rows: nat, o: PipeOptions, k: KernelTexts) -> Option<
    SourceModel,
> {
    match mk {
        MkPipe::Gather => Some(SourceModel::Whole(k.gather@)),
        MkPipe::GemmBf16Pk | MkPipe::GemmBf16Pk3 => Some(SourceModel::Whole(k.bf16_rows(rows))),
        MkPipe::GemmI8Pk | MkPipe::GemmI8Pk3 | MkPipe::GemmI8gPk | MkPipe::GemmI8gPk3 => Some(
            SourceModel::Whole(lines(k.gemv_bf16@, mk_unrolled_i8_text(rows))),
        ),
        MkPipe::GemmW4Pk | MkPipe::GemmW4Pk3 | MkPipe::GemmW4V4Pk | MkPipe::GemmW4V4Pk3 => Some(
            SourceModel::Whole(k.w4_rows(rows)),
        ),
        MkPipe::GemmW4SgPk | MkPipe::GemmW4SgPk3 => Some(SourceModel::Own),
        MkPipe::Flash1 => if o.sd {
            match rows_stage1_sd_text(k.flash2_pk_mk@) {
                Some(t) => Some(SourceModel::Whole(lines(k.flash(), t))),
                None => None,
            }
        } else {
            Some(SourceModel::Whole(k.flash()))
        },
        MkPipe::Flash1Qtile => Some(SourceModel::Whole(lines(k.flash(), k.tiled_stage(o)))),
        MkPipe::Flash2Pk => Some(SourceModel::Whole(k.flash())),
        MkPipe::GateMul => Some(SourceModel::Whole(k.gatemul@)),
    }
}

/// What a kernel is compiled from; none where a shared text lacks what would be replaced in
/// it, or the options leave the kernel out.
pub open spec fn source_model(pipe: Pipe, o: PipeOptions, k: KernelTexts, kit: Toolkit) -> Option<
    SourceModel,
> {
    match pipe {
        Pipe::Gather => Some(SourceModel::Whole(k.gather@)),
        Pipe::Scale | Pipe::ResAdd | Pipe::CastF32 | Pipe::Softcap => Some(
            SourceModel::Whole(k.residual_scale@),
        ),
        Pipe::Rms => Some(SourceModel::Whole(k.rmsnorm@)),
        Pipe::RmsRes => Some(SourceModel::Whole(k.rmsnorm_residual@)),
        Pipe::Rope | Pipe::RopeF32 => Some(SourceModel::Whole(lines(k.rope_bf16@, k.rope_f32@))),
        Pipe::KvQuant => Some(SourceModel::Whole(k.kv_fp8@)),
        Pipe::Flash1(hd) => Some(SourceModel::Whole(lines(k.flash_decode@, k.first_stage(hd, o)))),
        Pipe::Flash1Fold(_) => Some(SourceModel::Stem(k.flash_decode@)),
        Pipe::Flash1FoldDeep(hd) => if o.tpw > 1 {
            Some(
                SourceModel::Whole(
                    lines(
                        k.flash_decode@,
                        deep_tpw_text(hd, at_least_one(deep_fold_of(o)), o.tpw, o.sd),
                    ),
                ),
            )
        } else {
            Some(SourceModel::Stem(k.flash_decode@))
        },
        Pipe::Flash2Pk => folded_or_none(k.flash(), o.decode_splits),
        Pipe::Flash2PkDeep => match o.deep_arm {
            None => None,
            Some((_, splits)) => if o.deep_stage2_legacy {
                folded_or_none(k.flash(), splits)
            } else {
                Some(
                    SourceModel::Whole(
                        lines(k.flash(), with_num(FLASH2_DEEP@, 'N', splits as nat)),
                    ),
                )
            },
        },
        Pipe::GemvPk | Pipe::GemvPk3 => Some(
            SourceModel::Whole(lines(k.gemv_bf16@, k.gemv_pk@ + k.gemv_pk_mk@)),
        ),
        Pipe::GemvW4Pk | Pipe::GemvW4Pk3 | Pipe::GemvW4V4Pk | Pipe::GemvW4V4Pk3 => Some(
            SourceModel::Whole(lines(k.gemv_w4a16@, k.gemv_w4_pk@)),
        ),
        Pipe::GemvI8Pk | Pipe::GemvI8Pk3 | Pipe::GemvI8gPk | Pipe::GemvI8gPk3 => Some(
            SourceModel::Whole(lines(k.gemv_bf16@, gemv_i8_pk_text())),
        ),
        Pipe::LmHeadI8 => Some(SourceModel::Whole(k.lmhead_i8@)),
        Pipe::Axpby => Some(SourceModel::Whole(k.axpby@)),
        Pipe::GateMul => Some(SourceModel::Whole(k.gatemul@)),
        Pipe::ArgmaxStage1 | Pipe::ArgmaxStage2 | Pipe::ArgmaxCapStage1 => Some(
            SourceModel::Whole(k.graph_decode@),
        ),
        Pipe::FncA => Some(k.norm_chain(o.fnc_unrolled[0])),
        Pipe::FncB => Some(k.norm_chain(o.fnc_unrolled[1])),
        Pipe::FncC => Some(k.norm_chain(o.fnc_unrolled[2])),
        Pipe::FacQ | Pipe::FacK | Pipe::FacV => Some(SourceModel::Whole(k.fused_attn_chain@)),
        Pipe::Mk(verify, mk) => match rows_of(verify, kit.pl) {
            Some(rows) => mk_source(mk, rows, o, k),
            None => None,
        },
        Pipe::VerifySmk => Some(
            SourceModel::Body(verify_smk_live_text(verify_rows(kit, o.prefill_m as int) as nat)),
        ),
        Pipe::VerifyCap => Some(SourceModel::Whole(k.verify_cap@)),
        Pipe::LoraFused => Some(SourceModel::Whole(k.lora_fused@)),
        Pipe::LoraWiden | Pipe::LoraRepack => Some(SourceModel::Whole(k.lora_cvt@)),
        Pipe::GemvW4SgPk | Pipe::GemvW4SgPk3 | Pipe::GemvW4SgPkm | Pipe::GemvW4SgPkm3
        | Pipe::LmHeadSg | Pipe::GeluEven | Pipe::TensorOpsPk | Pipe::TensorOpsPk3
        | Pipe::TensorOpsAttn | Pipe::TensorOpsAttnWide => Some(
            SourceModel::Own,
        ),
    }
}

/// What the kernel texts take for granted.
pub open spec fn source_ok(pipe: Pipe, o: PipeOptions, k: KernelTexts, kit: Toolkit) -> bool {
    match pipe {
        Pipe::Flash1(hd) => head_width_ok(hd),
        Pipe::Flash1FoldDeep(hd) => o.tpw > 1 ==> {
            let fold = at_least_one(deep_fold_of(o));
            head_width_ok(hd) && o.tpw <= E4B_DEEP_TPW_MAX && fold <= k.max_fold && hd * fold
                <= u32::MAX
        },
        Pipe::Flash2PkDeep => o.deep_arm matches Some((_, splits)) ==> o.deep_stage2_legacy || 1
            <= splits <= kit.lim.max_splits,
        Pipe::Mk(_, MkPipe::Flash1Qtile) => qtile_ok(widest_of(o.flash1_hds@), o.qtile),
        _ => true,
    }
}

pub open spec fn agrees(r: Option<KernelSource>, m: Option<SourceModel>) -> bool {
    match r {
        Some(s) => m == Some(s.model()),
        None => m is None,
    }
}

fn whole(t: &str) -> (r: Option<KernelSource>)
    ensures
        agrees(r, Some(SourceModel::Whole(t@))),
{
    Some(KernelSource::Whole(t.to_owned()))
}

fn whole_lines(a: &str, b: &str) -> (r: Option<KernelSource>)
    ensures
        agrees(r, Some(SourceModel::Whole(lines(a@, b@)))),
{
    Some(KernelSource::Whole(glue(a, b)))
}

fn whole_lines_if(a: &str, b: Option<String>) -> (r: Option<KernelSource>)
    ensures
        match b {
            Some(t) => agrees(r, Some(SourceModel::Whole(lines(a@, t@)))),
            None => r is None,
        },
{
    match b {
        Some(t) => whole_lines(a, t.as_str()),
        None => None,
    }
}

fn folded_source(src: &str, splits: u32) -> (r: Option<KernelSource>)
    ensures
        agrees(r, folded_or_none(src@, splits)),
{
    match fold_flash2(src, splits) {
        Some(t) => Some(KernelSource::Whole(t)),
        None => None,
    }
}

impl<'a> KernelTexts<'a> {
    fn flash_source(&self) -> (r: String)
        ensures
            r@ == self.flash(),
    {
        let both = flash2_pk_wgsl(self.flash2_pk, self.flash2_pk_mk);
        glue(self.flash_decode, both.as_str())
    }

    fn first_stage_source(&self, hd: u32, o: &PipeOptions) -> (r: String)
        requires
            head_width_ok(hd),
        ensures
            r@ == self.first_stage(hd, *o),
    {
        if o.sd {
            flash1_e4b_source_sd(hd, o.sg)
        } else {
            flash1_e4b_source(hd, o.sg)
        }
    }

    fn tiled_stage_source(&self, o: &PipeOptions) -> (r: String)
        requires
            qtile_ok(widest_of(o.flash1_hds@), o.qtile),
        ensures
            r@ == self.tiled_stage(*o),
    {
        let hd: u32 = max_of(&o.flash1_hds);
        if o.sd {
            flash1_mk_qtile_source_sd(hd, o.qtile)
        } else {
            flash1_mk_qtile_source(hd, o.qtile)
        }
    }

    fn norm_chain_source(&self, unrolled: bool) -> (r: KernelSource)
        ensures
            r.model() == self.norm_chain(unrolled),
    {
        if unrolled {
            if let Some(t) = fnc_unrolled_source(self.fncu_prelude, self.hidden) {
                return KernelSource::Body(t);
            }
        }
        KernelSource::Whole(self.fused_norm_chain.to_owned())
    }

    fn rows_source(&self, mk: MkPipe, rows: usize, o: &PipeOptions) -> (r: Option<KernelSource>)
        requires
            mk == MkPipe::Flash1Qtile ==> qtile_ok(widest_of(o.flash1_hds@), o.qtile),
        ensures
            agrees(r, mk_source(mk, rows as nat, *o, *self)),
    {
        match mk {
            MkPipe::Gather => whole(self.gather),
            MkPipe::GemmBf16Pk | MkPipe::GemmBf16Pk3 => {
                let t = if self.mk_unroll {
                    mk_unrolled_source(rows)
                } else {
                    let both = gemv_pk_wgsl(self.gemv_pk, self.gemv_pk_mk);
                    mk_widen(both.as_str(), rows)
                };
                whole_lines(self.gemv_bf16, t.as_str())
            },
            MkPipe::GemmI8Pk | MkPipe::GemmI8Pk3 | MkPipe::GemmI8gPk | MkPipe::GemmI8gPk3 => {
                let t = mk_unrolled_i8_source(rows);
                whole_lines(self.gemv_bf16, t.as_str())
            },
            MkPipe::GemmW4Pk | MkPipe::GemmW4Pk3 | MkPipe::GemmW4V4Pk | MkPipe::GemmW4V4Pk3 => {
                let t = if self.mk_unroll {
                    w4_mk_unrolled_source(rows)
                } else {
                    mk_widen(self.gemv_w4_pk, rows)
                };
                whole_lines(self.gemv_w4a16, t.as_str())
            },
            MkPipe::GemmW4SgPk | MkPipe::GemmW4SgPk3 => Some(KernelSource::Own),
            MkPipe::Flash1 => {
                let flash = self.flash_source();
                if o.sd {
                    whole_lines_if(flash.as_str(), flash_rows_stage1_source_sd(self.flash2_pk_mk))
                } else {
                    Some(KernelSource::Whole(flash))
                }
            },
            MkPipe::Flash1Qtile => {
                let flash = self.flash_source();
                let t = self.tiled_stage_source(o);
                whole_lines(flash.as_str(), t.as_str())
            },
            MkPipe::Flash2Pk => Some(KernelSource::Whole(self.flash_source())),
            MkPipe::GateMul => whole(self.gatemul),
        }
    }

    fn deep_stage_source(&self, hd: u32, o: &PipeOptions) -> (r: Option<KernelSource>)
        requires
            o.tpw > 1 ==> {
                let fold = at_least_one(deep_fold_of(*o));
                head_width_ok(hd) && o.tpw <= E4B_DEEP_TPW_MAX && fold <= self.max_fold && hd * fold
                    <= u32::MAX
            },
        ensures
            agrees(
                r,
                if o.tpw > 1 {
                    Some(
                        SourceModel::Whole(
                            lines(
                                self.flash_decode@,
                                deep_tpw_text(hd, at_least_one(deep_fold_of(*o)), o.tpw, o.sd),
                            ),
                        ),
                    )
                } else {
                    Some(SourceModel::Stem(self.flash_decode@))
                },
            ),
    {
        if o.tpw <= 1 {
            return Some(KernelSource::Stem(self.flash_decode.to_owned()));
        }
        let picked: u32 = pick_deep_fold(o);
        let fold: u32 = if picked > 1 { picked } else { 1 };
        let t = deep_tpw_source(hd, fold, o.tpw, o.sd, self.max_fold);
        whole_lines(self.flash_decode, t.as_str())
    }

    fn deep_merge_source(&self, o: &PipeOptions, max_splits: u32) -> (r: Option<KernelSource>)
        requires
            o.deep_arm matches Some((_, splits)) ==> o.deep_stage2_legacy || 1 <= splits
                <= max_splits,
        ensures
            agrees(
                r,
                match o.deep_arm {
                    None => None,
                    Some((_, splits)) => if o.deep_stage2_legacy {
                        folded_or_none(self.flash(), splits)
                    } else {
                        Some(
                            SourceModel::Whole(
                                lines(self.flash(), with_num(FLASH2_DEEP@, 'N', splits as nat)),
                            ),
                        )
                    },
                },
            ),
    {
        match o.deep_arm {
            None => None,
            Some((_, splits)) => {
                let flash = self.flash_source();
                if o.deep_stage2_legacy {
                    return folded_source(flash.as_str(), splits);
                }
                let t = e4b_flash2_deep_source(splits, max_splits);
                whole_lines(flash.as_str(), t.as_str())
            },
        }
    }
}

/// Whether the kernel texts can be put together for these options.
pub fn check_source(pipe: Pipe, o: &PipeOptions, k: &KernelTexts, kit: &Toolkit) -> (r: bool)
    ensures
        r == source_ok(pipe, *o, *k, *kit),
{
    match pipe {
        Pipe::Flash1(hd) => hd > 0 && hd % 32 == 0 && hd <= 512,
        Pipe::Flash1FoldDeep(hd) => {
            if o.tpw <= 1 {
                return true;
            }
            let picked: u32 = pick_deep_fold(o);
            let fold: u32 = if picked > 1 { picked } else { 1 };
            hd > 0 && hd % 32 == 0 && hd <= 512 && o.tpw <= E4B_DEEP_TPW_MAX && fold <= k.max_fold
                && hd.checked_mul(fold).is_some()
        },
        Pipe::Flash2PkDeep => match o.deep_arm {
            Some((_, splits)) => o.deep_stage2_legacy || (1 <= splits && splits
                <= kit.lim.max_splits),
            None => true,
        },
        Pipe::Mk(_, MkPipe::Flash1Qtile) => {
            let hd: u32 = max_of(&o.flash1_hds);
            let tile: u32 = o.qtile;
            if hd == 0 || hd % 32 != 0 || hd > 512 || tile < 1 || tile > PREFILL_QTILE_MAX {
                return false;
            }
            assert(tile * hd <= 4096) by (nonlinear_arith)
                requires
                    tile <= 8,
                    hd <= 512,
            ;
            tile * hd <= MK_QSH_ELEMS
        },
        _ => true,
    }
}

/// What a kernel is compiled from.
pub fn pipe_source(pipe: Pipe, o: &PipeOptions, k: &KernelTexts, kit: &Toolkit) -> (r: Option<
    KernelSource,
>)
    requires
        source_ok(pipe, *o, *k, *kit),
    ensures
        agrees(r, source_model(pipe, *o, *k, *kit)),
{
    match pipe {
        Pipe::Gather => whole(k.gather),
        Pipe::Scale | Pipe::ResAdd | Pipe::CastF32 | Pipe::Softcap => whole(k.residual_scale),
        Pipe::Rms => whole(k.rmsnorm),
        Pipe::RmsRes => whole(k.rmsnorm_residual),
        Pipe::Rope | Pipe::RopeF32 => whole_lines(k.rope_bf16, k.rope_f32),
        Pipe::KvQuant => whole(k.kv_fp8),
        Pipe::Flash1(hd) => whole_lines(k.flash_decode, k.first_stage_source(hd, o).as_str()),
        Pipe::Flash1Fold(_) => Some(KernelSource::Stem(k.flash_decode.to_owned())),
        Pipe::Flash1FoldDeep(hd) => k.deep_stage_source(hd, o),
        Pipe::Flash2Pk => {
            let flash = k.flash_source();
            folded_source(flash.as_str(), o.decode_splits)
        },
        Pipe::Flash2PkDeep => k.deep_merge_source(o, kit.lim.max_splits),
        Pipe::GemvPk | Pipe::GemvPk3 => {
            let both = gemv_pk_wgsl(k.gemv_pk, k.gemv_pk_mk);
            whole_lines(k.gemv_bf16, both.as_str())
        },
        Pipe::GemvW4Pk | Pipe::GemvW4Pk3 | Pipe::GemvW4V4Pk | Pipe::GemvW4V4Pk3 => whole_lines(
            k.gemv_w4a16,
            k.gemv_w4_pk,
        ),
        Pipe::GemvI8Pk | Pipe::GemvI8Pk3 | Pipe::GemvI8gPk | Pipe::GemvI8gPk3 => {
            let t = gemv_i8_pk_source();
            whole_lines(k.gemv_bf16, t.as_str())
        },
        Pipe::LmHeadI8 => whole(k.lmhead_i8),
        Pipe::Axpby => whole(k.axpby),
        Pipe::GateMul => whole(k.gatemul),
        Pipe::ArgmaxStage1 | Pipe::ArgmaxStage2 | Pipe::ArgmaxCapStage1 => whole(k.graph_decode),
        Pipe::FncA => Some(k.norm_chain_source(o.fnc_unrolled[0])),
        Pipe::FncB => Some(k.norm_chain_source(o.fnc_unrolled[1])),
        Pipe::FncC => Some(k.norm_chain_source(o.fnc_unrolled[2])),
        Pipe::FacQ | Pipe::FacK | Pipe::FacV => whole(k.fused_attn_chain),
        Pipe::Mk(verify, mk) => {
            let set = if verify { kit.pl.mk_verify } else { kit.pl.mk };
            match set {
                Some(s) => k.rows_source(mk, s.rows, o),
                None => None,
            }
        },
        Pipe::VerifySmk => Some(
            KernelSource::Body(verify_smk_live_source(verify_row_count(kit, o.prefill_m))),
        ),
        Pipe::VerifyCap => whole(k.verify_cap),
        Pipe::LoraFused => whole(k.lora_fused),
        Pipe::LoraWiden | Pipe::LoraRepack => whole(k.lora_cvt),
        Pipe::GemvW4SgPk | Pipe::GemvW4SgPk3 | Pipe::GemvW4SgPkm | Pipe::GemvW4SgPkm3
        | Pipe::LmHeadSg | Pipe::GeluEven | Pipe::TensorOpsPk | Pipe::TensorOpsPk3
        | Pipe::TensorOpsAttn | Pipe::TensorOpsAttnWide => Some(KernelSource::Own),
    }
}

/// Which norm chains run unrolled: those that are wanted, where the hidden size allows it.
/// None where the chains are not fused.
pub fn fnc_unrolled(fuse_norms: bool, want: [bool; 3], hidden: usize) -> (r: Option<[bool; 3]>)
    ensures
        r == if !fuse_norms {
            None
        } else if hidden > 0 && hidden % 512 == 0 {
            Some(want)
        } else {
            Some([false, false, false])
        },
{
    if !fuse_norms {
        return None;
    }
    if hidden > 0 && hidden % (2 * FNCU_BLOCK) == 0 {
        return Some(want);
    }
    Some([false, false, false])
}

} // verus!
