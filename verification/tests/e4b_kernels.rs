//! What kernels are compiled from.
use nv_models::e4b_emit::{Limits, Toolkit};
use nv_models::e4b_flash_src::{deep_tpw_source, e4b_flash2_deep_source, flash1_e4b_source, flash1_mk_qtile_source};
use nv_models::e4b_gemm_src::{
    gemv_i8_pk_source, mk_unrolled_i8_source, mk_unrolled_source, mk_widen, verify_smk_live_source,
    w4_mk_unrolled_source,
};
use nv_models::e4b_head::verify_row_count;
use nv_models::e4b_ir::{MkPipe, Pipe};
use nv_models::e4b_kernels::{check_source, fnc_unrolled, pipe_source, KernelSource, KernelTexts};
use nv_models::e4b_pipelines::{build_pipelines, PipeOptions};

fn limits() -> Limits {
    Limits {
        gemv_rows_per_group: 8,
        w4_rows_per_group: 8,
        sg_rows_per_group: 16,
        slab_rows: 16,
        small_m_max: 8,
        small_m_rows_per_group: 8,
        argmax_blocks: 64,
        flash_max_head_dim: 512,
        fused_attn_max_head_dim: 512,
        lm_sg_rows_per_group: 16,
        tensor_tile_rows: 32,
        tensor_head_dim: 256,
        tensor_head_dim_wide: 512,
        lora_max_rank: 64,
        lora_cols_per_group: 64,
        max_splits: 256,
        max_groups_per_dim: 65_535,
        max_binding_bytes: 1 << 30,
        storage_align: 256,
        max_queries: 4096,
    }
}

fn options() -> PipeOptions {
    PipeOptions {
        sg16: false,
        lmhead_i8: false,
        lmhead_sg: false,
        prefill_m: 12,
        verify_m: Some(5),
        fuse_norms: true,
        fuse_attn: true,
        flash1_hds: vec![32, 64],
        hd_specialize: true,
        sd: false,
        sg: true,
        gqa_fold: 1,
        deep_fold: 2,
        tpw: 1,
        decode_splits: 32,
        deep_arm: Some((2048, 64)),
        deep_full_only: false,
        deep_stage2_legacy: false,
        w8: false,
        w8_group: 0,
        w4_mr: 1,
        qtile: 4,
        fnc_unrolled: [true, false, false],
        tensor_route: false,
        tensor_attn: false,
        tensor_pk: false,
        tensor_pk3: false,
        tensor_attn_narrow: false,
        tensor_attn_wide: false,
    }
}

fn texts() -> KernelTexts<'static> {
    KernelTexts {
        residual_scale: "RS",
        rmsnorm: "RMS",
        rmsnorm_residual: "RMSRES",
        rope_bf16: "ROPE",
        rope_f32: "ROPE32",
        kv_fp8: "KV",
        flash_decode: "FD",
        flash2_pk: "let splits = 16u;",
        flash2_pk_mk: "F2MK",
        gemv_bf16: "GB",
        gemv_pk: "GPK array<f32, 8>",
        gemv_pk_mk: "GPKMK",
        gemv_w4a16: "GW4",
        gemv_w4_pk: "GW4PK t < 8u",
        graph_decode: "GD",
        gather: "GATHER",
        axpby: "AXPBY",
        gatemul: "GATEMUL",
        lmhead_i8: "LMI8",
        fused_norm_chain: "FNC",
        fused_attn_chain: "FAC",
        fncu_prelude: "FNCU",
        verify_cap: "CAP",
        lora_fused: "LF",
        lora_cvt: "LC",
        hidden: 512,
        mk_unroll: true,
        max_fold: 8,
    }
}

fn built(o: &PipeOptions, k: &KernelTexts, pipe: Pipe) -> Option<KernelSource> {
    let kit = Toolkit { pl: build_pipelines(o, &limits()), lim: limits() };
    assert!(check_source(pipe, o, k, &kit));
    pipe_source(pipe, o, k, &kit)
}

fn whole(o: &PipeOptions, k: &KernelTexts, pipe: Pipe) -> String {
    match built(o, k, pipe) {
        Some(KernelSource::Whole(t)) => t,
        _ => panic!("{pipe:?} is not whole"),
    }
}

#[test]
fn shared_texts_are_taken_as_they_are() {
    let (o, k) = (options(), texts());
    assert_eq!(whole(&o, &k, Pipe::Softcap), "RS");
    assert_eq!(whole(&o, &k, Pipe::RopeF32), "ROPE\nROPE32");
    assert_eq!(whole(&o, &k, Pipe::GemvPk3), "GB\nGPK array<f32, 8>GPKMK");
    assert_eq!(whole(&o, &k, Pipe::GemvW4V4Pk), "GW4\nGW4PK t < 8u");
    assert_eq!(whole(&o, &k, Pipe::ArgmaxCapStage1), "GD");
    assert_eq!(whole(&o, &k, Pipe::FacK), "FAC");
    assert_eq!(whole(&o, &k, Pipe::LoraRepack), "LC");
}

#[test]
fn split_counts_are_folded_in() {
    let (mut o, mut k) = (options(), texts());
    assert_eq!(whole(&o, &k, Pipe::Flash2Pk), "FD\nlet splits = 32u;F2MK");
    let deep = format!("FD\nlet splits = 16u;F2MK\n{}", e4b_flash2_deep_source(64, 256));
    assert_eq!(whole(&o, &k, Pipe::Flash2PkDeep), deep);
    o.deep_stage2_legacy = true;
    assert_eq!(whole(&o, &k, Pipe::Flash2PkDeep), "FD\nlet splits = 64u;F2MK");
    // A text without a place for the count cannot be built for another count.
    k.flash2_pk = "other";
    assert!(built(&o, &k, Pipe::Flash2Pk).is_none());
    o.decode_splits = 16;
    assert_eq!(whole(&o, &k, Pipe::Flash2Pk), "FD\notherF2MK");
}

#[test]
fn attention_stages_are_generated() {
    let (mut o, k) = (options(), texts());
    assert_eq!(whole(&o, &k, Pipe::Flash1(64)), format!("FD\n{}", flash1_e4b_source(64, true)));
    let tiled = format!("FD\nlet splits = 16u;F2MK\n{}", flash1_mk_qtile_source(64, 4));
    assert_eq!(whole(&o, &k, Pipe::Mk(false, MkPipe::Flash1Qtile)), tiled);
    assert!(matches!(built(&o, &k, Pipe::Flash1FoldDeep(64)), Some(KernelSource::Stem(t)) if t == "FD"));
    o.tpw = 2;
    let deep = format!("FD\n{}", deep_tpw_source(64, 2, 2, false, 8));
    assert_eq!(whole(&o, &k, Pipe::Flash1FoldDeep(64)), deep);
    // The shift-decoding twin of the many-row stage needs that stage in the shared text.
    assert_eq!(whole(&o, &k, Pipe::Mk(false, MkPipe::Flash1)), "FD\nlet splits = 16u;F2MK");
    o.sd = true;
    assert!(built(&o, &k, Pipe::Mk(false, MkPipe::Flash1)).is_none());
}

#[test]
fn many_row_kernels_are_unrolled_or_widened() {
    let (o, mut k) = (options(), texts());
    let bf16 = Pipe::Mk(false, MkPipe::GemmBf16Pk);
    let w4 = Pipe::Mk(true, MkPipe::GemmW4Pk3);
    assert_eq!(whole(&o, &k, bf16), format!("GB\n{}", mk_unrolled_source(12)));
    assert_eq!(whole(&o, &k, w4), format!("GW4\n{}", w4_mk_unrolled_source(5)));
    k.mk_unroll = false;
    assert_eq!(whole(&o, &k, bf16), "GB\nGPK array<f32, 12>GPKMK");
    assert_eq!(whole(&o, &k, w4), "GW4\nGW4PK t < 8u");
    assert_eq!(mk_widen(k.gemv_w4_pk, 12), "GW4PK t < 12u");
    let i8 = Pipe::Mk(false, MkPipe::GemmI8gPk3);
    assert_eq!(whole(&o, &k, i8), format!("GB\n{}", mk_unrolled_i8_source(12)));
    assert_eq!(whole(&o, &k, Pipe::GemvI8Pk), format!("GB\n{}", gemv_i8_pk_source()));
}

#[test]
fn kernels_of_sets_that_are_not_built_have_no_text() {
    let (mut o, k) = (options(), texts());
    o.verify_m = None;
    assert!(built(&o, &k, Pipe::Mk(true, MkPipe::Gather)).is_none());
    o.prefill_m = 0;
    assert!(built(&o, &k, Pipe::Mk(false, MkPipe::Gather)).is_none());
    o.deep_arm = None;
    assert!(built(&o, &k, Pipe::Flash2PkDeep).is_none());
}

#[test]
fn the_verify_head_is_built_for_the_rows_of_a_batch() {
    let (mut o, k) = (options(), texts());
    let rows = |o: &PipeOptions| {
        let kit = Toolkit { pl: build_pipelines(o, &limits()), lim: limits() };
        verify_row_count(&kit, o.prefill_m)
    };
    assert_eq!(rows(&o), 5);
    assert!(
        matches!(built(&o, &k, Pipe::VerifySmk), Some(KernelSource::Body(t)) if t == verify_smk_live_source(5))
    );
    // Without rows of its own it takes the prefill rows, as many as its kernel can.
    o.verify_m = None;
    assert_eq!(rows(&o), 8);
    o.prefill_m = 3;
    assert_eq!(rows(&o), 3);
}

#[test]
fn norm_chains_are_unrolled_where_the_width_allows() {
    let (o, mut k) = (options(), texts());
    assert!(matches!(built(&o, &k, Pipe::FncA), Some(KernelSource::Body(t)) if t.starts_with("FNCU")));
    assert_eq!(whole(&o, &k, Pipe::FncB), "FNC");
    k.hidden = 500;
    assert_eq!(whole(&o, &k, Pipe::FncA), "FNC");
    assert_eq!(fnc_unrolled(true, [true, false, true], 1024), Some([true, false, true]));
    assert_eq!(fnc_unrolled(true, [true, false, true], 500), Some([false; 3]));
    assert_eq!(fnc_unrolled(true, [true, false, true], 0), Some([false; 3]));
    assert_eq!(fnc_unrolled(false, [true; 3], 1024), None);
}

#[test]
fn some_kernels_bring_their_text() {
    let (o, k) = (options(), texts());
    assert!(matches!(built(&o, &k, Pipe::GeluEven), Some(KernelSource::Own)));
    assert!(matches!(built(&o, &k, Pipe::GemvW4SgPk), Some(KernelSource::Own)));
    assert!(matches!(built(&o, &k, Pipe::Flash1Fold(64)), Some(KernelSource::Stem(t)) if t == "FD"));
}

#[test]
fn texts_are_refused_for_options_that_they_cannot_serve() {
    let (mut o, k) = (options(), texts());
    let kit = Toolkit { pl: build_pipelines(&o, &limits()), lim: limits() };
    assert!(!check_source(Pipe::Flash1(48), &o, &k, &kit));
    assert!(!check_source(Pipe::Flash1(544), &o, &k, &kit));
    o.qtile = 9;
    assert!(!check_source(Pipe::Mk(false, MkPipe::Flash1Qtile), &o, &k, &kit));
    o.deep_arm = Some((1, 300));
    assert!(!check_source(Pipe::Flash2PkDeep, &o, &k, &kit));
    o.deep_stage2_legacy = true;
    assert!(check_source(Pipe::Flash2PkDeep, &o, &k, &kit));
    o.tpw = 5;
    assert!(!check_source(Pipe::Flash1FoldDeep(64), &o, &k, &kit));
}
