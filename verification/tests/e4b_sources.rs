//! The generated shader texts.
use nv_models::e4b_flash_src::{
    deep_tpw_entry, deep_tpw_source, e4b_flash2_deep_source, flash1_e4b_entry, flash1_e4b_entry_sd, flash1_e4b_source,
    flash1_e4b_source_sd, flash1_e4b_tag, flash1_mk_qtile_entry, flash1_mk_qtile_entry_sd, flash1_mk_qtile_source,
    flash1_mk_qtile_source_sd, flash_rows_stage1_source_sd, flash_sd_rewrite, fnc_unrolled_source,
    E4B_SD_K_SCALE_ANCHOR, E4B_SD_W_V_SCALE_ANCHOR, FLASH_ROWS_STAGE1_ENTRY, FLASH_ROWS_STAGE1_ENTRY_SD,
};
use nv_models::e4b_gemm_src::{
    flash2_pk_wgsl, gemv_i8_pk_source, gemv_pk_wgsl, i8_inner_dot, mk_unrolled_i8_source, mk_unrolled_source, mk_widen,
    verify_smk_live_source, w4_mk_unrolled_source, SMK_LIVE_ENTRY,
};
use nv_models::moe_src::{prefill_source, prefill_wgsl, EMBED_ROW_SPLICE_WGSL, VERIFY_ARGMAX_WGSL};

/// The parts of the packed four-bit kernels that widening touches.
const GEMV_W4_PK_WGSL: &str = "\
fn w4a16_rows(acc: ptr<function, array<f32, 8>>) {
    for (var t = 0u; t < 8u; t = t + 1u) {
        (*acc)[t] = 0.0;
    }
}
fn g4w_gemm_w4a16_block_mk_pk(wid: u32) {
    var blk: array<f32, 8>;
    w4a16_rows(&blk);
}
fn g4w_gemm_w4a16_block_mk_pk3(wid: u32) {
    var blk: array<f32, 8>;
}
fn g4w_gemm_w4a16_v4_mk_pk(wid: u32) {
    var blk: array<f32, 8>;
}
fn g4w_gemm_w4a16_v4_mk_pk3(wid: u32) {
    var blk: array<f32, 8>;
}
";

const ENTRIES: [&str; 4] = [
    "g4w_gemm_w4a16_block_mk_pk",
    "g4w_gemm_w4a16_block_mk_pk3",
    "g4w_gemm_w4a16_v4_mk_pk",
    "g4w_gemm_w4a16_v4_mk_pk3",
];

/// The length and the 64-bit FNV-1a hash of a text.
fn fingerprint(s: &str) -> (usize, u64) {
    let mut h: u64 = 0xcbf2_9ce4_8422_2325;
    for b in s.bytes() {
        h ^= b as u64;
        h = h.wrapping_mul(0x0000_0100_0000_01b3);
    }
    (s.len(), h)
}

#[test]
fn unrolled_twin_declares_every_entry_the_widened_source_does() {
    for m in [2usize, 8, 10, 16] {
        let widened = mk_widen(GEMV_W4_PK_WGSL, m);
        let unrolled = w4_mk_unrolled_source(m);
        for e in ENTRIES {
            assert!(widened.contains(&format!("fn {e}(")), "widened m={m} missing {e}");
            assert!(unrolled.contains(&format!("fn {e}(")), "unrolled m={m} missing {e}");
        }
    }
}

#[test]
fn unrolled_twin_has_no_function_space_array() {
    for m in [2usize, 8, 10, 16] {
        let unrolled = w4_mk_unrolled_source(m);
        assert!(
            !unrolled.contains("array<f32,"),
            "m={m}: unrolled source still declares a function-space array"
        );
        assert!(
            !unrolled.contains("ptr<function"),
            "m={m}: unrolled source still passes an accumulator by pointer"
        );
        for t in 0..m {
            assert!(unrolled.contains(&format!("var acc{t} = 0.0;")), "m={m}: no acc{t}");
        }
        assert!(
            !unrolled.contains(&format!("var acc{m} = 0.0;")),
            "m={m}: acc{m} overshoot"
        );
    }
}

#[test]
fn widened_source_carries_the_spill_shape_the_twin_removes() {
    let widened = mk_widen(GEMV_W4_PK_WGSL, 10);
    assert!(widened.contains("ptr<function, array<f32, 10>>"));
    assert!(widened.contains("var blk: array<f32, 10>;"));
}

#[test]
fn the_generated_verify_entry_is_not_reachable_through_the_audited_list() {
    assert!(
        verify_smk_live_source(4).contains(&format!("fn {SMK_LIVE_ENTRY}(")),
        "the generated source no longer declares the entry the graph asks for"
    );
    assert!(
        verify_smk_live_source(4).contains("var<workgroup> smk_partial"),
        "the entry stopped using workgroup memory"
    );
}

#[test]
fn widening_leaves_eight_rows_alone() {
    assert_eq!(mk_widen(GEMV_W4_PK_WGSL, 8), GEMV_W4_PK_WGSL);
    assert_eq!(mk_widen("x array<f32, 8> t < 8u t < 80", 12), "x array<f32, 12> t < 12u t < 80");
}

#[test]
fn gemm_texts_have_their_fingerprints() {
    assert_eq!(fingerprint(&w4_mk_unrolled_source(2)), (12432, 0x139f056085a90452));
    assert_eq!(fingerprint(&w4_mk_unrolled_source(10)), (40736, 0x37d6532f4007e412));
    assert_eq!(fingerprint(&mk_unrolled_source(1)), (4058, 0xbdc5091e1d2e3011));
    assert_eq!(fingerprint(&mk_unrolled_source(9)), (16816, 0x5adb86d9cc606e95));
    assert_eq!(fingerprint(&mk_unrolled_i8_source(3)), (24871, 0x8f34870341cea8e4));
    assert_eq!(fingerprint(&mk_unrolled_i8_source(12)), (88059, 0xaf469835a841f9e2));
    assert_eq!(fingerprint(&gemv_i8_pk_source()), (9246, 0x1df696d3b6f3835a));
    assert_eq!(fingerprint(&verify_smk_live_source(4)), (3119, 0x906147add4d67cf1));
    assert_eq!(fingerprint(&verify_smk_live_source(5)), (3461, 0xcac061b8685936b9));
    assert_eq!(fingerprint(&i8_inner_dot("  ", "acc")), (416, 0x8594260e226c4c9d));
}

#[test]
fn flash_texts_have_their_fingerprints() {
    assert_eq!(fingerprint(&flash1_e4b_source(256, true)), (7033, 0x3d592bcc193c4d3d));
    assert_eq!(fingerprint(&flash1_e4b_source(512, false)), (9930, 0xdb32f20442fb8210));
    assert_eq!(fingerprint(&e4b_flash2_deep_source(16, 64)), (1751, 0x7bd4bef590079b7f));
    assert_eq!(fingerprint(&e4b_flash2_deep_source(64, 64)), (1751, 0x457e60828737bf44));
    assert_eq!(fingerprint(&flash1_mk_qtile_source(256, 4)), (19759, 0x3a154dd65ff5e4e3));
    assert_eq!(fingerprint(&flash1_mk_qtile_source(512, 2)), (18755, 0xba5964f1f24ba98d));
    assert_eq!(fingerprint(&deep_tpw_source(256, 2, 2, true, 8)), (12818, 0x1405eb3857ea8a95));
    assert_eq!(fingerprint(&deep_tpw_source(512, 1, 4, false, 8)), (17532, 0x413ed7d51cf641e8));
}

#[test]
fn shift_decode_twins_have_their_fingerprints() {
    let f1 = flash1_e4b_source_sd(256, true);
    assert_eq!(fingerprint(&f1), (7131, 0x0952d81c0eaa4d7d));
    let qt = flash1_mk_qtile_source_sd(256, 4);
    assert_eq!(fingerprint(&qt), (19857, 0x09bab3380c597739));
    assert!(f1.contains("fn e4b_flash1_256sg_fp8_sd("));
    assert_eq!(f1.matches("0x7B800000").count(), 2);
    assert!(!f1.contains("fd_k_fp8("));
}

#[test]
fn shift_decode_twins_can_be_undone() {
    let back = |s: &str| s.replace("_sd(", "(").replace(" * bitcast<f32>(0x7B800000u)", "");
    for (hd, sg) in [(32, true), (96, false), (512, true)] {
        assert_eq!(back(&flash1_e4b_source_sd(hd, sg)), flash1_e4b_source(hd, sg));
    }
    for (hd, tile) in [(32, 8), (256, 3), (512, 4)] {
        assert_eq!(back(&flash1_mk_qtile_source_sd(hd, tile)), flash1_mk_qtile_source(hd, tile));
    }
}

#[test]
fn norm_chain_texts_have_their_fingerprints() {
    assert_eq!(
        fingerprint(&fnc_unrolled_source("PRE\n", 512).expect("two blocks")),
        (4285, 0x93f426540edf7491)
    );
    assert_eq!(
        fingerprint(&fnc_unrolled_source("PRE\n", 2560).expect("ten blocks")),
        (13040, 0x761155d07ebd6909)
    );
    assert_eq!(fnc_unrolled_source("PRE\n", 0), None);
    assert_eq!(fnc_unrolled_source("PRE\n", 768), None);
}

#[test]
fn prefill_texts_have_their_fingerprints() {
    assert_eq!(fingerprint(&prefill_wgsl("HEAD\n", 1)), (1491, 0xef69387a5edc634f));
    assert_eq!(fingerprint(&prefill_wgsl("HEAD\n", 8)), (7819, 0x6faefd0abffea3a2));
    assert_eq!(fingerprint(EMBED_ROW_SPLICE_WGSL), (739, 0x3eb05856d278b0a9));
    assert_eq!(fingerprint(VERIFY_ARGMAX_WGSL), (2367, 0xe9dd0af7cff66a03));
    assert_eq!(fingerprint(&prefill_source("HEAD\n", 8)), (10927, 0x56d6f49647a00be4));
    assert_eq!(prefill_source("HEAD\n", 0), "");
}

#[test]
fn entries_are_named_after_their_parameters() {
    assert_eq!(flash1_e4b_tag(256, true), "256sg");
    assert_eq!(flash1_e4b_tag(64, false), "64wb");
    assert_eq!(flash1_e4b_entry(512, false), "e4b_flash1_512wb_fp8");
    assert_eq!(flash1_e4b_entry_sd(512, false), "e4b_flash1_512wb_fp8_sd");
    assert_eq!(flash1_mk_qtile_entry(256, 4), "g4w_flash_rows_stage1_fp8_q256_4");
    assert_eq!(flash1_mk_qtile_entry_sd(256, 4), "g4w_flash_rows_stage1_fp8_q256_4_sd");
    assert_eq!(deep_tpw_entry(256, 2, 2, true), "e4b_dfold2t2_256_stage1_fp8_sd");
    assert_eq!(deep_tpw_entry(512, 1, 4, false), "e4b_dfold1t4_512_stage1_fp8");
}

#[test]
fn a_rewrite_without_its_anchors_is_refused() {
    let base = flash1_e4b_source(128, false);
    let entry = flash1_e4b_entry(128, false);
    assert!(flash_sd_rewrite(&base, &entry, E4B_SD_K_SCALE_ANCHOR, E4B_SD_W_V_SCALE_ANCHOR).is_some());
    assert_eq!(flash_sd_rewrite(&base, "other_entry", E4B_SD_K_SCALE_ANCHOR, E4B_SD_W_V_SCALE_ANCHOR), None);
    let twice = format!("{base}{base}");
    assert_eq!(flash_sd_rewrite(&twice, &entry, E4B_SD_K_SCALE_ANCHOR, E4B_SD_W_V_SCALE_ANCHOR), None);
    assert_eq!(flash_sd_rewrite("", &entry, E4B_SD_K_SCALE_ANCHOR, E4B_SD_W_V_SCALE_ANCHOR), None);
}

#[test]
fn the_row_twin_is_cut_out_of_its_module() {
    let body = "let w_v = w * fd_v_scales[sp * nkv + kvh];\n    ks = fd_k_scales[sp * nkv + kvh];\n    \
                let a = fd_k_fp8(x) + fd_v_fp8(y);";
    let module = format!(
        "fn before() {{\n}}\n@compute @workgroup_size(256)\nfn {FLASH_ROWS_STAGE1_ENTRY}(\n) {{\n    {body}\n}}\nfn after() {{\n}}\n"
    );
    let twin = flash_rows_stage1_source_sd(&module).expect("the entry is there once");
    assert!(twin.starts_with("@compute @workgroup_size(256)\n"));
    assert!(twin.contains(&format!("fn {FLASH_ROWS_STAGE1_ENTRY_SD}(")));
    assert!(twin.ends_with("\n}"));
    assert!(!twin.contains("fn after"));
    assert_eq!(flash_rows_stage1_source_sd("fn other() {\n}\n"), None);
}

#[test]
fn many_row_modules_follow_the_single_row_ones() {
    assert_eq!(gemv_pk_wgsl("a\n", "b\n"), "a\nb\n");
    assert_eq!(flash2_pk_wgsl("a", ""), "a");
}
