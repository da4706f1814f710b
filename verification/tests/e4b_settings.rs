//! Settings, names, adapters and sizes of the E4B decoder.
use nv_models::e4b_adapter::{all_slices, build_lora_site, lora_slices, AdapterError, LayerData, SiteSlices, Slice, SliceData};
use nv_models::e4b_env::{
    chain_k_from_env, choose_prefill_m, deep_env_u32, deep_fold_env, deep_full_only, deep_split_arm, deep_splits,
    deep_stage2_legacy16, deep_tpw_env, flash1_head_dims, flash1_sg_enabled, flash1_sg_supported, flash_sd_enabled,
    fnc_unroll_mask, gqa_group_of, lmhead_sg_wg, prefill_m_from_env, prefill_qtile, scratch_splits, sg16_enabled,
    split_depth, verify_live_rows_enabled, verify_m_from_env, w4_mr, w8_group, EnvError, DEEP_SPLITS_DEFAULT,
    SPLIT_DEPTH_DEFAULT,
};
use nv_models::e4b_ir::{Pipe, Work};
use nv_models::e4b_layer::EmitCfg;
use nv_models::e4b_lora::{
    lora_passes,
    build_lora_meta, pack_pairs, unpack_pairs, E4bLora, E4bLoraLayer, E4bLoraSite, LoraMeta, LoraProbeError, LoraSiteError,
};
use nv_models::e4b_names::{
    e4b_host_weights_from_loader, embed_is_raw, embed_per_layer_is_raw, layer_name, load_e4b_layer_from_loader,
    shared_name, w4_linear_names, LoadError,
};
use nv_models::e4b_pipelines::{fold_flash2, pass_label, pipeline_name, sort_distinct};
use nv_models::e4b_sizes::{decode_fd, kv_layer_count, kv_layer_lens, lora_scratch_lens, prefill_fd, BufDims};
use nv_models::parse::{env_is, env_number, not_switched_off, switched_on};
use nv_models::text::{count_of, decimal, ends_with, fill_num, fill_text, mentions, replace_all, replace_first, starts_with};
use nv_models::{Gemma4Config, KindDims, LayerType};

fn config() -> Gemma4Config {
    Gemma4Config {
        hidden_size: 64,
        intermediate_size: 128,
        vocab_size: 32,
        vocab_size_per_layer: 32,
        num_hidden_layers: 3,
        num_attention_heads: 8,
        sliding: KindDims { head_dim: 16, num_kv_heads: 2 },
        full: KindDims { head_dim: 32, num_kv_heads: 4 },
        hidden_size_per_layer_input: 16,
        sliding_window: 8,
        layer_types: vec![LayerType::SlidingAttention, LayerType::FullAttention, LayerType::SlidingAttention],
        kv_sources: vec![None, None, Some(0)],
        attention_k_eq_v: true,
        tie_word_embeddings: true,
    }
}

#[test]
fn numbers_are_read_as_the_parser_of_integers_reads_them() {
    assert_eq!(env_number(Some("42"), 100), Some(42));
    assert_eq!(env_number(Some("+42"), 100), Some(42));
    assert_eq!(env_number(Some("0042"), 100), Some(42));
    assert_eq!(env_number(Some("101"), 100), None);
    assert_eq!(env_number(Some(""), 100), None);
    assert_eq!(env_number(Some("+"), 100), None);
    assert_eq!(env_number(Some("-1"), 100), None);
    assert_eq!(env_number(Some(" 4"), 100), None);
    assert_eq!(env_number(None, 100), None);
    assert!(env_is(Some("x"), "x") && !env_is(Some("x "), "x") && !env_is(None, ""));
    assert!(switched_on(Some("1")) && !switched_on(Some("true")) && !switched_on(None));
    assert!(not_switched_off(None) && not_switched_off(Some("")) && !not_switched_off(Some("0")));
}

#[test]
fn counts_are_clamped() {
    assert_eq!(chain_k_from_env(None), 1);
    assert_eq!(chain_k_from_env(Some(" 4\n")), 4);
    assert_eq!(chain_k_from_env(Some("99")), 8);
    assert_eq!(chain_k_from_env(Some("0")), 1);
    assert_eq!(chain_k_from_env(Some("x")), 1);
    assert_eq!((w4_mr(Some("4")), w4_mr(Some("3")), w4_mr(None)), (4, 1, 1));
    assert_eq!((lmhead_sg_wg(None), lmhead_sg_wg(Some("128"))), (256, 128));
    assert_eq!((w8_group(Some("128")), w8_group(Some("64")), w8_group(None)), (128, 0, 0));
    assert_eq!(prefill_m_from_env(Some("0"), Some("16"), None), 0);
    assert_eq!(prefill_m_from_env(None, Some("16"), Some("4")), 16);
    assert_eq!(prefill_m_from_env(None, None, Some("4")), 4);
    assert_eq!(prefill_m_from_env(None, Some("x"), Some("4")), 10);
    assert_eq!(prefill_m_from_env(None, None, Some("1000")), 128);
    assert_eq!(prefill_m_from_env(None, None, None), 10);
    assert_eq!((verify_m_from_env(Some("0")), verify_m_from_env(Some("7")), verify_m_from_env(None)), (Some(1), Some(7), None));
}

#[test]
fn the_norm_chain_is_unrolled_by_part() {
    assert_eq!(fnc_unroll_mask(None), [true, true, true]);
    assert_eq!(fnc_unroll_mask(Some("0")), [false, false, false]);
    assert_eq!(fnc_unroll_mask(Some("ac")), [true, false, true]);
    assert_eq!(fnc_unroll_mask(Some("b")), [false, true, false]);
    assert_eq!(fnc_unroll_mask(Some("1")), [true, true, true]);
}

#[test]
fn switches_of_the_deep_arm() {
    assert!(flash_sd_enabled(None) && !flash_sd_enabled(Some("0")));
    assert!(deep_full_only(Some("1")) && !deep_full_only(None));
    assert!(deep_stage2_legacy16(Some("1")) && !deep_stage2_legacy16(Some("0")));
    assert_eq!(deep_env_u32(None), Ok(None));
    assert_eq!(deep_env_u32(Some("  ")), Ok(None));
    assert_eq!(deep_env_u32(Some(" 12 ")), Ok(Some(12)));
    assert_eq!(deep_env_u32(Some("twelve")), Err(EnvError::NotANumber));
    assert_eq!((split_depth(None), split_depth(Some(0))), (SPLIT_DEPTH_DEFAULT, 0));
    assert_eq!((deep_splits(None, 256), deep_splits(Some(0), 256), deep_splits(Some(999), 256)), (DEEP_SPLITS_DEFAULT, 1, 256));
    assert_eq!(deep_split_arm(2048, 64, 16), Some((2048, 64)));
    assert_eq!(deep_split_arm(0, 64, 16), None);
    assert_eq!(deep_split_arm(2048, 16, 16), None);
    // From the settings: none at depth zero, none where both arms split alike.
    let arm = |depth, splits| deep_split_arm(split_depth(depth), deep_splits(splits, 256), 16);
    assert_eq!((arm(None, None), arm(Some(0), None), arm(None, Some(16))), (Some((2048, 64)), None, None));
    assert_eq!(arm(Some(1), Some(0)), Some((1, 1)));
    assert_eq!((scratch_splits(None, 8), scratch_splits(Some((1, 64)), 32), scratch_splits(None, 32)), (16, 64, 32));
    assert_eq!(deep_fold_env(None, 4), Ok(0));
    assert_eq!(deep_fold_env(Some(1), 4), Ok(0));
    assert_eq!(deep_fold_env(Some(2), 4), Ok(2));
    assert_eq!(deep_fold_env(Some(3), 4), Err(EnvError::DoesNotDivideGroup));
    assert_eq!((deep_tpw_env(None), deep_tpw_env(Some(4)), deep_tpw_env(Some(5))), (Ok(1), Ok(4), Err(EnvError::TooLarge)));
    assert_eq!(prefill_qtile(Some("8")), Ok(8));
    assert_eq!(prefill_qtile(Some("9")), Err(EnvError::TooLarge));
    assert_eq!(prefill_qtile(Some("q")), Err(EnvError::NotANumber));
    assert_eq!(prefill_qtile(None), Ok(1));
}

#[test]
fn subgroup_kernels_need_whole_warps() {
    assert!(flash1_sg_supported(Some(32)) && flash1_sg_supported(Some(64)));
    assert!(!flash1_sg_supported(Some(16)) && !flash1_sg_supported(Some(48)) && !flash1_sg_supported(None));
    assert!(flash1_sg_enabled(None, Some(32)) && !flash1_sg_enabled(Some("0"), Some(32)));
    assert!(sg16_enabled(None, true) && !sg16_enabled(None, false) && !sg16_enabled(Some("0"), true));
    assert!(verify_live_rows_enabled(None) && !verify_live_rows_enabled(Some("0")));
}

#[test]
fn query_heads_fold_by_the_common_divisor() {
    // Groups of 4 and of 2.
    assert_eq!(gqa_group_of(&config()), 2);
    let mut c = config();
    c.num_attention_heads = 12;
    // Groups of 6 and of 3.
    assert_eq!(gqa_group_of(&c), 3);
    assert_eq!(flash1_head_dims(&config()), vec![16, 32]);
    c.full.head_dim = 16;
    assert_eq!(flash1_head_dims(&c), vec![16]);
}

#[test]
fn prefill_rows_shrink_to_what_can_be_bound() {
    let c = config();
    assert_eq!(choose_prefill_m(&c, 32, 16, 16, 256), 0);
    assert_eq!(choose_prefill_m(&c, 16, 64, 16, 256), 16);
    // The narrowest stride is eight words: slabs of sixteen rows are 512 bytes apart.
    assert_eq!(choose_prefill_m(&c, 32, 64, 16, 256), 32);
    assert_eq!(choose_prefill_m(&c, 32, 64, 16, 1024), 16);
}

#[test]
fn tensors_have_their_names() {
    assert_eq!(shared_name("norm.weight"), "model.language_model.norm.weight");
    assert_eq!(layer_name(12, "mlp.up_proj"), "model.language_model.layers.12.mlp.up_proj");
    let names = w4_linear_names(2);
    assert_eq!(names.len(), 19);
    assert_eq!(names[0], "model.language_model.per_layer_model_projection");
    assert_eq!(names[1], "model.language_model.layers.0.self_attn.q_proj");
    assert_eq!(names[18], "model.language_model.layers.1.per_layer_projection");
}

#[test]
fn layers_without_a_cache_read_only_queries() {
    let c = config();
    let own = load_e4b_layer_from_loader(&c, 0);
    assert_eq!(own.qkv.iter().map(|l| (l.n, l.k)).collect::<Vec<_>>(), vec![(128, 64), (32, 64), (32, 64)]);
    assert!(own.k_norm.is_some() && own.has_v);
    // Full layers share keys and values.
    let full = load_e4b_layer_from_loader(&c, 1);
    assert!(!full.has_v);
    assert_eq!(full.qkv.iter().map(|l| l.n).collect::<Vec<_>>(), vec![256, 128]);
    let shared = load_e4b_layer_from_loader(&c, 2);
    assert_eq!((shared.qkv.len(), shared.kv_source), (1, Some(0)));
    assert!(shared.k_norm.is_none());
    assert_eq!(shared.layer_scalar, "model.language_model.layers.2.layer_scalar");
}

#[test]
fn only_tied_models_with_per_layer_inputs_load() {
    let c = config();
    let w = e4b_host_weights_from_loader(&c).unwrap();
    assert_eq!((w.per_layer_model_projection.n, w.per_layer_model_projection.k), (48, 64));
    let mut untied = config();
    untied.tie_word_embeddings = false;
    assert_eq!(e4b_host_weights_from_loader(&untied).err(), Some(LoadError::UntiedHead));
    let mut flat = config();
    flat.hidden_size_per_layer_input = 0;
    assert_eq!(e4b_host_weights_from_loader(&flat).err(), Some(LoadError::NoPerLayerInput));
    assert!(embed_is_raw(&c, true, Some(&vec![32, 64])));
    assert!(!embed_is_raw(&c, false, Some(&vec![32, 64])));
    assert!(!embed_is_raw(&c, true, Some(&vec![32, 65])));
    assert!(!embed_is_raw(&c, true, None));
    assert!(embed_per_layer_is_raw(&c, true, Some(32 * 3 * 16)));
    assert!(!embed_per_layer_is_raw(&c, true, Some(32 * 3 * 15)));
}

fn site() -> E4bLoraSite {
    E4bLoraSite { a: vec![0; 2 * 4 * 8], b: vec![0; 12 * 4], widths: vec![8, 4], segs: vec![12], k: 8, rank: 4 }
}

#[test]
fn a_site_is_checked_in_order() {
    assert_eq!(site().validate(64), Ok(()));
    let mut s = site();
    s.widths = Vec::new();
    assert_eq!(s.validate(64), Err(LoraSiteError::NoSlices));
    let mut s = site();
    s.segs = Vec::new();
    assert_eq!(s.validate(64), Err(LoraSiteError::NoSegments));
    let mut s = site();
    s.segs = vec![10];
    assert_eq!(s.validate(64), Err(LoraSiteError::SegmentsDoNotCover));
    let mut s = site();
    s.rank = 0;
    assert_eq!(s.validate(64), Err(LoraSiteError::ZeroRankOrK));
    assert_eq!(site().validate(3), Err(LoraSiteError::RankExceedsKernel));
    let mut s = site();
    s.a.pop();
    assert_eq!(s.validate(64), Err(LoraSiteError::LengthOfA));
    let mut s = site();
    s.b.pop();
    assert_eq!(s.validate(64), Err(LoraSiteError::LengthOfB));
    let s = E4bLoraSite { a: vec![0; 2 * 4 * 7], b: vec![0; 48], widths: vec![8, 4], segs: vec![12], k: 7, rank: 4 };
    assert_eq!(s.validate(64), Err(LoraSiteError::OddK));
    let s = E4bLoraSite { a: vec![0; 64], b: vec![0; 48], widths: vec![7, 5], segs: vec![12], k: 8, rank: 4 };
    assert_eq!(s.validate(64), Err(LoraSiteError::OddWidth));
    assert_eq!((site().total_width(), site().pass_count()), (12, 3));
}

#[test]
fn a_single_application_is_checked_too() {
    assert_eq!(site().lora_site_probe(64, 16, &[24], 2), Ok(24));
    assert_eq!(site().lora_site_probe(64, 15, &[24], 2), Err(LoraProbeError::InputLength));
    assert_eq!(site().lora_site_probe(64, 16, &[], 2), Err(LoraProbeError::SegmentCount));
    assert_eq!(site().lora_site_probe(64, 16, &[23], 2), Err(LoraProbeError::SegmentLength(0)));
    assert_eq!(site().lora_site_probe(2, 16, &[24], 2), Err(LoraProbeError::Site(LoraSiteError::RankExceedsKernel)));
    assert_eq!(unpack_pairs(&[0x0002_0001, 0x0004_0003], 3), vec![1, 2, 3]);
    assert_eq!(pack_pairs(&[1, 2, 3, 0xffff]), vec![0x0002_0001, 0xffff_0003]);
    assert_eq!(unpack_pairs(&pack_pairs(&[7, 8, 9, 10]), 4), vec![7, 8, 9, 10]);
}

#[test]
fn adapter_tables_stand_one_behind_the_other() {
    let meta = LoraMeta {
        token_indices_sorted: vec![0, 1],
        num_tokens_per_lora: vec![2],
        lora_token_start_loc: vec![0, 2],
        active_lora_ids: vec![0],
        max_loras: 1,
        grid_loras: 1,
    };
    let t = build_lora_meta(&meta, &vec![8, 4], 4);
    assert_eq!((t.off_counts, t.off_start, t.off_active), (2, 3, 5));
    assert_eq!((t.off_slice_n, t.off_slice_start, t.off_b_off, t.off_b_d0), (6, 8, 10, 12));
    assert_eq!(&t.data[..6], &[0, 1, 2, 0, 2, 0]);
    assert_eq!(&t.data[6..10], &[8, 4, 0, 8]);
    // The second slice's rows begin after the eight rows of rank four of the first.
    assert_eq!(t.data[11], 32);
}

#[test]
fn adapters_are_cut_by_projection() {
    let c = config();
    let l = lora_slices(&c, 0).unwrap();
    assert_eq!(l.qkv.slices.iter().map(|s| s.width).collect::<Vec<_>>(), vec![128, 32, 32]);
    assert_eq!(l.qkv.slices[2].name, "model.language_model.layers.0.self_attn.v_proj");
    assert_eq!((l.gate_up.segs.clone(), l.down.k, l.o.k), (vec![256], 128, 128));
    let full = lora_slices(&c, 1).unwrap();
    assert_eq!(full.qkv.slices[2].name, "model.language_model.layers.1.self_attn.k_proj");
    assert_eq!(lora_slices(&c, 2).unwrap().qkv.slices.len(), 1);
    assert_eq!(all_slices(&c).unwrap().len(), 3);
}

fn slices() -> SiteSlices {
    SiteSlices {
        slices: vec![Slice { name: "a".to_string(), width: 4 }, Slice { name: "b".to_string(), width: 2 }],
        segs: vec![6],
        k: 2,
    }
}

fn missing() -> SliceData {
    SliceData { found: false, embedding: false, a: Vec::new(), b: Vec::new() }
}

#[test]
fn a_slice_without_an_adapter_is_zero() {
    let empty_slot = SliceData { found: false, embedding: false, a: vec![0; 2], b: vec![0; 2] };
    let data = vec![SliceData { found: true, embedding: false, a: vec![1, 2], b: vec![3, 4, 5, 6] }, empty_slot];
    let (site, n) = build_lora_site(1, 64, &slices(), &data).unwrap();
    let site = site.unwrap();
    assert_eq!(n, 1);
    assert_eq!(site.a, vec![1, 2, 0, 0]);
    assert_eq!(site.b, vec![3, 4, 5, 6, 0, 0]);
    let (none, n) = build_lora_site(1, 64, &slices(), &vec![missing(), missing()]).unwrap();
    assert!(none.is_none() && n == 0);
    let embedding = vec![missing(), SliceData { found: true, embedding: true, a: Vec::new(), b: Vec::new() }];
    assert_eq!(build_lora_site(1, 64, &slices(), &embedding).err(), Some(AdapterError::Embedding(1)));
    let short = vec![SliceData { found: true, embedding: false, a: vec![1], b: vec![3, 4, 5, 6] }, missing()];
    assert_eq!(
        build_lora_site(1, 64, &slices(), &short).err(),
        Some(AdapterError::Site(LoraSiteError::LengthOfA))
    );
}

fn no_data(n: usize) -> Vec<SliceData> {
    (0..n).map(|_| missing()).collect()
}

fn data_for(c: &Gemma4Config, i: usize) -> LayerData {
    let l = lora_slices(c, i).unwrap();
    LayerData {
        qkv: no_data(l.qkv.slices.len()),
        o: no_data(l.o.slices.len()),
        gate_up: no_data(l.gate_up.slices.len()),
        down: no_data(l.down.slices.len()),
    }
}

#[test]
fn an_adapter_matches_some_projection() {
    let c = config();
    let slices = all_slices(&c).unwrap();
    let mut data: Vec<LayerData> = (0..3).map(|i| data_for(&c, i)).collect();
    let names: Vec<String> = vec![
        "model.language_model.layers.0.mlp.down_proj".to_string(),
        "model.language_model.layers.2.self_attn.k_proj".to_string(),
        "model.vision_tower.layers.0.mlp.down_proj".to_string(),
    ];
    assert_eq!(E4bLora::from_adapter(&c, 2, 64, &names, &slices, &data).err(), Some(AdapterError::NothingMatched));
    assert_eq!(E4bLora::from_adapter(&c, 65, 64, &names, &slices, &data).err(), Some(AdapterError::Rank));
    assert_eq!(E4bLora::from_adapter(&c, 0, 64, &names, &slices, &data).err(), Some(AdapterError::Rank));
    data[0].down[0] = SliceData { found: true, embedding: false, a: vec![7; 2 * 128], b: vec![9; 64 * 2] };
    let l = E4bLora::from_adapter(&c, 2, 64, &names, &slices, &data).unwrap();
    assert_eq!((l.rank(), l.matched_modules(), l.layer_count()), (2, 1, 3));
    // The shared layer computes no keys, so its adapter has no place.
    assert_eq!(l.skipped_modules(), &["model.language_model.layers.2.self_attn.k_proj".to_string()]);
    assert!(l.layer(0).down.is_some() && l.layer(0).qkv.is_none());
    assert_eq!((l.layer_pass_count(0), l.layer_pass_count(1), l.total_pass_count()), (3, 0, 3));
    assert_eq!((lora_passes(Some(&l)), lora_passes(None)), (3, 0));
    assert_eq!(l.max_row_width(), 64);
}

#[test]
fn an_assembled_adapter_reports_its_layers() {
    let l = E4bLora::assemble(4, 2, Vec::new(), vec![E4bLoraLayer { qkv: Some(site()), o: None, gate_up: None, down: None }]);
    assert_eq!((l.rank(), l.matched_modules(), l.total_pass_count(), l.max_row_width()), (4, 2, 3, 12));
    let both = E4bLoraLayer { qkv: Some(site()), o: None, gate_up: Some(site()), down: None };
    let one = E4bLoraLayer { qkv: None, o: Some(site()), gate_up: None, down: None };
    let l = E4bLora::assemble(4, 3, Vec::new(), vec![both, one]);
    assert_eq!((l.layer_pass_count(0), l.layer_pass_count(1), l.total_pass_count()), (6, 3, 9));
}

#[test]
fn texts_are_searched_and_filled() {
    assert_eq!(decimal(1230), "1230");
    assert!(mentions("abcabc", "cab") && !mentions("abc", "cab") && mentions("x", ""));
    assert_eq!(count_of("aaaa", "aa"), 2);
    assert_eq!(replace_all("a-b-c", "-", "--"), "a--b--c");
    assert_eq!(replace_first("a-b-c", "-", "+"), "a+b-c");
    assert_eq!(fill_text("{X}{X}y", 'X', "ab"), "ababy");
    assert_eq!(fill_num("acc{t}", 't', 10), "acc10");
    assert!(starts_with("abc", "ab") && !starts_with("abc", "b") && ends_with("abc", "bc") && !ends_with("c", "bc"));
}

#[test]
fn pipelines_have_names_and_labels() {
    assert_eq!(pipeline_name(Pipe::Gather), Some("embed_gather"));
    assert_eq!(pass_label("gemv", 3, 2, 1), "gemv [3x2x1]");
    assert_eq!(sort_distinct(&vec![512, 64, 512, 256]), vec![64, 256, 512]);
    assert_eq!(fold_flash2("no such text", 32), None);
}

#[test]
fn caches_have_a_slot_to_a_position() {
    let c = config();
    // Keys and values take a byte to a number, scales a word to a head.
    assert_eq!(kv_layer_lens(&c, 10, 0), Some([80, 80, 20, 20]));
    assert_eq!(kv_layer_lens(&c, 10, 1), Some([320, 320, 40, 40]));
    assert_eq!(kv_layer_lens(&c, 10, 2), None);
    assert_eq!(kv_layer_lens(&c, 10, 3), None);
    assert_eq!(kv_layer_count(&c), 3);
    let fd = decode_fd(&c, LayerType::FullAttention, 16);
    assert_eq!((fd.n_heads, fd.n_kv, fd.head_dim, fd.splits), (8, 4, 32, 16));
    let fd = prefill_fd(&c, LayerType::SlidingAttention, 4);
    assert_eq!((fd.m_rows, fd.window), (4, 8));
    assert_eq!(lora_scratch_lens(12, 0), (12, None));
    let (_, rows) = lora_scratch_lens(12, 4);
    assert_eq!(rows, Some(48));
}

#[test]
fn work_buffers_are_sized_by_their_rows() {
    let cfg = EmitCfg {
        hidden: 64,
        inter: 128,
        eps: 0,
        n_q: 8,
        n_layers: 3,
        hpl: 16,
        ple_row: 48,
        max_seq: 10,
        embed_scale: 0,
        pli_sa: 0,
        pli_sb: 0,
    };
    let d = BufDims { m: 2, cfg, q_dim_max: 256, kv_dim_max: 128, hd_max: 32, splits: 16 };
    assert_eq!(d.alloc_bufs(Work::HidA), Some(64));
    assert_eq!(d.alloc_bufs(Work::PleRaw), Some(48));
    assert_eq!(d.alloc_bufs(Work::Qa), Some(256));
    assert_eq!(d.alloc_bufs(Work::QF32), Some(512));
    // A running maximum, a sum and the values, for each row, head and split.
    assert_eq!(d.alloc_bufs(Work::Scratch), Some(2 * 8 * 16 * 34));
}
