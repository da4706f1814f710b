//! The mixture-of-experts model: configuration, host weights, routing and prompts.
use nv_models::bf16::{first_widened, narrow_all, widen_all};
use nv_models::gguf::{gemma4_moe_config_from_gguf, GgufError, GgufFacts, GgufKey, SoftcapSetting};
use nv_models::moe_config::{ExpertFields, Gemma4MoeConfig, MoeConfigError};
use nv_models::moe_env::{
    embed_chunks, flash_decode_enabled, flash_sliding_enabled,
    flash_splits_grid_y_scratch_rows_and_stage1_stride_read_once_at_build as flash_splits, gemv_wide_enabled,
    grouped_gemv_enabled, kv_fp8_enabled, layer_kind_decode_labels_enabled,
    lmhead_i8_entry_off_until_real_checkpoint_quality_gate as lmhead_i8_entry, prefill_m, router_topk_entry, row_chunk,
    sliding_kv_ring_enabled, takes_eight_rows, w4_gemv_entry, I8Head, MoeEnvError,
};
use nv_models::moe_forward::{
    attention_mask, bucket_experts, cache_len, check_forward, flat_rows, has_shape, head_map, slot_token,
    ForwardError,
};
use nv_models::moe_host::{
    assemble_parts, compressed_tensors_nvfp4_parts, expert_name, expert_place, expert_source, host_layer_from_loader,
    part_name, takes_packed, CompressedTensorsRawBytes, CtError, CtPart, ExpertSource,
};
use nv_models::moe_ledger::{
    moe_weight_classes, per_token_weight_share,
    synthetic_state_bytes_0x30_to_0x3e_finite_small_under_fp8_bf16_and_f32_views_so_no_nan_and_moe_routing_stays_nondegenerate as state_bytes,
    vram_class, TokenShare, VramLedger, STAGING_FLUSH_BYTES,
};
use nv_models::moe_load::{head_name, load_layer, load_shared};
use nv_models::moe_quant::{dequantize_i8_row, dequantize_w4_expert, pack_i8, pack_w4, stack_w4_host, Code, HostI8Mat, HostW4Mat};
use nv_models::{Gemma4Config, KindDims, LayerType};

fn base() -> Gemma4Config {
    Gemma4Config {
        hidden_size: 64,
        intermediate_size: 128,
        vocab_size: 32,
        vocab_size_per_layer: 0,
        num_hidden_layers: 2,
        num_attention_heads: 8,
        sliding: KindDims { head_dim: 16, num_kv_heads: 4 },
        full: KindDims { head_dim: 32, num_kv_heads: 2 },
        hidden_size_per_layer_input: 0,
        sliding_window: 8,
        layer_types: vec![LayerType::SlidingAttention, LayerType::FullAttention],
        kv_sources: vec![None, None],
        attention_k_eq_v: true,
        tie_word_embeddings: true,
    }
}

fn config() -> Gemma4MoeConfig {
    Gemma4MoeConfig { base: base(), num_experts: 4, top_k_experts: 2, moe_intermediate_size: 32 }
}

#[test]
fn experts_are_read_from_the_text_part_first() {
    let nested = r#"{"num_experts": 9, "text_config": {"num_experts": 4, "top_k_experts": 2, "moe_intermediate_size": 32}}"#;
    let c = Gemma4MoeConfig::from_hf_json_str(base(), true, nested).unwrap();
    assert_eq!((c.num_experts, c.top_k_experts, c.moe_intermediate_size), (4, 2, 32));
    let flat = r#"{"num_experts": 4, "top_k_experts": 4, "moe_intermediate_size": 32}"#;
    assert_eq!(Gemma4MoeConfig::from_hf_json_str(base(), true, flat).unwrap().top_k_experts, 4);
    assert_eq!(Gemma4MoeConfig::from_hf_json_str(base(), false, flat).err(), Some(MoeConfigError::Disabled));
    assert_eq!(Gemma4MoeConfig::from_hf_json_str(base(), true, "{").err(), Some(MoeConfigError::NotJson));
    assert_eq!(Gemma4MoeConfig::from_hf_json_str(base(), true, "{}").err(), Some(MoeConfigError::NumExperts));
    let text = r#"{"num_experts": "4", "top_k_experts": 4, "moe_intermediate_size": 32}"#;
    assert_eq!(Gemma4MoeConfig::from_hf_json_str(base(), true, text).err(), Some(MoeConfigError::NumExperts));
}

#[test]
fn expert_counts_are_checked() {
    let f = |n, k, i| ExpertFields { num_experts: n, top_k_experts: k, moe_intermediate_size: i };
    assert!(Gemma4MoeConfig::with_experts(base(), &f(Some(4), Some(1), Some(8))).is_ok());
    assert_eq!(Gemma4MoeConfig::with_experts(base(), &f(None, Some(1), Some(8))).err(), Some(MoeConfigError::NumExperts));
    assert_eq!(Gemma4MoeConfig::with_experts(base(), &f(Some(4), None, Some(8))).err(), Some(MoeConfigError::TopK));
    assert_eq!(Gemma4MoeConfig::with_experts(base(), &f(Some(4), Some(1), None)).err(), Some(MoeConfigError::IntermediateSize));
    assert_eq!(Gemma4MoeConfig::with_experts(base(), &f(Some(4), Some(0), Some(8))).err(), Some(MoeConfigError::TopKRange));
    assert_eq!(Gemma4MoeConfig::with_experts(base(), &f(Some(4), Some(5), Some(8))).err(), Some(MoeConfigError::TopKRange));
}

#[test]
fn switches_take_anything_but_nothing_and_zero() {
    for f in [
        flash_decode_enabled as fn(Option<&str>) -> bool,
        sliding_kv_ring_enabled,
        grouped_gemv_enabled,
        kv_fp8_enabled,
        layer_kind_decode_labels_enabled,
    ] {
        assert!(!f(None) && !f(Some("")) && !f(Some(" 0 ")) && f(Some("1")) && f(Some("yes")));
    }
    assert!(flash_sliding_enabled(Some("1"), Some("1")));
    assert!(!flash_sliding_enabled(None, Some("1")) && !flash_sliding_enabled(Some("1"), None));
    assert_eq!((prefill_m(None, None), prefill_m(Some("1"), Some("32")), prefill_m(None, Some(" 32"))), (8, 0, 32));
    assert_eq!((prefill_m(Some("999"), None), prefill_m(Some("x"), None)), (64, 8));
    assert_eq!(flash_splits(None), Ok(16));
    assert_eq!(flash_splits(Some("256")), Ok(256));
    assert_eq!(flash_splits(Some("0")), Err(MoeEnvError::OutOfRange));
    assert_eq!(flash_splits(Some("257")), Err(MoeEnvError::OutOfRange));
    assert_eq!(flash_splits(Some("many")), Err(MoeEnvError::NotANumber));
    assert_eq!(lmhead_i8_entry(Some("0")), Ok(None));
    assert_eq!(lmhead_i8_entry(Some("1")), Ok(Some(I8Head::Plain)));
    assert_eq!(lmhead_i8_entry(Some("v4")), Ok(Some(I8Head::V4)));
    assert_eq!(lmhead_i8_entry(Some("2")), Err(MoeEnvError::NotAChoice));
    assert_eq!(I8Head::V4.entry(), "g4m_gemv_i8_v4");
}

#[test]
fn entries_depend_on_the_shape() {
    assert!(!gemv_wide_enabled(None, "g4m-oproj") && gemv_wide_enabled(Some("1"), "x"));
    assert!(gemv_wide_enabled(Some("qproj,oproj"), "g4m-oproj"));
    assert!(!gemv_wide_enabled(Some("qproj,,kproj"), "g4m-oproj"));
    assert_eq!(router_topk_entry(None, 256, 16), "g4m_router_topk_par");
    assert_eq!(router_topk_entry(None, 257, 16), "g4m_router_topk");
    assert_eq!(router_topk_entry(Some("serial"), 4, 2), "g4m_router_topk");
    assert_eq!(w4_gemv_entry(None, 32, 16), "g4m_gemv_w4_r8");
    assert_eq!(w4_gemv_entry(None, 33, 16), "g4m_gemv_w4");
    assert!(!takes_eight_rows(None, 4, 12) && !takes_eight_rows(Some("wide"), 4, 16));
}

#[test]
fn the_table_is_cut_into_even_pieces() {
    assert_eq!(row_chunk(Some("7"), 64, 1 << 20), 6);
    assert_eq!(row_chunk(None, 64, 1 << 20), (1 << 20) / 128);
    assert_eq!(row_chunk(None, 1 << 20, 0), 2);
    assert_eq!(embed_chunks(10, 4), vec![(0, 4), (4, 4), (8, 2)]);
    // A last odd row still has a piece.
    assert_eq!(embed_chunks(9, 4), vec![(0, 4), (4, 4), (8, 1)]);
    assert_eq!(embed_chunks(0, 4), Vec::new());
}

#[test]
fn codes_come_back_from_their_words() {
    let q: Vec<i8> = vec![-8, -1, 0, 7, 3, -5, 1, 2];
    let words = pack_w4(&q);
    assert_eq!(words, vec![0xa93b_f870]);
    let back: Vec<i8> = (0..8).map(|i| ((words[0] >> (4 * i)) & 15) as i8 - 8).collect();
    assert_eq!(back, q);
    assert_eq!(pack_i8(&vec![1, 2, 3, 0xff]), vec![0xff03_0201]);
}

fn mat(fill: u32, scale: u16) -> HostW4Mat {
    HostW4Mat { packed: vec![fill; 4], scales: vec![scale], n: 1, k: 32 }
}

#[test]
fn stacked_experts_are_found_again() {
    let stack = stack_w4_host(&[mat(0x1111_1111, 0x3f80), mat(0x9999_9999, 0x4000)]);
    assert_eq!((stack.e, stack.n, stack.k), (2, 1, 32));
    let first = dequantize_w4_expert(&stack, 0);
    assert_eq!(first, vec![Code { q: -7, scale: 0x3f80_0000 }; 32]);
    let second = dequantize_w4_expert(&stack, 1);
    let values: Vec<f32> = second.iter().map(|c| c.q as f32 * f32::from_bits(c.scale)).collect();
    assert_eq!(values, vec![2.0; 32]);
    let m = HostI8Mat { q: vec![0xff01_0203; 8], scales: vec![0x3f00], n: 1, k: 32 };
    let row = dequantize_i8_row(&m, 0);
    assert_eq!(&row[..4], &[(3, 0x3f00_0000), (2, 0x3f00_0000), (1, 0x3f00_0000), (0xff, 0x3f00_0000)]);
}

#[test]
fn sixteen_bits_round_to_the_nearest_even() {
    let values: Vec<u32> = [1.0f32, -2.5, 1.00390625, 1.01171875, 0.0].iter().map(|x| x.to_bits()).collect();
    // Halfway values go to the even neighbour: down to 1.0, up to 1.015625.
    assert_eq!(narrow_all(&values), vec![0x3f80, 0xc020, 0x3f80, 0x3f82, 0]);
    assert_eq!(narrow_all(&[f32::NAN.to_bits(), f32::INFINITY.to_bits(), f32::MAX.to_bits()]), vec![0x7fc0, 0x7f80, 0x7f80]);
    assert_eq!(widen_all(&[0x3f80, 0xc020, 0x7f81]), vec![0x3f80_0000, 0xc020_0000, 0x7fc1_0000]);
    assert_eq!(narrow_all(&widen_all(&[0x1234, 0x8001])), vec![0x1234, 0x8001]);
    assert_eq!(first_widened(&[0x4000, 1]), Some(2.0f32.to_bits()));
    assert_eq!(first_widened(&[]), None);
}

struct Parts;

impl CompressedTensorsRawBytes for Parts {
    fn raw_bytes_and_shape_because_tensor_source_get_has_no_f8e4m3_dtype(&self, name: &str) -> Option<(Vec<u8>, Vec<usize>)> {
        match name {
            "m.weight_packed" | "p.weight_packed" => Some((vec![7; 16], vec![2, 8])),
            "m.weight_scale" => Some((vec![9; 2], vec![2, 1])),
            "m.weight_global_scale" => Some((2.0f32.to_le_bytes().to_vec(), vec![1])),
            _ => None,
        }
    }
}

#[test]
fn packed_matrices_are_put_together_from_their_parts() {
    let p = compressed_tensors_nvfp4_parts(&Parts, "m", 16, 2, 16).unwrap();
    assert_eq!((p.packed, p.scales, p.global), (vec![7; 16], vec![9; 2], 2.0f32.to_bits()));
    assert_eq!(compressed_tensors_nvfp4_parts(&Parts, "m", 16, 2, 24).err(), Some(CtError::Columns));
    assert_eq!(compressed_tensors_nvfp4_parts(&Parts, "n", 16, 2, 16).err(), Some(CtError::Missing(CtPart::Packed)));
    assert_eq!(compressed_tensors_nvfp4_parts(&Parts, "m", 16, 4, 16).err(), Some(CtError::Shape(CtPart::Packed)));
    // Each part is asked for under its own name: only the scales are missing here.
    assert_eq!(compressed_tensors_nvfp4_parts(&Parts, "p", 16, 2, 16).err(), Some(CtError::Missing(CtPart::Scale)));
    let packed = Some((vec![0; 16], vec![2, 8]));
    let scale = Some((vec![0; 2], vec![2, 1]));
    assert_eq!(assemble_parts(packed.clone(), None, None, 16, 2, 16).err(), Some(CtError::Missing(CtPart::Scale)));
    assert_eq!(
        assemble_parts(packed, scale, Some((vec![0; 3], vec![1])), 16, 2, 16).err(),
        Some(CtError::Length(CtPart::Global))
    );
    assert_eq!(part_name("m", CtPart::Scale), "m.weight_scale");
    assert!(takes_packed(false, true) && !takes_packed(true, true) && !takes_packed(false, false));
}

#[test]
fn a_layer_lists_its_tensors() {
    let w = host_layer_from_loader(&config(), 1);
    assert_eq!((w.q.n, w.q.k, w.k.n), (256, 64, 64));
    assert!(w.v.is_none());
    assert_eq!(w.router.name, "model.language_model.layers.1.router.proj.weight");
    assert!(host_layer_from_loader(&config(), 0).v.is_some());
    let names = load_layer(&config(), 0);
    assert_eq!(names.len(), 22);
    assert_eq!(names[7].name, "model.language_model.layers.0.layer_scalar");
    assert_eq!(names[7].dims, vec![1]);
    assert_eq!(names[20].dims, vec![4, 64, 64]);
    assert_eq!(load_layer(&config(), 1).len(), 21);
    assert_eq!(load_shared(&base())[0].dims, vec![32, 64]);
    assert_eq!(head_name(true), "model.language_model.embed_tokens.weight");
    assert_eq!(head_name(false), "lm_head.weight");
}

#[test]
fn experts_stand_in_one_tensor_or_one_by_one() {
    assert!(matches!(expert_source(0, false, true), ExpertSource::PerExpert));
    assert!(matches!(expert_source(0, true, true), ExpertSource::Fused { .. }));
    assert!(matches!(expert_source(0, false, false), ExpertSource::Fused { .. }));
    assert!(expert_name(3, 17, "gate_proj").contains("layers.3.") && expert_name(3, 17, "gate_proj").contains(".17."));
    let a = expert_place(1, 4, 3, 5);
    assert_eq!((a.gate, a.up, a.down, a.size), (30, 45, 15, 15));
    // The next expert follows without a gap.
    assert_eq!(expert_place(2, 4, 3, 5).gate, a.up + a.size);
}

#[test]
fn the_ledger_sums_by_class() {
    assert_eq!(vram_class("g4m-moe-eg"), "moe-eg");
    assert_eq!(vram_class("other"), "other");
    let mut l = VramLedger::new();
    l.record("g4m-b", 10);
    l.record("g4m-a", 30);
    l.record("g4m-b", 25);
    assert_eq!((l.buffers, l.total, l.entries.len()), (3, 65, 2));
    let order: Vec<(String, usize, u64)> =
        l.report().into_iter().map(|i| (l.entries[i].class.clone(), l.entries[i].count, l.entries[i].bytes)).collect();
    assert_eq!(order, vec![("b".to_string(), 2, 35), ("a".to_string(), 1, 30)]);
    assert!(!l.flush_staging_if_due(true));
    l.record("g4m-c", STAGING_FLUSH_BYTES);
    assert!(!l.flush_staging_if_due(false) && l.flush_staging_if_due(true));
    assert_eq!(l.since_flush, 0);
    assert_eq!(per_token_weight_share("moe-ed-sf"), TokenShare::Experts);
    assert_eq!(per_token_weight_share("embed"), TokenShare::Whole);
    assert_eq!(per_token_weight_share("kv-k"), TokenShare::Nothing);
    assert_eq!(moe_weight_classes().len(), 25);
}

#[test]
fn synthetic_state_stays_small() {
    let b = state_bytes(4096);
    assert!(b.iter().all(|x| (0x30..=0x3e).contains(x)));
    assert!(b.iter().any(|x| *x != b[0]));
}

#[test]
fn tokens_are_bucketed_by_expert() {
    // Two experts to a token.
    assert_eq!(bucket_experts(&[1, 3, 3, 0], 4), Some(vec![vec![3], vec![0], vec![], vec![1, 2]]));
    assert_eq!(bucket_experts(&[4], 4), None);
    assert_eq!([0, 1, 2, 3].map(|s| slot_token(s, 2)), [0, 0, 1, 1]);
}

#[test]
fn attention_sees_back_and_not_ahead() {
    // Two queries at 3 and 4, five stored keys.
    let m = attention_mask(2, 5, 3, 5, None);
    assert_eq!(m, vec![true, true, true, true, false, true, true, true, true, true]);
    let w = attention_mask(2, 5, 3, 5, Some(2));
    assert_eq!(w, vec![false, false, true, true, false, false, false, false, true, true]);
    assert_eq!(head_map(8, 2), vec![0, 0, 0, 0, 1, 1, 1, 1]);
}

#[test]
fn forward_checks_its_shapes() {
    assert_eq!(flat_rows(&vec![2, 3, 64], 64), Ok(6));
    assert_eq!(flat_rows(&vec![2, 3, 63], 64), Err(ForwardError::LastDim));
    assert!(has_shape(&vec![1, 2], &vec![1, 2]) && !has_shape(&vec![1], &vec![1, 2]));
    assert_eq!(check_forward(&vec![1, 5], &vec![5], None, 64), Ok(5));
    assert_eq!(check_forward(&vec![2, 5], &vec![5], None, 64), Err(ForwardError::Tokens));
    assert_eq!(check_forward(&vec![1, 5], &vec![4], None, 64), Err(ForwardError::Positions));
    assert_eq!(check_forward(&vec![1, 5], &vec![5], Some(&vec![5, 63]), 64), Err(ForwardError::Embeds));
    assert_eq!(cache_len(&[1, 2, 3], &[4, 5, 6]), Ok(7));
    assert_eq!(cache_len(&[1, 2], &[4]), Err(ForwardError::Lengths));
    assert_eq!(cache_len(&[], &[]), Err(ForwardError::Lengths));
}

fn facts() -> GgufFacts {
    GgufFacts {
        arch: Some("gemma4".to_string()),
        block_count: Some(3),
        hidden: Some(64),
        ffn: Some(128),
        n_head: Some(8),
        kv_list: Some(vec![4, 4, 2]),
        kv_one: None,
        key_length_swa: Some(16),
        key_length: Some(32),
        context_length: Some(1000),
        rms_eps: Some(1e-6f64.to_bits()),
        sliding_window: Some(8),
        softcap: Some(30.0f64.to_bits()),
        softcap_setting: SoftcapSetting::Unset,
        freq_base: Some(1e6f64.to_bits()),
        freq_base_swa: Some(1e4f64.to_bits()),
        rope_dims: None,
        pattern: Some(vec![true, true, false]),
        expert_count: Some(4),
        expert_used: Some(2),
        expert_ffn: Some(32),
        token_embd: Some(vec![500, 64]),
        has_output: false,
    }
}

#[test]
fn a_file_describes_its_model() {
    let c = gemma4_moe_config_from_gguf(&facts()).unwrap();
    assert_eq!((c.num_key_value_heads, c.num_global_key_value_heads), (4, 2));
    assert_eq!((c.head_dim, c.global_head_dim, c.vocab_size, c.rope_dims), (16, 32, 500, 32));
    assert_eq!(
        c.layer_types,
        vec![LayerType::SlidingAttention, LayerType::SlidingAttention, LayerType::FullAttention]
    );
    assert!(c.tie_word_embeddings && c.attention_k_eq_v);
    assert_eq!(f64::from_bits(c.final_logit_softcapping), 30.0);
    let mut f = facts();
    f.kv_list = None;
    f.kv_one = Some(2);
    f.softcap = None;
    f.softcap_setting = SoftcapSetting::Value(15.0f64.to_bits());
    f.has_output = true;
    let c = gemma4_moe_config_from_gguf(&f).unwrap();
    assert_eq!((c.num_key_value_heads, c.num_global_key_value_heads), (2, 2));
    assert_eq!(f64::from_bits(c.final_logit_softcapping), 15.0);
    assert!(!c.tie_word_embeddings);
}

#[test]
fn a_file_that_lacks_an_entry_is_refused() {
    let refused = |change: fn(&mut GgufFacts)| {
        let mut f = facts();
        change(&mut f);
        gemma4_moe_config_from_gguf(&f).err()
    };
    assert_eq!(refused(|f| f.arch = None), Some(GgufError::Missing(GgufKey::Architecture)));
    assert_eq!(refused(|f| f.arch = Some("llama".to_string())), Some(GgufError::NotGemma4));
    assert_eq!(refused(|f| f.kv_list = None), Some(GgufError::Missing(GgufKey::HeadCountKv)));
    assert_eq!(refused(|f| f.kv_list = Some(vec![])), Some(GgufError::EmptyHeadCountKv));
    assert_eq!(refused(|f| f.softcap = None), Some(GgufError::NoSoftcap));
    assert_eq!(
        refused(|f| {
            f.softcap = None;
            f.softcap_setting = SoftcapSetting::NotANumber;
        }),
        Some(GgufError::SoftcapNotANumber)
    );
    assert_eq!(refused(|f| f.pattern = Some(vec![true])), Some(GgufError::PatternLength));
    assert_eq!(refused(|f| f.token_embd = Some(vec![])), Some(GgufError::Missing(GgufKey::TokenEmbedding)));
    assert_eq!(refused(|f| f.expert_ffn = None), Some(GgufError::Missing(GgufKey::ExpertFeedForwardLength)));
    assert_eq!(GgufKey::HeadCountKv.name(), "gemma4.attention.head_count_kv");
}

#[test]
fn a_token_reads_a_share_of_the_experts_and_all_other_weights() {
    let mut l = VramLedger::new();
    for (label, bytes) in
        [("g4m-moe-eg", 100), ("g4m-moe-ed-sf", 20), ("g4m-embed", 7), ("g4m-at-qw", 3), ("g4m-at-kc", 1000)]
    {
        l.record(label, bytes);
    }
    assert_eq!(l.weight_bytes_per_token(), Some((120, 10)));
    assert_eq!(VramLedger::new().weight_bytes_per_token(), Some((0, 0)));
}
