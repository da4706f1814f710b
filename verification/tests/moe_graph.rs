//! The mixture-of-experts graph and its sessions.
use nv_models::moe_config::Gemma4MoeConfig;
use nv_models::moe_emit::{MoeFactors, MoeSwitches};
use nv_models::moe_env::I8Head;
use nv_models::moe_graph::{MoeError, MoeStart};
use nv_models::moe_ir::{LayerBuf, MoeArg, MoeBuf, PfBuf};
use nv_models::moe_ledger::{dense_gemv_wide_counts, pass_rows, passes_labelled};
use nv_models::moe_prompt::{check_splices, EmbedRowSplice};
use nv_models::moe_session::{pad_tokens, ChunkRow, Gemma4MoeWgpu, MoeSessionError, WarmUp};
use nv_models::moe_sizes::zeros;
use nv_models::{Gemma4Config, KindDims, LayerType};

fn config() -> Gemma4MoeConfig {
    Gemma4MoeConfig {
        base: Gemma4Config {
            hidden_size: 64,
            intermediate_size: 128,
            vocab_size: 40,
            vocab_size_per_layer: 0,
            num_hidden_layers: 3,
            num_attention_heads: 4,
            sliding: KindDims { head_dim: 16, num_kv_heads: 2 },
            full: KindDims { head_dim: 32, num_kv_heads: 1 },
            hidden_size_per_layer_input: 0,
            sliding_window: 8,
            layer_types: vec![LayerType::SlidingAttention, LayerType::SlidingAttention, LayerType::FullAttention],
            kv_sources: vec![None, None, None],
            attention_k_eq_v: false,
            tie_word_embeddings: true,
        },
        num_experts: 4,
        top_k_experts: 2,
        moe_intermediate_size: 64,
    }
}

fn switches() -> MoeSwitches<'static> {
    MoeSwitches {
        grouped: false,
        fp8: false,
        kind_labels: false,
        flash_full: false,
        flash_sliding: false,
        splits: 16,
        wide: None,
        topk: None,
        w4: None,
        i8_head: None,
    }
}

fn start<'a>(config: &'a Gemma4MoeConfig, scalars: &'a Vec<u32>, sw: MoeSwitches<'a>) -> MoeStart<'a> {
    MoeStart {
        config,
        max_seq: 32,
        prefill_m: 4,
        ring: None,
        f: MoeFactors {
            eps: 1e-6f32.to_bits(),
            router_alpha: 0.125f32.to_bits(),
            embed_scale: 8.0f32.to_bits(),
            cap: 30.0f32.to_bits(),
            inv_cap: (1.0f32 / 30.0).to_bits(),
            capped: true,
        },
        sw,
        chunk_rows: 16,
        verify_max: 3,
        theta_sliding: 1e4f32.to_bits(),
        theta_full: 1e6f32.to_bits(),
        partial_sliding: 1.0f32.to_bits(),
        partial_full: 0.25f32.to_bits(),
        scalars,
        flash_device: true,
    }
}

#[test]
fn a_graph_embeds_runs_its_layers_and_ends_in_a_token() {
    let (c, s) = (config(), vec![0x3f80_0000; 3]);
    let g = start(&c, &s, switches()).build().unwrap();
    // Forty rows in pieces of sixteen.
    assert_eq!(g.chunks.iter().map(|c| (c.row_off, c.n_rows)).collect::<Vec<_>>(), vec![(0, 16), (16, 16), (32, 8)]);
    assert_eq!(g.m, 4);
    assert!(g.head_start < g.decode.len());
    let last = &g.decode.passes[g.decode.len() - 1];
    assert!(last.binds.iter().any(|b| b.arg == MoeArg::Buf(MoeBuf::TokenOut)));
    // Every layer writes its own cache.
    for li in 0..3 {
        for part in [LayerBuf::Kc, LayerBuf::Vc] {
            assert!(g.decode.passes.iter().any(|p| p.binds.iter().any(|b| b.arg == MoeArg::Buf(MoeBuf::Layer(li, part)))));
        }
    }
    let (rows, list) = g.verify.as_ref().unwrap();
    assert_eq!(*rows, 3);
    assert!(list.passes.iter().any(|p| p.binds.iter().any(|b| b.arg == MoeArg::Buf(MoeBuf::VerifyTokens))));
    assert!(g.prefill.passes.iter().any(|p| p.binds.iter().any(|b| b.arg == MoeArg::Buf(MoeBuf::Pf(PfBuf::SpliceRows)))));
    // Layers of the same kind run the same passes.
    let labels: Vec<&str> = g.decode.passes[3..g.head_start - 1].iter().map(|p| p.label).collect();
    assert_eq!(labels.len() % 3, 0);
    let n = labels.len() / 3;
    assert_eq!(labels[..n], labels[n..2 * n]);
}

#[test]
fn verify_needs_chunks_and_the_plain_head() {
    let (c, s) = (config(), vec![0; 3]);
    let mut sw = switches();
    sw.i8_head = Some(I8Head::Plain);
    assert!(start(&c, &s, sw).build().unwrap().verify.is_none());
    let mut st = start(&c, &s, switches());
    st.prefill_m = 33;
    let g = st.build().unwrap();
    assert_eq!((g.m, g.prefill.len(), g.verify.is_none()), (0, 0, true));
}

#[test]
fn a_model_that_the_kernels_cannot_hold_is_refused() {
    let s = vec![0; 3];
    let refused = |change: fn(&mut Gemma4MoeConfig)| {
        let mut c = config();
        change(&mut c);
        start(&c, &s, switches()).build().err()
    };
    assert_eq!(refused(|c| c.base.hidden_size = 96), Some(MoeError::HiddenSize));
    assert_eq!(refused(|c| c.moe_intermediate_size = 32), Some(MoeError::MoeIntermediateSize));
    assert_eq!(refused(|c| c.num_experts = 257), Some(MoeError::TooManyExperts));
    assert_eq!(refused(|c| c.top_k_experts = 17), Some(MoeError::TooManyTopK));
    assert_eq!(refused(|c| c.base.sliding.head_dim = 15), Some(MoeError::HeadDim(LayerType::SlidingAttention)));
    assert_eq!(refused(|c| c.base.full.head_dim = 514), Some(MoeError::HeadDim(LayerType::FullAttention)));
    assert_eq!(refused(|c| c.base.sliding.num_kv_heads = 3), Some(MoeError::HeadGroups(LayerType::SlidingAttention)));
    assert_eq!(refused(|c| c.base.full.num_kv_heads = 0), Some(MoeError::HeadGroups(LayerType::FullAttention)));
    assert_eq!(refused(|c| c.base.intermediate_size = 127), Some(MoeError::OddSizes));
    assert_eq!(refused(|c| c.base.tie_word_embeddings = false), Some(MoeError::UntiedHead));
    let c = config();
    let mut st = start(&c, &s, switches());
    st.max_seq = 0;
    assert_eq!(st.build().err(), Some(MoeError::MaxSeq));
    let mut sw = switches();
    sw.flash_full = true;
    let mut st = start(&c, &s, sw);
    st.flash_device = false;
    assert_eq!(st.build().err(), Some(MoeError::FlashDevice(2)));
    let mut wide = config();
    wide.base.hidden_size = 8192;
    let mut sw = switches();
    sw.grouped = true;
    assert_eq!(start(&wide, &s, sw).build().err(), Some(MoeError::GroupedTooWide));
    let mut odd = config();
    odd.base.sliding.head_dim = 18;
    let mut sw = switches();
    sw.fp8 = true;
    assert_eq!(start(&odd, &s, sw).build().err(), Some(MoeError::Fp8HeadDim(0)));
}

#[test]
fn wide_loads_are_counted_by_pass() {
    let (c, s) = (config(), vec![0; 3]);
    let plain = start(&c, &s, switches()).build().unwrap();
    assert_eq!(plain.prefill_pass_count(), plain.prefill.passes.len());
    let (wide, narrow) = dense_gemv_wide_counts(&plain.decode.passes);
    assert!(wide == 0 && narrow > 0);
    let mut sw = switches();
    sw.wide = Some("1");
    let g = start(&c, &s, sw).build().unwrap();
    let (wide_now, narrow_now) = dense_gemv_wide_counts(&g.decode.passes);
    assert!(wide_now > 0);
    assert_eq!(wide_now + narrow_now, narrow);
    let label = plain.decode.passes[5].label;
    assert!(passes_labelled(&plain.decode.passes, label).contains(&5));
    let sizes: Vec<Vec<u64>> = plain.decode.passes.iter().map(|p| vec![16; p.binds.len()]).collect();
    let rows = pass_rows(&plain.decode.passes, &sizes);
    assert_eq!(rows[5].bind_bytes, 16 * plain.decode.passes[5].binds.len() as u64);
    assert_eq!(rows.len(), plain.decode.passes.len());
    assert_eq!((rows[5].label, rows[5].entry), (label, plain.decode.passes[5].entry));
    assert_eq!(passes_labelled(&plain.decode.passes, "no such pass"), Vec::<usize>::new());
}

fn session() -> Gemma4MoeWgpu {
    let (c, s) = (config(), vec![0; 3]);
    let mut sw = switches();
    sw.flash_full = true;
    sw.flash_sliding = true;
    let mut st = start(&c, &s, sw);
    st.ring = Some(12);
    Gemma4MoeWgpu::from_loader(&st).unwrap().0
}

#[test]
fn a_session_begins_empty() {
    let s = session();
    assert_eq!((s.current_pos(), s.max_seq(), s.prefill_chunk_len(), s.verify_max_rows()), (0, 32, 4, 3));
    let f = s.flash_full.unwrap();
    assert_eq!((f.n_heads, f.n_kv, f.head_dim, f.splits, f.ring, f.scale), (4, 1, 32, 16, 0, 0x3f80_0000));
    assert_eq!(s.flash_sliding.unwrap().ring, 12);
    let (c, scalars) = (config(), vec![0; 3]);
    let mut st = start(&c, &scalars, switches());
    // A ring no shorter than the cache is none.
    st.ring = Some(32);
    let (s, g) = Gemma4MoeWgpu::from_loader(&st).unwrap();
    assert!(s.flash_full.is_none() && s.flash_sliding.is_none());
    assert_eq!(s.pass_count(), g.decode.len());
}

#[test]
fn a_warmed_up_session_is_validated_and_empty() {
    let mut s = session();
    assert_eq!(s.warm_up(), vec![WarmUp::Chunk(4), WarmUp::Step]);
    assert!(s.prefill_chunk(&[0; 4]).unwrap().validate);
    assert_eq!(s.warm_up_done(WarmUp::Chunk(4), false), Err(MoeSessionError::Validation));
    assert!(!s.prefill.unwrap().validated);
    s.warm_up_done(WarmUp::Chunk(4), true).unwrap();
    assert!(s.prefill.unwrap().validated && !s.validated);
    assert!(s.step_inner(0, true).unwrap().validate);
    s.warm_up_done(WarmUp::Step, true).unwrap();
    assert_eq!((s.current_pos(), s.validated, s.prefix_validated), (0, true, true));
    assert!(!s.step_inner(0, true).unwrap().validate);
    // A chunk that does not fit the caches is left out.
    s.max_seq = 3;
    assert_eq!(s.warm_up(), vec![WarmUp::Step]);
}

#[test]
fn a_step_says_how_far_attention_reaches() {
    let mut s = session();
    s.advance(20).unwrap();
    let step = s.step_inner(7, true).unwrap();
    assert_eq!((step.token, step.pos, step.passes), (7, 20, s.passes));
    assert_eq!((step.flash_full.unwrap().total, step.flash_full.unwrap().start), (21, 0));
    // Eight positions of twenty-one.
    assert_eq!((step.flash_sliding.unwrap().total, step.flash_sliding.unwrap().start), (21, 13));
    assert_eq!(s.step_inner(7, false).unwrap().passes, s.head_start);
    assert_eq!(s.step_inner(40, true).err(), Some(MoeSessionError::OutOfVocab(40)));
    s.advance(12).unwrap();
    assert_eq!(s.step_inner(7, true).err(), Some(MoeSessionError::CacheFull));
    assert_eq!(s.advance(1).err(), Some(MoeSessionError::PastMaxSeq));
    assert_eq!(s.truncate_to(33).err(), Some(MoeSessionError::BeyondPos));
    s.truncate_to(5).unwrap();
    assert_eq!(s.current_pos(), 5);
    s.reset();
    assert_eq!(s.current_pos(), 0);
}

#[test]
fn first_submissions_are_validated() {
    let mut s = session();
    assert!(s.step_inner(1, false).unwrap().validate);
    assert_eq!(s.step_done(false, true, false).err(), Some(MoeSessionError::Validation));
    assert_eq!(s.current_pos(), 0);
    s.step_done(false, true, true).unwrap();
    // The passes before the head are known to be good, the whole list is not.
    assert!(!s.step_inner(1, false).unwrap().validate);
    assert!(s.step_inner(1, true).unwrap().validate);
    s.step_done(true, true, true).unwrap();
    assert!(!s.step_inner(1, true).unwrap().validate);
}

#[test]
fn chunks_and_batches_are_checked() {
    let mut s = session();
    let c = s.prefill_chunk(&[1, 2, 3, 4]).unwrap();
    assert_eq!((c.ids, c.positions, c.live), (vec![1, 2, 3, 4], vec![0, 1, 2, 3], 4));
    assert!(c.mask.is_none() && c.validate);
    s.prefill_done(4, true, true).unwrap();
    assert_eq!(s.current_pos(), 4);
    assert_eq!(s.prefill_chunk(&[1, 2, 3]).err(), Some(MoeSessionError::ChunkLength));
    assert_eq!(s.prefill_chunk(&[1, 2, 3, 40]).err(), Some(MoeSessionError::OutOfVocab(40)));
    let (b, _) = s.verify_chain(&[5, 6]).unwrap();
    assert_eq!(b.ids.len(), 4);
    assert_eq!(s.verify_chain(&[]).err(), Some(MoeSessionError::BatchLength));
    assert_eq!(s.verify_chain(&[1, 2, 3, 4]).err(), Some(MoeSessionError::BatchLength));
    s.verify_done(true, true).unwrap();
    assert_eq!(s.current_pos(), 4);
    assert_eq!(s.verify_row_logits(2), Ok((80, 120)));
    assert_eq!(s.verify_row_logits(3), Err(MoeSessionError::RowRange));
}

#[test]
fn spliced_rows_are_masked() {
    let mut s = session();
    let row = ChunkRow { rel_pos: 2, splice: 0, word: 0, words: 32 };
    let c = s.write_prefill_inputs(&[1, 2, 3, 4], 4, &vec![row]).unwrap();
    assert_eq!(c.mask, Some(vec![0, 0, 1, 0]));
    // The mask is cleared again by the next chunk, and only then left alone.
    s.prefill_done(4, false, true).unwrap();
    let c = s.write_prefill_inputs(&[1, 2, 3, 4], 4, &Vec::new()).unwrap();
    assert_eq!(c.mask, Some(vec![0, 0, 0, 0]));
    let c = s.write_prefill_inputs(&[1, 2, 3, 4], 4, &Vec::new()).unwrap();
    assert_eq!(c.mask, None);
    let late = ChunkRow { rel_pos: 3, splice: 5, word: 0, words: 32 };
    assert_eq!(s.write_prefill_inputs(&[1, 2, 3, 4], 3, &vec![late]).err(), Some(MoeSessionError::SplicePast(0)));
    let short = ChunkRow { rel_pos: 1, splice: 5, word: 0, words: 31 };
    assert_eq!(s.write_prefill_inputs(&[1, 2, 3, 4], 4, &vec![short]).err(), Some(MoeSessionError::SpliceWords(0)));
    assert_eq!(s.write_prefill_inputs(&[1, 2, 3, 4], 5, &Vec::new()).err(), Some(MoeSessionError::LiveRows));
}

fn splice(position: usize, rows: usize) -> EmbedRowSplice {
    EmbedRowSplice { position, rows_bf16: vec![0; rows * 64] }
}

#[test]
fn splices_follow_each_other() {
    assert_eq!(check_splices(&[splice(1, 2), splice(3, 1)], 64, 4), Ok(()));
    assert_eq!(check_splices(&[splice(1, 2), splice(2, 1)], 64, 4), Err(MoeSessionError::SpliceOrder(1)));
    assert_eq!(check_splices(&[splice(1, 4)], 64, 4), Err(MoeSessionError::SpliceEnd(0)));
    assert_eq!(check_splices(&[splice(1, 0)], 64, 4), Err(MoeSessionError::SpliceRows(0)));
    let ragged = EmbedRowSplice { position: 0, rows_bf16: vec![0; 65] };
    assert_eq!(check_splices(&[ragged], 64, 4), Err(MoeSessionError::SpliceRows(0)));
}

#[test]
fn a_prompt_with_rows_is_cut_into_chunks() {
    let s = session();
    let tokens = [1, 2, 3, 4, 5, 6];
    let splices = [splice(3, 2)];
    let c = s.prefill_tokens_with_embed_rows(&tokens, &splices, 64, 0).unwrap().unwrap();
    assert_eq!((c.tokens, c.live), (vec![1, 2, 3, 4], 4));
    assert_eq!(c.rows, vec![ChunkRow { rel_pos: 3, splice: 0, word: 0, words: 32 }]);
    let c = s.prefill_tokens_with_embed_rows(&tokens, &splices, 64, 4).unwrap().unwrap();
    assert_eq!((c.tokens.len(), c.live), (4, 2));
    assert_eq!(c.rows, vec![ChunkRow { rel_pos: 0, splice: 0, word: 32, words: 32 }]);
    assert!(s.prefill_tokens_with_embed_rows(&tokens, &splices, 64, 6).unwrap().is_none());
    assert_eq!(s.prefill(&[]).err(), Some(MoeSessionError::EmptyPrompt));
    assert_eq!(pad_tokens(&[1, 2, 3], 1, 4), vec![2, 3, 3, 3]);
}

#[test]
fn sizes_that_do_not_fit_are_none() {
    // Whole vectors of sixteen bytes.
    assert_eq!(zeros((2, 3, 4, 1)), Some(32));
    assert_eq!(zeros((usize::MAX, 2, 1, 1)), None);
}

#[test]
fn buffers_have_the_sizes_of_what_they_hold() {
    let (c, s) = (config(), vec![0; 3]);
    let plain = start(&c, &s, switches());
    plain.check().unwrap();
    let bytes = |st: &MoeStart, b: MoeBuf| st.buffer_of(b).map(|(label, f)| (label, zeros(f).unwrap()));
    // A decode row, a prefill row for each of four tokens, and the scores of a whole cache.
    assert_eq!(bytes(&plain, MoeBuf::ResA), Some(("g4m-res-a", 128)));
    assert_eq!(bytes(&plain, MoeBuf::Pf(PfBuf::ResA)), Some(("g4m-pf-res-a", 512)));
    assert_eq!(bytes(&plain, MoeBuf::Pf(PfBuf::Scores)), Some(("g4m-pf-scores", 4 * 4 * 32 * 4)));
    // Prefill rows are as wide as the wider kind of layer needs.
    assert_eq!(bytes(&plain, MoeBuf::Pf(PfBuf::K)), Some(("g4m-pf-k", 4 * 2 * 32 * 2)));
    assert_eq!(bytes(&plain, MoeBuf::TokenOut), Some(("g4m-token", 16)));
    assert_eq!(bytes(&plain, MoeBuf::VerifyTokens), Some(("g4m-verify-tokens", 16)));
    assert_eq!(bytes(&plain, MoeBuf::Layer(0, LayerBuf::Kc)), Some(("g4m-at-kc", 32 * 2 * 16 * 2)));
    assert_eq!(bytes(&plain, MoeBuf::Layer(2, LayerBuf::Vc)), Some(("g4m-at-vc", 32 * 32 * 2)));
    assert_eq!(bytes(&plain, MoeBuf::Layer(0, LayerBuf::Qw)), None);
    assert_eq!(bytes(&plain, MoeBuf::Layer(3, LayerBuf::Kc)), None);
    assert_eq!(bytes(&plain, MoeBuf::FinalLn), None);
    // A ring keeps fewer rows for sliding layers, and a byte holds a cached value in eight bits.
    let mut sw = switches();
    sw.fp8 = true;
    let mut ringed = start(&c, &s, sw);
    ringed.ring = Some(12);
    ringed.check().unwrap();
    assert_eq!(bytes(&ringed, MoeBuf::Layer(0, LayerBuf::Kc)), Some(("g4m-at-kc", 12 * 2 * 16)));
    assert_eq!(bytes(&ringed, MoeBuf::Layer(2, LayerBuf::Kc)), Some(("g4m-at-kc", 32 * 32)));
    assert_eq!(
        ringed.state_of_layer(0),
        Some(vec![
            (LayerBuf::Kc, 12 * 2 * 16),
            (LayerBuf::Vc, 12 * 2 * 16),
            (LayerBuf::Ksc, 12 * 2 * 4),
            (LayerBuf::Vsc, 12 * 2 * 4),
        ])
    );
    assert_eq!(plain.state_of_layer(2), Some(vec![(LayerBuf::Kc, 2048), (LayerBuf::Vc, 2048)]));
}

#[test]
fn a_replicated_step_runs_the_passes_of_a_label_again() {
    let (c, scalars) = (config(), vec![0; 3]);
    let (mut s, g) = Gemma4MoeWgpu::from_loader(&start(&c, &scalars, switches())).unwrap();
    let passes = &g.decode.passes;
    let label = passes[5].label;
    let found = passes_labelled(passes, label);
    let (plan, run) = s.decode_step_replicated(passes, 7, Some(label), 2).unwrap();
    let all: Vec<usize> = (0..passes.len()).collect();
    assert_eq!(run, [all.clone(), found.clone(), found].concat());
    assert_eq!((plan.token, plan.pos, plan.validate), (7, 0, false));
    // The step is done as it is planned, and counts for no validation.
    assert_eq!((s.current_pos(), s.validated, s.prefix_validated), (1, false, false));
    let (_, run) = s.decode_step_replicated(passes, 7, None, 2).unwrap();
    assert_eq!(run, all);
    assert_eq!(s.decode_step_replicated(passes, 7, Some("none"), 2).err(), Some(MoeSessionError::NoSuchPass));
    assert_eq!(s.decode_step_replicated(passes, 40, None, 0).err(), Some(MoeSessionError::OutOfVocab(40)));
    assert_eq!(s.current_pos(), 2);
}

#[test]
fn a_session_can_be_placed_for_timing() {
    let mut m = session();
    let name = Gemma4MoeWgpu::fill_state_buffers_with_finite_synthetic_bytes_and_set_pos_for_depth_timing_decode_reads_kv_size_not_values;
    assert_eq!(name(&mut m, 7), Ok(()));
    assert_eq!(m.current_pos(), 7);
    let past = m.max_seq() + 1;
    assert_eq!(name(&mut m, past), Err(MoeSessionError::PastMaxSeq));
    assert_eq!(m.current_pos(), 7);
}

#[test]
fn every_layer_writes_its_cache_once() {
    let (c, scalars) = (config(), vec![0; 3]);
    let written = |sw: MoeSwitches<'static>, prefill: bool| -> Vec<MoeBuf> {
        let g = start(&c, &scalars, sw).build().unwrap();
        let list = if prefill { g.prefill } else { g.decode };
        let writes = |slot: u32, entry: &str| match entry {
            "quantize_kv_fp8" => slot == 1,
            "g4m_kv_write" | "g4m_kv_write_stacked" => slot == 12 || slot == 13,
            "pm_kv_write" => slot == 42 || slot == 43,
            _ => false,
        };
        let mut out = Vec::new();
        for p in &list.passes {
            for b in &p.binds {
                if let (true, MoeArg::Buf(x)) = (writes(b.slot, p.entry), b.arg) {
                    out.push(x);
                }
            }
        }
        out
    };
    let want: Vec<MoeBuf> =
        (0..3).flat_map(|li| [MoeBuf::Layer(li, LayerBuf::Kc), MoeBuf::Layer(li, LayerBuf::Vc)]).collect();
    for (grouped, fp8) in [(false, false), (true, false), (false, true)] {
        let mut sw = switches();
        sw.grouped = grouped;
        sw.fp8 = fp8;
        assert_eq!(written(sw, false), want);
        assert_eq!(written(sw, true), want);
    }
}
