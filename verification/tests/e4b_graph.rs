//! A small E4B graph from its options to its passes.
use nv_models::e4b_build::{plan_table, BuildError, GraphBuild, LayerFacts, Start, TableError};
use nv_models::e4b_check::check_project;
use nv_models::e4b_emit::{Builder, Dst, Limits, Proj, Target, Toolkit};
use nv_models::e4b_head::{E4bGraph, HeadDims, Softcap};
use nv_models::e4b_host::{HostBuild, SessionSwitches};
use nv_models::e4b_ir::{
    Arg, Bind, Buf, Grid, GroupsX, KvPart, MkParams, MkPipe, Part, Pipe, Site, Uniform, W4Variant,
};
use nv_models::e4b_lora::{E4bLora, E4bLoraLayer, E4bLoraSite, LoraMeta};
use nv_models::e4b_pipelines::{build_pipelines, kernel_list, pipe_entry, pipe_label, PipeOptions};
use nv_models::e4b_session::{Gemma4E4bWgpu, SplitArm};
use nv_models::e4b_weights::{E4bHostLayer, E4bHostWeights, HostLin, LinFacts, ProjEnv};
use nv_models::{Gemma4Config, KindDims, LayerType};

fn config() -> Gemma4Config {
    Gemma4Config {
        hidden_size: 64,
        intermediate_size: 128,
        vocab_size: 32,
        vocab_size_per_layer: 32,
        num_hidden_layers: 3,
        num_attention_heads: 4,
        sliding: KindDims { head_dim: 32, num_kv_heads: 2 },
        full: KindDims { head_dim: 64, num_kv_heads: 2 },
        hidden_size_per_layer_input: 16,
        sliding_window: 8,
        layer_types: vec![LayerType::SlidingAttention, LayerType::FullAttention, LayerType::SlidingAttention],
        kv_sources: vec![None, None, Some(0)],
        attention_k_eq_v: false,
        tie_word_embeddings: true,
    }
}

fn limits() -> Limits {
    Limits {
        gemv_rows_per_group: 8,
        w4_rows_per_group: 8,
        sg_rows_per_group: 16,
        slab_rows: 16,
        small_m_max: 8,
        small_m_rows_per_group: 8,
        argmax_blocks: 64,
        flash_max_head_dim: 512,
        fused_attn_max_head_dim: 512,
        lm_sg_rows_per_group: 16,
        tensor_tile_rows: 32,
        tensor_head_dim: 256,
        tensor_head_dim_wide: 512,
        lora_max_rank: 64,
        lora_cols_per_group: 64,
        max_splits: 256,
        max_groups_per_dim: 65_535,
        max_binding_bytes: 1 << 30,
        storage_align: 256,
        max_queries: 4096,
    }
}

fn options() -> PipeOptions {
    PipeOptions {
        sg16: false,
        lmhead_i8: false,
        lmhead_sg: false,
        prefill_m: 4,
        verify_m: None,
        fuse_norms: true,
        fuse_attn: true,
        flash1_hds: vec![32, 64],
        hd_specialize: true,
        sd: false,
        sg: true,
        gqa_fold: 1,
        deep_fold: 0,
        tpw: 1,
        decode_splits: 16,
        deep_arm: Some((2048, 64)),
        deep_full_only: false,
        deep_stage2_legacy: false,
        w8: false,
        w8_group: 0,
        w4_mr: 1,
        qtile: 1,
        fnc_unrolled: [false; 3],
        tensor_route: false,
        tensor_attn: false,
        tensor_pk: false,
        tensor_pk3: false,
        tensor_attn_narrow: false,
        tensor_attn_wide: false,
    }
}

fn kit() -> Toolkit {
    Toolkit { pl: build_pipelines(&options(), &limits()), lim: limits() }
}

fn env() -> ProjEnv {
    ProjEnv { sg16: false, w4_route: true, w4_mr: 1, w8: false, w8_group: 0 }
}

fn lin_facts() -> LinFacts {
    LinFacts {
        shape_ok: true,
        grain_accepts: false,
        grain_ok: true,
        prefers_v4: false,
        route_with_sg: W4Variant::Block,
        route_without_sg: W4Variant::Block,
        sg_scale_words: 0,
        i8_scales: 0,
    }
}

fn facts() -> LayerFacts {
    let f = lin_facts();
    LayerFacts { qkv: f, o: f, gate_up: f, down: f, pl_gate: f, pl_proj: f }
}

fn bf16(n: usize, k: usize) -> HostLin {
    HostLin::new(vec![0; n * k], n, k)
}

fn layer(c: &Gemma4Config, i: usize) -> E4bHostLayer {
    let kind = c.layer_types[i];
    let (hd, nkv) = (c.head_dim_for(kind), c.num_kv_heads_for(kind));
    let (q, kv) = (c.num_attention_heads * hd, nkv * hd);
    let own = c.kv_sources[i].is_none();
    let h = c.hidden_size;
    E4bHostLayer {
        kind,
        kv_source: c.kv_sources[i],
        input_ln: vec![0; h],
        post_attn_ln: vec![0; h],
        pre_ff_ln: vec![0; h],
        post_ff_ln: vec![0; h],
        post_per_layer_input_norm: vec![0; h],
        q_norm: vec![0; hd],
        k_norm: if own { vec![0; hd] } else { Vec::new() },
        layer_scalar: 1.0f32.to_bits(),
        has_v: true,
        qkv: bf16(if own { q + 2 * kv } else { q }, h),
        o: bf16(h, q),
        gate_up: bf16(2 * c.intermediate_size, h),
        down: bf16(h, c.intermediate_size),
        per_layer_input_gate: bf16(c.hidden_size_per_layer_input, h),
        per_layer_projection: bf16(h, c.hidden_size_per_layer_input),
    }
}

fn start<'a>(c: &'a Gemma4Config, kit: &'a Toolkit, plmp: &'a HostLin) -> Start<'a> {
    Start {
        config: c,
        kit,
        env: env(),
        max_seq: 64,
        prefill_m: 4,
        host_layers: Some(c.num_hidden_layers),
        lora_layers: None,
        embed_len: c.vocab_size * c.hidden_size,
        ple_len: c.vocab_size_per_layer * c.num_hidden_layers * c.hidden_size_per_layer_input,
        plmp,
        plmp_facts: lin_facts(),
        eps: 1e-6f32.to_bits(),
        embed_scale: 8.0f32.to_bits(),
        pli_sa: 0.5f32.to_bits(),
        pli_sb: 0.5f32.to_bits(),
    }
}

fn no_meta() -> LoraMeta {
    LoraMeta {
        token_indices_sorted: vec![0],
        num_tokens_per_lora: vec![1],
        lora_token_start_loc: vec![0, 1],
        active_lora_ids: vec![0],
        max_loras: 1,
        grid_loras: 1,
    }
}

fn cap() -> Softcap {
    Softcap { on: true, cap: 30.0f32.to_bits(), inv_cap: (1.0f32 / 30.0).to_bits() }
}

fn graph() -> E4bGraph {
    let c = config();
    let kit = kit();
    let plmp = bf16(48, 64);
    let meta = no_meta();
    let layers: Vec<E4bHostLayer> = (0..3).map(|i| layer(&c, i)).collect();
    let mut b = GraphBuild::begin(&start(&c, &kit, &plmp)).ok().expect("a sound start");
    for l in &layers {
        assert_eq!(b.add_layer(l, facts(), None, &meta, &meta), Ok(()));
    }
    b.finish(&cap(), true).expect("a sound graph")
}

fn count(g: &E4bGraph, f: impl Fn(&Pipe) -> bool) -> usize {
    g.decode.iter().filter(|p| f(&p.pipe)).count()
}

#[test]
fn a_graph_gathers_attends_and_picks_a_token() {
    let g = graph();
    assert_eq!(g.decode[0].pipe, Pipe::Gather);
    assert_eq!(count(&g, |p| *p == Pipe::ArgmaxStage2), 1);
    // One pass of attention to a layer, of the width of its heads.
    assert_eq!(count(&g, |p| *p == Pipe::Flash1(32)), 2);
    assert_eq!(count(&g, |p| *p == Pipe::Flash1(64)), 1);
    assert_eq!(g.flash1_route(&vec![32, 64]), vec![(32, 2), (64, 1)]);
    // Layers with a cache of their own write it; the third reads that of the first.
    let writes: Vec<usize> = (0..3)
        .map(|li| {
            g.decode
                .iter()
                .filter(|p| p.pipe == Pipe::KvQuant || p.pipe == Pipe::FacK || p.pipe == Pipe::FacV)
                .filter(|p| p.binds.iter().any(|b| matches!(b.arg, Arg::Buf(Buf::Kv(l, _)) if l == li)))
                .count()
        })
        .collect();
    assert!(writes[0] > 0 && writes[0] == writes[1] && writes[2] == 0);
    assert!(g.decode.iter().any(|p| p.binds.iter().any(|b| b.arg == Arg::Buf(Buf::Kv(0, KvPart::K)))));
    assert_eq!(g.pass_count(), g.decode.len());
    assert_eq!(g.prefill_pass_count(), g.prefill.len());
    assert!(g.prefill.len() > 0 && g.prefill_m == 4);
    assert_eq!(g.verify.as_ref().unwrap().rows, 4);
}

#[test]
fn weights_read_for_a_token_are_counted() {
    let g = graph();
    let c = config();
    // Two bytes to a weight: the head, one row of per-layer inputs, and every matrix.
    let per_layer = |i: usize| {
        let l = layer(&c, i);
        [&l.qkv, &l.o, &l.gate_up, &l.down, &l.per_layer_input_gate, &l.per_layer_projection].iter().map(|m| m.w.len()).sum::<usize>()
    };
    let all: usize = (0..3).map(per_layer).sum::<usize>() + 48 * 64 + 32 * 64 + 48;
    assert_eq!(g.weight_bytes_per_token(), 2 * all as u64);
    assert_eq!(g.w4_route_census(), (0, 0, 0));
}

#[test]
fn deep_twins_replace_their_passes_only_in_deep_contexts() {
    let g = graph();
    assert_eq!(g.overlay.len(), g.decode.len());
    let twins = g.overlay.iter().flatten().count();
    assert!(twins > 0 && twins == g.twins.len());
    for i in 0..g.decode.len() {
        let same = g.arm_pass(i, SplitArm::Shallow);
        assert_eq!(same.pipe, g.decode[i].pipe);
        match g.overlay[i] {
            Some(t) => assert_eq!(g.twins[t].index, i),
            None => assert_eq!(g.arm_pass(i, SplitArm::Deep).grid, g.decode[i].grid),
        }
    }
    assert_eq!(g.pass_grid(0), g.decode[0].grid);
}

#[test]
fn a_start_is_checked_in_order() {
    let kit = kit();
    let plmp = bf16(48, 64);
    let refused = |change: fn(&mut Gemma4Config)| {
        let mut c = config();
        change(&mut c);
        GraphBuild::begin(&start(&c, &kit, &plmp)).err()
    };
    assert_eq!(refused(|c| c.hidden_size_per_layer_input = 0), Some(BuildError::NoPerLayerEmbeddings));
    assert_eq!(refused(|c| c.vocab_size = 36), Some(BuildError::ShapeRule));
    assert_eq!(refused(|c| c.full.head_dim = 1024), Some(BuildError::HeadDim));
    let mut untied = config();
    untied.tie_word_embeddings = false;
    let mut s = start(&untied, &kit, &plmp);
    s.host_layers = None;
    assert_eq!(GraphBuild::begin(&s).err(), Some(BuildError::UntiedHead));
    let c = config();
    let mut s = start(&c, &kit, &plmp);
    s.host_layers = Some(2);
    assert_eq!(GraphBuild::begin(&s).err(), Some(BuildError::LayerCount));
    let mut s = start(&c, &kit, &plmp);
    s.lora_layers = Some(2);
    assert_eq!(GraphBuild::begin(&s).err(), Some(BuildError::LoraLayerCount));
    let mut s = start(&c, &kit, &plmp);
    s.embed_len = 7;
    assert_eq!(GraphBuild::begin(&s).err(), Some(BuildError::Embed(TableError::Length)));
    let mut s = start(&c, &kit, &plmp);
    s.ple_len = 7;
    assert_eq!(GraphBuild::begin(&s).err(), Some(BuildError::PerLayerEmbed(TableError::Length)));
    let narrow = bf16(46, 64);
    assert_eq!(GraphBuild::begin(&start(&c, &kit, &narrow)).err(), Some(BuildError::MatrixShape(Site::PerLayerModel)));
}

#[test]
fn a_layer_is_checked_before_it_is_added() {
    let c = config();
    let kit = kit();
    let plmp = bf16(48, 64);
    let meta = no_meta();
    let mut b = GraphBuild::begin(&start(&c, &kit, &plmp)).ok().unwrap();
    let mut wrong = layer(&c, 0);
    wrong.o = bf16(64, 64);
    assert_eq!(b.add_layer(&wrong, facts(), None, &meta, &meta), Err(BuildError::MatrixShape(Site::O(0))));
}

#[test]
fn an_adapter_adds_its_passes() {
    let c = config();
    let kit = kit();
    let plmp = bf16(48, 64);
    let meta = no_meta();
    let layers: Vec<E4bHostLayer> = (0..3).map(|i| layer(&c, i)).collect();
    let down = E4bLoraSite { a: vec![0; 2 * 128], b: vec![0; 64 * 2], widths: vec![64], segs: vec![64], k: 128, rank: 2 };
    let with = E4bLoraLayer { qkv: None, o: None, gate_up: None, down: Some(down) };
    let mut s = start(&c, &kit, &plmp);
    s.prefill_m = 0;
    let mut plain = GraphBuild::begin(&s).ok().unwrap();
    let mut lora = GraphBuild::begin(&s).ok().unwrap();
    for (i, l) in layers.iter().enumerate() {
        plain.add_layer(l, facts(), None, &meta, &meta).unwrap();
        lora.add_layer(l, facts(), if i == 1 { Some(&with) } else { None }, &meta, &meta).unwrap();
    }
    let (plain, lora) = (plain.finish(&cap(), true).unwrap(), lora.finish(&cap(), true).unwrap());
    assert_eq!(lora.decode.len(), plain.decode.len() + 3);
    assert_eq!(count(&lora, |p| *p == Pipe::LoraFused), 1);
    assert!(plain.verify.is_none() && plain.prefill.is_empty());
}

#[test]
fn options_decide_which_kernels_are_built() {
    let p = build_pipelines(&options(), &limits());
    assert_eq!((p.flash1.clone(), p.deep_splits), (vec![32, 64], Some(64)));
    assert!(p.fnc && p.fac && p.mk.is_some() && p.mk_verify.is_none());
    let mut o = options();
    o.hd_specialize = false;
    assert_eq!(build_pipelines(&o, &limits()).flash1, vec![64]);
    let kernels = kernel_list(&p);
    assert!(kernels.contains(&Pipe::Gather) && kernels.contains(&Pipe::Flash1(32)));
    assert!(!kernels.contains(&Pipe::LmHeadI8));
    assert!(pipe_entry(Pipe::Flash1(32), &options()).unwrap().contains("e4b_flash1_32sg_fp8"));
    assert!(pipe_label(Pipe::Gather, &options()).is_some());
}

#[test]
fn buffers_of_the_head_hold_a_value_for_each_token() {
    // Ten rows of eight bytes under a limit of four rows make pieces of four, four and two.
    let embed = plan_table(true, 40, 10, 4, 32).unwrap();
    let d = HeadDims { prefill_m: 4, verify_rows: 3, argmax_blocks: 64, small_m_max: 8, embed };
    assert_eq!(d.alloc_head(Buf::LogitsPk), Some(5));
    assert_eq!(d.alloc_head(Buf::LogitsF32), Some(10));
    assert_eq!(d.alloc_head(Buf::AmIdx), Some(64));
    assert_eq!(d.alloc_head(Buf::TokenOut), Some(8));
    assert_eq!(d.alloc_head(Buf::TokIdx), Some(4));
    assert_eq!(d.alloc_head(Buf::KvStart), Some(1));
    assert_eq!(d.alloc_head(Buf::VerifyLogits), Some(30));
    assert_eq!(d.alloc_head(Buf::VerifyAmVal), Some(192));
    let pieces: Vec<_> = (0..4).map(|c| d.alloc_head(Buf::VerifyY(c))).collect();
    assert_eq!(pieces, vec![Some(12), Some(12), Some(6), None]);
    assert_eq!(d.alloc_head(Buf::LoraScratch(false)), None);
    assert_eq!(HeadDims { prefill_m: 0, ..d }.alloc_head(Buf::RopePos), Some(1));
}

fn weights(c: &Gemma4Config) -> E4bHostWeights {
    E4bHostWeights {
        embed: vec![0; c.vocab_size * c.hidden_size],
        embed_per_layer: vec![0; c.vocab_size_per_layer * c.num_hidden_layers * c.hidden_size_per_layer_input],
        per_layer_model_projection: bf16(48, 64),
        per_layer_projection_norm: vec![0; c.hidden_size_per_layer_input],
        final_norm: vec![0; c.hidden_size],
        layers: (0..c.num_hidden_layers).map(|i| layer(c, i)).collect(),
    }
}

fn host<'a>(
    c: &'a Gemma4Config,
    kit: &'a Toolkit,
    weights: &'a E4bHostWeights,
    facts: &'a Vec<LayerFacts>,
    meta: &'a LoraMeta,
    lora: Option<&'a E4bLora>,
) -> HostBuild<'a> {
    HostBuild {
        config: c,
        kit,
        env: env(),
        max_seq: 64,
        prefill_m: 4,
        weights,
        plmp_facts: lin_facts(),
        facts,
        lora,
        meta,
        prefill_meta: meta,
        eps: 1e-6f32.to_bits(),
        embed_scale: 8.0f32.to_bits(),
        pli_sa: 0.5f32.to_bits(),
        pli_sb: 0.5f32.to_bits(),
        cap: cap(),
        fused_head: true,
    }
}

fn switches() -> SessionSwitches {
    SessionSwitches {
        timestamps: true,
        profile: false,
        staged_read: true,
        spin_read: false,
        preenc: true,
        tail: true,
        live_rows: true,
        deep_depth: 2048,
    }
}

#[test]
fn weights_on_the_host_make_the_graph_that_layers_make_one_by_one() {
    let (c, kit, meta, f) = (config(), kit(), no_meta(), vec![facts(); 3]);
    let w = weights(&c);
    let (s, g) = Gemma4E4bWgpu::new_with_lora(&host(&c, &kit, &w, &f, &meta, None), &switches()).ok().unwrap();
    let by_layer = graph();
    let shape = |p: &[nv_models::e4b_ir::Pass]| -> Vec<_> {
        p.iter().map(|p| (p.pipe, p.grid, p.binds.clone())).collect()
    };
    assert_eq!(shape(&g.decode), shape(&by_layer.decode));
    assert_eq!(shape(&g.prefill), shape(&by_layer.prefill));
    assert_eq!(g.tally, by_layer.tally);
    // The session takes its rows from the graph.
    assert_eq!((s.max_seq(), s.current_pos(), s.prefill_chunk_len(), s.verify_max_rows()), (64, 0, 4, 4));
    assert_eq!((s.deep_split_depth, s.deep_splits, s.decode_splits), (2048, 64, 16));
    let v = s.verify.unwrap();
    assert!(!v.own_passes && !s.prefill.unwrap().verify_params);
}

#[test]
fn verify_rows_of_their_own_have_their_own_passes() {
    let (c, meta, f) = (config(), no_meta(), vec![facts(); 3]);
    let w = weights(&c);
    let mut o = options();
    o.verify_m = Some(2);
    let kit = Toolkit { pl: build_pipelines(&o, &limits()), lim: limits() };
    let (s, g) = Gemma4E4bWgpu::new_with_lora(&host(&c, &kit, &w, &f, &meta, None), &switches()).ok().unwrap();
    assert_eq!(g.verify_prefill.len(), g.prefill.len());
    assert_eq!(s.verify_max_rows(), 2);
    assert!(s.verify.unwrap().own_passes && s.prefill.unwrap().verify_params);
}

#[test]
fn weights_on_the_host_are_checked_in_order() {
    let (c, kit, meta, f) = (config(), kit(), no_meta(), vec![facts(); 3]);
    let mut w = weights(&c);
    w.layers[2].input_ln.pop();
    w.layers[0].o = bf16(64, 64);
    // All input norms are looked at before any matrix.
    assert_eq!(host(&c, &kit, &w, &f, &meta, None).build().err(), Some(BuildError::InputNorm(2)));
    w.layers[2].input_ln.push(0);
    assert_eq!(host(&c, &kit, &w, &f, &meta, None).build().err(), Some(BuildError::MatrixShape(Site::O(0))));
    w.layers.pop();
    let two = vec![facts(); 2];
    assert_eq!(host(&c, &kit, &w, &two, &meta, None).build().err(), Some(BuildError::LayerCount));
    let w = weights(&c);
    let lora = E4bLora::assemble(2, 0, Vec::new(), Vec::new());
    let refused = Gemma4E4bWgpu::new_with_lora(&host(&c, &kit, &w, &f, &meta, Some(&lora)), &switches()).err();
    assert_eq!(refused, Some(BuildError::LoraLayerCount));
}

#[test]
fn each_cache_is_written_once_by_its_own_layer() {
    let (c, kit, meta, f) = (config(), kit(), no_meta(), vec![facts(); 3]);
    let w = weights(&c);
    let g = host(&c, &kit, &w, &f, &meta, None).build().ok().unwrap();
    let written = |p: &[nv_models::e4b_ir::Pass]| -> Vec<Arg> {
        p.iter()
            .filter_map(|p| match p.pipe {
                Pipe::FacK => Some(p.binds[6].arg),
                Pipe::FacV => Some(p.binds[3].arg),
                Pipe::KvQuant => Some(p.binds[1].arg),
                _ => None,
            })
            .collect()
    };
    // The third layer reads the cache of the first.
    let want: Vec<Arg> = [(0, KvPart::K), (0, KvPart::V), (1, KvPart::K), (1, KvPart::V)]
        .map(|(li, part)| Arg::Buf(Buf::Kv(li, part)))
        .to_vec();
    assert_eq!(written(&g.decode), want);
    assert_eq!(written(&g.prefill), want);
}

const Q: Buf = Buf::LogitsPk;
const K: Buf = Buf::AmVal;
const V: Buf = Buf::AmIdx;

fn w4(variant: W4Variant, n: usize, gs: usize) -> Proj {
    let groups = GroupsX { invocations: n as u64, wg: 8 };
    Proj::W4 { site: Site::Qkv(0), variant, n, k: 64, gs, groups }
}

fn packed(word_off: usize) -> Dst {
    Dst::Packed { y: Buf::LogitsF32, word_off, y_stride_words: 10 }
}

fn bound(slot: u32, buf: Buf, off: u64) -> Bind {
    Bind { slot, arg: Arg::Buf(buf), off }
}

fn given(slot: u32, uniform: Uniform) -> Bind {
    Bind { slot, arg: Arg::Uni(uniform), off: 0 }
}

fn tensor_kit() -> Toolkit {
    let o = PipeOptions { tensor_route: true, tensor_pk: true, tensor_pk3: true, ..options() };
    Toolkit { pl: build_pipelines(&o, &limits()), lim: limits() }
}

#[test]
fn one_row_of_a_projection_binds_its_weights_and_its_output() {
    let weight = Buf::Proj(Site::Qkv(0), Part::Weight);
    let scales = Buf::Proj(Site::Qkv(0), Part::Scales);
    let params = Buf::Proj(Site::Qkv(0), Part::Params);
    let mut b = Builder::new();
    b.gemv(&kit().pl, &w4(W4Variant::Block, 48, 32), Buf::TokenOut, &packed(7));
    let dst = Dst::SplitQkv { q: Q, k: K, v: V, q_rows: 32, kv_rows: 8, v_off: 40 };
    b.gemv(&kit().pl, &w4(W4Variant::V4, 48, 32), Buf::TokenOut, &dst);
    assert_eq!(b.passes[0].pipe, Pipe::GemvW4Pk);
    assert_eq!(b.passes[0].grid, Grid::OneD(GroupsX { invocations: 48, wg: 8 }));
    assert_eq!(
        b.passes[0].binds,
        vec![
            bound(0, weight, 0),
            bound(1, scales, 0),
            bound(2, Buf::TokenOut, 0),
            bound(3, Buf::LogitsF32, 0),
            bound(4, params, 0),
            given(30, Uniform::PkOff { dst_word_off: 7 }),
        ]
    );
    assert_eq!(b.passes[1].pipe, Pipe::GemvW4V4Pk3);
    assert_eq!(
        b.passes[1].binds,
        vec![
            bound(1, scales, 0),
            bound(4, params, 0),
            bound(6, weight, 0),
            bound(7, Buf::TokenOut, 0),
            bound(31, Q, 0),
            bound(32, K, 0),
            bound(33, V, 0),
            given(34, Uniform::Split { q_rows: 32, kv_rows: 8, v_off: 40 }),
        ]
    );
}

#[test]
fn rows_of_a_projection_are_split_into_slabs() {
    let mut b = Builder::new();
    b.retarget(Target::Prefill);
    b.gemv_mk(&kit(), &w4(W4Variant::Block, 44, 32), Buf::TokenOut, 20, 32, &packed(7));
    assert_eq!(b.prefill_passes.len(), 2);
    for (i, (row0, m, off)) in [(0, 16, 7), (16, 4, 167)].into_iter().enumerate() {
        let p = &b.prefill_passes[i];
        let params = MkParams { m, x_stride_words: 32, y_stride_words: 10, dst_word_off: off };
        assert_eq!(p.pipe, Pipe::Mk(false, MkPipe::GemmW4Pk));
        assert_eq!(p.grid, Grid::Dims(6, 1, 1));
        assert_eq!(p.binds[2], bound(2, Buf::TokenOut, row0 as u64 * 32 * 4));
        assert_eq!(p.binds[5], given(35, Uniform::Mk { params, row0 }));
    }
}

#[test]
fn prefill_rows_take_the_tensor_route_where_the_shape_allows() {
    let dst = Dst::SplitQkv { q: Q, k: K, v: V, q_rows: 32, kv_rows: 8, v_off: 40 };
    let mut b = Builder::new();
    b.retarget(Target::Prefill);
    b.gemv_mk(&tensor_kit(), &w4(W4Variant::Block, 48, 32), Buf::TokenOut, 4, 32, &dst);
    b.gemv_mk(&tensor_kit(), &w4(W4Variant::Block, 48, 16), Buf::TokenOut, 4, 32, &dst);
    b.gemv_mk(&tensor_kit(), &w4(W4Variant::Block, 47, 32), Buf::TokenOut, 4, 32, &dst);
    let pipes: Vec<Pipe> = b.prefill_passes.iter().map(|p| p.pipe).collect();
    let ordinary = Pipe::Mk(false, MkPipe::GemmW4Pk3);
    assert_eq!(pipes, vec![Pipe::TensorOpsPk3, ordinary, ordinary]);
    let params = MkParams { m: 4, x_stride_words: 32, y_stride_words: 0, dst_word_off: 0 };
    let shape = Uniform::TensorOps {
        n_rows: 48,
        k_elems: 64,
        gs: 32,
        scale_row_stride: 2,
        scale_elem_stride: 2,
        q_rows: 32,
        kv_rows: 8,
        v_off: 40,
    };
    assert_eq!(b.prefill_passes[0].grid, Grid::TensorOps(48));
    assert_eq!(
        b.prefill_passes[0].binds[3..],
        [
            bound(3, Q, 0),
            bound(4, K, 0),
            bound(5, V, 0),
            given(6, Uniform::Mk { params, row0: 0 }),
            given(7, shape),
        ]
    );
}

#[test]
fn the_tensor_route_needs_no_ordinary_launch() {
    let wide = w4(W4Variant::Sg16, 16 * 65_536, 32);
    let to = packed(0);
    assert!(check_project(&tensor_kit(), Target::Prefill, &wide, 4, 32, &to));
    assert!(!check_project(&kit(), Target::Prefill, &wide, 4, 32, &to));
    assert!(!check_project(&tensor_kit(), Target::Verify, &wide, 4, 32, &to));
    let plain = w4(W4Variant::Block, 48, 0);
    assert!(check_project(&kit(), Target::Prefill, &plain, 4, 32, &to));
}
