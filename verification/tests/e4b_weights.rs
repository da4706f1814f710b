//! Host weights of the E4B decoder: storage, chunking and routes.
use nv_models::e4b_build::{check_input_norms, plan_table, BuildError, TableError};
use nv_models::e4b_emit::Proj;
use nv_models::e4b_ir::{GroupsX, Site, W4Variant};
use nv_models::e4b_layer::ChunkPlan;
use nv_models::e4b_weights::{
    bf16_bits_of, checkpoint_w4_grain, concat_rows, load_lin_w4, plan_chunks, u32_words_of, uniform_w4_group_size,
    upload_proj, BigBf16, ChunkError, ConcatError, E4bHostLayer, E4bHostWeights, GrainChoice, HostLin, LinError,
    LinFacts, ProjEnv, ProjError, Tally, W4Shape, WeightSource, CHUNK_BYTE_CAP,
};
use nv_models::LayerType;

fn w4(gs: usize, n: usize, k: usize) -> HostLin {
    HostLin::new_w4(vec![0; n * k / 8], vec![0; n * (k / gs)], gs, n, k)
}

fn layer(gs: usize) -> E4bHostLayer {
    E4bHostLayer {
        kind: LayerType::FullAttention,
        kv_source: None,
        input_ln: Vec::new(),
        post_attn_ln: Vec::new(),
        pre_ff_ln: Vec::new(),
        post_ff_ln: Vec::new(),
        post_per_layer_input_norm: Vec::new(),
        q_norm: Vec::new(),
        k_norm: Vec::new(),
        layer_scalar: 1.0f32.to_bits(),
        has_v: true,
        qkv: w4(gs, 64, 256),
        o: w4(gs, 64, 256),
        gate_up: w4(gs, 64, 256),
        down: w4(gs, 64, 256),
        per_layer_input_gate: w4(gs, 64, 256),
        per_layer_projection: w4(gs, 64, 256),
    }
}

fn host(layers: Vec<E4bHostLayer>, plmp: HostLin) -> E4bHostWeights {
    E4bHostWeights {
        embed: Vec::new(),
        embed_per_layer: Vec::new(),
        per_layer_model_projection: plmp,
        per_layer_projection_norm: Vec::new(),
        final_norm: Vec::new(),
        layers,
    }
}

fn gs_of(w: &E4bHostWeights) -> Option<usize> {
    uniform_w4_group_size(&WeightSource::Host(w))
}

#[test]
fn one_group_size_per_checkpoint_or_no_baked_shift() {
    let w = host(vec![layer(32), layer(32)], w4(32, 64, 256));
    assert_eq!(gs_of(&w), Some(32));

    let mut mixed = host(vec![layer(32), layer(32)], w4(32, 64, 256));
    mixed.layers[1].down = w4(64, 64, 256);
    assert_eq!(gs_of(&mixed), None);

    let mut plmp_off = host(vec![layer(32)], w4(128, 64, 256));
    plmp_off.layers[0].o = w4(32, 64, 256);
    assert_eq!(gs_of(&plmp_off), None);

    let bf16 = {
        let mut w = host(vec![layer(64)], w4(64, 64, 256));
        w.layers[0].qkv = HostLin::new(vec![0; 64 * 256], 64, 256);
        w
    };
    assert_eq!(gs_of(&bf16), Some(64), "a bf16 tensor carries no group size");

    let mut none = host(vec![layer(64)], HostLin::new(vec![0; 64 * 256], 64, 256));
    for l in none.layers.iter_mut() {
        for t in [
            &mut l.qkv,
            &mut l.o,
            &mut l.gate_up,
            &mut l.down,
            &mut l.per_layer_input_gate,
            &mut l.per_layer_projection,
        ] {
            *t = HostLin::new(vec![0; 64 * 256], 64, 256);
        }
    }
    assert_eq!(gs_of(&none), None);
}

#[test]
fn the_baked_grain_accepts_exactly_what_it_was_built_for() {
    for gs in [32usize, 64, 128, 96] {
        let w = host(vec![layer(gs)], w4(gs, 64, 256));
        let seen = gs_of(&w);
        assert_eq!(seen, Some(gs));
        assert_eq!(checkpoint_w4_grain(seen, true), GrainChoice::FastestFor(gs), "gs={gs}");
    }
    let g16 = host(vec![layer(16)], w4(16, 64, 256));
    assert_eq!(gs_of(&g16), Some(16));
    assert_eq!(checkpoint_w4_grain(gs_of(&g16), true), GrainChoice::General);
    let mixed = {
        let mut w = host(vec![layer(32)], w4(64, 64, 256));
        w.layers[0].down = w4(32, 64, 256);
        w
    };
    assert_eq!(gs_of(&mixed), None);
    assert_eq!(checkpoint_w4_grain(gs_of(&mixed), true), GrainChoice::General);
}

#[test]
fn a_group_size_no_sg_body_can_express_must_lose_sg_eligibility() {
    let w = host(vec![layer(48)], w4(48, 64, 96 * 4));
    let seen = gs_of(&w);
    assert_eq!(seen, Some(48));
    // The kernels have no layout of their own for it, and fall back on the general one.
    assert_eq!(checkpoint_w4_grain(seen, true), GrainChoice::FastestFor(48));
    assert_eq!(checkpoint_w4_grain(seen, false), GrainChoice::General);
    // A matrix that the layout does not accept takes another route.
    let mut f = facts();
    f.grain_accepts = false;
    let p = upload_proj(&env(), &limits(), Site::O(0), &w4(48, 8, 96), &f, &mut tally()).unwrap();
    assert!(matches!(p, Proj::W4 { variant: W4Variant::Block, gs: 48, .. }));
    // One that would take the subgroup route all the same is refused.
    let mut f = facts();
    f.grain_ok = false;
    assert_eq!(
        upload_proj(&env(), &limits(), Site::O(0), &w4(48, 8, 96), &f, &mut tally()),
        Err(ProjError::GrainMismatch)
    );
}

#[test]
fn a_checkpoint_states_its_group_size_by_lengths() {
    let same = vec![
        Some(W4Shape { packed_elems: Some(64), scale_elems: Some(16) }),
        None,
        Some(W4Shape { packed_elems: Some(128), scale_elems: Some(32) }),
    ];
    assert_eq!(uniform_w4_group_size(&WeightSource::Loader(&same)), Some(32));
    let mixed = vec![
        Some(W4Shape { packed_elems: Some(64), scale_elems: Some(16) }),
        Some(W4Shape { packed_elems: Some(64), scale_elems: Some(8) }),
    ];
    assert_eq!(uniform_w4_group_size(&WeightSource::Loader(&mixed)), None);
    assert_eq!(uniform_w4_group_size(&WeightSource::Loader(&vec![None])), None);
}

#[test]
fn the_layout_is_baked_only_for_shared_groups_of_thirty_two_or_more() {
    assert_eq!(checkpoint_w4_grain(Some(64), true), GrainChoice::FastestFor(64));
    assert_eq!(checkpoint_w4_grain(Some(32), true), GrainChoice::FastestFor(32));
    assert_eq!(checkpoint_w4_grain(Some(16), true), GrainChoice::General);
    assert_eq!(checkpoint_w4_grain(Some(64), false), GrainChoice::General);
    assert_eq!(checkpoint_w4_grain(None, true), GrainChoice::General);
}

#[test]
fn tables_are_cut_into_even_chunks() {
    // 10 rows of 100 bytes, 450 bytes to a binding: 4 rows at most.
    assert_eq!(plan_chunks(10, 100, 450), Ok(ChunkPlan { rows_per_chunk: 4, n_chunks: 3 }));
    // 12 rows spread evenly over 3 chunks.
    assert_eq!(plan_chunks(12, 100, 550), Ok(ChunkPlan { rows_per_chunk: 4, n_chunks: 3 }));
    assert_eq!(plan_chunks(2, 100, 10_000), Ok(ChunkPlan { rows_per_chunk: 2, n_chunks: 1 }));
    assert_eq!(plan_chunks(0, 100, 450), Err(ChunkError::OddRows));
    assert_eq!(plan_chunks(7, 100, 450), Err(ChunkError::OddRows));
    assert_eq!(plan_chunks(8, 0, 450), Err(ChunkError::ZeroRowBytes));
    assert_eq!(plan_chunks(8, 300, 450), Err(ChunkError::RowTooLarge));
    assert_eq!(plan_chunks(40, 100, 250), Err(ChunkError::TooManyChunks));
    // However large the binding, a chunk is at most a gibibyte.
    let p = plan_chunks(262_144, 10_240, u64::MAX).unwrap();
    assert!(p.rows_per_chunk as u64 * 10_240 <= CHUNK_BYTE_CAP);
    assert_eq!(p, ChunkPlan { rows_per_chunk: 87_382, n_chunks: 3 });
}

#[test]
fn chunks_of_a_table_add_up() {
    let t = plan_table(true, 26 * 50, 26, 50, 800).unwrap();
    assert_eq!(t.row_words, 25);
    assert_eq!(t.plan, ChunkPlan { rows_per_chunk: 8, n_chunks: 4 });
    let rows: Vec<usize> = (0..t.plan.n_chunks).map(|c| t.rows_of(c)).collect();
    assert_eq!(rows, vec![8, 8, 8, 2]);
    assert_eq!(rows.iter().sum::<usize>(), t.rows);
    assert_eq!(plan_table(true, 100, 26, 50, 800).err(), Some(TableError::Length));
    assert_eq!(plan_table(true, 26 * 51, 26, 51, 800).err(), Some(TableError::OddRow));
    assert_eq!(plan_table(true, 25 * 50, 25, 50, 800).err(), Some(TableError::Chunks(ChunkError::OddRows)));
}

#[test]
fn raw_bytes_are_little_endian() {
    assert_eq!(bf16_bits_of(&[0x34, 0x12, 0x78, 0x56]), Some(vec![0x1234, 0x5678]));
    assert_eq!(bf16_bits_of(&[1, 2, 3]), None);
    assert_eq!(u32_words_of(&[0x78, 0x56, 0x34, 0x12]), Some(vec![0x1234_5678]));
    assert_eq!(u32_words_of(&[1, 2, 3, 4, 5]), None);
}

#[test]
fn both_kinds_of_table_hold_the_same_values() {
    let bits = [0x1234u16, 0x5678, 0x9abc];
    let raw = [0x34u8, 0x12, 0x78, 0x56, 0xbc, 0x9a];
    assert_eq!(BigBf16::Bits(&bits).len(), 3);
    assert_eq!(BigBf16::Raw(&raw).len(), 3);
    assert_eq!(BigBf16::Bits(&bits).bits_chunk(1, 2), vec![0x5678, 0x9abc]);
    assert_eq!(BigBf16::Raw(&raw).bits_chunk(1, 2), vec![0x5678, 0x9abc]);
}

#[test]
fn four_bit_matrices_derive_their_group_size() {
    let l = load_lin_w4(vec![0; 32], vec![0; 8], 4, 64).unwrap();
    let q = l.q.as_ref().unwrap();
    assert_eq!((l.n, l.k, q.gs), (4, 64, 32));
    assert!(matches!(load_lin_w4(vec![0; 31], vec![0; 8], 4, 64), Err(LinError::PackedLength)));
    assert!(matches!(load_lin_w4(vec![0; 32], vec![0; 7], 4, 64), Err(LinError::ScaleLength)));
    assert!(matches!(load_lin_w4(vec![0; 32], Vec::new(), 4, 64), Err(LinError::ScaleLength)));
    // Three groups do not divide sixty-four columns.
    assert!(matches!(load_lin_w4(vec![0; 32], vec![0; 12], 4, 64), Err(LinError::ScaleLength)));
}

#[test]
fn fused_matrices_stack_their_rows() {
    let a = HostLin::new(vec![1, 2, 3, 4], 2, 2);
    let b = HostLin::new(vec![5, 6], 1, 2);
    let c = concat_rows(vec![a, b]).unwrap();
    assert_eq!((c.n, c.k, c.w), (3, 2, vec![1, 2, 3, 4, 5, 6]));
    let q = concat_rows(vec![w4(32, 2, 64), w4(32, 4, 64)]).unwrap();
    assert_eq!((q.n, q.k), (6, 64));
    let q = q.q.unwrap();
    assert_eq!((q.gs, q.packed.len(), q.scales.len()), (32, 48, 12));
    assert_eq!(
        concat_rows(vec![HostLin::new(vec![0; 4], 2, 2), HostLin::new(vec![0; 6], 2, 3)]).err(),
        Some(ConcatError::ColumnMismatch)
    );
    assert_eq!(
        concat_rows(vec![HostLin::new(vec![0; 128], 2, 64), w4(32, 2, 64)]).err(),
        Some(ConcatError::StorageMismatch)
    );
    assert_eq!(
        concat_rows(vec![w4(32, 2, 64), w4(64, 2, 64)]).err(),
        Some(ConcatError::GroupSizeMismatch)
    );
}

fn env() -> ProjEnv {
    ProjEnv { sg16: true, w4_route: true, w4_mr: 1, w8: false, w8_group: 0 }
}

fn facts() -> LinFacts {
    LinFacts {
        shape_ok: true,
        grain_accepts: true,
        grain_ok: true,
        prefers_v4: false,
        route_with_sg: W4Variant::Sg16,
        route_without_sg: W4Variant::Block,
        sg_scale_words: 4,
        i8_scales: 0,
    }
}

fn tally() -> Tally {
    Tally { weight_bytes: 0, block: 0, v4: 0, sg16: 0 }
}

fn limits() -> nv_models::e4b_emit::Limits {
    nv_models::e4b_emit::Limits {
        gemv_rows_per_group: 8,
        w4_rows_per_group: 8,
        sg_rows_per_group: 16,
        slab_rows: 16,
        small_m_max: 8,
        small_m_rows_per_group: 8,
        argmax_blocks: 64,
        flash_max_head_dim: 512,
        fused_attn_max_head_dim: 512,
        lm_sg_rows_per_group: 16,
        tensor_tile_rows: 32,
        tensor_head_dim: 256,
        tensor_head_dim_wide: 512,
        lora_max_rank: 64,
        lora_cols_per_group: 64,
        max_splits: 64,
        max_groups_per_dim: 65_535,
        max_binding_bytes: 1 << 30,
        storage_align: 256,
        max_queries: 4096,
    }
}

#[test]
fn a_matrix_takes_the_route_that_its_shape_allows() {
    let lim = limits();
    let mut t = tally();
    let p = upload_proj(&env(), &lim, Site::O(0), &w4(32, 8, 64), &facts(), &mut t).unwrap();
    assert!(matches!(p, Proj::W4 { variant: W4Variant::Sg16, n: 8, k: 64, gs: 32, .. }));
    // 64 packed words and 4 words of scales.
    assert_eq!(t, Tally { weight_bytes: 4 * 64 + 4 * 4, block: 0, v4: 0, sg16: 1 });

    let p = upload_proj(&env(), &lim, Site::O(0), &HostLin::new(vec![0; 64], 8, 8), &facts(), &mut t).unwrap();
    assert_eq!(p, Proj::Bf16 { site: Site::O(0), n: 8, k: 8, groups: GroupsX { invocations: 8, wg: 8 } });
    assert_eq!(t.weight_bytes, 4 * 64 + 4 * 4 + 2 * 64);

    let mut f = facts();
    f.shape_ok = false;
    assert_eq!(
        upload_proj(&env(), &lim, Site::O(0), &w4(32, 8, 64), &f, &mut t),
        Err(ProjError::W4Shape)
    );
    assert_eq!(
        upload_proj(&env(), &lim, Site::O(0), &HostLin::new(vec![0; 63], 8, 8), &facts(), &mut t),
        Err(ProjError::WeightLength)
    );
    assert_eq!(
        upload_proj(&env(), &lim, Site::O(0), &HostLin::new(vec![0; 56], 7, 8), &facts(), &mut t),
        Err(ProjError::OddRows)
    );
}

#[test]
fn the_next_norm_of_each_layer_has_the_models_width() {
    assert_eq!(check_input_norms(4, &vec![4, 4, 4]), Ok(()));
    assert_eq!(check_input_norms(4, &vec![4, 5, 4]), Err(BuildError::InputNorm(1)));
}
