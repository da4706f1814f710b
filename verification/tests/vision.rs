//! The vision tower: configuration, grids, pooling and loading.
use nv_models::vision::{
    detect_row_major_full_grid, fit_resolution, full_grid_positions, position_ids, valid_patches, vision_part,
    vision_prof_enabled, Gemma4VisionConfig, VisionConfigError, VisionPart, VisionRopeParams,
};
use nv_models::vision_load::{
    act_dtype, load_clipped, matrix_has_shape, synth_seed, synth_words, tower_probe, vector_has_shape, ClippedLinear,
    Gemma4VisionTower, NameRoot, VisionDtype, VisionLayer, VisionNamesPresent, VisionPlace,
};
use nv_models::vision_tower::{pool_cells, pool_full_grid, VisionError, VisionRoute};

fn config() -> Gemma4VisionConfig {
    Gemma4VisionConfig {
        model_type: Some("gemma4_vision".to_string()),
        hidden_size: 32,
        intermediate_size: 64,
        num_hidden_layers: 2,
        num_attention_heads: 4,
        num_key_value_heads: 4,
        head_dim: 8,
        patch_size: 4,
        pooling_kernel_size: 2,
        position_embedding_size: 10,
        default_output_length: 280,
        rms_norm_eps: 1e-6f64.to_bits(),
        attention_bias: false,
        hidden_activation: "gelu_pytorch_tanh".to_string(),
        use_clipped_linears: true,
        standardize: false,
        rope_parameters: VisionRopeParams { rope_theta: 100.0f32.to_bits(), rope_type: None },
        vision_soft_tokens_per_image: None,
    }
}

#[test]
fn the_tower_is_described_in_a_member_or_by_the_whole_file() {
    assert_eq!(vision_part("{}"), Ok(VisionPart::Whole));
    assert_eq!(vision_part(r#"{"vision_config": {}}"#), Ok(VisionPart::Member { soft_tokens: None }));
    assert_eq!(
        vision_part(r#"{"vision_config": {}, "vision_soft_tokens_per_image": 70}"#),
        Ok(VisionPart::Member { soft_tokens: Some(70) })
    );
    assert_eq!(
        vision_part(r#"{"vision_config": {}, "vision_soft_tokens_per_image": -1}"#),
        Ok(VisionPart::Member { soft_tokens: None })
    );
    assert_eq!(vision_part(r#"{"vision_config": 3}"#), Err(VisionConfigError::VisionNotAnObject));
    assert_eq!(vision_part("[]"), Err(VisionConfigError::NotAnObject));
    assert_eq!(vision_part("nonsense"), Err(VisionConfigError::NotJson));
}

#[test]
fn a_configuration_is_validated() {
    assert_eq!(config().validate(), Ok(()));
    let mut c = config();
    c.model_type = None;
    assert_eq!(c.validate(), Ok(()));
    c.model_type = Some("siglip".to_string());
    assert_eq!(c.validate(), Err(VisionConfigError::ModelType));
    let mut c = config();
    c.hidden_size = 33;
    assert_eq!(c.validate(), Err(VisionConfigError::Heads));
    let mut c = config();
    c.head_dim = 6;
    c.hidden_size = 24;
    assert_eq!(c.validate(), Err(VisionConfigError::HeadDim));
    let mut c = config();
    c.num_key_value_heads = 2;
    assert_eq!(c.check_heads(), Err(VisionConfigError::KeyHeads));
    assert_eq!((config().patch_pixels(), config().unit()), (48, 8));
    assert_eq!(f32::from_bits(config().rope_theta()), 100.0);
    assert!(vision_prof_enabled(Some("1")) && !vision_prof_enabled(None));
}

#[test]
fn the_longer_side_gives_way() {
    assert_eq!(fit_resolution(16, 16, 8, 256), (16, 16));
    assert_eq!(fit_resolution(64, 16, 8, 512), (32, 16));
    assert_eq!(fit_resolution(16, 64, 8, 512), (16, 32));
    // At least one unit is left.
    assert_eq!(fit_resolution(64, 64, 8, 100), (8, 64));
}

#[test]
fn soft_tokens_count_cells_up_to_a_limit() {
    // Eight by four patches, two by two to a token.
    assert_eq!(config().soft_tokens_at_resolution(32, 16, None), 8);
    assert_eq!(config().soft_tokens_at_resolution(32, 16, Some(5)), 5);
}

#[test]
fn whole_units_stay_whole_and_each_becomes_a_token() {
    // Five by three units with room for eight: two by three are left.
    let (w, h) = fit_resolution(40, 24, 8, 8 * 64);
    assert_eq!((w, h), (16, 24));
    assert_eq!(config().soft_tokens_at_resolution(w, h, Some(8)), 6);
    // Three to one and room for eight: four by one units, and no more than eight tokens.
    let (w, h) = fit_resolution(4 * 8, 8, 8, 8 * 64);
    assert_eq!(config().soft_tokens_at_resolution(w, h, Some(8)), 4);
    // A side of nine units alone is more than eight tokens.
    assert_eq!(fit_resolution(72, 72, 8, 8 * 64), (8, 72));
}

#[test]
fn a_whole_grid_is_recognised() {
    let p = full_grid_positions(3, 2);
    assert_eq!(p, vec![(0, 0), (1, 0), (2, 0), (0, 1), (1, 1), (2, 1)]);
    assert_eq!(detect_row_major_full_grid(&p, &[true; 6]), Some((3, 2)));
    assert_eq!(detect_row_major_full_grid(&p, &[true, true, true, true, true, false]), None);
    assert_eq!(detect_row_major_full_grid(&p[..5], &[true; 5]), None);
    let mut q = p.clone();
    q.swap(1, 2);
    assert_eq!(detect_row_major_full_grid(&q, &[true; 6]), None);
    assert_eq!(detect_row_major_full_grid(&[], &[]), None);
    assert_eq!(detect_row_major_full_grid(&[(0, 1)], &[true]), None);
    assert_eq!(detect_row_major_full_grid(&full_grid_positions(4, 1), &[true; 4]), Some((4, 1)));
    for (w, h) in [(1, 1), (1, 5), (7, 3)] {
        assert_eq!(detect_row_major_full_grid(&full_grid_positions(w, h), &vec![true; w * h]), Some((w, h)));
    }
}

#[test]
fn positions_are_clamped_to_the_table() {
    let (x, y) = position_ids(&[(-1, 3), (12, 9), (10, -7)], 10);
    assert_eq!((x, y), (vec![0, 9, 9], vec![3, 9, 0]));
    assert_eq!(valid_patches(&[(-1, -1), (-1, 0), (0, 0)]), vec![false, true, true]);
}

#[test]
fn patches_pool_by_cell() {
    let p = [(2, 0), (0, 0), (-1, -1), (1, 1), (0, 2)];
    let cells = pool_cells(&p, &[true, true, false, true, true], 2).unwrap();
    let got: Vec<(i64, i64, Vec<u32>)> = cells.into_iter().map(|c| (c.row, c.col, c.patches)).collect();
    assert_eq!(got, vec![(0, 0, vec![1, 3]), (0, 1, vec![0]), (1, 0, vec![4])]);
    // Division drops the fraction on both sides of zero.
    let cells = pool_cells(&[(-1, 3), (-3, 3)], &[true, true], 2).unwrap();
    assert_eq!(cells.iter().map(|c| (c.row, c.col)).collect::<Vec<_>>(), vec![(1, -1), (1, 0)]);
    assert_eq!(pool_cells(&[(0, 0)], &[false], 2).err(), Some(VisionError::NoPatches));
    let edge = pool_cells(&[(i64::MIN, i64::MAX)], &[true], 1).unwrap();
    assert_eq!((edge[0].row, edge[0].col), (i64::MAX, i64::MIN));
}

#[test]
fn both_ways_of_pooling_agree_on_a_grid() {
    let (w, h, k) = (6, 4, 2);
    let p = full_grid_positions(w, h);
    let cells = pool_cells(&p, &vec![true; w * h], k).unwrap();
    assert_eq!(cells.len(), (w / k) * (h / k));
    for i in 0..w * h {
        let (cell, member) = pool_full_grid(w, k, i);
        assert_eq!(cells[cell].patches[member], i as u32);
    }
}

#[test]
fn an_image_takes_the_grid_route_if_it_can() {
    let c = config();
    match c.route(&full_grid_positions(4, 2)) {
        Ok(VisionRoute::FullGrid(p)) => {
            assert_eq!((p.grid(), p.num_patches()), ((4, 2), 8));
            assert_eq!(p.x_ids, vec![0, 1, 2, 3, 0, 1, 2, 3]);
            assert_eq!(p.y_ids, vec![0, 0, 0, 0, 1, 1, 1, 1]);
            assert_eq!(c.check_full_grid(&p, 8, 48), Ok(()));
            assert_eq!(c.check_full_grid(&p, 7, 48), Err(VisionError::Plan));
            assert_eq!(c.check_full_grid(&p, 8, 47), Err(VisionError::Plan));
        }
        _ => panic!("a whole grid of whole cells"),
    }
    match c.route(&full_grid_positions(3, 2)) {
        Ok(VisionRoute::Irregular(p)) => {
            assert!(!p.masked);
            assert_eq!(p.cells.len(), 2);
        }
        _ => panic!("three columns do not make whole cells"),
    }
    match c.route(&[(0, 0), (-1, -1)]) {
        Ok(VisionRoute::Irregular(p)) => {
            assert!(p.masked);
            assert_eq!(p.valid, vec![true, false]);
        }
        _ => panic!("padding is no grid"),
    }
    assert_eq!(c.route(&[(-1, -1)]).err(), Some(VisionError::NoPatches));
    assert_eq!(c.plan_full_grid(3, 2).err(), Some(VisionError::Grid));
    assert_eq!(c.plan_full_grid(0, 2).err(), Some(VisionError::Grid));
    let mut zero = config();
    zero.pooling_kernel_size = 0;
    assert_eq!(zero.plan_full_grid(2, 2).err(), Some(VisionError::Grid));
    assert_eq!(c.check_image(5, 48, &[5, 2]), Ok(()));
    assert_eq!(c.check_image(5, 47, &[5, 2]), Err(VisionError::PatchPixels));
    assert_eq!(c.check_image(5, 48, &[4, 2]), Err(VisionError::PositionIds));
    assert_eq!(c.check_image(5, 48, &[5, 2, 1]), Err(VisionError::PositionIds));
}

fn names(model_tower: bool, bare_tower: bool, model_projection: bool, bare_projection: bool) -> VisionNamesPresent {
    VisionNamesPresent { model_tower, bare_tower, model_projection, bare_projection }
}

#[test]
fn a_checkpoint_keeps_the_tower_in_one_of_two_places() {
    let c = config();
    assert_eq!(
        c.locate(names(true, true, false, true)),
        Ok(VisionPlace { tower: NameRoot::Model, projection: NameRoot::Bare })
    );
    assert_eq!(c.locate(names(false, false, true, true)), Err(VisionError::NoTower));
    assert_eq!(c.locate(names(false, true, false, false)), Err(VisionError::NoProjection));
    let mut few = config();
    few.num_key_value_heads = 1;
    assert_eq!(few.locate(names(true, true, true, true)), Err(VisionError::Config(VisionConfigError::KeyHeads)));
    assert_eq!(tower_probe(NameRoot::Bare), "vision_tower.patch_embedder.input_proj.weight");
    assert_eq!(NameRoot::Model.projection(), "model.embed_vision.embedding_projection.weight");
    assert_eq!(c.text_width(&[100, 32]), Ok(100));
    assert_eq!(c.text_width(&[100, 33]), Err(VisionError::ProjectionShape));
    assert_eq!(c.text_width(&[100]), Err(VisionError::ProjectionShape));
    assert_eq!(c.check_table(&[2, 10, 32]), Ok(()));
    assert_eq!(c.check_table(&[2, 10, 31]), Err(VisionError::TableShape));
}

#[test]
fn the_tower_lists_its_tensors() {
    let w = config().load(VisionPlace { tower: NameRoot::Model, projection: NameRoot::Model });
    assert_eq!(w.position_table, "model.vision_tower.patch_embedder.position_embedding_table");
    assert_eq!((w.input_rows, w.input_cols, w.layers.len()), (32, 48, 2));
    let l = &w.layers[1];
    assert_eq!(l.q_norm.name, "model.vision_tower.encoder.layers.1.self_attn.q_norm.weight");
    assert_eq!((l.q_norm.dim, l.gate_proj.n, l.gate_proj.k, l.down_proj.n), (8, 64, 32, 32));
    assert_eq!(l.down_proj.weight, "model.vision_tower.encoder.layers.1.mlp.down_proj.linear.weight");
    let clips = l.down_proj.clips.as_ref().unwrap();
    assert_eq!(clips.output_max, "model.vision_tower.encoder.layers.1.mlp.down_proj.output_max");
    assert!(load_clipped("x".to_string(), 1, 2, false).clips.is_none());
    assert!(matrix_has_shape(&[2, 3], 2, 3) && !matrix_has_shape(&[2, 3, 1], 2, 3) && !matrix_has_shape(&[3, 2], 2, 3));
    assert!(vector_has_shape(&[4], 4) && !vector_has_shape(&[], 4));
}

#[test]
fn clips_are_reported_by_layer() {
    let clipped = ClippedLinear { input_clip: Some((1, 2)), output_clip: None };
    let t = Gemma4VisionTower {
        cfg: config(),
        layers: vec![VisionLayer { q_proj: clipped, down_proj: ClippedLinear::plain() }],
        text_hidden_size: 100,
    };
    assert_eq!(t.layer_clips(0), vec![Some((1, 2)), None, None, None]);
    assert_eq!((t.num_layers(), t.text_hidden_size(), t.config().hidden_size), (1, 100, 32));
    assert_eq!((clipped.input_clip(), clipped.output_clip()), (Some((1, 2)), None));
    assert_eq!(act_dtype(VisionDtype::U8), VisionDtype::BF16);
    assert_eq!(act_dtype(VisionDtype::F32), VisionDtype::F32);
}

#[test]
fn synthetic_words_come_from_the_seed() {
    let mut s = 7u64.wrapping_mul(0x9E37_79B9_7F4A_7C15).wrapping_add(0x1234_5678_9ABC_DEF1);
    let want: Vec<u32> = (0..5)
        .map(|_| {
            s = s.wrapping_mul(6364136223846793005).wrapping_add(1442695040888963407);
            (s >> 33) as u32
        })
        .collect();
    assert_eq!(synth_words(7, 5), want);
    assert_ne!(synth_words(8, 5), want);
    assert_eq!(synth_seed(2, 5), 3005);
}
