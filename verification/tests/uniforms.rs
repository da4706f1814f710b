//! The words of parameter blocks.
use nv_models::e4b_emit::Proj;
use nv_models::e4b_ir::{GroupsX, MkParams, Site, Uniform, W4Variant};
use nv_models::e4b_sizes::FdParams;
use nv_models::e4b_weights::{scale_words, HostW4};
use nv_models::moe_ir::{GemvBf16Params, MoeUniform, W4Params};
use nv_models::moe_session::FlashDecodeParams;

const GROUPS: GroupsX = GroupsX { invocations: 100, wg: 8 };

#[test]
fn words_stand_in_the_order_of_the_kernels() {
    let u = Uniform::Gather { rows_per_chunk: 1, row_words: 2, total_rows: 3, n_chunks: 4 };
    assert_eq!(u.words(9), Some(vec![1, 2, 3, 4]));
    let u = Uniform::Scale { n: 1, n_words: 2, scale: 3, cap: 4, inv_cap: 5 };
    assert_eq!(u.words(9), Some(vec![1, 2, 3, 4, 5, 0, 0, 0]));
    let u = Uniform::KvFp8 { n_tokens: 1, n_kv: 2, head_dim: 3, pairs: 4, slots: 5 };
    assert_eq!(u.words(9), Some(vec![1, 2, 3, 0, 4, 0, 5, 0]));
    let params = MkParams { m: 1, x_stride_words: 2, y_stride_words: 3, dst_word_off: 4 };
    assert_eq!(Uniform::Mk { params, row0: 7 }.words(9), Some(vec![1, 2, 3, 4]));
}

#[test]
fn the_launch_is_part_of_some_blocks() {
    let u = Uniform::GemvBf16 { n_rows: 1, k_elems: 2, w_row_words: 3, groups: GROUPS };
    assert_eq!(u.words(9), Some(vec![1, 2, 3, 9]));
    let u = Uniform::LmI8 { n_rows: 1, k_elems: 2, groups: GROUPS, dst_word_off: 3 };
    assert_eq!(u.words(9), Some(vec![1, 2, 9, 3]));
    let u = Uniform::Smk { n_rows: 1, k_elems: 2, row_words: 3, groups: GROUPS, m_live: 4 };
    assert_eq!(u.words(9), Some(vec![1, 2, 3, 9, 4, 0, 0, 0]));
}

#[test]
fn adapters_scale_by_one() {
    let u = Uniform::LoraFused {
        m: 1,
        rank: 2,
        k: 3,
        a_stride: 4,
        y_row_stride: 5,
        win_len: 6,
        off_counts: 7,
        off_start: 8,
        off_active: 9,
        off_slice_n: 10,
        off_slice_start: 11,
        off_b_off: 12,
        off_b_d0: 13,
    };
    assert_eq!(u.words(0), Some(vec![1, 2, 3, 4, 4, 5, 0, 6, 1f32.to_bits(), 7, 8, 9, 10, 11, 12, 13]));
}

#[test]
fn some_layouts_belong_to_the_kernels() {
    assert_eq!(Uniform::ArgmaxCap { n: 1, cap: 2 }.words(1), None);
    assert_eq!(Uniform::Fac { n_heads: 1, head_dim: 2, half_dim: 1, eps: 0, rows: 1 }.words(1), None);
}

#[test]
fn expert_blocks_have_whole_vectors() {
    let p = GemvBf16Params {
        n_rows: 1,
        k_words: 2,
        groups_x: GROUPS,
        out_f32: 3,
        w_row_words: 4,
        x_off_words: 5,
        y_off_words: 6,
        wide: 7,
        alpha: 8,
    };
    assert_eq!(MoeUniform::Gemv(p).words(9), vec![1, 2, 9, 3, 4, 5, 6, 7, 8, 0, 0, 0]);
    let p = W4Params {
        n_rows: 1,
        groups: 2,
        groups_x: GROUPS,
        w_e_stride_words: 3,
        s_e_stride_elems: 4,
        x_slot_stride_words: 5,
        y_slot_stride_words: 6,
        x_tok_stride_words: 7,
        k_top: 8,
    };
    assert_eq!(MoeUniform::W4(p).words(9), vec![1, 2, 9, 3, 4, 5, 6, 8]);
    assert_eq!(MoeUniform::PfW4(p).words(9), vec![1, 2, 9, 3, 4, 5, 6, 7, 8, 0, 0, 0]);
    assert_eq!(MoeUniform::Router { n_experts: 8, k: 2 }.words(9), vec![8, 2, 0, 0]);
}

#[test]
fn attention_blocks_hold_their_fields() {
    let f = FdParams {
        n_heads: 1,
        n_kv: 2,
        head_dim: 3,
        total: 4,
        start: 5,
        splits: 6,
        ring: 7,
        out_bf16: 8,
        scaling: 9,
        fused: 10,
        m_rows: 11,
        window: 12,
    };
    assert_eq!(f.words(), vec![1, 2, 3, 4, 5, 6, 7, 8, 9, 0, 10, 0, 11, 12, 0, 0]);
    let f = FlashDecodeParams { n_heads: 1, n_kv: 2, head_dim: 3, splits: 4, total: 5, start: 6, ring: 7, scale: 8 };
    assert_eq!(f.words(), vec![1, 2, 3, 4, 5, 6, 7, 8]);
}

#[test]
fn a_word_holds_two_four_or_eight_weights() {
    let site = Site::O(0);
    let p = Proj::Bf16 { site, n: 10, k: 64, groups: GROUPS };
    assert_eq!(p.params(), Uniform::GemvBf16 { n_rows: 10, k_elems: 64, w_row_words: 32, groups: GROUPS });
    let p = Proj::I8 { site, n: 10, k: 64, group: 0, groups: GROUPS };
    assert_eq!(p.params(), Uniform::GemvBf16 { n_rows: 10, k_elems: 64, w_row_words: 16, groups: GROUPS });
    let p = Proj::W4 { site, variant: W4Variant::Block, n: 10, k: 64, gs: 32, groups: GROUPS };
    let want =
        Uniform::GemvW4 { n_rows: 10, k_elems: 64, gs: 32, w_row_words: 8, scale_row_stride: 2, groups: GROUPS };
    assert_eq!(p.params(), want);
    assert_eq!(want.words(5), Some(vec![10, 64, 32, 8, 2, 5]));
}

#[test]
fn scales_take_a_word_each() {
    let q = HostW4 { packed: vec![0; 2], scales: vec![0x3f80, 0xffff], gs: 8 };
    assert_eq!(scale_words(&q), vec![0x3f80, 0xffff]);
}
