//! Placeholders for images and sounds, and the rows that replace them.
use candle_core::{DType, Device, Tensor};
use nv_models::mm_splice::{
    audio_num_soft_tokens, expand_audio_placeholder, expand_image_placeholder, placeholder_runs, Modality,
    PlaceholderRun, GEMMA4_AUDIO_TOKEN_ID, GEMMA4_BOA_TOKEN_ID, GEMMA4_BOI_TOKEN_ID, GEMMA4_EOA_TOKEN_ID,
    GEMMA4_EOI_TOKEN_ID, GEMMA4_IMAGE_TOKEN_ID,
};
use nv_models::mm_tensor::{plan_splice, splice_mm_embeddings, ItemFacts, MmItem, Piece, SpliceError};

const IMG: u32 = GEMMA4_IMAGE_TOKEN_ID;
const AUD: u32 = GEMMA4_AUDIO_TOKEN_ID;

#[test]
fn placeholders_are_framed() {
    assert_eq!(expand_image_placeholder(2), vec![GEMMA4_BOI_TOKEN_ID, IMG, IMG, GEMMA4_EOI_TOKEN_ID]);
    assert_eq!(expand_audio_placeholder(0), vec![GEMMA4_BOA_TOKEN_ID, GEMMA4_EOA_TOKEN_ID]);
    // What was expanded is found as one run.
    assert_eq!(
        placeholder_runs(&expand_audio_placeholder(3)),
        vec![PlaceholderRun { modality: Modality::Audio, start: 1, len: 3 }]
    );
    assert_eq!(Modality::Image.placeholder_token_id(), IMG);
}

#[test]
fn runs_are_as_long_as_they_can_be() {
    let runs = placeholder_runs(&[IMG, IMG, 5, AUD, IMG]);
    assert_eq!(
        runs,
        vec![
            PlaceholderRun { modality: Modality::Image, start: 0, len: 2 },
            PlaceholderRun { modality: Modality::Audio, start: 3, len: 1 },
            PlaceholderRun { modality: Modality::Image, start: 4, len: 1 }
        ]
    );
    assert_eq!(placeholder_runs(&[1, 2]), Vec::new());
}

#[test]
fn a_second_of_sound_is_twenty_five_tokens() {
    // 320 samples to a frame, 160 to a hop: 99 frames, halved twice.
    assert_eq!(audio_num_soft_tokens(16_000, 16_000, 1000), 25);
    assert_eq!(audio_num_soft_tokens(16_000, 16_000, 10), 10);
    assert_eq!(audio_num_soft_tokens(100, 16_000, 10), 0);
    assert_eq!(audio_num_soft_tokens(1000, 0, 10), 0);
}

fn facts(modality: Modality, position: usize, rows: usize) -> ItemFacts {
    ItemFacts { modality, position, dims: vec![rows, 2], same_dtype: true }
}

#[test]
fn a_plan_takes_text_and_items_in_turn() {
    let tokens = [7, IMG, IMG, 8, AUD];
    let dims = vec![5, 2];
    // Items may come in any order.
    let items = vec![facts(Modality::Audio, 4, 1), facts(Modality::Image, 1, 2)];
    assert_eq!(
        plan_splice(&dims, &tokens, &items).unwrap(),
        vec![Piece::Text { start: 0, len: 1 }, Piece::Item(1), Piece::Text { start: 3, len: 1 }, Piece::Item(0)]
    );
    assert_eq!(plan_splice(&vec![5], &tokens, &items).err(), Some(SpliceError::TextShape));
    assert_eq!(plan_splice(&vec![4, 2], &tokens, &items).err(), Some(SpliceError::RowCount));
    let few = vec![facts(Modality::Image, 1, 2)];
    assert_eq!(plan_splice(&dims, &tokens, &few).err(), Some(SpliceError::ItemCount));
    let off = vec![facts(Modality::Image, 2, 2), facts(Modality::Audio, 4, 1)];
    assert_eq!(plan_splice(&dims, &tokens, &off).err(), Some(SpliceError::Position(0)));
    let kind = vec![facts(Modality::Audio, 1, 2), facts(Modality::Audio, 4, 1)];
    assert_eq!(plan_splice(&dims, &tokens, &kind).err(), Some(SpliceError::Kind(0)));
    let long = vec![facts(Modality::Image, 1, 3), facts(Modality::Audio, 4, 1)];
    assert_eq!(plan_splice(&dims, &tokens, &long).err(), Some(SpliceError::Length(0)));
    let mut other = facts(Modality::Image, 1, 2);
    other.same_dtype = false;
    assert_eq!(
        plan_splice(&dims, &tokens, &vec![other, facts(Modality::Audio, 4, 1)]).err(),
        Some(SpliceError::ElementType(0))
    );
    let mut flat = facts(Modality::Image, 1, 2);
    flat.dims = vec![4];
    assert_eq!(
        plan_splice(&dims, &tokens, &vec![flat, facts(Modality::Audio, 4, 1)]).err(),
        Some(SpliceError::Shape(0))
    );
}

fn rows(v: &[[f32; 2]]) -> Tensor {
    let flat: Vec<f32> = v.iter().flat_map(|r| r.iter().copied()).collect();
    Tensor::from_vec(flat, (v.len(), 2), &Device::Cpu).unwrap()
}

#[test]
fn rows_of_items_take_the_place_of_placeholders() {
    let text = rows(&[[0.0, 1.0], [9.0, 9.0], [9.0, 9.0], [2.0, 3.0], [9.0, 9.0]]);
    let items = [
        MmItem { modality: Modality::Audio, position: 4, embedding: rows(&[[30.0, 31.0]]) },
        MmItem { modality: Modality::Image, position: 1, embedding: rows(&[[10.0, 11.0], [20.0, 21.0]]) },
    ];
    let out = splice_mm_embeddings(&text, &[7, IMG, IMG, 8, AUD], &items).unwrap();
    assert_eq!(
        out.to_vec2::<f32>().unwrap(),
        vec![vec![0.0, 1.0], vec![10.0, 11.0], vec![20.0, 21.0], vec![2.0, 3.0], vec![30.0, 31.0]]
    );
    assert_eq!((out.dims(), out.dtype()), (text.dims(), text.dtype()));
    // The order in which items are handed over does not matter.
    let [sound, image] = items;
    let turned = splice_mm_embeddings(&text, &[7, IMG, IMG, 8, AUD], &[image, sound]).unwrap();
    assert_eq!(turned.to_vec2::<f32>().unwrap(), out.to_vec2::<f32>().unwrap());
    // Without placeholders the text comes back as it is.
    let same = splice_mm_embeddings(&text, &[1, 2, 3, 4, 5], &[]).unwrap();
    assert_eq!(same.to_vec2::<f32>().unwrap(), text.to_vec2::<f32>().unwrap());
}

#[test]
fn rows_without_elements_are_spliced_too() {
    let text = Tensor::zeros((4, 0), DType::F32, &Device::Cpu).unwrap();
    // A view of nothing that begins behind its storage.
    let whole = Tensor::zeros((3, 4), DType::F32, &Device::Cpu).unwrap();
    let nothing = whole.narrow(1, 1, 2).unwrap().narrow(0, 3, 0).unwrap().reshape((4, 0)).unwrap();
    let item = MmItem { modality: Modality::Image, position: 0, embedding: nothing };
    let out = splice_mm_embeddings(&text, &[IMG; 4], &[item]).unwrap();
    assert_eq!((out.dims(), out.dtype()), (&[4, 0][..], DType::F32));
}

#[test]
fn a_result_that_fits_no_memory_is_refused() {
    let wide = |rows: usize| {
        let one = Tensor::zeros((1, 1), DType::F32, &Device::Cpu).unwrap();
        one.broadcast_as((rows, 1usize << 61)).unwrap()
    };
    let item = MmItem { modality: Modality::Image, position: 1, embedding: wide(1) };
    assert_eq!(splice_mm_embeddings(&wide(2), &[7, IMG], &[item]).err(), Some(SpliceError::TooLarge));
}

#[test]
fn rows_of_another_element_type_are_refused() {
    let text = rows(&[[0.0, 1.0], [9.0, 9.0]]);
    let item = MmItem {
        modality: Modality::Image,
        position: 1,
        embedding: rows(&[[1.0, 1.0]]).to_dtype(DType::F64).unwrap(),
    };
    assert_eq!(splice_mm_embeddings(&text, &[1, IMG], &[item]).err(), Some(SpliceError::ElementType(0)));
    assert_eq!(splice_mm_embeddings(&text, &[1, IMG], &[]).err(), Some(SpliceError::NoItems(1)));
    let flat = Tensor::from_vec(vec![1.0f32, 2.0], 2, &Device::Cpu).unwrap();
    assert_eq!(splice_mm_embeddings(&flat, &[1, 2], &[]).err(), Some(SpliceError::TextShape));
}
