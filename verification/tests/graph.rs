//! Captured graphs: which one a step replays, and what it leaves behind.
use nv_models::graph::{
    decode_graph_key, verify_lens, GraphStep, GraphVerifyError, GraphVerifyLens, GraphedGemma4Decoder,
    GraphedGemma4Verify, DECODE_GRAPH_KEY_LOGITS_DTOD, DECODE_GRAPH_KEY_NO_LOGITS_DTOD,
};

#[test]
fn each_kind_of_step_has_its_own_graph() {
    assert_eq!(decode_graph_key(false), DECODE_GRAPH_KEY_NO_LOGITS_DTOD);
    assert_eq!(decode_graph_key(true), DECODE_GRAPH_KEY_LOGITS_DTOD);
    assert_ne!(decode_graph_key(false), decode_graph_key(true));
    assert_eq!((decode_graph_key(false), decode_graph_key(true)), (1, 2));
}

#[test]
fn a_kind_of_step_is_warmed_once() {
    let mut d = GraphedGemma4Decoder::new(5, true);
    assert_eq!(
        d.forward_decode(42, 5),
        GraphStep { token: 42, pos: 5, pending_from: 5, pending_to: 6, key: 1, warm: Some(5) }
    );
    d.decode_done(false);
    assert_eq!((d.current_pos(), d.call_count(), d.capture_active()), (6, 1, true));
    assert!(d.has_captured_arm(false) && !d.has_captured_arm(true));
    assert_eq!(d.forward_decode(42, 6).warm, None);
    assert_eq!(d.forward_decode_logits(42, 6).warm, Some(6));
    d.decode_done(true);
    assert_eq!(d.forward_decode_logits(42, 7).warm, None);
    assert_eq!(d.forward_decode(42, 7).warm, None);
    // A step begins where the one before it ended.
    assert_eq!(d.forward_decode(42, 7).pending_from, 7);
}

#[test]
fn a_forked_capture_is_never_warmed() {
    let d = GraphedGemma4Decoder::new(0, false);
    assert_eq!(d.forward_decode(1, 0).warm, None);
    assert!(!d.capture_active() && d.call_count() == 0);
}

#[test]
fn buffers_hold_a_whole_batch() {
    assert_eq!(
        verify_lens(4, 3, 100, 8, 16),
        GraphVerifyLens {
            tokens: 4,
            positions: 4,
            mask: 16,
            logits: 400,
            aux: 96,
            argmax_values: 64,
            argmax_indices: 64,
            argmax_out: 4
        }
    );
}

#[test]
fn a_batch_is_taken_whole_or_not_at_all() {
    let mut v = GraphedGemma4Verify::new(2, vec![1, 5, 9], 100, 8, 20);
    assert_eq!((v.k(), v.cache_capacity()), (2, 20));
    assert_eq!(v.run_inner(&[1], &[3, 4], &[1; 4], 3, false).err(), Some(GraphVerifyError::Shape));
    assert_eq!(v.run_inner(&[1, 2], &[3, 4], &[1; 3], 3, false).err(), Some(GraphVerifyError::Shape));
    assert_eq!(
        v.run_inner(&[1, 2], &[3, 4], &[1; 4], 19, false).err(),
        Some(GraphVerifyError::Overflow { committed: 19, k: 2, capacity: 20 })
    );
    assert_eq!(v.host_toks, vec![0, 0]);
    let s = v.run_inner(&[1, 2], &[18, 19], &[1, 0, 1, 1], 18, true).unwrap();
    assert!(s.warm && s.timed);
    assert_eq!((s.key, s.rows, s.cols, s.argmax_rows, s.argmax_cols), (1, 1, 2, 2, 100));
    // The parts of the auxiliary layers lie one behind the other.
    assert_eq!(s.aux, vec![(0, 16), (16, 32), (32, 48)]);
    assert_eq!((v.host_toks.clone(), v.host_pos.clone(), v.host_mask.clone(), v.host_committed), (vec![1, 2], vec![18, 19], vec![1, 0, 1, 1], 18));
    assert!(!v.captured);
    v.verify_done(Some(1.5f32.to_bits()));
    assert!(v.captured);
    assert_eq!(v.last_replay_ms.map(f32::from_bits), Some(1.5));
    assert!(!v.run_inner(&[1, 2], &[3, 4], &[1; 4], 3, false).unwrap().warm);
    v.verify_done(None);
    assert_eq!(v.last_replay_ms.map(f32::from_bits), Some(1.5));
}
