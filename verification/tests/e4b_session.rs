//! A decoding session: what is planned, refused and left behind.
use nv_models::e4b_batch::{find_stray, ids_of, positions, write_mk_live};
use nv_models::e4b_ir::MkParams;
use nv_models::e4b_probe::{pass_spans, prof_timeline, PassSpan, ProbeTail};
use nv_models::e4b_session::{
    hidden_bits, lead_row, prof_queries, window_start, ChainPlan, Gemma4E4bWgpu, PipePlan, ProfMode, SessionError,
    SplitArm, StepUniforms,
};
use nv_models::e4b_sizes::{bind_bytes, SessionStart};

fn start() -> SessionStart {
    SessionStart {
        max_seq: 100,
        vocab: 50,
        timestamps: true,
        profile: false,
        staged_read: true,
        spin_read: false,
        preenc: true,
        prefill_m: 4,
        tail: true,
        live_rows: true,
        verify_params: true,
        verify: Some((3, true)),
        sliding_window: 10,
        decode_splits: 16,
        deep: Some((20, 64)),
        deep_full_only: false,
    }
}

fn session() -> Gemma4E4bWgpu {
    Gemma4E4bWgpu::new(&start())
}

/// A session whose first step was validated, at position `pos`.
fn running(pos: usize) -> Gemma4E4bWgpu {
    let mut s = session();
    let p = s.step_inner(1).unwrap();
    s.step_done(&p, true).unwrap();
    s.restore_pos(pos).unwrap();
    s
}

#[test]
fn a_window_holds_the_last_positions() {
    assert_eq!(window_start(5, 10), 0);
    assert_eq!(window_start(10, 10), 0);
    assert_eq!(window_start(11, 10), 1);
    assert_eq!(window_start(100, 0), 0);
    // As many as the window, or all while there are fewer.
    assert_eq!(37 - window_start(37, 10), 10);
    assert_eq!(7 - window_start(7, 10), 7);
}

#[test]
fn a_step_writes_where_it_stands() {
    let s = running(30);
    assert_eq!(
        s.write_step_uniforms(Some(7)),
        StepUniforms { token: Some(7), pos: 30, total: 31, sliding_start: 21, sliding_splits: 64, full_splits: 64 }
    );
    let mut full_only = start();
    full_only.deep_full_only = true;
    let mut s = Gemma4E4bWgpu::new(&full_only);
    s.advance(30).unwrap();
    let u = s.write_step_uniforms(None);
    assert_eq!((u.sliding_splits, u.full_splits), (16, 64));
}

#[test]
fn the_deep_arm_takes_over_past_its_depth() {
    let s = session();
    assert_eq!(s.arm_for_total(20), SplitArm::Shallow);
    assert_eq!(s.arm_for_total(21), SplitArm::Deep);
    assert_eq!(s.arm_splits(SplitArm::Shallow), 16);
    assert_eq!(s.arm_splits(SplitArm::Deep), 64);
    let mut one = start();
    one.deep = None;
    let s = Gemma4E4bWgpu::new(&one);
    assert_eq!(s.arm_for_total(1_000_000), SplitArm::Shallow);
    assert_eq!(running(20).active_arm(), SplitArm::Deep);
    assert_eq!(running(19).active_arm(), SplitArm::Shallow);
}

#[test]
fn steps_are_refused_in_order() {
    let mut s = running(100);
    assert_eq!(s.step_inner(50), Err(SessionError::OutOfVocab(50)));
    assert_eq!(s.step_inner(49), Err(SessionError::CacheFull));
    s.restore_pos(10).unwrap();
    s.decode_step_pipelined(Some(1)).unwrap();
    assert_eq!(s.step_inner(49), Err(SessionError::PipeBusy));
}

#[test]
fn a_first_step_is_validated_and_a_failed_one_does_not_count() {
    let mut s = session();
    let p = s.step_inner(3).unwrap();
    assert!(p.validate && !p.reuse && !p.timed);
    assert_eq!(s.step_done(&p, false), Err(SessionError::Validation));
    assert_eq!(s.current_pos(), 0);
    let p = s.step_inner(3).unwrap();
    assert!(p.validate);
    assert_eq!(s.step_done(&p, true), Ok(()));
    assert_eq!(s.current_pos(), 1);
    let p = s.step_inner(3).unwrap();
    assert!(!p.validate);
    // The list was encoded ahead for the arm of the second step.
    assert!(p.reuse);
    assert_eq!(s.step_done(&p, false), Ok(()));
    assert_eq!(s.current_pos(), 2);
}

#[test]
fn a_list_for_the_other_arm_is_not_reused() {
    let mut s = running(18);
    let p = s.step_inner(1).unwrap();
    s.step_done(&p, true).unwrap();
    s.restore_pos(40).unwrap();
    assert_eq!(s.pending, Some(SplitArm::Shallow));
    assert!(!s.step_inner(1).unwrap().reuse);
}

#[test]
fn chains_run_in_one_go_once_the_graph_is_validated() {
    let mut s = session();
    assert!(matches!(s.decode_chain(1, 3), Ok(ChainPlan::StepByStep)));
    assert!(matches!(s.decode_chain(1, 0), Err(SessionError::ChainLength)));
    assert!(matches!(s.decode_chain(1, 9), Err(SessionError::ChainLength)));
    let mut s = running(18);
    match s.decode_chain(5, 3) {
        Ok(ChainPlan::OneGo(steps)) => {
            assert_eq!(steps.len(), 3);
            assert_eq!(steps[0].uniforms.token, Some(5));
            assert_eq!(steps[1].uniforms.token, None);
            assert_eq!(steps.iter().map(|p| p.uniforms.pos).collect::<Vec<_>>(), vec![18, 19, 20]);
            assert_eq!(
                steps.iter().map(|p| p.arm).collect::<Vec<_>>(),
                vec![SplitArm::Shallow, SplitArm::Shallow, SplitArm::Deep]
            );
        }
        _ => panic!("a validated session chains in one go"),
    }
    assert_eq!(s.current_pos(), 21);
    assert!(matches!(s.decode_chain(50, 2), Err(SessionError::OutOfVocab(50))));
    s.restore_pos(99).unwrap();
    assert!(matches!(s.decode_chain(1, 2), Err(SessionError::CacheFull)));
}

#[test]
fn the_pipe_runs_one_step_ahead() {
    let mut s = running(10);
    let PipePlan::Piped { prime, ahead, take } = s.decode_step_pipelined(Some(4)).unwrap() else {
        panic!("a validated session pipes")
    };
    let (prime, ahead) = (prime.unwrap(), ahead.unwrap());
    assert_eq!((prime.uniforms.pos, prime.uniforms.token, prime.slot), (10, Some(4), 0));
    assert_eq!((ahead.uniforms.pos, ahead.uniforms.token, ahead.slot), (11, None, 1));
    assert_eq!(take, 0);
    assert_eq!((s.current_pos(), s.decode_pipe_inflight()), (12, 1));
    let PipePlan::Piped { prime, ahead, take } = s.decode_step_pipelined(None).unwrap() else {
        panic!("a primed pipe goes on")
    };
    assert_eq!(prime, None);
    assert_eq!((ahead.unwrap().uniforms.pos, ahead.unwrap().slot), (12, 0));
    assert_eq!(take, 1);
    assert_eq!((s.current_pos(), s.decode_pipe_inflight()), (13, 1));
    assert_eq!(s.decode_step_pipelined(Some(4)), Err(SessionError::PipePrimed));
    // Two tokens were taken since position 10.
    assert_eq!(s.decode_pipe_abort(), 1);
    assert_eq!((s.current_pos(), s.decode_pipe_inflight()), (12, 0));
    assert_eq!(s.decode_step_pipelined(None), Err(SessionError::PipeNotPrimed));
}

#[test]
fn the_pipe_drains_at_the_end_of_the_cache() {
    let mut s = running(99);
    let PipePlan::Piped { prime, ahead, .. } = s.decode_step_pipelined(Some(4)).unwrap() else {
        panic!("a validated session pipes")
    };
    assert!(prime.is_some() && ahead.is_none());
    assert_eq!((s.current_pos(), s.decode_pipe_inflight()), (100, 0));
    assert_eq!(s.decode_step_pipelined(Some(4)), Err(SessionError::CacheFull));
}

#[test]
fn the_pipe_needs_staged_reads_and_a_token() {
    let mut s = session();
    assert_eq!(s.decode_step_pipelined(Some(9)), Ok(PipePlan::Plain(9)));
    assert_eq!(s.decode_step_pipelined(None), Err(SessionError::NeedsToken));
    s.set_staged_read(false);
    assert_eq!(s.decode_step_pipelined(Some(9)), Err(SessionError::NeedsStagedRead));
    let mut s = running(0);
    assert_eq!(s.decode_step_pipelined(Some(50)), Err(SessionError::OutOfVocab(50)));
}

#[test]
fn going_back_opens_a_new_epoch() {
    let mut s = running(10);
    let e = s.kv_epoch();
    assert_eq!(s.truncate_to(11), Err(SessionError::BeyondPos));
    assert_eq!((s.current_pos(), s.kv_epoch()), (10, e));
    assert_eq!(s.truncate_to(10), Ok(()));
    assert_eq!(s.kv_epoch(), e);
    assert_eq!(s.truncate_to(4), Ok(()));
    assert_eq!((s.current_pos(), s.kv_epoch()), (4, e + 1));
    assert_eq!(s.advance(3), Ok(()));
    assert_eq!((s.current_pos(), s.kv_epoch()), (7, e + 1));
    assert_eq!(s.advance(94), Err(SessionError::PastMaxSeq));
    assert_eq!(s.restore_pos(101), Err(SessionError::PastMaxSeq));
    assert_eq!(s.restore_pos(50), Ok(()));
    assert_eq!((s.current_pos(), s.kv_epoch()), (50, e + 2));
    assert_eq!(s.rewind_to(3, false), Ok(false));
    assert_eq!(s.current_pos(), 50);
    assert_eq!(s.rewind_to(3, true), Ok(true));
    assert_eq!((s.current_pos(), s.kv_epoch()), (3, e + 3));
    assert_eq!(s.rewind_to(4, true), Err(SessionError::BeyondPos));
    s.reset();
    assert_eq!((s.current_pos(), s.kv_epoch()), (0, e + 4));
}

#[test]
fn truncating_drops_what_runs_ahead() {
    let mut s = running(10);
    s.decode_step_pipelined(Some(1)).unwrap();
    let e = s.kv_epoch();
    assert_eq!(s.truncate_to(12), Err(SessionError::BeyondPos));
    assert_eq!((s.current_pos(), s.kv_epoch(), s.decode_pipe_inflight()), (11, e + 1, 0));
    s.decode_step_pipelined(Some(1)).unwrap();
    s.reset();
    assert_eq!((s.current_pos(), s.kv_epoch()), (0, e + 3));
}

#[test]
fn timing_needs_timestamps() {
    let mut s = session();
    assert!(s.set_prof_mode(ProfMode::PerDispatch));
    assert_eq!(s.prof_mode(), ProfMode::PerDispatch);
    assert!(s.step_inner(1).unwrap().timed);
    let mut without = start();
    without.timestamps = false;
    without.profile = true;
    let mut s = Gemma4E4bWgpu::new(&without);
    assert_eq!(s.prof_mode(), ProfMode::Off);
    assert!(!s.set_prof_mode(ProfMode::PassTotal));
    assert_eq!(s.prof_mode(), ProfMode::Off);
    assert_eq!(prof_queries(true, 10, 64), Ok((20, 160)));
    assert_eq!(prof_queries(false, 10, 64), Ok((2, 16)));
    assert_eq!(prof_queries(true, 33, 64), Err(SessionError::TooManyQueries));
}

#[test]
fn switches_drop_the_lists_that_they_outdate() {
    let mut s = running(5);
    let p = s.step_inner(1).unwrap();
    s.step_done(&p, true).unwrap();
    assert!(s.pending.is_some());
    s.set_preenc(false);
    assert!(s.pending.is_none() && !s.preenc());
    s.set_spin_read(true);
    assert!(s.spin_read());
    s.set_staged_read(false);
    assert!(!s.staged_read());
}

#[test]
fn chunks_have_their_exact_length() {
    let s = running(10);
    let p = s.prefill_chunk(&[1, 2, 3, 4]).unwrap();
    assert_eq!(p.ids, vec![1, 2, 3, 4]);
    assert_eq!(p.positions, vec![10, 11, 12, 13]);
    assert_eq!((p.kv_start, p.total, p.live, p.advance), (10, 14, None, 4));
    assert!(p.validate && !p.reuse);
    assert_eq!(s.prefill_chunk(&[1, 2, 3]).err(), Some(SessionError::ChunkLength));
    assert_eq!(s.prefill_chunk(&[1, 2, 50, 60]).err(), Some(SessionError::OutOfVocab(50)));
    assert_eq!(s.prefill_chunk_advance(&[1, 2, 3, 4], 0).err(), Some(SessionError::AdvanceRange));
    assert_eq!(s.prefill_chunk_advance(&[1, 2, 3, 4], 5).err(), Some(SessionError::AdvanceRange));
    assert_eq!(running(97).prefill_chunk(&[1, 2, 3, 4]).err(), Some(SessionError::CacheFull));
    let mut none = start();
    none.prefill_m = 0;
    none.verify = None;
    let s = Gemma4E4bWgpu::new(&none);
    assert_eq!(s.prefill_chunk(&[1]).err(), Some(SessionError::PrefillDisabled));
    assert_eq!((s.prefill_chunk_len(), s.verify_max_rows()), (0, 0));
}

#[test]
fn a_prompt_is_taken_in_chunks() {
    let mut s = running(0);
    let prompt = [1, 2, 3, 4, 5, 6];
    assert_eq!(s.prefill_prompt(&[]).err(), Some(SessionError::EmptyPrompt));
    let (chunk, n) = s.prefill_tokens(&prompt, 0).unwrap();
    assert_eq!((chunk, n), (vec![1, 2, 3, 4], 4));
    let p = s.prefill_chunk_advance(&[1, 2, 3, 4], 4).unwrap();
    s.prefill_done(&p, true).unwrap();
    // The rest is filled up with its last token, and two of its rows count.
    let (chunk, n) = s.prefill_tokens(&prompt, 4).unwrap();
    assert_eq!((chunk.clone(), n), (vec![5, 6, 6, 6], 2));
    let p = s.prefill_chunk_advance(&chunk, n).unwrap();
    assert!(!p.validate && p.reuse);
    s.prefill_done(&p, true).unwrap();
    assert_eq!(s.current_pos(), 6);
    assert_eq!(s.prefill_tokens(&prompt, 6), None);
    // No room for a padded chunk: the rest is left to single steps.
    let s = running(97);
    assert_eq!(s.prefill_tokens(&[1, 2], 0), None);
}

#[test]
fn an_invalid_first_chunk_does_not_count() {
    let mut s = running(0);
    let p = s.prefill_chunk(&[1, 2, 3, 4]).unwrap();
    assert_eq!(s.prefill_done(&p, false), Err(SessionError::Validation));
    assert_eq!(s.current_pos(), 0);
}

#[test]
fn verify_batches_leave_the_position() {
    let mut s = running(10);
    let b = s.verify_chain(&[7, 8]).unwrap();
    assert_eq!(b.ids, vec![7, 8, 8, 8]);
    assert_eq!((b.kv_start, b.total, b.m_rows, b.read), (10, 12, 2, 2));
    assert_eq!((b.live, b.epilogue_live), (Some(2), Some(2)));
    assert_eq!(b.stage_bytes, 12);
    assert!(b.validate);
    s.verify_done(&b, true).unwrap();
    assert_eq!(s.current_pos(), 10);
    let b = s.verify_chain(&[7, 8]).unwrap();
    assert_eq!((b.live, b.epilogue_live), (None, None));
    assert!(!b.validate && b.reuse && b.reuse_epilogue);
    assert_eq!(s.verify_chain(&[]).err(), Some(SessionError::BatchLength));
    assert_eq!(s.verify_chain(&[1, 2, 3, 4]).err(), Some(SessionError::BatchLength));
    assert_eq!(s.verify_chain(&[51]).err(), Some(SessionError::OutOfVocab(51)));
    assert_eq!(running(97).verify_chain(&[1]).err(), Some(SessionError::CacheFull));
    let mut none = start();
    none.verify = None;
    assert_eq!(Gemma4E4bWgpu::new(&none).verify_chain(&[1]).err(), Some(SessionError::VerifyDisabled));
    assert_eq!(s.verify_hidden_row(2, 8), Ok((16, 24)));
    assert_eq!(s.verify_hidden_row(3, 8), Err(SessionError::RowRange));
}

#[test]
fn profiled_runs_need_timestamps_and_queries() {
    let mut s = running(0);
    let (p, q) = s.prefill_chunk_profiled(&[1, 2, 3, 4], 8, 16).unwrap();
    assert_eq!((p.advance, q), (4, 16));
    assert_eq!(s.prefill_chunk_profiled(&[1, 2, 3, 4], 9, 16).err(), Some(SessionError::TooManyQueries));
    let (_, q) = s.verify_chain_profiled(&[1], 8, 16).unwrap();
    assert_eq!(q, 16);
    let mut without = start();
    without.timestamps = false;
    let mut s = Gemma4E4bWgpu::new(&without);
    assert_eq!(s.prefill_chunk_profiled(&[1, 2, 3, 4], 8, 16).err(), Some(SessionError::NoTimestamps));
    assert_eq!(s.verify_chain_profiled(&[1], 8, 16).err(), Some(SessionError::NoTimestamps));
}

#[test]
fn live_rows_of_slabs_add_up() {
    let p = MkParams { m: 4, x_stride_words: 1, y_stride_words: 2, dst_word_off: 3 };
    let slabs = [(p, 0), (p, 4), (p, 8)];
    let live: Vec<u32> = write_mk_live(&slabs, 6).iter().map(|p| p.m).collect();
    assert_eq!(live, vec![4, 2, 0]);
    assert_eq!(write_mk_live(&slabs, 6)[1].y_stride_words, 2);
}

#[test]
fn rows_and_ids() {
    assert_eq!(ids_of(&[3, 4], 4), vec![3, 4, 4, 4]);
    assert_eq!(positions(7, 3), vec![7, 8, 9]);
    assert_eq!(find_stray(&[1, 9, 10, 11], 10), Some(10));
    assert_eq!(find_stray(&[1, 9], 10), None);
    assert_eq!(lead_row(5, 3), vec![5, 0, 0]);
}

#[test]
fn snapshots_wait_for_the_pipe() {
    let mut s = running(10);
    assert_eq!(s.kv_cache_snapshot(), Ok(()));
    assert_eq!(s.decode_hidden_row(), Ok(()));
    assert_eq!(s.kv_cache_snapshot_range(1000, 3, 5), Ok((30, 50)));
    assert_eq!(s.kv_cache_snapshot_range(1000, 98, 3), Err(SessionError::PastMaxSeq));
    s.decode_step_pipelined(Some(1)).unwrap();
    assert_eq!(s.kv_cache_snapshot(), Err(SessionError::Speculative));
    assert_eq!(s.decode_hidden_row(), Err(SessionError::Speculative));
    assert!(s.kv_cache_restore(true));
    assert_eq!((s.current_pos(), s.decode_pipe_inflight()), (11, 0));
    assert!(!s.kv_cache_restore(false));
}

#[test]
fn hidden_words_unpack_to_both_halves() {
    let bits = hidden_bits(&[0x4000_3f80, 0xbf80_0000]);
    let values: Vec<f32> = bits.into_iter().map(f32::from_bits).collect();
    assert_eq!(values, vec![1.0, 2.0, 0.0, -1.0]);
}

#[test]
fn probing_runs_picked_passes_again() {
    let mut s = running(30);
    s.step_done(&s.step_inner(1).unwrap(), true).unwrap();
    let labels: Vec<String> = ["gemv a", "norm", "gemv b"].iter().map(|s| s.to_string()).collect();
    let bytes = vec![10u64, 20, 30];
    let mut tail = ProbeTail::new(3);
    assert_eq!(s.probe_append(&mut tail, &labels, &bytes, "gemv", 2), Some(4));
    assert_eq!(tail.places, vec![0, 2, 0, 2]);
    assert!(s.pending.is_none());
    let run = s.probe_prefix(&tail, 5).unwrap();
    assert_eq!(
        run,
        vec![
            (0, SplitArm::Deep),
            (1, SplitArm::Deep),
            (2, SplitArm::Deep),
            (0, SplitArm::Shallow),
            (2, SplitArm::Shallow)
        ]
    );
    assert_eq!(s.probe_prefix(&tail, 8).err(), Some(SessionError::PrefixLength));
    assert_eq!(s.probe_append_class(&mut tail, &labels, &bytes, "gemv", Some(30), 1), Some(1));
    assert_eq!(tail.places, vec![2]);
    s.probe_append_clear(&mut tail);
    assert_eq!(tail.len(), 3);
    assert_eq!(s.probe_at(1, 100), Err(SessionError::PastMaxSeq));
    assert_eq!(s.probe_at(1, 7).unwrap().pos, 7);
}

#[test]
fn spans_count_from_the_first_pass() {
    let spans = pass_spans(&[100, 130, 140, 150, 145, 90], 3);
    assert_eq!(
        spans,
        vec![
            PassSpan { begin: 0, end: 30, ticks: 30 },
            PassSpan { begin: 40, end: 50, ticks: 10 },
            PassSpan { begin: 45, end: 0, ticks: 0 }
        ]
    );
    let labels = vec!["a".to_string(), "b".to_string()];
    assert_eq!(prof_timeline(&labels, &vec![(1, 5, 6)]), vec![("b".to_string(), 5, 6)]);
}

#[test]
fn bound_bytes_are_summed_and_the_widest_is_kept() {
    assert_eq!(bind_bytes(&[3, 9, 4]), (16, 9));
    assert_eq!(bind_bytes(&[]), (0, 0));
}

#[test]
fn a_timed_step_marks_each_pass_or_all_of_them() {
    let mut s = running(30);
    let mut tail = ProbeTail::new(2);
    tail.places = vec![1];
    let p = s.submit_prof(&tail, 4096).unwrap();
    assert_eq!((p.queries, p.bytes, p.stage), (2, 16, true));
    let marks: Vec<_> = p.passes.iter().map(|m| (m.runs.len(), m.begin, m.end)).collect();
    assert_eq!(marks, vec![(0, Some(0), None), (3, None, None), (0, None, Some(1))]);
    // Passes that run again are those of the shallow arm.
    let runs = vec![(0, SplitArm::Deep), (1, SplitArm::Deep), (1, SplitArm::Shallow)];
    assert_eq!(p.passes[1].runs, runs);
    assert_eq!(s.probe_encode(&tail, 3).unwrap(), runs);
    assert_eq!(s.probe_encode(&tail, 4), Err(SessionError::PrefixLength));
    assert!(s.set_prof_mode(ProfMode::PerDispatch));
    let p = s.submit_prof(&tail, 4096).unwrap();
    assert_eq!((p.queries, p.bytes), (6, 48));
    for (i, m) in p.passes.iter().enumerate() {
        assert_eq!(m.runs, vec![runs[i]]);
        assert_eq!((m.begin, m.end), (Some(2 * i as u32), Some(2 * i as u32 + 1)));
    }
    assert!(matches!(s.submit_prof(&tail, 5), Err(SessionError::TooManyQueries)));
}

#[test]
fn limits_of_a_rewind_are_the_ring_the_window_and_the_chunk() {
    assert_eq!(running(3).rewind_limits(16), (16, 10, 4));
}
