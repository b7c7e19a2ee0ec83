use simularity_core::generation::{InferRun, StopReason, TokenStep};
use simularity_core::gpt;
use simularity_core::gpt::create::Initial;
use simularity_core::kv::{prefill_batch, BatchEntry, KvPlan, Token};
use simularity_core::session::Session;
use simularity_core::{Service, SimularityModelInfo};

/// A stand-in for the runtime's cache: carries out a plan position by position.
fn apply(kv: &mut Vec<Token>, plan: &KvPlan) {
    if let Some(from) = plan.clear_from {
        kv.truncate(from);
    }
    for e in &plan.batch {
        if e.pos < kv.len() {
            kv[e.pos] = e.token;
        } else {
            assert_eq!(e.pos, kv.len());
            kv.push(e.token);
        }
    }
}

fn cache_of(s: &Session) -> Vec<Token> {
    let mut c = s.committed_tokens();
    c.extend(s.uncommitted_tokens());
    c
}

/// Runs a generation loop on `s`, taking the tokens of `script` as the samples, each
/// producing its own bytes.
fn generate(s: &mut Session, kv: &mut Vec<Token>, run: &mut InferRun, script: &[(Token, &str)]) {
    for (t, bytes) in script {
        if !run.wants_token(s) {
            return;
        }
        match run.on_token(*t, &bytes.as_bytes().to_vec()) {
            TokenStep::Stop => return,
            TokenStep::Emit(_) => {}
        }
        let plan = run.after_emit(s, *t, true, false).expect("a kept token is decoded");
        apply(kv, &plan);
        assert_eq!(*kv, cache_of(s));
    }
    run.wants_token(s);
}

fn model_info() -> SimularityModelInfo {
    SimularityModelInfo { n_params: 7, size: 1024, n_ctx_train: 64 }
}

fn service_with_model() -> Service {
    let mut svc = Service::init(None, None);
    svc.model_load("m", Some((0xfeed, model_info()))).unwrap();
    svc
}

#[test]
fn prefill_batch_puts_head_then_new_tokens() {
    let b = prefill_batch(&vec![5, 6], &vec![7, 8]);
    assert_eq!(
        b,
        vec![
            BatchEntry { token: 6, pos: 1, logits: true },
            BatchEntry { token: 7, pos: 2, logits: false },
            BatchEntry { token: 8, pos: 3, logits: true },
        ]
    );
    let first = prefill_batch(&vec![], &vec![1, 2]);
    assert_eq!(
        first,
        vec![BatchEntry { token: 1, pos: 0, logits: false }, BatchEntry { token: 2, pos: 1, logits: true }]
    );
}

#[test]
fn decode_appends_and_cache_follows_logs() {
    let mut s = Session::new(16);
    let mut kv = Vec::new();
    let p = s.decode(&vec![1, 2, 3]).unwrap();
    apply(&mut kv, &p);
    assert_eq!(kv, vec![1, 2, 3]);
    assert_eq!(s.committed_len(), 3);
    let p = s.decode(&vec![4]).unwrap();
    apply(&mut kv, &p);
    assert_eq!(kv, vec![1, 2, 3, 4]);
    assert_eq!(s.kv_cache_size(), kv.len());
}

#[test]
fn decode_overflow_changes_nothing() {
    let mut s = Session::new(4);
    s.decode(&vec![1, 2, 3]).unwrap();
    s.begin_infer(&vec![9]).unwrap();
    let before = (s.committed_tokens(), s.uncommitted_tokens());
    assert_eq!(s.decode(&vec![4, 5]).err(), Some(gpt::decode::Error::ContextOverflow));
    assert_eq!((s.committed_tokens(), s.uncommitted_tokens()), before);
}

#[test]
fn zero_eval_generates_no_token() {
    let mut s = Session::new(8);
    s.decode(&vec![1]).unwrap();
    s.begin_infer(&vec![]).unwrap();
    let mut run = InferRun::new(0, 99, vec![]);
    assert!(!run.wants_token(&s));
    assert_eq!(run.stop_reason(), Some(StopReason::Limit));
    assert_eq!(run.generated_count(), 0);
    assert_eq!(s.uncommitted_len(), 0);
}

#[test]
fn end_of_stream_is_not_kept() {
    let mut s = Session::new(8);
    let mut kv = Vec::new();
    apply(&mut kv, &s.decode(&vec![1]).unwrap());
    apply(&mut kv, &s.begin_infer(&vec![]).unwrap());
    let mut run = InferRun::new(5, 99, vec![]);
    generate(&mut s, &mut kv, &mut run, &[(10, "a"), (99, ""), (11, "b")]);
    assert_eq!(run.stop_reason(), Some(StopReason::EndOfStream));
    assert_eq!(s.uncommitted_tokens(), vec![10]);
    assert_eq!(run.output_bytes(), b"a".to_vec());
}

#[test]
fn stop_sequence_split_across_tokens() {
    let mut s = Session::new(16);
    let mut kv = Vec::new();
    apply(&mut kv, &s.decode(&vec![1]).unwrap());
    apply(&mut kv, &s.begin_infer(&vec![]).unwrap());
    let mut run = InferRun::new(10, 99, vec![b"\n\n".to_vec()]);
    generate(&mut s, &mut kv, &mut run, &[(20, "hi\n"), (21, "\n"), (22, "x")]);
    assert_eq!(run.stop_reason(), Some(StopReason::StopSequence));
    assert_eq!(run.output_bytes(), b"hi".to_vec());
    // The token that completed the sequence is not kept.
    assert_eq!(s.uncommitted_tokens(), vec![20]);
    assert_eq!(run.generated_count(), 1);
}

#[test]
fn first_matching_stop_sequence_is_cut() {
    let mut s = Session::new(16);
    let mut kv = Vec::new();
    apply(&mut kv, &s.decode(&vec![1]).unwrap());
    apply(&mut kv, &s.begin_infer(&vec![]).unwrap());
    let mut run = InferRun::new(10, 99, vec![b"bc".to_vec(), b"c".to_vec()]);
    generate(&mut s, &mut kv, &mut run, &[(5, "abc")]);
    assert_eq!(run.output_bytes(), b"a".to_vec());
}

#[test]
fn callback_false_and_abort_end_the_loop() {
    let mut s = Session::new(16);
    s.decode(&vec![1]).unwrap();
    s.begin_infer(&vec![]).unwrap();
    let mut run = InferRun::new(10, 99, vec![]);
    assert!(run.wants_token(&s));
    assert!(matches!(run.on_token(3, &b"x".to_vec()), TokenStep::Emit(_)));
    assert!(run.after_emit(&mut s, 3, false, false).is_none());
    assert_eq!(run.stop_reason(), Some(StopReason::Cancelled));
    assert_eq!(s.uncommitted_len(), 0);

    let mut run = InferRun::new(10, 99, vec![]);
    assert!(run.wants_token(&s));
    assert!(matches!(run.on_token(3, &b"x".to_vec()), TokenStep::Emit(_)));
    assert!(run.after_emit(&mut s, 3, true, true).is_none());
    assert_eq!(run.stop_reason(), Some(StopReason::Aborted));
}

#[test]
fn loop_stops_when_cache_is_full() {
    let mut s = Session::new(3);
    let mut kv = Vec::new();
    apply(&mut kv, &s.decode(&vec![1]).unwrap());
    apply(&mut kv, &s.begin_infer(&vec![]).unwrap());
    let mut run = InferRun::new(10, 99, vec![]);
    generate(&mut s, &mut kv, &mut run, &[(4, "a"), (5, "b"), (6, "c")]);
    assert_eq!(run.stop_reason(), Some(StopReason::ContextFull));
    assert_eq!(s.kv_cache_size(), 3);
}

#[test]
fn infer_then_commit_equals_decode() {
    let mut a = Session::new(32);
    let mut b = Session::new(32);
    let mut kva = Vec::new();
    apply(&mut kva, &a.decode(&vec![1, 2]).unwrap());
    b.decode(&vec![1, 2]).unwrap();
    apply(&mut kva, &a.begin_infer(&vec![3]).unwrap());
    let mut run = InferRun::new(2, 99, vec![]);
    generate(&mut a, &mut kva, &mut run, &[(7, "x"), (8, "y")]);
    a.commit();
    b.decode(&vec![3, 7, 8]).unwrap();
    assert_eq!(a.committed_tokens(), b.committed_tokens());
    assert_eq!(kva, b.committed_tokens());
}

#[test]
fn second_infer_sees_same_prefix() {
    let mut s = Session::new(32);
    let mut kv = Vec::new();
    apply(&mut kv, &s.decode(&vec![1, 2]).unwrap());
    apply(&mut kv, &s.begin_infer(&vec![]).unwrap());
    let mut run = InferRun::new(3, 99, vec![]);
    generate(&mut s, &mut kv, &mut run, &[(7, "a"), (8, "b"), (9, "c")]);
    let p = s.begin_infer(&vec![]).unwrap();
    assert_eq!(p.clear_from, Some(2));
    apply(&mut kv, &p);
    assert_eq!(kv, vec![1, 2]);
    assert_eq!(s.committed_tokens(), vec![1, 2]);
}

#[test]
fn reset_goes_back_to_initial_prompt() {
    let mut s = Session::new(32);
    let mut kv = Vec::new();
    apply(&mut kv, &s.decode(&vec![1, 2]).unwrap());
    s.mark_initial_prompt();
    apply(&mut kv, &s.decode(&vec![3]).unwrap());
    apply(&mut kv, &s.begin_infer(&vec![]).unwrap());
    let mut run = InferRun::new(2, 99, vec![]);
    generate(&mut s, &mut kv, &mut run, &[(7, "a"), (8, "b")]);
    s.commit();
    let (p, n) = s.reset();
    apply(&mut kv, &p);
    assert_eq!(n, 2);
    assert_eq!(kv, vec![1, 2]);
    assert_eq!(s.uncommitted_len(), 0);
}

#[test]
fn restore_then_decode_equals_decode_from_scratch() {
    let mut a = Session::new(16);
    assert!(a.restore(&vec![1, 2, 3]));
    a.decode(&vec![4, 5]).unwrap();
    let mut b = Session::new(16);
    b.decode(&vec![1, 2, 3, 4, 5]).unwrap();
    assert_eq!(a.committed_tokens(), b.committed_tokens());
    let mut c = Session::new(2);
    assert!(!c.restore(&vec![1, 2, 3]));
    assert_eq!(c.committed_len(), 0);
}

// End to end, through the service.

#[test]
fn create_decode_infer_commit() {
    let mut svc = service_with_model();
    let mut kv = Vec::new();
    // "Hello" as two tokens.
    let (id, p) = gpt::create::create(&mut svc, "m", Some(64), &Initial::Prompt(vec![15, 16]), 0).unwrap();
    apply(&mut kv, &p);
    // " world" as one token.
    let (len, p) = gpt::decode::decode(&mut svc, id, &vec![17], 1).unwrap();
    apply(&mut kv, &p);
    assert_eq!(len, 3);
    let (mut inf, p) = gpt::infer::begin(&mut svc, id, &vec![], 3, 2, vec![], 2).unwrap();
    apply(&mut kv, &p);
    generate(&mut inf.entry.session, &mut kv, &mut inf.run, &[(30, "a"), (31, "b"), (32, "c"), (33, "d")]);
    assert_eq!(inf.entry.session.uncommitted_len(), 3);
    let (n, aborted) = gpt::infer::finish(&mut svc, inf, 3);
    assert_eq!((n, aborted), (3, false));
    assert_eq!(gpt::commit::commit(&mut svc, id, 4), Ok(6));
}

#[test]
fn second_infer_rolls_back_first() {
    let mut svc = service_with_model();
    let mut kv = Vec::new();
    let (id, p) = gpt::create::create(&mut svc, "m", None, &Initial::Prompt(vec![15, 16]), 0).unwrap();
    apply(&mut kv, &p);
    let (mut inf, p) = gpt::infer::begin(&mut svc, id, &vec![], 3, 2, vec![], 1).unwrap();
    apply(&mut kv, &p);
    generate(&mut inf.entry.session, &mut kv, &mut inf.run, &[(30, "a"), (31, "b"), (32, "c")]);
    gpt::infer::finish(&mut svc, inf, 2);
    let (mut inf, p) = gpt::infer::begin(&mut svc, id, &vec![], 5, 2, vec![], 3).unwrap();
    assert_eq!(p.clear_from, Some(2));
    apply(&mut kv, &p);
    assert_eq!(kv, vec![15, 16]);
    generate(
        &mut inf.entry.session,
        &mut kv,
        &mut inf.run,
        &[(40, "a"), (41, "b"), (42, "c"), (43, "d"), (44, "e")],
    );
    assert_eq!(inf.entry.session.uncommitted_len(), 5);
    assert_eq!(inf.entry.session.committed_len(), 2);
    gpt::infer::finish(&mut svc, inf, 4);
    assert_eq!(gpt::commit::commit(&mut svc, id, 5), Ok(7));
}

#[test]
fn reset_to_initial_through_service() {
    let mut svc = service_with_model();
    let mut kv = Vec::new();
    let (id, p) = gpt::create::create(&mut svc, "m", None, &Initial::Prompt(vec![65]), 0).unwrap();
    apply(&mut kv, &p);
    apply(&mut kv, &gpt::decode::decode(&mut svc, id, &vec![66], 1).unwrap().1);
    let (mut inf, p) = gpt::infer::begin(&mut svc, id, &vec![], 2, 2, vec![], 2).unwrap();
    apply(&mut kv, &p);
    generate(&mut inf.entry.session, &mut kv, &mut inf.run, &[(30, "a"), (31, "b")]);
    gpt::infer::finish(&mut svc, inf, 3);
    assert_eq!(gpt::commit::commit(&mut svc, id, 4), Ok(4));
    let (n, p) = gpt::reset::reset(&mut svc, id, 5).unwrap();
    apply(&mut kv, &p);
    assert_eq!(n, 1);
    assert_eq!(kv, vec![65]);
    // A follow-up inference can produce tokens again.
    let (mut inf, p) = gpt::infer::begin(&mut svc, id, &vec![], 2, 2, vec![], 6).unwrap();
    apply(&mut kv, &p);
    generate(&mut inf.entry.session, &mut kv, &mut inf.run, &[(50, "a"), (51, "b")]);
    assert_eq!(inf.run.generated_count(), 2);
}

#[test]
fn stop_sequence_through_service() {
    let mut svc = service_with_model();
    let mut kv = Vec::new();
    let (id, p) = gpt::create::create(&mut svc, "m", None, &Initial::Prompt(vec![1]), 0).unwrap();
    apply(&mut kv, &p);
    let (mut inf, p) = gpt::infer::begin(&mut svc, id, &vec![2], 10, 0, vec![b"\n\n".to_vec()], 1).unwrap();
    apply(&mut kv, &p);
    generate(&mut inf.entry.session, &mut kv, &mut inf.run, &[(3, "ok"), (4, "\n"), (5, "\n"), (6, "z")]);
    assert!(!inf.run.output_bytes().windows(2).any(|w| w == b"\n\n"));
    assert_eq!(inf.run.generated_count(), 2);
    assert_eq!(inf.entry.session.uncommitted_tokens(), vec![2, 3, 4]);
}

#[test]
fn abort_ends_inference_and_commit_stays_valid() {
    let mut svc = service_with_model();
    let mut kv = Vec::new();
    let (id, p) = gpt::create::create(&mut svc, "m", Some(2000), &Initial::Prompt(vec![1]), 0).unwrap();
    apply(&mut kv, &p);
    let (mut inf, p) = gpt::infer::begin(&mut svc, id, &vec![], 1000, 0, vec![], 1).unwrap();
    apply(&mut kv, &p);
    let mut steps = 0;
    while inf.run.wants_token(&inf.entry.session) {
        if steps == 5 {
            assert_eq!(svc.abort_inference(id), Ok(()));
            assert_eq!(
                svc.abort_inference(id),
                Err(simularity_core::service::AbortError::AbortAlreadyPending)
            );
        }
        let t = 100 + steps;
        assert!(matches!(inf.run.on_token(t, &b"t".to_vec()), TokenStep::Emit(_)));
        let aborted = svc.is_aborted(id);
        match inf.run.after_emit(&mut inf.entry.session, t, true, aborted) {
            Some(plan) => apply(&mut kv, &plan),
            None => break,
        }
        steps += 1;
    }
    assert_eq!(inf.run.stop_reason(), Some(StopReason::Aborted));
    assert!(steps <= 6);
    let (n, aborted) = gpt::infer::finish(&mut svc, inf, 2);
    assert!(aborted);
    assert_eq!(n, 5);
    assert!(!svc.is_aborted(id));
    assert_eq!(gpt::commit::commit(&mut svc, id, 3), Ok(6));
}

#[test]
fn snapshot_session_matches_decoded_one() {
    let mut svc = service_with_model();
    let mut kv_a = Vec::new();
    let (a, p) = gpt::create::create(&mut svc, "m", None, &Initial::Prompt(vec![88, 89]), 0).unwrap();
    apply(&mut kv_a, &p);
    let (b, p) = gpt::create::create(&mut svc, "m", None, &Initial::Snapshot(vec![88, 89]), 0).unwrap();
    assert!(p.batch.is_empty());
    assert_ne!(a, b);
    let (ia, _) = gpt::infer::begin(&mut svc, a, &vec![], 1, 0, vec![], 1).unwrap();
    let (ib, _) = gpt::infer::begin(&mut svc, b, &vec![], 1, 0, vec![], 1).unwrap();
    assert_eq!(ia.entry.session.committed_tokens(), ib.entry.session.committed_tokens());
    assert_eq!(ia.entry.session.initial_prompt_len(), ib.entry.session.initial_prompt_len());
}

#[test]
fn runtime_fault_drops_uncommitted_tail() {
    let mut s = Session::new(16);
    let mut kv = Vec::new();
    assert!(s.needs_bos());
    apply(&mut kv, &s.decode(&vec![1, 2]).unwrap());
    assert!(!s.needs_bos());
    apply(&mut kv, &s.begin_infer(&vec![3]).unwrap());
    let mut run = InferRun::new(4, 99, vec![]);
    generate(&mut s, &mut kv, &mut run, &[(7, "a"), (8, "b")]);
    let p = s.discard_uncommitted();
    assert_eq!(p.clear_from, Some(2));
    apply(&mut kv, &p);
    assert_eq!(kv, vec![1, 2]);
    assert_eq!(s.committed_tokens(), vec![1, 2]);
    assert_eq!(s.uncommitted_len(), 0);
}
