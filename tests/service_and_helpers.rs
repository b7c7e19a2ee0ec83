use simularity_core::callbacks::{EvalCallbacks, Throttle, PROGRESS_FLOOR_MS};
use simularity_core::events::{create_error_chunk, decode_error_chunk, infer_error_chunk};
use simularity_core::gpt;
use simularity_core::gpt::create::Initial;
use simularity_core::gpt::infer::{Mirostat, MirostatVersion, Options};
use simularity_core::sampling::{sampler_chain, temp_class, SamplerStep, TempClass};
use simularity_core::service::{AbortError, Lookup};
use simularity_core::snapshot::{hex_bytes, hex_u64, snapshot_file_name, snapshot_identity, snapshot_name_from_digest};
use simularity_core::text::TextStream;
use simularity_core::{
    register_eval_callback, unregister_eval_callback, ModelHashError, ModelLoadError, ModelUnloadError, Service,
    SimularityModelInfo,
};

fn info(n_ctx_train: i64) -> SimularityModelInfo {
    SimularityModelInfo { n_params: 1, size: 2, n_ctx_train }
}

fn no_options() -> Options {
    Options {
        n_prev: None,
        n_probs: None,
        min_keep: None,
        dynatemp: None,
        penalty: None,
        grammar: None,
        temp: None,
        top_k: None,
        tfs_z: None,
        typical_p: None,
        top_p: None,
        min_p: None,
        mirostat: None,
        seed: None,
        stop_sequences: None,
    }
}

#[test]
fn model_load_is_idempotent() {
    let mut svc = Service::init(None, None);
    assert_eq!(svc.model_load("m", None), Err(ModelLoadError::LoadFailed));
    assert_eq!(svc.model_load("m", Some((7, info(128)))), Ok(info(128)));
    // Loading again keeps the first info and hash.
    assert_eq!(svc.model_load("m", Some((8, info(256)))), Ok(info(128)));
    assert_eq!(svc.model_hash("m"), Ok(7));
    assert_eq!(svc.model_hash("x"), Err(ModelHashError::ModelNotFound));
    assert_eq!(svc.model_info("m"), Some(info(128)));
}

#[test]
fn model_unload_refused_while_in_use() {
    let mut svc = Service::init(None, None);
    svc.model_load("m", Some((7, info(16)))).unwrap();
    let (id, _) = gpt::create::create(&mut svc, "m", None, &Initial::Empty, 0).unwrap();
    assert_eq!(svc.model_unload("m"), Err(ModelUnloadError::InUse));
    assert_eq!(gpt::destroy::destroy(&mut svc, id, 1), Ok(()));
    assert_eq!(svc.model_unload("m"), Ok(()));
    assert_eq!(svc.model_unload("m"), Err(ModelUnloadError::ModelNotFound));
}

#[test]
fn create_errors() {
    let mut svc = Service::init(None, Some(1));
    assert_eq!(
        gpt::create::create(&mut svc, "m", None, &Initial::Empty, 0).err(),
        Some(gpt::create::Error::ModelNotFound)
    );
    svc.model_load("m", Some((7, info(4)))).unwrap();
    assert_eq!(
        gpt::create::create(&mut svc, "m", None, &Initial::Prompt(vec![1, 2, 3, 4, 5]), 0).err(),
        Some(gpt::create::Error::DecodeFailed)
    );
    let (id, _) = gpt::create::create(&mut svc, "m", None, &Initial::Prompt(vec![1, 2]), 0).unwrap();
    assert_eq!(id, 1);
    assert_eq!(
        gpt::create::create(&mut svc, "m", None, &Initial::Empty, 0).err(),
        Some(gpt::create::Error::SessionLimitReached)
    );
}

#[test]
fn ids_count_up() {
    let mut svc = Service::init(None, None);
    svc.model_load("m", Some((7, info(8)))).unwrap();
    let (a, _) = gpt::create::create(&mut svc, "m", None, &Initial::Empty, 0).unwrap();
    let (b, _) = gpt::create::create(&mut svc, "m", None, &Initial::Empty, 0).unwrap();
    gpt::destroy::destroy(&mut svc, a, 0).unwrap();
    let (c, _) = gpt::create::create(&mut svc, "m", None, &Initial::Empty, 0).unwrap();
    assert_eq!((a, b, c), (1, 2, 3));
}

#[test]
fn sessions_expire_after_ttl() {
    let mut svc = Service::init(Some(10), None);
    svc.model_load("m", Some((7, info(8)))).unwrap();
    let (id, _) = gpt::create::create(&mut svc, "m", None, &Initial::Prompt(vec![1]), 100).unwrap();
    assert!(gpt::touch(&mut svc, id, 110));
    // Touching pushed the expiry back.
    assert!(gpt::touch(&mut svc, id, 119));
    assert_eq!(gpt::commit::commit(&mut svc, id, 129), Ok(1));
    assert!(!gpt::touch(&mut svc, id, 140));
    assert_eq!(gpt::commit::commit(&mut svc, id, 141), Err(gpt::commit::Error::SessionNotFound));
    // The expired session no longer holds the model.
    assert_eq!(svc.model_unload("m"), Ok(()));
}

#[test]
fn zero_ttl_never_expires() {
    let mut svc = Service::init(Some(0), None);
    svc.model_load("m", Some((7, info(8)))).unwrap();
    let (id, _) = gpt::create::create(&mut svc, "m", None, &Initial::Empty, 0).unwrap();
    assert!(gpt::touch(&mut svc, id, u64::MAX));
}

#[test]
fn unknown_session_errors() {
    let mut svc = Service::init(None, None);
    assert_eq!(gpt::decode::decode(&mut svc, 9, &vec![1], 0).err(), Some(gpt::decode::Error::SessionNotFound));
    assert_eq!(gpt::commit::commit(&mut svc, 9, 0), Err(gpt::commit::Error::SessionNotFound));
    assert_eq!(gpt::reset::reset(&mut svc, 9, 0).err(), Some(gpt::reset::Error::SessionNotFound));
    assert_eq!(gpt::destroy::destroy(&mut svc, 9, 0), Err(gpt::destroy::Error::SessionNotFound));
    assert_eq!(
        gpt::infer::begin(&mut svc, 9, &vec![], 1, 0, vec![], 0).err().map(|e| e),
        Some(gpt::infer::Error::SessionNotFound)
    );
    assert_eq!(svc.abort_inference(9), Err(AbortError::SessionNotFound));
    assert!(!gpt::touch(&mut svc, 9, 0));
}

#[test]
fn decode_and_infer_overflow_through_service() {
    let mut svc = Service::init(None, None);
    svc.model_load("m", Some((7, info(3)))).unwrap();
    let (id, _) = gpt::create::create(&mut svc, "m", None, &Initial::Prompt(vec![1, 2]), 0).unwrap();
    assert_eq!(
        gpt::decode::decode(&mut svc, id, &vec![3, 4], 0).err(),
        Some(gpt::decode::Error::ContextOverflow)
    );
    assert_eq!(
        gpt::infer::begin(&mut svc, id, &vec![3, 4], 1, 0, vec![], 0).err(),
        Some(gpt::infer::Error::ContextOverflow)
    );
    assert!(!svc.is_busy(id));
    assert_eq!(gpt::decode::decode(&mut svc, id, &vec![3], 0).map(|r| r.0), Ok(3));
}

#[test]
fn busy_session_is_alive_and_cannot_be_taken_twice() {
    let mut svc = Service::init(None, None);
    svc.model_load("m", Some((7, info(8)))).unwrap();
    let (id, _) = gpt::create::create(&mut svc, "m", None, &Initial::Prompt(vec![1]), 0).unwrap();
    let (inf, _) = gpt::infer::begin(&mut svc, id, &vec![], 1, 0, vec![], 0).unwrap();
    assert!(svc.is_busy(id));
    assert!(gpt::touch(&mut svc, id, 1));
    assert!(matches!(svc.checkout(id, 1), Err(Lookup::Busy)));
    gpt::infer::finish(&mut svc, inf, 2);
    assert!(!svc.is_busy(id));
}

#[test]
fn token_length_counts_tokens() {
    let mut svc = Service::init(None, None);
    assert_eq!(gpt::token_length::token_length(&svc, "m", &vec![1, 2]), Err(gpt::token_length::Error::ModelNotFound));
    svc.model_load("m", Some((7, info(8)))).unwrap();
    assert_eq!(gpt::token_length::token_length(&svc, "m", &vec![1, 2, 3]), Ok(3));
}

#[test]
fn default_capacity_is_trained_size() {
    let mut svc = Service::init(None, None);
    svc.model_load("m", Some((7, info(2)))).unwrap();
    let (id, _) = gpt::create::create(&mut svc, "m", None, &Initial::Prompt(vec![1, 2]), 0).unwrap();
    assert_eq!(
        gpt::decode::decode(&mut svc, id, &vec![3], 0).err(),
        Some(gpt::decode::Error::ContextOverflow)
    );
    let (big, _) = gpt::create::create(&mut svc, "m", Some(10), &Initial::Prompt(vec![1, 2]), 0).unwrap();
    assert_eq!(gpt::decode::decode(&mut svc, big, &vec![3], 0).map(|r| r.0), Ok(3));
}

#[test]
fn error_chunks_carry_messages() {
    assert_eq!(create_error_chunk(gpt::create::Error::ModelNotFound).error, "Model not found");
    assert_eq!(create_error_chunk(gpt::create::Error::SessionLimitReached).error, "Session limit reached");
    assert_eq!(create_error_chunk(gpt::create::Error::ContextCreationFailed).error, "Context creation failed");
    assert_eq!(create_error_chunk(gpt::create::Error::DecodeFailed).error, "Decode failed");
    assert_eq!(decode_error_chunk(gpt::decode::Error::SessionNotFound).error, "Session not found");
    assert_eq!(decode_error_chunk(gpt::decode::Error::ContextOverflow).error, "Context overflow");
    assert_eq!(infer_error_chunk(gpt::infer::Error::GrammarInvalid).error, "Grammar invalid");
    assert_eq!(infer_error_chunk(gpt::infer::Error::DecodeFailed).error, "Decode failed");
}

#[test]
fn snapshot_name_is_sha256_of_identity() {
    let id = snapshot_identity(0x1234abcd, "X", 512);
    assert_eq!(id, b"1234abcdX\x00\x00\x02\x00".to_vec());
    let name = snapshot_file_name(0x1234abcd, "X", 512);
    assert_eq!(
        String::from_utf8(name).unwrap(),
        "c36470a41081e957a4efdf5686f73337c27efa35cccf8563a97124652fe9b31d.llama-state"
    );
    assert_eq!(String::from_utf8(snapshot_name_from_digest(&vec![0x0f, 0xa0])).unwrap(), "0fa0.llama-state");
}

#[test]
fn hex_formats() {
    assert_eq!(hex_u64(0), b"0".to_vec());
    assert_eq!(hex_u64(0xfeed), b"feed".to_vec());
    assert_eq!(hex_u64(u64::MAX), b"ffffffffffffffff".to_vec());
    assert_eq!(hex_bytes(&vec![0, 255, 16]), b"00ff10".to_vec());
}

#[test]
fn text_stream_holds_back_split_characters() {
    let mut t = TextStream::new();
    assert_eq!(t.feed(&b"h".to_vec()), "h");
    assert_eq!(t.feed(&vec![0xc3]), "");
    assert_eq!(t.feed(&vec![0xa9, b'!']), "\u{e9}!");
}

#[test]
fn sampler_chain_orders() {
    let mut o = no_options();
    assert_eq!(sampler_chain(&o), vec![SamplerStep::Sample]);
    o.grammar = Some("root ::= \"a\"".to_string());
    o.top_k = Some(40);
    o.top_p = Some(0.9f32.to_bits());
    o.min_p = Some(0.05f32.to_bits());
    o.temp = Some(0.8f32.to_bits());
    o.mirostat = Some(Mirostat { version: MirostatVersion::V2, tau: Some(5.0f32.to_bits()), eta: None });
    assert_eq!(
        sampler_chain(&o),
        vec![
            SamplerStep::Grammar,
            SamplerStep::TopK(40),
            SamplerStep::TopP(0.9f32.to_bits()),
            SamplerStep::MinP(0.05f32.to_bits()),
            SamplerStep::Temp(0.8f32.to_bits()),
            SamplerStep::MirostatV2 { tau: Some(5.0f32.to_bits()), eta: None },
            SamplerStep::Sample,
        ]
    );
    o.temp = Some(0.0f32.to_bits());
    assert_eq!(sampler_chain(&o), vec![SamplerStep::Grammar, SamplerStep::Greedy]);
    o.temp = Some((-1.0f32).to_bits());
    o.grammar = None;
    assert_eq!(sampler_chain(&o), vec![SamplerStep::SoftmaxTop]);
}

#[test]
fn temperature_classes_follow_float_comparison() {
    for t in [1.0f32, -1.0, 0.0, -0.0, f32::NAN, f32::INFINITY, f32::NEG_INFINITY, -1e-40] {
        let expected = if t < 0.0 {
            TempClass::Negative
        } else if t == 0.0 {
            TempClass::Zero
        } else {
            TempClass::Other
        };
        assert_eq!(temp_class(Some(t.to_bits())), expected, "{}", t);
    }
    assert_eq!(temp_class(None), TempClass::Other);
}

#[test]
fn eval_callbacks_register_and_unregister() {
    let mut cbs: EvalCallbacks<&str> = EvalCallbacks::new();
    assert_eq!(register_eval_callback(&mut cbs, 1, "a"), None);
    assert_eq!(register_eval_callback(&mut cbs, 1, "b"), Some("a"));
    assert_eq!(cbs.len(), 1);
    assert!(cbs.contains(1));
    assert_eq!(unregister_eval_callback(&mut cbs, 1), Some("b"));
    assert_eq!(unregister_eval_callback(&mut cbs, 1), None);
    assert_eq!(cbs.len(), 0);
}

#[test]
fn throttle_drops_events_within_floor() {
    let mut t = Throttle::new(PROGRESS_FLOOR_MS);
    assert!(t.should_emit(1000));
    assert!(!t.should_emit(1200));
    assert!(!t.should_emit(1499));
    assert!(t.should_emit(1500));
    assert!(!t.should_emit(100));
}

#[test]
fn env_session_limits() {
    let mut env = simularity_core::config::Env {
        host: "0.0.0.0".to_string(),
        port: 8080,
        node_id: "n".to_string(),
        node_base_url: "http://n".to_string(),
        api_base_url: "http://api".to_string(),
        api_secret: "SECRET-REDACTED".to_string(),
        api_heartbeat: 30,
        simularity_model_id: "m".to_string(),
        simularity_model_path: "/m.gguf".to_string(),
        simularity_model_context_size: 2048,
        simularity_gpt_session_ttl: 600,
        simularity_gpt_session_max: 4,
    };
    assert_eq!(env.session_limits(), Some((600, 4)));
    env.simularity_gpt_session_ttl = u32::MAX as usize + 1;
    assert_eq!(env.session_limits(), None);
}

#[test]
fn model_use_count_follows_sessions() {
    let mut svc = Service::init(None, None);
    svc.model_load("m", Some((7, info(16)))).unwrap();
    let (a, _) = gpt::create::create(&mut svc, "m", None, &Initial::Empty, 0).unwrap();
    let (b, _) = gpt::create::create(&mut svc, "m", None, &Initial::Empty, 0).unwrap();
    let (inf, _) = gpt::infer::begin(&mut svc, b, &vec![], 1, 0, vec![], 0).unwrap();
    assert_eq!(gpt::destroy::destroy(&mut svc, a, 0), Ok(()));
    // The busy session still holds the model.
    assert_eq!(svc.model_unload("m"), Err(ModelUnloadError::InUse));
    gpt::infer::finish(&mut svc, inf, 1);
    assert_eq!(gpt::destroy::destroy(&mut svc, b, 2), Ok(()));
    assert_eq!(svc.model_unload("m"), Ok(()));
}
