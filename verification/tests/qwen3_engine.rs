use handy::qwen3_engine::{
    interpret_reply, is_ready_line, startup_decision, StartupDecision, StartupRead, parse_transcription_reply, startup_timed_out, Qwen3Engine,
    Qwen3Error, Qwen3InferenceParams, ReplyFields,
};

#[test]
fn new_engine_has_nothing_loaded() {
    let engine = Qwen3Engine::new();
    assert_eq!(engine.model_path(), None);
    assert!(!engine.is_server_running());
    match engine.prepare_transcription() {
        Err(Qwen3Error::ModelNotLoaded) => {}
        other => panic!("unexpected {:?}", other),
    }
    let default_engine = Qwen3Engine::default();
    assert_eq!(default_engine.model_path(), None);
}

#[test]
fn load_then_transcribe_is_ready() {
    let mut engine = Qwen3Engine::new();
    assert!(engine.load_model("mlx-community/Qwen3-ASR", Ok(())).is_ok());
    assert_eq!(engine.model_path(), Some("mlx-community/Qwen3-ASR".to_string()));
    assert!(engine.is_server_running());
    assert!(matches!(engine.prepare_transcription(), Ok(None)));
}

#[test]
fn failed_load_changes_nothing() {
    let mut engine = Qwen3Engine::new();
    engine.load_model("first", Ok(())).unwrap();
    let r = engine.load_model("second", Err(Qwen3Error::StartupTimeout));
    assert!(matches!(r, Err(Qwen3Error::StartupTimeout)));
    assert_eq!(engine.model_path(), Some("first".to_string()));
    assert!(engine.is_server_running());
}

#[test]
fn unload_stops_server_and_forgets_model() {
    let mut engine = Qwen3Engine::new();
    engine.load_model("m", Ok(())).unwrap();
    assert!(engine.unload_model());
    assert_eq!(engine.model_path(), None);
    assert!(!engine.unload_model());
    assert!(matches!(engine.prepare_transcription(), Err(Qwen3Error::ModelNotLoaded)));
}

#[test]
fn clone_must_start_its_own_server() {
    let mut engine = Qwen3Engine::new();
    engine.load_model("m", Ok(())).unwrap();
    let mut copy = engine.clone();
    assert_eq!(copy.model_path(), Some("m".to_string()));
    assert!(!copy.is_server_running());
    match copy.prepare_transcription() {
        Ok(Some(name)) => assert_eq!(name, "m"),
        other => panic!("unexpected {:?}", other),
    }
    assert!(copy.record_server_start(Err(Qwen3Error::Io("spawn".to_string()))).is_err());
    assert!(!copy.is_server_running());
    copy.record_server_start(Ok(())).unwrap();
    assert!(matches!(copy.prepare_transcription(), Ok(None)));
}

#[test]
fn reply_with_text_and_language() {
    let r = parse_transcription_reply("{\"text\":\"hello world\",\"language\":\"en\"}\n").unwrap();
    assert_eq!(r.text, "hello world");
    assert_eq!(r.language, Some("en".to_string()));
}

#[test]
fn reply_without_text() {
    let r = parse_transcription_reply("{\"language\":null,\"text\":42}").unwrap();
    assert_eq!(r.text, "");
    assert_eq!(r.language, None);
}

#[test]
fn reply_with_error() {
    let err = parse_transcription_reply("{\"error\":\"model crashed\",\"text\":\"x\"}").unwrap_err();
    assert_eq!(err.message(), "Qwen3 error: \"model crashed\"");
    let err = parse_transcription_reply("{\"error\":{\"code\":3}}").unwrap_err();
    assert_eq!(err.message(), "Qwen3 error: {\"code\":3}");
}

#[test]
fn reply_that_is_not_json() {
    let err = parse_transcription_reply("Traceback (most recent call last)").unwrap_err();
    assert!(matches!(err, Qwen3Error::InvalidReply(_)));
    assert!(!err.message().is_empty());
}

#[test]
fn interpret_fields() {
    let ok = interpret_reply(ReplyFields { error: None, text: None, language: Some("zh".to_string()) }).unwrap();
    assert_eq!(ok.text, "");
    assert_eq!(ok.language, Some("zh".to_string()));
    let err = interpret_reply(ReplyFields { error: Some("null".to_string()), text: Some("t".to_string()), language: None });
    assert!(matches!(err, Err(Qwen3Error::Server(e)) if e == "null"));
}

#[test]
fn ready_line_detection() {
    assert!(is_ready_line("READY\n"));
    assert!(is_ready_line("  READY \r\n"));
    assert!(!is_ready_line("Loading model...\n"));
    assert!(!is_ready_line("READY!\n"));
    assert!(!is_ready_line(""));
}

#[test]
fn startup_deadline() {
    assert!(!startup_timed_out(30_000_000_000));
    assert!(startup_timed_out(30_000_000_001));
    assert!(!startup_timed_out(0));
}

#[test]
fn default_params_have_no_language() {
    assert_eq!(Qwen3InferenceParams::default().language, None);
}

#[test]
fn error_messages() {
    assert_eq!(Qwen3Error::ModelNotLoaded.message(), "Model not loaded");
    assert_eq!(Qwen3Error::StartupTimeout.message(), "Timeout waiting for Qwen3 server to be ready");
    assert_eq!(
        Qwen3Error::ServerExited("Traceback".to_string()).message(),
        "Qwen3 server process ended unexpectedly: Traceback"
    );
    assert_eq!(Qwen3Error::Io("broken pipe".to_string()).message(), "broken pipe");
}

#[test]
fn startup_decisions() {
    assert!(matches!(startup_decision(StartupRead::Line("READY\n".to_string())), StartupDecision::Ready));
    assert!(matches!(
        startup_decision(StartupRead::Line("Fetching 4 files\n".to_string())),
        StartupDecision::KeepWaiting
    ));
    assert!(matches!(startup_decision(StartupRead::Eof), StartupDecision::ServerEnded));
    match startup_decision(StartupRead::Failed("broken pipe".to_string())) {
        StartupDecision::Abort(e) => assert_eq!(e.message(), "broken pipe"),
        _ => panic!("expected an abort"),
    }
}

#[test]
fn reply_with_null_error_fails() {
    let err = parse_transcription_reply("{\"error\":null,\"text\":\"x\"}").unwrap_err();
    assert_eq!(err.message(), "Qwen3 error: null");
}

#[test]
fn reply_that_is_not_an_object() {
    let r = parse_transcription_reply("[1,2]").unwrap();
    assert_eq!(r.text, "");
    assert_eq!(r.language, None);
}
