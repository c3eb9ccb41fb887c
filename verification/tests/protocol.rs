use aiva::ai::{generate_request, generation_step, AIModel, GenerationStep, LLMResponse};
use aiva::chat::Message;
use aiva::engine::{
    engine_ready_step, first_backend_dir, init_request, plan_launch, service_init_step,
    BackendMarkers, EngineResponse, LaunchPlan, LineReader, LineStep, ReadOutcome, StartupStep,
};
use aiva::stt::{transcribe_request, transcription_step, STTResponse, TranscriptionStep};
use serde_json::Value;

fn reply(kind: &str, message: Option<&str>) -> EngineResponse {
    EngineResponse { response_type: kind.to_string(), message: message.map(|m| m.to_string()) }
}

fn object(fields: Vec<(&str, Value)>) -> String {
    let mut m = serde_json::Map::new();
    for (k, v) in fields {
        m.insert(k.to_string(), v);
    }
    Value::Object(m).to_string()
}

#[test]
fn init_request_matches_json_value() {
    let expected = object(vec![("cmd", Value::String("init".into())), ("service", Value::String("llm".into()))]);
    assert_eq!(init_request("llm"), expected);
    assert_eq!(init_request("llm"), "{\"cmd\":\"init\",\"service\":\"llm\"}");
    assert_eq!(init_request("a\"b"), "{\"cmd\":\"init\",\"service\":\"a\\\"b\"}");
}

#[test]
fn transcribe_request_matches_json_value() {
    let wav = [0u8, 1, 2, 250, 255];
    let expected = object(vec![
        ("cmd", Value::String("transcribe".into())),
        ("audio", Value::String("AAEC+v8=".into())),
    ]);
    assert_eq!(transcribe_request(&wav), expected);
    assert_eq!(transcribe_request(&[]), "{\"audio\":\"\",\"cmd\":\"transcribe\"}");
}

#[test]
fn generate_request_lists_the_conversation() {
    let msgs = vec![
        Message::new("user".to_string(), "Hi \"you\"".to_string()),
        Message::new("assistant".to_string(), "Hello\nthere".to_string()),
    ];
    let first = "{\"role\":\"user\",\"content\":\"Hi \\\"you\\\"\"}";
    let second = "{\"role\":\"assistant\",\"content\":\"Hello\\nthere\"}";
    assert_eq!(
        generate_request(&msgs),
        format!("{{\"cmd\":\"generate\",\"messages\":[{},{}]}}", first, second)
    );
    assert_eq!(generate_request(&vec![]), "{\"cmd\":\"generate\",\"messages\":[]}");
    // the request is one JSON document on one line
    let parsed: Value = serde_json::from_str(&generate_request(&msgs)).unwrap();
    assert_eq!(parsed["messages"][1]["content"], Value::String("Hello\nthere".into()));
    assert!(!generate_request(&msgs).contains('\n'));
}

#[test]
fn ai_model_keeps_prompt_and_reply() {
    let mut m = AIModel::new();
    let req = m.begin_generate("Hello");
    assert_eq!(req, "{\"cmd\":\"generate\",\"messages\":[{\"role\":\"user\",\"content\":\"Hello\"}]}");
    m.end_generate("Hi there!");
    let req2 = m.begin_generate("Again");
    let v: Value = serde_json::from_str(&req2).unwrap();
    let ms = v["messages"].as_array().unwrap();
    assert_eq!(ms.len(), 3);
    assert_eq!(ms[1]["role"], "assistant");
    assert_eq!(ms[1]["content"], "Hi there!");
    assert_eq!(ms[2]["content"], "Again");
    m.clear_history();
    assert_eq!(m.begin_generate("x"), "{\"cmd\":\"generate\",\"messages\":[{\"role\":\"user\",\"content\":\"x\"}]}");
}

fn llm(kind: &str, message: Option<&str>, token: Option<&str>, full: Option<&str>) -> LLMResponse {
    LLMResponse {
        response_type: kind.to_string(),
        message: message.map(String::from),
        token: token.map(String::from),
        full_response: full.map(String::from),
    }
}

#[test]
fn generation_steps() {
    assert!(matches!(generation_step(llm("generation_start", None, None, None)), GenerationStep::Pending));
    assert!(matches!(generation_step(llm("token", None, Some("Hi"), None)), GenerationStep::Token(t) if t == "Hi"));
    assert!(matches!(generation_step(llm("token", None, None, None)), GenerationStep::Pending));
    assert!(matches!(generation_step(llm("status", Some("x"), None, None)), GenerationStep::Pending));
    assert!(matches!(generation_step(llm("generation_end", None, None, Some("Hi there!"))), GenerationStep::Finished(t) if t == "Hi there!"));
    assert!(matches!(generation_step(llm("generation_end", None, None, None)), GenerationStep::Finished(t) if t.is_empty()));
    assert!(matches!(generation_step(llm("error", Some("boom"), None, None)), GenerationStep::Failed(e) if e == "Generation error: boom"));
    assert!(matches!(generation_step(llm("error", None, None, None)), GenerationStep::Failed(e) if e == "Generation error: "));
    assert!(matches!(generation_step(llm("other", None, Some("t"), None)), GenerationStep::Pending));
}

#[test]
fn engine_ready_steps() {
    assert!(matches!(engine_ready_step(reply("status", Some("Loading"))), StartupStep::Progress(l) if l == "Engine: Loading"));
    assert!(matches!(engine_ready_step(reply("status", Some("AIVA Engine ready."))), StartupStep::Ready(l) if l == "Engine: AIVA Engine ready."));
    assert!(matches!(engine_ready_step(reply("status", None)), StartupStep::Progress(l) if l == "Engine: "));
    assert!(matches!(engine_ready_step(reply("error", Some("no model"))), StartupStep::Failed(e) if e == "Engine error: no model"));
    assert!(matches!(engine_ready_step(reply("token", Some("AIVA Engine ready"))), StartupStep::Pending));
}

#[test]
fn service_init_steps() {
    assert!(matches!(service_init_step("llm", reply("status", Some("Loading model"))), StartupStep::Progress(l) if l == "LLM service: Loading model"));
    assert!(matches!(service_init_step("stt", reply("status", Some("Whisper loaded successfully"))), StartupStep::Ready(l) if l == "STT service: Whisper loaded successfully"));
    assert!(matches!(service_init_step("tts", reply("error", Some("missing voice"))), StartupStep::Failed(e) if e == "TTS init error: missing voice"));
    assert!(matches!(service_init_step("tts", reply("audio_chunk", None)), StartupStep::Pending));
}

fn feed_all(bytes: &[u8], end: ReadOutcome) -> LineStep {
    let mut r = LineReader::new();
    for &b in bytes {
        match r.feed(ReadOutcome::Byte(b)) {
            LineStep::Pending => {}
            other => return other,
        }
    }
    r.feed(end)
}

#[test]
fn line_reader_cuts_lines() {
    assert!(matches!(feed_all(b"{\"type\":\"status\"}\nrest", ReadOutcome::EndOfStream), LineStep::Line(l) if l == "{\"type\":\"status\"}"));
    assert!(matches!(feed_all(b"partial", ReadOutcome::EndOfStream), LineStep::Line(l) if l == "partial"));
    assert!(matches!(feed_all(b"", ReadOutcome::EndOfStream), LineStep::Failed(e) if e == "Engine closed unexpectedly"));
    // an empty line reads as a closed engine
    assert!(matches!(feed_all(b"\n", ReadOutcome::EndOfStream), LineStep::Failed(e) if e == "Engine closed unexpectedly"));
    assert!(matches!(feed_all(b"ab", ReadOutcome::Failed("broken pipe".into())), LineStep::Failed(e) if e == "Failed to read from engine: broken pipe"));
    // invalid UTF-8 is replaced, not refused
    assert!(matches!(feed_all(b"a\xffb\n", ReadOutcome::EndOfStream), LineStep::Line(l) if l == "a\u{fffd}b"));
    assert!(matches!(feed_all("héllo\n".as_bytes(), ReadOutcome::EndOfStream), LineStep::Line(l) if l == "héllo"));
}

#[test]
fn lines_never_hold_a_line_feed() {
    for input in [&b"one\r\n"[..], b"\xff\n", b"a\xe2\x82\n", b"tail"] {
        match feed_all(input, ReadOutcome::EndOfStream) {
            LineStep::Line(l) => assert!(!l.contains('\n'), "input {:?}", input),
            other => panic!("no line for {:?}: {:?}", input, matches!(other, LineStep::Pending)),
        }
    }
    assert!(matches!(feed_all(b"one\r\n", ReadOutcome::EndOfStream), LineStep::Line(l) if l == "one\r"));
    assert!(matches!(feed_all(b"a\xe2\x82\n", ReadOutcome::EndOfStream), LineStep::Line(l) if l == "a\u{fffd}"));
}

#[test]
fn backend_dir_is_first_with_a_marker() {
    let none = BackendMarkers { engine_exe: false, engine_script: false, llm_script: false };
    let script = BackendMarkers { engine_exe: false, engine_script: true, llm_script: false };
    let llm = BackendMarkers { engine_exe: false, engine_script: false, llm_script: true };
    assert_eq!(first_backend_dir(&vec![]), None);
    assert_eq!(first_backend_dir(&vec![none]), None);
    assert_eq!(first_backend_dir(&vec![BackendMarkers { ..none }, script, llm]), Some(1));
    assert_eq!(first_backend_dir(&vec![llm, script]), Some(0));
}

#[test]
fn launch_plans() {
    assert!(matches!(plan_launch(true, false, "p", false, "s"), LaunchPlan::Executable));
    assert!(matches!(plan_launch(false, false, "b/Scripts/python.exe", true, "s"), LaunchPlan::Missing(e) if e == "Python venv not found. Expected: b/Scripts/python.exe"));
    assert!(matches!(plan_launch(false, true, "p", false, "b/aiva_engine.py"), LaunchPlan::Missing(e) if e == "AIVA Engine script not found at: b/aiva_engine.py"));
    assert!(matches!(plan_launch(false, true, "p", true, "s"), LaunchPlan::Script));
}

fn stt(kind: &str, message: Option<&str>, text: Option<&str>) -> STTResponse {
    STTResponse {
        response_type: kind.to_string(),
        message: message.map(String::from),
        text: text.map(String::from),
        language: Some("en".to_string()),
    }
}

#[test]
fn transcription_steps() {
    assert!(matches!(transcription_step(stt("transcription", None, Some("Hello"))), TranscriptionStep::Text(t) if t == "Hello"));
    assert!(matches!(transcription_step(stt("transcription", None, None)), TranscriptionStep::Text(t) if t.is_empty()));
    assert!(matches!(transcription_step(stt("error", Some("bad audio"), None)), TranscriptionStep::Failed(e) if e == "Transcription error: bad audio"));
    assert!(matches!(transcription_step(stt("status", Some("busy"), None)), TranscriptionStep::Pending));
}
