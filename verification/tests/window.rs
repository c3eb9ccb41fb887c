use aiva::ui::{Action, AppMessage, ChatApp, PendingReply, RecorderCommand};

fn ready_app() -> ChatApp {
    let mut app = ChatApp::new();
    app.init_audio();
    assert!(app.handle_message(AppMessage::ModelLoaded).is_none());
    assert!(app.handle_message(AppMessage::STTLoaded).is_none());
    assert!(app.handle_message(AppMessage::TTSLoaded).is_none());
    app
}

#[test]
fn window_starts_waiting() {
    let app = ChatApp::new();
    assert_eq!(app.model_status(), "Starting engine...");
    assert_eq!(app.stt_status(), "Waiting...");
    assert_eq!(app.tts_status(), "Waiting...");
    assert!(app.messages().is_empty());
    assert!(app.needs_repaint());
    assert!(!app.mic_enabled());
    assert!(!app.send_enabled());
    assert_eq!(app.mic_label(), "Mic");
    assert!(matches!(app.toggle_recording(), RecorderCommand::Nothing));
}

#[test]
fn loading_the_model_greets() {
    let app = ready_app();
    assert_eq!(app.model_status(), "LLM ready!");
    assert_eq!(app.stt_status(), "STT ready!");
    assert_eq!(app.tts_status(), "TTS ready!");
    let m = app.messages();
    assert_eq!(m.len(), 1);
    assert_eq!(m[0].role, "assistant");
    assert_eq!(m[0].content, "Hello! I'm your AI assistant. Type or use the microphone to talk to me.");
    assert!(!app.needs_repaint());
    assert!(app.mic_enabled());
    assert!(app.send_enabled());
}

#[test]
fn typed_message_round_trip() {
    let mut app = ready_app();
    app.set_input("  What time is it?  ".to_string());
    match app.send_message() {
        Some(Action::Generate(t)) => assert_eq!(t, "What time is it?"),
        _ => panic!("expected generation"),
    }
    assert_eq!(app.input(), "");
    assert!(app.is_loading());
    assert!(matches!(app.pending_reply(), PendingReply::Thinking));
    assert!(!app.send_enabled());
    // a second send while loading does nothing
    app.set_input("again".to_string());
    assert!(app.send_message().is_none());
    assert_eq!(app.input(), "again");
    assert!(app.handle_message(AppMessage::Token("It is ".to_string())).is_none());
    assert!(app.handle_message(AppMessage::Token("noon.".to_string())).is_none());
    assert_eq!(app.streaming_response(), "It is noon.");
    assert!(matches!(app.pending_reply(), PendingReply::Streaming));
    // typed messages are not spoken
    assert!(app.handle_message(AppMessage::Done("It is noon.".to_string())).is_none());
    assert!(!app.is_loading());
    assert_eq!(app.streaming_response(), "");
    let m = app.messages();
    assert_eq!(m.len(), 3);
    assert_eq!((m[1].role.as_str(), m[1].content.as_str()), ("user", "What time is it?"));
    assert_eq!((m[2].role.as_str(), m[2].content.as_str()), ("assistant", "It is noon."));
}

#[test]
fn empty_full_response_uses_streamed_text() {
    let mut app = ready_app();
    app.set_input("hi".to_string());
    app.send_message();
    app.handle_message(AppMessage::Token("  streamed reply \n".to_string()));
    app.handle_message(AppMessage::Done(String::new()));
    assert_eq!(app.messages()[2].content, "streamed reply");
}

#[test]
fn blank_input_or_no_model_sends_nothing() {
    let mut app = ChatApp::new();
    app.set_input("hello".to_string());
    assert!(app.send_message().is_none());
    let mut app = ready_app();
    app.set_input(" \t ".to_string());
    assert!(app.send_message().is_none());
    assert_eq!(app.messages().len(), 1);
}

#[test]
fn voice_round_trip_is_spoken() {
    let mut app = ready_app();
    assert!(matches!(app.toggle_recording(), RecorderCommand::Start));
    app.recording_started(Ok(()));
    assert!(app.is_recording());
    assert_eq!(app.stt_status(), "Recording...");
    assert_eq!(app.mic_label(), "Stop");
    assert!(matches!(app.toggle_recording(), RecorderCommand::Stop));
    let wav = app.recording_stopped(Ok(vec![1, 2, 3]));
    assert_eq!(wav, Some(vec![1, 2, 3]));
    assert!(app.is_transcribing());
    assert_eq!(app.stt_status(), "Transcribing...");
    assert_eq!(app.mic_label(), "...");
    match app.handle_message(AppMessage::Transcription("Tell me a joke".to_string())) {
        Some(Action::Generate(t)) => assert_eq!(t, "Tell me a joke"),
        _ => panic!("expected generation"),
    }
    assert!(!app.is_transcribing());
    assert_eq!(app.stt_status(), "STT ready!");
    match app.handle_message(AppMessage::Done("Why did the chicken cross the road?".to_string())) {
        Some(Action::Speak(t)) => assert_eq!(t, "Why did the chicken cross the road?"),
        _ => panic!("expected speech"),
    }
    assert!(app.is_speaking());
    assert_eq!(app.tts_status(), "Speaking...");
    assert!(!app.mic_enabled());
    app.handle_message(AppMessage::TTSDone);
    assert!(!app.is_speaking());
    assert_eq!(app.tts_status(), "TTS ready!");
    // the next typed reply is not spoken
    app.set_input("thanks".to_string());
    app.send_message();
    assert!(app.handle_message(AppMessage::Done("You're welcome".to_string())).is_none());
}

#[test]
fn empty_transcription_is_reported() {
    let mut app = ready_app();
    app.recording_started(Ok(()));
    app.recording_stopped(Ok(vec![0]));
    assert!(app.handle_message(AppMessage::Transcription(String::new())).is_none());
    assert_eq!(app.stt_status(), "No speech detected");
    assert!(!app.is_transcribing());
}

#[test]
fn recording_errors_are_shown() {
    let mut app = ready_app();
    app.recording_started(Err("No input device available".to_string()));
    assert!(!app.is_recording());
    assert_eq!(app.stt_status(), "Record error: No input device available");
    app.recording_started(Ok(()));
    assert_eq!(app.recording_stopped(Err("No audio captured".to_string())), None);
    assert!(!app.is_recording());
    assert_eq!(app.stt_status(), "Record error: No audio captured");
}

#[test]
fn recording_without_speech_recognition_is_not_transcribed() {
    let mut app = ChatApp::new();
    app.init_audio();
    app.recording_started(Ok(()));
    assert_eq!(app.recording_stopped(Ok(vec![9])), None);
    assert!(app.is_transcribing());
}

#[test]
fn errors_clear_busy_flags() {
    let mut app = ready_app();
    app.set_input("hi".to_string());
    app.send_message();
    app.handle_message(AppMessage::Error("Generation failed: x".to_string()));
    assert!(!app.is_loading());
    assert!(!app.is_transcribing());
    assert!(!app.is_speaking());
    // a late completion after the error is ignored
    assert!(app.handle_message(AppMessage::Done("late".to_string())).is_none());
    assert_eq!(app.messages().len(), 2);
}

#[test]
fn clearing_the_chat() {
    let mut app = ready_app();
    app.set_input("hi".to_string());
    app.send_message();
    assert!(!app.clear_chat());
    assert_eq!(app.messages().len(), 2);
    app.handle_message(AppMessage::Done("hello".to_string()));
    assert!(app.clear_chat());
    let m = app.messages();
    assert_eq!(m.len(), 1);
    assert_eq!(m[0].content, "Chat cleared. How can I help you?");
}

#[test]
fn history_is_kept_to_a_hundred() {
    let mut app = ready_app();
    for i in 0..80 {
        app.set_input(format!("q{}", i));
        app.send_message();
        app.handle_message(AppMessage::Done(format!("a{}", i)));
        assert!(app.messages().len() <= 100);
    }
    let m = app.messages();
    assert_eq!(m.len(), 100);
    assert_eq!(m[99].content, "a79");
    assert_eq!(m[0].content, "q30");
}

#[test]
fn voice_mark_survives_an_error() {
    let mut app = ready_app();
    app.recording_started(Ok(()));
    app.recording_stopped(Ok(vec![1]));
    app.handle_message(AppMessage::Transcription("hello".to_string()));
    app.handle_message(AppMessage::Error("Generation failed: x".to_string()));
    // the next typed message's reply is spoken, since the mark was not cleared
    app.set_input("typed".to_string());
    assert!(matches!(app.send_message(), Some(Action::Generate(_))));
    assert!(matches!(app.handle_message(AppMessage::Done("ok".to_string())), Some(Action::Speak(t)) if t == "ok"));
}
