//! The state of the chat window and how it reacts to the user and to the
//! background work: a state machine whose actions the window carries out.

use vstd::prelude::*;
use crate::chat::ChatManager;
use crate::chat::Message;
use crate::chat::append_bounded;
use crate::text::concat;
use crate::text::owned;
use crate::text::trim;
use crate::text::trimmed;

verus! {

/// How many messages the chat window keeps.
pub const HISTORY_LIMIT: usize = 100;

/// What the background work reports to the window.
pub enum AppMessage {
    /// A token of the reply being generated.
    Token(String),
    /// The reply is complete; it holds the full response.
    Done(String),
    Error(String),
    /// The language model is loaded.
    ModelLoaded,
    /// Speech recognition is loaded.
    STTLoaded,
    /// Speech synthesis is loaded.
    TTSLoaded,
    /// The text recognised in a recording.
    Transcription(String),
    /// Speaking has finished.
    TTSDone,
}

pub enum AppMessageView {
    Token(Seq<char>),
    Done(Seq<char>),
    Error(Seq<char>),
    ModelLoaded,
    STTLoaded,
    TTSLoaded,
    Transcription(Seq<char>),
    TTSDone,
}

impl View for AppMessage {
    type V = AppMessageView;

    open spec fn view(&self) -> AppMessageView {
        match self {
            AppMessage::Token(t) => AppMessageView::Token(t@),
            AppMessage::Done(t) => AppMessageView::Done(t@),
            AppMessage::Error(t) => AppMessageView::Error(t@),
            AppMessage::ModelLoaded => AppMessageView::ModelLoaded,
            AppMessage::STTLoaded => AppMessageView::STTLoaded,
            AppMessage::TTSLoaded => AppMessageView::TTSLoaded,
            AppMessage::Transcription(t) => AppMessageView::Transcription(t@),
            AppMessage::TTSDone => AppMessageView::TTSDone,
        }
    }
}

/// Background work the window is to start.
pub enum Action {
    /// Ask the language model to reply to this user message.
    Generate(String),
    /// Speak this text.
    Speak(String),
}

pub enum ActionView {
    Generate(Seq<char>),
    Speak(Seq<char>),
}

pub open spec fn action_view(a: Option<Action>) -> Option<ActionView> {
    match a {
        Some(Action::Generate(t)) => Some(ActionView::Generate(t@)),
        Some(Action::Speak(t)) => Some(ActionView::Speak(t@)),
        None => None,
    }
}

/// What the microphone button asks of the recorder.
pub enum RecorderCommand {
    Start,
    Stop,
    Nothing,
}

/// What the chat area shows below the messages.
pub enum PendingReply {
    Nothing,
    /// A spinner and "Thinking...".
    Thinking,
    /// A spinner and the reply streamed so far.
    Streaming,
}

/// The window's state, as the contracts see it.
pub struct ChatAppView {
    pub messages: Seq<(Seq<char>, Seq<char>)>,
    pub input: Seq<char>,
    pub is_loading: bool,
    pub streaming: Seq<char>,
    pub ai_ready: bool,
    pub stt_ready: bool,
    pub tts_ready: bool,
    pub has_recorder: bool,
    pub model_status: Seq<char>,
    pub stt_status: Seq<char>,
    pub tts_status: Seq<char>,
    pub is_recording: bool,
    pub is_transcribing: bool,
    pub is_speaking: bool,
    pub pending_voice: Option<Seq<char>>,
}

/// The greeting shown once the language model is loaded.
pub open spec fn greeting() -> Seq<char> {
    "Hello! I'm your AI assistant. Type or use the microphone to talk to me."@
}

/// The message shown after the chat is cleared.
pub open spec fn cleared_notice() -> Seq<char> {
    "Chat cleared. How can I help you?"@
}

/// The state when the window opens.
pub open spec fn initial_view() -> ChatAppView {
    ChatAppView {
        messages: Seq::empty(),
        input: Seq::empty(),
        is_loading: false,
        streaming: Seq::empty(),
        ai_ready: false,
        stt_ready: false,
        tts_ready: false,
        has_recorder: false,
        model_status: "Starting engine..."@,
        stt_status: "Waiting..."@,
        tts_status: "Waiting..."@,
        is_recording: false,
        is_transcribing: false,
        is_speaking: false,
        pending_voice: None,
    }
}

/// The state with a message added to the chat history.
pub open spec fn add_message_view(v: ChatAppView, role: Seq<char>, content: Seq<char>) -> ChatAppView {
    ChatAppView { messages: append_bounded(v.messages, (role, content), 100), ..v }
}

/// Sending the input: nothing happens when the trimmed input is empty, a
/// reply is being generated, or the language model is not loaded;
/// otherwise the trimmed input joins the chat as the user's message, the
/// input is cleared, generation starts, and a message that came from the
/// microphone is remembered so that its reply is spoken.
pub open spec fn send_spec(v: ChatAppView, from_voice: bool) -> (ChatAppView, Option<ActionView>) {
    let t = trimmed(v.input);
    if t.len() == 0 || v.is_loading || !v.ai_ready {
        (v, None)
    } else {
        let w = add_message_view(v, "user"@, t);
        (
            ChatAppView {
                is_loading: true,
                streaming: Seq::empty(),
                pending_voice: if from_voice {
                    Some(t)
                } else {
                    v.pending_voice
                },
                input: Seq::empty(),
                ..w
            },
            Some(ActionView::Generate(t)),
        )
    }
}

/// Speaking a reply, when speech synthesis is loaded.
pub open spec fn speak_spec(v: ChatAppView, text: Seq<char>) -> (ChatAppView, Option<ActionView>) {
    if v.tts_ready {
        (
            ChatAppView { is_speaking: true, tts_status: "Speaking..."@, ..v },
            Some(ActionView::Speak(text)),
        )
    } else {
        (v, None)
    }
}

/// The reply is complete: while a reply is awaited it joins the chat (the
/// full response, or the trimmed streamed text when the full response is
/// empty), is spoken when the message came from the microphone, and the
/// window stops waiting. A late completion is ignored.
pub open spec fn done_spec(v: ChatAppView, full: Seq<char>) -> (ChatAppView, Option<ActionView>) {
    if v.is_loading {
        let text = if full.len() == 0 {
            trimmed(v.streaming)
        } else {
            full
        };
        let w = add_message_view(v, "assistant"@, text);
        let (x, a) = if v.pending_voice is Some {
            speak_spec(ChatAppView { pending_voice: None, ..w }, text)
        } else {
            (w, None)
        };
        (ChatAppView { streaming: Seq::empty(), is_loading: false, ..x }, a)
    } else {
        (v, None)
    }
}

/// A recording has been transcribed: a non-empty text is sent as if typed,
/// marked as coming from the microphone; an empty one is reported.
pub open spec fn transcription_spec(v: ChatAppView, text: Seq<char>) -> (ChatAppView, Option<ActionView>) {
    let w = ChatAppView { is_transcribing: false, ..v };
    if text.len() > 0 {
        send_spec(ChatAppView { input: text, stt_status: "STT ready!"@, ..w }, true)
    } else {
        (ChatAppView { stt_status: "No speech detected"@, ..w }, None)
    }
}

/// How the window reacts to a report of the background work.
pub open spec fn handle_spec(v: ChatAppView, msg: AppMessageView) -> (ChatAppView, Option<ActionView>) {
    match msg {
        AppMessageView::Token(t) => (ChatAppView { streaming: v.streaming + t, ..v }, None),
        AppMessageView::Done(full) => done_spec(v, full),
        AppMessageView::Error(_) => (
            ChatAppView { is_loading: false, is_transcribing: false, is_speaking: false, ..v },
            None,
        ),
        AppMessageView::ModelLoaded => (
            add_message_view(
                ChatAppView { ai_ready: true, model_status: "LLM ready!"@, ..v },
                "assistant"@,
                greeting(),
            ),
            None,
        ),
        AppMessageView::STTLoaded => (
            ChatAppView { stt_ready: true, stt_status: "STT ready!"@, ..v },
            None,
        ),
        AppMessageView::TTSLoaded => (
            ChatAppView { tts_ready: true, tts_status: "TTS ready!"@, ..v },
            None,
        ),
        AppMessageView::Transcription(text) => transcription_spec(v, text),
        AppMessageView::TTSDone => (
            ChatAppView { is_speaking: false, tts_status: "TTS ready!"@, ..v },
            None,
        ),
    }
}

/// Spoken input gets a spoken reply: when the language model and speech
/// synthesis are loaded and no reply is awaited, a transcription with words
/// in it is sent to the language model as the user's message, and its
/// completed reply joins the chat after it and is spoken.
pub proof fn lemma_voice_reply_is_spoken(v: ChatAppView, text: Seq<char>, reply: Seq<char>)
    requires
        v.messages.len() <= 100,
        v.ai_ready,
        v.tts_ready,
        !v.is_loading,
        trimmed(text).len() > 0,
        reply.len() > 0,
    ensures
        ({
            let (w, first) = handle_spec(v, AppMessageView::Transcription(text));
            let (x, second) = handle_spec(w, AppMessageView::Done(reply));
            &&& first == Some(ActionView::Generate(trimmed(text)))
            &&& second == Some(ActionView::Speak(reply))
            &&& x.messages.len() >= 2
            &&& x.messages[x.messages.len() - 2] == ("user"@, trimmed(text))
            &&& x.messages.last() == ("assistant"@, reply)
            &&& !x.is_loading
            &&& x.is_speaking
        }),
{
    reveal_strlit("STT ready!");
    let (w, first) = handle_spec(v, AppMessageView::Transcription(text));
    assert(w.messages == append_bounded(v.messages, ("user"@, trimmed(text)), 100));
    assert(w.messages.last() == ("user"@, trimmed(text)));
    assert(w.messages.len() <= 100);
    let (x, second) = handle_spec(w, AppMessageView::Done(reply));
    let grown = w.messages.push(("assistant"@, reply));
    assert(x.messages == append_bounded(w.messages, ("assistant"@, reply), 100));
    if grown.len() > 100 {
        assert(x.messages == grown.drop_first());
        assert(x.messages[x.messages.len() - 2] == grown[grown.len() - 2]);
    }
}

/// A typed message's reply is not spoken. This holds while no spoken
/// message's reply is outstanding: a failure leaves that mark in place, and
/// the next reply is then spoken.
pub proof fn lemma_typed_reply_not_spoken(v: ChatAppView, reply: Seq<char>)
    requires
        v.pending_voice is None,
    ensures
        ({
            let (w, _) = send_spec(v, false);
            let (x, second) = handle_spec(w, AppMessageView::Done(reply));
            &&& second is None
            &&& !x.is_speaking || v.is_speaking
        }),
{
}

/// Nothing is spoken before speech synthesis is loaded: no report then
/// yields a request to speak, and a completed reply leaves the speaking flag
/// and the speech status as they were.
pub proof fn lemma_no_speech_without_synthesis(v: ChatAppView, msg: AppMessageView)
    requires
        !v.tts_ready,
    ensures
        !(handle_spec(v, msg).1 matches Some(ActionView::Speak(_))),
        msg is Done ==> handle_spec(v, msg).0.is_speaking == v.is_speaking
            && handle_spec(v, msg).0.tts_status == v.tts_status,
{
}

/// A failure ends the wait for a reply, so a completion that arrives after
/// it changes nothing.
pub proof fn lemma_late_reply_ignored(v: ChatAppView, error: Seq<char>, reply: Seq<char>)
    ensures
        ({
            let (w, _) = handle_spec(v, AppMessageView::Error(error));
            handle_spec(w, AppMessageView::Done(reply)) == (w, None::<ActionView>)
        }),
{
}

/// The chat window's state.
pub struct ChatApp {
    chat_manager: ChatManager,
    input: String,
    is_loading: bool,
    streaming_response: String,
    ai_ready: bool,
    stt_ready: bool,
    tts_ready: bool,
    has_recorder: bool,
    model_status: String,
    stt_status: String,
    tts_status: String,
    is_recording: bool,
    is_transcribing: bool,
    is_speaking: bool,
    pending_voice_message: Option<String>,
}

pub open spec fn opt_view(o: Option<String>) -> Option<Seq<char>> {
    match o {
        Some(s) => Some(s@),
        None => None,
    }
}

impl View for ChatApp {
    type V = ChatAppView;

    closed spec fn view(&self) -> ChatAppView {
        ChatAppView {
            messages: self.chat_manager@,
            input: self.input@,
            is_loading: self.is_loading,
            streaming: self.streaming_response@,
            ai_ready: self.ai_ready,
            stt_ready: self.stt_ready,
            tts_ready: self.tts_ready,
            has_recorder: self.has_recorder,
            model_status: self.model_status@,
            stt_status: self.stt_status@,
            tts_status: self.tts_status@,
            is_recording: self.is_recording,
            is_transcribing: self.is_transcribing,
            is_speaking: self.is_speaking,
            pending_voice: opt_view(self.pending_voice_message),
        }
    }
}

impl ChatApp {
    #[verifier::type_invariant]
    closed spec fn keeps_hundred(self) -> bool {
        &&& self.chat_manager.capacity() == 100
        &&& self.chat_manager@.len() <= 100
    }

    pub fn new() -> (app: ChatApp)
        ensures
            app@ == initial_view(),
    {
        ChatApp {
            chat_manager: ChatManager::new(HISTORY_LIMIT),
            input: String::new(),
            is_loading: false,
            streaming_response: String::new(),
            ai_ready: false,
            stt_ready: false,
            tts_ready: false,
            has_recorder: false,
            model_status: owned("Starting engine..."),
            stt_status: owned("Waiting..."),
            tts_status: owned("Waiting..."),
            is_recording: false,
            is_transcribing: false,
            is_speaking: false,
            pending_voice_message: None,
        }
    }

    fn add_message(&mut self, role: &str, content: String)
        ensures
            final(self)@ == add_message_view(old(self)@, role@, content@),
            final(self)@.messages.len() <= 100,
    {
        proof {
            use_type_invariant(&*self);
        }
        let mut manager = ChatManager::new(HISTORY_LIMIT);
        std::mem::swap(&mut manager, &mut self.chat_manager);
        manager.add_message(owned(role), content);
        self.chat_manager = manager;
    }

    /// The recorder could be opened; the microphone button can use it.
    pub fn init_audio(&mut self)
        ensures
            final(self)@ == (ChatAppView { has_recorder: true, ..old(self)@ }),
    {
        proof {
            use_type_invariant(&*self);
        }
        self.has_recorder = true;
    }

    fn send_message_internal(&mut self, from_voice: bool) -> (a: Option<Action>)
        ensures
            (final(self)@, action_view(a)) == send_spec(old(self)@, from_voice),
            final(self)@.messages.len() <= 100,
    {
        proof {
            use_type_invariant(&*self);
        }
        let t = trim(self.input.as_str());
        if t.as_str().is_empty() || self.is_loading || !self.ai_ready {
            return None;
        }
        self.add_message("user", t.clone());
        proof {
            use_type_invariant(&*self);
        }
        self.is_loading = true;
        self.streaming_response = String::new();
        if from_voice {
            self.pending_voice_message = Some(t.clone());
        }
        self.input = String::new();
        Some(Action::Generate(t))
    }

    /// The user sends the typed input.
    pub fn send_message(&mut self) -> (a: Option<Action>)
        ensures
            (final(self)@, action_view(a)) == send_spec(old(self)@, false),
            final(self)@.messages.len() <= 100,
    {
        self.send_message_internal(false)
    }

    fn speak_response(&mut self, text: &str) -> (a: Option<Action>)
        ensures
            (final(self)@, action_view(a)) == speak_spec(old(self)@, text@),
    {
        proof {
            use_type_invariant(&*self);
        }
        if self.tts_ready {
            self.is_speaking = true;
            self.tts_status = owned("Speaking...");
            Some(Action::Speak(owned(text)))
        } else {
            None
        }
    }

    fn on_done(&mut self, full: String) -> (a: Option<Action>)
        ensures
            (final(self)@, action_view(a)) == done_spec(old(self)@, full@),
            final(self)@.messages.len() <= 100,
    {
        proof {
            use_type_invariant(&*self);
        }
        if self.is_loading {
            let text = if full.as_str().is_empty() {
                trim(self.streaming_response.as_str())
            } else {
                full
            };
            self.add_message("assistant", text.clone());
            proof {
                use_type_invariant(&*self);
            }
            let a = match self.pending_voice_message {
                Some(_) => {
                    self.pending_voice_message = None;
                    let a = self.speak_response(text.as_str());
                    proof {
                        use_type_invariant(&*self);
                    }
                    a
                },
                None => None,
            };
            self.streaming_response = String::new();
            self.is_loading = false;
            a
        } else {
            None
        }
    }

    fn on_transcription(&mut self, text: String) -> (a: Option<Action>)
        ensures
            (final(self)@, action_view(a)) == transcription_spec(old(self)@, text@),
            final(self)@.messages.len() <= 100,
    {
        proof {
            use_type_invariant(&*self);
        }
        self.is_transcribing = false;
        if !text.as_str().is_empty() {
            self.input = text;
            self.stt_status = owned("STT ready!");
            self.send_message_internal(true)
        } else {
            self.stt_status = owned("No speech detected");
            None
        }
    }

    /// Takes one report of the background work, and gives the work it
    /// starts, if any.
    pub fn handle_message(&mut self, msg: AppMessage) -> (a: Option<Action>)
        ensures
            (final(self)@, action_view(a)) == handle_spec(old(self)@, msg@),
            final(self)@.messages.len() <= 100,
    {
        proof {
            use_type_invariant(&*self);
        }
        match msg {
            AppMessage::Token(t) => {
                let grown = concat(self.streaming_response.as_str(), t.as_str());
                self.streaming_response = grown;
                None
            },
            AppMessage::Done(full) => self.on_done(full),
            AppMessage::Error(_) => {
                self.is_loading = false;
                self.is_transcribing = false;
                self.is_speaking = false;
                None
            },
            AppMessage::ModelLoaded => {
                self.ai_ready = true;
                self.model_status = owned("LLM ready!");
                self.add_message(
                    "assistant",
                    owned("Hello! I'm your AI assistant. Type or use the microphone to talk to me."),
                );
                proof {
                    use_type_invariant(&*self);
                }
                None
            },
            AppMessage::STTLoaded => {
                self.stt_ready = true;
                self.stt_status = owned("STT ready!");
                None
            },
            AppMessage::TTSLoaded => {
                self.tts_ready = true;
                self.tts_status = owned("TTS ready!");
                None
            },
            AppMessage::Transcription(text) => self.on_transcription(text),
            AppMessage::TTSDone => {
                self.is_speaking = false;
                self.tts_status = owned("TTS ready!");
                None
            },
        }
    }
    /// What the microphone button does: stop a running recording, start one
    /// otherwise; nothing when there is no recorder.
    pub fn toggle_recording(&self) -> (c: RecorderCommand)
        ensures
            !self@.has_recorder ==> c is Nothing,
            self@.has_recorder && self@.is_recording ==> c is Stop,
            self@.has_recorder && !self@.is_recording ==> c is Start,
    {
        if !self.has_recorder {
            RecorderCommand::Nothing
        } else if self.is_recording {
            RecorderCommand::Stop
        } else {
            RecorderCommand::Start
        }
    }

    /// The recorder has been asked to start, with this outcome.
    pub fn recording_started(&mut self, outcome: Result<(), String>)
        ensures
            match outcome {
                Ok(_) => final(self)@ == (ChatAppView {
                    is_recording: true,
                    stt_status: "Recording..."@,
                    ..old(self)@
                }),
                Err(e) => final(self)@ == (ChatAppView {
                    stt_status: "Record error: "@ + e@,
                    ..old(self)@
                }),
            },
    {
        proof {
            use_type_invariant(&*self);
        }
        match outcome {
            Ok(_) => {
                self.is_recording = true;
                self.stt_status = owned("Recording...");
            },
            Err(e) => {
                self.stt_status = concat("Record error: ", e.as_str());
            },
        }
    }

    /// The recorder has been stopped, with the recording as a WAV file or
    /// an error. Gives the recording to transcribe, when speech recognition
    /// is loaded.
    pub fn recording_stopped(&mut self, outcome: Result<Vec<u8>, String>) -> (w: Option<Vec<u8>>)
        ensures
            match outcome {
                Ok(wav) => {
                    &&& final(self)@ == (ChatAppView {
                        is_recording: false,
                        stt_status: "Transcribing..."@,
                        is_transcribing: true,
                        ..old(self)@
                    })
                    &&& if old(self)@.stt_ready {
                        w matches Some(x) && x@ == wav@
                    } else {
                        w is None
                    }
                },
                Err(e) => {
                    &&& final(self)@ == (ChatAppView {
                        is_recording: false,
                        stt_status: "Record error: "@ + e@,
                        ..old(self)@
                    })
                    &&& w is None
                },
            },
    {
        proof {
            use_type_invariant(&*self);
        }
        match outcome {
            Ok(wav) => {
                self.is_recording = false;
                self.stt_status = owned("Transcribing...");
                self.is_transcribing = true;
                if self.stt_ready {
                    Some(wav)
                } else {
                    None
                }
            },
            Err(e) => {
                self.is_recording = false;
                self.stt_status = concat("Record error: ", e.as_str());
                None
            },
        }
    }

    /// The Clear button: unless a reply is being generated, the chat is
    /// emptied and a notice added. Gives whether the language model's
    /// conversation is to be cleared as well.
    pub fn clear_chat(&mut self) -> (clear_model: bool)
        ensures
            old(self)@.is_loading ==> final(self)@ == old(self)@ && !clear_model,
            !old(self)@.is_loading ==> {
                &&& final(self)@ == (ChatAppView {
                    messages: seq![("assistant"@, cleared_notice())],
                    ..old(self)@
                })
                &&& clear_model == old(self)@.ai_ready
            },
    {
        proof {
            use_type_invariant(&*self);
        }
        if self.is_loading {
            return false;
        }
        let mut manager = ChatManager::new(HISTORY_LIMIT);
        std::mem::swap(&mut manager, &mut self.chat_manager);
        manager.clear();
        manager.add_message(owned("assistant"), owned("Chat cleared. How can I help you?"));
        proof {
            reveal_strlit("assistant");
        }
        self.chat_manager = manager;
        self.ai_ready
    }

    /// Whether the window keeps redrawing: while anything is under way or
    /// a model is still loading.
    pub fn needs_repaint(&self) -> (b: bool)
        ensures
            b == (self@.is_loading || self@.is_recording || self@.is_transcribing
                || self@.is_speaking || !self@.ai_ready || !self@.stt_ready),
    {
        self.is_loading || self.is_recording || self.is_transcribing || self.is_speaking
            || !self.ai_ready || !self.stt_ready
    }

    /// Whether the microphone button can be pressed.
    pub fn mic_enabled(&self) -> (b: bool)
        ensures
            b == (self@.stt_ready && !self@.is_loading && !self@.is_transcribing
                && !self@.is_speaking),
    {
        self.stt_ready && !self.is_loading && !self.is_transcribing && !self.is_speaking
    }

    /// The microphone button's label.
    pub fn mic_label(&self) -> (l: &'static str)
        ensures
            self@.is_recording ==> l@ == "Stop"@,
            !self@.is_recording && self@.is_transcribing ==> l@ == "..."@,
            !self@.is_recording && !self@.is_transcribing ==> l@ == "Mic"@,
    {
        if self.is_recording {
            "Stop"
        } else if self.is_transcribing {
            "..."
        } else {
            "Mic"
        }
    }

    /// Whether the Send button can be pressed.
    pub fn send_enabled(&self) -> (b: bool)
        ensures
            b == (!self@.is_loading && self@.ai_ready),
    {
        !self.is_loading && self.ai_ready
    }

    /// What the chat area shows after the messages.
    pub fn pending_reply(&self) -> (p: PendingReply)
        ensures
            self@.is_loading && self@.streaming.len() > 0 ==> p is Streaming,
            self@.is_loading && self@.streaming.len() == 0 ==> p is Thinking,
            !self@.is_loading ==> p is Nothing,
    {
        if self.is_loading && !self.streaming_response.as_str().is_empty() {
            PendingReply::Streaming
        } else if self.is_loading {
            PendingReply::Thinking
        } else {
            PendingReply::Nothing
        }
    }

    pub fn messages(&self) -> (v: &Vec<Message>)
        ensures
            crate::chat::messages_view(v@) == self@.messages,
    {
        self.chat_manager.get_messages()
    }

    pub fn input(&self) -> (s: &str)
        ensures
            s@ == self@.input,
    {
        self.input.as_str()
    }

    /// The text field's content, as the user has edited it.
    pub fn set_input(&mut self, text: String)
        ensures
            final(self)@ == (ChatAppView { input: text@, ..old(self)@ }),
    {
        proof {
            use_type_invariant(&*self);
        }
        self.input = text;
    }

    pub fn streaming_response(&self) -> (s: &str)
        ensures
            s@ == self@.streaming,
    {
        self.streaming_response.as_str()
    }

    pub fn model_status(&self) -> (s: &str)
        ensures
            s@ == self@.model_status,
    {
        self.model_status.as_str()
    }

    pub fn stt_status(&self) -> (s: &str)
        ensures
            s@ == self@.stt_status,
    {
        self.stt_status.as_str()
    }

    pub fn tts_status(&self) -> (s: &str)
        ensures
            s@ == self@.tts_status,
    {
        self.tts_status.as_str()
    }

    pub fn is_loading(&self) -> (b: bool)
        ensures
            b == self@.is_loading,
    {
        self.is_loading
    }

    pub fn is_recording(&self) -> (b: bool)
        ensures
            b == self@.is_recording,
    {
        self.is_recording
    }

    pub fn is_transcribing(&self) -> (b: bool)
        ensures
            b == self@.is_transcribing,
    {
        self.is_transcribing
    }

    pub fn is_speaking(&self) -> (b: bool)
        ensures
            b == self@.is_speaking,
    {
        self.is_speaking
    }
}

} // verus!
