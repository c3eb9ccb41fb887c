//! The speech-to-text client: the transcribe request and how its reply is
//! read.

use vstd::prelude::*;
use crate::codec::base64_encode;
use crate::codec::encode;
use crate::text::same_text;
use crate::text::take_text;
use crate::text::text_or_empty;
use crate::json::json_quoted;
use crate::json::quote;
use crate::json::single_line;
use crate::json::lemma_join_single_line;
use crate::json::lemma_quoted_single_line;
use crate::text::concat;
use crate::text::concat3;

verus! {

/// The request that asks for the transcription of a WAV recording:
/// `{"audio":<base64 of the WAV bytes>,"cmd":"transcribe"}`.
pub open spec fn transcribe_request_spec(audio_wav: Seq<u8>) -> Seq<char> {
    "{\"audio\":"@ + json_quoted(base64_encode(audio_wav)) + ",\"cmd\":\"transcribe\"}"@
}

/// A transcribe request is one line of the protocol, whatever the
/// recording holds.
pub proof fn lemma_transcribe_request_single_line(audio_wav: Seq<u8>)
    ensures
        single_line(transcribe_request_spec(audio_wav)),
{
    reveal_strlit("{\"audio\":");
    reveal_strlit(",\"cmd\":\"transcribe\"}");
    let q = json_quoted(base64_encode(audio_wav));
    lemma_quoted_single_line(base64_encode(audio_wav));
    lemma_join_single_line("{\"audio\":"@, q);
    lemma_join_single_line("{\"audio\":"@ + q, ",\"cmd\":\"transcribe\"}"@);
}

/// The transcribe request for `audio_wav`.
pub fn transcribe_request(audio_wav: &[u8]) -> (r: String)
    requires
        audio_wav@.len() / 3 * 4 + 4 <= usize::MAX,
    ensures
        r@ == transcribe_request_spec(audio_wav@),
{
    let b64 = encode(audio_wav);
    let q = quote(b64.as_str());
    concat3("{\"audio\":", q.as_str(), ",\"cmd\":\"transcribe\"}")
}

/// A reply line of the engine while it transcribes.
pub struct STTResponse {
    pub response_type: String,
    pub message: Option<String>,
    pub text: Option<String>,
    pub language: Option<String>,
}

/// What to do after one reply while waiting for a transcription.
pub enum TranscriptionStep {
    Pending,
    /// The transcribed text (empty when the reply holds none).
    Text(String),
    Failed(String),
}

/// One reply line while transcribing: `transcription` gives the text (empty
/// when absent), `error` fails with `Transcription error: <message>`, and
/// anything else is skipped.
pub fn transcription_step(reply: STTResponse) -> (step: TranscriptionStep)
    ensures
        reply.response_type@ == "transcription"@ ==> (step matches TranscriptionStep::Text(t)
            && t@ == text_or_empty(reply.text)),
        reply.response_type@ == "error"@ ==> (step matches TranscriptionStep::Failed(e) && e@
            == "Transcription error: "@ + text_or_empty(reply.message)),
        reply.response_type@ != "transcription"@ && reply.response_type@ != "error"@
            ==> step is Pending,
{
    proof {
        reveal_strlit("transcription");
        reveal_strlit("error");
        assert("transcription"@.len() != "error"@.len());
    }
    let kind = reply.response_type;
    if same_text(kind.as_str(), "transcription") {
        TranscriptionStep::Text(take_text(reply.text))
    } else if same_text(kind.as_str(), "error") {
        let msg = take_text(reply.message);
        TranscriptionStep::Failed(concat("Transcription error: ", msg.as_str()))
    } else {
        TranscriptionStep::Pending
    }
}

} // verus!
