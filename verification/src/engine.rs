//! The engine process: where it is found, how it is launched, how its
//! output is cut into lines, and how its start-up and service loading are
//! followed.

use vstd::prelude::*;
use vstd::utf8::decode_utf8;
use vstd::utf8::valid_utf8;
use crate::json::json_quoted;
use crate::json::quote;
use crate::json::single_line;
use crate::json::lemma_join_single_line;
use crate::json::lemma_quoted_single_line;
use crate::text::concat;
use crate::text::concat3;
use crate::text::contains;
use crate::text::occurs_in;
use crate::text::owned;
use crate::text::same_text;
use crate::text::take_text;
use crate::text::text_or_empty;

verus! {

/// A reply line of the engine while it starts or loads a service.
pub struct EngineResponse {
    pub response_type: String,
    pub message: Option<String>,
}

/// What to do after one reply while waiting for the engine or a service.
pub enum StartupStep {
    /// Keep reading replies.
    Pending,
    /// Show this status line and keep reading.
    Progress(String),
    /// Show this status line; waiting is over.
    Ready(String),
    /// Waiting ends with this error.
    Failed(String),
}

/// What a reply means while waiting: `status` lines are shown with `prefix`,
/// and end the wait once they mention `done_marker`; an `error` line ends it
/// with `error_prefix` and the message; anything else is skipped.
pub open spec fn startup_step_spec(
    kind: Seq<char>,
    msg: Seq<char>,
    prefix: Seq<char>,
    done_marker: Seq<char>,
    error_prefix: Seq<char>,
    step: StartupStep,
) -> bool {
    if kind == "status"@ {
        if occurs_in(done_marker, msg) {
            step matches StartupStep::Ready(l) && l@ == prefix + msg
        } else {
            step matches StartupStep::Progress(l) && l@ == prefix + msg
        }
    } else if kind == "error"@ {
        step matches StartupStep::Failed(e) && e@ == error_prefix + msg
    } else {
        step is Pending
    }
}

fn startup_step(
    reply: EngineResponse,
    prefix: &str,
    done_marker: &str,
    error_prefix: &str,
) -> (step: StartupStep)
    ensures
        startup_step_spec(
            reply.response_type@,
            text_or_empty(reply.message),
            prefix@,
            done_marker@,
            error_prefix@,
            step,
        ),
{
    let kind = reply.response_type;
    let msg = take_text(reply.message);
    if same_text(kind.as_str(), "status") {
        let line = concat(prefix, msg.as_str());
        if contains(msg.as_str(), done_marker) {
            StartupStep::Ready(line)
        } else {
            StartupStep::Progress(line)
        }
    } else if same_text(kind.as_str(), "error") {
        StartupStep::Failed(concat(error_prefix, msg.as_str()))
    } else {
        StartupStep::Pending
    }
}

/// One reply while waiting for the engine to start: it is ready once a
/// status line mentions `AIVA Engine ready`.
pub fn engine_ready_step(reply: EngineResponse) -> (step: StartupStep)
    ensures
        startup_step_spec(
            reply.response_type@,
            text_or_empty(reply.message),
            "Engine: "@,
            "AIVA Engine ready"@,
            "Engine error: "@,
            step,
        ),
{
    startup_step(reply, "Engine: ", "AIVA Engine ready", "Engine error: ")
}

/// What `str::to_uppercase` gives for `s` (full Unicode case mapping).
pub uninterp spec fn upper_case(s: Seq<char>) -> Seq<char>;

/// `str::to_uppercase`: the upper-case form of `s` by Unicode's case
/// mapping; named, not spelled out.
#[verifier::external_body]
fn to_uppercase(s: &str) -> (r: String)
    ensures
        r@ == upper_case(s@),
{
    s.to_uppercase()
}

/// The request that asks the engine to load `service` (`llm`, `stt` or
/// `tts`): `{"cmd":"init","service":<service>}`.
pub open spec fn init_request_spec(service: Seq<char>) -> Seq<char> {
    "{\"cmd\":\"init\",\"service\":"@ + json_quoted(service) + "}"@
}

/// An init request is one line of the protocol, whatever the service's name.
pub proof fn lemma_init_request_single_line(service: Seq<char>)
    ensures
        single_line(init_request_spec(service)),
{
    reveal_strlit("{\"cmd\":\"init\",\"service\":");
    reveal_strlit("}");
    lemma_quoted_single_line(service);
    lemma_join_single_line("{\"cmd\":\"init\",\"service\":"@, json_quoted(service));
    lemma_join_single_line("{\"cmd\":\"init\",\"service\":"@ + json_quoted(service), "}"@);
}

pub fn init_request(service: &str) -> (r: String)
    ensures
        r@ == init_request_spec(service@),
{
    let q = quote(service);
    concat3("{\"cmd\":\"init\",\"service\":", q.as_str(), "}")
}

/// One reply while waiting for `service` to load: status lines are shown as
/// `<SERVICE> service: <message>`, the service is loaded once one mentions
/// `loaded successfully`, and an error ends the wait with
/// `<SERVICE> init error: <message>`.
pub fn service_init_step(service: &str, reply: EngineResponse) -> (step: StartupStep)
    ensures
        startup_step_spec(
            reply.response_type@,
            text_or_empty(reply.message),
            upper_case(service@) + " service: "@,
            "loaded successfully"@,
            upper_case(service@) + " init error: "@,
            step,
        ),
{
    let upper = to_uppercase(service);
    let prefix = concat(upper.as_str(), " service: ");
    let error_prefix = concat(upper.as_str(), " init error: ");
    startup_step(reply, prefix.as_str(), "loaded successfully", error_prefix.as_str())
}

/// What `String::from_utf8_lossy` gives for `bytes`.
pub uninterp spec fn utf8_lossy(bytes: Seq<u8>) -> Seq<char>;

/// `String::from_utf8_lossy`: the text of `bytes`, with each invalid UTF-8
/// sequence replaced by U+FFFD. Of valid UTF-8 it gives the decoded text;
/// the replacement itself is named, not spelled out. A line feed in the text
/// comes only from a 0x0A byte: in UTF-8 that byte stands for itself and
/// occurs in no longer sequence, and the replacement character is not a
/// line feed.
#[verifier::external_body]
fn from_utf8_lossy(bytes: &[u8]) -> (s: String)
    ensures
        s@ == utf8_lossy(bytes@),
        valid_utf8(bytes@) ==> s@ == decode_utf8(bytes@),
        !bytes@.contains(10u8) ==> !s@.contains('\n'),
{
    String::from_utf8_lossy(bytes).into_owned()
}

/// The outcome of reading one byte from the engine's output.
pub enum ReadOutcome {
    Byte(u8),
    EndOfStream,
    Failed(String),
}

/// What reading a line has come to after one more byte.
pub enum LineStep {
    Pending,
    Line(String),
    Failed(String),
}

/// The line made of `bytes` once it ends: no bytes at all means the engine
/// has closed its output.
pub open spec fn finished_line(bytes: Seq<u8>, step: LineStep) -> bool {
    if bytes.len() == 0 {
        step matches LineStep::Failed(e) && e@ == "Engine closed unexpectedly"@
    } else {
        step matches LineStep::Line(l) && l@ == utf8_lossy(bytes)
    }
}

/// Cuts the engine's output into lines, one byte at a time.
pub struct LineReader {
    bytes: Vec<u8>,
}

impl View for LineReader {
    type V = Seq<u8>;

    /// The bytes of the line read so far.
    closed spec fn view(&self) -> Seq<u8> {
        self.bytes@
    }
}

impl LineReader {
    /// A line being read never holds a line feed: the line feed ends it.
    #[verifier::type_invariant]
    spec fn no_line_feed(self) -> bool {
        !self.bytes@.contains(10u8)
    }

    pub fn new() -> (r: LineReader)
        ensures
            r@ == Seq::<u8>::empty(),
    {
        LineReader { bytes: Vec::new() }
    }

    fn finish(&self) -> (step: LineStep)
        ensures
            finished_line(self@, step),
            step matches LineStep::Line(l) ==> !l@.contains('\n'),
    {
        proof {
            use_type_invariant(self);
        }
        let line = from_utf8_lossy(self.bytes.as_slice());
        proof {
            if self.bytes@.len() == 0 {
                assert(valid_utf8(self.bytes@));
                assert(decode_utf8(self.bytes@) =~= Seq::<char>::empty());
            }
        }
        if line.as_str().is_empty() && self.bytes.len() == 0 {
            LineStep::Failed(owned("Engine closed unexpectedly"))
        } else {
            LineStep::Line(line)
        }
    }

    /// Takes the outcome of one read. A line feed ends the line, which is
    /// decoded lossily from UTF-8; the end of the stream ends it too. Either
    /// way, a line with no bytes at all means the engine closed; a failed read
    /// ends with its error. A line handed out never holds a line feed.
    pub fn feed(&mut self, outcome: ReadOutcome) -> (step: LineStep)
        ensures
            match outcome {
                ReadOutcome::Byte(b) => if b == 10 {
                    &&& finished_line(old(self)@, step)
                    &&& final(self)@ == old(self)@
                } else {
                    &&& step is Pending
                    &&& final(self)@ == old(self)@.push(b)
                },
                ReadOutcome::EndOfStream => {
                    &&& finished_line(old(self)@, step)
                    &&& final(self)@ == old(self)@
                },
                ReadOutcome::Failed(e) => {
                    &&& final(self)@ == old(self)@
                    &&& step matches LineStep::Failed(m) && m@ == "Failed to read from engine: "@
                        + e@
                },
            },
            step matches LineStep::Line(l) ==> !l@.contains('\n'),
    {
        proof {
            use_type_invariant(&*self);
        }
        match outcome {
            ReadOutcome::Byte(b) => {
                if b == 10u8 {
                    self.finish()
                } else {
                    let mut bytes: Vec<u8> = Vec::new();
                    std::mem::swap(&mut bytes, &mut self.bytes);
                    let ghost before = bytes@;
                    bytes.push(b);
                    proof {
                        assert(!bytes@.contains(10u8)) by {
                            if bytes@.contains(10u8) {
                                let k = choose|k: int| 0 <= k < bytes@.len() && bytes@[k] == 10u8;
                                if k < before.len() {
                                    assert(before[k] == 10u8);
                                }
                            }
                        }
                    }
                    self.bytes = bytes;
                    LineStep::Pending
                }
            },
            ReadOutcome::EndOfStream => {
                if self.bytes.len() == 0 {
                    LineStep::Failed(owned("Engine closed unexpectedly"))
                } else {
                    self.finish()
                }
            },
            ReadOutcome::Failed(e) => LineStep::Failed(
                concat("Failed to read from engine: ", e.as_str()),
            ),
        }
    }
}

/// Which of the files that mark a backend directory a candidate holds.
#[derive(Clone, Copy, Debug)]
pub struct BackendMarkers {
    pub engine_exe: bool,
    pub engine_script: bool,
    pub llm_script: bool,
}

pub open spec fn is_backend(m: BackendMarkers) -> bool {
    m.engine_exe || m.engine_script || m.llm_script
}

/// The first candidate directory that holds the engine executable, the
/// engine script or the LLM server script.
pub fn first_backend_dir(candidates: &Vec<BackendMarkers>) -> (r: Option<usize>)
    ensures
        match r {
            Some(i) => i < candidates@.len() && is_backend(candidates@[i as int]) && forall|
                k: int,
            |
                0 <= k < i ==> !is_backend(#[trigger] candidates@[k]),
            None => forall|k: int|
                0 <= k < candidates@.len() ==> !is_backend(#[trigger] candidates@[k]),
        },
{
    let mut i: usize = 0;
    while i < candidates.len()
        invariant
            i <= candidates@.len(),
            forall|k: int| 0 <= k < i ==> !is_backend(#[trigger] candidates@[k]),
        decreases candidates.len() - i,
    {
        let c = &candidates[i];
        if c.engine_exe || c.engine_script || c.llm_script {
            return Some(i);
        }
        i += 1;
    }
    None
}

/// How the engine is to be started.
pub enum LaunchPlan {
    /// Run the packaged engine executable.
    Executable,
    /// Run the engine script with the directory's Python.
    Script,
    /// Neither can be run, for this reason.
    Missing(String),
}

/// Chooses how to start the engine: the packaged executable when it is
/// there; otherwise the script, which needs both the Python interpreter and
/// the script itself.
pub fn plan_launch(
    exe_exists: bool,
    python_exists: bool,
    python_path: &str,
    script_exists: bool,
    script_path: &str,
) -> (p: LaunchPlan)
    ensures
        exe_exists ==> p is Executable,
        !exe_exists && !python_exists ==> (p matches LaunchPlan::Missing(e) && e@
            == "Python venv not found. Expected: "@ + python_path@),
        !exe_exists && python_exists && !script_exists ==> (p matches LaunchPlan::Missing(e)
            && e@ == "AIVA Engine script not found at: "@ + script_path@),
        !exe_exists && python_exists && script_exists ==> p is Script,
{
    if exe_exists {
        LaunchPlan::Executable
    } else if !python_exists {
        LaunchPlan::Missing(concat("Python venv not found. Expected: ", python_path))
    } else if !script_exists {
        LaunchPlan::Missing(concat("AIVA Engine script not found at: ", script_path))
    } else {
        LaunchPlan::Script
    }
}

} // verus!
