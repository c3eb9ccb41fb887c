//! The language model client: the conversation it keeps, the request it
//! sends and how it follows the streamed reply.

use vstd::prelude::*;
use crate::chat::Message;
use crate::chat::messages_view;
use crate::text::same_text;
use crate::text::take_text;
use crate::text::text_or_empty;
use crate::json::json_quoted;
use crate::json::quote;
use crate::json::single_line;
use crate::json::lemma_join_single_line;
use crate::json::lemma_quoted_single_line;
use crate::text::concat;
use crate::text::owned;

verus! {

/// One message of the conversation as the request writes it:
/// `{"role":<role>,"content":<content>}`.
pub open spec fn message_json(m: (Seq<char>, Seq<char>)) -> Seq<char> {
    "{\"role\":"@ + json_quoted(m.0) + ",\"content\":"@ + json_quoted(m.1) + "}"@
}

/// The messages as JSON objects separated by commas.
pub open spec fn messages_json(ms: Seq<(Seq<char>, Seq<char>)>) -> Seq<char>
    decreases ms.len(),
{
    if ms.len() == 0 {
        Seq::empty()
    } else if ms.len() == 1 {
        message_json(ms[0])
    } else {
        messages_json(ms.drop_last()) + ","@ + message_json(ms.last())
    }
}

/// The request that asks for a reply to the conversation `ms`:
/// `{"cmd":"generate","messages":[...]}`.
pub open spec fn generate_request_spec(ms: Seq<(Seq<char>, Seq<char>)>) -> Seq<char> {
    "{\"cmd\":\"generate\",\"messages\":["@ + messages_json(ms) + "]}"@
}

proof fn lemma_message_json_single_line(m: (Seq<char>, Seq<char>))
    ensures
        single_line(message_json(m)),
{
    reveal_strlit("{\"role\":");
    reveal_strlit(",\"content\":");
    reveal_strlit("}");
    lemma_quoted_single_line(m.0);
    lemma_quoted_single_line(m.1);
    let a = "{\"role\":"@;
    let b = ",\"content\":"@;
    lemma_join_single_line(a, json_quoted(m.0));
    lemma_join_single_line(a + json_quoted(m.0), b);
    lemma_join_single_line(a + json_quoted(m.0) + b, json_quoted(m.1));
    lemma_join_single_line(a + json_quoted(m.0) + b + json_quoted(m.1), "}"@);
}

proof fn lemma_messages_json_single_line(ms: Seq<(Seq<char>, Seq<char>)>)
    ensures
        single_line(messages_json(ms)),
    decreases ms.len(),
{
    if ms.len() == 1 {
        lemma_message_json_single_line(ms[0]);
    } else if ms.len() > 1 {
        reveal_strlit(",");
        lemma_messages_json_single_line(ms.drop_last());
        lemma_message_json_single_line(ms.last());
        lemma_join_single_line(messages_json(ms.drop_last()), ","@);
        lemma_join_single_line(messages_json(ms.drop_last()) + ","@, message_json(ms.last()));
    }
}

/// A generate request is one line of the protocol, whatever the
/// conversation holds.
pub proof fn lemma_generate_request_single_line(ms: Seq<(Seq<char>, Seq<char>)>)
    ensures
        single_line(generate_request_spec(ms)),
{
    reveal_strlit("{\"cmd\":\"generate\",\"messages\":[");
    reveal_strlit("]}");
    lemma_messages_json_single_line(ms);
    let a = "{\"cmd\":\"generate\",\"messages\":["@;
    lemma_join_single_line(a, messages_json(ms));
    lemma_join_single_line(a + messages_json(ms), "]}"@);
}

/// The texts of `parts`, in order, with a comma between two neighbours.
pub open spec fn comma_joined(parts: Seq<Seq<char>>) -> Seq<char>
    decreases parts.len(),
{
    if parts.len() == 0 {
        Seq::empty()
    } else if parts.len() == 1 {
        parts[0]
    } else {
        comma_joined(parts.drop_last()) + ","@ + parts.last()
    }
}

/// The generate request lists the whole conversation, in order: its
/// `messages` array is exactly `ms.len()` objects, the `i`-th of which is
/// message `i` of the conversation, none left out and none added.
pub proof fn lemma_generate_request_lists_every_message(ms: Seq<(Seq<char>, Seq<char>)>)
    ensures
        generate_request_spec(ms) == "{\"cmd\":\"generate\",\"messages\":["@ + comma_joined(
            Seq::new(ms.len(), |i: int| message_json(ms[i])),
        ) + "]}"@,
    decreases ms.len(),
{
    lemma_messages_json_joined(ms);
}

proof fn lemma_messages_json_joined(ms: Seq<(Seq<char>, Seq<char>)>)
    ensures
        messages_json(ms) == comma_joined(Seq::new(ms.len(), |i: int| message_json(ms[i]))),
    decreases ms.len(),
{
    let parts = Seq::new(ms.len(), |i: int| message_json(ms[i]));
    if ms.len() > 1 {
        let init = ms.drop_last();
        lemma_messages_json_joined(init);
        assert(parts.drop_last() =~= Seq::new(init.len(), |i: int| message_json(init[i])));
    }
}

fn message_to_json(m: &Message) -> (r: String)
    ensures
        r@ == message_json(m@),
{
    let mut r = owned("{\"role\":");
    let q = quote(m.role.as_str());
    r.append(q.as_str());
    r.append(",\"content\":");
    let q = quote(m.content.as_str());
    r.append(q.as_str());
    r.append("}");
    r
}

/// The generate request for the conversation `messages`.
pub fn generate_request(messages: &Vec<Message>) -> (r: String)
    ensures
        r@ == generate_request_spec(messages_view(messages@)),
        r@ == "{\"cmd\":\"generate\",\"messages\":["@ + comma_joined(
            Seq::new(messages@.len(), |i: int| message_json(messages@[i]@)),
        ) + "]}"@,
{
    let ghost ms = messages_view(messages@);
    let mut body = String::new();
    let mut i: usize = 0;
    while i < messages.len()
        invariant
            i <= messages.len(),
            ms == messages_view(messages@),
            body@ == messages_json(ms.take(i as int)),
        decreases messages.len() - i,
    {
        let one = message_to_json(&messages[i]);
        proof {
            let t = ms.take(i + 1);
            assert(t.drop_last() == ms.take(i as int));
            assert(t.last() == messages@[i as int]@);
        }
        if i > 0 {
            body.append(",");
        } else {
            assert(ms.take(0) == Seq::<(Seq<char>, Seq<char>)>::empty());
        }
        body.append(one.as_str());
        i += 1;
    }
    assert(ms.take(messages.len() as int) == ms);
    let mut r = owned("{\"cmd\":\"generate\",\"messages\":[");
    r.append(body.as_str());
    r.append("]}");
    proof {
        lemma_generate_request_lists_every_message(ms);
        assert(Seq::new(ms.len(), |i: int| message_json(ms[i])) =~= Seq::new(
            messages@.len(),
            |i: int| message_json(messages@[i]@),
        ));
    }
    r
}

/// A reply line of the engine while it generates.
pub struct LLMResponse {
    pub response_type: String,
    pub message: Option<String>,
    pub token: Option<String>,
    pub full_response: Option<String>,
}

/// What to do after one reply while a reply is generated.
pub enum GenerationStep {
    /// Keep reading.
    Pending,
    /// Hand this token on, and keep reading.
    Token(String),
    /// The reply is complete and reads so.
    Finished(String),
    /// Generation ends with this error.
    Failed(String),
}

/// One reply line while generating: a `token` line with a token hands it on,
/// `generation_end` finishes with the full response (empty when absent),
/// `error` fails with `Generation error: <message>`; `generation_start`,
/// `status`, tokenless `token` lines and anything else are skipped.
pub fn generation_step(reply: LLMResponse) -> (step: GenerationStep)
    ensures
        reply.response_type@ == "token"@ ==> match reply.token {
            Some(t) => step matches GenerationStep::Token(s) && s@ == t@,
            None => step is Pending,
        },
        reply.response_type@ == "generation_end"@ ==> (step matches GenerationStep::Finished(s)
            && s@ == text_or_empty(reply.full_response)),
        reply.response_type@ == "error"@ ==> (step matches GenerationStep::Failed(e) && e@
            == "Generation error: "@ + text_or_empty(reply.message)),
        reply.response_type@ != "token"@ && reply.response_type@ != "generation_end"@
            && reply.response_type@ != "error"@ ==> step is Pending,
{
    proof {
        reveal_strlit("token");
        reveal_strlit("generation_end");
        reveal_strlit("error");
        assert("token"@[0] != "error"@[0]);
        assert("token"@.len() != "generation_end"@.len());
        assert("error"@.len() != "generation_end"@.len());
    }
    let kind = reply.response_type;
    if same_text(kind.as_str(), "token") {
        match reply.token {
            Some(t) => GenerationStep::Token(t),
            None => GenerationStep::Pending,
        }
    } else if same_text(kind.as_str(), "generation_end") {
        GenerationStep::Finished(take_text(reply.full_response))
    } else if same_text(kind.as_str(), "error") {
        let msg = take_text(reply.message);
        GenerationStep::Failed(concat("Generation error: ", msg.as_str()))
    } else {
        GenerationStep::Pending
    }
}

/// The conversation after the user says `prompt`.
pub open spec fn with_prompt(
    conversation: Seq<(Seq<char>, Seq<char>)>,
    prompt: Seq<char>,
) -> Seq<(Seq<char>, Seq<char>)> {
    conversation.push(("user"@, prompt))
}

/// The conversation after the assistant answers `reply`.
pub open spec fn with_reply(
    conversation: Seq<(Seq<char>, Seq<char>)>,
    reply: Seq<char>,
) -> Seq<(Seq<char>, Seq<char>)> {
    conversation.push(("assistant"@, reply))
}

/// The conversation the language model is given: every prompt and reply
/// so far, oldest first.
pub struct AIModel {
    conversation: Vec<Message>,
}

impl View for AIModel {
    type V = Seq<(Seq<char>, Seq<char>)>;

    closed spec fn view(&self) -> Seq<(Seq<char>, Seq<char>)> {
        messages_view(self.conversation@)
    }
}

impl AIModel {
    pub fn new() -> (m: AIModel)
        ensures
            m@ == Seq::<(Seq<char>, Seq<char>)>::empty(),
    {
        AIModel { conversation: Vec::new() }
    }

    /// Adds the user's `prompt` to the conversation and gives the request
    /// that asks for a reply to the whole conversation.
    pub fn begin_generate(&mut self, prompt: &str) -> (request: String)
        ensures
            final(self)@ == with_prompt(old(self)@, prompt@),
            request@ == generate_request_spec(final(self)@),
            request@ == "{\"cmd\":\"generate\",\"messages\":["@ + comma_joined(
                Seq::new(final(self)@.len(), |i: int| message_json(final(self)@[i])),
            ) + "]}"@,
    {
        let m = Message::new(owned("user"), owned(prompt));
        let ghost before = self.conversation@;
        let ghost mv = m@;
        self.conversation.push(m);
        assert(messages_view(self.conversation@) == messages_view(before).push(mv));
        let request = generate_request(&self.conversation);
        proof {
            lemma_generate_request_lists_every_message(messages_view(self.conversation@));
        }
        request
    }

    /// Adds the assistant's finished `reply` to the conversation.
    pub fn end_generate(&mut self, reply: &str)
        ensures
            final(self)@ == with_reply(old(self)@, reply@),
    {
        let m = Message::new(owned("assistant"), owned(reply));
        let ghost before = self.conversation@;
        let ghost mv = m@;
        self.conversation.push(m);
        assert(messages_view(self.conversation@) == messages_view(before).push(mv));
    }

    pub fn clear_history(&mut self)
        ensures
            final(self)@ == Seq::<(Seq<char>, Seq<char>)>::empty(),
    {
        self.conversation.clear();
        assert(messages_view(self.conversation@) =~= Seq::<(Seq<char>, Seq<char>)>::empty());
    }
}

/// A completed generation adds the prompt and then the reply to the
/// conversation, and nothing else.
pub proof fn lemma_generation_round(
    conversation: Seq<(Seq<char>, Seq<char>)>,
    prompt: Seq<char>,
    reply: Seq<char>,
)
    ensures
        with_reply(with_prompt(conversation, prompt), reply) == conversation + seq![
            ("user"@, prompt),
            ("assistant"@, reply),
        ],
{
    assert(with_reply(with_prompt(conversation, prompt), reply) =~= conversation + seq![
        ("user"@, prompt),
        ("assistant"@, reply),
    ]);
}

} // verus!
