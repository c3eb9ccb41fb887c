//! The chat history shown in the window: a bounded list of messages.

use vstd::prelude::*;

verus! {

/// One chat message: who said it (`"user"` or `"assistant"`) and what.
pub struct Message {
    pub role: String,
    pub content: String,
}

impl View for Message {
    type V = (Seq<char>, Seq<char>);

    open spec fn view(&self) -> (Seq<char>, Seq<char>) {
        (self.role@, self.content@)
    }
}

impl Message {
    pub fn new(role: String, content: String) -> (m: Message)
        ensures
            m@ == (role@, content@),
    {
        Message { role, content }
    }

    /// Whether the user wrote this message (it is shown on the right).
    pub fn is_from_user(&self) -> (b: bool)
        ensures
            b == (self.role@ == "user"@),
    {
        crate::text::same_text(self.role.as_str(), "user")
    }

    /// A copy of this message.
    pub fn duplicate(&self) -> (m: Message)
        ensures
            m@ == self@,
    {
        Message { role: self.role.clone(), content: self.content.clone() }
    }
}

/// The views of a list of messages.
pub open spec fn messages_view(v: Seq<Message>) -> Seq<(Seq<char>, Seq<char>)> {
    v.map_values(|m: Message| m@)
}

/// `history` with `m` appended, and the oldest message dropped when that
/// makes the list longer than `max`.
pub open spec fn append_bounded(
    history: Seq<(Seq<char>, Seq<char>)>,
    m: (Seq<char>, Seq<char>),
    max: nat,
) -> Seq<(Seq<char>, Seq<char>)> {
    let grown = history.push(m);
    if grown.len() > max {
        grown.drop_first()
    } else {
        grown
    }
}

/// The chat history, which keeps at most `max_history` messages.
pub struct ChatManager {
    messages: Vec<Message>,
    max_history: usize,
}

impl View for ChatManager {
    type V = Seq<(Seq<char>, Seq<char>)>;

    closed spec fn view(&self) -> Seq<(Seq<char>, Seq<char>)> {
        messages_view(self.messages@)
    }
}

impl ChatManager {
    #[verifier::type_invariant]
    closed spec fn bounded(self) -> bool {
        self.messages@.len() <= self.max_history
    }

    /// The most messages this history keeps.
    pub closed spec fn capacity(self) -> nat {
        self.max_history as nat
    }

    pub fn new(max_history: usize) -> (c: ChatManager)
        ensures
            c@ == Seq::<(Seq<char>, Seq<char>)>::empty(),
            c.capacity() == max_history,
    {
        ChatManager { messages: Vec::new(), max_history }
    }

    /// Appends a message; when the history then holds more than its capacity,
    /// the oldest message is dropped. The history never holds more than its
    /// capacity.
    pub fn add_message(&mut self, role: String, content: String)
        ensures
            final(self)@ == append_bounded(old(self)@, (role@, content@), old(self).capacity()),
            final(self).capacity() == old(self).capacity(),
            final(self)@.len() <= final(self).capacity(),
    {
        proof {
            use_type_invariant(&*self);
        }
        let mut msgs: Vec<Message> = Vec::new();
        std::mem::swap(&mut msgs, &mut self.messages);
        let ghost before = msgs@;
        let m = Message::new(role, content);
        let ghost mv = m@;
        msgs.push(m);
        assert(messages_view(msgs@) == messages_view(before).push(mv));
        if msgs.len() > self.max_history {
            let ghost grown = msgs@;
            msgs.remove(0);
            assert(msgs@ == grown.drop_first());
            assert(messages_view(msgs@) == messages_view(grown).drop_first());
        }
        self.messages = msgs;
    }

    pub fn get_messages(&self) -> (v: &Vec<Message>)
        ensures
            messages_view(v@) == self@,
    {
        &self.messages
    }

    pub fn clear(&mut self)
        ensures
            final(self)@ == Seq::<(Seq<char>, Seq<char>)>::empty(),
            final(self).capacity() == old(self).capacity(),
    {
        self.messages = Vec::new();
        assert(messages_view(self.messages@) =~= Seq::<(Seq<char>, Seq<char>)>::empty());
    }

    /// How many messages the history holds; never more than its capacity.
    pub fn len(&self) -> (n: usize)
        ensures
            n == self@.len(),
            n <= self.capacity(),
    {
        proof {
            use_type_invariant(self);
        }
        self.messages.len()
    }
}

} // verus!
