use vstd::prelude::*;

verus! {

/// Who wrote a message of the conversation.
#[derive(Debug, Clone, Copy, PartialEq, Eq, Structural)]
pub enum ChatRole {
    System,
    User,
    Assistant,
}

/// One message of the conversation.
#[derive(Debug, Clone)]
pub struct ChatMessage {
    pub role: ChatRole,
    pub content: String,
}

impl View for ChatMessage {
    type V = (ChatRole, Seq<char>);

    open spec fn view(&self) -> (ChatRole, Seq<char>) {
        (self.role, self.content@)
    }
}

/// The views of a list of messages.
pub open spec fn message_views(messages: Seq<ChatMessage>) -> Seq<(ChatRole, Seq<char>)> {
    messages.map_values(|m: ChatMessage| m@)
}

/// The messages a request carries: the system prompt, then the conversation so far.
pub open spec fn request_view(history: Seq<(ChatRole, Seq<char>)>, system_prompt: Seq<char>) -> Seq<
    (ChatRole, Seq<char>),
> {
    seq![(ChatRole::System, system_prompt)] + history
}

fn copy_message(m: &ChatMessage) -> (c: ChatMessage)
    ensures
        c@ == m@,
{
    ChatMessage { role: m.role, content: m.content.clone() }
}

/// The in-memory conversation: user and assistant turns in the order they happened.
#[derive(Debug)]
pub struct Session {
    messages: Vec<ChatMessage>,
}

impl View for Session {
    type V = Seq<(ChatRole, Seq<char>)>;

    closed spec fn view(&self) -> Seq<(ChatRole, Seq<char>)> {
        message_views(self.messages@)
    }
}

impl Default for Session {
    fn default() -> (s: Session)
        ensures
            s@ == Seq::<(ChatRole, Seq<char>)>::empty(),
    {
        let s = Session { messages: Vec::new() };
        assert(s@ == Seq::<(ChatRole, Seq<char>)>::empty());
        s
    }
}

impl Session {
    /// An empty conversation.
    pub fn new() -> (s: Session)
        ensures
            s@ == Seq::<(ChatRole, Seq<char>)>::empty(),
    {
        Self::default()
    }

    /// Forgets every turn.
    pub fn reset(&mut self)
        ensures
            final(self)@ == Seq::<(ChatRole, Seq<char>)>::empty(),
    {
        self.messages.clear();
        assert(self@ == Seq::<(ChatRole, Seq<char>)>::empty());
    }

    /// Records a turn of the user.
    pub fn push_user(&mut self, content: String)
        ensures
            final(self)@ == old(self)@.push((ChatRole::User, content@)),
    {
        let ghost content_view = content@;
        self.messages.push(ChatMessage { role: ChatRole::User, content });
        assert(self@ == old(self)@.push((ChatRole::User, content_view)));
    }

    /// Records a turn of the assistant.
    pub fn push_assistant(&mut self, content: String)
        ensures
            final(self)@ == old(self)@.push((ChatRole::Assistant, content@)),
    {
        let ghost content_view = content@;
        self.messages.push(ChatMessage { role: ChatRole::Assistant, content });
        assert(self@ == old(self)@.push((ChatRole::Assistant, content_view)));
    }

    /// Starts a turn: records the user's prompt and gives the messages of its request, the
    /// system prompt, every turn so far and the prompt last.
    pub fn open_turn(&mut self, prompt: String, system_prompt: &str) -> (messages: Vec<ChatMessage>)
        ensures
            final(self)@ == old(self)@.push((ChatRole::User, prompt@)),
            message_views(messages@) == request_view(final(self)@, system_prompt@),
    {
        self.push_user(prompt);
        self.build_request_messages(system_prompt)
    }

    /// The messages of a request: the system prompt first, then every turn in order.
    pub fn build_request_messages(&self, system_prompt: &str) -> (messages: Vec<ChatMessage>)
        ensures
            message_views(messages@) == request_view(self@, system_prompt@),
    {
        let n = self.messages.len();
        let mut messages: Vec<ChatMessage> = Vec::new();
        messages.push(ChatMessage { role: ChatRole::System, content: system_prompt.to_owned() });
        for i in 0..n
            invariant
                n == self.messages@.len(),
                message_views(messages@) == request_view(
                    message_views(self.messages@.take(i as int)),
                    system_prompt@,
                ),
        {
            let m = copy_message(&self.messages[i]);
            let ghost before = messages@;
            assert(self.messages@.take(i + 1) == self.messages@.take(i as int).push(
                self.messages@[i as int],
            ));
            messages.push(m);
            assert(message_views(messages@) == message_views(before).push(m@));
            assert(message_views(self.messages@.take(i + 1)) == message_views(
                self.messages@.take(i as int),
            ).push(self.messages@[i as int]@));
            assert(message_views(messages@) == request_view(
                message_views(self.messages@.take(i + 1)),
                system_prompt@,
            ));
        }
        assert(self.messages@.take(n as int) == self.messages@);
        messages
    }
}


/// A request is the system prompt, as a system message, followed by the conversation
/// exactly as it stands.
pub proof fn lemma_request_is_prompt_then_history(
    history: Seq<(ChatRole, Seq<char>)>,
    system_prompt: Seq<char>,
)
    ensures
        request_view(history, system_prompt).len() == history.len() + 1,
        request_view(history, system_prompt)[0] == (ChatRole::System, system_prompt),
        forall|i: int|
            0 <= i < history.len() ==> #[trigger] request_view(history, system_prompt)[i + 1]
                == history[i],
{
}

/// After a reset, a request carries the system prompt alone.
pub proof fn lemma_request_after_reset(system_prompt: Seq<char>)
    ensures
        request_view(Seq::empty(), system_prompt) == seq![(ChatRole::System, system_prompt)],
{
    assert(request_view(Seq::empty(), system_prompt) =~= seq![(ChatRole::System, system_prompt)]);
}

/// A request made after a turn is pushed ends with that turn, after the system prompt and
/// every earlier turn.
pub proof fn lemma_request_ends_with_latest(
    history: Seq<(ChatRole, Seq<char>)>,
    turn: (ChatRole, Seq<char>),
    system_prompt: Seq<char>,
)
    ensures
        request_view(history.push(turn), system_prompt).len() == history.len() + 2,
        request_view(history.push(turn), system_prompt).last() == turn,
        request_view(history.push(turn), system_prompt).drop_last() == request_view(
            history,
            system_prompt,
        ),
{
    assert(request_view(history.push(turn), system_prompt).drop_last() =~= request_view(
        history,
        system_prompt,
    ));
}


/// The conversation after a reply: the assistant's turn when the request succeeded with
/// `reply`, nothing more when it failed.
pub open spec fn after_reply(history: Seq<(ChatRole, Seq<char>)>, reply: Option<Seq<char>>) -> Seq<
    (ChatRole, Seq<char>),
> {
    match reply {
        Some(content) => history.push((ChatRole::Assistant, content)),
        None => history,
    }
}

/// A reply that arrived becomes the assistant's turn, appended after everything before it;
/// a failed request adds nothing.
pub proof fn lemma_reply_is_assistant_turn(history: Seq<(ChatRole, Seq<char>)>, content: Seq<char>)
    ensures
        after_reply(history, Some(content)) == history.push((ChatRole::Assistant, content)),
        after_reply(history, Some(content)).len() == history.len() + 1,
        after_reply(history, Some(content)).last() == (ChatRole::Assistant, content),
        after_reply(history, None) == history,
{
}

/// The conversation that a run of turns builds from an empty (or just reset) session: each
/// prompt as a user turn, followed by its reply when the request succeeded.
pub open spec fn turns_history(turns: Seq<(Seq<char>, Option<Seq<char>>)>) -> Seq<
    (ChatRole, Seq<char>),
>
    decreases turns.len(),
{
    if turns.len() == 0 {
        Seq::empty()
    } else {
        after_reply(
            turns_history(turns.drop_last()).push((ChatRole::User, turns.last().0)),
            turns.last().1,
        )
    }
}

/// Each turn adds the user's prompt and then, when its request succeeded, the assistant's
/// reply, after all earlier turns.
pub proof fn lemma_turns_in_order(
    turns: Seq<(Seq<char>, Option<Seq<char>>)>,
    prompt: Seq<char>,
    reply: Seq<char>,
)
    ensures
        turns_history(turns.push((prompt, Some(reply)))) == turns_history(turns) + seq![
            (ChatRole::User, prompt),
            (ChatRole::Assistant, reply),
        ],
        turns_history(turns.push((prompt, None))) == turns_history(turns) + seq![
            (ChatRole::User, prompt),
        ],
{
    assert(turns.push((prompt, Some(reply))).drop_last() == turns);
    assert(turns.push((prompt, None)).drop_last() == turns);
    assert(turns_history(turns.push((prompt, Some(reply)))) =~= turns_history(turns) + seq![
        (ChatRole::User, prompt),
        (ChatRole::Assistant, reply),
    ]);
    assert(turns_history(turns.push((prompt, None))) =~= turns_history(turns) + seq![
        (ChatRole::User, prompt),
    ]);
}

/// One more turn: starting it from a session that holds the turns so far, the request
/// carries the system prompt, every turn since the start (or the last reset) and the new
/// prompt; once its reply is recorded the session holds the longer run of turns.
pub proof fn lemma_turn_extends_conversation(
    turns: Seq<(Seq<char>, Option<Seq<char>>)>,
    prompt: Seq<char>,
    reply: Option<Seq<char>>,
    system_prompt: Seq<char>,
)
    ensures
        request_view(turns_history(turns).push((ChatRole::User, prompt)), system_prompt) == seq![
            (ChatRole::System, system_prompt),
        ] + turns_history(turns) + seq![(ChatRole::User, prompt)],
        after_reply(turns_history(turns).push((ChatRole::User, prompt)), reply) == turns_history(
            turns.push((prompt, reply)),
        ),
{
    let longer = turns.push((prompt, reply));
    assert(longer.drop_last() == turns);
    assert(request_view(turns_history(turns).push((ChatRole::User, prompt)), system_prompt)
        =~= seq![(ChatRole::System, system_prompt)] + turns_history(turns) + seq![
        (ChatRole::User, prompt),
    ]);
}

} // verus!
