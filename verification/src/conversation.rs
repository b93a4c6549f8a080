//! Conversation bookkeeping: sessions of messages, the runtime that adds
//! messages to its session, and the errors of tools and turns.

use vstd::prelude::*;
use crate::text::text_equals;

verus! {

/// Who wrote a message.
#[derive(Debug, Clone, Copy, PartialEq, Eq, Structural)]
pub enum MessageRole {
    System,
    User,
    Assistant,
    Tool,
}

/// Token counts reported for a message.
#[derive(Debug, Clone, Copy, PartialEq, Eq, Structural)]
pub struct TokenUsage {
    pub input_tokens: u32,
    pub output_tokens: u32,
}

/// A block of message content.
#[derive(Debug, Clone)]
pub enum ContentBlock {
    Text { text: String },
}

impl View for ContentBlock {
    type V = Seq<char>;

    open spec fn view(&self) -> Seq<char> {
        match self {
            ContentBlock::Text { text } => text@,
        }
    }
}

/// A message of a conversation.
#[derive(Debug, Clone)]
pub struct ConversationMessage {
    pub role: MessageRole,
    pub blocks: Vec<ContentBlock>,
    pub usage: Option<TokenUsage>,
}

/// A message as its role, the texts of its blocks and its usage.
pub struct MessageView {
    pub role: MessageRole,
    pub blocks: Seq<Seq<char>>,
    pub usage: Option<TokenUsage>,
}

impl View for ConversationMessage {
    type V = MessageView;

    open spec fn view(&self) -> MessageView {
        MessageView {
            role: self.role,
            blocks: self.blocks@.map_values(|b: ContentBlock| b@),
            usage: self.usage,
        }
    }
}

/// A conversation: its messages in order.
#[derive(Debug, Clone)]
pub struct Session {
    pub messages: Vec<ConversationMessage>,
}

impl View for Session {
    type V = Seq<MessageView>;

    open spec fn view(&self) -> Seq<MessageView> {
        self.messages@.map_values(|m: ConversationMessage| m@)
    }
}

impl Session {
    /// A session without messages.
    pub fn new() -> (s: Self)
        ensures
            s@.len() == 0,
    {
        Session { messages: Vec::new() }
    }
}

/// Events of one assistant turn.
#[derive(Debug, Clone)]
pub enum AssistantEvent {
    TextDelta(String),
    MessageStop,
}

/// The request handed to a model client.
#[derive(Debug, Clone)]
pub struct ApiRequest {
    pub system_prompt: Vec<String>,
    pub messages: Vec<ConversationMessage>,
}

/// A model client that answers a request with the events of a turn.
pub trait ApiClient {
    fn stream(&mut self, request: ApiRequest) -> Result<Vec<AssistantEvent>, RuntimeError>;
}

/// Something that runs the tools a model asks for.
pub trait ToolExecutor {
    fn execute(&mut self, tool_name: &str, input: &str) -> Result<String, ToolError>;
}

/// A tool that failed, with its message.
#[derive(Debug, Clone, PartialEq, Eq)]
pub struct ToolError {
    message: String,
}

impl View for ToolError {
    type V = Seq<char>;

    closed spec fn view(&self) -> Seq<char> {
        self.message@
    }
}

impl ToolError {
    /// An error with the given message.
    pub fn new(message: &str) -> (e: Self)
        ensures
            e@ == message@,
    {
        ToolError { message: String::from_str(message) }
    }

    /// The message.
    pub fn to_string(&self) -> (r: String)
        ensures
            r@ == self@,
    {
        self.message.clone()
    }
}

/// A turn that could not be completed, with its message.
#[derive(Debug, Clone, PartialEq, Eq)]
pub struct RuntimeError {
    message: String,
}

impl View for RuntimeError {
    type V = Seq<char>;

    closed spec fn view(&self) -> Seq<char> {
        self.message@
    }
}

impl RuntimeError {
    /// An error with the given message.
    pub fn new(message: &str) -> (e: Self)
        ensures
            e@ == message@,
    {
        RuntimeError { message: String::from_str(message) }
    }

    /// The message.
    pub fn to_string(&self) -> (r: String)
        ensures
            r@ == self@,
    {
        self.message.clone()
    }
}

/// The role a role name gives a message: `user`, `assistant` and `system`
/// by name, and the user for any other name.
pub open spec fn role_named(name: Seq<char>) -> MessageRole {
    if name == "assistant"@ {
        MessageRole::Assistant
    } else if name == "system"@ {
        MessageRole::System
    } else {
        MessageRole::User
    }
}

/// The role of a message by its role name (see `role_named`).
pub fn role_from_name(name: &str) -> (r: MessageRole)
    ensures
        r == role_named(name@),
{
    proof {
        reveal_strlit("user");
        reveal_strlit("assistant");
        reveal_strlit("system");
        assert("user"@.len() == 4);
        assert("assistant"@.len() == 9);
        assert("system"@.len() == 6);
        assert("user"@ != "assistant"@);
        assert("user"@ != "system"@);
        assert("assistant"@ != "system"@);
    }
    if text_equals(name, "user") {
        MessageRole::User
    } else if text_equals(name, "assistant") {
        MessageRole::Assistant
    } else if text_equals(name, "system") {
        MessageRole::System
    } else {
        MessageRole::User
    }
}

/// The runtime of one conversation.
pub struct ConversationRuntime {
    session: Session,
}

impl View for ConversationRuntime {
    type V = Seq<MessageView>;

    closed spec fn view(&self) -> Seq<MessageView> {
        self.session@
    }
}

impl ConversationRuntime {
    /// A runtime over the given session.
    pub fn new(session: Session) -> (r: Self)
        ensures
            r@ == session@,
    {
        ConversationRuntime { session }
    }

    /// Appends one message with the given role name and a single text block
    /// holding `content`, without usage; the earlier messages stay as they were.
    pub fn add_message(&mut self, role: &str, content: &str)
        ensures
            final(self)@.len() == old(self)@.len() + 1,
            forall|i: int| 0 <= i < old(self)@.len() ==> final(self)@[i] == old(self)@[i],
            final(self)@.last().role == role_named(role@),
            final(self)@.last().blocks == seq![content@],
            final(self)@.last().usage is None,
    {
        let message_role = role_from_name(role);
        let mut blocks: Vec<ContentBlock> = Vec::new();
        blocks.push(ContentBlock::Text { text: String::from_str(content) });
        let message = ConversationMessage { role: message_role, blocks, usage: None };
        self.session.messages.push(message);
        assert(message@.blocks =~= seq![content@]);
        assert(self@ =~= old(self)@.push(message@));
    }

    /// Runs a turn: the reply is the single text `Hello from WikiMind!`, and
    /// the session is left as it was.
    pub fn run_turn(&mut self) -> (r: Result<Vec<AssistantEvent>, RuntimeError>)
        ensures
            final(self)@ == old(self)@,
            r is Ok,
            r.unwrap()@.len() == 1,
            r.unwrap()@[0] is TextDelta,
            r.unwrap()@[0]->TextDelta_0@ == "Hello from WikiMind!"@,
    {
        let mut events: Vec<AssistantEvent> = Vec::new();
        events.push(AssistantEvent::TextDelta(String::from_str("Hello from WikiMind!")));
        Ok(events)
    }

    /// The session, for reading and changing it in place.
    pub fn session(&mut self) -> (s: &mut Session)
        ensures
            s@ == old(self)@,
            final(self)@ == final(s)@,
    {
        &mut self.session
    }
}

} // verus!
