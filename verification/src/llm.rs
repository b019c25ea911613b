//! Chat messages, tool calls and the events of a streamed model reply.
use vstd::prelude::*;
use crate::text::{owned, push_str, same_text};

verus! {

/// Who wrote a message.
#[derive(Debug, Clone, Copy, PartialEq, Eq, Structural)]
pub enum Role {
    System,
    User,
    Assistant,
    Tool,
}

/// The wire name of a role (lower case).
pub open spec fn role_name(r: Role) -> Seq<char> {
    match r {
        Role::System => "system"@,
        Role::User => "user"@,
        Role::Assistant => "assistant"@,
        Role::Tool => "tool"@,
    }
}

/// The role a wire name stands for; any unknown name is a user.
pub open spec fn role_of_name(s: Seq<char>) -> Role {
    if s == "system"@ {
        Role::System
    } else if s == "assistant"@ {
        Role::Assistant
    } else if s == "tool"@ {
        Role::Tool
    } else {
        Role::User
    }
}

impl Role {
    /// The wire name of the role.
    pub fn as_str(&self) -> (r: &'static str)
        ensures
            r@ == role_name(*self),
    {
        match self {
            Role::System => "system",
            Role::User => "user",
            Role::Assistant => "assistant",
            Role::Tool => "tool",
        }
    }

    /// The role a wire name stands for; any unknown name is a user.
    pub fn from_name(s: &str) -> (r: Role)
        ensures
            r == role_of_name(s@),
    {
        if same_text(s, "system") {
            Role::System
        } else if same_text(s, "assistant") {
            Role::Assistant
        } else if same_text(s, "tool") {
            Role::Tool
        } else {
            Role::User
        }
    }
}

/// Names a model provider.
#[derive(Debug, PartialEq, Eq)]
pub struct ProviderId(pub String);

impl Clone for ProviderId {
    fn clone(&self) -> (r: Self)
        ensures
            r == *self,
    {
        ProviderId(self.0.clone())
    }
}

/// The sampling settings of a model request that the library sets: the
/// most tokens the reply may take (`None` for the provider's default).
/// Requests here set no temperature and no `top_p`.
#[derive(Debug, Clone, Copy, PartialEq, Eq, Structural)]
pub struct RequestSettings {
    pub max_tokens: Option<u32>,
}

/// The settings of every model request of a chat: at most 4096 tokens.
pub fn chat_request_settings() -> (r: RequestSettings)
    ensures
        r.max_tokens == Some(4096u32),
{
    RequestSettings { max_tokens: Some(4096) }
}

/// Token counts of one model call.
#[derive(Debug, Clone, Copy, PartialEq, Eq, Structural)]
pub struct Usage {
    pub prompt_tokens: u32,
    pub completion_tokens: u32,
    pub total_tokens: u32,
}

/// The function a tool call names, with its JSON arguments as text.
#[derive(Debug)]
pub struct ToolCallFunction {
    pub name: String,
    pub arguments: String,
}

impl Clone for ToolCallFunction {
    fn clone(&self) -> (r: Self)
        ensures
            r == *self,
    {
        ToolCallFunction { name: self.name.clone(), arguments: self.arguments.clone() }
    }
}

/// A tool call the model asked for.
#[derive(Debug)]
pub struct ToolCall {
    pub id: String,
    /// Always `"function"` for the providers here.
    pub call_type: String,
    pub function: ToolCallFunction,
}

impl Clone for ToolCall {
    fn clone(&self) -> (r: Self)
        ensures
            r == *self,
    {
        ToolCall { id: self.id.clone(), call_type: self.call_type.clone(), function: self.function.clone() }
    }
}

/// One chat message.
#[derive(Debug)]
pub struct Message {
    pub role: Role,
    pub content: String,
    pub tool_calls: Option<Vec<ToolCall>>,
    pub tool_call_id: Option<String>,
    pub name: Option<String>,
}

/// A copy of a list of tool calls.
pub fn clone_calls(v: &Vec<ToolCall>) -> (r: Vec<ToolCall>)
    ensures
        r@ == v@,
{
    let mut out: Vec<ToolCall> = Vec::new();
    let mut i: usize = 0;
    while i < v.len()
        invariant
            i <= v@.len(),
            out@ == v@.subrange(0, i as int),
        decreases v@.len() - i,
    {
        out.push(v[i].clone());
        i = i + 1;
        assert(out@ =~= v@.subrange(0, i as int));
    }
    assert(v@.subrange(0, v@.len() as int) =~= v@);
    out
}

/// A message's content, with lists seen as sequences.
pub struct MessageView {
    pub role: Role,
    pub content: Seq<char>,
    pub tool_calls: Option<Seq<ToolCall>>,
    pub tool_call_id: Option<Seq<char>>,
    pub name: Option<Seq<char>>,
}

impl View for Message {
    type V = MessageView;

    open spec fn view(&self) -> MessageView {
        MessageView {
            role: self.role,
            content: self.content@,
            tool_calls: match self.tool_calls {
                Some(v) => Some(v@),
                None => None,
            },
            tool_call_id: crate::text::opt_text(self.tool_call_id),
            name: crate::text::opt_text(self.name),
        }
    }
}

/// The views of a list of messages.
pub open spec fn messages_view(s: Seq<Message>) -> Seq<MessageView> {
    s.map_values(|m: Message| m@)
}

impl Clone for Message {
    fn clone(&self) -> (r: Self)
        ensures
            r@ == self@,
    {
        let tool_calls = match &self.tool_calls {
            Some(v) => Some(clone_calls(v)),
            None => None,
        };
        Message {
            role: self.role,
            content: self.content.clone(),
            tool_calls,
            tool_call_id: self.tool_call_id.clone(),
            name: self.name.clone(),
        }
    }
}

impl Message {
    /// A plain message with no tool data.
    pub fn text(role: Role, content: String) -> (r: Message)
        ensures
            r.role == role,
            r.content == content,
            r.tool_calls is None,
            r.tool_call_id is None,
            r.name is None,
    {
        Message { role, content, tool_calls: None, tool_call_id: None, name: None }
    }
}

/// A copy of a list of messages.
pub fn clone_messages(v: &Vec<Message>) -> (r: Vec<Message>)
    ensures
        messages_view(r@) == messages_view(v@),
{
    let mut out: Vec<Message> = Vec::new();
    let mut i: usize = 0;
    while i < v.len()
        invariant
            i <= v@.len(),
            out@.len() == i,
            forall|k: int| 0 <= k < i ==> #[trigger] out@[k]@ == v@[k]@,
        decreases v@.len() - i,
    {
        let m = v[i].clone();
        out.push(m);
        i = i + 1;
    }
    assert(messages_view(out@) =~= messages_view(v@));
    out
}

/// One event of a streamed model reply.
#[derive(Debug)]
pub enum StreamEvent {
    /// A piece of the reply's text.
    Chunk(String),
    /// A tool call the model asked for.
    ToolCall(ToolCall),
    /// The reply is complete.
    Done(Usage),
    /// The provider failed.
    Error(String),
}

/// The text `a` followed by `b`.
pub fn concat(a: &str, b: &str) -> (r: String)
    ensures
        r@ == a@ + b@,
{
    let mut s = owned(a);
    push_str(&mut s, b);
    s
}

/// The text `a`, `b`, `c` in a row.
pub fn concat3(a: &str, b: &str, c: &str) -> (r: String)
    ensures
        r@ == a@ + b@ + c@,
{
    let mut s = owned(a);
    push_str(&mut s, b);
    push_str(&mut s, c);
    s
}

/// How to reach an OpenAI-compatible API.
#[derive(Debug, Clone)]
pub struct OpenAiConfig {
    pub base_url: String,
    pub api_key: String,
    pub default_model: String,
}

impl OpenAiConfig {
    /// The DeepSeek API with `deepseek-chat`, using the given key (the
    /// caller reads it from `AA_API_KEY`, empty when unset).
    pub fn with_api_key(api_key: String) -> (r: OpenAiConfig)
        ensures
            r.base_url@ == "https://api.deepseek.com"@,
            r.api_key == api_key,
            r.default_model@ == "deepseek-chat"@,
    {
        OpenAiConfig { base_url: owned("https://api.deepseek.com"), api_key, default_model: owned("deepseek-chat") }
    }
}

} // verus!
