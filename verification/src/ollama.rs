//! The Ollama chat API (`/api/chat`): requests built from a conversation,
//! and replies (whole or streamed line by line) turned into messages and
//! stream events.
use vstd::prelude::*;
use crate::llm::{Message, RequestSettings, Role, StreamEvent, ToolCall, ToolCallFunction, Usage, role_name, role_of_name};
use crate::text::{chars_of, decimal, find_char, owned, push_decimal, push_str, split_first, string_from_range, trim_chars, trimmed};
use crate::json::json_or_null;
use crate::tool::ToolDefinition;

verus! {

/// Where the Ollama server is and which model it uses by default.
#[derive(Debug, Clone)]
pub struct OllamaConfig {
    pub base_url: String,
    pub default_model: String,
}

impl OllamaConfig {
    /// The local server with `llama3.2`.
    pub fn default_config() -> (r: OllamaConfig)
        ensures
            r.base_url@ == "http://localhost:11434"@,
            r.default_model@ == "llama3.2"@,
    {
        OllamaConfig { base_url: owned("http://localhost:11434"), default_model: owned("llama3.2") }
    }

    /// The chat endpoint's URL.
    pub fn chat_url(&self) -> (r: String)
        ensures
            r@ == self.base_url@ + "/api/chat"@,
    {
        let mut s = self.base_url.clone();
        push_str(&mut s, "/api/chat");
        s
    }
}

/// A tool call in a request: the function and its parsed arguments.
#[derive(Debug)]
pub struct OllamaToolCall {
    pub name: String,
    pub arguments: serde_json::Value,
}

/// A message in a request.
#[derive(Debug)]
pub struct OllamaMessage {
    pub role: String,
    pub content: Option<String>,
    pub tool_calls: Option<Vec<OllamaToolCall>>,
}

/// A tool offered in a request.
#[derive(Debug)]
pub struct OllamaTool {
    pub name: String,
    pub description: String,
    pub parameters: serde_json::Value,
}

/// The sampling options of a request: the most tokens to predict. (No
/// temperature or `top_p` is ever set here.)
#[derive(Debug, Clone, Copy, PartialEq, Eq, Structural)]
pub struct OllamaOptions {
    pub num_predict: Option<u32>,
}

/// A chat request.
#[derive(Debug)]
pub struct OllamaRequest {
    pub model: String,
    pub messages: Vec<OllamaMessage>,
    pub tools: Option<Vec<OllamaTool>>,
    pub stream: bool,
    pub options: OllamaOptions,
}

/// Whether a request message leaves out its content: an assistant message
/// that carries tool calls and no text.
pub open spec fn drops_content(m: Message) -> bool {
    m.role == Role::Assistant && m.tool_calls is Some && m.content@.len() == 0
}

/// The model a request names: the requested one, else the default.
pub open spec fn request_model(requested: Seq<char>, default: Seq<char>) -> Seq<char> {
    if requested.len() == 0 { default } else { requested }
}

/// The tool calls of a request message for those of a conversation message:
/// each call's name, and its arguments text parsed (`null` where it is not
/// JSON).
pub open spec fn request_calls(v: Seq<OllamaToolCall>, w: Seq<ToolCall>) -> bool {
    &&& v.len() == w.len()
    &&& forall|i: int| 0 <= i < v.len() ==> {
        &&& (#[trigger] v[i]).name@ == w[i].function.name@
        &&& v[i].arguments == json_or_null(w[i].function.arguments@)
    }
}

/// The request message for a conversation message: its role's wire name,
/// its content (left out where `drops_content`), and its tool calls.
pub open spec fn request_message_of(r: OllamaMessage, m: Message) -> bool {
    &&& r.role@ == role_name(m.role)
    &&& drops_content(m) ==> r.content is None
    &&& !drops_content(m) ==> (r.content matches Some(c) && c@ == m.content@)
    &&& match (r.tool_calls, m.tool_calls) {
        (Some(v), Some(w)) => request_calls(v@, w@),
        (None, None) => true,
        _ => false,
    }
}

fn request_message(m: &Message) -> (r: OllamaMessage)
    ensures
        request_message_of(r, *m),
{
    let tool_calls = match &m.tool_calls {
        Some(calls) => {
            let mut out: Vec<OllamaToolCall> = Vec::new();
            let mut i: usize = 0;
            while i < calls.len()
                invariant
                    i <= calls@.len(),
                    out@.len() == i,
                    forall|k: int| 0 <= k < i ==> {
                        &&& (#[trigger] out@[k]).name@ == calls@[k].function.name@
                        &&& out@[k].arguments == json_or_null(calls@[k].function.arguments@)
                    },
                decreases calls@.len() - i,
            {
                out.push(OllamaToolCall {
                    name: calls[i].function.name.clone(),
                    arguments: crate::json::parse_json_or_null(calls[i].function.arguments.as_str()),
                });
                i = i + 1;
            }
            Some(out)
        },
        None => None,
    };
    let drop = m.role == Role::Assistant && m.tool_calls.is_some() && m.content.as_str().is_empty();
    let content = if drop { None } else { Some(m.content.clone()) };
    OllamaMessage { role: owned(m.role.as_str()), content, tool_calls }
}

/// Builds a chat request: the model (the requested one, else the
/// configured default), each message with its role's wire name, its content
/// and its tool calls (arguments parsed), the tools when there are any, and
/// the most tokens to predict as the settings give it.
pub fn build_request(
    messages: &Vec<Message>,
    tools: &Vec<ToolDefinition>,
    model: &str,
    settings: RequestSettings,
    config: &OllamaConfig,
    stream: bool,
) -> (r: OllamaRequest)
    ensures
        r.model@ == request_model(model@, config.default_model@),
        r.stream == stream,
        r.options.num_predict == settings.max_tokens,
        r.messages@.len() == messages@.len(),
        forall|i: int| 0 <= i < messages@.len() ==> request_message_of(#[trigger] r.messages@[i], messages@[i]),
        (r.tools is None) == (tools@.len() == 0),
        r.tools matches Some(t) ==> (t@.len() == tools@.len() && forall|i: int| 0 <= i < t@.len() ==> {
            &&& (#[trigger] t@[i]).name == tools@[i].name
            &&& t@[i].description == tools@[i].description
            &&& t@[i].parameters == tools@[i].parameters
        }),
{
    let model = if model.is_empty() { config.default_model.clone() } else { owned(model) };
    let mut out: Vec<OllamaMessage> = Vec::new();
    let mut i: usize = 0;
    while i < messages.len()
        invariant
            i <= messages@.len(),
            out@.len() == i,
            forall|k: int| 0 <= k < i ==> request_message_of(#[trigger] out@[k], messages@[k]),
        decreases messages@.len() - i,
    {
        out.push(request_message(&messages[i]));
        i = i + 1;
    }
    let tool_list = if tools.len() == 0 {
        None
    } else {
        let mut ts: Vec<OllamaTool> = Vec::new();
        let mut j: usize = 0;
        while j < tools.len()
            invariant
                j <= tools@.len(),
                ts@.len() == j,
                forall|k: int| 0 <= k < j ==> {
                    &&& (#[trigger] ts@[k]).name == tools@[k].name
                    &&& ts@[k].description == tools@[k].description
                    &&& ts@[k].parameters == tools@[k].parameters
                },
            decreases tools@.len() - j,
        {
            ts.push(OllamaTool {
                name: tools[j].name.clone(),
                description: tools[j].description.clone(),
                parameters: crate::json::clone_json(&tools[j].parameters),
            });
            j = j + 1;
        }
        Some(ts)
    };
    OllamaRequest { model, messages: out, tools: tool_list, stream, options: OllamaOptions { num_predict: settings.max_tokens } }
}

/// One reply object of the chat API, as the library reads it; each tool
/// call is its function's name and its arguments as JSON text.
#[derive(Debug)]
pub struct OllamaChunk {
    pub role: String,
    pub content: String,
    pub tool_calls: Vec<(String, String)>,
    pub done: bool,
    pub prompt_eval_count: Option<u32>,
    pub eval_count: Option<u32>,
}

/// The id given to the `i`th tool call of a reply.
pub open spec fn call_id(i: nat) -> Seq<char> {
    "ollama_tc_"@ + decimal(i)
}

/// The token counts of a reply, when it gives both.
pub open spec fn usage_of(prompt: Option<u32>, eval: Option<u32>) -> Option<Usage> {
    match (prompt, eval) {
        (Some(p), Some(c)) => Some(Usage { prompt_tokens: p, completion_tokens: c, total_tokens: (p + c) as u32 }),
        _ => None,
    }
}

/// The counts fit in a `u32` when added.
pub open spec fn counts_fit(chunk: OllamaChunk) -> bool {
    match (chunk.prompt_eval_count, chunk.eval_count) {
        (Some(p), Some(c)) => p + c <= u32::MAX,
        _ => true,
    }
}

fn usage(prompt: Option<u32>, eval: Option<u32>) -> (r: Option<Usage>)
    requires
        match (prompt, eval) {
            (Some(p), Some(c)) => p + c <= u32::MAX,
            _ => true,
        },
    ensures
        r == usage_of(prompt, eval),
{
    match (prompt, eval) {
        (Some(p), Some(c)) => Some(Usage { prompt_tokens: p, completion_tokens: c, total_tokens: p + c }),
        _ => None,
    }
}

/// The tool calls of a reply, numbered from 0.
pub fn reply_tool_calls(calls: &Vec<(String, String)>) -> (r: Vec<ToolCall>)
    ensures
        r@.len() == calls@.len(),
        forall|i: int| 0 <= i < r@.len() ==> {
            &&& (#[trigger] r@[i]).id@ == call_id(i as nat)
            &&& r@[i].call_type@ == "function"@
            &&& r@[i].function.name == calls@[i].0
            &&& r@[i].function.arguments == calls@[i].1
        },
{
    let mut out: Vec<ToolCall> = Vec::new();
    let mut i: usize = 0;
    while i < calls.len()
        invariant
            i <= calls@.len(),
            out@.len() == i,
            forall|k: int| 0 <= k < i ==> {
                &&& (#[trigger] out@[k]).id@ == call_id(k as nat)
                &&& out@[k].call_type@ == "function"@
                &&& out@[k].function.name == calls@[k].0
                &&& out@[k].function.arguments == calls@[k].1
            },
        decreases calls@.len() - i,
    {
        let mut id = owned("ollama_tc_");
        push_decimal(&mut id, i as u64);
        out.push(ToolCall {
            id,
            call_type: owned("function"),
            function: ToolCallFunction { name: calls[i].0.clone(), arguments: calls[i].1.clone() },
        });
        i = i + 1;
    }
    out
}

/// A whole (not streamed) reply.
#[derive(Debug)]
pub struct OllamaReply {
    pub message: Message,
    pub tool_calls: Vec<ToolCall>,
    pub usage: Option<Usage>,
}

/// Reads a whole reply: the message with its role by name, the numbered
/// tool calls, and the token counts when both are given.
pub fn read_reply(chunk: OllamaChunk) -> (r: OllamaReply)
    requires
        counts_fit(chunk),
    ensures
        r.message.role == role_of_name(chunk.role@),
        r.message.content == chunk.content,
        r.message.tool_calls is None,
        r.message.tool_call_id is None,
        r.message.name is None,
        r.tool_calls@.len() == chunk.tool_calls@.len(),
        forall|i: int| 0 <= i < r.tool_calls@.len() ==> {
            &&& (#[trigger] r.tool_calls@[i]).id@ == call_id(i as nat)
            &&& r.tool_calls@[i].call_type@ == "function"@
            &&& r.tool_calls@[i].function.name == chunk.tool_calls@[i].0
            &&& r.tool_calls@[i].function.arguments == chunk.tool_calls@[i].1
        },
        r.usage == usage_of(chunk.prompt_eval_count, chunk.eval_count),
{
    let calls = reply_tool_calls(&chunk.tool_calls);
    let u = usage(chunk.prompt_eval_count, chunk.eval_count);
    let role = Role::from_name(chunk.role.as_str());
    OllamaReply { message: Message::text(role, chunk.content), tool_calls: calls, usage: u }
}

/// The streamed-reply decoder's state: the token counts of the final
/// object, once it came.
pub struct OllamaStream {
    final_usage: Option<Usage>,
}

impl OllamaStream {
    pub closed spec fn usage_seen(self) -> Option<Usage> {
        self.final_usage
    }

    /// Nothing seen yet.
    pub fn new() -> (r: OllamaStream)
        ensures
            r.usage_seen() is None,
    {
        OllamaStream { final_usage: None }
    }

    /// Handles one reply object: its text (when not empty) becomes a
    /// chunk; the final object's tool calls become tool-call events and its
    /// token counts are kept. Returns the events and whether it was final.
    pub fn on_chunk(&mut self, chunk: OllamaChunk) -> (r: (Vec<StreamEvent>, bool))
        requires
            counts_fit(chunk),
        ensures
            r.1 == chunk.done,
            chunk.done ==> final(self).usage_seen() == usage_of(chunk.prompt_eval_count, chunk.eval_count),
            !chunk.done ==> final(self).usage_seen() == old(self).usage_seen(),
            ({
                let text_events: int = if chunk.content@.len() > 0 { 1 } else { 0 };
                let call_events: int = if chunk.done { chunk.tool_calls@.len() as int } else { 0 };
                &&& r.0@.len() == text_events + call_events
                &&& chunk.content@.len() > 0 ==> r.0@[0] == StreamEvent::Chunk(chunk.content)
                &&& forall|i: int| 0 <= i < call_events ==> ((#[trigger] r.0@[text_events + i]) matches StreamEvent::ToolCall(c)
                    && c.id@ == call_id(i as nat) && c.function.name == chunk.tool_calls@[i].0
                    && c.function.arguments == chunk.tool_calls@[i].1)
            }),
    {
        let mut out: Vec<StreamEvent> = Vec::new();
        let has_text = !chunk.content.as_str().is_empty();
        let done = chunk.done;
        let u = usage(chunk.prompt_eval_count, chunk.eval_count);
        let OllamaChunk { content, tool_calls, .. } = chunk;
        if has_text {
            out.push(StreamEvent::Chunk(content));
        }
        if done {
            let calls = reply_tool_calls(&tool_calls);
            let base = out.len();
            let mut calls = calls;
            let ghost all = calls@;
            let n = calls.len();
            let mut i: usize = 0;
            while calls.len() > 0
                invariant
                    n == all.len(),
                    i + calls@.len() == all.len(),
                    calls@ == all.subrange(i as int, all.len() as int),
                    out@.len() == base + i,
                    base == (if has_text { 1int } else { 0int }),
                    has_text ==> out@[0] == StreamEvent::Chunk(content),
                    forall|k: int| 0 <= k < i ==> (#[trigger] out@[base + k]) == StreamEvent::ToolCall(all[k]),
                decreases calls@.len(),
            {
                let c = calls.remove(0);
                out.push(StreamEvent::ToolCall(c));
                i = i + 1;
                assert(calls@ =~= all.subrange(i as int, all.len() as int));
            }
            self.final_usage = u;
        }
        (out, done)
    }

    /// The stream ended: the closing event, with the final object's token
    /// counts (all zero when none came).
    pub fn finish(&self) -> (r: StreamEvent)
        ensures
            r == StreamEvent::Done(match self.usage_seen() {
                Some(u) => u,
                None => Usage { prompt_tokens: 0, completion_tokens: 0, total_tokens: 0 },
            }),
    {
        match self.final_usage {
            Some(u) => StreamEvent::Done(u),
            None => StreamEvent::Done(Usage { prompt_tokens: 0, completion_tokens: 0, total_tokens: 0 }),
        }
    }
}

/// The whole lines of a text, in order, each trimmed of white space: the
/// text up to each newline.
pub open spec fn whole_lines(s: Seq<char>) -> Seq<Seq<char>>
    decreases s.len(),
{
    if exists|i: int| crate::text::is_first_of(s, '\n', i) {
        let i = choose|i: int| crate::text::is_first_of(s, '\n', i);
        seq![trimmed(s.subrange(0, i))] + whole_lines(s.subrange(i + 1, s.len() as int))
    } else {
        Seq::empty()
    }
}

/// What is left of a text after its whole lines: the text after its last
/// newline.
pub open spec fn leftover(s: Seq<char>) -> Seq<char>
    decreases s.len(),
{
    if exists|i: int| crate::text::is_first_of(s, '\n', i) {
        let i = choose|i: int| crate::text::is_first_of(s, '\n', i);
        leftover(s.subrange(i + 1, s.len() as int))
    } else {
        s
    }
}

/// The lines that arrive, in order, when the pieces of a text are added
/// one after the other to a buffer holding `pending`, and the buffer is
/// emptied of whole lines after each piece.
pub open spec fn drained(pending: Seq<char>, pieces: Seq<Seq<char>>) -> Seq<Seq<char>>
    decreases pieces.len(),
{
    if pieces.len() == 0 {
        Seq::empty()
    } else {
        whole_lines(pending + pieces[0]) + drained(leftover(pending + pieces[0]), pieces.drop_first())
    }
}

/// Whole lines of a text followed by more text: the lines of the first
/// part, then those of what it left over followed by the rest.
pub proof fn lemma_whole_lines_concat(a: Seq<char>, b: Seq<char>)
    ensures
        whole_lines(a + b) == whole_lines(a) + whole_lines(leftover(a) + b),
    decreases a.len(),
{
    if exists|i: int| crate::text::is_first_of(a, '\n', i) {
        let i = choose|i: int| crate::text::is_first_of(a, '\n', i);
        let ab = a + b;
        assert(crate::text::is_first_of(ab, '\n', i));
        let k = choose|k: int| crate::text::is_first_of(ab, '\n', k);
        crate::text::lemma_first_unique(ab, '\n', i, k);
        let rest = a.subrange(i + 1, a.len() as int);
        assert(ab.subrange(0, i) =~= a.subrange(0, i));
        assert(ab.subrange(i + 1, ab.len() as int) =~= rest + b);
        lemma_whole_lines_concat(rest, b);
        assert(whole_lines(ab) =~= whole_lines(a) + whole_lines(leftover(a) + b));
    } else {
        assert(whole_lines(a) == Seq::<Seq<char>>::empty());
        assert(leftover(a) == a);
        assert(whole_lines(a) + whole_lines(leftover(a) + b) =~= whole_lines(a + b));
    }
}

/// What a text leaves over holds no newline.
pub proof fn lemma_leftover_has_no_newline(s: Seq<char>)
    ensures
        !leftover(s).contains('\n'),
    decreases s.len(),
{
    if exists|i: int| crate::text::is_first_of(s, '\n', i) {
        let i = choose|i: int| crate::text::is_first_of(s, '\n', i);
        lemma_leftover_has_no_newline(s.subrange(i + 1, s.len() as int));
    } else {
        if s.contains('\n') {
            let j = choose|j: int| 0 <= j < s.len() && s[j] == '\n';
            lemma_first_exists(s, j);
        }
    }
}

/// A text with a newline has a first one.
proof fn lemma_first_exists(s: Seq<char>, j: int)
    requires
        0 <= j < s.len(),
        s[j] == '\n',
    ensures
        exists|i: int| crate::text::is_first_of(s, '\n', i),
    decreases j,
{
    if forall|k: int| 0 <= k < j ==> s[k] != '\n' {
        assert(crate::text::is_first_of(s, '\n', j));
    } else {
        let k = choose|k: int| 0 <= k < j && s[k] == '\n';
        lemma_first_exists(s, k);
    }
}

/// However a reply's body is cut into pieces, the same lines come out of
/// it: starting from a buffer with no whole line, emptying it of whole lines
/// after each piece gives the whole lines of all the text, in order.
pub proof fn law_lines_whatever_the_cuts(pending: Seq<char>, pieces: Seq<Seq<char>>)
    requires
        !pending.contains('\n'),
    ensures
        drained(pending, pieces) == whole_lines(pending + pieces.flatten()),
    decreases pieces.len(),
{
    if pieces.len() == 0 {
        assert(pending + pieces.flatten() =~= pending);
        assert(!exists|i: int| crate::text::is_first_of(pending, '\n', i)) by {
            if exists|i: int| crate::text::is_first_of(pending, '\n', i) {
                let i = choose|i: int| crate::text::is_first_of(pending, '\n', i);
                assert(pending.contains(pending[i]));
            }
        }
    } else {
        let p = pending + pieces[0];
        lemma_leftover_has_no_newline(p);
        law_lines_whatever_the_cuts(leftover(p), pieces.drop_first());
        lemma_whole_lines_concat(p, pieces.drop_first().flatten());
        assert(pending + pieces.flatten() =~= p + pieces.drop_first().flatten());
    }
}

/// Text received and not yet cut into lines.
pub struct LineBuffer {
    buf: Vec<char>,
}

impl LineBuffer {
    /// The pending text.
    pub closed spec fn pending(self) -> Seq<char> {
        self.buf@
    }

    /// Nothing pending.
    pub fn new() -> (r: LineBuffer)
        ensures
            r.pending() == Seq::<char>::empty(),
    {
        LineBuffer { buf: Vec::new() }
    }

    /// Adds received text.
    pub fn push(&mut self, text: &str)
        ensures
            final(self).pending() == old(self).pending() + text@,
    {
        let cs = chars_of(text);
        let mut i: usize = 0;
        let ghost start = self.buf@;
        while i < cs.len()
            invariant
                i <= cs@.len(),
                cs@ == text@,
                self.buf@ == start + cs@.subrange(0, i as int),
            decreases cs@.len() - i,
        {
            self.buf.push(cs[i]);
            i = i + 1;
            assert(self.buf@ =~= start + cs@.subrange(0, i as int));
        }
        assert(cs@.subrange(0, cs@.len() as int) =~= cs@);
    }

    /// Takes the text up to the first newline, trimmed of white space;
    /// `None` when no whole line is pending. Taking lines until `None` takes
    /// the pending text's whole lines and leaves what they leave over.
    pub fn pop_line(&mut self) -> (r: Option<String>)
        ensures
            match split_first(old(self).pending(), '\n') {
                Some((line, rest)) => r matches Some(l) && l@ == trimmed(line) && final(self).pending() == rest,
                None => r is None && final(self).pending() == old(self).pending(),
            },
            r matches Some(l) ==> whole_lines(old(self).pending()) == seq![l@] + whole_lines(final(self).pending())
                && leftover(old(self).pending()) == leftover(final(self).pending()),
            r is None ==> whole_lines(old(self).pending()) == Seq::<Seq<char>>::empty()
                && leftover(old(self).pending()) == old(self).pending() && !old(self).pending().contains('\n'),
    {
        let ghost b = self.buf@;
        match find_char(self.buf.as_slice(), '\n') {
            Some(i) => {
                let n = self.buf.len();
                assert(i < n);
                let line = trim_chars(crate::text::slice_to(self.buf.as_slice(), i).as_slice());
                let rest = crate::text::slice_from(self.buf.as_slice(), i + 1);
                self.buf = rest;
                proof {
                    let k = choose|k: int| crate::text::is_first_of(b, '\n', k);
                    crate::text::lemma_first_unique(b, '\n', i as int, k);
                }
                Some(crate::text::string_from_chars(line.as_slice()))
            },
            None => {
                assert(!exists|k: int| crate::text::is_first_of(b, '\n', k));
                proof {
                    if b.contains('\n') {
                        let j = choose|j: int| 0 <= j < b.len() && b[j] == '\n';
                        lemma_first_exists(b, j);
                    }
                }
                None
            },
        }
    }
}

} // verus!
