//! The command line: its arguments, the provider a resolved configuration
//! picks, the conversation's first message, and how a turn's events are
//! printed.
use vstd::prelude::*;
use crate::config::ResolvedConfig;
use crate::llm::{Message, OpenAiConfig, Role, Usage};
use crate::ollama::OllamaConfig;
use crate::session::SessionEvent;
use crate::text::{decimal, owned, push_decimal, push_str, same_text, trim_chars, trimmed, string_from_chars};
use crate::tool::ToolDefinition;
use crate::tui::UiEvent;

verus! {

/// The arguments of the line-mode chat.
#[derive(Debug, Clone)]
pub struct RunArgs {
    pub working_dir: String,
    pub no_llm: bool,
    pub model: Option<String>,
    pub base_url: Option<String>,
    pub provider: Option<String>,
}

/// The model provider to talk to.
#[derive(Debug)]
pub enum ProviderChoice {
    Ollama(OllamaConfig),
    OpenAi(OpenAiConfig),
}

/// The provider a resolved configuration names: Ollama for `ollama`, an
/// OpenAI-compatible API for anything else.
pub fn choose_provider(cfg: ResolvedConfig) -> (r: ProviderChoice)
    ensures
        if cfg.provider@ == "ollama"@ {
            r matches ProviderChoice::Ollama(o) && o.base_url == cfg.base_url && o.default_model == cfg.model
        } else {
            r matches ProviderChoice::OpenAi(o) && o.base_url == cfg.base_url && o.api_key == cfg.api_key
                && o.default_model == cfg.model
        },
{
    if same_text(cfg.provider.as_str(), "ollama") {
        ProviderChoice::Ollama(OllamaConfig { base_url: cfg.base_url, default_model: cfg.model })
    } else {
        ProviderChoice::OpenAi(OpenAiConfig { base_url: cfg.base_url, api_key: cfg.api_key, default_model: cfg.model })
    }
}

/// What the assistant is told first.
pub open spec fn system_prompt() -> Seq<char> {
    "You are aaBot, an AI assistant. You have access to filesystem tools. Help the user with their tasks."@
}

/// The system message that opens a conversation.
pub fn system_message() -> (r: Message)
    ensures
        r.role == Role::System,
        r.content@ == system_prompt(),
        r.tool_calls is None,
        r.tool_call_id is None,
        r.name is None,
{
    Message::text(
        Role::System,
        owned("You are aaBot, an AI assistant. You have access to filesystem tools. Help the user with their tasks."),
    )
}

/// The user's message for a line of input, trimmed; none when the line is
/// blank, which ends the chat.
pub fn user_message(line: &str) -> (r: Option<Message>)
    ensures
        match r {
            Some(m) => trimmed(line@).len() > 0 && m.role == Role::User && m.content@ == trimmed(line@)
                && m.tool_calls is None && m.tool_call_id is None && m.name is None,
            None => trimmed(line@).len() == 0,
        },
{
    let cs = crate::text::chars_of(line);
    let t = trim_chars(cs.as_slice());
    if t.len() == 0 {
        None
    } else {
        Some(Message::text(Role::User, string_from_chars(t.as_slice())))
    }
}

/// The greeting of the line-mode chat.
pub fn ready_banner(tool_count: usize) -> (r: String)
    ensures
        r@ == "aaBot ready | tools: "@ + decimal(tool_count as nat),
{
    let mut s = owned("aaBot ready | tools: ");
    push_decimal(&mut s, tool_count as u64);
    s
}

/// A tool's line in the listing of the line-mode chat.
pub fn tool_listing_line(def: &ToolDefinition) -> (r: String)
    ensures
        r@ == "  "@ + def.name@ + " - "@ + def.description@,
{
    let mut s = owned("  ");
    push_str(&mut s, def.name.as_str());
    push_str(&mut s, " - ");
    push_str(&mut s, def.description.as_str());
    s
}

/// A tool's line in `aa tool list`.
pub fn tool_list_line(def: &ToolDefinition) -> (r: String)
    ensures
        r@ == def.name@ + ": "@ + def.description@,
{
    let mut s = owned(def.name.as_str());
    push_str(&mut s, ": ");
    push_str(&mut s, def.description.as_str());
    s
}

/// The token summary of a finished turn.
pub open spec fn usage_text(u: Usage) -> Seq<char> {
    "  tokens: "@ + decimal(u.prompt_tokens as nat) + " prompt + "@ + decimal(u.completion_tokens as nat)
        + " completion = "@ + decimal(u.total_tokens as nat) + " total\n"@
}

/// What the line-mode chat prints for an event: (to standard output, to
/// standard error).
pub open spec fn event_text(ev: SessionEvent) -> (Seq<char>, Seq<char>) {
    match ev {
        SessionEvent::Token(t) => (t@, Seq::empty()),
        SessionEvent::ToolCall(tc) => ("\n  tool: "@ + tc.function.name@ + " ("@ + tc.id@ + ") ...\n"@, Seq::empty()),
        SessionEvent::ToolResult { is_error, .. } => (
            "  → "@ + (if is_error { "error"@ } else { "ok"@ }) + "\n"@,
            Seq::empty(),
        ),
        SessionEvent::Done { usage } => (
            "\n"@,
            match usage {
                Some(u) => usage_text(u),
                None => Seq::empty(),
            },
        ),
        SessionEvent::Error(m) => (Seq::empty(), "\nError: "@ + m@ + "\n"@),
    }
}

/// What the line-mode chat prints for an event: (to standard output, to
/// standard error).
pub fn event_output(ev: &SessionEvent) -> (r: (String, String))
    ensures
        (r.0@, r.1@) == event_text(*ev),
{
    match ev {
        SessionEvent::Token(t) => (t.clone(), String::new()),
        SessionEvent::ToolCall(tc) => {
            let mut s = owned("\n  tool: ");
            push_str(&mut s, tc.function.name.as_str());
            push_str(&mut s, " (");
            push_str(&mut s, tc.id.as_str());
            push_str(&mut s, ") ...\n");
            (s, String::new())
        },
        SessionEvent::ToolResult { is_error, .. } => {
            let mut s = owned("  → ");
            push_str(&mut s, if *is_error { "error" } else { "ok" });
            push_str(&mut s, "\n");
            (s, String::new())
        },
        SessionEvent::Done { usage } => {
            let e = match usage {
                Some(u) => {
                    let mut e = owned("  tokens: ");
                    push_decimal(&mut e, u.prompt_tokens as u64);
                    push_str(&mut e, " prompt + ");
                    push_decimal(&mut e, u.completion_tokens as u64);
                    push_str(&mut e, " completion = ");
                    push_decimal(&mut e, u.total_tokens as u64);
                    push_str(&mut e, " total\n");
                    e
                },
                None => String::new(),
            };
            (owned("\n"), e)
        },
        SessionEvent::Error(m) => {
            let mut e = owned("\nError: ");
            push_str(&mut e, m.as_str());
            push_str(&mut e, "\n");
            (String::new(), e)
        },
    }
}

/// The screen's event for a turn event: the same event, passed on.
pub fn ui_event(ev: SessionEvent) -> (r: UiEvent)
    ensures
        match ev {
            SessionEvent::Token(t) => r == UiEvent::Token(t),
            SessionEvent::ToolCall(tc) => r == UiEvent::ToolCall(tc),
            SessionEvent::ToolResult { name, content, is_error } => r == (UiEvent::ToolResult { name, content, is_error }),
            SessionEvent::Done { usage } => r == (UiEvent::Done { usage }),
            SessionEvent::Error(m) => r == UiEvent::Error(m),
        },
{
    match ev {
        SessionEvent::Token(t) => UiEvent::Token(t),
        SessionEvent::ToolCall(tc) => UiEvent::ToolCall(tc),
        SessionEvent::ToolResult { name, content, is_error } => UiEvent::ToolResult { name, content, is_error },
        SessionEvent::Done { usage } => UiEvent::Done { usage },
        SessionEvent::Error(m) => UiEvent::Error(m),
    }
}

} // verus!
