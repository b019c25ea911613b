use aabot::agui_run::{AguiRun, RoundStart, RunPhase};
use aabot::cli::{
    ProviderChoice, choose_provider, event_output, ready_banner, system_message, tool_list_line, tool_listing_line,
    ui_event, user_message,
};
use aabot::config::ResolvedConfig;
use aabot::llm::{Message, OpenAiConfig, RequestSettings, Role, StreamEvent, ToolCall, ToolCallFunction, Usage, chat_request_settings};
use aabot::markdown::{Color, MdCodeBlockKind, MdEvent, MdTag, MdTagEnd, SpanStyle, render, render_events};
use aabot::ollama::{LineBuffer, OllamaChunk, OllamaConfig, OllamaStream, build_request, read_reply};
use aabot::session::{SessionEvent, ToolOutcome, Turn, TurnPhase, call_arguments};
use aabot::sse::{
    ChatContent, ChatMsg, SseEvent, SseTranslator, chat_msg_to_message, extract_text, missing_api_key, resumes_session,
    sse_frame,
};
use aabot::tool::{ExecutionMode, ToolDefinition, ToolError, ToolOrigin, ToolResult};
use aabot::tui::UiEvent;

fn call(id: &str, name: &str, args: &str) -> ToolCall {
    ToolCall {
        id: id.to_string(),
        call_type: "function".to_string(),
        function: ToolCallFunction { name: name.to_string(), arguments: args.to_string() },
    }
}

fn resolved(provider: &str) -> ResolvedConfig {
    ResolvedConfig {
        provider: provider.to_string(),
        model: "m".to_string(),
        api_key: String::new(),
        base_url: "http://b".to_string(),
    }
}

#[test]
fn a_turn_without_tools_answers_once() {
    let mut turn = Turn::new(vec![Message::text(Role::User, "hi".to_string())], vec!["fs_read".to_string()]);
    assert_eq!(turn.phase(), TurnPhase::NeedsRequest);
    let sent = turn.start_request();
    assert_eq!(sent.len(), 1);
    assert_eq!(turn.phase(), TurnPhase::Streaming);
    match turn.on_stream_event(StreamEvent::Chunk("Hel".to_string())) {
        Some(SessionEvent::Token(t)) => assert_eq!(t, "Hel"),
        other => panic!("unexpected {other:?}"),
    }
    turn.on_stream_event(StreamEvent::Chunk("lo".to_string()));
    let usage = Usage { prompt_tokens: 1, completion_tokens: 2, total_tokens: 3 };
    match turn.on_stream_event(StreamEvent::Done(usage)) {
        Some(SessionEvent::Done { usage: Some(u) }) => assert_eq!(u.total_tokens, 3),
        other => panic!("unexpected {other:?}"),
    }
    assert_eq!(turn.phase(), TurnPhase::Finished);
    let msgs = turn.into_messages();
    assert_eq!(msgs.len(), 2);
    assert_eq!(msgs[1].role, Role::Assistant);
    assert_eq!(msgs[1].content, "Hello");
}

#[test]
fn a_turn_runs_tool_calls_in_order_and_asks_again() {
    let mut turn = Turn::new(vec![Message::text(Role::User, "read".to_string())], vec!["fs_read".to_string()]);
    turn.start_request();
    turn.on_stream_event(StreamEvent::ToolCall(call("c1", "fs_read", "{}")));
    turn.on_stream_event(StreamEvent::ToolCall(call("c2", "nope", "{}")));
    assert!(turn.on_stream_event(StreamEvent::Done(Usage { prompt_tokens: 0, completion_tokens: 0, total_tokens: 0 })).is_none());
    assert_eq!(turn.phase(), TurnPhase::RunningTools);
    assert_eq!(turn.next_call().id, "c1");
    assert_eq!(turn.tool_index("fs_read"), Some(0));
    match turn.record_outcome(ToolOutcome::Ran(ToolResult::text("data".to_string()))) {
        SessionEvent::ToolResult { name, content, is_error } => {
            assert_eq!(name, "fs_read");
            assert_eq!(content, "data");
            assert!(!is_error);
        }
        other => panic!("unexpected {other:?}"),
    }
    assert_eq!(turn.next_call().id, "c2");
    assert_eq!(turn.tool_index("nope"), None);
    match turn.record_outcome(ToolOutcome::Missing) {
        SessionEvent::ToolResult { content, is_error, .. } => {
            assert_eq!(content, "Tool 'nope' not found");
            assert!(is_error);
        }
        other => panic!("unexpected {other:?}"),
    }
    assert_eq!(turn.phase(), TurnPhase::Streaming);
    turn.stream_closed();
    assert_eq!(turn.phase(), TurnPhase::NeedsRequest);
    let msgs = turn.messages();
    assert_eq!(msgs.len(), 4);
    assert_eq!(msgs[2].role, Role::Tool);
    assert_eq!(msgs[2].tool_call_id, Some("c1".to_string()));
    assert_eq!(msgs[3].name, Some("nope".to_string()));
}

#[test]
fn a_failed_tool_is_reported_as_an_error() {
    let mut turn = Turn::new(vec![], vec![]);
    turn.start_request();
    turn.on_stream_event(StreamEvent::ToolCall(call("c1", "t", "{}")));
    turn.on_stream_event(StreamEvent::Done(Usage { prompt_tokens: 0, completion_tokens: 0, total_tokens: 0 }));
    match turn.record_outcome(ToolOutcome::Failed(ToolError::Timeout(5))) {
        SessionEvent::ToolResult { content, is_error, .. } => {
            assert_eq!(content, "Error: Tool timed out after 5ms");
            assert!(is_error);
        }
        other => panic!("unexpected {other:?}"),
    }
}

#[test]
fn provider_errors_end_the_turn() {
    let mut turn = Turn::new(vec![], vec![]);
    match turn.request_failed("offline".to_string()) {
        SessionEvent::Error(m) => assert_eq!(m, "offline"),
        other => panic!("unexpected {other:?}"),
    }
    assert_eq!(turn.phase(), TurnPhase::Finished);
    let mut turn = Turn::new(vec![], vec![]);
    turn.start_request();
    assert!(matches!(turn.on_stream_event(StreamEvent::Error("x".to_string())), Some(SessionEvent::Error(_))));
    assert_eq!(turn.phase(), TurnPhase::Finished);
}

#[test]
fn run_events_bracket_text_and_tools() {
    let mut tr = SseTranslator::new("t1".to_string(), "r1".to_string());
    match tr.run_started() {
        SseEvent::RunStarted { thread_id, run_id } => {
            assert_eq!(thread_id, "t1");
            assert_eq!(run_id, "r1");
        }
        other => panic!("unexpected {other:?}"),
    }
    let a = tr.on_event(SessionEvent::Token("Hi".to_string()));
    assert_eq!(a.len(), 2);
    assert!(matches!(&a[0], SseEvent::TextMessageStart { message_id } if message_id == "msg_1"));
    assert!(matches!(&a[1], SseEvent::TextMessageContent { message_id, delta } if message_id == "msg_1" && delta == "Hi"));
    let b = tr.on_event(SessionEvent::ToolCall(call("c1", "fs_read", "{\"path\":\"x\"}")));
    assert_eq!(b.len(), 3);
    assert!(matches!(&b[0], SseEvent::TextMessageEnd { message_id } if message_id == "msg_1"));
    assert!(matches!(&b[1], SseEvent::ToolCallStart { tool_call_id, tool_call_name } if tool_call_id == "c1" && tool_call_name == "fs_read"));
    let c = tr.on_event(SessionEvent::ToolResult { name: "fs_read".to_string(), content: "data".to_string(), is_error: false });
    assert_eq!(c.len(), 1);
    assert!(matches!(&c[0], SseEvent::ToolCallEnd { tool_call_id, input, result } if tool_call_id == "c1" && input == "{\"path\":\"x\"}" && result == "data"));
    let d = tr.on_event(SessionEvent::Token("ok".to_string()));
    assert!(matches!(&d[0], SseEvent::TextMessageStart { message_id } if message_id == "msg_2"));
    assert_eq!(tr.message_count(), 2);
    let e = tr.on_event(SessionEvent::Done { usage: None });
    assert_eq!(e.len(), 2);
    assert!(matches!(&e[0], SseEvent::TextMessageEnd { .. }));
    assert!(matches!(&e[1], SseEvent::RunFinished { finish_reason, .. } if finish_reason == "stop"));
    assert!(tr.is_done());
}

#[test]
fn run_errors_close_the_run() {
    let mut tr = SseTranslator::new("t".to_string(), "r".to_string());
    let e = tr.on_event(SessionEvent::Error("boom".to_string()));
    assert_eq!(e.len(), 1);
    assert!(matches!(&e[0], SseEvent::RunError { message, .. } if message == "boom"));
    let mut tr = SseTranslator::new("t".to_string(), "r".to_string());
    match tr.missing_key_error() {
        SseEvent::RunError { message, .. } => assert_eq!(message, "AA_LLM_API_KEY not set"),
        other => panic!("unexpected {other:?}"),
    }
    assert!(missing_api_key(&resolved("openai")));
    assert!(!missing_api_key(&resolved("ollama")));
}

#[test]
fn client_messages_become_chat_messages() {
    let parts = ChatContent::Parts(vec![Some("a".to_string()), None, Some("b".to_string())]);
    assert_eq!(extract_text(&parts), "ab");
    let msg = ChatMsg {
        role: "assistant".to_string(),
        content: ChatContent::Text("hello".to_string()),
        tool_calls: None,
        tool_call_id: None,
        name: None,
        id: None,
    };
    let m = chat_msg_to_message(&msg);
    assert_eq!(m.role, Role::Assistant);
    assert_eq!(m.content, "hello");
    let odd = ChatMsg {
        role: "wizard".to_string(),
        content: ChatContent::Other,
        tool_calls: None,
        tool_call_id: None,
        name: None,
        id: None,
    };
    assert_eq!(chat_msg_to_message(&odd).role, Role::User);
    assert_eq!(chat_msg_to_message(&odd).content, "");
}

#[test]
fn ollama_requests_use_wire_roles() {
    let msgs = vec![
        Message::text(Role::System, "sys".to_string()),
        Message {
            role: Role::Assistant,
            content: String::new(),
            tool_calls: Some(vec![call("c", "fs_read", "{\"path\":\"a\"}"), call("d", "fs_ls", "not json")]),
            tool_call_id: None,
            name: None,
        },
    ];
    let tools = vec![ToolDefinition {
        name: "fs_read".to_string(),
        description: "Read".to_string(),
        parameters: serde_json::Value::Null,
        origin: ToolOrigin::BuiltIn,
        execution_mode: ExecutionMode::Sequential,
    }];
    let cfg = OllamaConfig::default_config();
    assert_eq!(cfg.chat_url(), "http://localhost:11434/api/chat");
    let req = build_request(&msgs, &tools, "", chat_request_settings(), &cfg, true);
    assert_eq!(req.model, "llama3.2");
    assert_eq!(req.options.num_predict, Some(4096));
    assert_eq!(req.messages[0].role, "system");
    assert_eq!(req.messages[0].content, Some("sys".to_string()));
    assert_eq!(req.messages[1].content, None);
    let calls = req.messages[1].tool_calls.as_ref().unwrap();
    assert_eq!(calls.len(), 2);
    assert_eq!(calls[0].name, "fs_read");
    assert_eq!(calls[0].arguments["path"], "a");
    assert_eq!(calls[1].name, "fs_ls");
    assert!(calls[1].arguments.is_null());
    assert!(req.messages[0].tool_calls.is_none());
    assert_eq!(req.tools.as_ref().unwrap().len(), 1);
    let req = build_request(&msgs, &vec![], "qwen", RequestSettings { max_tokens: None }, &cfg, false);
    assert_eq!(req.model, "qwen");
    assert_eq!(req.options.num_predict, None);
    assert!(req.tools.is_none());
}

#[test]
fn ollama_streams_and_replies() {
    let mut s = OllamaStream::new();
    let (evs, done) = s.on_chunk(OllamaChunk {
        role: "assistant".to_string(),
        content: "Hi".to_string(),
        tool_calls: vec![],
        done: false,
        prompt_eval_count: None,
        eval_count: None,
    });
    assert!(!done);
    assert!(matches!(&evs[0], StreamEvent::Chunk(t) if t == "Hi"));
    let (evs, done) = s.on_chunk(OllamaChunk {
        role: "assistant".to_string(),
        content: String::new(),
        tool_calls: vec![("fs_ls".to_string(), "{}".to_string())],
        done: true,
        prompt_eval_count: Some(10),
        eval_count: Some(5),
    });
    assert!(done);
    assert!(matches!(&evs[0], StreamEvent::ToolCall(c) if c.id == "ollama_tc_0" && c.function.name == "fs_ls"));
    match s.finish() {
        StreamEvent::Done(u) => assert_eq!((u.prompt_tokens, u.completion_tokens, u.total_tokens), (10, 5, 15)),
        other => panic!("unexpected {other:?}"),
    }
    let r = read_reply(OllamaChunk {
        role: "assistant".to_string(),
        content: "whole".to_string(),
        tool_calls: vec![],
        done: true,
        prompt_eval_count: Some(1),
        eval_count: None,
    });
    assert_eq!(r.message.content, "whole");
    assert!(r.usage.is_none());
}

#[test]
fn line_buffer_cuts_lines() {
    let mut b = LineBuffer::new();
    b.push("{\"a\":1}\n{\"b\"");
    assert_eq!(b.pop_line(), Some("{\"a\":1}".to_string()));
    assert_eq!(b.pop_line(), None);
    b.push(":2}  \r\n");
    assert_eq!(b.pop_line(), Some("{\"b\":2}".to_string()));
    assert_eq!(b.pop_line(), None);
}

#[test]
fn markdown_headings_paragraphs_and_code() {
    let lines = render("# Title\n\nHello *world*");
    let text: Vec<Vec<String>> = lines.iter().map(|l| l.spans.iter().map(|s| s.text.clone()).collect()).collect();
    assert_eq!(text[0], vec!["# ".to_string(), "Title".to_string()]);
    assert_eq!(lines[0].spans[0].style, SpanStyle { fg: Some(Color::Cyan), bg: None, bold: true, dim: false });
    assert_eq!(text[1], vec![String::new()]);
    assert_eq!(text[2], vec!["Hello ".to_string(), "world".to_string()]);
    assert_eq!(text[3], vec![String::new()]);
    let code = render("```rust\nfn x() {}\n```");
    let t: Vec<String> = code.iter().map(|l| l.spans.iter().map(|s| s.text.clone()).collect::<String>()).collect();
    assert_eq!(t, vec!["    ┌─ rust".to_string(), "    │ fn x() {}\n".to_string(), "    └─".to_string()]);
}

fn texts(lines: &[aabot::markdown::StyledLine]) -> Vec<String> {
    lines.iter().map(|l| l.spans.iter().map(|s| s.text.clone()).collect::<String>()).collect()
}

#[test]
fn markdown_lists_quotes_breaks_and_rules() {
    assert_eq!(texts(&render("    indented\n")), vec!["    │ indented\n".to_string(), "    └─".to_string()]);
    assert_eq!(texts(&render("- a\n- b\n")), vec!["    • a".to_string(), "    • b".to_string()]);
    assert_eq!(texts(&render("- a\n  - b\n")), vec!["    • a".to_string(), "        • b".to_string()]);
    assert_eq!(texts(&render("one\ntwo")), vec!["one".to_string(), "two".to_string(), String::new()]);
    assert_eq!(texts(&render("one  \ntwo")), vec!["one".to_string(), "two".to_string(), String::new()]);
    assert_eq!(texts(&render("> quoted")), vec!["│ quoted".to_string(), String::new()]);
    assert_eq!(texts(&render("---")), vec!["─".repeat(40)]);
    assert_eq!(texts(&render("a `b` c")), vec!["a b c".to_string(), String::new()]);
}

#[test]
fn markdown_events_render_one_by_one() {
    let evs = vec![
        MdEvent::Start(MdTag::Heading(2)),
        MdEvent::Text("T".to_string()),
        MdEvent::End(MdTagEnd::Heading(2)),
        MdEvent::Start(MdTag::CodeBlock(MdCodeBlockKind::Indented)),
        MdEvent::Text("x".to_string()),
        MdEvent::End(MdTagEnd::CodeBlock),
        MdEvent::Start(MdTag::Emphasis),
        MdEvent::InlineHtml("<b>".to_string()),
        MdEvent::TaskListMarker(true),
        MdEvent::Text("y".to_string()),
        MdEvent::HardBreak,
        MdEvent::Text("z".to_string()),
    ];
    let lines = render_events(evs);
    assert_eq!(texts(&lines), vec!["## T", "", "    │ x", "    └─", "y", "z"]);
    assert_eq!(lines[0].spans[0].style, SpanStyle { fg: Some(Color::Green), bg: None, bold: true, dim: false });
}

#[test]
fn line_mode_helpers() {
    match choose_provider(resolved("ollama")) {
        ProviderChoice::Ollama(c) => {
            assert_eq!(c.base_url, "http://b");
            assert_eq!(c.default_model, "m");
        }
        other => panic!("unexpected {other:?}"),
    }
    assert!(matches!(choose_provider(resolved("deepseek")), ProviderChoice::OpenAi(_)));
    let sys = system_message();
    assert_eq!(sys.role, Role::System);
    assert_eq!(
        sys.content,
        "You are aaBot, an AI assistant. You have access to filesystem tools. Help the user with their tasks."
    );
    assert!(user_message("   \n").is_none());
    assert_eq!(user_message("  hello \n").unwrap().content, "hello");
    assert_eq!(ready_banner(10), "aaBot ready | tools: 10");
    let d = ToolDefinition {
        name: "fs_read".to_string(),
        description: "Read file content".to_string(),
        parameters: serde_json::Value::Null,
        origin: ToolOrigin::BuiltIn,
        execution_mode: ExecutionMode::Sequential,
    };
    assert_eq!(tool_listing_line(&d), "  fs_read - Read file content");
    assert_eq!(tool_list_line(&d), "fs_read: Read file content");
    let cfg = OpenAiConfig::with_api_key("k".to_string());
    assert_eq!(cfg.base_url, "https://api.deepseek.com");
    assert_eq!(cfg.default_model, "deepseek-chat");
}

#[test]
fn line_mode_prints_events() {
    assert_eq!(event_output(&SessionEvent::Token("x".to_string())), ("x".to_string(), String::new()));
    assert_eq!(
        event_output(&SessionEvent::ToolCall(call("c9", "fs_ls", "{}"))),
        ("\n  tool: fs_ls (c9) ...\n".to_string(), String::new())
    );
    assert_eq!(
        event_output(&SessionEvent::ToolResult { name: "a".into(), content: "b".into(), is_error: true }),
        ("  → error\n".to_string(), String::new())
    );
    assert_eq!(
        event_output(&SessionEvent::Done { usage: Some(Usage { prompt_tokens: 1, completion_tokens: 2, total_tokens: 3 }) }),
        ("\n".to_string(), "  tokens: 1 prompt + 2 completion = 3 total\n".to_string())
    );
    assert_eq!(event_output(&SessionEvent::Error("bad".into())), (String::new(), "\nError: bad\n".to_string()));
    assert!(matches!(ui_event(SessionEvent::Token("t".into())), UiEvent::Token(t) if t == "t"));
}

fn zero_usage() -> Usage {
    Usage { prompt_tokens: 0, completion_tokens: 0, total_tokens: 0 }
}

fn ask(run: &mut AguiRun) -> Vec<Message> {
    match run.start_round() {
        RoundStart::Ask { messages, event } => {
            let n = run_round_count(&event);
            assert!(n.starts_with("msg_"));
            messages
        }
        RoundStart::Finish(e) => panic!("unexpected finish {e:?}"),
    }
}

fn run_round_count(e: &SseEvent) -> String {
    match e {
        SseEvent::TextMessageStart { message_id } => message_id.clone(),
        other => panic!("unexpected {other:?}"),
    }
}

#[test]
fn a_standalone_run_streams_runs_tools_and_asks_again() {
    let mut run = AguiRun::new("t".to_string(), "r".to_string(), vec![Message::text(Role::User, "hi".to_string())]);
    assert!(matches!(run.run_started(), SseEvent::RunStarted { thread_id, run_id } if thread_id == "t" && run_id == "r"));
    match run.start_round() {
        RoundStart::Ask { messages, event } => {
            assert_eq!(messages.len(), 1);
            assert!(matches!(event, SseEvent::TextMessageStart { message_id } if message_id == "msg_1"));
        }
        other => panic!("unexpected {other:?}"),
    }
    let evs = run.on_stream_event(StreamEvent::Chunk("Let me look".to_string()));
    assert!(matches!(&evs[..], [SseEvent::TextMessageContent { message_id, delta }] if message_id == "msg_1" && delta == "Let me look"));
    assert!(run.on_stream_event(StreamEvent::ToolCall(call("c1", "fs_ls", "{\"path\":\".\"}"))).is_empty());
    assert!(run.on_stream_event(StreamEvent::ToolCall(call("c2", "nope", "{}"))).is_empty());
    assert!(run.on_stream_event(StreamEvent::Done(zero_usage())).is_empty());
    assert_eq!(run.phase(), RunPhase::RunningTools);
    let (c, announced) = run.next_call();
    assert_eq!(c.id, "c1");
    assert!(matches!(&announced[0], SseEvent::ToolCallStart { tool_call_id, tool_call_name } if tool_call_id == "c1" && tool_call_name == "fs_ls"));
    assert!(matches!(&announced[1], SseEvent::ToolCallArgs { tool_call_id, delta } if tool_call_id == "c1" && delta == "{\"path\":\".\"}"));
    let evs = run.record_outcome(ToolOutcome::Ran(ToolResult { content: "a.txt".to_string(), is_error: false, metadata: None }));
    assert!(matches!(&evs[..], [SseEvent::ToolCallEnd { tool_call_id, input, result }] if tool_call_id == "c1" && input == "{\"path\":\".\"}" && result == "a.txt"));
    let (c, _) = run.next_call();
    assert_eq!(c.function.name, "nope");
    let evs = run.record_outcome(ToolOutcome::Missing);
    assert_eq!(evs.len(), 2);
    assert!(matches!(&evs[0], SseEvent::ToolCallEnd { result, .. } if result == "Error: tool 'nope' not found"));
    assert!(matches!(&evs[1], SseEvent::TextMessageEnd { message_id } if message_id == "msg_1"));
    assert_eq!(run.phase(), RunPhase::Ready);
    let history = ask(&mut run);
    assert_eq!(history.len(), 4);
    assert_eq!(history[1].role, Role::Assistant);
    assert_eq!(history[1].content, "Let me look");
    assert_eq!(history[1].tool_calls.as_ref().map(|v| v.len()), Some(2));
    assert_eq!(history[2].role, Role::Tool);
    assert_eq!(history[2].tool_call_id.as_deref(), Some("c1"));
    assert_eq!(history[3].content, "Error: tool 'nope' not found");
    assert_eq!(history[3].name.as_deref(), Some("nope"));
    let evs = run.on_stream_event(StreamEvent::Done(zero_usage()));
    assert!(matches!(&evs[0], SseEvent::TextMessageEnd { message_id } if message_id == "msg_2"));
    assert!(matches!(&evs[1], SseEvent::RunFinished { finish_reason, .. } if finish_reason == "stop"));
    assert_eq!(run.phase(), RunPhase::Finished);
}

#[test]
fn a_standalone_run_stops_after_ten_rounds() {
    let mut run = AguiRun::new("t".to_string(), "r".to_string(), vec![]);
    for round in 1..=10 {
        match run.start_round() {
            RoundStart::Ask { event: SseEvent::TextMessageStart { message_id }, .. } => assert_eq!(message_id, format!("msg_{round}")),
            other => panic!("unexpected {other:?}"),
        }
        run.on_stream_event(StreamEvent::ToolCall(call("c", "fs_ls", "{}")));
        run.on_stream_event(StreamEvent::Done(zero_usage()));
        let _ = run.next_call();
        let evs = run.record_outcome(ToolOutcome::Failed(ToolError::Timeout(5)));
        assert!(matches!(&evs[0], SseEvent::ToolCallEnd { result, .. } if result == "Error: Tool timed out after 5ms"));
    }
    match run.start_round() {
        RoundStart::Finish(SseEvent::RunFinished { thread_id, run_id, finish_reason }) => {
            assert_eq!((thread_id.as_str(), run_id.as_str(), finish_reason.as_str()), ("t", "r", "stop"))
        }
        other => panic!("unexpected {other:?}"),
    }
    assert_eq!(run.phase(), RunPhase::Finished);
}

#[test]
fn a_standalone_run_fails_on_errors_and_cut_streams() {
    let mut run = AguiRun::new("t".to_string(), "r".to_string(), vec![]);
    assert!(matches!(run.key_missing(), SseEvent::RunError { message, .. } if message == "AA_LLM_API_KEY not set"));
    let mut run = AguiRun::new("t".to_string(), "r".to_string(), vec![]);
    let _ = ask(&mut run);
    assert!(matches!(run.stream_ended(), SseEvent::RunError { message, .. } if message == "LLM stream ended unexpectedly"));
    let mut run = AguiRun::new("t".to_string(), "r".to_string(), vec![]);
    let _ = ask(&mut run);
    let evs = run.on_stream_event(StreamEvent::Error("boom".to_string()));
    assert!(matches!(&evs[..], [SseEvent::RunError { message, .. }] if message == "boom"));
    assert_eq!(run.phase(), RunPhase::Finished);
    let mut run = AguiRun::new("t".to_string(), "r".to_string(), vec![]);
    let _ = ask(&mut run);
    assert!(matches!(run.request_failed("down".to_string()), SseEvent::RunError { message, .. } if message == "down"));
}

fn drain(pieces: &[&str]) -> Vec<String> {
    let mut b = LineBuffer::new();
    let mut lines = Vec::new();
    for p in pieces {
        b.push(p);
        while let Some(l) = b.pop_line() {
            lines.push(l);
        }
    }
    lines
}

#[test]
fn line_buffer_gives_the_same_lines_however_cut() {
    let body = "{\"a\":1}\n  {\"b\":2} \n\n{\"c\":3}\ntail";
    let whole = drain(&[body]);
    assert_eq!(whole, vec!["{\"a\":1}", "{\"b\":2}", "", "{\"c\":3}"]);
    assert_eq!(drain(&["{\"a\"", ":1}\n  {\"b", "\":2} \n", "\n{\"c\":3}\nta", "il"]), whole);
    let chars: Vec<String> = body.chars().map(|c| c.to_string()).collect();
    let pieces: Vec<&str> = chars.iter().map(|s| s.as_str()).collect();
    assert_eq!(drain(&pieces), whole);
}

#[test]
fn requests_take_the_chat_settings_and_parsed_arguments() {
    let turn = Turn::new(vec![], vec![]);
    assert_eq!(turn.request_settings(), RequestSettings { max_tokens: Some(4096) });
    let run = AguiRun::new("t".to_string(), "r".to_string(), vec![]);
    assert_eq!(run.request_settings().max_tokens, Some(4096));
    assert_eq!(call_arguments(&call("c", "fs_read", "{\"path\":\"a\"}"))["path"], "a");
    assert!(call_arguments(&call("c", "fs_read", "{oops")).is_null());
}

#[test]
fn stream_frames_and_thread_ids() {
    assert_eq!(sse_frame("{\"type\":\"RUN_STARTED\"}"), "data: {\"type\":\"RUN_STARTED\"}\n\n");
    assert!(resumes_session("67E55044-10B1-426F-9247-BB680E5FE0C8"));
    assert!(resumes_session("67e5504410b1426f9247bb680e5fe0c8"));
    assert!(resumes_session("{67e55044-10b1-426f-9247-bb680e5fe0c8}"));
    assert!(resumes_session("URN:uuid:67e55044-10b1-426f-9247-bb680e5fe0c8"));
    assert!(!resumes_session("67e55044-10b1-426f-9247-bb680e5fe0cg"));
    assert!(!resumes_session("67e55044_10b1-426f-9247-bb680e5fe0c8"));
    assert!(!resumes_session("urn:uuid:67e5504410b1426f9247bb680e5fe0c8"));
    assert!(!resumes_session("67e55044-10b1-426f-9247-bb680e5fe0c"));
}
