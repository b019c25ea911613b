use aabot::clipboard::{Platform, read, read_attempt_counts, read_commands, write_commands};
use aabot::config::{Config, EnvServers, McpConfig, McpServerDef, config_paths};
use aabot::extension::{ExtensionError, ExtensionEvent, HookMode, HookResult, LifecycleContext};
use aabot::extensions::{Extension, ExtensionRegistry, Registrar};
use aabot::llm::{Message, Role};
use aabot::mcp::{McpServerConfig, McpToolDef, McpToolPack, ServersJson, ReplyStep, reply_step, server_config, servers_from_fields, servers_from_json, tool_def, tool_result};
use aabot::registry::ToolProvider;
use aabot::server::{health, session_not_found, session_summary, tool_failed, tool_not_found};
use aabot::sort::{stable_sort_by_key, text_le};
use aabot::storage::{SessionFile, data_dir, is_session_file, join, saved_file, session_list_line, session_path, sort_sessions};
use aabot::table::StringMap;
use aabot::terminal::{BridgeAction, PtyBridge, TerminalControl, TerminalTable, WsInput};
use aabot::tool::{ExecutionMode, ToolDefinition, ToolError, ToolOrigin, ToolProviderScope};

fn session(id: &str, updated: &str) -> SessionFile {
    SessionFile {
        session_id: id.to_string(),
        model: "m".to_string(),
        provider: "p".to_string(),
        created_at: "c".to_string(),
        updated_at: updated.to_string(),
        messages: vec![Message::text(Role::User, "x".to_string())],
    }
}

#[test]
fn session_files_live_in_the_data_dir() {
    assert_eq!(data_dir(Some("/xdg"), Some("/home/u")), "/xdg/aa/sessions");
    assert_eq!(data_dir(None, Some("/home/u")), "/home/u/.local/share/aa/sessions");
    assert_eq!(data_dir(None, Some("/home/u/")), "/home/u/.local/share/aa/sessions");
    assert_eq!(data_dir(None, None), ".aa/sessions");
    assert_eq!(data_dir(Some(""), None), "aa/sessions");
    assert_eq!(session_path("/xdg/aa/sessions", "abc"), "/xdg/aa/sessions/abc.json");
    assert_eq!(join("a", "/abs"), "/abs");
    assert_eq!(config_paths(Some("/home/u")), vec!["aa.json".to_string(), "/home/u/.config/aa/aa.json".to_string()]);
    assert_eq!(config_paths(None), vec!["aa.json".to_string()]);
}

#[test]
fn only_json_files_are_listed() {
    assert!(is_session_file("abc.json"));
    assert!(!is_session_file(".json"));
    assert!(!is_session_file("abc.jsonl"));
    assert!(!is_session_file("notes.txt"));
    assert!(is_session_file("..json"));
}

#[test]
fn saving_keeps_the_creation_time() {
    let msgs = vec![Message::text(Role::User, "hi".to_string())];
    let fresh = saved_file(None, "s1", &msgs, "m1", "p1", "T1");
    assert_eq!(fresh.session_id, "s1");
    assert_eq!(fresh.created_at, "T1");
    assert_eq!(fresh.updated_at, "T1");
    let again = saved_file(Some(fresh), "ignored", &msgs, "m2", "p2", "T2");
    assert_eq!(again.session_id, "s1");
    assert_eq!(again.created_at, "T1");
    assert_eq!(again.updated_at, "T2");
    assert_eq!(again.model, "m2");
    assert_eq!(again.provider, "p2");
    assert_eq!(again.messages.len(), 1);
}

#[test]
fn sessions_are_listed_most_recent_first() {
    let sorted = sort_sessions(vec![
        session("a", "2024-01-01"),
        session("b", "2024-03-01"),
        session("c", "2024-02-01"),
        session("d", "2024-03-01"),
    ]);
    let ids: Vec<&str> = sorted.iter().map(|s| s.session_id.as_str()).collect();
    assert_eq!(ids, vec!["b", "d", "c", "a"]);
    let line = session_list_line(&session("0123456789abcdef", "t"));
    assert_eq!(line, "  01234567  (model: m, 1 msgs)");
    // Eight bytes, not eight characters.
    let line = session_list_line(&session("ééééé", "t"));
    assert_eq!(line, "  éééé  (model: m, 1 msgs)");
}

#[test]
fn stable_sort_orders_by_key() {
    let v = vec![("b".to_string(), 1), ("a".to_string(), 2), ("b".to_string(), 3), ("a".to_string(), 4)];
    let up: Vec<i32> = stable_sort_by_key(v.clone(), false).into_iter().map(|x| x.1).collect();
    assert_eq!(up, vec![2, 4, 1, 3]);
    let down: Vec<i32> = stable_sort_by_key(v, true).into_iter().map(|x| x.1).collect();
    assert_eq!(down, vec![1, 3, 2, 4]);
    assert!(text_le("abc", "abd"));
    assert!(text_le("ab", "abc"));
    assert!(!text_le("b", "a"));
    assert!(text_le("", ""));
    assert!(text_le("Z", "a"));
}

#[test]
fn clipboard_commands_per_platform() {
    let mac = write_commands(Platform::MacOs, "say \"hi\"");
    assert_eq!(mac.len(), 1);
    assert_eq!(mac[0].program, "osascript");
    assert_eq!(mac[0].args, vec!["-e".to_string(), "set the clipboard to \"say \\\"hi\\\"\"".to_string()]);
    let linux = write_commands(Platform::Linux, "x");
    assert_eq!(linux.iter().map(|c| c.program.as_str()).collect::<Vec<_>>(), vec!["wl-copy", "xclip"]);
    assert_eq!(linux[0].stdin, Some("x".to_string()));
    let win = write_commands(Platform::Windows, "it's");
    assert_eq!(win[0].args[2], "[System.Windows.Forms.Clipboard]::SetText('it''s')");
    assert!(write_commands(Platform::Other, "x").is_empty());
    let reads = read_commands(Platform::Linux);
    assert_eq!(reads[1].args, vec!["-selection".to_string(), "clipboard".to_string(), "-o".to_string()]);
    assert!(reads[0].args.is_empty());
}

#[test]
fn clipboard_read_takes_the_first_attempt_that_counts() {
    let attempts = vec![Some((false, "stale".to_string())), Some((true, "  pasted \n".to_string()))];
    assert_eq!(read(Platform::Linux, &attempts), Some("pasted".to_string()));
    assert_eq!(read(Platform::MacOs, &attempts), Some("stale".to_string()));
    assert_eq!(read(Platform::Windows, &vec![None, Some((true, "late".to_string()))]), None);
    assert_eq!(read(Platform::Other, &vec![Some((true, "x".to_string()))]), None);
    assert_eq!(read(Platform::Linux, &vec![None, None, Some((true, "third".to_string()))]), None);
    assert_eq!(read(Platform::Linux, &vec![None, Some((false, "x".to_string()))]), None);
    assert!(!read_attempt_counts(Platform::Linux, &Some((false, String::new()))));
    assert!(read_attempt_counts(Platform::Windows, &Some((false, String::new()))));
}

#[test]
fn terminal_sessions_and_bridge() {
    let mut t: TerminalTable<&str> = TerminalTable::new();
    t.insert(7, "a");
    t.insert(9, "b");
    assert!(t.contains(7));
    assert_eq!(t.get(9), Some(&"b"));
    t.insert(7, "c");
    assert_eq!(t.get(7), Some(&"c"));
    assert_eq!(t.len(), 2);
    assert_eq!(t.remove(7), Some("c"));
    assert!(!t.contains(7));
    assert!(matches!(PtyBridge::on_socket(WsInput::Binary(vec![1, 2]), true), BridgeAction::WriteBytes(b) if b == vec![1, 2]));
    let resize = WsInput::Text { text: "{}".to_string(), control: Some(TerminalControl::Resize { cols: 80, rows: 24 }) };
    assert!(matches!(PtyBridge::on_socket(resize, true), BridgeAction::Resize { cols: 80, rows: 24 }));
    let typed = WsInput::Text { text: "ls\n".to_string(), control: None };
    assert!(matches!(PtyBridge::on_socket(typed, true), BridgeAction::WriteText(t) if t == "ls\n"));
    assert!(matches!(PtyBridge::on_socket(WsInput::Ping(vec![9]), true), BridgeAction::SendPong(p) if p == vec![9]));
    assert!(matches!(PtyBridge::on_socket(WsInput::Closed, false), BridgeAction::Stop { remove_session: false }));
    assert!(matches!(PtyBridge::on_terminal_output(vec![3]), BridgeAction::SendBinary(d) if d == vec![3]));
}

fn servers_object(text: &str) -> ServersJson {
    let v: serde_json::Value = serde_json::from_str(text).unwrap();
    let text_of = |x: Option<&serde_json::Value>| x.and_then(|c| c.as_str()).map(str::to_owned);
    ServersJson {
        entries: v.as_object().map(|o| {
            o.iter()
                .map(|(name, val)| {
                    let args = val.get("args").and_then(|a| a.as_array()).map(|a| a.iter().map(|i| text_of(Some(i))).collect());
                    (name.clone(), text_of(val.get("command")), args)
                })
                .collect()
        }),
    }
}

/// The catalog of servers none of which could be started.
fn unstarted(servers: Vec<McpServerConfig>) -> McpToolPack {
    McpToolPack::new(servers.into_iter().map(|c| (c, None)).collect())
}

#[test]
fn test_from_json_empty() {
    let servers = servers_from_json(servers_object("{}"));
    assert!(servers.is_empty());
    let tools = unstarted(servers).tools(&ToolProviderScope::new("."));
    assert!(tools.is_empty(), "no servers should mean no tools");
}

#[test]
fn test_from_json_parsing() {
    let json = servers_object(
        r#"{
        "weather": {
            "command": "python3",
            "args": ["-m", "mcp_weather_server"]
        }
    }"#,
    );
    let servers = servers_from_json(json);
    assert_eq!(servers.len(), 1);
    assert_eq!(servers[0].name, "weather");
    assert_eq!(servers[0].command, "python3");
    assert_eq!(servers[0].args, vec!["-m".to_string(), "mcp_weather_server".to_string()]);
    // The server cannot be started here, so it offers no tools.
    let tools = unstarted(servers).tools(&ToolProviderScope::new("."));
    assert!(tools.is_empty());
}

#[test]
fn servers_object_that_is_not_an_object_has_no_servers() {
    assert!(servers_from_json(servers_object("[1, 2]")).is_empty());
    assert!(servers_from_json(ServersJson { entries: None }).is_empty());
    let odd = servers_from_json(servers_object(r#"{"a": {"command": 3, "args": ["x", 4, "y"]}, "b": 7}"#));
    assert_eq!(odd.len(), 2);
    assert_eq!(odd[0].command, "");
    assert_eq!(odd[0].args, vec!["x".to_string(), "y".to_string()]);
    assert_eq!(odd[1].name, "b");
    assert!(odd[1].args.is_empty());
}

#[test]
fn the_catalog_keeps_the_servers_that_listed_tools() {
    let c = |n: &str| server_config(n.to_string(), Some("cmd".to_string()), None);
    let d = tool_def(Some("t".to_string()), None, None);
    let pack = McpToolPack::new(vec![(c("down"), None), (c("up"), Some(vec![d])), (c("empty"), Some(vec![]))]);
    assert_eq!(pack.servers.len(), 2);
    assert_eq!(pack.servers[0].0.name, "up");
    assert_eq!(pack.servers[1].0.name, "empty");
    let tools = pack.tools(&ToolProviderScope::new("."));
    assert_eq!(tools.len(), 1);
    assert_eq!(tools[0].0.name, "up__t");
    assert_eq!(tools[0].1.server, 0);
}

#[test]
fn mcp_servers_tools_and_replies() {
    let c = server_config("s".to_string(), None, Some(vec![Some("a".to_string()), None, Some("b".to_string())]));
    assert_eq!(c.command, "");
    assert_eq!(c.args, vec!["a".to_string(), "b".to_string()]);
    let d = tool_def(Some("now".to_string()), None, None);
    assert_eq!(d.name, "now");
    assert_eq!(d.description, "");
    assert!(d.input_schema.is_null());
    let pack = McpToolPack {
        servers: vec![(
            c,
            vec![d, McpToolDef { name: "week".into(), description: "w".into(), input_schema: serde_json::from_str("{}").unwrap() }],
        )],
    };
    let tools = pack.tools(&ToolProviderScope::new("."));
    assert_eq!(tools.len(), 2);
    assert_eq!(tools[0].0.name, "s__now");
    assert_eq!(tools[1].0.name, "s__week");
    assert_eq!(tools[1].0.origin, ToolOrigin::Subprocess);
    assert_eq!(tools[1].1.tool_name, "week");
    let r = tool_result(vec![Some("a".into()), None, Some("b".into())], None);
    assert_eq!(r.content, "a\nb");
    assert!(!r.is_error);
    assert!(tool_result(vec![], Some(true)).is_error);
    assert!(matches!(reply_step(3, Some(2), None), ReplyStep::Continue));
    assert!(matches!(reply_step(3, None, None), ReplyStep::Continue));
    assert!(matches!(reply_step(3, Some(3), None), ReplyStep::Answer));
    assert!(matches!(reply_step(3, Some(3), Some(Some("bad".into()))), ReplyStep::Failed(m) if m == "MCP error (id=3): bad"));
    assert!(matches!(reply_step(3, Some(3), Some(None)), ReplyStep::Failed(m) if m == "MCP error (id=3): unknown"));
}

#[test]
fn mcp_servers_come_from_the_config_by_name() {
    let mut servers = StringMap::new();
    servers.insert("zeta".to_string(), McpServerDef { command: "z".to_string(), args: vec![] });
    servers.insert("alpha".to_string(), McpServerDef { command: "a".to_string(), args: vec!["-x".to_string()] });
    let cfg = Config { model: None, provider: StringMap::new(), mcp: Some(McpConfig { servers }) };
    let v = cfg.mcp_servers(env("{\"ignored\":{}}")).unwrap();
    assert_eq!(v.iter().map(|s| s.name.as_str()).collect::<Vec<_>>(), vec!["alpha", "zeta"]);
    assert_eq!(v[0].args, vec!["-x".to_string()]);
    let empty = Config::empty();
    assert!(empty.mcp_servers(None).is_none());
    assert!(empty.mcp_servers(Some(EnvServers { text: String::new(), parsed: None })).is_none());
    assert!(empty.mcp_servers(Some(EnvServers { text: "not json".to_string(), parsed: None })).is_none());
    let from_env = empty.mcp_servers(env("{\"w\":{\"command\":\"c\"}}")).unwrap();
    assert_eq!(from_env[0].name, "w");
    assert_eq!(from_env[0].command, "c");
    assert!(empty.mcp_servers(env("42")).unwrap().is_empty());
}

fn env(text: &str) -> Option<EnvServers> {
    Some(EnvServers { text: text.to_string(), parsed: Some(servers_object(text)) })
}

struct Demo;

impl Extension<u8, u8> for Demo {
    fn id(&self) -> &str {
        "demo"
    }

    fn register(&self, reg: &mut Registrar<u8, u8>) {
        reg.tool(
            ToolDefinition {
                name: "ping".to_string(),
                description: "p".to_string(),
                parameters: serde_json::Value::Null,
                origin: ToolOrigin::Extension,
                execution_mode: ExecutionMode::Concurrent,
            },
            1,
        );
        reg.on_event(ExtensionEvent::HostReady, HookMode::Advisory, 5, 2);
    }
}

#[test]
fn extension_registry_prefixes_tool_names() {
    let mut reg: ExtensionRegistry<Demo, u8, u8> = ExtensionRegistry::new();
    reg.register(Demo);
    assert_eq!(reg.ids(), vec!["demo"]);
    assert!(Demo.capabilities().is_empty());
    assert!(reg.get_by_id("demo").is_some());
    assert!(reg.get_by_id("other").is_none());
    let tools = reg.all_tool_handlers();
    assert_eq!(tools.len(), 1);
    assert_eq!(tools[0].0.name, "demo__ping");
    assert_eq!(tools[0].0.description, "p");
    assert_eq!(tools[0].0.execution_mode, ExecutionMode::Concurrent);
    assert_eq!(*tools[0].1, 1);
    let hooks = reg.all_hooks();
    assert_eq!(hooks.len(), 1);
    assert_eq!(hooks[0].0, ExtensionEvent::HostReady);
    assert_eq!(hooks[0].2, 5);
    let empty: Registrar<u8, u8> = Registrar::new();
    assert!(empty.is_empty());
}

#[test]
fn extension_and_server_errors_read_well() {
    assert_eq!(ExtensionError::Timeout(250).message(), "Hook timed out after 250ms");
    assert_eq!(ExtensionError::Blocked { reason: "no".into() }.message(), "Blocked by hook: no");
    assert_eq!(ExtensionError::NotFound("x".into()).message(), "Extension not found: x");
    assert_eq!(ExtensionError::Internal("y".into()).message(), "Extension error: y");
    let _ctx = LifecycleContext { session_id: "s".into(), working_dir: ".".into() };
    assert!(matches!(HookResult::Block { reason: "r".into() }, HookResult::Block { .. }));
    let resolved = aabot::config::ResolvedConfig {
        provider: "ollama".to_string(),
        model: "llama3.2".to_string(),
        api_key: String::new(),
        base_url: "http://localhost:11434".to_string(),
    };
    let h = health(10, &resolved, 2);
    assert_eq!((h.status.as_str(), h.tool_count, h.provider.as_str(), h.model.as_str(), h.mcp), ("ok", 10, "ollama", "llama3.2", 2));
    let e = tool_not_found("zap");
    assert_eq!((e.status, e.body.as_str()), (404, "Tool 'zap' not found"));
    let e = tool_failed(&ToolError::NotFound("x".into()));
    assert_eq!((e.status, e.body.as_str()), (500, "Tool execution failed: Tool not found: x"));
    let e = session_not_found("abc", "missing");
    assert_eq!(e.body, "Session 'abc' not found: missing");
    let s = session_summary(session("id", "u"));
    assert_eq!(s.message_count, 1);
    assert_eq!(s.updated_at, "u");
}

#[test]
fn mdns_announces_lan_addresses() {
    let v = aabot::server::mdns_addresses(&vec![(192, 168, 1, 20), (127, 0, 0, 1), (169, 254, 3, 4), (10, 0, 0, 7)]);
    assert_eq!(v, vec!["127.0.0.1", "192.168.1.20", "10.0.0.7"]);
}

#[test]
fn tool_paths_and_extension_results() {
    assert_eq!(aabot::tool_run::resolve_path("a.txt", "/work"), "/work/a.txt");
    assert_eq!(aabot::tool_run::resolve_path("/etc/x", "/work"), "/etc/x");
    assert_eq!(aabot::tool_run::resolve_path("a.txt", "/work/"), "/work/a.txt");
    match aabot::mcp::call_error("closed") {
        ToolError::Execution(m) => assert_eq!(m, "MCP call: closed"),
        other => panic!("unexpected {other:?}"),
    }
    let d = aabot::extensions::wasm_tool_definition(None, None, serde_json::Value::Null);
    assert_eq!(d.name, "unknown");
    assert_eq!(d.origin, ToolOrigin::Wasm);
    assert_eq!(d.execution_mode, ExecutionMode::Concurrent);
    let r = aabot::extensions::wasm_tool_result(None, Some(true), None);
    assert_eq!(r.content, "");
    assert!(r.is_error);
    assert!(matches!(aabot::extensions::wasm_parse_error("eof"), ExtensionError::Internal(m) if m == "WASM parse: eof"));
}

#[test]
fn chats_resume_sessions_with_uuid_threads() {
    assert!(aabot::sse::resumes_session("67e55044-10b1-426f-9247-bb680e5fe0c8"));
    assert!(!aabot::sse::resumes_session("thread-1"));
    let prev = vec![Message::text(Role::User, "old".to_string())];
    let sent = vec![Message::text(Role::User, "new".to_string())];
    let all = aabot::sse::resumed_conversation(Some(prev), sent);
    assert_eq!(all.iter().map(|m| m.content.as_str()).collect::<Vec<_>>(), vec!["old", "new"]);
    let only = aabot::sse::resumed_conversation(None, vec![Message::text(Role::User, "x".to_string())]);
    assert_eq!(only.len(), 1);
}

#[test]
fn servers_from_entry_fields() {
    let v = servers_from_fields(vec![
        ("fs".to_string(), Some("npx".to_string()), Some(vec![Some("-y".to_string()), None, Some("srv".to_string())])),
        ("bare".to_string(), None, None),
    ]);
    assert_eq!(v.len(), 2);
    assert_eq!(v[0].name, "fs");
    assert_eq!(v[0].command, "npx");
    assert_eq!(v[0].args, vec!["-y".to_string(), "srv".to_string()]);
    assert_eq!(v[1].name, "bare");
    assert_eq!(v[1].command, "");
    assert!(v[1].args.is_empty());
}
