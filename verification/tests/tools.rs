use aabot::builtin::{BuiltinTool, FsToolProvider};
use aabot::extension::{ExtensionCapability, ExtensionError};
use aabot::extensions::{HostRouter, prefixed_name};
use aabot::fs_tools::{EditOutcome, edit_is_defined, plan_edit, read_range};
use aabot::matcher::{TextGlob, TextRegex};
use aabot::registry::{Kernel, ToolProvider, ToolRegistry};
use aabot::tool::{ExecutionMode, ToolDefinition, ToolError, ToolOrigin, ToolProviderScope};
use aabot::tool_run::{
    ArgFields, FetchFailure, ToolRequest, dir_entry, entry_kind, fetch_error, fetch_result, file_filter,
    file_filter_allows, find_keeps, grep_content, path_error, request_from_fields, shell_result, shell_timeout,
    sort_entries, sort_paths, step_error, within_depth, write_report, compile_find, compile_search,
};

fn no_fields() -> ArgFields {
    ArgFields {
        path: None,
        content: None,
        append: None,
        recursive: None,
        pattern: None,
        file_glob: None,
        max_depth: None,
        command: None,
        timeout_secs: None,
        url: None,
        start: None,
        end: None,
        old: None,
        new: None,
    }
}

fn def(name: &str) -> ToolDefinition {
    ToolDefinition {
        name: name.to_string(),
        description: format!("{name} tool"),
        parameters: serde_json::Value::Null,
        origin: ToolOrigin::BuiltIn,
        execution_mode: ExecutionMode::Sequential,
    }
}

fn error_text(e: ToolError) -> String {
    e.message()
}

#[test]
fn test_fs_tool_provider_registration() {
    let provider = FsToolProvider;
    let scope = ToolProviderScope::new(".");
    let tools = provider.tools(&scope);
    let names: Vec<String> = tools.iter().map(|t| t.0.name.clone()).collect();
    assert_eq!(
        names,
        vec![
            "fs_read",
            "fs_write",
            "fs_ls",
            "fs_find",
            "fs_grep",
            "fs_info",
            "shell_exec",
            "web_fetch",
            "fs_read_range",
            "fs_edit"
        ]
    );
}

#[test]
fn test_web_fetch_definition() {
    let provider = FsToolProvider;
    let scope = ToolProviderScope::new(".");
    let tools = provider.tools(&scope);
    let tool = tools.iter().find(|t| t.0.name == "web_fetch").unwrap();
    let def = &tool.0;
    assert_eq!(def.name, "web_fetch");
    assert!(def.parameters["properties"]["url"].is_object());
    assert!(def.parameters["required"].as_array().unwrap().contains(&serde_json::Value::String("url".to_string())));
}

#[test]
fn builtin_schemas_parse() {
    let d = BuiltinTool::FsEdit.definition();
    assert_eq!(d.parameters["required"], serde_json::from_str::<serde_json::Value>("[\"path\", \"old\", \"new\"]").unwrap());
    assert_eq!(d.origin, ToolOrigin::BuiltIn);
    assert_eq!(d.execution_mode, ExecutionMode::Sequential);
    assert_eq!(BuiltinTool::FsGrep.definition().parameters["properties"]["pattern"]["type"], "string");
}

#[test]
fn test_fs_read_range() {
    let content = (1..=20).map(|i| format!("line {i}")).collect::<Vec<_>>().join("\n");
    let r = read_range("test.txt", &content, Some(5), Some(8));
    assert!(!r.is_error);
    assert!(r.content.contains("line 5"));
    assert!(r.content.contains("line 8"));
    assert!(r.content.contains("4/20"));
    assert_eq!(
        r.content,
        "test.txt:5-8 (4/20)\n     5  line 5\n     6  line 6\n     7  line 7\n     8  line 8\n"
    );
}

#[test]
fn read_range_errors() {
    let r = read_range("f", "a\nb\n", Some(5), None);
    assert!(r.is_error);
    assert_eq!(r.content, "start line 5 > total lines 2");
    let r = read_range("f", "a\nb\nc\n", Some(3), Some(2));
    assert!(r.is_error);
    assert_eq!(r.content, "start 3 > end 2");
    let r = read_range("f", "a\nb\n", Some(0), Some(99));
    assert_eq!(r.content, "f:1-2 (2/2)\n     1  a\n     2  b\n");
}

#[test]
fn test_fs_edit_simple() {
    match plan_edit("test.txt", "hello world\nfoo bar\n", "world", "there") {
        EditOutcome::Replaced { content, message } => {
            assert_eq!(content, "hello there\nfoo bar\n");
            assert_eq!(message, "edit test.txt at line 1: world → there");
        }
        other => panic!("expected a replacement, got {other:?}"),
    }
}

#[test]
fn test_fs_edit_not_found() {
    match plan_edit("test.txt", "hello world\n", "nope", "x") {
        EditOutcome::NotFound(m) => {
            assert!(m.contains("not found"));
            assert_eq!(m, "string not found in test.txt");
        }
        other => panic!("expected not found, got {other:?}"),
    }
}

#[test]
fn test_fs_edit_multiple_occurrences() {
    match plan_edit("test.txt", "foo\nbar\nfoo\n", "foo", "baz") {
        EditOutcome::Ambiguous(m) => {
            assert!(m.contains("2 occurrences"));
            assert_eq!(
                m,
                "found 2 occurrences in test.txt. Use a more unique string. First matches:\n...foo bar foo ...\n...foo bar foo ..."
            );
        }
        other => panic!("expected ambiguity, got {other:?}"),
    }
}

#[test]
fn requests_apply_defaults() {
    let mut f = no_fields();
    f.path = Some("a.txt".to_string());
    f.content = Some("x".to_string());
    match request_from_fields(BuiltinTool::FsWrite, f).unwrap() {
        ToolRequest::Write { path, content, append } => {
            assert_eq!(path, "a.txt");
            assert_eq!(content, "x");
            assert!(!append);
        }
        other => panic!("unexpected {other:?}"),
    }
    match request_from_fields(BuiltinTool::FsLs, no_fields()).unwrap() {
        ToolRequest::Ls { path, recursive } => {
            assert_eq!(path, ".");
            assert!(!recursive);
        }
        other => panic!("unexpected {other:?}"),
    }
    let mut f = no_fields();
    f.command = Some("ls".to_string());
    match request_from_fields(BuiltinTool::ShellExec, f).unwrap() {
        ToolRequest::Shell { command, timeout_secs } => {
            assert_eq!(command, "ls");
            assert_eq!(timeout_secs, 30);
        }
        other => panic!("unexpected {other:?}"),
    }
    let mut f = no_fields();
    f.url = Some("http://x".to_string());
    match request_from_fields(BuiltinTool::WebFetch, f).unwrap() {
        ToolRequest::Fetch { timeout_secs, .. } => assert_eq!(timeout_secs, 15),
        other => panic!("unexpected {other:?}"),
    }
}

#[test]
fn requests_name_the_first_missing_argument() {
    let mut f = no_fields();
    f.path = Some("a.txt".to_string());
    let e = request_from_fields(BuiltinTool::FsWrite, f).unwrap_err();
    assert_eq!(error_text(e), "Tool execution failed: Missing required 'content'");
    let e = request_from_fields(BuiltinTool::FsEdit, no_fields()).unwrap_err();
    match e {
        ToolError::Execution(m) => assert_eq!(m, "Missing required 'path'"),
        other => panic!("unexpected {other:?}"),
    }
}

#[test]
fn write_and_step_messages() {
    assert_eq!(write_report("log.txt", true).content, "log.txt appended");
    assert_eq!(write_report("new.txt", false).content, "new.txt written");
    match path_error("read", "nope.txt", "No such file") {
        ToolError::Execution(m) => assert_eq!(m, "read nope.txt: No such file"),
        other => panic!("unexpected {other:?}"),
    }
    match step_error("spawn", "denied") {
        ToolError::Execution(m) => assert_eq!(m, "spawn: denied"),
        other => panic!("unexpected {other:?}"),
    }
}

#[test]
fn shell_output_and_exit_codes() {
    let r = shell_result("hello world\n", "", true, Some(0));
    assert!(!r.is_error);
    assert_eq!(r.content.trim(), "hello world");
    let r = shell_result("out", "err", true, Some(0));
    assert_eq!(r.content, "out\nerr");
    let r = shell_result("", "err", true, Some(0));
    assert_eq!(r.content, "err");
    let r = shell_result("", "", false, Some(42));
    assert!(r.is_error);
    assert!(r.content.contains("exit code 42"));
    assert_eq!(r.content, "exit code 42:\n");
    let r = shell_result("x", "", false, None);
    assert_eq!(r.content, "exit code ?:\nx");
    let r = shell_result("", "", false, Some(-1));
    assert_eq!(r.content, "exit code -1:\n");
    match shell_timeout(1, "sleep 10") {
        ToolError::Execution(m) => {
            assert!(m.contains("timed out"));
            assert_eq!(m, "command timed out after 1s: sleep 10");
        }
        other => panic!("unexpected {other:?}"),
    }
}

#[test]
fn fetch_results_and_errors() {
    let r = fetch_result(true, "200 OK", "page");
    assert_eq!(r.content, "page");
    assert!(!r.is_error);
    let r = fetch_result(false, "404 Not Found", "missing");
    assert!(r.is_error);
    assert_eq!(r.content, "HTTP 404 Not Found:\nmissing");
    let big = "a".repeat(100_005);
    let r = fetch_result(true, "200 OK", &big);
    assert_eq!(r.content, format!("{}\n\n...(truncated, total 100005 chars)", "a".repeat(100_000)));
    let wide = "é".repeat(50_001);
    let r = fetch_result(true, "200 OK", &wide);
    assert_eq!(r.content, format!("{wide}\n\n...(truncated, total 100002 chars)"));
    let exact = "b".repeat(100_000);
    assert_eq!(fetch_result(true, "200 OK", &exact).content, exact);
    match fetch_error(FetchFailure::Timeout, 15, "http://x", "t") {
        ToolError::Execution(m) => assert_eq!(m, "timeout after 15s: http://x"),
        other => panic!("unexpected {other:?}"),
    }
    match fetch_error(FetchFailure::Connect, 15, "http://x", "refused") {
        ToolError::Execution(m) => assert_eq!(m, "connection failed: http://x — refused"),
        other => panic!("unexpected {other:?}"),
    }
    match fetch_error(FetchFailure::Other, 15, "http://x", "bad") {
        ToolError::Execution(m) => assert_eq!(m, "fetch http://x: bad"),
        other => panic!("unexpected {other:?}"),
    }
}

#[test]
fn entry_kinds_and_listing_order() {
    assert_eq!(entry_kind(true, true), "dir");
    assert_eq!(entry_kind(false, true), "symlink");
    assert_eq!(entry_kind(false, false), "file");
    let entries = vec![
        dir_entry("subdir".into(), "./subdir".into(), true, false, 0, Some(5)),
        dir_entry("hello.txt".into(), "./hello.txt".into(), false, false, 13, None),
        dir_entry("a.txt".into(), "./x/a.txt".into(), false, false, 1, Some(1)),
        dir_entry("a.txt".into(), "./y/a.txt".into(), false, false, 2, Some(2)),
    ];
    let sorted = sort_entries(entries);
    let names: Vec<&str> = sorted.iter().map(|e| e.name.as_str()).collect();
    assert_eq!(names, vec!["a.txt", "a.txt", "hello.txt", "subdir"]);
    assert_eq!(sorted[0].path, "./x/a.txt");
    assert_eq!(sorted[1].path, "./y/a.txt");
    assert_eq!(sorted[2].modified, "0");
    assert_eq!(sorted[3].kind, "dir");
}

#[test]
fn found_paths_are_sorted() {
    let v = sort_paths(vec!["b.txt".into(), "a/z.txt".into(), "B.txt".into(), "a.txt".into()]);
    assert_eq!(v, vec!["B.txt", "a.txt", "a/z.txt", "b.txt"]);
}

#[test]
fn grep_finds_matching_lines() {
    let re = TextRegex::new("three").unwrap();
    let m = grep_content("./numbers.txt", "one\ntwo\nthree\nfour\n", &re);
    assert_eq!(m.len(), 1);
    assert_eq!(m[0].line, 3);
    assert_eq!(m[0].content, "three");
    assert_eq!(m[0].file, "./numbers.txt");
    let re = TextRegex::new("^t").unwrap();
    let m = grep_content("f", "one\ntwo\nthree\n", &re);
    assert_eq!(m.iter().map(|x| x.line).collect::<Vec<_>>(), vec![2, 3]);
    assert!(TextRegex::new("foo(bar").is_err());
}

#[test]
fn globs_filter_found_files() {
    let g = TextGlob::new("**/*.txt").unwrap();
    assert!(find_keeps(&g, "subdir/nested.txt", "/tmp/x/subdir/nested.txt"));
    assert!(!find_keeps(&g, "subdir", "/tmp/x/subdir"));
    let only_rs = file_filter(&Some("*.rs".to_string()));
    assert!(file_filter_allows(&only_rs, "./src/lib.rs", "lib.rs"));
    assert!(!file_filter_allows(&only_rs, "./notes.txt", "notes.txt"));
    assert!(file_filter_allows(&None, "./notes.txt", "notes.txt"));
    // A filter that does not compile filters nothing.
    let broken = file_filter(&Some("[".to_string()));
    assert!(broken.is_none());
    assert!(TextGlob::new("[").is_err());
    assert!(within_depth(None, 99));
    assert!(within_depth(Some(1), 1));
    assert!(!within_depth(Some(1), 2));
}

#[test]
fn registry_finds_the_first_tool_of_a_name() {
    let mut reg: ToolRegistry<u32> = ToolRegistry::new();
    assert!(reg.is_empty());
    reg.register(def("a"), 1);
    reg.register(def("b"), 2);
    reg.register(def("a"), 3);
    assert_eq!(reg.len(), 3);
    assert_eq!(reg.find("a"), Some(&1));
    assert_eq!(reg.find("b"), Some(&2));
    assert_eq!(reg.find("c"), None);
    assert_eq!(reg.find_definition("b").unwrap().description, "b tool");
    let names: Vec<String> = reg.all_definitions().into_iter().map(|d| d.name).collect();
    assert_eq!(names, vec!["a", "b", "a"]);
    assert_eq!(reg.all_tools(), vec![&1, &2, &3]);
}

#[test]
fn kernel_registers_every_providers_tools() {
    let kernel = Kernel::builder().with_tool_provider(FsToolProvider).with_tool_provider(FsToolProvider).build();
    assert_eq!(kernel.tool_providers().len(), 2);
    let reg = kernel.build_tool_registry(&ToolProviderScope::new("."));
    assert_eq!(reg.len(), 20);
    assert_eq!(reg.find("fs_edit"), Some(&BuiltinTool::FsEdit));
    let from_lists = ToolRegistry::from_lists(vec![vec![(def("x"), 1u8)], vec![], vec![(def("y"), 2u8)]]);
    assert_eq!(from_lists.len(), 2);
    assert_eq!(from_lists.find("y"), Some(&2));
}

#[test]
fn router_sends_prefixed_names_to_handlers() {
    let mut router: HostRouter<&str> = HostRouter::new();
    router.register_tools("weather", vec![(def("now"), "h1"), (def("week"), "h2")], &[ExtensionCapability::NetworkClient]);
    router.register_tools("notes", vec![(def("add"), "h3")], &[]);
    assert_eq!(prefixed_name("weather", "now"), "weather__now");
    match router.route("weather__week", &[]) {
        Ok((name, h)) => {
            assert_eq!(name, "week");
            assert_eq!(*h, "h2");
        }
        other => panic!("unexpected {other:?}"),
    }
    match router.route("weather__now", &[ExtensionCapability::NetworkClient]) {
        Ok((name, h)) => {
            assert_eq!(name, "now");
            assert_eq!(*h, "h1");
        }
        other => panic!("unexpected {other:?}"),
    }
    match router.route("weather__now", &[ExtensionCapability::NetworkClient, ExtensionCapability::ProcessSpawn]) {
        Err(ExtensionError::Blocked { reason }) => {
            assert_eq!(reason, "Tool weather__now needs a capability not granted to its extension")
        }
        other => panic!("unexpected {other:?}"),
    }
    assert!(matches!(router.route("notes__add", &[ExtensionCapability::NetworkClient]), Err(ExtensionError::Blocked { .. })));
    assert!(matches!(router.route("notes__add", &[]), Ok((n, &"h3")) if n == "add"));
    match router.route("now", &[]) {
        Err(ExtensionError::NotFound(m)) => assert_eq!(m, "Tool now not found in any extension"),
        other => panic!("unexpected {other:?}"),
    }
}

#[test]
fn test_fs_write() {
    let mut f = no_fields();
    f.path = Some("new.txt".into());
    f.content = Some("test content".into());
    match request_from_fields(BuiltinTool::FsWrite, f) {
        Ok(ToolRequest::Write { path, content, append }) => {
            assert_eq!(path, "new.txt");
            assert_eq!(content, "test content");
            assert!(!append);
            let r = write_report(&path, append);
            assert!(!r.is_error);
            assert!(r.content.contains("written"));
        }
        other => panic!("unexpected {other:?}"),
    }
}

#[test]
fn test_fs_grep() {
    let re = TextRegex::new("three").unwrap();
    let matches = grep_content("numbers.txt", "one\ntwo\nthree\nfour\n", &re);
    assert_eq!(matches.len(), 1);
    assert_eq!(matches[0].content, "three");
}

#[test]
fn test_fs_find() {
    let g = TextGlob::new("**/*.txt").unwrap();
    assert!(find_keeps(&g, "hello.txt", "/tmp/t/hello.txt") || find_keeps(&g, "numbers.txt", "/tmp/t/numbers.txt"));
}

#[test]
fn test_fs_info() {
    assert_eq!(entry_kind(false, false), "file");
}

#[test]
fn test_fs_info_dir() {
    assert_eq!(entry_kind(true, false), "dir");
}

#[test]
fn test_shell_exec_echo() {
    let r = shell_result("hello world\n", "", true, Some(0));
    assert!(!r.is_error);
    assert_eq!(r.content.trim(), "hello world");
}

#[test]
fn test_shell_exec_exit_code() {
    let r = shell_result("", "", false, Some(42));
    assert!(r.is_error);
    assert!(r.content.contains("exit code 42"));
}

#[test]
fn test_shell_exec_timeout() {
    let mut f = no_fields();
    f.command = Some("sleep 10".into());
    f.timeout_secs = Some(1);
    match request_from_fields(BuiltinTool::ShellExec, f) {
        Ok(ToolRequest::Shell { command, timeout_secs }) => {
            assert_eq!(timeout_secs, 1);
            assert!(error_text(shell_timeout(timeout_secs, &command)).contains("timed out"));
        }
        other => panic!("unexpected {other:?}"),
    }
}

#[test]
fn edit_report_cuts_texts_at_fifty_bytes() {
    let old = "é".repeat(30);
    let content = format!("xx{old}yy\nnext\n");
    assert!(edit_is_defined(&content, &old, "n"));
    match plan_edit("f", &content, &old, "n") {
        EditOutcome::Replaced { content, message } => {
            assert_eq!(content, "xxnyy\nnext\n");
            assert_eq!(message, format!("edit f at line 1: {} → n", "é".repeat(25)));
        }
        other => panic!("expected a replacement, got {other:?}"),
    }
    // A cut that falls inside a character cannot be made.
    let odd = format!("a{}", "é".repeat(30));
    assert!(!edit_is_defined(&format!("<{odd}>"), &odd, "n"));
    assert!(edit_is_defined("abc", "zzz", "n"));
}

#[test]
fn ambiguous_previews_span_bytes() {
    let content = "é foo é foo";
    assert!(edit_is_defined(content, "foo", "bar"));
    match plan_edit("f", content, "foo", "bar") {
        EditOutcome::Ambiguous(m) => assert_eq!(
            m,
            "found 2 occurrences in f. Use a more unique string. First matches:\n...é foo é foo...\n...é foo é foo..."
        ),
        other => panic!("expected ambiguity, got {other:?}"),
    }
    // The next search would start inside the first match's character.
    assert!(!edit_is_defined("éé", "é", "x"));
    let long = format!("{}foo{}foo", "x".repeat(50), "y".repeat(50));
    match plan_edit("f", &long, "foo", "bar") {
        EditOutcome::Ambiguous(m) => {
            let first = format!("...{}foo{}...", "x".repeat(40), "y".repeat(40));
            let second = format!("...{}foo...", "y".repeat(40));
            assert_eq!(
                m,
                format!("found 2 occurrences in f. Use a more unique string. First matches:\n{first}\n{second}")
            );
        }
        other => panic!("expected ambiguity, got {other:?}"),
    }
}

#[test]
fn bad_patterns_are_reported() {
    match compile_search("foo(bar") {
        Err(ToolError::Execution(m)) => {
            assert!(m.starts_with("bad regex 'foo(bar': "));
            assert!(m.len() > "bad regex 'foo(bar': ".len());
        }
        other => panic!("unexpected {:?}", other.is_ok()),
    }
    match compile_find("[") {
        Err(ToolError::Execution(m)) => {
            assert!(m.starts_with("bad glob '[': "));
            assert!(m.len() > "bad glob '[': ".len());
        }
        other => panic!("unexpected {:?}", other.is_ok()),
    }
    assert!(compile_search("^t").is_ok());
    assert!(compile_find("**/*.rs").is_ok());
    assert!(file_filter(&Some("*.rs".to_string())).is_some());
}

#[test]
fn sdk_result_helpers() {
    let ok = aabot::extension::text_result("done".to_string());
    assert_eq!(ok.content, "done");
    assert!(!ok.is_error);
    assert!(ok.metadata.is_none());
    let bad = aabot::extension::error_result("broken".to_string());
    assert_eq!(bad.content, "broken");
    assert!(bad.is_error);
}

fn entry(name: &str, is_dir: bool) -> aabot::tool_run::DirEntry {
    dir_entry(name.to_string(), format!("./{name}"), is_dir, false, if is_dir { 0 } else { 5 }, Some(1))
}

#[test]
fn test_fs_ls() {
    let mut f = no_fields();
    f.path = Some(".".into());
    match request_from_fields(BuiltinTool::FsLs, f) {
        Ok(ToolRequest::Ls { path, recursive }) => {
            assert_eq!(path, ".");
            assert!(!recursive);
        }
        other => panic!("unexpected {other:?}"),
    }
    let listed = sort_entries(vec![entry("subdir", true), entry("numbers.txt", false), entry("hello.txt", false)]);
    let names: Vec<&str> = listed.iter().map(|e| e.name.as_str()).collect();
    assert!(names.contains(&"hello.txt"));
    assert!(names.contains(&"numbers.txt"));
    assert!(names.contains(&"subdir"));
    assert_eq!(names, vec!["hello.txt", "numbers.txt", "subdir"]);
}

#[test]
fn test_fs_ls_recursive() {
    let mut f = no_fields();
    f.path = Some(".".into());
    f.recursive = Some(true);
    match request_from_fields(BuiltinTool::FsLs, f) {
        Ok(ToolRequest::Ls { recursive, .. }) => assert!(recursive),
        other => panic!("unexpected {other:?}"),
    }
    let listed = sort_entries(vec![entry("subdir", true), entry("nested.txt", false), entry("hello.txt", false)]);
    let names: Vec<&str> = listed.iter().map(|e| e.name.as_str()).collect();
    assert!(names.contains(&"nested.txt"));
}

#[test]
fn test_fs_read_nonexistent() {
    let mut f = no_fields();
    f.path = Some("nope.txt".into());
    let path = match request_from_fields(BuiltinTool::FsRead, f) {
        Ok(ToolRequest::Read { path }) => path,
        other => panic!("unexpected {other:?}"),
    };
    // Reading a file that is not there fails with the path in the error.
    let result: Result<aabot::tool::ToolResult, ToolError> =
        Err(path_error("read", &path, "No such file or directory (os error 2)"));
    assert!(result.is_err());
    assert!(matches!(result, Err(ToolError::Execution(m)) if m == "read nope.txt: No such file or directory (os error 2)"));
}
