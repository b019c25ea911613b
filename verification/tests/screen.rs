use aabot::llm::{Message, Role, ToolCall, ToolCallFunction, Usage};
use aabot::markdown::{Color, SpanStyle, StyledLine};
use aabot::transcript::toast_rect;
use aabot::tui::{App, AppAction, DisplayMessage, KeyCode, KeyPress, MouseInput, MouseKind, MsgKind, UiEvent};

fn key(code: KeyCode) -> KeyPress {
    KeyPress { code, ctrl: false }
}

fn ctrl(c: char) -> KeyPress {
    KeyPress { code: KeyCode::Char(c), ctrl: true }
}

fn type_text(app: &mut App, s: &str) {
    for c in s.chars() {
        app.handle_key(key(KeyCode::Char(c)));
    }
}

fn texts(line: &StyledLine) -> Vec<String> {
    line.spans.iter().map(|s| s.text.clone()).collect()
}

#[test]
fn typing_and_backspace_edit_the_input() {
    let mut app = App::new();
    type_text(&mut app, "hello");
    assert_eq!(app.input_text(), "hello");
    assert_eq!(app.input_cursor, 5);
    app.handle_key(key(KeyCode::Char('!')));
    app.handle_key(key(KeyCode::Backspace));
    assert_eq!(app.input_text(), "hello");
    assert_eq!(app.input_cursor, 5);
    app.handle_key(key(KeyCode::Home));
    assert_eq!(app.input_cursor, 0);
    app.handle_key(key(KeyCode::Delete));
    assert_eq!(app.input_text(), "ello");
    app.handle_key(key(KeyCode::End));
    assert_eq!(app.input_cursor, 4);
    app.handle_key(key(KeyCode::Left));
    app.handle_key(key(KeyCode::Char('X')));
    assert_eq!(app.input_text(), "ellXo");
}

#[test]
fn enter_submits_the_trimmed_input() {
    let mut app = App::new();
    type_text(&mut app, "  hi there  ");
    let action = app.handle_key(key(KeyCode::Enter));
    match action {
        AppAction::Submit(msgs) => {
            assert_eq!(msgs.len(), 1);
            assert_eq!(msgs[0].role, Role::User);
            assert_eq!(msgs[0].content, "hi there");
        }
        other => panic!("expected a submission, got {other:?}"),
    }
    assert_eq!(app.input_text(), "");
    assert_eq!(app.messages.len(), 1);
    assert_eq!(app.messages[0].content, "hi there");
    assert_eq!(app.history, vec!["hi there".to_string()]);
    assert_eq!(app.streaming_text, Some(String::new()));
}

#[test]
fn blank_input_is_not_submitted() {
    let mut app = App::new();
    type_text(&mut app, "   ");
    assert!(matches!(app.handle_key(key(KeyCode::Enter)), AppAction::Nothing));
    assert!(app.messages.is_empty());
}

#[test]
fn history_browsing_recalls_inputs() {
    let mut app = App::new();
    type_text(&mut app, "first");
    app.handle_key(key(KeyCode::Enter));
    type_text(&mut app, "second");
    app.handle_key(key(KeyCode::Enter));
    app.handle_key(key(KeyCode::Up));
    assert_eq!(app.input_text(), "second");
    app.handle_key(key(KeyCode::Up));
    assert_eq!(app.input_text(), "first");
    app.handle_key(key(KeyCode::Down));
    assert_eq!(app.input_text(), "second");
    app.handle_key(key(KeyCode::Down));
    assert_eq!(app.input_text(), "");
}

#[test]
fn escape_clears_selection_then_exits() {
    let mut app = App::new();
    app.selection = Some((0, 0));
    app.handle_key(key(KeyCode::Esc));
    assert!(app.selection.is_none());
    assert!(!app.exit);
    app.handle_key(key(KeyCode::Esc));
    assert!(app.exit);
}

#[test]
fn tokens_stream_and_done_commits_the_reply() {
    let mut app = App::new();
    type_text(&mut app, "q");
    app.handle_key(key(KeyCode::Enter));
    app.handle_event(UiEvent::Token("Hel".to_string()));
    app.handle_event(UiEvent::Token("lo".to_string()));
    assert_eq!(app.streaming_text, Some("Hello".to_string()));
    app.handle_event(UiEvent::Done { usage: Some(Usage { prompt_tokens: 3, completion_tokens: 4, total_tokens: 7 }) });
    assert_eq!(app.streaming_text, None);
    assert_eq!(app.messages.len(), 2);
    assert!(matches!(app.messages[1].kind, MsgKind::Assistant));
    assert_eq!(app.messages[1].content, "Hello");
    assert_eq!(app.token_count, 7);
}

#[test]
fn tool_events_show_the_running_tool_and_its_result() {
    let mut app = App::new();
    let call = ToolCall {
        id: "call_0".to_string(),
        call_type: "function".to_string(),
        function: ToolCallFunction { name: "fs_read".to_string(), arguments: "{}".to_string() },
    };
    app.handle_event(UiEvent::ToolCall(call));
    assert_eq!(app.active_tool_name, Some("fs_read".to_string()));
    app.handle_event(UiEvent::ToolResult { name: "fs_read".to_string(), content: "data".to_string(), is_error: false });
    assert_eq!(app.active_tool_name, None);
    let last = app.messages.last().unwrap();
    match &last.kind {
        MsgKind::ToolResult { content, is_error } => {
            assert_eq!(content, "data");
            assert!(!is_error);
        }
        other => panic!("expected a tool result, got {other:?}"),
    }
}

#[test]
fn copy_last_reply_and_everything() {
    let mut app = App::new();
    app.messages.push(DisplayMessage { kind: MsgKind::User, content: "hi".to_string() });
    app.messages.push(DisplayMessage { kind: MsgKind::Assistant, content: "hello".to_string() });
    match app.handle_key(ctrl('y')) {
        AppAction::Copy(t) => assert_eq!(t, "hello"),
        other => panic!("expected a copy, got {other:?}"),
    }
    assert_eq!(app.toast, Some("Copied!".to_string()));
    assert_eq!(app.toast_ticks, 10);
    match app.handle_key(ctrl('c')) {
        AppAction::Copy(t) => assert_eq!(t, "You:\nhi\nAI:\nhello\n"),
        other => panic!("expected a copy, got {other:?}"),
    }
    assert!(matches!(app.handle_key(ctrl('v')), AppAction::Paste));
}

#[test]
fn toast_disappears_after_ten_ticks() {
    let mut app = App::new();
    app.show_toast("Copied!".to_string());
    for _ in 0..9 {
        app.tick_toast();
    }
    assert!(app.toast.is_some());
    app.tick_toast();
    assert!(app.toast.is_none());
}

#[test]
fn paste_inserts_at_the_cursor() {
    let mut app = App::new();
    type_text(&mut app, "ad");
    app.handle_key(key(KeyCode::Left));
    app.insert_text("bc");
    assert_eq!(app.input_text(), "abcd");
    assert_eq!(app.input_cursor, 3);
}

#[test]
fn mouse_drag_selects_entries_and_copies_them() {
    let mut app = App::new();
    app.messages.push(DisplayMessage { kind: MsgKind::User, content: "one".to_string() });
    app.messages.push(DisplayMessage { kind: MsgKind::Assistant, content: "two".to_string() });
    let (lines, offset) = app.render_messages(0, 40);
    assert_eq!(offset, 0);
    assert_eq!(app.msg_line_map.len(), lines.len());
    app.handle_mouse(MouseInput { kind: MouseKind::LeftDown, row: 0 });
    let last_row = (app.msg_line_map.len() - 1) as u16;
    app.handle_mouse(MouseInput { kind: MouseKind::LeftDrag, row: last_row });
    assert_eq!(app.selection, Some((0, 1)));
    match app.handle_mouse(MouseInput { kind: MouseKind::LeftUp, row: last_row }) {
        AppAction::Copy(t) => assert_eq!(t, "You:\none\nAI:\ntwo\n"),
        other => panic!("expected a copy, got {other:?}"),
    }
}

#[test]
fn empty_transcript_shows_the_hint() {
    let mut app = App::new();
    let (lines, offset) = app.render_messages(0, 10);
    assert_eq!(offset, 0);
    assert_eq!(lines.len(), 2);
    assert_eq!(texts(&lines[0]), vec!["Type a message and press Enter to start.".to_string()]);
    assert_eq!(lines[0].spans[0].style, SpanStyle { fg: None, bg: None, bold: false, dim: true });
    assert_eq!(texts(&lines[1]), vec![String::new()]);
    assert!(app.msg_line_map.is_empty());
}

#[test]
fn transcript_lines_of_each_entry() {
    let mut app = App::new();
    app.messages.push(DisplayMessage { kind: MsgKind::User, content: "line one\nline two".to_string() });
    app.messages.push(DisplayMessage {
        kind: MsgKind::ToolResult { content: "out".to_string(), is_error: true },
        content: String::new(),
    });
    app.messages.push(DisplayMessage { kind: MsgKind::Error("boom".to_string()), content: String::new() });
    app.active_tool_name = Some("shell_exec".to_string());
    let (lines, _) = app.render_messages(2, 50);
    let t: Vec<Vec<String>> = lines.iter().map(texts).collect();
    assert_eq!(t[0], vec!["┃ ".to_string(), "You".to_string()]);
    assert_eq!(t[1], vec!["line one".to_string()]);
    assert_eq!(t[2], vec!["line two".to_string()]);
    assert_eq!(t[3], vec![String::new()]);
    assert_eq!(t[4], vec!["  └─ ".to_string(), "out".to_string()]);
    assert_eq!(lines[4].spans[1].style.fg, Some(Color::Red));
    assert_eq!(t[5], vec!["⚠ ".to_string(), "boom".to_string()]);
    assert_eq!(t[6], vec![String::new()]);
    assert_eq!(t[7], vec!["  ↻ ".to_string(), "shell_exec".to_string(), " running...".to_string()]);
    assert_eq!(lines.len(), 8);
    assert_eq!(app.msg_line_map, vec![0, 0, 0, 0, 1, 2, 2]);
    assert_eq!(app.msg_area_y, 2);
    assert_eq!(app.msg_area_height, 50);
}

#[test]
fn selected_entries_are_highlighted() {
    let mut app = App::new();
    app.messages.push(DisplayMessage { kind: MsgKind::User, content: "a".to_string() });
    app.messages.push(DisplayMessage { kind: MsgKind::User, content: "b".to_string() });
    app.selection = Some((1, 1));
    let (lines, _) = app.render_messages(0, 50);
    assert_eq!(lines[0].spans[0].style.bg, None);
    assert!(lines[3].spans.iter().all(|s| s.style.bg == Some(Color::DarkGray)));
    assert_eq!(lines[3].spans[0].style.fg, Some(Color::Green));
}

#[test]
fn streaming_reply_shows_a_cursor_until_text_comes() {
    let mut app = App::new();
    app.streaming_text = Some(String::new());
    let (lines, _) = app.render_messages(0, 50);
    assert_eq!(texts(&lines[0]), vec!["┃ ".to_string(), "AI".to_string()]);
    assert_eq!(texts(&lines[1]), vec!["▊".to_string()]);
    app.streaming_text = Some("Hello world".to_string());
    let (lines, _) = app.render_messages(0, 50);
    assert_eq!(texts(&lines[1]), vec!["Hello world".to_string()]);
}

#[test]
fn long_transcripts_follow_the_end() {
    let mut app = App::new();
    let content = (1..=30).map(|i| format!("l{i}")).collect::<Vec<_>>().join("\n");
    app.messages.push(DisplayMessage { kind: MsgKind::User, content });
    let (lines, offset) = app.render_messages(0, 10);
    // 1 header + 30 lines + 1 blank = 32 lines, 10 visible.
    assert_eq!(offset, 22);
    assert_eq!(app.scroll, 22);
    assert_eq!(texts(&lines[0]), vec!["↑ 22 more lines".to_string()]);
    assert_eq!(lines.len(), 33);
    app.auto_scroll = false;
    app.scroll = 5;
    let (_, offset) = app.render_messages(0, 10);
    assert_eq!(offset, 5);
}

#[test]
fn status_and_input_lines() {
    let mut app = App::new();
    app.model_name = "gpt".to_string();
    app.tools_count = 10;
    app.token_count = 42;
    assert_eq!(app.status_text(), " gpt | 10 tools | 42 tokens | Ctrl+Y copy msg | Esc exit");
    type_text(&mut app, "abc");
    assert_eq!(app.input_line(), ("> abc".to_string(), 5));
}

#[test]
fn toast_box_is_centred_and_clamped() {
    assert_eq!(toast_rect(7, 80, 24), (33, 6, 13, 3));
    assert_eq!(toast_rect(200, 40, 8), (1, 2, 38, 3));
    assert_eq!(toast_rect(7, 1, 2), (0, 0, 0, 3));
}

#[test]
fn ready_event_sets_tools_and_model() {
    let mut app = App::new();
    app.handle_event(UiEvent::Ready { tools: 10, model: "llama3.2".to_string() });
    assert_eq!(app.tools_count, 10);
    assert_eq!(app.model_name, "llama3.2");
    let _unused: Option<Message> = None;
}

#[test]
fn the_cursor_counts_bytes() {
    let mut app = App::new();
    app.handle_key(key(KeyCode::Char('é')));
    assert_eq!(app.input_text(), "é");
    // The cursor moves one byte per character typed.
    assert_eq!(app.input_cursor, 1);
    // Typing now would cut the two-byte character.
    assert!(!app.can_handle_key(key(KeyCode::Char('a'))));
    assert!(!app.can_paste());
    assert!(app.can_handle_key(key(KeyCode::Left)));
    app.handle_key(key(KeyCode::End));
    assert_eq!(app.input_cursor, 2);
    assert!(app.can_handle_key(key(KeyCode::Char('a'))));
    app.handle_key(key(KeyCode::Char('a')));
    assert_eq!(app.input_text(), "éa");
    assert_eq!(app.input_cursor, 3);
    // Backspace removes the character that starts one byte back.
    app.handle_key(key(KeyCode::Backspace));
    assert_eq!(app.input_text(), "é");
    assert_eq!(app.input_cursor, 2);
    // Home, then Delete removes the whole character under the cursor.
    app.handle_key(key(KeyCode::Home));
    assert!(app.can_handle_key(key(KeyCode::Delete)));
    app.handle_key(key(KeyCode::Delete));
    assert_eq!(app.input_text(), "");
    assert_eq!(app.input_cursor, 0);
    app.insert_text("日本");
    assert_eq!(app.input_text(), "日本");
    assert_eq!(app.input_cursor, 2);
    assert!(!app.can_paste());
    assert!(!app.can_handle_key(key(KeyCode::Backspace)));
    assert!(app.can_handle_key(ctrl('c')));
}
