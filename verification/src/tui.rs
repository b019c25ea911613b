//! The terminal chat screen's state and how keys, mouse and turn events
//! change it.
//!
//! The screen does no I/O: where a key asks for the clipboard or a message
//! is to be sent, the handler says so in its result and the caller acts.
use vstd::prelude::*;
use crate::llm::{Message, Role, ToolCall, Usage};
use crate::text::{
    at_boundary, byte_index, is_ascii_text, lemma_ascii_bytes, char_at_byte, char_utf8_len, lemma_boundary_prefix, lemma_byte_index, lemma_utf8_concat,
    lemma_utf8_take_all, lemma_utf8_take_grows, lemma_utf8_trimmed, owned, push_str, same_text, string_from_chars, trim_chars, trimmed,
    utf8_len, utf8_prefix_len,
};

verus! {

/// What a transcript entry is.
#[derive(Debug)]
pub enum MsgKind {
    User,
    Assistant,
    ToolResult { content: String, is_error: bool },
    Error(String),
}

impl Clone for MsgKind {
    fn clone(&self) -> (r: Self)
        ensures
            r == *self,
    {
        match self {
            MsgKind::User => MsgKind::User,
            MsgKind::Assistant => MsgKind::Assistant,
            MsgKind::ToolResult { content, is_error } => MsgKind::ToolResult { content: content.clone(), is_error: *is_error },
            MsgKind::Error(e) => MsgKind::Error(e.clone()),
        }
    }
}

/// One transcript entry.
#[derive(Debug)]
pub struct DisplayMessage {
    pub kind: MsgKind,
    pub content: String,
}

/// An event of a turn, as the screen receives it.
#[derive(Debug)]
pub enum UiEvent {
    Token(String),
    ToolCall(ToolCall),
    ToolResult { name: String, content: String, is_error: bool },
    Done { usage: Option<Usage> },
    Error(String),
    /// The worker is ready with this many tools and this model.
    Ready { tools: usize, model: String },
}

/// A key, as the screen tells keys apart.
#[derive(Debug, Clone, Copy, PartialEq, Eq, Structural)]
pub enum KeyCode {
    Char(char),
    Enter,
    Esc,
    Backspace,
    Delete,
    Left,
    Right,
    Up,
    Down,
    Home,
    End,
    PageUp,
    PageDown,
    Other,
}

/// A key press, with whether Control was held.
#[derive(Debug, Clone, Copy, PartialEq, Eq, Structural)]
pub struct KeyPress {
    pub code: KeyCode,
    pub ctrl: bool,
}

/// A mouse event, as the screen tells them apart.
#[derive(Debug, Clone, Copy, PartialEq, Eq, Structural)]
pub enum MouseKind {
    Moved,
    LeftDown,
    LeftDrag,
    LeftUp,
    Other,
}

/// A mouse event at a screen row.
#[derive(Debug, Clone, Copy, PartialEq, Eq, Structural)]
pub struct MouseInput {
    pub kind: MouseKind,
    pub row: u16,
}

/// What the caller must do after a key or mouse event.
#[derive(Debug)]
pub enum AppAction {
    Nothing,
    /// Send these messages to the worker.
    Submit(Vec<Message>),
    /// Put this text on the clipboard (the screen shows "Copied!").
    Copy(String),
    /// Read the clipboard and hand its text to `insert_text`.
    Paste,
}

/// How a transcript entry reads when copied.
pub open spec fn entry_text(m: DisplayMessage) -> Seq<char> {
    match m.kind {
        MsgKind::User => "You:\n"@ + m.content@ + "\n"@,
        MsgKind::Assistant => "AI:\n"@ + m.content@ + "\n"@,
        MsgKind::ToolResult { content, is_error } =>
            (if is_error { "Error"@ } else { "Tool"@ }) + ":\n"@ + content@ + "\n"@,
        MsgKind::Error(e) => "Error:\n"@ + e@ + "\n"@,
    }
}

/// The copied text of entries `lo..=hi` among the first `n`.
pub open spec fn range_text(msgs: Seq<DisplayMessage>, lo: int, hi: int, n: int) -> Seq<char>
    decreases n,
{
    if n <= 0 {
        Seq::<char>::empty()
    } else {
        range_text(msgs, lo, hi, n - 1) + if lo <= n - 1 <= hi { entry_text(msgs[n - 1]) } else { Seq::<char>::empty() }
    }
}

/// The copied text of the user and assistant entries among the first `n`.
pub open spec fn chat_text(msgs: Seq<DisplayMessage>, n: int) -> Seq<char>
    decreases n,
{
    if n <= 0 {
        Seq::<char>::empty()
    } else {
        chat_text(msgs, n - 1) + match msgs[n - 1].kind {
            MsgKind::User | MsgKind::Assistant => entry_text(msgs[n - 1]),
            _ => Seq::<char>::empty(),
        }
    }
}

/// The index of the last assistant entry among the first `n`.
pub open spec fn last_assistant(msgs: Seq<DisplayMessage>, n: int) -> Option<int>
    decreases n,
{
    if n <= 0 {
        None
    } else if msgs[n - 1].kind is Assistant {
        Some(n - 1)
    } else {
        last_assistant(msgs, n - 1)
    }
}

/// The input line after an editing key, with the cursor. The cursor is a
/// byte offset into the line's UTF-8 form: a character typed goes in at
/// the cursor, which then moves one byte on; Backspace and Delete remove
/// the character starting one byte before, or at, the cursor; the arrows
/// move it a byte; End puts it after the line's last byte.
pub open spec fn edit(input: Seq<char>, cursor: int, code: KeyCode) -> (Seq<char>, int) {
    match code {
        KeyCode::Backspace => if cursor > 0 {
            (input.remove(byte_index(input, cursor - 1)), cursor - 1)
        } else {
            (input, cursor)
        },
        KeyCode::Delete => if cursor < utf8_len(input) {
            (input.remove(byte_index(input, cursor)), cursor)
        } else {
            (input, cursor)
        },
        KeyCode::Left => if cursor > 0 { (input, cursor - 1) } else { (input, cursor) },
        KeyCode::Right => if cursor < utf8_len(input) { (input, cursor + 1) } else { (input, cursor) },
        KeyCode::Home => (input, 0),
        KeyCode::End => (input, utf8_len(input)),
        KeyCode::Char(c) => (input.insert(byte_index(input, cursor), c), cursor + 1),
        _ => (input, cursor),
    }
}

/// Whether an editing key can act: a character goes in, and Backspace or
/// Delete removes one, only where a character starts; a string cannot be
/// cut inside a character.
pub open spec fn edit_defined(input: Seq<char>, cursor: int, code: KeyCode) -> bool {
    match code {
        KeyCode::Backspace => cursor > 0 ==> at_boundary(input, cursor - 1),
        KeyCode::Delete => cursor < utf8_len(input) ==> at_boundary(input, cursor),
        KeyCode::Char(_) => at_boundary(input, cursor),
        _ => true,
    }
}

/// Whether the key only edits the input line.
pub open spec fn is_edit_key(code: KeyCode) -> bool {
    code is Backspace || code is Delete || code is Left || code is Right || code is Home || code is End
        || code is Char
}

/// The entry `last_assistant` finds among the first `n` is an assistant
/// entry and every entry after it among those is not; when it finds none,
/// none of them is an assistant entry. So Ctrl+Y copies the most recent
/// reply.
pub proof fn law_last_assistant_is_the_latest(msgs: Seq<DisplayMessage>, n: int)
    requires
        0 <= n <= msgs.len(),
    ensures
        match last_assistant(msgs, n) {
            Some(i) => {
                &&& 0 <= i < n
                &&& msgs[i].kind is Assistant
                &&& forall|j: int| i < j < n ==> !(#[trigger] msgs[j].kind is Assistant)
            },
            None => forall|j: int| 0 <= j < n ==> !(#[trigger] msgs[j].kind is Assistant),
        },
    decreases n,
{
    if n > 0 {
        law_last_assistant_is_the_latest(msgs, n - 1);
    }
}

/// The screen row's transcript line, as the screen computes it (16-bit
/// signed arithmetic).
pub open spec fn row_offset(row: u16, area_y: u16) -> int {
    (row as i16) as int - (area_y as i16) as int
}

/// The terminal chat screen.
pub struct App {
    /// The transcript.
    pub messages: Vec<DisplayMessage>,
    /// The reply being streamed, if a turn runs.
    pub streaming_text: Option<String>,
    /// Names of the tools called and not yet answered.
    pub tool_calls_in_flight: Vec<String>,
    /// The input line.
    pub input: Vec<char>,
    /// The cursor's position in the input line.
    pub input_cursor: usize,
    /// Submitted inputs, oldest first.
    pub history: Vec<String>,
    /// Where history browsing stands (the history's length when not
    /// browsing).
    pub history_pos: usize,
    pub scroll: u16,
    pub auto_scroll: bool,
    pub tools_count: usize,
    pub model_name: String,
    pub token_count: u32,
    pub active_tool_name: Option<String>,
    pub toast: Option<String>,
    pub toast_ticks: u8,
    /// The selected transcript entries, as (anchor, end).
    pub selection: Option<(usize, usize)>,
    pub mouse_selecting: bool,
    /// The transcript entry of each rendered line.
    pub msg_line_map: Vec<usize>,
    pub msg_area_y: u16,
    pub msg_area_height: u16,
    pub exit: bool,
}

impl App {
    /// Where history browsing stands.
    pub open spec fn history_position(&self) -> int {
        self.history_pos as int
    }

    /// The cursor is within the input line's bytes, history browsing
    /// within the history, and every text fits in memory.
    pub open spec fn consistent(&self) -> bool {
        &&& self.input_cursor <= utf8_len(self.input@)
        &&& utf8_len(self.input@) <= usize::MAX
        &&& 0 <= self.history_position() <= self.history@.len()
        &&& forall|i: int| 0 <= i < self.history@.len() ==> utf8_len(#[trigger] self.history@[i]@) <= usize::MAX
    }

    /// An empty screen.
    pub fn new() -> (r: App)
        ensures
            r.consistent(),
            r.messages@.len() == 0,
            r.input@.len() == 0,
            r.auto_scroll,
            !r.exit,
    {
        App {
            messages: Vec::new(),
            streaming_text: None,
            tool_calls_in_flight: Vec::new(),
            input: Vec::new(),
            input_cursor: 0,
            history: Vec::new(),
            history_pos: 0,
            scroll: 0,
            auto_scroll: true,
            tools_count: 0,
            model_name: String::new(),
            token_count: 0,
            active_tool_name: None,
            toast: None,
            toast_ticks: 0,
            selection: None,
            mouse_selecting: false,
            msg_line_map: Vec::new(),
            msg_area_y: 0,
            msg_area_height: 0,
            exit: false,
        }
    }

    /// The input line as text.
    pub fn input_text(&self) -> (r: String)
        ensures
            r@ == self.input@,
    {
        string_from_chars(self.input.as_slice())
    }

    /// Shows a short notice for ten ticks.
    pub fn show_toast(&mut self, msg: String)
        ensures
            *final(self) == (App { toast: Some(msg), toast_ticks: 10, ..*old(self) }),
    {
        self.toast = Some(msg);
        self.toast_ticks = 10;
    }

    /// One tick: the notice's time runs down and it goes when it is up.
    pub fn tick_toast(&mut self)
        ensures
            old(self).toast_ticks > 0 ==> final(self).toast_ticks == old(self).toast_ticks - 1,
            old(self).toast_ticks == 0 ==> final(self).toast_ticks == 0,
            final(self).toast == if old(self).toast_ticks == 1 { None } else { old(self).toast },
    {
        if self.toast_ticks > 0 {
            self.toast_ticks = self.toast_ticks - 1;
            if self.toast_ticks == 0 {
                self.toast = None;
            }
        }
    }

    /// The selected entries as (first, last).
    pub fn selected_range(&self) -> (r: Option<(usize, usize)>)
        ensures
            match self.selection {
                Some((a, c)) => r == Some((if a <= c { a } else { c }, if a <= c { c } else { a })),
                None => r is None,
            },
    {
        match self.selection {
            Some((a, c)) => Some((if a <= c { a } else { c }, if a <= c { c } else { a })),
            None => None,
        }
    }

    /// Whether pasted text can go in at the cursor: only where a character
    /// starts.
    pub open spec fn paste_defined(&self) -> bool {
        at_boundary(self.input@, self.input_cursor as int)
    }

    /// Whether `paste_defined` holds.
    pub fn can_paste(&self) -> (r: bool)
        requires
            self.consistent(),
        ensures
            r == self.paste_defined(),
    {
        char_at_byte(self.input.as_slice(), self.input_cursor).is_some()
    }

    /// Inserts pasted text where the cursor's byte starts a character; the
    /// cursor moves on by as many bytes as the text has characters.
    pub fn insert_text(&mut self, text: &str)
        requires
            old(self).consistent(),
            old(self).paste_defined(),
            utf8_len(old(self).input@) + utf8_len(text@) <= usize::MAX,
        ensures
            final(self).consistent(),
            ({
                let i = byte_index(old(self).input@, old(self).input_cursor as int);
                final(self).input@ == old(self).input@.take(i) + text@ + old(self).input@.skip(i)
            }),
            final(self).input_cursor == old(self).input_cursor + text@.len(),
            same_but_input(*old(self), *final(self)),
    {
        let at = match char_at_byte(self.input.as_slice(), self.input_cursor) {
            Some(i) => i,
            None => {
                assert(false);
                0
            },
        };
        let cs = crate::text::chars_of(text);
        let mut j: usize = 0;
        let ghost start = self.input@;
        let ghost cur = self.input_cursor as int;
        proof {
            lemma_utf8_take_all(cs@);
            lemma_utf8_take_all(start);
        }
        while j < cs.len()
            invariant
                cs@ == text@,
                j <= cs@.len(),
                at <= start.len(),
                self.input_cursor == cur + j,
                self.input@ == start.take(at as int) + cs@.take(j as int) + start.skip(at as int),
                same_but_input(*old(self), *self),
                cur <= utf8_len(start),
                cs@.len() <= utf8_len(text@),
                start.len() <= utf8_len(start),
                utf8_len(start) + utf8_len(text@) <= usize::MAX,
            decreases cs@.len() - j,
        {
            self.input.insert(at + j, cs[j]);
            self.input_cursor = self.input_cursor + 1;
            j = j + 1;
            assert(self.input@ =~= start.take(at as int) + cs@.take(j as int) + start.skip(at as int));
        }
        proof {
            assert(cs@.take(j as int) =~= text@);
            assert(start =~= start.take(at as int) + start.skip(at as int));
            lemma_utf8_concat(start.take(at as int), start.skip(at as int));
            lemma_utf8_concat(start.take(at as int) + text@, start.skip(at as int));
            lemma_utf8_concat(start.take(at as int), text@);
        }
    }
}


/// Appends how a transcript entry reads when copied.
fn push_entry(out: &mut String, m: &DisplayMessage)
    ensures
        final(out)@ == old(out)@ + entry_text(*m),
{
    match &m.kind {
        MsgKind::User => {
            push_str(out, "You:\n");
            push_str(out, m.content.as_str());
            push_str(out, "\n");
        },
        MsgKind::Assistant => {
            push_str(out, "AI:\n");
            push_str(out, m.content.as_str());
            push_str(out, "\n");
        },
        MsgKind::ToolResult { content, is_error } => {
            push_str(out, if *is_error { "Error" } else { "Tool" });
            push_str(out, ":\n");
            push_str(out, content.as_str());
            push_str(out, "\n");
        },
        MsgKind::Error(e) => {
            push_str(out, "Error:\n");
            push_str(out, e.as_str());
            push_str(out, "\n");
        },
    }
    proof {
        assert(final(out)@ =~= old(out)@ + entry_text(*m));
    }
}

/// The copied text of entries `lo..=hi`.
pub fn selection_text(msgs: &Vec<DisplayMessage>, lo: usize, hi: usize) -> (r: String)
    ensures
        r@ == range_text(msgs@, lo as int, hi as int, msgs@.len() as int),
{
    let mut out = String::new();
    let mut i: usize = 0;
    while i < msgs.len()
        invariant
            i <= msgs@.len(),
            out@ == range_text(msgs@, lo as int, hi as int, i as int),
        decreases msgs@.len() - i,
    {
        if lo <= i && i <= hi {
            push_entry(&mut out, &msgs[i]);
        }
        i = i + 1;
        assert(out@ =~= range_text(msgs@, lo as int, hi as int, i as int));
    }
    out
}

/// The copied text of the user and assistant entries.
pub fn conversation_text(msgs: &Vec<DisplayMessage>) -> (r: String)
    ensures
        r@ == chat_text(msgs@, msgs@.len() as int),
{
    let mut out = String::new();
    let mut i: usize = 0;
    while i < msgs.len()
        invariant
            i <= msgs@.len(),
            out@ == chat_text(msgs@, i as int),
        decreases msgs@.len() - i,
    {
        match &msgs[i].kind {
            MsgKind::User | MsgKind::Assistant => push_entry(&mut out, &msgs[i]),
            _ => {},
        }
        i = i + 1;
        assert(out@ =~= chat_text(msgs@, i as int));
    }
    out
}

/// The index of the last assistant entry.
fn find_last_assistant(msgs: &Vec<DisplayMessage>) -> (r: Option<usize>)
    ensures
        match r {
            Some(i) => i < msgs@.len() && last_assistant(msgs@, msgs@.len() as int) == Some(i as int),
            None => last_assistant(msgs@, msgs@.len() as int) is None,
        },
{
    let mut i: usize = msgs.len();
    while i > 0
        invariant
            i <= msgs@.len(),
            last_assistant(msgs@, msgs@.len() as int) == last_assistant(msgs@, i as int),
        decreases i,
    {
        if let MsgKind::Assistant = msgs[i - 1].kind {
            return Some(i - 1);
        }
        i = i - 1;
    }
    None
}

/// The text copied while a reply streams: its text when not empty.
pub open spec fn streaming_part(s: Option<String>) -> Seq<char> {
    match s {
        Some(t) => if t@.len() > 0 { "AI:\n"@ + t@ + "\n"@ } else { Seq::<char>::empty() },
        None => Seq::<char>::empty(),
    }
}

/// The clipboard text of "copy everything".
pub open spec fn all_text(app: App) -> Seq<char> {
    chat_text(app.messages@, app.messages@.len() as int) + streaming_part(app.streaming_text)
}

/// The clipboard text of "copy the last reply", if there is one.
pub open spec fn last_reply_text(app: App) -> Option<Seq<char>> {
    match last_assistant(app.messages@, app.messages@.len() as int) {
        Some(i) => Some(app.messages@[i].content@),
        None => match app.streaming_text {
            Some(t) => if t@.len() > 0 { Some(t@) } else { None },
            None => None,
        },
    }
}

/// The clipboard text of "copy the selection", if something is selected.
pub open spec fn selected_text(app: App) -> Option<Seq<char>> {
    match app.selection {
        Some((a, c)) => Some(range_text(
            app.messages@,
            if a <= c { a as int } else { c as int },
            if a <= c { c as int } else { a as int },
            app.messages@.len() as int,
        )),
        None => None,
    }
}

/// Everything but the selection, toast and clipboard-related state is
/// unchanged.
pub open spec fn same_content(a: App, b: App) -> bool {
    &&& a.messages@ == b.messages@
    &&& a.input@ == b.input@
    &&& a.input_cursor == b.input_cursor
    &&& a.history@ == b.history@
    &&& a.history_pos == b.history_pos
    &&& a.streaming_text == b.streaming_text
    &&& a.exit == b.exit
    &&& a.scroll == b.scroll
    &&& a.auto_scroll == b.auto_scroll
    &&& a.msg_line_map == b.msg_line_map
}

/// The result is a copy of `text` with the "Copied!" notice shown, or
/// nothing when `text` is empty.
pub open spec fn copied(r: AppAction, before: App, after: App, text: Seq<char>) -> bool {
    if text.len() > 0 {
        &&& r matches AppAction::Copy(t) && t@ == text
        &&& after.toast matches Some(m) && m@ == "Copied!"@
        &&& after.toast_ticks == 10
    } else {
        &&& r is Nothing
        &&& after.toast == before.toast
        &&& after.toast_ticks == before.toast_ticks
    }
}

impl App {
    fn copied_notice(&mut self, text: String) -> (r: AppAction)
        ensures
            copied(r, *old(self), *final(self), text@),
            same_content(*old(self), *final(self)),
            final(self).mouse_selecting == old(self).mouse_selecting,
            final(self).selection == old(self).selection,
    {
        if text.as_str().is_empty() {
            AppAction::Nothing
        } else {
            self.show_toast(owned("Copied!"));
            AppAction::Copy(text)
        }
    }

    /// Copies the selected entries and clears the selection.
    pub fn copy_selected_messages(&mut self) -> (r: AppAction)
        ensures
            same_content(*old(self), *final(self)),
            final(self).mouse_selecting == old(self).mouse_selecting,
            match selected_text(*old(self)) {
                Some(t) => final(self).selection is None && copied(r, *old(self), *final(self), t),
                None => r is Nothing && final(self).selection is None && final(self).toast == old(self).toast
                    && final(self).toast_ticks == old(self).toast_ticks,
            },
    {
        let range = match self.selected_range() {
            Some(r) => r,
            None => return AppAction::Nothing,
        };
        let text = selection_text(&self.messages, range.0, range.1);
        self.selection = None;
        self.copied_notice(text)
    }

    /// Copies the whole conversation (user and assistant entries, and the
    /// reply being streamed).
    pub fn copy_all_messages(&mut self) -> (r: AppAction)
        ensures
            same_content(*old(self), *final(self)),
            final(self).mouse_selecting == old(self).mouse_selecting,
            final(self).selection == old(self).selection,
            copied(r, *old(self), *final(self), all_text(*old(self))),
    {
        let mut text = conversation_text(&self.messages);
        match &self.streaming_text {
            Some(t) => {
                if !t.as_str().is_empty() {
                    push_str(&mut text, "AI:\n");
                    push_str(&mut text, t.as_str());
                    push_str(&mut text, "\n");
                }
            },
            None => {},
        }
        proof {
            assert(text@ =~= all_text(*old(self)));
        }
        self.copied_notice(text)
    }

    /// Copies the last reply (or the one being streamed).
    pub fn copy_last_assistant(&mut self) -> (r: AppAction)
        ensures
            same_content(*old(self), *final(self)),
            final(self).mouse_selecting == old(self).mouse_selecting,
            final(self).selection == old(self).selection,
            match last_reply_text(*old(self)) {
                Some(t) => {
                    &&& r matches AppAction::Copy(c) && c@ == t
                    &&& final(self).toast matches Some(m) && m@ == "Copied!"@
                },
                None => r is Nothing && final(self).toast == old(self).toast,
            },
    {
        match find_last_assistant(&self.messages) {
            Some(i) => {
                let text = self.messages[i].content.clone();
                self.show_toast(owned("Copied!"));
                AppAction::Copy(text)
            },
            None => {
                let t = match &self.streaming_text {
                    Some(t) => if !t.as_str().is_empty() { Some(t.clone()) } else { None },
                    None => None,
                };
                match t {
                    Some(t) => {
                        self.show_toast(owned("Copied!"));
                        AppAction::Copy(t)
                    },
                    None => AppAction::Nothing,
                }
            },
        }
    }
}

/// Removing character `i` takes away its bytes; when it is not the last,
/// the bytes before it are fewer than the text's.
proof fn lemma_remove_utf8(s: Seq<char>, i: int)
    requires
        0 <= i < s.len(),
    ensures
        utf8_len(s.remove(i)) == utf8_len(s) - utf8_len(seq![s[i]]),
        utf8_len(s.take(i)) <= utf8_len(s.remove(i)),
        utf8_len(s.take(i)) < utf8_len(s),
{
    assert(s =~= s.take(i) + seq![s[i]] + s.skip(i + 1));
    assert(s.remove(i) =~= s.take(i) + s.skip(i + 1));
    lemma_utf8_concat(s.take(i) + seq![s[i]], s.skip(i + 1));
    lemma_utf8_concat(s.take(i), seq![s[i]]);
    lemma_utf8_concat(s.take(i), s.skip(i + 1));
    crate::text::lemma_char_utf8(s[i]);
}

/// Inserting a character adds its bytes, after the same bytes before it.
proof fn lemma_insert_utf8(s: Seq<char>, i: int, c: char)
    requires
        0 <= i <= s.len(),
    ensures
        utf8_len(s.insert(i, c)) == utf8_len(s) + utf8_len(seq![c]),
        s.insert(i, c).take(i) == s.take(i),
        1 <= utf8_len(seq![c]) <= 4,
{
    assert(s =~= s.take(i) + s.skip(i));
    assert(s.insert(i, c) =~= s.take(i) + seq![c] + s.skip(i));
    assert(s.insert(i, c).take(i) =~= s.take(i));
    lemma_utf8_concat(s.take(i) + seq![c], s.skip(i));
    lemma_utf8_concat(s.take(i), seq![c]);
    lemma_utf8_concat(s.take(i), s.skip(i));
    crate::text::lemma_char_utf8(c);
}

/// The texts of the history entries.
pub open spec fn history_view(h: Seq<String>) -> Seq<Seq<char>> {
    h.map_values(|s: String| s@)
}

/// All state but the input line and cursor is unchanged.
pub open spec fn same_but_input(a: App, b: App) -> bool {
    &&& a.messages == b.messages
    &&& a.streaming_text == b.streaming_text
    &&& a.tool_calls_in_flight == b.tool_calls_in_flight
    &&& a.history == b.history
    &&& a.history_pos == b.history_pos
    &&& a.scroll == b.scroll
    &&& a.auto_scroll == b.auto_scroll
    &&& a.tools_count == b.tools_count
    &&& a.model_name == b.model_name
    &&& a.token_count == b.token_count
    &&& a.active_tool_name == b.active_tool_name
    &&& a.toast == b.toast
    &&& a.toast_ticks == b.toast_ticks
    &&& a.selection == b.selection
    &&& a.mouse_selecting == b.mouse_selecting
    &&& a.msg_line_map == b.msg_line_map
    &&& a.msg_area_y == b.msg_area_y
    &&& a.msg_area_height == b.msg_area_height
    &&& a.exit == b.exit
}

/// The effect of Enter: a non-blank input line, trimmed, is submitted,
/// shown and kept in the history (unless it repeats the last entry).
pub open spec fn submitted(r: AppAction, before: App, after: App) -> bool {
    let t = trimmed(before.input@);
    if t.len() == 0 {
        r is Nothing && after == before
    } else {
        let h = history_view(before.history@);
        let h2 = if h.len() == 0 || h.last() != t { h.push(t) } else { h };
        &&& history_view(after.history@) == h2
        &&& after.history_pos == h2.len()
        &&& after.messages@.len() == before.messages@.len() + 1
        &&& after.messages@.subrange(0, before.messages@.len() as int) == before.messages@
        &&& after.messages@.last().kind is User
        &&& after.messages@.last().content@ == t
        &&& after.input@.len() == 0
        &&& after.input_cursor == 0
        &&& after.auto_scroll
        &&& after.streaming_text matches Some(s) && s@.len() == 0
        &&& after.tool_calls_in_flight@.len() == 0
        &&& after.active_tool_name is None
        &&& after.exit == before.exit
        &&& after.selection == before.selection
        &&& r matches AppAction::Submit(v) && v@.len() == 1 && v@[0].role == Role::User && v@[0].content@ == t
            && v@[0].tool_calls is None && v@[0].tool_call_id is None && v@[0].name is None
    }
}

/// The effect of Up and Down: browse the history, Down past the newest
/// entry clearing the line.
pub open spec fn browsed(up: bool, before: App, after: App) -> bool {
    let h = history_view(before.history@);
    let p = before.history_pos as int;
    let (np, line): (int, Seq<char>) = if up {
        if p > 0 { (p - 1, h[p - 1]) } else { (p, before.input@) }
    } else {
        if p + 1 < h.len() { (p + 1, h[p + 1]) } else { (h.len() as int, Seq::<char>::empty()) }
    };
    &&& after.history_pos == np
    &&& after.input@ == line
    &&& after.input_cursor == if !up || p > 0 { utf8_len(line) } else { before.input_cursor as int }
    &&& after.messages == before.messages
    &&& after.history == before.history
    &&& after.selection == before.selection
    &&& after.exit == before.exit
}

impl App {
    fn submit_input(&mut self) -> (r: AppAction)
        requires
            old(self).consistent(),
        ensures
            final(self).consistent(),
            submitted(r, *old(self), *final(self)),
    {
        let t = trim_chars(self.input.as_slice());
        if t.len() == 0 {
            return AppAction::Nothing;
        }
        proof {
            lemma_utf8_trimmed(self.input@);
        }
        let text = string_from_chars(t.as_slice());
        let repeat = self.history.len() > 0 && same_text(self.history[self.history.len() - 1].as_str(), text.as_str());
        let ghost h = history_view(self.history@);
        if !repeat {
            let ghost before = self.history@;
            self.history.push(text.clone());
            proof {
                assert(history_view(self.history@) =~= h.push(text@));
                assert forall|i: int| 0 <= i < self.history@.len() implies utf8_len(
                    #[trigger] self.history@[i]@,
                ) <= usize::MAX by {
                    if i < before.len() {
                        assert(self.history@[i] == before[i]);
                    }
                }
            }
        }
        proof {
            assert(utf8_len(Seq::<char>::empty()) == 0);
        }
        self.history_pos = self.history.len();
        self.messages.push(DisplayMessage { kind: MsgKind::User, content: text.clone() });
        self.input = Vec::new();
        self.input_cursor = 0;
        self.auto_scroll = true;
        self.streaming_text = Some(String::new());
        self.tool_calls_in_flight = Vec::new();
        self.active_tool_name = None;
        let mut v: Vec<Message> = Vec::new();
        v.push(Message::text(Role::User, text));
        proof {
            assert(self.messages@.subrange(0, old(self).messages@.len() as int) =~= old(self).messages@);
        }
        AppAction::Submit(v)
    }

    fn browse_history(&mut self, up: bool)
        requires
            old(self).consistent(),
        ensures
            final(self).consistent(),
            browsed(up, *old(self), *final(self)),
    {
        if up {
            if self.history_pos > 0 {
                self.history_pos = self.history_pos - 1;
                self.input = crate::text::chars_of(self.history[self.history_pos].as_str());
                proof {
                    lemma_utf8_take_all(self.input@);
                }
                self.input_cursor = utf8_prefix_len(self.input.as_slice(), self.input.len());
            }
        } else {
            if self.history_pos < self.history.len() && self.history_pos + 1 < self.history.len() {
                self.history_pos = self.history_pos + 1;
                self.input = crate::text::chars_of(self.history[self.history_pos].as_str());
                proof {
                    lemma_utf8_take_all(self.input@);
                }
                self.input_cursor = utf8_prefix_len(self.input.as_slice(), self.input.len());
            } else {
                self.history_pos = self.history.len();
                self.input = Vec::new();
                self.input_cursor = 0;
                proof {
                    assert(utf8_len(self.input@) == 0);
                }
            }
        }
    }

    fn edit_input(&mut self, code: KeyCode)
        requires
            old(self).consistent(),
            is_edit_key(code),
            edit_defined(old(self).input@, old(self).input_cursor as int, code),
            utf8_len(old(self).input@) + 4 <= usize::MAX,
        ensures
            final(self).consistent(),
            (final(self).input@, final(self).input_cursor as int) == edit(old(self).input@, old(self).input_cursor as int, code),
            same_but_input(*old(self), *final(self)),
    {
        let ghost s = self.input@;
        proof {
            lemma_utf8_take_all(s);
        }
        let len = utf8_prefix_len(self.input.as_slice(), self.input.len());
        match code {
            KeyCode::Backspace => {
                if self.input_cursor > 0 {
                    let i = match char_at_byte(self.input.as_slice(), self.input_cursor - 1) {
                        Some(i) => i,
                        None => {
                            assert(false);
                            0
                        },
                    };
                    proof {
                        lemma_remove_utf8(s, i as int);
                    }
                    self.input.remove(i);
                    self.input_cursor = self.input_cursor - 1;
                }
            },
            KeyCode::Delete => {
                if self.input_cursor < len {
                    let i = match char_at_byte(self.input.as_slice(), self.input_cursor) {
                        Some(i) => i,
                        None => {
                            assert(false);
                            0
                        },
                    };
                    proof {
                        lemma_remove_utf8(s, i as int);
                    }
                    self.input.remove(i);
                }
            },
            KeyCode::Left => {
                if self.input_cursor > 0 {
                    self.input_cursor = self.input_cursor - 1;
                }
            },
            KeyCode::Right => {
                if self.input_cursor < len {
                    self.input_cursor = self.input_cursor + 1;
                }
            },
            KeyCode::Home => {
                self.input_cursor = 0;
            },
            KeyCode::End => {
                self.input_cursor = len;
            },
            KeyCode::Char(c) => {
                let i = match char_at_byte(self.input.as_slice(), self.input_cursor) {
                    Some(i) => i,
                    None => {
                        assert(false);
                        0
                    },
                };
                proof {
                    lemma_insert_utf8(s, i as int, c);
                }
                self.input.insert(i, c);
                self.input_cursor = self.input_cursor + 1;
            },
            _ => {},
        }
    }

    /// Whether the key can be handled: an editing key must act where a
    /// character starts (Ctrl+C, Ctrl+Y and Ctrl+V do not edit).
    pub open spec fn key_defined(&self, key: KeyPress) -> bool {
        let special = key.ctrl && (key.code == KeyCode::Char('c') || key.code == KeyCode::Char('y')
            || key.code == KeyCode::Char('v'));
        !special ==> edit_defined(self.input@, self.input_cursor as int, key.code)
    }

    /// Whether `key_defined` holds.
    pub fn can_handle_key(&self, key: KeyPress) -> (r: bool)
        requires
            self.consistent(),
        ensures
            r == self.key_defined(key),
    {
        if key.ctrl && (key.code == KeyCode::Char('c') || key.code == KeyCode::Char('y')
            || key.code == KeyCode::Char('v')) {
            return true;
        }
        let cs = self.input.as_slice();
        let k = self.input_cursor;
        let ok = match key.code {
            KeyCode::Backspace => {
                if k == 0 {
                    true
                } else {
                    let found = char_at_byte(cs, k - 1);
                    found.is_some()
                }
            },
            KeyCode::Delete => k >= utf8_prefix_len(cs, cs.len()) || char_at_byte(cs, k).is_some(),
            KeyCode::Char(_) => char_at_byte(cs, k).is_some(),
            _ => true,
        };
        proof {
            lemma_utf8_take_all(self.input@);
        }
        ok
    }

    /// Handles a key press.
    ///
    /// Ctrl+C copies the selection (or everything), Ctrl+Y the last reply,
    /// Ctrl+V asks for a paste; Esc clears the selection or quits; Enter
    /// submits the line; Up and Down browse the history; Page Up and Page
    /// Down scroll; other keys edit the line.
    pub fn handle_key(&mut self, key: KeyPress) -> (r: AppAction)
        requires
            old(self).consistent(),
            utf8_len(old(self).input@) + 4 <= usize::MAX,
            old(self).key_defined(key),
        ensures
            final(self).consistent(),
            if key.ctrl && key.code == KeyCode::Char('c') {
                if old(self).selection is Some {
                    &&& same_content(*old(self), *final(self))
                    &&& final(self).selection is None
                    &&& copied(r, *old(self), *final(self), selected_text(*old(self))->0)
                } else {
                    &&& same_content(*old(self), *final(self))
                    &&& copied(r, *old(self), *final(self), all_text(*old(self)))
                }
            } else if key.ctrl && key.code == KeyCode::Char('y') {
                &&& same_content(*old(self), *final(self))
                &&& match last_reply_text(*old(self)) {
                    Some(t) => r matches AppAction::Copy(c) && c@ == t,
                    None => r is Nothing,
                }
            } else if key.ctrl && key.code == KeyCode::Char('v') {
                r is Paste && *final(self) == *old(self)
            } else {
                match key.code {
                    KeyCode::Esc => r is Nothing && if old(self).selection is Some {
                        *final(self) == (App { selection: None, ..*old(self) })
                    } else {
                        *final(self) == (App { exit: true, ..*old(self) })
                    },
                    KeyCode::Enter => submitted(r, *old(self), *final(self)),
                    KeyCode::Up => r is Nothing && browsed(true, *old(self), *final(self)),
                    KeyCode::Down => r is Nothing && browsed(false, *old(self), *final(self)),
                    KeyCode::PageUp => r is Nothing && *final(self) == (App {
                        scroll: if old(self).scroll as int + 5 > u16::MAX { u16::MAX } else { (old(self).scroll + 5) as u16 },
                        auto_scroll: false,
                        ..*old(self)
                    }),
                    KeyCode::PageDown => r is Nothing && *final(self) == (App {
                        scroll: if old(self).scroll < 5 { 0 } else { (old(self).scroll - 5) as u16 },
                        ..*old(self)
                    }),
                    KeyCode::Other => r is Nothing && *final(self) == *old(self),
                    _ => {
                        &&& r is Nothing
                        &&& (final(self).input@, final(self).input_cursor as int) == edit(
                            old(self).input@,
                            old(self).input_cursor as int,
                            key.code,
                        )
                        &&& same_but_input(*old(self), *final(self))
                    },
                }
            },
    {
        if key.ctrl {
            match key.code {
                KeyCode::Char('c') => {
                    if self.selection.is_some() {
                        return self.copy_selected_messages();
                    } else {
                        return self.copy_all_messages();
                    }
                },
                KeyCode::Char('y') => {
                    return self.copy_last_assistant();
                },
                KeyCode::Char('v') => {
                    return AppAction::Paste;
                },
                _ => {},
            }
        }
        match key.code {
            KeyCode::Esc => {
                if self.selection.is_some() {
                    self.selection = None;
                } else {
                    self.exit = true;
                }
                AppAction::Nothing
            },
            KeyCode::Enter => self.submit_input(),
            KeyCode::Up => {
                self.browse_history(true);
                AppAction::Nothing
            },
            KeyCode::Down => {
                self.browse_history(false);
                AppAction::Nothing
            },
            KeyCode::PageUp => {
                self.scroll = self.scroll.saturating_add(5);
                self.auto_scroll = false;
                AppAction::Nothing
            },
            KeyCode::PageDown => {
                self.scroll = self.scroll.saturating_sub(5);
                AppAction::Nothing
            },
            KeyCode::Other => AppAction::Nothing,
            code => {
                self.edit_input(code);
                AppAction::Nothing
            },
        }
    }
}

/// The position of the first `name` in `names`, if any.
pub open spec fn first_named(names: Seq<String>, name: Seq<char>, i: int) -> bool {
    0 <= i < names.len() && names[i]@ == name && forall|j: int| 0 <= j < i ==> names[j]@ != name
}

/// `after` is `before` with one more entry at the end.
pub open spec fn appended(before: Seq<DisplayMessage>, after: Seq<DisplayMessage>) -> bool {
    after.len() == before.len() + 1 && after.subrange(0, before.len() as int) == before
}

/// The position of the first `name` in `names`, if any.
fn find_name(names: &Vec<String>, name: &str) -> (r: Option<usize>)
    ensures
        match r {
            Some(i) => first_named(names@, name@, i as int),
            None => forall|j: int| 0 <= j < names@.len() ==> names@[j]@ != name@,
        },
{
    let mut i: usize = 0;
    while i < names.len()
        invariant
            i <= names@.len(),
            forall|j: int| 0 <= j < i ==> names@[j]@ != name@,
        decreases names@.len() - i,
    {
        if same_text(names[i].as_str(), name) {
            return Some(i);
        }
        i = i + 1;
    }
    None
}

impl App {
    /// Applies an event of the running turn to the screen.
    pub fn handle_event(&mut self, ev: UiEvent)
        requires
            old(self).consistent(),
        ensures
            final(self).consistent(),
            final(self).input@ == old(self).input@,
            final(self).input_cursor == old(self).input_cursor,
            final(self).history == old(self).history,
            final(self).selection == old(self).selection,
            final(self).exit == old(self).exit,
            match ev {
                UiEvent::Ready { tools, model } => final(self).tools_count == tools && final(self).model_name == model
                    && final(self).messages == old(self).messages,
                UiEvent::Token(t) => {
                    &&& final(self).messages == old(self).messages
                    &&& final(self).active_tool_name is None
                    &&& match old(self).streaming_text {
                        Some(s) => final(self).streaming_text matches Some(s2) && s2@ == s@ + t@,
                        None => final(self).streaming_text is None,
                    }
                },
                UiEvent::ToolCall(c) => {
                    &&& final(self).messages == old(self).messages
                    &&& final(self).tool_calls_in_flight@.len() == old(self).tool_calls_in_flight@.len() + 1
                    &&& final(self).tool_calls_in_flight@.subrange(0, old(self).tool_calls_in_flight@.len() as int)
                        == old(self).tool_calls_in_flight@
                    &&& final(self).tool_calls_in_flight@.last()@ == c.function.name@
                    &&& final(self).active_tool_name matches Some(n) && n@ == c.function.name@
                },
                UiEvent::ToolResult { name, content, is_error } => {
                    &&& appended(old(self).messages@, final(self).messages@)
                    &&& final(self).messages@.last().kind == (MsgKind::ToolResult { content, is_error })
                    &&& final(self).messages@.last().content@.len() == 0
                    &&& final(self).active_tool_name is None
                    &&& if exists|i: int| first_named(old(self).tool_calls_in_flight@, name@, i) {
                        let i = choose|i: int| first_named(old(self).tool_calls_in_flight@, name@, i);
                        final(self).tool_calls_in_flight@ == old(self).tool_calls_in_flight@.remove(i)
                    } else {
                        final(self).tool_calls_in_flight@ == old(self).tool_calls_in_flight@
                    }
                },
                UiEvent::Done { usage } => {
                    &&& appended(old(self).messages@, final(self).messages@)
                    &&& final(self).messages@.last().kind is Assistant
                    &&& final(self).messages@.last().content@ == match old(self).streaming_text {
                        Some(s) => s@,
                        None => Seq::<char>::empty(),
                    }
                    &&& final(self).streaming_text is None
                    &&& final(self).token_count == match usage {
                        Some(u) => u.total_tokens,
                        None => old(self).token_count,
                    }
                    &&& final(self).tool_calls_in_flight@.len() == 0
                    &&& final(self).active_tool_name is None
                },
                UiEvent::Error(m) => {
                    &&& appended(old(self).messages@, final(self).messages@)
                    &&& final(self).messages@.last().kind == MsgKind::Error(m)
                    &&& final(self).messages@.last().content@.len() == 0
                    &&& final(self).streaming_text is None
                    &&& final(self).tool_calls_in_flight@.len() == 0
                    &&& final(self).active_tool_name is None
                },
            },
    {
        let ghost before = self.messages@;
        match ev {
            UiEvent::Ready { tools, model } => {
                self.tools_count = tools;
                self.model_name = model;
            },
            UiEvent::Token(t) => {
                match &self.streaming_text {
                    Some(s) => {
                        let mut s2 = s.clone();
                        push_str(&mut s2, t.as_str());
                        self.streaming_text = Some(s2);
                    },
                    None => {},
                }
                self.active_tool_name = None;
            },
            UiEvent::ToolCall(c) => {
                let name = c.function.name;
                self.tool_calls_in_flight.push(name.clone());
                self.active_tool_name = Some(name);
            },
            UiEvent::ToolResult { name, content, is_error } => {
                let found = find_name(&self.tool_calls_in_flight, name.as_str());
                let ghost old_flight = self.tool_calls_in_flight@;
                match found {
                    Some(k) => {
                        proof {
                            assert(first_named(old_flight, name@, k as int));
                            let c = choose|c: int| first_named(old_flight, name@, c);
                            if c < k { assert(old_flight[c]@ != name@); }
                            if k < c { assert(old_flight[k as int]@ != name@); }
                        }
                        self.tool_calls_in_flight.remove(k);
                    },
                    None => {
                        proof {
                            assert forall|c: int| !first_named(old_flight, name@, c) by {
                                if 0 <= c < old_flight.len() { assert(old_flight[c]@ != name@); }
                            }
                        }
                    },
                }
                self.messages.push(DisplayMessage { kind: MsgKind::ToolResult { content, is_error }, content: String::new() });
                self.active_tool_name = None;
            },
            UiEvent::Done { usage } => {
                let text = match self.streaming_text.take() {
                    Some(t) => t,
                    None => String::new(),
                };
                self.messages.push(DisplayMessage { kind: MsgKind::Assistant, content: text });
                match usage {
                    Some(u) => {
                        self.token_count = u.total_tokens;
                    },
                    None => {},
                }
                self.tool_calls_in_flight = Vec::new();
                self.active_tool_name = None;
            },
            UiEvent::Error(m) => {
                self.streaming_text = None;
                self.messages.push(DisplayMessage { kind: MsgKind::Error(m), content: String::new() });
                self.tool_calls_in_flight = Vec::new();
                self.active_tool_name = None;
            },
        }
        proof {
            if self.messages@.len() == before.len() + 1 {
                assert(self.messages@.subrange(0, before.len() as int) =~= before);
            }
        }
    }

    /// Handles a mouse event: a left press selects the entry under it, a
    /// drag extends the selection (to the first entry when above the
    /// transcript), and the release copies the selection.
    pub fn handle_mouse(&mut self, mouse: MouseInput) -> (r: AppAction)
        requires
            old(self).consistent(),
            i16::MIN <= row_offset(mouse.row, old(self).msg_area_y) <= i16::MAX,
            i16::MIN <= row_offset(mouse.row, old(self).msg_area_y) + (old(self).scroll as i16) as int <= i16::MAX,
        ensures
            final(self).consistent(),
            ({
                let y = row_offset(mouse.row, old(self).msg_area_y);
                let line = y + (old(self).scroll as i16) as int;
                let inside = y >= 0 && 0 <= line < old(self).msg_line_map@.len();
                match mouse.kind {
                    MouseKind::LeftDown => {
                        &&& r is Nothing
                        &&& inside ==> *final(self) == (App {
                            selection: Some((old(self).msg_line_map@[line], old(self).msg_line_map@[line])),
                            mouse_selecting: true,
                            ..*old(self)
                        })
                        &&& !inside ==> *final(self) == (App { selection: None, mouse_selecting: false, ..*old(self) })
                    },
                    MouseKind::LeftDrag => r is Nothing && if !old(self).mouse_selecting {
                        *final(self) == *old(self)
                    } else if inside {
                        let m = old(self).msg_line_map@[line];
                        *final(self) == (App {
                            selection: match old(self).selection { Some((a, _)) => Some((a, m)), None => None },
                            ..*old(self)
                        })
                    } else if y < 0 {
                        *final(self) == (App {
                            selection: match old(self).selection { Some((a, _)) => Some((a, 0)), None => None },
                            ..*old(self)
                        })
                    } else {
                        *final(self) == *old(self)
                    },
                    MouseKind::LeftUp => if old(self).mouse_selecting && old(self).selection is Some {
                        &&& !final(self).mouse_selecting
                        &&& final(self).selection is None
                        &&& same_content(*old(self), *final(self))
                        &&& copied(r, *old(self), *final(self), selected_text(*old(self))->0)
                    } else {
                        r is Nothing && *final(self) == *old(self)
                    },
                    _ => r is Nothing && *final(self) == *old(self),
                }
            }),
    {
        if let MouseKind::Moved = mouse.kind {
            return AppAction::Nothing;
        }
        let y: i16 = (mouse.row as i16) - (self.msg_area_y as i16);
        let sum: i16 = y + (self.scroll as i16);
        let inside = y >= 0 && sum >= 0 && (sum as usize) < self.msg_line_map.len();
        assert(y as int == row_offset(mouse.row, self.msg_area_y));
        assert(sum as int == y as int + (self.scroll as i16) as int);
        assert(sum >= 0 ==> (sum as usize) as int == sum as int);
        match mouse.kind {
            MouseKind::LeftDown => {
                if !inside {
                    self.selection = None;
                    self.mouse_selecting = false;
                    return AppAction::Nothing;
                }
                let m = self.msg_line_map[sum as usize];
                self.selection = Some((m, m));
                self.mouse_selecting = true;
                AppAction::Nothing
            },
            MouseKind::LeftDrag => {
                if !self.mouse_selecting {
                    return AppAction::Nothing;
                }
                if !inside {
                    if y < 0 {
                        self.selection = match self.selection { Some((a, _)) => Some((a, 0)), None => None };
                    }
                    return AppAction::Nothing;
                }
                let m = self.msg_line_map[sum as usize];
                self.selection = match self.selection { Some((a, _)) => Some((a, m)), None => None };
                AppAction::Nothing
            },
            MouseKind::LeftUp => {
                if self.mouse_selecting && self.selection.is_some() {
                    self.mouse_selecting = false;
                    self.copy_selected_messages()
                } else {
                    AppAction::Nothing
                }
            },
            _ => AppAction::Nothing,
        }
    }
}
/// Typing a character where one starts and then Backspace leaves the
/// input line and the cursor as they were.
pub proof fn law_type_then_backspace(input: Seq<char>, cursor: int, c: char)
    requires
        at_boundary(input, cursor),
    ensures
        ({
            let (typed, at) = edit(input, cursor, KeyCode::Char(c));
            edit(typed, at, KeyCode::Backspace)
        }) == (input, cursor),
{
    lemma_boundary_prefix(input, cursor);
    let i = byte_index(input, cursor);
    let typed = input.insert(i, c);
    lemma_insert_utf8(input, i, c);
    lemma_byte_index(typed, i);
    assert(cursor >= 0) by {
        lemma_utf8_take_all(input.take(i));
    }
    assert(typed.remove(i) =~= input);
}

/// Moving right and then left returns the cursor, when it can move right.
pub proof fn law_right_then_left(input: Seq<char>, cursor: int)
    requires
        0 <= cursor < utf8_len(input),
    ensures
        ({
            let (i1, c1) = edit(input, cursor, KeyCode::Right);
            edit(i1, c1, KeyCode::Left)
        }) == (input, cursor),
{
}

/// Home and End do not change the input line; End puts the cursor after
/// its last byte.
pub proof fn law_home_end_keep_input(input: Seq<char>, cursor: int)
    ensures
        edit(input, cursor, KeyCode::Home).0 == input,
        edit(input, cursor, KeyCode::End).0 == input,
        edit(input, cursor, KeyCode::End).1 == utf8_len(input),
{
}

/// On an ASCII input line, editing with ASCII keys is editing characters:
/// every editing key can act at any cursor within the line; the line stays
/// ASCII with the cursor within it; a character goes in at the cursor,
/// which moves one on; Backspace removes the character before the cursor
/// and Delete the one at it; the arrows, Home and End leave the line as it
/// is.
pub proof fn law_ascii_editing(input: Seq<char>, cursor: int, code: KeyCode)
    requires
        is_ascii_text(input),
        0 <= cursor <= input.len(),
        code matches KeyCode::Char(c) ==> (c as u32) < 128,
    ensures
        edit_defined(input, cursor, code),
        is_ascii_text(edit(input, cursor, code).0),
        0 <= edit(input, cursor, code).1 <= edit(input, cursor, code).0.len(),
        code matches KeyCode::Char(c) ==> edit(input, cursor, code) == (input.insert(cursor, c), cursor + 1),
        code is Backspace && cursor > 0 ==> edit(input, cursor, code) == (input.remove(cursor - 1), cursor - 1),
        code is Delete && cursor < input.len() ==> edit(input, cursor, code) == (input.remove(cursor), cursor),
        (code is Left || code is Right || code is Home || code is End) ==> edit(input, cursor, code).0 == input,
{
    lemma_ascii_bytes(input);
    assert(at_boundary(input, cursor));
    assert(byte_index(input, cursor) == cursor);
    if cursor > 0 {
        assert(at_boundary(input, cursor - 1));
        assert(byte_index(input, cursor - 1) == cursor - 1);
    }
    let out = edit(input, cursor, code);
    assert forall|i: int| 0 <= i < out.0.len() implies (#[trigger] out.0[i] as u32) < 128 by {
        match code {
            KeyCode::Char(c) => {
                if i < cursor {
                    assert(out.0[i] == input[i]);
                } else if i > cursor {
                    assert(out.0[i] == input[i - 1]);
                }
            },
            KeyCode::Backspace => {
                if cursor > 0 {
                    if i < cursor - 1 {
                        assert(out.0[i] == input[i]);
                    } else {
                        assert(out.0[i] == input[i + 1]);
                    }
                }
            },
            KeyCode::Delete => {
                if cursor < input.len() {
                    if i < cursor {
                        assert(out.0[i] == input[i]);
                    } else {
                        assert(out.0[i] == input[i + 1]);
                    }
                }
            },
            _ => {},
        }
    }
}

} // verus!
