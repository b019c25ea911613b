//! The chat endpoint's wire protocol: the messages a client sends, and the
//! run events (AG-UI) into which a turn's session events are translated.
use vstd::prelude::*;
use crate::config::ResolvedConfig;
use crate::llm::{Message, Role, ToolCall, role_of_name};
use crate::session::SessionEvent;
use crate::text::{decimal, opt_text, owned, push_decimal, push_str, same_text};

verus! {

/// An event of a run, as sent to the client.
#[derive(Debug)]
pub enum SseEvent {
    RunStarted { thread_id: String, run_id: String },
    TextMessageStart { message_id: String },
    TextMessageContent { message_id: String, delta: String },
    TextMessageEnd { message_id: String },
    ToolCallStart { tool_call_id: String, tool_call_name: String },
    ToolCallArgs { tool_call_id: String, delta: String },
    /// `input` is the call's arguments as the model gave them (JSON text).
    ToolCallEnd { tool_call_id: String, input: String, result: String },
    RunFinished { thread_id: String, run_id: String, finish_reason: String },
    RunError { thread_id: String, run_id: String, message: String },
}

/// Whether a text message is open after `e`, starting from `open`; `None`
/// when `e` is out of place: content or an end with no message open, or,
/// while one is open, a start or any other event but a tool call's end.
pub open spec fn step_open(open: Option<bool>, e: SseEvent) -> Option<bool> {
    match open {
        None => None,
        Some(o) => match e {
            SseEvent::TextMessageStart { .. } => if o { None } else { Some(true) },
            SseEvent::TextMessageContent { .. } => if o { Some(true) } else { None },
            SseEvent::TextMessageEnd { .. } => if o { Some(false) } else { None },
            SseEvent::ToolCallEnd { .. } => Some(o),
            _ => if o { None } else { Some(false) },
        },
    }
}

/// `step_open` over a run of events.
pub open spec fn run_open(open: Option<bool>, evs: Seq<SseEvent>) -> Option<bool>
    decreases evs.len(),
{
    if evs.len() == 0 {
        open
    } else {
        run_open(step_open(open, evs[0]), evs.drop_first())
    }
}

/// Running one more event extends the run's result by one step.
pub proof fn lemma_run_open_push(open: Option<bool>, evs: Seq<SseEvent>, e: SseEvent)
    ensures
        run_open(open, evs.push(e)) == step_open(run_open(open, evs), e),
    decreases evs.len(),
{
    if evs.len() > 0 {
        assert(evs.push(e)[0] == evs[0]);
        assert(evs.push(e).drop_first() =~= evs.drop_first().push(e));
        lemma_run_open_push(step_open(open, evs[0]), evs.drop_first(), e);
    } else {
        assert(evs.push(e)[0] == e);
        assert(evs.push(e).drop_first() =~= Seq::<SseEvent>::empty());
        assert(run_open(step_open(open, e), Seq::<SseEvent>::empty()) == step_open(open, e));
    }
}

/// Text messages stay well bracketed across runs of events sent one after
/// another: running two runs in turn is running them together.
pub proof fn law_run_open_concat(open: Option<bool>, a: Seq<SseEvent>, b: Seq<SseEvent>)
    ensures
        run_open(open, a + b) == run_open(run_open(open, a), b),
    decreases a.len(),
{
    if a.len() > 0 {
        assert((a + b)[0] == a[0]);
        assert((a + b).drop_first() =~= a.drop_first() + b);
        law_run_open_concat(step_open(open, a[0]), a.drop_first(), b);
    } else {
        assert(a + b =~= b);
    }
}

/// Over a whole run, text messages stay well bracketed: when each step's
/// events take the open state from one step to the next, as `on_event`
/// states for every call, all the events sent, in order, take the run's
/// first state to its last, and none of them is ever out of place.
pub proof fn law_run_bracketed(opens: Seq<bool>, outs: Seq<Seq<SseEvent>>)
    requires
        opens.len() == outs.len() + 1,
        forall|i: int| 0 <= i < outs.len() ==> run_open(Some(opens[i]), #[trigger] outs[i]) == Some(opens[i + 1]),
    ensures
        run_open(Some(opens[0]), outs.flatten()) == Some(opens.last()),
    decreases outs.len(),
{
    if outs.len() > 0 {
        let rest_opens = opens.drop_first();
        let rest = outs.drop_first();
        assert forall|i: int| 0 <= i < rest.len() implies run_open(Some(rest_opens[i]), #[trigger] rest[i])
            == Some(rest_opens[i + 1]) by {
            assert(rest[i] == outs[i + 1]);
        }
        law_run_bracketed(rest_opens, rest);
        law_run_open_concat(Some(opens[0]), outs[0], rest.flatten());
    }
}

/// Over a whole run, only the very last event sent can end it: when no
/// step but the last sends an ending event, and the last sends one only as
/// its last event, as `on_event` states for every call before and at the
/// end of a run, no event before the last of all the events sent ends it.
pub proof fn law_run_ends_last(outs: Seq<Seq<SseEvent>>)
    requires
        forall|i: int, k: int| 0 <= i < outs.len() - 1 && 0 <= k < outs[i].len() ==> !is_terminal(#[trigger] outs[i][k]),
        outs.len() > 0 ==> forall|k: int| 0 <= k < outs.last().len() - 1 ==> !is_terminal(#[trigger] outs.last()[k]),
    ensures
        forall|k: int| 0 <= k < outs.flatten().len() - 1 ==> !is_terminal(#[trigger] outs.flatten()[k]),
    decreases outs.len(),
{
    if outs.len() > 0 {
        let rest = outs.drop_first();
        let flat = outs.flatten();
        assert(flat == outs[0] + rest.flatten());
        if outs.len() == 1 {
            assert(rest.flatten() =~= Seq::<SseEvent>::empty());
            assert(flat =~= outs[0]);
            assert(outs.last() == outs[0]);
        } else {
            assert forall|i: int, k: int| 0 <= i < rest.len() - 1 && 0 <= k < rest[i].len() implies !is_terminal(
                #[trigger] rest[i][k],
            ) by {
                assert(rest[i] == outs[i + 1]);
            }
            assert(rest.last() == outs.last());
            law_run_ends_last(rest);
            assert forall|k: int| 0 <= k < flat.len() - 1 implies !is_terminal(#[trigger] flat[k]) by {
                if k < outs[0].len() {
                    assert(flat[k] == outs[0][k]);
                } else {
                    assert(flat[k] == rest.flatten()[k - outs[0].len()]);
                }
            }
        }
    }
}

/// A step that starts no text message, or one numbered `after`, the number
/// of messages started once it is done.
pub open spec fn numbered_step(before: nat, after: nat, out: Seq<SseEvent>) -> bool {
    ||| after == before && start_ids(out) == Seq::<Seq<char>>::empty()
    ||| after == before + 1 && start_ids(out) == seq![message_id(after)]
}

/// Over a whole run, text messages are numbered in order: when each step
/// starts no message, or one numbered one past the messages started before
/// it, as `on_event` states for every call, the messages started over the
/// run carry the ids `msg_1`, `msg_2`, ... in order, counting on from the
/// messages started before the run.
pub proof fn law_run_ids_in_order(counts: Seq<nat>, outs: Seq<Seq<SseEvent>>)
    requires
        counts.len() == outs.len() + 1,
        forall|i: int| 0 <= i < outs.len() ==> numbered_step(counts[i], counts[i + 1], #[trigger] outs[i]),
    ensures
        counts[0] <= counts.last(),
        start_ids(outs.flatten()) == Seq::new(
            (counts.last() - counts[0]) as nat,
            |k: int| message_id((counts[0] + k + 1) as nat),
        ),
    decreases outs.len(),
{
    if outs.len() == 0 {
        assert(start_ids(outs.flatten()) =~= Seq::new(
            (counts.last() - counts[0]) as nat,
            |k: int| message_id((counts[0] + k + 1) as nat),
        ));
    } else {
        let rest = outs.drop_first();
        let rest_counts = counts.drop_first();
        assert forall|i: int| 0 <= i < rest.len() implies numbered_step(rest_counts[i], rest_counts[i + 1], #[trigger] rest[i]) by {
            assert(rest[i] == outs[i + 1]);
            assert(rest_counts[i] == counts[i + 1] && rest_counts[i + 1] == counts[i + 2]);
        }
        law_run_ids_in_order(rest_counts, rest);
        assert(outs.flatten() == outs[0] + rest.flatten());
        lemma_start_ids_concat(outs[0], rest.flatten());
        assert(rest_counts.last() == counts.last());
        let tail = Seq::new(
            (counts.last() - counts[1]) as nat,
            |k: int| message_id((counts[1] + k + 1) as nat),
        );
        let all = Seq::new((counts.last() - counts[0]) as nat, |k: int| message_id((counts[0] + k + 1) as nat));
        assert(start_ids(rest.flatten()) == tail);
        assert(numbered_step(counts[0], counts[1], outs[0]));
        if counts[1] == counts[0] {
            assert(start_ids(outs[0]) + tail =~= all);
        } else {
            assert(start_ids(outs[0]) == seq![message_id(counts[1])]);
            assert(start_ids(outs[0]) + tail =~= all);
        }
    }
}

/// A run that ran into an event out of place stays out of place.
pub proof fn law_out_of_place_is_final(evs: Seq<SseEvent>)
    ensures
        run_open(None, evs) is None,
    decreases evs.len(),
{
    if evs.len() > 0 {
        law_out_of_place_is_final(evs.drop_first());
    }
}

/// The id of the `n`th text message of a run.
pub open spec fn message_id(n: nat) -> Seq<char> {
    "msg_"@ + decimal(n)
}

/// The id of the text message that an event starts, if it starts one.
pub open spec fn start_of(e: SseEvent) -> Seq<Seq<char>> {
    match e {
        SseEvent::TextMessageStart { message_id } => seq![message_id@],
        _ => Seq::empty(),
    }
}

/// The ids of the text messages that a run of events starts, in order.
pub open spec fn start_ids(evs: Seq<SseEvent>) -> Seq<Seq<char>>
    decreases evs.len(),
{
    if evs.len() == 0 {
        Seq::empty()
    } else {
        start_of(evs[0]) + start_ids(evs.drop_first())
    }
}

/// The messages started by two runs of events sent one after the other are
/// those of the first, then those of the second.
pub proof fn lemma_start_ids_concat(a: Seq<SseEvent>, b: Seq<SseEvent>)
    ensures
        start_ids(a + b) == start_ids(a) + start_ids(b),
    decreases a.len(),
{
    if a.len() > 0 {
        assert((a + b)[0] == a[0]);
        assert((a + b).drop_first() =~= a.drop_first() + b);
        lemma_start_ids_concat(a.drop_first(), b);
        let head = start_of(a[0]);
        assert(head + (start_ids(a.drop_first()) + start_ids(b)) =~= (head + start_ids(a.drop_first())) + start_ids(b));
    } else {
        assert(a + b =~= b);
        assert(start_ids(a) + start_ids(b) =~= start_ids(b));
    }
}

/// Whether the event ends the run.
pub open spec fn is_terminal(e: SseEvent) -> bool {
    e is RunFinished || e is RunError
}

/// The events open with the end of the text message that was open, if one
/// was.
pub open spec fn closes_text(t: SseTranslator, r: Seq<SseEvent>) -> bool {
    t.open() ==> r.len() > 0 && (r[0] matches SseEvent::TextMessageEnd { message_id: id }
        && id@ == message_id(t.started()))
}

/// Translates a turn's session events into run events.
pub struct SseTranslator {
    thread_id: String,
    run_id: String,
    in_message: bool,
    msg_counter: u32,
    pending: Vec<ToolCall>,
    finished: bool,
}

impl SseTranslator {
    pub closed spec fn thread(self) -> Seq<char> {
        self.thread_id@
    }

    pub closed spec fn run(self) -> Seq<char> {
        self.run_id@
    }

    /// Whether a text message is open.
    pub closed spec fn open(self) -> bool {
        self.in_message
    }

    /// How many text messages have been started.
    pub closed spec fn started(self) -> nat {
        self.msg_counter as nat
    }

    /// The tool calls announced and not yet answered, oldest first.
    pub closed spec fn pending_calls(self) -> Seq<ToolCall> {
        self.pending@
    }

    /// Whether the run has ended.
    pub closed spec fn done(self) -> bool {
        self.finished
    }

    /// A translator for one run.
    pub fn new(thread_id: String, run_id: String) -> (r: Self)
        ensures
            r.thread() == thread_id@,
            r.run() == run_id@,
            !r.open(),
            r.started() == 0,
            r.pending_calls().len() == 0,
            !r.done(),
    {
        SseTranslator { thread_id, run_id, in_message: false, msg_counter: 0, pending: Vec::new(), finished: false }
    }

    /// How many text messages have been started.
    pub fn message_count(&self) -> (r: u32)
        ensures
            r as nat == self.started(),
    {
        self.msg_counter
    }

    /// Whether the run has ended.
    pub fn is_done(&self) -> (r: bool)
        ensures
            r == self.done(),
    {
        self.finished
    }

    /// The event that opens the run.
    pub fn run_started(&self) -> (r: SseEvent)
        ensures
            r matches SseEvent::RunStarted { thread_id, run_id } && thread_id@ == self.thread()
                && run_id@ == self.run(),
    {
        SseEvent::RunStarted { thread_id: self.thread_id.clone(), run_id: self.run_id.clone() }
    }

    /// The run fails before it starts because the provider needs an API
    /// key and has none.
    pub fn missing_key_error(&mut self) -> (r: SseEvent)
        ensures
            final(self).done(),
            r matches SseEvent::RunError { thread_id, run_id, message } && thread_id@ == old(self).thread()
                && run_id@ == old(self).run() && message@ == "AA_LLM_API_KEY not set"@,
    {
        self.finished = true;
        SseEvent::RunError {
            thread_id: self.thread_id.clone(),
            run_id: self.run_id.clone(),
            message: owned("AA_LLM_API_KEY not set"),
        }
    }

    fn current_id(&self) -> (r: String)
        ensures
            r@ == message_id(self.msg_counter as nat),
    {
        let mut s = owned("msg_");
        push_decimal(&mut s, self.msg_counter as u64);
        s
    }

    /// Translates one session event. A turn's tokens are grouped into text
    /// messages; each tool call is announced and, when its result comes,
    /// ended (oldest first); the turn's end or error ends the run, closing
    /// an open text message first.
    pub fn on_event(&mut self, ev: SessionEvent) -> (r: Vec<SseEvent>)
        requires
            !old(self).done(),
            old(self).started() < u32::MAX,
        ensures
            final(self).thread() == old(self).thread(),
            final(self).run() == old(self).run(),
            run_open(Some(old(self).open()), r@) == Some(final(self).open()),
            final(self).done() ==> !final(self).open(),
            final(self).done() <==> (ev is Done || ev is Error),
            final(self).done() ==> r@.len() > 0 && is_terminal(r@.last()),
            forall|i: int| 0 <= i < r@.len() - 1 ==> !is_terminal(#[trigger] r@[i]),
            !final(self).done() ==> forall|i: int| 0 <= i < r@.len() ==> !is_terminal(#[trigger] r@[i]),
            final(self).started() == old(self).started() + if ev is Token && !old(self).open() { 1int } else { 0int },
            start_ids(r@) == if ev is Token && !old(self).open() {
                seq![message_id(final(self).started())]
            } else {
                Seq::<Seq<char>>::empty()
            },
            match ev {
                SessionEvent::Token(t) => {
                    &&& final(self).open()
                    &&& final(self).pending_calls() == old(self).pending_calls()
                    &&& r@.len() == if old(self).open() { 1int } else { 2int }
                    &&& !old(self).open() ==> (r@[0] matches SseEvent::TextMessageStart { message_id: id }
                        && id@ == message_id(final(self).started()))
                    &&& r@.last() matches SseEvent::TextMessageContent { message_id: id, delta }
                        && delta@ == t@ && id@ == message_id(final(self).started())
                },
                SessionEvent::ToolCall(c) => {
                    let k: int = if old(self).open() { 1 } else { 0 };
                    &&& !final(self).open()
                    &&& closes_text(*old(self), r@)
                    &&& final(self).pending_calls() == old(self).pending_calls().push(c)
                    &&& r@.len() == k + 2
                    &&& r@[k] matches SseEvent::ToolCallStart { tool_call_id, tool_call_name }
                        && tool_call_id@ == c.id@ && tool_call_name@ == c.function.name@
                    &&& r@[k + 1] matches SseEvent::ToolCallArgs { tool_call_id, delta }
                        && tool_call_id@ == c.id@ && delta@ == c.function.arguments@
                },
                SessionEvent::ToolResult { content, .. } => {
                    &&& final(self).open() == old(self).open()
                    &&& if old(self).pending_calls().len() > 0 {
                        &&& final(self).pending_calls() == old(self).pending_calls().drop_first()
                        &&& r@.len() == 1
                        &&& r@[0] matches SseEvent::ToolCallEnd { tool_call_id, input, result }
                            && tool_call_id@ == old(self).pending_calls()[0].id@
                            && input@ == old(self).pending_calls()[0].function.arguments@
                            && result@ == content@
                    } else {
                        &&& final(self).pending_calls() == old(self).pending_calls()
                        &&& r@.len() == 0
                    }
                },
                SessionEvent::Done { .. } => {
                    &&& closes_text(*old(self), r@)
                    &&& r@.len() == if old(self).open() { 2int } else { 1int }
                    &&& r@.last() matches SseEvent::RunFinished { thread_id, run_id, finish_reason }
                        && thread_id@ == old(self).thread() && run_id@ == old(self).run() && finish_reason@ == "stop"@
                },
                SessionEvent::Error(m) => {
                    &&& closes_text(*old(self), r@)
                    &&& r@.len() == if old(self).open() { 2int } else { 1int }
                    &&& r@.last() matches SseEvent::RunError { thread_id, run_id, message }
                        && thread_id@ == old(self).thread() && run_id@ == old(self).run() && message@ == m@
                },
            },
    {
        let mut out: Vec<SseEvent> = Vec::new();
        let ghost start = self.in_message;
        assert(run_open(Some(start), out@) == Some(self.in_message));
        match ev {
            SessionEvent::Token(t) => {
                if !self.in_message {
                    self.msg_counter = self.msg_counter + 1;
                    push_event(&mut out, SseEvent::TextMessageStart { message_id: self.current_id() });
                    self.in_message = true;
                }
                push_event(&mut out, SseEvent::TextMessageContent { message_id: self.current_id(), delta: t });
            },
            SessionEvent::ToolCall(c) => {
                if self.in_message {
                    push_event(&mut out, SseEvent::TextMessageEnd { message_id: self.current_id() });
                    self.in_message = false;
                }
                let id = c.id.clone();
                let name = c.function.name.clone();
                let args = c.function.arguments.clone();
                self.pending.push(c);
                push_event(&mut out, SseEvent::ToolCallStart { tool_call_id: id.clone(), tool_call_name: name });
                push_event(&mut out, SseEvent::ToolCallArgs { tool_call_id: id, delta: args });
            },
            SessionEvent::ToolResult { content, .. } => {
                if self.pending.len() > 0 {
                    let tc = self.pending.remove(0);
                    push_event(&mut out, SseEvent::ToolCallEnd { tool_call_id: tc.id, input: tc.function.arguments, result: content });
                }
            },
            SessionEvent::Done { .. } => {
                if self.in_message {
                    push_event(&mut out, SseEvent::TextMessageEnd { message_id: self.current_id() });
                    self.in_message = false;
                }
                self.finished = true;
                push_event(&mut out, SseEvent::RunFinished {
                    thread_id: self.thread_id.clone(),
                    run_id: self.run_id.clone(),
                    finish_reason: owned("stop"),
                });
            },
            SessionEvent::Error(m) => {
                if self.in_message {
                    push_event(&mut out, SseEvent::TextMessageEnd { message_id: self.current_id() });
                    self.in_message = false;
                }
                self.finished = true;
                push_event(&mut out, SseEvent::RunError { thread_id: self.thread_id.clone(), run_id: self.run_id.clone(), message: m });
            },
        }
        out
    }
}

/// Appends `e`; the run's open state steps with it.
fn push_event(out: &mut Vec<SseEvent>, e: SseEvent)
    ensures
        final(out)@ == old(out)@.push(e),
        forall|o: Option<bool>| run_open(o, final(out)@) == step_open(run_open(o, old(out)@), e),
        start_ids(final(out)@) == start_ids(old(out)@) + start_of(e),
{
    proof {
        lemma_start_ids_concat(old(out)@, seq![e]);
        assert(old(out)@.push(e) =~= old(out)@ + seq![e]);
        assert(seq![e].drop_first() =~= Seq::<SseEvent>::empty());
        let one = seq![e];
        assert(one[0] == e);
        assert(start_ids(one.drop_first()) == Seq::<Seq<char>>::empty());
        assert(start_ids(one) == start_of(e) + start_ids(one.drop_first()));
        assert(start_ids(one) =~= start_of(e));
        assert forall|o: Option<bool>| run_open(o, old(out)@.push(e)) == step_open(run_open(o, old(out)@), e) by {
            lemma_run_open_push(o, old(out)@, e);
        }
    }
    out.push(e);
}

/// Whether the provider needs an API key that is missing: every provider
/// but Ollama needs one.
pub fn missing_api_key(resolved: &ResolvedConfig) -> (r: bool)
    ensures
        r == (resolved.provider@ != "ollama"@ && resolved.api_key@.len() == 0),
{
    !same_text(resolved.provider.as_str(), "ollama") && resolved.api_key.as_str().is_empty()
}

/// The content of a client message: a string, a list of parts (each with
/// its `text` if it has one), or anything else.
#[derive(Debug)]
pub enum ChatContent {
    Text(String),
    Parts(Vec<Option<String>>),
    Other,
}

/// The text of a client message's content: the string itself, or the
/// texts of its parts joined with nothing between them.
pub open spec fn content_text(c: ChatContent) -> Seq<char> {
    match c {
        ChatContent::Text(s) => s@,
        ChatContent::Parts(v) => parts_text(v@),
        ChatContent::Other => Seq::<char>::empty(),
    }
}

/// The texts of the parts that have one, joined.
pub open spec fn parts_text(parts: Seq<Option<String>>) -> Seq<char>
    decreases parts.len(),
{
    if parts.len() == 0 {
        Seq::<char>::empty()
    } else {
        parts_text(parts.drop_last()) + match parts.last() {
            Some(s) => s@,
            None => Seq::<char>::empty(),
        }
    }
}

/// The text of a client message's content.
pub fn extract_text(content: &ChatContent) -> (r: String)
    ensures
        r@ == content_text(*content),
{
    match content {
        ChatContent::Text(s) => s.clone(),
        ChatContent::Parts(v) => {
            let mut out = String::new();
            let mut i: usize = 0;
            while i < v.len()
                invariant
                    i <= v@.len(),
                    out@ == parts_text(v@.subrange(0, i as int)),
                decreases v@.len() - i,
            {
                match &v[i] {
                    Some(s) => push_str(&mut out, s.as_str()),
                    None => {},
                }
                proof {
                    assert(v@.subrange(0, i + 1).drop_last() =~= v@.subrange(0, i as int));
                }
                i = i + 1;
            }
            assert(v@.subrange(0, v@.len() as int) =~= v@);
            out
        },
        ChatContent::Other => String::new(),
    }
}

/// One event of the stream as sent: `data: `, the event's JSON text, and a
/// blank line.
pub fn sse_frame(json: &str) -> (r: String)
    ensures
        r@ == "data: "@ + json@ + "\n\n"@,
{
    let mut s = owned("data: ");
    push_str(&mut s, json);
    push_str(&mut s, "\n\n");
    s
}

/// A message as a client sends it.
#[derive(Debug)]
pub struct ChatMsg {
    pub role: String,
    pub content: ChatContent,
    pub tool_calls: Option<Vec<ToolCall>>,
    pub tool_call_id: Option<String>,
    pub name: Option<String>,
    pub id: Option<String>,
}

/// A client message as a chat message: the role by its name (unknown names
/// are users) and the content's text.
pub fn chat_msg_to_message(msg: &ChatMsg) -> (r: Message)
    ensures
        r.role == role_of_name(msg.role@),
        r.content@ == content_text(msg.content),
        match (r.tool_calls, msg.tool_calls) {
            (Some(a), Some(b)) => a@ == b@,
            (None, None) => true,
            _ => false,
        },
        opt_text(r.tool_call_id) == opt_text(msg.tool_call_id),
        opt_text(r.name) == opt_text(msg.name),
{
    let role = Role::from_name(msg.role.as_str());
    let tool_calls = match &msg.tool_calls {
        Some(v) => Some(crate::llm::clone_calls(v)),
        None => None,
    };
    Message {
        role,
        content: extract_text(&msg.content),
        tool_calls,
        tool_call_id: crate::text::clone_opt(&msg.tool_call_id),
        name: crate::text::clone_opt(&msg.name),
    }
}

/// A hexadecimal digit, in either case.
pub open spec fn is_hex_digit(c: char) -> bool {
    ('0' <= c && c <= '9') || ('a' <= c && c <= 'f') || ('A' <= c && c <= 'F')
}

/// A UUID written as 32 hexadecimal digits.
pub open spec fn simple_uuid(s: Seq<char>) -> bool {
    s.len() == 32 && forall|i: int| 0 <= i < 32 ==> is_hex_digit(#[trigger] s[i])
}

/// A UUID written as 36 characters: hexadecimal digits in groups of 8, 4,
/// 4, 4 and 12, with a hyphen between groups.
pub open spec fn hyphenated_uuid(s: Seq<char>) -> bool {
    &&& s.len() == 36
    &&& forall|i: int| 0 <= i < 36 ==> if i == 8 || i == 13 || i == 18 || i == 23 {
        #[trigger] s[i] == '-'
    } else {
        is_hex_digit(s[i])
    }
}

/// `urn:uuid:`, each letter in either case.
pub open spec fn urn_prefix(s: Seq<char>) -> bool {
    &&& s.len() == 9
    &&& (s[0] == 'u' || s[0] == 'U') && (s[1] == 'r' || s[1] == 'R') && (s[2] == 'n' || s[2] == 'N')
    &&& s[3] == ':'
    &&& (s[4] == 'u' || s[4] == 'U') && (s[5] == 'u' || s[5] == 'U') && (s[6] == 'i' || s[6] == 'I')
    &&& (s[7] == 'd' || s[7] == 'D')
    &&& s[8] == ':'
}

/// Whether a text is a UUID (`uuid::Uuid::parse_str` accepts it): simple,
/// hyphenated, hyphenated in braces, or hyphenated after `urn:uuid:`.
pub open spec fn is_uuid(text: Seq<char>) -> bool {
    ||| simple_uuid(text)
    ||| hyphenated_uuid(text)
    ||| (text.len() == 38 && text[0] == '{' && text[37] == '}' && hyphenated_uuid(text.subrange(1, 37)))
    ||| (text.len() == 45 && urn_prefix(text.take(9)) && hyphenated_uuid(text.skip(9)))
}

/// Whether `text` parses as a UUID (`uuid::Uuid::parse_str`): the parser
/// takes exactly the four forms of `is_uuid`, with hexadecimal digits in
/// either case.
#[verifier::external_body]
fn parses_as_uuid(text: &str) -> (r: bool)
    ensures
        r == is_uuid(text@),
{
    uuid::Uuid::parse_str(text).is_ok()
}

/// Whether a chat continues a saved session: its thread id is a UUID.
pub fn resumes_session(thread_id: &str) -> (r: bool)
    ensures
        r == is_uuid(thread_id@),
{
    parses_as_uuid(thread_id)
}

/// The conversation a chat runs: the saved session's messages, when there
/// are any, followed by the messages the client sent.
pub fn resumed_conversation(previous: Option<Vec<Message>>, sent: Vec<Message>) -> (r: Vec<Message>)
    ensures
        r@ == match previous {
            Some(p) => p@ + sent@,
            None => sent@,
        },
{
    match previous {
        Some(p) => {
            let mut all = p;
            let mut rest = sent;
            let ghost a = all@;
            let ghost b = rest@;
            all.append(&mut rest);
            assert(all@ == a + b);
            all
        },
        None => sent,
    }
}

} // verus!
