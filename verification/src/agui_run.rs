//! The chat run of the stand-alone server: at most ten model rounds, each
//! streamed as one text message, with the tools that the model calls run
//! between rounds.
//!
//! The run decides what is sent and what the conversation becomes; the
//! caller asks the model, runs the tools and hands each outcome back.
use vstd::prelude::*;
use crate::llm::{
    Message, MessageView, RequestSettings, Role, StreamEvent, ToolCall, chat_request_settings, clone_calls, clone_messages,
    messages_view,
};
use crate::session::{ToolOutcome, ends_exactly_when};
use crate::sse::{SseEvent, is_terminal, message_id};
use crate::text::{owned, push_decimal, push_str};
use crate::tool::tool_error_text;

verus! {

/// The most model rounds a run makes.
pub const MAX_ROUNDS: u32 = 10;

/// Where a run stands.
#[derive(Debug, Clone, Copy, PartialEq, Eq, Structural)]
pub enum RunPhase {
    /// The next round may start.
    Ready,
    /// A reply is being streamed.
    Streaming,
    /// The reply's tool calls are being run, one after the other.
    RunningTools,
    /// The run is over.
    Finished,
}

/// What starting a round gives.
#[derive(Debug)]
pub enum RoundStart {
    /// The run ends with this event: it has made all its rounds.
    Finish(SseEvent),
    /// The model is asked with these messages; the event opens the round's
    /// text message.
    Ask { messages: Vec<Message>, event: SseEvent },
}

/// The text that answers `call` when it came to `outcome`.
pub open spec fn run_answer_text(call: ToolCall, outcome: ToolOutcome) -> Seq<char> {
    match outcome {
        ToolOutcome::Ran(r) => r.content@,
        ToolOutcome::Failed(e) => "Error: "@ + tool_error_text(e),
        ToolOutcome::Missing => "Error: tool '"@ + call.function.name@ + "' not found"@,
    }
}

/// The message that answers `call`.
pub open spec fn run_answer_view(call: ToolCall, outcome: ToolOutcome) -> MessageView {
    MessageView {
        role: Role::Tool,
        content: run_answer_text(call, outcome),
        tool_calls: None,
        tool_call_id: Some(call.id@),
        name: Some(call.function.name@),
    }
}

/// The message that records a round's reply: its text and, when there are
/// any, its tool calls.
pub open spec fn run_reply_view(text: Seq<char>, calls: Seq<ToolCall>) -> MessageView {
    MessageView {
        role: Role::Assistant,
        content: text,
        tool_calls: if calls.len() == 0 { None } else { Some(calls) },
        tool_call_id: None,
        name: None,
    }
}

/// The events that starting a round sends.
pub open spec fn round_events(r: RoundStart) -> Seq<SseEvent> {
    match r {
        RoundStart::Finish(e) => seq![e],
        RoundStart::Ask { event, .. } => seq![event],
    }
}

/// The number of steps that ask the model.
pub open spec fn ask_count(asks: Seq<bool>) -> nat
    decreases asks.len(),
{
    if asks.len() == 0 {
        0
    } else {
        ask_count(asks.drop_last()) + if asks.last() { 1nat } else { 0nat }
    }
}

/// Over a whole request, the model is asked at most ten times: when each
/// step raises the round count by one exactly when it asks the model, as
/// `start_round` states, the count starts at none and, as
/// `lemma_rounds_bounded` states of every run, never passes `MAX_ROUNDS`,
/// then the steps that ask number the rounds, at most ten.
pub proof fn law_at_most_ten_asks(counts: Seq<nat>, asks: Seq<bool>)
    requires
        counts.len() == asks.len() + 1,
        counts[0] == 0,
        forall|i: int| 0 <= i < asks.len() ==> #[trigger] counts[i + 1] == counts[i] + if asks[i] { 1nat } else { 0nat },
        forall|i: int| 0 <= i < counts.len() ==> #[trigger] counts[i] <= MAX_ROUNDS,
    ensures
        ask_count(asks) == counts.last(),
        ask_count(asks) <= MAX_ROUNDS,
    decreases asks.len(),
{
    if asks.len() > 0 {
        let c = counts.drop_last();
        let a = asks.drop_last();
        assert forall|i: int| 0 <= i < a.len() implies #[trigger] c[i + 1] == c[i] + if a[i] { 1nat } else { 0nat } by {
            assert(c[i + 1] == counts[i + 1] && c[i] == counts[i] && a[i] == asks[i]);
        }
        assert forall|i: int| 0 <= i < c.len() implies #[trigger] c[i] <= MAX_ROUNDS by {
            assert(c[i] == counts[i]);
        }
        law_at_most_ten_asks(c, a);
        let n = asks.len() - 1;
        assert(counts[n + 1] == counts[n] + if asks[n] { 1nat } else { 0nat });
        assert(counts[counts.len() - 1] <= MAX_ROUNDS);
    }
}

/// One chat run of the stand-alone server.
pub struct AguiRun {
    thread_id: String,
    run_id: String,
    history: Vec<Message>,
    rounds: u32,
    phase: RunPhase,
    text: String,
    calls: Vec<ToolCall>,
    next_call: usize,
}

impl AguiRun {
    /// The run's internal consistency, kept by every operation.
    pub closed spec fn wf(self) -> bool {
        &&& self.rounds <= MAX_ROUNDS
        &&& self.phase == RunPhase::RunningTools ==> self.next_call < self.calls@.len()
    }

    pub closed spec fn thread(self) -> Seq<char> {
        self.thread_id@
    }

    pub closed spec fn run(self) -> Seq<char> {
        self.run_id@
    }

    /// The conversation so far.
    pub closed spec fn history(self) -> Seq<MessageView> {
        messages_view(self.history@)
    }

    /// How many rounds have started.
    pub closed spec fn rounds(self) -> nat {
        self.rounds as nat
    }

    /// Where the run stands.
    pub closed spec fn phase_spec(self) -> RunPhase {
        self.phase
    }

    /// The text streamed in this round.
    pub closed spec fn reply_text(self) -> Seq<char> {
        self.text@
    }

    /// The tool calls of this round.
    pub closed spec fn calls(self) -> Seq<ToolCall> {
        self.calls@
    }

    /// How many of this round's tool calls have been answered.
    pub closed spec fn answered(self) -> nat {
        self.next_call as nat
    }

    /// A run never makes more than `MAX_ROUNDS` rounds.
    pub proof fn lemma_rounds_bounded(self)
        requires
            self.wf(),
        ensures
            self.rounds() <= MAX_ROUNDS,
    {
    }

    /// A run with the conversation the client sent.
    pub fn new(thread_id: String, run_id: String, history: Vec<Message>) -> (r: Self)
        ensures
            r.wf(),
            r.thread() == thread_id@,
            r.run() == run_id@,
            r.history() == messages_view(history@),
            r.rounds() == 0,
            r.phase_spec() == RunPhase::Ready,
    {
        AguiRun {
            thread_id,
            run_id,
            history,
            rounds: 0,
            phase: RunPhase::Ready,
            text: String::new(),
            calls: Vec::new(),
            next_call: 0,
        }
    }

    /// Where the run stands.
    pub fn phase(&self) -> (r: RunPhase)
        ensures
            r == self.phase_spec(),
    {
        self.phase
    }

    /// The event that opens the run.
    pub fn run_started(&self) -> (r: SseEvent)
        ensures
            r matches SseEvent::RunStarted { thread_id, run_id } && thread_id@ == self.thread()
                && run_id@ == self.run(),
    {
        SseEvent::RunStarted { thread_id: self.thread_id.clone(), run_id: self.run_id.clone() }
    }

    fn fail(&mut self, message: String) -> (r: SseEvent)
        ensures
            final(self).phase_spec() == RunPhase::Finished,
            final(self).thread() == old(self).thread(),
            final(self).run() == old(self).run(),
            final(self).history() == old(self).history(),
            final(self).rounds() == old(self).rounds(),
            r matches SseEvent::RunError { thread_id, run_id, message: m } && thread_id@ == old(self).thread()
                && run_id@ == old(self).run() && m@ == message@,
    {
        self.phase = RunPhase::Finished;
        SseEvent::RunError { thread_id: self.thread_id.clone(), run_id: self.run_id.clone(), message }
    }

    /// The run fails before it starts because the provider needs an API
    /// key and has none.
    pub fn key_missing(&mut self) -> (r: SseEvent)
        requires
            old(self).wf(),
            old(self).phase_spec() == RunPhase::Ready,
        ensures
            ends_exactly_when(final(self).phase_spec() == RunPhase::Finished, seq![r], |e: SseEvent| is_terminal(e)),
            final(self).wf(),
            final(self).phase_spec() == RunPhase::Finished,
            r matches SseEvent::RunError { thread_id, run_id, message } && thread_id@ == old(self).thread()
                && run_id@ == old(self).run() && message@ == "AA_LLM_API_KEY not set"@,
    {
        self.fail(owned("AA_LLM_API_KEY not set"))
    }

    fn current_id(&self) -> (r: String)
        ensures
            r@ == message_id(self.rounds as nat),
    {
        let mut s = owned("msg_");
        push_decimal(&mut s, self.rounds as u64);
        s
    }

    fn finished_event(&self) -> (r: SseEvent)
        ensures
            r matches SseEvent::RunFinished { thread_id, run_id, finish_reason } && thread_id@ == self.thread()
                && run_id@ == self.run() && finish_reason@ == "stop"@,
    {
        SseEvent::RunFinished {
            thread_id: self.thread_id.clone(),
            run_id: self.run_id.clone(),
            finish_reason: owned("stop"),
        }
    }

    /// Starts a round: after the tenth the run finishes; otherwise the
    /// round's text message opens, with the next message id, and the model
    /// is asked with the conversation so far.
    pub fn start_round(&mut self) -> (r: RoundStart)
        requires
            old(self).wf(),
            old(self).phase_spec() == RunPhase::Ready,
        ensures
            ends_exactly_when(final(self).phase_spec() == RunPhase::Finished, round_events(r), |e: SseEvent| is_terminal(e)),
            final(self).wf(),
            final(self).thread() == old(self).thread(),
            final(self).run() == old(self).run(),
            final(self).history() == old(self).history(),
            old(self).rounds() >= MAX_ROUNDS ==> {
                &&& final(self).phase_spec() == RunPhase::Finished
                &&& final(self).rounds() == old(self).rounds()
                &&& r matches RoundStart::Finish(SseEvent::RunFinished { thread_id, run_id, finish_reason })
                    && thread_id@ == old(self).thread() && run_id@ == old(self).run() && finish_reason@ == "stop"@
            },
            old(self).rounds() < MAX_ROUNDS ==> {
                &&& final(self).phase_spec() == RunPhase::Streaming
                &&& final(self).rounds() == old(self).rounds() + 1
                &&& final(self).reply_text() == Seq::<char>::empty()
                &&& final(self).calls() == Seq::<ToolCall>::empty()
                &&& r matches RoundStart::Ask { messages, event: SseEvent::TextMessageStart { message_id: id } }
                    && messages_view(messages@) == old(self).history() && id@ == message_id(final(self).rounds())
            },
    {
        if self.rounds >= MAX_ROUNDS {
            self.phase = RunPhase::Finished;
            return RoundStart::Finish(self.finished_event());
        }
        self.rounds = self.rounds + 1;
        self.phase = RunPhase::Streaming;
        self.text = String::new();
        self.calls = Vec::new();
        self.next_call = 0;
        RoundStart::Ask { messages: clone_messages(&self.history), event: SseEvent::TextMessageStart { message_id: self.current_id() } }
    }

    /// The settings of the run's model requests: at most 4096 tokens, no
    /// temperature, no `top_p`.
    pub fn request_settings(&self) -> (r: RequestSettings)
        ensures
            r.max_tokens == Some(4096u32),
    {
        chat_request_settings()
    }

    /// The model could not be asked: the run ends with the error.
    pub fn request_failed(&mut self, message: String) -> (r: SseEvent)
        requires
            old(self).wf(),
            old(self).phase_spec() == RunPhase::Streaming,
        ensures
            ends_exactly_when(final(self).phase_spec() == RunPhase::Finished, seq![r], |e: SseEvent| is_terminal(e)),
            final(self).wf(),
            final(self).phase_spec() == RunPhase::Finished,
            final(self).history() == old(self).history(),
            r matches SseEvent::RunError { thread_id, run_id, message: m } && thread_id@ == old(self).thread()
                && run_id@ == old(self).run() && m@ == message@,
    {
        self.fail(message)
    }

    /// The reply's stream ended before its end: the run ends with an error.
    pub fn stream_ended(&mut self) -> (r: SseEvent)
        requires
            old(self).wf(),
            old(self).phase_spec() == RunPhase::Streaming,
        ensures
            ends_exactly_when(final(self).phase_spec() == RunPhase::Finished, seq![r], |e: SseEvent| is_terminal(e)),
            final(self).wf(),
            final(self).phase_spec() == RunPhase::Finished,
            final(self).history() == old(self).history(),
            r matches SseEvent::RunError { thread_id, run_id, message } && thread_id@ == old(self).thread()
                && run_id@ == old(self).run() && message@ == "LLM stream ended unexpectedly"@,
    {
        self.fail(owned("LLM stream ended unexpectedly"))
    }

    /// Handles one event of the streamed reply. Text is passed on in the
    /// round's text message and kept; a tool call is kept; at the end of the
    /// reply it is recorded, and the run either finishes (no tool calls) or
    /// runs the calls; a provider error ends the run.
    pub fn on_stream_event(&mut self, ev: StreamEvent) -> (r: Vec<SseEvent>)
        requires
            old(self).wf(),
            old(self).phase_spec() == RunPhase::Streaming,
        ensures
            ends_exactly_when(final(self).phase_spec() == RunPhase::Finished, r@, |e: SseEvent| is_terminal(e)),
            final(self).wf(),
            final(self).thread() == old(self).thread(),
            final(self).run() == old(self).run(),
            final(self).rounds() == old(self).rounds(),
            match ev {
                StreamEvent::Chunk(t) => {
                    &&& final(self).phase_spec() == RunPhase::Streaming
                    &&& final(self).reply_text() == old(self).reply_text() + t@
                    &&& final(self).calls() == old(self).calls()
                    &&& final(self).history() == old(self).history()
                    &&& r@.len() == 1
                    &&& r@[0] matches SseEvent::TextMessageContent { message_id: id, delta }
                        && delta@ == t@ && id@ == message_id(old(self).rounds())
                },
                StreamEvent::ToolCall(c) => {
                    &&& final(self).phase_spec() == RunPhase::Streaming
                    &&& final(self).reply_text() == old(self).reply_text()
                    &&& final(self).calls() == old(self).calls().push(c)
                    &&& final(self).history() == old(self).history()
                    &&& r@.len() == 0
                },
                StreamEvent::Done(_) => {
                    &&& final(self).history() == old(self).history().push(
                        run_reply_view(old(self).reply_text(), old(self).calls()),
                    )
                    &&& if old(self).calls().len() == 0 {
                        &&& final(self).phase_spec() == RunPhase::Finished
                        &&& r@.len() == 2
                        &&& r@[0] matches SseEvent::TextMessageEnd { message_id: id }
                            && id@ == message_id(old(self).rounds())
                        &&& r@[1] matches SseEvent::RunFinished { thread_id, run_id, finish_reason }
                            && thread_id@ == old(self).thread() && run_id@ == old(self).run()
                            && finish_reason@ == "stop"@
                    } else {
                        &&& final(self).phase_spec() == RunPhase::RunningTools
                        &&& final(self).calls() == old(self).calls()
                        &&& final(self).answered() == 0
                        &&& r@.len() == 0
                    }
                },
                StreamEvent::Error(m) => {
                    &&& final(self).phase_spec() == RunPhase::Finished
                    &&& final(self).history() == old(self).history()
                    &&& r@.len() == 1
                    &&& r@[0] matches SseEvent::RunError { thread_id, run_id, message }
                        && thread_id@ == old(self).thread() && run_id@ == old(self).run() && message@ == m@
                },
            },
    {
        let mut out: Vec<SseEvent> = Vec::new();
        match ev {
            StreamEvent::Chunk(t) => {
                push_str(&mut self.text, t.as_str());
                out.push(SseEvent::TextMessageContent { message_id: self.current_id(), delta: t });
            },
            StreamEvent::ToolCall(c) => {
                self.calls.push(c);
            },
            StreamEvent::Done(_) => {
                let tool_calls = if self.calls.len() == 0 {
                    None
                } else {
                    Some(clone_calls(&self.calls))
                };
                let reply = Message {
                    role: Role::Assistant,
                    content: self.text.clone(),
                    tool_calls,
                    tool_call_id: None,
                    name: None,
                };
                let ghost before = self.history@;
                self.history.push(reply);
                assert(messages_view(self.history@) =~= messages_view(before).push(
                    run_reply_view(self.text@, self.calls@),
                ));
                if self.calls.len() == 0 {
                    out.push(SseEvent::TextMessageEnd { message_id: self.current_id() });
                    out.push(self.finished_event());
                    self.phase = RunPhase::Finished;
                } else {
                    self.next_call = 0;
                    self.phase = RunPhase::RunningTools;
                }
            },
            StreamEvent::Error(m) => {
                out.push(self.fail(m));
            },
        }
        out
    }

    /// The next tool call to run, with the events that announce it: its
    /// start (id and name) and its arguments.
    pub fn next_call(&self) -> (r: (ToolCall, Vec<SseEvent>))
        requires
            self.wf(),
            self.phase_spec() == RunPhase::RunningTools,
        ensures
            ends_exactly_when(false, r.1@, |e: SseEvent| is_terminal(e)),
            self.answered() < self.calls().len(),
            r.0 == self.calls()[self.answered() as int],
            r.1@.len() == 2,
            r.1@[0] matches SseEvent::ToolCallStart { tool_call_id, tool_call_name }
                && tool_call_id@ == r.0.id@ && tool_call_name@ == r.0.function.name@,
            r.1@[1] matches SseEvent::ToolCallArgs { tool_call_id, delta }
                && tool_call_id@ == r.0.id@ && delta@ == r.0.function.arguments@,
    {
        let c = self.calls[self.next_call].clone();
        let mut evs: Vec<SseEvent> = Vec::new();
        evs.push(SseEvent::ToolCallStart { tool_call_id: c.id.clone(), tool_call_name: c.function.name.clone() });
        evs.push(SseEvent::ToolCallArgs { tool_call_id: c.id.clone(), delta: c.function.arguments.clone() });
        (c, evs)
    }

    /// Records what running the next tool call came to: its answer joins
    /// the conversation and its end is announced, with its arguments and
    /// the answer; after the round's last call the round's text message
    /// ends and the next round may start.
    pub fn record_outcome(&mut self, outcome: ToolOutcome) -> (r: Vec<SseEvent>)
        requires
            old(self).wf(),
            old(self).phase_spec() == RunPhase::RunningTools,
        ensures
            ends_exactly_when(final(self).phase_spec() == RunPhase::Finished, r@, |e: SseEvent| is_terminal(e)),
            final(self).wf(),
            0 <= old(self).answered() < old(self).calls().len(),
            final(self).thread() == old(self).thread(),
            final(self).run() == old(self).run(),
            final(self).rounds() == old(self).rounds(),
            final(self).calls() == old(self).calls(),
            final(self).history() == old(self).history().push(
                run_answer_view(old(self).calls()[old(self).answered() as int], outcome),
            ),
            r@.len() >= 1,
            r@[0] matches SseEvent::ToolCallEnd { tool_call_id, input, result } && {
                let c = old(self).calls()[old(self).answered() as int];
                &&& tool_call_id@ == c.id@
                &&& input@ == c.function.arguments@
                &&& result@ == run_answer_text(c, outcome)
            },
            if old(self).answered() + 1 < old(self).calls().len() {
                &&& final(self).phase_spec() == RunPhase::RunningTools
                &&& final(self).answered() == old(self).answered() + 1
                &&& r@.len() == 1
            } else {
                &&& final(self).phase_spec() == RunPhase::Ready
                &&& r@.len() == 2
                &&& r@[1] matches SseEvent::TextMessageEnd { message_id: id } && id@ == message_id(old(self).rounds())
            },
    {
        let n = self.calls.len();
        assert(self.next_call < n);
        let call = self.calls[self.next_call].clone();
        let content = match outcome {
            ToolOutcome::Ran(res) => res.content,
            ToolOutcome::Failed(e) => {
                let mut s = owned("Error: ");
                let m = e.message();
                push_str(&mut s, m.as_str());
                s
            },
            ToolOutcome::Missing => {
                let mut s = owned("Error: tool '");
                push_str(&mut s, call.function.name.as_str());
                push_str(&mut s, "' not found");
                s
            },
        };
        let answer = Message {
            role: Role::Tool,
            content: content.clone(),
            tool_calls: None,
            tool_call_id: Some(call.id.clone()),
            name: Some(call.function.name.clone()),
        };
        let ghost before = self.history@;
        self.history.push(answer);
        assert(messages_view(self.history@) =~= messages_view(before).push(run_answer_view(call, outcome)));
        let mut out: Vec<SseEvent> = Vec::new();
        out.push(SseEvent::ToolCallEnd { tool_call_id: call.id, input: call.function.arguments, result: content });
        self.next_call = self.next_call + 1;
        if self.next_call >= n {
            out.push(SseEvent::TextMessageEnd { message_id: self.current_id() });
            self.phase = RunPhase::Ready;
        }
        out
    }
}

} // verus!
