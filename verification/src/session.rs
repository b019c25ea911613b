//! One conversation turn: the model is asked, its reply streamed, the tools
//! it calls run, and the model asked again until it answers without
//! calling a tool.
//!
//! The turn decides; the caller does the outside work (the model request,
//! the tool runs) and hands each outcome back.
use vstd::prelude::*;
use crate::llm::{
    Message, MessageView, RequestSettings, Role, StreamEvent, ToolCall, Usage, chat_request_settings, clone_messages,
    messages_view,
};
use crate::json::json_or_null;
use crate::text::{owned, push_str, same_text};
use crate::tool::{ToolError, ToolResult, tool_error_text};

verus! {

/// A live event of a turn, for the user interface.
#[derive(Debug)]
pub enum SessionEvent {
    /// A piece of the model's reply.
    Token(String),
    /// The model asked for a tool call.
    ToolCall(ToolCall),
    /// A tool call was answered.
    ToolResult { name: String, content: String, is_error: bool },
    /// The turn is over.
    Done { usage: Option<Usage> },
    /// The turn failed.
    Error(String),
}

/// Where a turn stands.
#[derive(Debug, Clone, Copy, PartialEq, Eq, Structural)]
pub enum TurnPhase {
    /// The model must be asked (again).
    NeedsRequest,
    /// A reply is being streamed.
    Streaming,
    /// The reply's tool calls are being run, one after the other.
    RunningTools,
    /// The turn is over.
    Finished,
}

/// What came of running one tool call.
#[derive(Debug)]
pub enum ToolOutcome {
    /// The tool ran and gave this result.
    Ran(ToolResult),
    /// The tool failed with this error.
    Failed(ToolError),
    /// No tool has the name the call gives.
    Missing,
}

/// The text that answers `call` when it came to `outcome`.
pub open spec fn outcome_content(call: ToolCall, outcome: ToolOutcome) -> Seq<char> {
    match outcome {
        ToolOutcome::Ran(r) => r.content@,
        ToolOutcome::Failed(e) => "Error: "@ + tool_error_text(e),
        ToolOutcome::Missing => "Tool '"@ + call.function.name@ + "' not found"@,
    }
}

/// Whether the answer to a call is an error.
pub open spec fn outcome_is_error(outcome: ToolOutcome) -> bool {
    match outcome {
        ToolOutcome::Ran(r) => r.is_error,
        _ => true,
    }
}

/// The message that answers `call`.
pub open spec fn answer_view(call: ToolCall, outcome: ToolOutcome) -> MessageView {
    MessageView {
        role: Role::Tool,
        content: outcome_content(call, outcome),
        tool_calls: None,
        tool_call_id: Some(call.id@),
        name: Some(call.function.name@),
    }
}

/// The message that records the model's reply text.
pub open spec fn reply_view(text: Seq<char>) -> MessageView {
    MessageView { role: Role::Assistant, content: text, tool_calls: None, tool_call_id: None, name: None }
}

/// The arguments a tool is run with for a call: the call's arguments text
/// parsed as JSON, or `null` when it is not JSON.
pub fn call_arguments(call: &ToolCall) -> (r: serde_json::Value)
    ensures
        r == json_or_null(call.function.arguments@),
{
    crate::json::parse_json_or_null(call.function.arguments.as_str())
}

/// Whether an event ends the turn.
pub open spec fn session_ends(e: SessionEvent) -> bool {
    e is Done || e is Error
}

/// The events of an optional event.
pub open spec fn opt_events<E>(r: Option<E>) -> Seq<E> {
    match r {
        Some(e) => seq![e],
        None => Seq::empty(),
    }
}

/// Whether a step's events end the run exactly when the step finishes it:
/// then its last event ends it and no other does; otherwise none does.
pub open spec fn ends_exactly_when<E>(finishes: bool, out: Seq<E>, ends: spec_fn(E) -> bool) -> bool {
    if finishes {
        &&& out.len() > 0
        &&& ends(out.last())
        &&& forall|k: int| 0 <= k < out.len() - 1 ==> !ends(#[trigger] out[k])
    } else {
        forall|k: int| 0 <= k < out.len() ==> !ends(#[trigger] out[k])
    }
}

/// A step of a run: taken before the run is finished, with events that end
/// the run exactly when the step finishes it.
pub open spec fn step_of_run<E>(before: bool, after: bool, out: Seq<E>, ends: spec_fn(E) -> bool) -> bool {
    !before && ends_exactly_when(after, out, ends)
}

/// Over a whole run whose every step is taken before it is finished and
/// sends events that end it exactly when the step finishes it (as each
/// operation of `Turn` states with `session_ends`, and each of `AguiRun`
/// with `is_terminal`), no event
/// but the very last of all ends it, and when the run is finished the last
/// event ends it: exactly one event ends the run, and it comes last.
pub proof fn law_one_ending_event<E>(finished: Seq<bool>, outs: Seq<Seq<E>>, ends: spec_fn(E) -> bool)
    requires
        finished.len() == outs.len() + 1,
        !finished[0],
        forall|i: int| 0 <= i < outs.len() ==> step_of_run(finished[i], finished[i + 1], #[trigger] outs[i], ends),
    ensures
        forall|k: int| 0 <= k < outs.flatten().len() - 1 ==> !ends(#[trigger] outs.flatten()[k]),
        finished.last() ==> outs.flatten().len() > 0 && ends(outs.flatten().last()),
    decreases outs.len(),
{
    if outs.len() > 0 {
        let rest = outs.drop_first();
        let fr = finished.drop_first();
        let flat = outs.flatten();
        assert(flat == outs[0] + rest.flatten());
        assert(step_of_run(finished[0], finished[1], outs[0], ends));
        if outs.len() == 1 {
            assert(rest.flatten() =~= Seq::<E>::empty());
            assert(flat =~= outs[0]);
        } else {
            assert(!finished[1]);
            assert forall|i: int| 0 <= i < rest.len() implies step_of_run(fr[i], fr[i + 1], #[trigger] rest[i], ends) by {
                assert(rest[i] == outs[i + 1]);
                assert(fr[i] == finished[i + 1] && fr[i + 1] == finished[i + 2]);
            }
            law_one_ending_event(fr, rest, ends);
            let rf = rest.flatten();
            assert forall|k: int| 0 <= k < flat.len() - 1 implies !ends(#[trigger] flat[k]) by {
                if k < outs[0].len() {
                    assert(flat[k] == outs[0][k]);
                } else {
                    assert(flat[k] == rf[k - outs[0].len()]);
                }
            }
            if finished.last() {
                assert(fr.last() == finished.last());
                assert(flat.last() == rf.last());
            }
        }
    }
}

/// What one answered tool call does to a turn, as `record_outcome` states:
/// the answer to the next call joins the conversation; the turn goes on to
/// the call after it, or, after the last, back to the model.
pub open spec fn answers_step(a: Turn, b: Turn, outcome: ToolOutcome) -> bool {
    &&& a.phase_spec() == TurnPhase::RunningTools
    &&& 0 <= a.answered() < a.calls().len()
    &&& b.history() == a.history().push(answer_view(a.calls()[a.answered()], outcome))
    &&& if a.answered() + 1 < a.calls().len() {
        &&& b.phase_spec() == TurnPhase::RunningTools
        &&& b.answered() == a.answered() + 1
        &&& b.calls() == a.calls()
    } else {
        b.phase_spec() == TurnPhase::Streaming
    }
}

/// Over a whole round, each tool call the model asked for is answered once,
/// in order, right after the reply: from the state where the round's calls
/// start to run to the one where the model is asked again, there are as
/// many outcomes as calls, and the conversation gains exactly the answer to
/// each call, the j-th for the j-th.
pub proof fn law_round_answers_each_call(ts: Seq<Turn>, outcomes: Seq<ToolOutcome>)
    requires
        ts.len() == outcomes.len() + 1,
        ts[0].phase_spec() == TurnPhase::RunningTools,
        ts[0].answered() == 0,
        forall|i: int| 0 <= i < outcomes.len() ==> answers_step(#[trigger] ts[i], ts[i + 1], outcomes[i]),
        ts.last().phase_spec() != TurnPhase::RunningTools,
    ensures
        outcomes.len() == ts[0].calls().len(),
        ts.last().history() == ts[0].history() + Seq::new(
            outcomes.len(),
            |j: int| answer_view(ts[0].calls()[j], outcomes[j]),
        ),
{
    lemma_answers_from(ts, outcomes, 0);
}

proof fn lemma_answers_from(ts: Seq<Turn>, outcomes: Seq<ToolOutcome>, i: int)
    requires
        ts.len() == outcomes.len() + 1,
        forall|j: int| 0 <= j < outcomes.len() ==> answers_step(#[trigger] ts[j], ts[j + 1], outcomes[j]),
        ts.last().phase_spec() != TurnPhase::RunningTools,
        0 <= i < outcomes.len() + 1,
        ts[i].phase_spec() == TurnPhase::RunningTools,
        ts[i].answered() == i,
        ts[i].calls() == ts[0].calls(),
        ts[i].history() == ts[0].history() + Seq::new(i as nat, |j: int| answer_view(ts[0].calls()[j], outcomes[j])),
    ensures
        outcomes.len() == ts[0].calls().len(),
        ts.last().history() == ts[0].history() + Seq::new(
            outcomes.len(),
            |j: int| answer_view(ts[0].calls()[j], outcomes[j]),
        ),
    decreases outcomes.len() - i,
{
    let n = outcomes.len() as int;
    let calls = ts[0].calls();
    let h0 = ts[0].history();
    if i == n {
        assert(ts[i] == ts.last());
    } else {
        assert(answers_step(ts[i], ts[i + 1], outcomes[i]));
        assert(ts[i + 1].history() =~= h0 + Seq::new((i + 1) as nat, |j: int| answer_view(calls[j], outcomes[j])));
        if i + 1 < calls.len() {
            if i + 1 == n {
                assert(ts[i + 1] == ts.last());
            }
            lemma_answers_from(ts, outcomes, i + 1);
        } else {
            if i + 1 < n {
                assert(answers_step(ts[i + 1], ts[i + 2], outcomes[i + 1]));
            }
            assert(ts[i + 1] == ts.last());
        }
    }
}

/// One conversation turn in progress.
pub struct Turn {
    messages: Vec<Message>,
    tool_names: Vec<String>,
    assistant_text: String,
    tool_calls: Vec<ToolCall>,
    next_tool: usize,
    phase: TurnPhase,
}

impl Turn {
    /// The turn's internal consistency, kept by every operation.
    pub closed spec fn wf(self) -> bool {
        self.phase == TurnPhase::RunningTools ==> self.next_tool < self.tool_calls@.len()
    }

    /// The conversation so far.
    pub closed spec fn history(self) -> Seq<MessageView> {
        messages_view(self.messages@)
    }

    /// Where the turn stands.
    pub closed spec fn phase_spec(self) -> TurnPhase {
        self.phase
    }

    /// The reply text streamed since the model was last asked.
    pub closed spec fn reply_text(self) -> Seq<char> {
        self.assistant_text@
    }

    /// The tool calls of the reply being handled.
    pub closed spec fn calls(self) -> Seq<ToolCall> {
        self.tool_calls@
    }

    /// How many of `calls()` have been answered.
    pub closed spec fn answered(self) -> int {
        self.next_tool as int
    }

    /// The names of the tools the turn may call, in the order searched.
    pub closed spec fn tool_names_spec(self) -> Seq<Seq<char>> {
        self.tool_names@.map_values(|s: String| s@)
    }

    /// A turn over `messages` that may call the named tools.
    pub fn new(messages: Vec<Message>, tool_names: Vec<String>) -> (r: Turn)
        ensures
            r.history() == messages_view(messages@),
            r.tool_names_spec() == tool_names@.map_values(|s: String| s@),
            r.phase_spec() == TurnPhase::NeedsRequest,
            r.wf(),
    {
        Turn {
            messages,
            tool_names,
            assistant_text: String::new(),
            tool_calls: Vec::new(),
            next_tool: 0,
            phase: TurnPhase::NeedsRequest,
        }
    }

    /// Where the turn stands.
    pub fn phase(&self) -> (r: TurnPhase)
        ensures
            r == self.phase_spec(),
    {
        self.phase
    }

    /// The conversation so far.
    pub fn messages(&self) -> (r: &Vec<Message>)
        ensures
            messages_view(r@) == self.history(),
    {
        &self.messages
    }

    /// The conversation, once the turn is done with it.
    pub fn into_messages(self) -> (r: Vec<Message>)
        ensures
            messages_view(r@) == self.history(),
    {
        self.messages
    }

    /// Starts a model request: the reply text and tool calls start empty,
    /// and the messages to send are returned.
    pub fn start_request(&mut self) -> (r: Vec<Message>)
        requires
            old(self).wf(),
            old(self).phase_spec() == TurnPhase::NeedsRequest,
        ensures
            final(self).wf(),
            final(self).phase_spec() == TurnPhase::Streaming,
            final(self).history() == old(self).history(),
            final(self).reply_text() == Seq::<char>::empty(),
            final(self).calls() == Seq::<ToolCall>::empty(),
            final(self).tool_names_spec() == old(self).tool_names_spec(),
            messages_view(r@) == old(self).history(),
    {
        self.assistant_text = String::new();
        self.tool_calls = Vec::new();
        self.next_tool = 0;
        self.phase = TurnPhase::Streaming;
        clone_messages(&self.messages)
    }

    /// The settings of the turn's model requests: at most 4096 tokens, no
    /// temperature, no `top_p`.
    pub fn request_settings(&self) -> (r: RequestSettings)
        ensures
            r.max_tokens == Some(4096u32),
    {
        chat_request_settings()
    }

    /// The model request could not be made, or its reply could not be
    /// read: the turn ends with the error.
    pub fn request_failed(&mut self, error: String) -> (r: SessionEvent)
        requires
            old(self).wf(),
            old(self).phase_spec() == TurnPhase::NeedsRequest || old(self).phase_spec() == TurnPhase::Streaming,
        ensures
            ends_exactly_when(final(self).phase_spec() == TurnPhase::Finished, seq![r], |e: SessionEvent| session_ends(e)),
            final(self).wf(),
            final(self).phase_spec() == TurnPhase::Finished,
            final(self).history() == old(self).history(),
            r == SessionEvent::Error(error),
    {
        self.phase = TurnPhase::Finished;
        SessionEvent::Error(error)
    }

    /// Handles one event of the streamed reply.
    ///
    /// Text is passed on and kept; a tool call is passed on and kept; at
    /// the end of the reply its text becomes an assistant message, and the
    /// turn either ends (no tool calls) or runs the calls; a provider error
    /// ends the turn.
    pub fn on_stream_event(&mut self, event: StreamEvent) -> (r: Option<SessionEvent>)
        requires
            old(self).wf(),
            old(self).phase_spec() == TurnPhase::Streaming,
        ensures
            ends_exactly_when(final(self).phase_spec() == TurnPhase::Finished, opt_events(r), |e: SessionEvent| session_ends(e)),
            final(self).wf(),
            final(self).tool_names_spec() == old(self).tool_names_spec(),
            match event {
                StreamEvent::Chunk(t) => {
                    &&& r == Some(SessionEvent::Token(t))
                    &&& final(self).reply_text() == old(self).reply_text() + t@
                    &&& final(self).calls() == old(self).calls()
                    &&& final(self).history() == old(self).history()
                    &&& final(self).phase_spec() == TurnPhase::Streaming
                },
                StreamEvent::ToolCall(c) => {
                    &&& r == Some(SessionEvent::ToolCall(c))
                    &&& final(self).reply_text() == old(self).reply_text()
                    &&& final(self).calls() == old(self).calls().push(c)
                    &&& final(self).history() == old(self).history()
                    &&& final(self).phase_spec() == TurnPhase::Streaming
                },
                StreamEvent::Done(u) => {
                    &&& final(self).history() == old(self).history().push(reply_view(old(self).reply_text()))
                    &&& final(self).reply_text() == old(self).reply_text()
                    &&& final(self).calls() == old(self).calls()
                    &&& if old(self).calls().len() == 0 {
                        &&& r == Some(SessionEvent::Done { usage: Some(u) })
                        &&& final(self).phase_spec() == TurnPhase::Finished
                    } else {
                        &&& r is None
                        &&& final(self).phase_spec() == TurnPhase::RunningTools
                        &&& final(self).answered() == 0
                    }
                },
                StreamEvent::Error(m) => {
                    &&& r == Some(SessionEvent::Error(m))
                    &&& final(self).history() == old(self).history()
                    &&& final(self).phase_spec() == TurnPhase::Finished
                },
            },
    {
        match event {
            StreamEvent::Chunk(t) => {
                push_str(&mut self.assistant_text, t.as_str());
                Some(SessionEvent::Token(t))
            },
            StreamEvent::ToolCall(c) => {
                let copy = c.clone();
                self.tool_calls.push(c);
                Some(SessionEvent::ToolCall(copy))
            },
            StreamEvent::Done(u) => {
                let m = Message::text(Role::Assistant, self.assistant_text.clone());
                self.messages.push(m);
                proof {
                    assert(messages_view(self.messages@) =~= messages_view(old(self).messages@).push(
                        reply_view(old(self).assistant_text@),
                    ));
                }
                if self.tool_calls.len() == 0 {
                    self.phase = TurnPhase::Finished;
                    Some(SessionEvent::Done { usage: Some(u) })
                } else {
                    self.next_tool = 0;
                    self.phase = TurnPhase::RunningTools;
                    None
                }
            },
            StreamEvent::Error(m) => {
                self.phase = TurnPhase::Finished;
                Some(SessionEvent::Error(m))
            },
        }
    }

    /// The streamed reply ended: the model must be asked again.
    pub fn stream_closed(&mut self)
        requires
            old(self).wf(),
            old(self).phase_spec() == TurnPhase::Streaming,
        ensures
            final(self).wf(),
            final(self).phase_spec() == TurnPhase::NeedsRequest,
            final(self).history() == old(self).history(),
            final(self).tool_names_spec() == old(self).tool_names_spec(),
    {
        self.phase = TurnPhase::NeedsRequest;
    }

    /// The tool call to run next.
    pub fn next_call(&self) -> (r: &ToolCall)
        requires
            self.wf(),
            self.phase_spec() == TurnPhase::RunningTools,
        ensures
            0 <= self.answered() < self.calls().len(),
            *r == self.calls()[self.answered()],
    {
        &self.tool_calls[self.next_tool]
    }

    /// The position of the first tool named `name`, if any.
    pub fn tool_index(&self, name: &str) -> (r: Option<usize>)
        ensures
            match r {
                Some(i) => i < self.tool_names_spec().len() && self.tool_names_spec()[i as int] == name@
                    && forall|j: int| 0 <= j < i ==> self.tool_names_spec()[j] != name@,
                None => forall|j: int| 0 <= j < self.tool_names_spec().len() ==> self.tool_names_spec()[j] != name@,
            },
    {
        let mut i: usize = 0;
        while i < self.tool_names.len()
            invariant
                i <= self.tool_names@.len(),
                forall|j: int| 0 <= j < i ==> self.tool_names@[j]@ != name@,
            decreases self.tool_names@.len() - i,
        {
            if same_text(self.tool_names[i].as_str(), name) {
                return Some(i);
            }
            i = i + 1;
        }
        None
    }

    /// Records what came of the next tool call: its answer joins the
    /// conversation as a tool message, and the event is returned. After
    /// the last call the reply's stream is read on.
    pub fn record_outcome(&mut self, outcome: ToolOutcome) -> (r: SessionEvent)
        requires
            old(self).wf(),
            old(self).phase_spec() == TurnPhase::RunningTools,
        ensures
            answers_step(*old(self), *final(self), outcome),
            ends_exactly_when(final(self).phase_spec() == TurnPhase::Finished, seq![r], |e: SessionEvent| session_ends(e)),
            final(self).wf(),
            0 <= old(self).answered() < old(self).calls().len(),
            final(self).tool_names_spec() == old(self).tool_names_spec(),
            final(self).history() == old(self).history().push(
                answer_view(old(self).calls()[old(self).answered()], outcome),
            ),
            r matches SessionEvent::ToolResult { name, content, is_error } && {
                &&& name@ == old(self).calls()[old(self).answered()].function.name@
                &&& content@ == outcome_content(old(self).calls()[old(self).answered()], outcome)
                &&& is_error == outcome_is_error(outcome)
            },
            if old(self).answered() + 1 < old(self).calls().len() {
                &&& final(self).phase_spec() == TurnPhase::RunningTools
                &&& final(self).answered() == old(self).answered() + 1
                &&& final(self).calls() == old(self).calls()
            } else {
                &&& final(self).phase_spec() == TurnPhase::Streaming
                &&& final(self).calls() == Seq::<ToolCall>::empty()
            },
            final(self).reply_text() == old(self).reply_text(),
    {
        assert(self.next_tool < self.tool_calls@.len());
        let call = self.tool_calls[self.next_tool].clone();
        let (content, is_error) = match outcome {
            ToolOutcome::Ran(res) => (res.content, res.is_error),
            ToolOutcome::Failed(e) => {
                let mut s = owned("Error: ");
                let m = e.message();
                push_str(&mut s, m.as_str());
                (s, true)
            },
            ToolOutcome::Missing => {
                let mut s = owned("Tool '");
                push_str(&mut s, call.function.name.as_str());
                push_str(&mut s, "' not found");
                (s, true)
            },
        };
        let msg = Message {
            role: Role::Tool,
            content: content.clone(),
            tool_calls: None,
            tool_call_id: Some(call.id.clone()),
            name: Some(call.function.name.clone()),
        };
        self.messages.push(msg);
        proof {
            assert(messages_view(self.messages@) =~= messages_view(old(self).messages@).push(
                answer_view(call, outcome),
            ));
        }
        assert(self.next_tool < self.tool_calls@.len());
        let n = self.tool_calls.len();
        if self.next_tool < n - 1 {
            self.next_tool = self.next_tool + 1;
        } else {
            self.phase = TurnPhase::Streaming;
            self.next_tool = 0;
            self.tool_calls = Vec::new();
        }
        SessionEvent::ToolResult { name: call.function.name, content, is_error }
    }
}

/// A message that a turn adds to the conversation: the model's reply
/// text, or the answer to a tool call, naming the call and the tool.
pub open spec fn added_by_turn(m: MessageView) -> bool {
    ||| m == reply_view(m.content)
    ||| (m.role == Role::Tool && m.tool_calls is None && m.tool_call_id is Some && m.name is Some)
}

/// Over a whole turn, the conversation only grows at its end, and only by
/// replies and answers: when each step keeps it or adds one such message
/// after it, as every operation of `Turn` states, the messages the turn
/// started with begin the messages it ends with, and every message after
/// them is a reply or an answer.
pub proof fn law_turn_history_grows(hs: Seq<Seq<MessageView>>)
    requires
        hs.len() > 0,
        forall|i: int| 0 <= i < hs.len() - 1 ==> #[trigger] hs[i + 1] == hs[i] || (
            hs[i + 1].len() == hs[i].len() + 1 && hs[i + 1].drop_last() == hs[i] && added_by_turn(hs[i + 1].last())
        ),
    ensures
        hs[0].is_prefix_of(hs.last()),
        forall|k: int| hs[0].len() <= k < hs.last().len() ==> added_by_turn(#[trigger] hs.last()[k]),
    decreases hs.len(),
{
    if hs.len() > 1 {
        let front = hs.drop_last();
        assert forall|i: int| 0 <= i < front.len() - 1 implies #[trigger] front[i + 1] == front[i] || (
            front[i + 1].len() == front[i].len() + 1 && front[i + 1].drop_last() == front[i] && added_by_turn(
                front[i + 1].last(),
            )
        ) by {
            assert(front[i + 1] == hs[i + 1] && front[i] == hs[i]);
        }
        law_turn_history_grows(front);
        let p = hs.len() - 2;
        let n = p + 1;
        assert(front.last() == hs[p]);
        assert(hs[p + 1] == hs[p] || (hs[p + 1].len() == hs[p].len() + 1 && hs[p + 1].drop_last() == hs[p]
            && added_by_turn(hs[p + 1].last())));
        if hs[n] != hs[n - 1] {
            assert forall|k: int| 0 <= k < hs[n - 1].len() implies hs[n][k] == hs[n - 1][k] by {
                assert(hs[n].drop_last()[k] == hs[n][k]);
            }
            assert forall|k: int| hs[0].len() <= k < hs.last().len() implies added_by_turn(#[trigger] hs.last()[k]) by {
                if k < hs[n - 1].len() {
                    assert(hs[n][k] == hs[n - 1][k]);
                }
            }
        }
    }
}

} // verus!
