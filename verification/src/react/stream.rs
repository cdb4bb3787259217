//! The streaming ReAct loop as a state machine: the caller drives the model
//! stream and hands each streamed item to the machine, which keeps the trace
//! and says which items to forward to the consumer.
use vstd::prelude::*;

use super::content::{AssistantContent, ToolCall};
use super::messages::{
    MessageView, UserContent,
    action_for, action_view, lemma_steps_view_push, name_or_unknown, step_view, steps_view,
    StepView,
};
use super::pending::PendingCalls;
use super::run::Notice;
use super::types::{
    error_message, new_trace, opt_view, FinalAnswer, Observation, ReActError, ReActStep,
    ReActTrace, Thought,
};
use crate::text::{
    copy_str, decimal, join, join_strings, lit, push_decimal_u64, push_str, views,
};

verus! {

/// An item forwarded to the consumer of a streaming run.
#[derive(Debug)]
pub enum StreamItem {
    ThoughtDelta { delta: String, cycle: usize },
    FinalAnswerDelta { delta: String, cycle: usize },
    Action { tool_name: String, args: String, tool_call_id: Option<String>, cycle: usize },
    Observation { tool_name: String, result: String, is_error: bool, cycle: usize, duration_ms: u64 },
    Error { error: String },
    /// The run finished. The history to hand back is the snapshot the run
    /// started from followed by `new_messages`: the user prompt, and the
    /// answer when there is one.
    Completed { trace: ReActTrace, final_text: Option<String>, new_messages: Vec<MessageView> },
}

/// Whether an item ends the run for its consumer: an error or the completed run.
pub open spec fn is_terminal(item: StreamItem) -> bool {
    item is Error || item is Completed
}

/// The terminal items among at most one item.
pub open spec fn item_terminals(item: Option<StreamItem>) -> nat {
    match item {
        Some(i) => if is_terminal(i) {
            1
        } else {
            0
        },
        None => 0,
    }
}

/// `m` is the user message of `prompt`: a single text item.
pub open spec fn is_user_text(m: MessageView, prompt: Seq<char>) -> bool {
    m matches MessageView::User(u) && u@.len() == 1 && (u@[0] matches UserContent::Text(t) && t@
        == prompt)
}

/// `m` is the assistant message of `answer`: a single text item.
pub open spec fn is_assistant_text(m: MessageView, answer: Seq<char>) -> bool {
    m matches MessageView::Assistant(a) && a@.len() == 1 && (a@[0] matches AssistantContent::Text(t)
        && t@ == answer)
}

/// `msgs` are the messages a completed run adds to its history: the user
/// prompt, then the answer when there is one.
pub open spec fn completion_messages(msgs: Seq<MessageView>, prompt: Seq<char>, answer: Option<Seq<char>>) -> bool {
    &&& msgs.len() == if answer is Some { 2int } else { 1int }
    &&& is_user_text(msgs[0], prompt)
    &&& answer matches Some(a) ==> is_assistant_text(msgs[1], a)
}

fn completion_list(prompt: &String, answer: &Option<String>) -> (r: Vec<MessageView>)
    ensures
        completion_messages(r@, prompt@, opt_view(*answer)),
{
    let mut u: Vec<UserContent> = Vec::new();
    u.push(UserContent::Text(prompt.clone()));
    let mut r: Vec<MessageView> = Vec::new();
    r.push(MessageView::User(u));
    match answer {
        Some(a) => {
            let mut items: Vec<AssistantContent> = Vec::new();
            items.push(AssistantContent::Text(a.clone()));
            r.push(MessageView::Assistant(items));
        },
        None => {},
    }
    r
}

/// The sum of `counts`.
pub open spec fn total(counts: Seq<nat>) -> nat
    decreases counts.len(),
{
    if counts.len() == 0 {
        0
    } else {
        total(counts.drop_last()) + counts.last()
    }
}

/// A streaming run hands out exactly one terminal item. `states` are the
/// machine's states through a run, from `new` on, and `handed[i]` counts the
/// terminal items the `i`-th transition handed out (each transition ensures
/// that it moves `terminals_sent` by that count); `at_finish` counts those
/// `finish` hands out (which ensures the two make one). Over the whole run,
/// the items handed out number exactly one.
pub proof fn lemma_one_terminal_per_run(states: Seq<StreamLoop>, handed: Seq<nat>, at_finish: nat)
    requires
        states.len() == handed.len() + 1,
        states[0].terminals_sent() == 0,
        forall|i: int|
            0 <= i < handed.len() ==> (#[trigger] states[i + 1]).terminals_sent() == states[i].terminals_sent()
                + handed[i],
        states.last().terminals_sent() + at_finish == 1,
    ensures
        total(handed) + at_finish == 1,
    decreases handed.len(),
{
    if handed.len() > 0 {
        let s2 = states.drop_last();
        let h2 = handed.drop_last();
        assert forall|i: int| 0 <= i < h2.len() implies (#[trigger] s2[i + 1]).terminals_sent()
            == s2[i].terminals_sent() + h2[i] by {
            assert(s2[i + 1] == states[i + 1] && s2[i] == states[i] && h2[i] == handed[i]);
        }
        let k = handed.len() - 1;
        assert(states[k + 1] == states.last());
        assert(states[k + 1].terminals_sent() == states[k].terminals_sent() + handed[k]);
        assert(s2.last() == states[k]);
        lemma_one_terminal_per_run(
            s2,
            h2,
            (at_finish + handed.last()) as nat,
        );
    }
}

/// Where the streaming machine stands.
#[derive(Clone, Copy, Debug, PartialEq, Eq, Structural)]
pub enum StreamPhase {
    /// At the top of the cycle loop.
    Ready,
    /// A cycle started; compaction and opening the stream are under way.
    Opening,
    /// Reading items of the stream.
    Streaming,
}

/// The state of one streaming run.
#[derive(Debug)]
pub struct StreamLoop {
    pub trace: ReActTrace,
    pub cycle: usize,
    pub max_cycles: usize,
    pub tool_timeout_secs: u64,
    pub loop_continue: bool,
    pub error_emitted: bool,
    pub completed_sent: bool,
    pub has_tool_calls: bool,
    pub final_answer_buffer: String,
    pub final_text: Option<String>,
    pub pending: PendingCalls,
    pub phase: StreamPhase,
}

/// The text of a timeout after `secs` seconds: `<what> timed out after <secs>s`.
pub open spec fn timed_out_text(what: Seq<char>, secs: nat) -> Seq<char> {
    what + lit(" timed out after ") + decimal(secs) + lit("s")
}

fn timed_out(what: &str, secs: u64) -> (r: String)
    ensures
        r@ == timed_out_text(what@, secs as nat),
{
    let mut r = copy_str(what);
    push_str(&mut r, " timed out after ");
    push_decimal_u64(&mut r, secs);
    push_str(&mut r, "s");
    r
}

impl StreamLoop {
    /// The machine's invariant.
    pub open spec fn wf(&self) -> bool {
        &&& self.cycle <= self.max_cycles
        &&& self.phase != StreamPhase::Ready ==> self.cycle < self.max_cycles && self.loop_continue
        &&& self.tool_timeout_secs <= u64::MAX / 2
        &&& self.completed_sent ==> !self.loop_continue
        &&& self.error_emitted ==> !self.loop_continue
        &&& !(self.error_emitted && self.completed_sent)
    }

    /// How many terminal items (an error, or the completed run) the run has
    /// handed out so far: only a reported error is handed out before `finish`.
    pub open spec fn terminals_sent(&self) -> nat {
        if self.error_emitted {
            1
        } else {
            0
        }
    }

    /// The cycle loop goes on.
    pub open spec fn running(&self) -> bool {
        self.loop_continue && self.cycle < self.max_cycles
    }

    /// A streaming run of `prompt` with a budget of `max_cycles` cycles.
    pub fn new(prompt: &str, max_cycles: usize, tool_timeout_secs: u64) -> (r: Self)
        requires
            tool_timeout_secs <= u64::MAX / 2,
        ensures
            r.wf(),
            r.trace.prompt@ == prompt@,
            r.trace.steps@.len() == 0,
            r.trace.final_answer is None,
            r.cycle == 0,
            r.max_cycles == max_cycles,
            r.loop_continue,
            !r.error_emitted,
            !r.completed_sent,
            r.phase == StreamPhase::Ready,
            r.final_answer_buffer@.len() == 0,
    {
        StreamLoop {
            trace: new_trace(prompt),
            cycle: 0,
            max_cycles,
            tool_timeout_secs,
            loop_continue: true,
            error_emitted: false,
            completed_sent: false,
            has_tool_calls: false,
            final_answer_buffer: String::new(),
            final_text: None,
            pending: PendingCalls::new(),
            phase: StreamPhase::Ready,
        }
    }

    /// Starts the next cycle when the loop goes on; `None` means the loop is
    /// over and `finish` is next.
    pub fn begin_cycle(&mut self) -> (r: (Option<usize>, Vec<Notice>))
        requires
            old(self).wf(),
            old(self).phase == StreamPhase::Ready,
        ensures
            final(self).wf(),
            final(self).terminals_sent() == old(self).terminals_sent(),
            final(self).tool_timeout_secs == old(self).tool_timeout_secs,
            final(self).trace == old(self).trace,
            final(self).cycle == old(self).cycle,
            final(self).max_cycles == old(self).max_cycles,
            final(self).loop_continue == old(self).loop_continue,
            final(self).error_emitted == old(self).error_emitted,
            final(self).completed_sent == old(self).completed_sent,
            old(self).running() ==> r.0 == Some(old(self).cycle) && r.1@ == seq![
                Notice::CycleStart(old(self).cycle),
            ] && final(self).phase == StreamPhase::Opening,
            !old(self).running() ==> r.0 is None && r.1@.len() == 0 && final(self).phase
                == StreamPhase::Ready,
    {
        let mut notices = Vec::new();
        if self.loop_continue && self.cycle < self.max_cycles {
            notices.push(Notice::CycleStart(self.cycle));
            self.phase = StreamPhase::Opening;
            (Some(self.cycle), notices)
        } else {
            (None, notices)
        }
    }

    /// Compaction failed with `message`: report it and stop.
    pub fn compaction_failed(&mut self, message: String) -> (r: (StreamItem, Vec<Notice>))
        requires
            old(self).wf(),
            old(self).phase == StreamPhase::Opening,
        ensures
            final(self).wf(),
            final(self).terminals_sent() == old(self).terminals_sent() + item_terminals(Some(r.0)),
            final(self).tool_timeout_secs == old(self).tool_timeout_secs,
            final(self).phase == StreamPhase::Ready,
            final(self).error_emitted,
            !final(self).loop_continue,
            final(self).trace == old(self).trace,
            final(self).cycle == old(self).cycle,
            final(self).max_cycles == old(self).max_cycles,
            final(self).completed_sent == old(self).completed_sent,
            r.0 matches StreamItem::Error { error } && error@ == message@,
            r.1@ == seq![
                Notice::ErrorCallback(ReActError::Model(message)),
                Notice::SpanError(ReActError::Model(message)),
            ],
    {
        let item = StreamItem::Error { error: message.clone() };
        let mut notices = Vec::new();
        notices.push(Notice::ErrorCallback(ReActError::Model(message.clone())));
        notices.push(Notice::SpanError(ReActError::Model(message)));
        self.error_emitted = true;
        self.loop_continue = false;
        self.phase = StreamPhase::Ready;
        (item, notices)
    }

    /// The stream could not be opened (after retries): report it and stop.
    pub fn open_failed(&mut self) -> (r: StreamItem)
        requires
            old(self).wf(),
            old(self).phase == StreamPhase::Opening,
        ensures
            final(self).wf(),
            final(self).terminals_sent() == old(self).terminals_sent() + item_terminals(Some(r)),
            final(self).tool_timeout_secs == old(self).tool_timeout_secs,
            final(self).phase == StreamPhase::Ready,
            final(self).error_emitted,
            !final(self).loop_continue,
            final(self).trace == old(self).trace,
            final(self).cycle == old(self).cycle,
            final(self).max_cycles == old(self).max_cycles,
            final(self).completed_sent == old(self).completed_sent,
            r matches StreamItem::Error { error } && error@ == timed_out_text(
                lit("stream initialization"),
                (old(self).tool_timeout_secs * 2) as nat,
            ),
    {
        let item = StreamItem::Error {
            error: timed_out("stream initialization", self.tool_timeout_secs * 2),
        };
        self.error_emitted = true;
        self.loop_continue = false;
        self.phase = StreamPhase::Ready;
        item
    }

    /// The stream is open: its items follow.
    pub fn stream_opened(&mut self)
        requires
            old(self).wf(),
            old(self).phase == StreamPhase::Opening,
        ensures
            final(self).wf(),
            final(self).terminals_sent() == old(self).terminals_sent(),
            final(self).tool_timeout_secs == old(self).tool_timeout_secs,
            final(self).phase == StreamPhase::Streaming,
            !final(self).has_tool_calls,
            final(self).trace == old(self).trace,
            final(self).cycle == old(self).cycle,
            final(self).max_cycles == old(self).max_cycles,
            final(self).loop_continue == old(self).loop_continue,
            final(self).error_emitted == old(self).error_emitted,
            final(self).completed_sent == old(self).completed_sent,
            final(self).final_answer_buffer == old(self).final_answer_buffer,
            final(self).pending == old(self).pending,
    {
        self.has_tool_calls = false;
        self.phase = StreamPhase::Streaming;
    }

    /// A text delta from the model: part of the answer once a tool was
    /// called in this cycle, part of the thought before.
    pub fn on_text(&mut self, text: String) -> (r: StreamItem)
        requires
            old(self).wf(),
            old(self).phase == StreamPhase::Streaming,
        ensures
            final(self).wf(),
            final(self).terminals_sent() == old(self).terminals_sent() + item_terminals(Some(r)),
            final(self).tool_timeout_secs == old(self).tool_timeout_secs,
            final(self).phase == StreamPhase::Streaming,
            final(self).trace == old(self).trace,
            final(self).cycle == old(self).cycle,
            final(self).max_cycles == old(self).max_cycles,
            final(self).loop_continue == old(self).loop_continue,
            final(self).has_tool_calls == old(self).has_tool_calls,
            old(self).has_tool_calls ==> {
                &&& final(self).final_answer_buffer@ == old(self).final_answer_buffer@ + text@
                &&& r == StreamItem::FinalAnswerDelta { delta: text, cycle: old(self).cycle }
            },
            !old(self).has_tool_calls ==> {
                &&& final(self).final_answer_buffer == old(self).final_answer_buffer
                &&& r == StreamItem::ThoughtDelta { delta: text, cycle: old(self).cycle }
            },
    {
        if self.has_tool_calls {
            push_str(&mut self.final_answer_buffer, text.as_str());
            StreamItem::FinalAnswerDelta { delta: text, cycle: self.cycle }
        } else {
            StreamItem::ThoughtDelta { delta: text, cycle: self.cycle }
        }
    }

    /// The model called a tool: record the action and remember the call.
    pub fn on_tool_call(&mut self, tc: &ToolCall) -> (r: (StreamItem, Vec<Notice>))
        requires
            old(self).wf(),
            old(self).phase == StreamPhase::Streaming,
        ensures
            final(self).wf(),
            final(self).terminals_sent() == old(self).terminals_sent() + item_terminals(Some(r.0)),
            final(self).tool_timeout_secs == old(self).tool_timeout_secs,
            final(self).phase == StreamPhase::Streaming,
            final(self).cycle == old(self).cycle,
            final(self).max_cycles == old(self).max_cycles,
            final(self).loop_continue == old(self).loop_continue,
            final(self).has_tool_calls,
            final(self).final_answer_buffer == old(self).final_answer_buffer,
            final(self).pending.view() == old(self).pending.view().insert(tc.id@, tc.name@),
            final(self).trace.prompt == old(self).trace.prompt,
            final(self).trace.final_answer == old(self).trace.final_answer,
            steps_view(final(self).trace.steps@) == steps_view(old(self).trace.steps@).push(
                action_view(*tc, old(self).cycle),
            ),
            r.1@ == seq![Notice::Step(old(self).trace.steps@.len() as usize)],
            r.0 matches StreamItem::Action { tool_name, args, tool_call_id, cycle } && tool_name@
                == tc.name@ && args@ == tc.arguments@ && opt_view(tool_call_id) == Some(tc.id@)
                && cycle == old(self).cycle,
    {
        let n = self.trace.steps.len();
        let a = action_for(tc, self.cycle);
        let item = StreamItem::Action {
            tool_name: a.tool_name.clone(),
            args: a.args.clone(),
            tool_call_id: Some(tc.id.clone()),
            cycle: self.cycle,
        };
        self.pending.insert(tc.id.clone(), tc.name.clone());
        let st = ReActStep::Action(a);
        proof {
            lemma_steps_view_push(self.trace.steps@, st);
        }
        self.trace.steps.push(st);
        self.has_tool_calls = true;
        let mut notices = Vec::new();
        notices.push(Notice::Step(n));
        (item, notices)
    }

    /// A complete reasoning block: a thought, when it has text.
    pub fn on_reasoning(&mut self, text: String) -> (r: (Option<StreamItem>, Vec<Notice>))
        requires
            old(self).wf(),
            old(self).phase == StreamPhase::Streaming,
        ensures
            final(self).wf(),
            final(self).terminals_sent() == old(self).terminals_sent() + item_terminals(r.0),
            final(self).tool_timeout_secs == old(self).tool_timeout_secs,
            final(self).phase == StreamPhase::Streaming,
            final(self).cycle == old(self).cycle,
            final(self).max_cycles == old(self).max_cycles,
            final(self).loop_continue == old(self).loop_continue,
            final(self).has_tool_calls == old(self).has_tool_calls,
            final(self).final_answer_buffer == old(self).final_answer_buffer,
            final(self).pending == old(self).pending,
            final(self).trace.prompt == old(self).trace.prompt,
            final(self).trace.final_answer == old(self).trace.final_answer,
            text@.len() == 0 ==> r.0 is None && r.1@.len() == 0 && final(self).trace == old(self).trace,
            text@.len() > 0 ==> {
                &&& steps_view(final(self).trace.steps@) == steps_view(old(self).trace.steps@).push(
                    StepView::Thought { reasoning: text@, cycle: old(self).cycle },
                )
                &&& r.1@ == seq![Notice::Step(old(self).trace.steps@.len() as usize)]
                &&& r.0 matches Some(StreamItem::ThoughtDelta { delta, cycle }) && delta@ == text@
                    && cycle == old(self).cycle
            },
    {
        if text.as_str().unicode_len() == 0 {
            return (None, Vec::new());
        }
        let n = self.trace.steps.len();
        let item = StreamItem::ThoughtDelta { delta: text.clone(), cycle: self.cycle };
        let st = ReActStep::Thought(Thought { reasoning: text, cycle: self.cycle });
        proof {
            lemma_steps_view_push(self.trace.steps@, st);
        }
        self.trace.steps.push(st);
        let mut notices = Vec::new();
        notices.push(Notice::Step(n));
        (Some(item), notices)
    }

    /// A reasoning delta: forwarded when it has text.
    pub fn on_reasoning_delta(&self, text: String) -> (r: Option<StreamItem>)
        ensures
            item_terminals(r) == 0,
            text@.len() == 0 ==> r is None,
            text@.len() > 0 ==> r == Some(StreamItem::ThoughtDelta { delta: text, cycle: self.cycle }),
    {
        if text.as_str().unicode_len() == 0 {
            None
        } else {
            Some(StreamItem::ThoughtDelta { delta: text, cycle: self.cycle })
        }
    }

    /// A tool result: the observation of the call it answers (or of
    /// `unknown` when no pending call has its id).
    pub fn on_tool_result(&mut self, id: &str, texts: &Vec<String>, duration_ms: u64) -> (r: (
        StreamItem,
        Vec<Notice>,
    ))
        requires
            old(self).wf(),
            old(self).phase == StreamPhase::Streaming,
        ensures
            final(self).wf(),
            final(self).terminals_sent() == old(self).terminals_sent() + item_terminals(Some(r.0)),
            final(self).tool_timeout_secs == old(self).tool_timeout_secs,
            final(self).phase == StreamPhase::Streaming,
            final(self).cycle == old(self).cycle,
            final(self).max_cycles == old(self).max_cycles,
            final(self).loop_continue == old(self).loop_continue,
            final(self).has_tool_calls == old(self).has_tool_calls,
            final(self).final_answer_buffer == old(self).final_answer_buffer,
            final(self).pending.view() == old(self).pending.view().remove(id@),
            final(self).trace.prompt == old(self).trace.prompt,
            final(self).trace.final_answer == old(self).trace.final_answer,
            steps_view(final(self).trace.steps@) == steps_view(old(self).trace.steps@).push(
                StepView::Observation {
                    tool_name: name_or_unknown(old(self).pending.view(), id@),
                    result: join(views(texts@), Seq::empty()),
                    is_error: false,
                    cycle: old(self).cycle,
                    duration_ms,
                },
            ),
            r.1@ == seq![Notice::Step(old(self).trace.steps@.len() as usize)],
            r.0 matches StreamItem::Observation { tool_name, result, is_error, cycle, duration_ms: d }
                && tool_name@ == name_or_unknown(old(self).pending.view(), id@) && result@ == join(
                views(texts@),
                Seq::empty(),
            ) && !is_error && cycle == old(self).cycle && d == duration_ms,
    {
        assert(""@ =~= Seq::<char>::empty()) by {
            reveal_strlit("");
        }
        let result = join_strings(texts, "");
        let name = match self.pending.remove(id) {
            Some(n) => n,
            None => copy_str("unknown"),
        };
        let n = self.trace.steps.len();
        let item = StreamItem::Observation {
            tool_name: name.clone(),
            result: result.clone(),
            is_error: false,
            cycle: self.cycle,
            duration_ms,
        };
        let st = ReActStep::Observation(
            Observation { tool_name: name, result, is_error: false, cycle: self.cycle, duration_ms },
        );
        proof {
            lemma_steps_view_push(self.trace.steps@, st);
        }
        self.trace.steps.push(st);
        let mut notices = Vec::new();
        notices.push(Notice::Step(n));
        (item, notices)
    }

    /// Forwarding an item to the consumer failed: the consumer is gone, the
    /// loop stops.
    pub fn send_failed(&mut self)
        requires
            old(self).wf(),
            old(self).phase == StreamPhase::Streaming,
        ensures
            final(self).wf(),
            final(self).terminals_sent() == old(self).terminals_sent(),
            final(self).tool_timeout_secs == old(self).tool_timeout_secs,
            final(self).phase == StreamPhase::Ready,
            !final(self).loop_continue,
            final(self).error_emitted == old(self).error_emitted,
            final(self).completed_sent == old(self).completed_sent,
            final(self).trace == old(self).trace,
            final(self).cycle == old(self).cycle,
            final(self).max_cycles == old(self).max_cycles,
    {
        self.loop_continue = false;
        self.phase = StreamPhase::Ready;
    }

    /// The stream's final response, with the call's output text: the answer is
    /// that text, or the text buffered after tool calls when it is empty. The
    /// run is complete.
    pub fn on_final_response(&mut self, output: String) -> (r: Vec<Notice>)
        requires
            old(self).wf(),
            old(self).phase == StreamPhase::Streaming,
        ensures
            final(self).wf(),
            final(self).terminals_sent() == old(self).terminals_sent(),
            final(self).tool_timeout_secs == old(self).tool_timeout_secs,
            final(self).phase == StreamPhase::Ready,
            final(self).completed_sent,
            !final(self).loop_continue,
            final(self).cycle == old(self).cycle,
            final(self).max_cycles == old(self).max_cycles,
            final(self).error_emitted == old(self).error_emitted,
            final(self).final_answer_buffer@.len() == 0,
            final(self).trace.prompt == old(self).trace.prompt,
            ({
                let text = if output@.len() == 0 {
                    old(self).final_answer_buffer@
                } else {
                    output@
                };
                let n = old(self).trace.steps@.len();
                if text.len() > 0 {
                    &&& steps_view(final(self).trace.steps@) == steps_view(old(self).trace.steps@).push(
                        StepView::FinalAnswer { text, cycles: (old(self).cycle + 1) as usize },
                    )
                    &&& final(self).trace.final_answer matches Some(fa) && fa.text@ == text
                        && fa.cycles == old(self).cycle + 1
                    &&& opt_view(final(self).final_text) == Some(text)
                    &&& r@ == seq![Notice::Step(n as usize), Notice::CycleEnd(old(self).cycle)]
                } else {
                    &&& final(self).trace == old(self).trace
                    &&& final(self).final_text is None
                    &&& r@ == seq![Notice::CycleEnd(old(self).cycle)]
                }
            }),
    {
        let text = if output.as_str().unicode_len() == 0 {
            let mut t = String::new();
            std::mem::swap(&mut t, &mut self.final_answer_buffer);
            t
        } else {
            self.final_answer_buffer = String::new();
            output
        };
        let mut notices = Vec::new();
        if text.as_str().unicode_len() > 0 {
            let n = self.trace.steps.len();
            let fa = FinalAnswer { text: text.clone(), cycles: self.cycle + 1 };
            let st = ReActStep::FinalAnswer(fa.clone_answer());
            proof {
                lemma_steps_view_push(self.trace.steps@, st);
            }
            self.trace.steps.push(st);
            self.trace.final_answer = Some(fa);
            notices.push(Notice::Step(n));
            self.final_text = Some(text);
        } else {
            self.final_text = None;
        }
        notices.push(Notice::CycleEnd(self.cycle));
        self.completed_sent = true;
        self.loop_continue = false;
        self.phase = StreamPhase::Ready;
        notices
    }

    /// The stream failed with `message`. A turn-limit failure whose history
    /// is not empty continues with the next cycle (the caller adopts the
    /// recovered history and prompt); any other failure is reported and stops
    /// the loop.
    pub fn on_stream_error(&mut self, turn_limit: bool, recovered_nonempty: bool, message: String) -> (r: (
        Option<StreamItem>,
        Vec<Notice>,
    ))
        requires
            old(self).wf(),
            old(self).phase == StreamPhase::Streaming,
        ensures
            final(self).wf(),
            final(self).terminals_sent() == old(self).terminals_sent() + item_terminals(r.0),
            final(self).tool_timeout_secs == old(self).tool_timeout_secs,
            final(self).phase == StreamPhase::Ready,
            final(self).trace == old(self).trace,
            final(self).max_cycles == old(self).max_cycles,
            final(self).completed_sent == old(self).completed_sent,
            ({
                let e = ReActError::Model(message);
                if turn_limit && recovered_nonempty {
                    &&& r.0 is None
                    &&& r.1@ == seq![Notice::ErrorCallback(e), Notice::SpanError(e), Notice::CycleEnd(old(self).cycle)]
                    &&& final(self).cycle == old(self).cycle + 1
                    &&& final(self).loop_continue == old(self).loop_continue
                    &&& final(self).error_emitted == old(self).error_emitted
                } else {
                    &&& r.0 matches Some(StreamItem::Error { error }) && error@ == message@
                    &&& r.1@ == if turn_limit {
                        seq![Notice::ErrorCallback(e), Notice::SpanError(e), Notice::CycleEnd(old(self).cycle)]
                    } else {
                        seq![Notice::ErrorCallback(e), Notice::SpanError(e)]
                    }
                    &&& final(self).cycle == old(self).cycle
                    &&& final(self).error_emitted
                    &&& !final(self).loop_continue
                }
            }),
    {
        let mut notices = Vec::new();
        notices.push(Notice::ErrorCallback(ReActError::Model(message.clone())));
        notices.push(Notice::SpanError(ReActError::Model(message.clone())));
        self.phase = StreamPhase::Ready;
        if turn_limit {
            notices.push(Notice::CycleEnd(self.cycle));
            if recovered_nonempty {
                self.cycle = self.cycle + 1;
                return (None, notices);
            }
        }
        self.error_emitted = true;
        self.loop_continue = false;
        (Some(StreamItem::Error { error: message }), notices)
    }

    /// The stream ended without a final response: report it and stop.
    pub fn on_stream_end(&mut self) -> (r: StreamItem)
        requires
            old(self).wf(),
            old(self).phase == StreamPhase::Streaming,
        ensures
            final(self).wf(),
            final(self).terminals_sent() == old(self).terminals_sent() + item_terminals(Some(r)),
            final(self).tool_timeout_secs == old(self).tool_timeout_secs,
            final(self).phase == StreamPhase::Ready,
            final(self).error_emitted,
            !final(self).loop_continue,
            final(self).trace == old(self).trace,
            final(self).cycle == old(self).cycle,
            final(self).max_cycles == old(self).max_cycles,
            final(self).completed_sent == old(self).completed_sent,
            r matches StreamItem::Error { error } && error@ == lit("stream ended unexpectedly"),
    {
        self.error_emitted = true;
        self.loop_continue = false;
        self.phase = StreamPhase::Ready;
        StreamItem::Error { error: copy_str("stream ended unexpectedly") }
    }

    /// No stream item arrived in time: report it and stop.
    pub fn on_item_timeout(&mut self) -> (r: StreamItem)
        requires
            old(self).wf(),
            old(self).phase == StreamPhase::Streaming,
        ensures
            final(self).wf(),
            final(self).terminals_sent() == old(self).terminals_sent() + item_terminals(Some(r)),
            final(self).tool_timeout_secs == old(self).tool_timeout_secs,
            final(self).phase == StreamPhase::Ready,
            final(self).error_emitted,
            !final(self).loop_continue,
            final(self).trace == old(self).trace,
            final(self).cycle == old(self).cycle,
            final(self).max_cycles == old(self).max_cycles,
            final(self).completed_sent == old(self).completed_sent,
            r matches StreamItem::Error { error } && error@ == timed_out_text(
                lit("stream item"),
                (old(self).tool_timeout_secs * 2) as nat,
            ),
    {
        let item = StreamItem::Error {
            error: timed_out("stream item", self.tool_timeout_secs * 2),
        };
        self.error_emitted = true;
        self.loop_continue = false;
        self.phase = StreamPhase::Ready;
        item
    }

    /// The loop is over: a run that neither completed nor reported an error
    /// ran out of cycles (or lost its consumer) and reports
    /// `MaxCyclesExceeded`; a completed run hands back its trace.
    pub fn finish(self) -> (r: (Option<StreamItem>, Vec<Notice>))
        requires
            self.wf(),
            self.phase == StreamPhase::Ready,
            !self.running(),
        ensures
            !self.error_emitted && !self.completed_sent ==> {
                let e = ReActError::MaxCyclesExceeded { cycles: self.max_cycles };
                &&& r.0 matches Some(StreamItem::Error { error }) && error@ == error_message(e)
                &&& r.1@ == seq![Notice::ErrorCallback(e), Notice::SpanError(e)]
            },
            self.completed_sent ==> (r.0 matches Some(
                StreamItem::Completed { trace, final_text, new_messages },
            ) && trace == self.trace && final_text == self.final_text && completion_messages(
                new_messages@,
                self.trace.prompt@,
                opt_view(self.final_text),
            )) && r.1@.len() == 0,
            self.error_emitted && !self.completed_sent ==> r.0 is None && r.1@.len() == 0,
            self.terminals_sent() + item_terminals(r.0) == 1,
    {
        if !self.error_emitted && !self.completed_sent {
            let e = ReActError::MaxCyclesExceeded { cycles: self.max_cycles };
            let msg = e.message();
            let mut notices = Vec::new();
            notices.push(Notice::ErrorCallback(e.duplicate()));
            notices.push(Notice::SpanError(e));
            (Some(StreamItem::Error { error: msg }), notices)
        } else if self.completed_sent {
            let new_messages = completion_list(&self.trace.prompt, &self.final_text);
            (
                Some(
                    StreamItem::Completed {
                        trace: self.trace,
                        final_text: self.final_text,
                        new_messages,
                    },
                ),
                Vec::new(),
            )
        } else {
            (None, Vec::new())
        }
    }
}

} // verus!
