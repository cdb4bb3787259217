//! The ReAct loop as a state machine: the caller performs the model calls,
//! compaction, sleeps and tool calls, and hands back what happened; the
//! machine decides what comes next and keeps the trace.
//!
//! Per cycle: `start_cycle`, then one model call (repeated after
//! `model_failed` asks for a retry), `model_succeeded`, `assess_turn`, and,
//! when the turn asked for tools, `next_tool_call` / `record_tool_outcome`
//! for each call and `finish_cycle`.
use vstd::prelude::*;

use super::content::{
    classify_assistant_content, has_tool_call, reasoning_of, thought_text, thought_text_of,
    tool_calls_of, trailing_final_answer, trailing_of, try_detect_final_answer, AssistantContent,
    ToolCall,
};
use super::messages::{
    action_for, action_view, append_tool_results, call_id_of, is_tool_result_view, lemma_steps_view_push, emit_internal_tool_callbacks, internal_steps,
    last_assistant_index, observation_for, observation_view, split_tool_results, step_view,
    steps_view, tool_result_message, MessageView, StepView, ToolOutcome, ToolResultMessage,
};
use super::types::{
    new_trace, opt_view, FinalAnswer, ReActError, ReActStep, ReActTrace, Thought,
};
use crate::retry::{backoff_delay_ms, retry_delay};
use crate::text::{copy_str, lit, views};

verus! {

/// Something the caller reports to callbacks and the span emitter.
#[derive(Debug)]
pub enum Notice {
    /// A cycle begins.
    CycleStart(usize),
    /// The trace step at this index was added (thought, action, observation
    /// or final answer): invoke its callback and span event.
    Step(usize),
    /// Invoke the error callback with this error.
    ErrorCallback(ReActError),
    /// Emit this error on the span emitter.
    SpanError(ReActError),
    /// A cycle ends (the span emitter receives the trace as it stands).
    CycleEnd(usize),
}

/// Where the machine stands.
#[derive(Clone, Copy, Debug, PartialEq, Eq, Structural)]
pub enum RunPhase {
    /// Ready to start a cycle.
    Ready,
    /// The model is being called.
    AwaitingModel,
    /// The model answered; its last assistant message is to be assessed.
    Responded,
    /// Executing the tool calls of the turn.
    Dispatching,
    /// Awaiting the outcome of the current tool call.
    AwaitingTool,
    /// The run is over.
    Finished,
}

/// What the caller does after a failed model call.
#[derive(Debug)]
pub enum ModelDecision {
    /// Sleep this many milliseconds and call the model again.
    Retry { delay_ms: u64 },
    /// The turn limit was hit: adopt the recovered history without its last
    /// message, make that message the next prompt, and start the next cycle.
    RecoverTurnLimit,
    /// Stop with this error.
    Fail(ReActError),
}

/// How a model call failed.
#[derive(Debug)]
pub struct ModelFailure {
    /// A transient transport or provider error.
    pub retryable: bool,
    /// The model's own tool loop ran out of turns.
    pub turn_limit: bool,
    /// The error, rendered as text.
    pub message: String,
    /// The turn-limit error carried a non-empty history.
    pub recovered_nonempty: bool,
}

/// What a model turn leads to.
#[derive(Debug)]
pub enum TurnOutcome {
    /// Start the next cycle with the same prompt.
    Retry,
    /// Stop with this error.
    Failed(ReActError),
    /// Stop with this answer.
    Answered(FinalAnswer),
    /// Execute this many tool calls.
    Dispatch(usize),
}

/// The state of one ReAct run.
#[derive(Debug)]
pub struct RunLoop {
    pub trace: ReActTrace,
    pub cycle: usize,
    pub max_cycles: usize,
    pub max_retries: u32,
    pub tool_timeout_secs: u64,
    /// Failed model calls so far in this cycle.
    pub attempt: u32,
    pub no_assistant_retried: bool,
    pub empty_output_retried: bool,
    /// Use the classic rule set: a failed model call ends the run at once,
    /// errors are not emitted on the span, and empty replies are not retried.
    pub legacy: bool,
    pub phase: RunPhase,
    pub calls: Vec<ToolCall>,
    pub results: Vec<ToolResultMessage>,
}

impl ReActError {
    /// A copy of this error.
    pub fn duplicate(&self) -> (r: Self)
        ensures
            r == *self,
    {
        match self {
            ReActError::Model(m) => ReActError::Model(m.clone()),
            ReActError::NoToolCallsAndNoFinalAnswer { cycle } => {
                ReActError::NoToolCallsAndNoFinalAnswer { cycle: *cycle }
            },
            ReActError::MaxCyclesExceeded { cycles } => ReActError::MaxCyclesExceeded {
                cycles: *cycles,
            },
        }
    }
}

/// Under the classic rules the history only grows: a run is a chain of
/// transitions in which the history either stays as it was or, in
/// `model_succeeded` and `finish_cycle`, has messages appended, and no
/// decision of the classic rules asks to replace it (`model_failed` then only
/// fails). Whatever the number of steps, the history a run started from is a
/// prefix of the one it ends with.
pub proof fn lemma_history_only_grows(histories: Seq<Seq<MessageView>>)
    requires
        histories.len() > 0,
        forall|i: int|
            0 <= i < histories.len() - 1 ==> (#[trigger] histories[i]).is_prefix_of(histories[i + 1]),
    ensures
        histories[0].is_prefix_of(histories.last()),
    decreases histories.len(),
{
    if histories.len() > 1 {
        let d = histories.drop_last();
        assert forall|i: int| 0 <= i < d.len() - 1 implies (#[trigger] d[i]).is_prefix_of(d[i + 1]) by {
            assert(d[i] == histories[i] && d[i + 1] == histories[i + 1]);
        }
        lemma_history_only_grows(d);
        let a = histories[0];
        let b = d.last();
        let c = histories.last();
        assert(b == histories[histories.len() - 2]);
        assert(b.is_prefix_of(c));
        assert(a =~= c.subrange(0, a.len() as int)) by {
            assert forall|k: int| 0 <= k < a.len() implies a[k] == c[k] by {
                assert(a[k] == b.subrange(0, a.len() as int)[k]);
                assert(b[k] == c.subrange(0, b.len() as int)[k]);
            }
        }
    }
}

/// The notices of a failure: the error callback, the span error (not in the
/// classic rules) and the end of the cycle.
pub open spec fn failure_notices(e: ReActError, cycle: usize, legacy: bool) -> Seq<Notice> {
    if legacy {
        seq![Notice::ErrorCallback(e), Notice::CycleEnd(cycle)]
    } else {
        seq![Notice::ErrorCallback(e), Notice::SpanError(e), Notice::CycleEnd(cycle)]
    }
}

fn failure_list(e: &ReActError, cycle: usize, legacy: bool) -> (r: Vec<Notice>)
    ensures
        r@ == failure_notices(*e, cycle, legacy),
{
    let mut r: Vec<Notice> = Vec::new();
    r.push(Notice::ErrorCallback(e.duplicate()));
    if !legacy {
        r.push(Notice::SpanError(e.duplicate()));
    }
    r.push(Notice::CycleEnd(cycle));
    r
}

/// The steps a turn with tool calls adds before any answer: its thought, if
/// the thought text is not empty.
pub open spec fn thought_steps(items: Seq<AssistantContent>, cycle: usize) -> Seq<StepView> {
    let t = thought_text_of(reasoning_of(items));
    if t.len() > 0 {
        seq![StepView::Thought { reasoning: t, cycle }]
    } else {
        Seq::empty()
    }
}

/// The outcome of `assess_turn` from `s` to `t`.
pub open spec fn turn_ensures(
    s: RunLoop,
    t: RunLoop,
    assistant: Option<&Vec<AssistantContent>>,
    output: Seq<char>,
    outcome: TurnOutcome,
    notices: Seq<Notice>,
) -> bool {
    let c = s.cycle;
    let n = s.trace.steps@.len();
    let none_err = ReActError::NoToolCallsAndNoFinalAnswer { cycle: c };
    let retry = {
        &&& outcome == TurnOutcome::Retry
        &&& notices.len() == 0
        &&& t.phase == RunPhase::Ready
        &&& t.cycle == c + 1
        &&& t.trace == s.trace
    };
    let fail = |legacy: bool|
        {
            &&& outcome == TurnOutcome::Failed(none_err)
            &&& notices == failure_notices(none_err, c, legacy)
            &&& t.phase == RunPhase::Finished
            &&& t.trace == s.trace
        };
    let answered = |text: Seq<char>, before: Seq<StepView>, pre: Seq<Notice>|
        {
            &&& outcome matches TurnOutcome::Answered(fa) && fa.text@ == text && fa.cycles == c + 1
                && t.trace.final_answer == Some(fa)
            &&& steps_view(t.trace.steps@) == steps_view(s.trace.steps@) + before.push(
                StepView::FinalAnswer { text, cycles: (c + 1) as usize },
            )
            &&& notices == pre + seq![
                Notice::Step((n + before.len()) as usize),
                Notice::CycleEnd(c),
            ]
            &&& t.phase == RunPhase::Finished
        };
    match assistant {
        None => if s.legacy {
            &&& outcome == TurnOutcome::Failed(none_err)
            &&& t.trace.final_answer matches Some(fa) && fa.text@ == output && fa.cycles == c + 1
            &&& steps_view(t.trace.steps@) == steps_view(s.trace.steps@).push(
                StepView::FinalAnswer { text: output, cycles: (c + 1) as usize },
            )
            &&& notices == seq![Notice::Step(n as usize), Notice::CycleEnd(c)]
            &&& t.phase == RunPhase::Finished
        } else if !s.no_assistant_retried {
            retry && t.no_assistant_retried
        } else {
            fail(false)
        },
        Some(items) => if !has_tool_call(items@) {
            if output.len() == 0 {
                if !s.legacy && !s.empty_output_retried {
                    retry && t.empty_output_retried
                } else {
                    fail(s.legacy)
                }
            } else {
                answered(output, Seq::empty(), Seq::empty())
            }
        } else {
            let before = thought_steps(items@, c);
            let pre = if before.len() > 0 {
                seq![Notice::Step(n as usize)]
            } else {
                Seq::<Notice>::empty()
            };
            match trailing_final_answer(trailing_of(items@)) {
                Some(text) => answered(text, before, pre),
                None => {
                    &&& outcome == TurnOutcome::Dispatch(tool_calls_of(items@).len() as usize)
                    &&& t.phase == RunPhase::Dispatching
                    &&& t.calls@ == tool_calls_of(items@)
                    &&& t.results@.len() == 0
                    &&& t.cycle == c
                    &&& steps_view(t.trace.steps@) == steps_view(s.trace.steps@) + before
                    &&& t.trace.final_answer == s.trace.final_answer
                    &&& notices == pre
                },
            }
        },
    }
}

impl FinalAnswer {
    /// A copy of this answer.
    pub fn clone_answer(&self) -> (r: Self)
        ensures
            r == *self,
    {
        FinalAnswer { text: self.text.clone(), cycles: self.cycles }
    }
}

impl RunLoop {
    /// The machine's invariant.
    pub open spec fn wf(&self) -> bool {
        &&& self.cycle <= self.max_cycles
        &&& self.attempt == 0 || self.attempt < self.max_retries
        &&& self.phase != RunPhase::Finished ==> self.cycle < self.max_cycles || self.phase
            == RunPhase::Ready
        &&& (self.phase == RunPhase::Dispatching || self.phase == RunPhase::AwaitingTool)
            ==> self.results@.len() <= self.calls@.len()
        &&& self.phase == RunPhase::AwaitingTool ==> self.results@.len() < self.calls@.len()
        &&& self.trace.final_answer is Some ==> self.phase == RunPhase::Finished
    }

    /// A run of `prompt` with a budget of `max_cycles` cycles.
    pub fn new(
        prompt: &str,
        max_cycles: usize,
        max_retries: u32,
        tool_timeout_secs: u64,
        legacy: bool,
    ) -> (r: Self)
        ensures
            r.wf(),
            r.trace.prompt@ == prompt@,
            r.trace.steps@.len() == 0,
            r.trace.final_answer is None,
            r.cycle == 0,
            r.max_cycles == max_cycles,
            r.max_retries == max_retries,
            r.tool_timeout_secs == tool_timeout_secs,
            r.legacy == legacy,
            r.phase == RunPhase::Ready,
            !r.no_assistant_retried,
            !r.empty_output_retried,
    {
        RunLoop {
            trace: new_trace(prompt),
            cycle: 0,
            max_cycles,
            max_retries,
            tool_timeout_secs,
            attempt: 0,
            no_assistant_retried: false,
            empty_output_retried: false,
            legacy,
            phase: RunPhase::Ready,
            calls: Vec::new(),
            results: Vec::new(),
        }
    }

    /// Starts the next cycle, or ends the run when the budget is spent.
    ///
    /// Returns `Err(MaxCyclesExceeded)` once `max_cycles` cycles have run.
    pub fn start_cycle(&mut self) -> (r: (Result<usize, ReActError>, Vec<Notice>))
        requires
            old(self).wf(),
            old(self).phase == RunPhase::Ready,
        ensures
            final(self).wf(),
            final(self).tool_timeout_secs == old(self).tool_timeout_secs,
            final(self).max_retries == old(self).max_retries,
            final(self).trace == old(self).trace,
            final(self).cycle == old(self).cycle,
            old(self).cycle >= old(self).max_cycles ==> {
                let e = ReActError::MaxCyclesExceeded { cycles: old(self).max_cycles };
                &&& r.0 == Err::<usize, ReActError>(e)
                &&& final(self).phase == RunPhase::Finished
                &&& r.1@ == if old(self).legacy {
                    seq![Notice::ErrorCallback(e)]
                } else {
                    seq![
                        Notice::ErrorCallback(e),
                        Notice::SpanError(e),
                        Notice::CycleEnd(
                            if old(self).max_cycles > 0 { (old(self).max_cycles - 1) as usize } else { 0 },
                        ),
                    ]
                }
            },
            old(self).cycle < old(self).max_cycles ==> {
                &&& r.0 == Ok::<usize, ReActError>(old(self).cycle)
                &&& final(self).phase == RunPhase::AwaitingModel
                &&& final(self).attempt == 0
                &&& r.1@ == seq![Notice::CycleStart(old(self).cycle)]
            },
            final(self).max_cycles == old(self).max_cycles,
            final(self).legacy == old(self).legacy,
            final(self).no_assistant_retried == old(self).no_assistant_retried,
            final(self).empty_output_retried == old(self).empty_output_retried,
    {
        let mut notices: Vec<Notice> = Vec::new();
        if self.cycle >= self.max_cycles {
            let e = ReActError::MaxCyclesExceeded { cycles: self.max_cycles };
            notices.push(Notice::ErrorCallback(e.duplicate()));
            if !self.legacy {
                notices.push(Notice::SpanError(e.duplicate()));
                notices.push(Notice::CycleEnd(self.max_cycles.saturating_sub(1)));
            }
            self.phase = RunPhase::Finished;
            return (Err(e), notices);
        }
        self.phase = RunPhase::AwaitingModel;
        self.attempt = 0;
        notices.push(Notice::CycleStart(self.cycle));
        (Ok(self.cycle), notices)
    }

    /// History compaction before the model call failed: the run ends.
    pub fn compaction_failed(&mut self, message: String) -> (e: ReActError)
        requires
            old(self).wf(),
            old(self).phase == RunPhase::AwaitingModel,
        ensures
            final(self).wf(),
            final(self).tool_timeout_secs == old(self).tool_timeout_secs,
            final(self).max_retries == old(self).max_retries,
            e == ReActError::Model(message),
            final(self).phase == RunPhase::Finished,
            final(self).trace == old(self).trace,
    {
        self.phase = RunPhase::Finished;
        ReActError::Model(message)
    }

    /// The model call failed.
    ///
    /// A retryable failure is retried, after `500 * 2^k` ms for the `k`-th
    /// retry, while fewer than `max_retries` calls were made. A turn-limit
    /// failure that carries history continues with the next cycle; anything
    /// else ends the run. Under the classic rules the run ends at once.
    pub fn model_failed(&mut self, failure: ModelFailure) -> (r: (ModelDecision, Vec<Notice>))
        requires
            old(self).wf(),
            old(self).phase == RunPhase::AwaitingModel,
            !old(self).legacy && failure.retryable && old(self).attempt + 1 < old(self).max_retries
                ==> old(self).attempt <= 55,
        ensures
            final(self).wf(),
            final(self).tool_timeout_secs == old(self).tool_timeout_secs,
            final(self).max_retries == old(self).max_retries,
            final(self).trace == old(self).trace,
            final(self).max_cycles == old(self).max_cycles,
            final(self).legacy == old(self).legacy,
            old(self).legacy ==> {
                &&& r.0 == ModelDecision::Fail(ReActError::Model(failure.message))
                &&& r.1@.len() == 0
                &&& final(self).phase == RunPhase::Finished
            },
            !old(self).legacy && failure.retryable && old(self).attempt + 1 < old(self).max_retries
                ==> {
                &&& r.0 == ModelDecision::Retry { delay_ms: retry_delay(old(self).attempt as nat) as u64 }
                &&& r.1@.len() == 0
                &&& final(self).phase == RunPhase::AwaitingModel
                &&& final(self).attempt == old(self).attempt + 1
                &&& final(self).cycle == old(self).cycle
            },
            !old(self).legacy && !(failure.retryable && old(self).attempt + 1 < old(self).max_retries)
                ==> {
                let e = ReActError::Model(failure.message);
                &&& r.1@ == failure_notices(e, old(self).cycle, false)
                &&& if failure.turn_limit && failure.recovered_nonempty {
                    &&& r.0 == ModelDecision::RecoverTurnLimit
                    &&& final(self).phase == RunPhase::Ready
                    &&& final(self).cycle == old(self).cycle + 1
                } else {
                    &&& r.0 == ModelDecision::Fail(e)
                    &&& final(self).phase == RunPhase::Finished
                }
            },
    {
        if self.legacy {
            self.phase = RunPhase::Finished;
            return (ModelDecision::Fail(ReActError::Model(failure.message)), Vec::new());
        }
        if failure.retryable && self.attempt + 1 < self.max_retries {
            let delay_ms = backoff_delay_ms(self.attempt);
            self.attempt = self.attempt + 1;
            return (ModelDecision::Retry { delay_ms }, Vec::new());
        }
        let e = ReActError::Model(failure.message);
        let notices = failure_list(&e, self.cycle, false);
        if failure.turn_limit && failure.recovered_nonempty {
            self.cycle = self.cycle + 1;
            self.phase = RunPhase::Ready;
            (ModelDecision::RecoverTurnLimit, notices)
        } else {
            self.phase = RunPhase::Finished;
            (ModelDecision::Fail(e), notices)
        }
    }

    /// The model answered. `internal` holds the messages of the call when the
    /// provider returned them: they are appended to `history`, and, but under
    /// the classic rules, the tool turns they record are added to the trace.
    pub fn model_succeeded(
        &mut self,
        internal: Option<Vec<MessageView>>,
        history: &mut Vec<MessageView>,
    ) -> (r: Vec<Notice>)
        requires
            old(self).wf(),
            old(self).phase == RunPhase::AwaitingModel,
            !old(self).legacy ==> (internal matches Some(m) ==> last_assistant_index(m@) != Some(0int)),
        ensures
            final(history)@ == old(history)@ + match internal {
                Some(m) => m@,
                None => Seq::empty(),
            },
            old(history)@.is_prefix_of(final(history)@),
            final(self).wf(),
            final(self).tool_timeout_secs == old(self).tool_timeout_secs,
            final(self).max_retries == old(self).max_retries,
            final(self).phase == RunPhase::Responded,
            final(self).cycle == old(self).cycle,
            final(self).max_cycles == old(self).max_cycles,
            final(self).legacy == old(self).legacy,
            final(self).trace.prompt == old(self).trace.prompt,
            final(self).trace.final_answer == old(self).trace.final_answer,
            final(self).no_assistant_retried == old(self).no_assistant_retried,
            final(self).empty_output_retried == old(self).empty_output_retried,
            steps_view(final(self).trace.steps@) == steps_view(old(self).trace.steps@) + match internal {
                Some(m) => if old(self).legacy {
                    Seq::empty()
                } else {
                    internal_steps(m@, old(self).cycle)
                },
                None => Seq::empty(),
            },
            r@.len() == final(self).trace.steps@.len() - old(self).trace.steps@.len(),
            forall|i: int| 0 <= i < r@.len() ==> #[trigger] r@[i] == Notice::Step(
                (old(self).trace.steps@.len() + i) as usize,
            ),
    {
        let mut notices: Vec<Notice> = Vec::new();
        if let Some(mut msgs) = internal {
            let steps = if self.legacy {
                Vec::new()
            } else {
                emit_internal_tool_callbacks(&msgs, self.cycle)
            };
            let ghost added = msgs@;
            let ghost h0 = history@;
            history.append(&mut msgs);
            assert(history@.subrange(0, h0.len() as int) =~= h0);
            let ghost old_steps = self.trace.steps@;
            let mut steps = steps;
            let ghost all = steps@;
            let start = self.trace.steps.len();
            self.trace.steps.append(&mut steps);
            let end = self.trace.steps.len();
            let mut k: usize = start;
            while k < end
                invariant
                    start <= k <= end,
                    start == old_steps.len(),
                    notices@.len() == k - start,
                    forall|j: int| 0 <= j < k - start ==> #[trigger] notices@[j] == Notice::Step(
                        (start + j) as usize,
                    ),
                decreases end - k,
            {
                notices.push(Notice::Step(k));
                k = k + 1;
            }
            assert(steps_view(old_steps + all) =~= steps_view(old_steps) + steps_view(all));
        } else {
            assert(self.trace.steps@ =~= old(self).trace.steps@ + Seq::<ReActStep>::empty());
            assert(history@ =~= old(history)@ + Seq::<MessageView>::empty());
        }
        self.phase = RunPhase::Responded;
        notices
    }

    /// Assesses the model's turn: `assistant` is the content of the last
    /// assistant message of the working history, `output` the call's output text.
    ///
    /// A turn without tool calls ends the run with `output` as the answer (an
    /// empty output, or a missing assistant message, is retried once with the
    /// next cycle). A turn with tool calls first records the thought, then ends
    /// the run if the text after the calls holds a final answer, and otherwise
    /// asks for the calls to be executed.
    pub fn assess_turn(&mut self, assistant: Option<&Vec<AssistantContent>>, output: &str) -> (r: (
        TurnOutcome,
        Vec<Notice>,
    ))
        requires
            old(self).wf(),
            old(self).phase == RunPhase::Responded,
        ensures
            final(self).wf(),
            final(self).tool_timeout_secs == old(self).tool_timeout_secs,
            final(self).max_retries == old(self).max_retries,
            final(self).max_cycles == old(self).max_cycles,
            final(self).legacy == old(self).legacy,
            final(self).trace.prompt == old(self).trace.prompt,
            turn_ensures(*old(self), *final(self), assistant, output@, r.0, r.1@),
    {
        let c = self.cycle;
        let n = self.trace.steps.len();
        match assistant {
            None => {
                if self.legacy {
                    let fa = FinalAnswer { text: copy_str(output), cycles: c + 1 };
                    let ghost fa0 = fa;
                    self.trace.steps.push(ReActStep::FinalAnswer(fa.clone_answer()));
                    proof {
                        lemma_steps_view_push(old(self).trace.steps@, ReActStep::FinalAnswer(fa0));
                    }
                    self.trace.final_answer = Some(fa);
                    self.phase = RunPhase::Finished;
                    let mut notices = Vec::new();
                    notices.push(Notice::Step(n));
                    notices.push(Notice::CycleEnd(c));
                    assert(notices@ =~= seq![Notice::Step(n), Notice::CycleEnd(c)]);
                    assert(steps_view(self.trace.steps@) =~= steps_view(old(self).trace.steps@).push(
                        StepView::FinalAnswer { text: output@, cycles: (c + 1) as usize },
                    ));
                    return (
                        TurnOutcome::Failed(ReActError::NoToolCallsAndNoFinalAnswer { cycle: c }),
                        notices,
                    );
                }
                if !self.no_assistant_retried {
                    self.no_assistant_retried = true;
                    self.cycle = c + 1;
                    self.phase = RunPhase::Ready;
                    return (TurnOutcome::Retry, Vec::new());
                }
                let e = ReActError::NoToolCallsAndNoFinalAnswer { cycle: c };
                let notices = failure_list(&e, c, false);
                self.phase = RunPhase::Finished;
                (TurnOutcome::Failed(e), notices)
            },
            Some(items) => {
                let parsed = classify_assistant_content(items);
                if parsed.tool_calls.len() == 0 {
                    if output.unicode_len() == 0 {
                        if !self.legacy && !self.empty_output_retried {
                            self.empty_output_retried = true;
                            self.cycle = c + 1;
                            self.phase = RunPhase::Ready;
                            return (TurnOutcome::Retry, Vec::new());
                        }
                        let e = ReActError::NoToolCallsAndNoFinalAnswer { cycle: c };
                        let notices = failure_list(&e, c, self.legacy);
                        self.phase = RunPhase::Finished;
                        return (TurnOutcome::Failed(e), notices);
                    }
                    let fa = FinalAnswer { text: copy_str(output), cycles: c + 1 };
                    let notices = self.finish_with(fa.clone_answer());
                    proof {
                        lemma_steps_view_push(old(self).trace.steps@, ReActStep::FinalAnswer(fa));
                        assert(steps_view(self.trace.steps@) =~= steps_view(old(self).trace.steps@)
                            + Seq::<StepView>::empty().push(
                            StepView::FinalAnswer { text: output@, cycles: (c + 1) as usize },
                        ));
                        assert(notices@ =~= Seq::<Notice>::empty() + seq![Notice::Step((n + 0) as usize), Notice::CycleEnd(c)]);
                    }
                    return (TurnOutcome::Answered(fa), notices);
                }
                let mut notices: Vec<Notice> = Vec::new();
                let thought = thought_text(&parsed.reasoning_texts);
                let ghost before = thought_steps(items@, c);
                if thought.as_str().unicode_len() > 0 {
                    notices.push(Notice::Step(n));
                    let st = ReActStep::Thought(Thought { reasoning: thought, cycle: c });
                    proof {
                        lemma_steps_view_push(old(self).trace.steps@, st);
                    }
                    self.trace.steps.push(st);
                }
                assert(steps_view(self.trace.steps@) =~= steps_view(old(self).trace.steps@) + before);
                let ghost mid = *self;
                let ghost mid_notices = notices@;
                match try_detect_final_answer(&parsed.trailing_texts) {
                    Some(text) => {
                        let fa = FinalAnswer { text, cycles: c + 1 };
                        let ghost steps_mid = self.trace.steps@;
                        let mut more = self.finish_with(fa.clone_answer());
                        proof {
                            lemma_steps_view_push(steps_mid, ReActStep::FinalAnswer(fa));
                            assert(steps_view(self.trace.steps@) =~= steps_view(old(self).trace.steps@)
                                + before.push(StepView::FinalAnswer { text: fa.text@, cycles: (c + 1) as usize }));
                        }
                        notices.append(&mut more);
                        (TurnOutcome::Answered(fa), notices)
                    },
                    None => {
                        let k = parsed.tool_calls.len();
                        self.calls = parsed.tool_calls;
                        self.results = Vec::new();
                        self.phase = RunPhase::Dispatching;
                        (TurnOutcome::Dispatch(k), notices)
                    },
                }
            },
        }
    }

    /// Records `fa` as the run's answer and ends the run.
    fn finish_with(&mut self, fa: FinalAnswer) -> (r: Vec<Notice>)
        requires
            old(self).cycle < old(self).max_cycles,
            old(self).attempt == 0 || old(self).attempt < old(self).max_retries,
        ensures
            final(self).wf(),
            final(self).tool_timeout_secs == old(self).tool_timeout_secs,
            final(self).max_retries == old(self).max_retries,
            final(self).trace.steps@ == old(self).trace.steps@.push(ReActStep::FinalAnswer(fa)),
            final(self).trace.final_answer == Some(fa),
            final(self).trace.prompt == old(self).trace.prompt,
            final(self).phase == RunPhase::Finished,
            final(self).cycle == old(self).cycle,
            final(self).max_cycles == old(self).max_cycles,
            final(self).legacy == old(self).legacy,
            final(self).no_assistant_retried == old(self).no_assistant_retried,
            final(self).empty_output_retried == old(self).empty_output_retried,
            r@ == seq![Notice::Step(old(self).trace.steps@.len() as usize), Notice::CycleEnd(old(self).cycle)],
    {
        let n = self.trace.steps.len();
        self.trace.steps.push(ReActStep::FinalAnswer(fa.clone_answer()));
        self.trace.final_answer = Some(fa);
        self.phase = RunPhase::Finished;
        let mut r = Vec::new();
        r.push(Notice::Step(n));
        r.push(Notice::CycleEnd(self.cycle));
        r
    }

    /// Starts the next tool call of the turn: records its action and returns
    /// it, or returns `None` when every call has its outcome.
    pub fn next_tool_call(&mut self) -> (r: (Option<ToolCall>, Vec<Notice>))
        requires
            old(self).wf(),
            old(self).phase == RunPhase::Dispatching,
        ensures
            final(self).wf(),
            final(self).tool_timeout_secs == old(self).tool_timeout_secs,
            final(self).max_retries == old(self).max_retries,
            final(self).attempt == old(self).attempt,
            final(self).no_assistant_retried == old(self).no_assistant_retried,
            final(self).empty_output_retried == old(self).empty_output_retried,
            final(self).calls == old(self).calls,
            final(self).results == old(self).results,
            final(self).cycle == old(self).cycle,
            final(self).max_cycles == old(self).max_cycles,
            final(self).legacy == old(self).legacy,
            final(self).trace.prompt == old(self).trace.prompt,
            final(self).trace.final_answer == old(self).trace.final_answer,
            old(self).results@.len() < old(self).calls@.len() ==> {
                let tc = old(self).calls@[old(self).results@.len() as int];
                &&& r.0 == Some(tc)
                &&& final(self).phase == RunPhase::AwaitingTool
                &&& steps_view(final(self).trace.steps@) == steps_view(old(self).trace.steps@).push(
                    action_view(tc, old(self).cycle),
                )
                &&& r.1@ == seq![Notice::Step(old(self).trace.steps@.len() as usize)]
            },
            old(self).results@.len() >= old(self).calls@.len() ==> {
                &&& r.0 is None
                &&& r.1@.len() == 0
                &&& final(self).phase == RunPhase::Dispatching
                &&& final(self).trace == old(self).trace
            },
    {
        let i = self.results.len();
        if i >= self.calls.len() {
            return (None, Vec::new());
        }
        let n = self.trace.steps.len();
        let tc = self.calls[i].duplicate();
        let a = action_for(&tc, self.cycle);
        self.trace.steps.push(ReActStep::Action(a));
        assert(steps_view(self.trace.steps@) =~= steps_view(old(self).trace.steps@).push(
            action_view(tc, self.cycle),
        ));
        self.phase = RunPhase::AwaitingTool;
        let mut notices = Vec::new();
        notices.push(Notice::Step(n));
        (Some(tc), notices)
    }

    /// Records how the current tool call went: its observation, and the
    /// result message for the model.
    pub fn record_tool_outcome(&mut self, outcome: ToolOutcome, duration_ms: u64) -> (r: Vec<Notice>)
        requires
            old(self).wf(),
            old(self).phase == RunPhase::AwaitingTool,
        ensures
            final(self).wf(),
            final(self).tool_timeout_secs == old(self).tool_timeout_secs,
            final(self).max_retries == old(self).max_retries,
            final(self).attempt == old(self).attempt,
            final(self).no_assistant_retried == old(self).no_assistant_retried,
            final(self).empty_output_retried == old(self).empty_output_retried,
            final(self).phase == RunPhase::Dispatching,
            final(self).calls == old(self).calls,
            final(self).cycle == old(self).cycle,
            final(self).max_cycles == old(self).max_cycles,
            final(self).legacy == old(self).legacy,
            final(self).trace.prompt == old(self).trace.prompt,
            final(self).trace.final_answer == old(self).trace.final_answer,
            ({
                let tc = old(self).calls@[old(self).results@.len() as int];
                let ov = observation_view(tc, outcome, old(self).cycle, old(self).tool_timeout_secs, duration_ms);
                &&& steps_view(final(self).trace.steps@) == steps_view(old(self).trace.steps@).push(ov)
                &&& final(self).results@.len() == old(self).results@.len() + 1
                &&& final(self).results@.drop_last() == old(self).results@
                &&& final(self).results@.last().tool_id@ == tc.id@
                &&& final(self).results@.last().call_id@ == call_id_of(tc, lit("react-cycle-"), old(self).cycle)
                &&& ov matches StepView::Observation { result, .. } && final(self).results@.last().text@ == result
            }),
            r@ == seq![Notice::Step(old(self).trace.steps@.len() as usize)],
    {
        let i = self.results.len();
        let n = self.trace.steps.len();
        let tc = self.calls[i].duplicate();
        let obs = observation_for(&tc, outcome, self.cycle, self.tool_timeout_secs, duration_ms);
        let text = obs.result.clone();
        self.trace.steps.push(ReActStep::Observation(obs));
        let ghost steps_now = self.trace.steps@;
        assert(steps_view(steps_now) =~= steps_view(old(self).trace.steps@).push(step_view(steps_now.last())));
        let m = tool_result_message(&tc, text, "react-cycle-", self.cycle);
        self.results.push(m);
        assert(self.results@.drop_last() =~= old(self).results@);
        self.phase = RunPhase::Dispatching;
        let mut notices = Vec::new();
        notices.push(Notice::Step(n));
        notices
    }

    /// Ends a cycle whose tool calls all have outcomes: the results but the
    /// last go to the history (appended to `history`, and returned for the
    /// caller's own messages), the last is the next prompt.
    pub fn finish_cycle(&mut self, history: &mut Vec<MessageView>) -> (r: (
        Vec<ToolResultMessage>,
        Option<ToolResultMessage>,
        Vec<Notice>,
    ))
        requires
            old(self).wf(),
            old(self).phase == RunPhase::Dispatching,
            old(self).results@.len() == old(self).calls@.len(),
        ensures
            old(history)@.is_prefix_of(final(history)@),
            final(history)@.len() == old(history)@.len() + r.0@.len(),
            forall|i: int|
                0 <= i < r.0@.len() ==> is_tool_result_view(
                    #[trigger] final(history)@[old(history)@.len() + i],
                    r.0@[i],
                ),
            final(self).wf(),
            final(self).tool_timeout_secs == old(self).tool_timeout_secs,
            final(self).max_retries == old(self).max_retries,
            final(self).phase == RunPhase::Ready,
            final(self).cycle == old(self).cycle + 1,
            final(self).max_cycles == old(self).max_cycles,
            final(self).legacy == old(self).legacy,
            final(self).trace == old(self).trace,
            final(self).no_assistant_retried == old(self).no_assistant_retried,
            final(self).empty_output_retried == old(self).empty_output_retried,
            old(self).results@.len() > 0 ==> r.0@ == old(self).results@.drop_last() && r.1 == Some(
                old(self).results@.last(),
            ),
            old(self).results@.len() == 0 ==> r.0@.len() == 0 && r.1 is None,
            r.2@ == seq![Notice::CycleEnd(old(self).cycle)],
    {
        let mut results = Vec::new();
        std::mem::swap(&mut results, &mut self.results);
        let (rest, last) = split_tool_results(results);
        append_tool_results(history, &rest);
        let mut notices = Vec::new();
        notices.push(Notice::CycleEnd(self.cycle));
        self.cycle = self.cycle + 1;
        self.phase = RunPhase::Ready;
        (rest, last, notices)
    }
}

} // verus!
