//! Conversation messages as the loop reads them, the tool-result messages it
//! writes back, and the steps it recovers from turns the model's own tool loop
//! ran internally.
use vstd::prelude::*;

use super::content::{copy_items, AssistantContent, ToolCall};
use super::pending::PendingCalls;
use super::types::{Action, Observation, ReActError, ReActStep};
use crate::text::{
    copy_str, decimal, join, join_strings, lit, push_decimal, push_decimal_u64, push_str, str_eq,
    views,
};

verus! {

/// One item of a user message.
#[derive(Clone, Debug)]
pub enum UserContent {
    Text(String),
    /// A tool result: the id of the call it answers and its text parts.
    ToolResult { id: String, texts: Vec<String> },
    /// Images, documents and other media.
    Other,
}

/// A conversation message, as far as the loop reads it.
#[derive(Clone, Debug)]
pub enum MessageView {
    System(String),
    User(Vec<UserContent>),
    Assistant(Vec<AssistantContent>),
}

/// A trace step by its views.
pub enum StepView {
    Thought { reasoning: Seq<char>, cycle: usize },
    Action { tool_name: Seq<char>, args: Seq<char>, tool_call_id: Option<Seq<char>>, cycle: usize },
    Observation {
        tool_name: Seq<char>,
        result: Seq<char>,
        is_error: bool,
        cycle: usize,
        duration_ms: u64,
    },
    FinalAnswer { text: Seq<char>, cycles: usize },
}

/// The view of a step.
pub open spec fn step_view(s: ReActStep) -> StepView {
    match s {
        ReActStep::Thought(t) => StepView::Thought { reasoning: t.reasoning@, cycle: t.cycle },
        ReActStep::Action(a) => StepView::Action {
            tool_name: a.tool_name@,
            args: a.args@,
            tool_call_id: match a.tool_call_id {
                Some(i) => Some(i@),
                None => None,
            },
            cycle: a.cycle,
        },
        ReActStep::Observation(o) => StepView::Observation {
            tool_name: o.tool_name@,
            result: o.result@,
            is_error: o.is_error,
            cycle: o.cycle,
            duration_ms: o.duration_ms,
        },
        ReActStep::FinalAnswer(f) => StepView::FinalAnswer { text: f.text@, cycles: f.cycles },
    }
}

/// The views of a sequence of steps.
pub open spec fn steps_view(s: Seq<ReActStep>) -> Seq<StepView> {
    s.map_values(|x: ReActStep| step_view(x))
}

/// Pushing a step pushes its view.
pub proof fn lemma_steps_view_push(s: Seq<ReActStep>, x: ReActStep)
    ensures
        steps_view(s.push(x)) == steps_view(s).push(step_view(x)),
{
    assert(steps_view(s.push(x)) =~= steps_view(s).push(step_view(x)));
}

/// The action step for a tool call.
pub open spec fn action_view(tc: ToolCall, cycle: usize) -> StepView {
    StepView::Action {
        tool_name: tc.name@,
        args: tc.arguments@,
        tool_call_id: Some(tc.id@),
        cycle,
    }
}

// ---------------------------------------------------------------------------
// The last assistant message
// ---------------------------------------------------------------------------

/// The items of an assistant message (none for other messages).
pub open spec fn assistant_items(m: MessageView) -> Seq<AssistantContent> {
    match m {
        MessageView::Assistant(items) => items@,
        _ => Seq::empty(),
    }
}

/// The index of the last assistant message of `msgs`.
pub open spec fn last_assistant_index(msgs: Seq<MessageView>) -> Option<int>
    decreases msgs.len(),
{
    if msgs.len() == 0 {
        None
    } else if msgs.last() is Assistant {
        Some(msgs.len() - 1)
    } else {
        last_assistant_index(msgs.drop_last())
    }
}

proof fn lemma_last_assistant_index(msgs: Seq<MessageView>)
    ensures
        match last_assistant_index(msgs) {
            Some(k) => 0 <= k < msgs.len() && msgs[k] is Assistant && forall|j: int|
                k < j < msgs.len() ==> !(#[trigger] msgs[j] is Assistant),
            None => forall|j: int| 0 <= j < msgs.len() ==> !(#[trigger] msgs[j] is Assistant),
        },
    decreases msgs.len(),
{
    if msgs.len() > 0 {
        lemma_last_assistant_index(msgs.drop_last());
        assert forall|j: int| 0 <= j < msgs.len() - 1 implies msgs.drop_last()[j] == msgs[j] by {}
    }
}

/// Finds the index of the last assistant message.
pub fn find_last_assistant(history: &Vec<MessageView>) -> (r: Option<usize>)
    ensures
        r is Some <==> last_assistant_index(history@) is Some,
        r is Some ==> r->0 == last_assistant_index(history@)->0,
{
    let mut i = history.len();
    assert(history@.take(i as int) =~= history@);
    while i > 0
        invariant
            i <= history.len(),
            last_assistant_index(history@) == last_assistant_index(history@.take(i as int)),
        decreases i,
    {
        assert(history@.take(i as int).drop_last() =~= history@.take(i - 1));
        if let MessageView::Assistant(_) = &history[i - 1] {
            return Some(i - 1);
        }
        i = i - 1;
    }
    None
}

/// The contents of the last assistant message of `history`, if there is one.
pub fn find_assistant_content(history: &Vec<MessageView>) -> (r: Option<Vec<AssistantContent>>)
    ensures
        r is Some <==> last_assistant_index(history@) is Some,
        r is Some ==> r->0@ == assistant_items(history@[last_assistant_index(history@)->0]),
{
    proof {
        lemma_last_assistant_index(history@);
    }
    match find_last_assistant(history) {
        Some(k) => match &history[k] {
            MessageView::Assistant(items) => Some(copy_items(items)),
            _ => None,
        },
        None => None,
    }
}

// ---------------------------------------------------------------------------
// Steps of tool turns run inside one model call
// ---------------------------------------------------------------------------

/// Pending tool names and the steps found so far.
pub struct Scan {
    pub pending: Map<Seq<char>, Seq<char>>,
    pub steps: Seq<StepView>,
}

/// The name recorded for `id`, or `unknown`.
pub open spec fn name_or_unknown(pending: Map<Seq<char>, Seq<char>>, id: Seq<char>) -> Seq<char> {
    if pending.dom().contains(id) {
        pending[id]
    } else {
        lit("unknown")
    }
}

/// Scanning assistant items: each tool call is recorded and yields an action.
pub open spec fn scan_assistant(s: Scan, items: Seq<AssistantContent>, cycle: usize) -> Scan
    decreases items.len(),
{
    if items.len() == 0 {
        s
    } else {
        let p = scan_assistant(s, items.drop_last(), cycle);
        match items.last() {
            AssistantContent::ToolCall(tc) => Scan {
                pending: p.pending.insert(tc.id@, tc.name@),
                steps: p.steps.push(action_view(tc, cycle)),
            },
            _ => p,
        }
    }
}

/// Scanning user items: each tool result yields an observation attributed to
/// the call it answers.
pub open spec fn scan_user(s: Scan, items: Seq<UserContent>, cycle: usize) -> Scan
    decreases items.len(),
{
    if items.len() == 0 {
        s
    } else {
        let p = scan_user(s, items.drop_last(), cycle);
        match items.last() {
            UserContent::ToolResult { id, texts } => Scan {
                pending: p.pending.remove(id@),
                steps: p.steps.push(
                    StepView::Observation {
                        tool_name: name_or_unknown(p.pending, id@),
                        result: join(views(texts@), Seq::empty()),
                        is_error: false,
                        cycle,
                        duration_ms: 0,
                    },
                ),
            },
            _ => p,
        }
    }
}

/// Scanning one message.
pub open spec fn scan_message(s: Scan, m: MessageView, cycle: usize) -> Scan {
    match m {
        MessageView::Assistant(items) => scan_assistant(s, items@, cycle),
        MessageView::User(items) => scan_user(s, items@, cycle),
        MessageView::System(_) => s,
    }
}

/// Scanning a sequence of messages.
pub open spec fn scan_messages(s: Scan, msgs: Seq<MessageView>, cycle: usize) -> Scan
    decreases msgs.len(),
{
    if msgs.len() == 0 {
        s
    } else {
        scan_message(scan_messages(s, msgs.drop_last(), cycle), msgs.last(), cycle)
    }
}

/// The actions and observations of the tool turns that precede the final
/// assistant message of a model call: the messages strictly between the
/// first (the prompt) and the last assistant message.
pub open spec fn internal_steps(msgs: Seq<MessageView>, cycle: usize) -> Seq<StepView> {
    match last_assistant_index(msgs) {
        Some(k) => scan_messages(
            Scan { pending: Map::empty(), steps: Seq::empty() },
            msgs.subrange(1, k),
            cycle,
        ).steps,
        None => Seq::empty(),
    }
}

/// The steps recovered from a model call depend only on the messages
/// strictly between its first message (the prompt) and its last assistant
/// message: two calls that differ only in their first message give the same
/// steps (a prompt that is itself a tool result, recorded the cycle before,
/// is not recorded again), and a call made of the prompt and the final
/// assistant answer alone gives no steps.
pub proof fn lemma_internal_steps_skip_prompt(
    m1: Seq<MessageView>,
    m2: Seq<MessageView>,
    prompt: MessageView,
    answer: MessageView,
    cycle: usize,
)
    requires
        m1.len() == m2.len(),
        m1.len() > 0,
        m1.drop_first() == m2.drop_first(),
        last_assistant_index(m1) != Some(0int),
        last_assistant_index(m2) != Some(0int),
    ensures
        internal_steps(m1, cycle) == internal_steps(m2, cycle),
        answer is Assistant ==> internal_steps(seq![prompt, answer], cycle) == Seq::<StepView>::empty(),
{
    lemma_last_assistant_index(m1);
    lemma_last_assistant_index(m2);
    assert forall|j: int| 1 <= j < m1.len() implies m1[j] == m2[j] by {
        assert(m1[j] == m1.drop_first()[j - 1]);
        assert(m2[j] == m2.drop_first()[j - 1]);
    }
    match last_assistant_index(m1) {
        Some(k) => {
            assert(m2[k] is Assistant);
            match last_assistant_index(m2) {
                Some(k2) => {
                    if k2 > k {
                        assert(m1[k2] is Assistant);
                    }
                    if k2 < k {
                        assert(m2[k] is Assistant);
                    }
                    assert(k2 == k);
                    assert(m1.subrange(1, k) =~= m2.subrange(1, k));
                },
                None => {},
            }
        },
        None => {
            match last_assistant_index(m2) {
                Some(k2) => {
                    assert(m1[k2] is Assistant);
                },
                None => {},
            }
        },
    }
    if answer is Assistant {
        let two = seq![prompt, answer];
        assert(two.last() is Assistant);
        assert(last_assistant_index(two) == Some(1int));
        assert(two.subrange(1, 1) =~= Seq::<MessageView>::empty());
    }
}

/// Concatenates the text parts of a tool result.
fn result_text(texts: &Vec<String>) -> (r: String)
    ensures
        r@ == join(views(texts@), Seq::empty()),
{
    assert(""@ =~= Seq::<char>::empty()) by {
        reveal_strlit("");
    }
    join_strings(texts, "")
}

fn unknown_name() -> (r: String)
    ensures
        r@ == lit("unknown"),
{
    copy_str("unknown")
}

/// Recovers the actions and observations of tool turns that the model call
/// executed internally, so that callbacks and the trace see them too.
///
/// A tool result is attributed to the tool of the call whose id it carries,
/// or to `unknown` when no such call preceded it.
pub fn emit_internal_tool_callbacks(messages: &Vec<MessageView>, cycle: usize) -> (steps: Vec<
    ReActStep,
>)
    requires
        last_assistant_index(messages@) != Some(0int),
    ensures
        steps_view(steps@) == internal_steps(messages@, cycle),
{
    proof {
        lemma_last_assistant_index(messages@);
    }
    let k = match find_last_assistant(messages) {
        Some(k) => k,
        None => {
            return Vec::new();
        },
    };
    let mut steps: Vec<ReActStep> = Vec::new();
    let mut pending = PendingCalls::new();
    let ghost start = Scan { pending: Map::empty(), steps: Seq::empty() };
    let mut i: usize = 1;
    while i < k
        invariant
            1 <= i <= k < messages.len(),
            pending.view() == scan_messages(start, messages@.subrange(1, i as int), cycle).pending,
            steps_view(steps@) == scan_messages(
                start,
                messages@.subrange(1, i as int),
                cycle,
            ).steps,
        decreases k - i,
    {
        let ghost before = scan_messages(start, messages@.subrange(1, i as int), cycle);
        assert(messages@.subrange(1, i + 1).drop_last() =~= messages@.subrange(1, i as int));
        match &messages[i] {
            MessageView::Assistant(items) => {
                let mut j: usize = 0;
                while j < items.len()
                    invariant
                        j <= items.len(),
                        pending.view() == scan_assistant(
                            before,
                            items@.take(j as int),
                            cycle,
                        ).pending,
                        steps_view(steps@) == scan_assistant(
                            before,
                            items@.take(j as int),
                            cycle,
                        ).steps,
                    decreases items.len() - j,
                {
                    assert(items@.take(j + 1).drop_last() =~= items@.take(j as int));
                    if let AssistantContent::ToolCall(tc) = &items[j] {
                        pending.insert(tc.id.clone(), tc.name.clone());
                        let action = Action {
                            tool_name: tc.name.clone(),
                            args: tc.arguments.clone(),
                            tool_call_id: Some(tc.id.clone()),
                            cycle,
                        };
                        steps.push(ReActStep::Action(action));
                        assert(steps_view(steps@) =~= steps_view(steps@).drop_last().push(
                            action_view(*tc, cycle),
                        ));
                    }
                    j = j + 1;
                }
                assert(items@.take(items.len() as int) =~= items@);
            },
            MessageView::User(items) => {
                let mut j: usize = 0;
                while j < items.len()
                    invariant
                        j <= items.len(),
                        pending.view() == scan_user(before, items@.take(j as int), cycle).pending,
                        steps_view(steps@) == scan_user(
                            before,
                            items@.take(j as int),
                            cycle,
                        ).steps,
                    decreases items.len() - j,
                {
                    assert(items@.take(j + 1).drop_last() =~= items@.take(j as int));
                    if let UserContent::ToolResult { id, texts } = &items[j] {
                        let ghost p_before = pending.view();
                        let name = match pending.remove(id.as_str()) {
                            Some(n) => n,
                            None => unknown_name(),
                        };
                        let obs = Observation {
                            tool_name: name,
                            result: result_text(texts),
                            is_error: false,
                            cycle,
                            duration_ms: 0,
                        };
                        steps.push(ReActStep::Observation(obs));
                        assert(steps_view(steps@) =~= steps_view(steps@).drop_last().push(
                            StepView::Observation {
                                tool_name: name_or_unknown(p_before, id@),
                                result: join(views(texts@), Seq::empty()),
                                is_error: false,
                                cycle,
                                duration_ms: 0,
                            },
                        ));
                    }
                    j = j + 1;
                }
                assert(items@.take(items.len() as int) =~= items@);
            },
            MessageView::System(_) => {},
        }
        i = i + 1;
    }
    steps
}

/// `item` is a call of the tool named `tool_name`.
pub open spec fn is_call_of(item: AssistantContent, tool_name: Seq<char>) -> bool {
    match item {
        AssistantContent::ToolCall(tc) => tc.name@ == tool_name,
        _ => false,
    }
}

/// `m` is an assistant message holding a call of the tool named `tool_name`.
pub open spec fn calls_tool(m: MessageView, tool_name: Seq<char>) -> bool {
    &&& m is Assistant
    &&& exists|i: int|
        0 <= i < assistant_items(m).len() && is_call_of(#[trigger] assistant_items(m)[i], tool_name)
}

/// Finds the last assistant message that calls the tool named `tool_name`.
pub fn find_assistant_with_tool_call(history: &Vec<MessageView>, tool_name: &str) -> (r: Option<
    Vec<AssistantContent>,
>)
    ensures
        r is None ==> forall|j: int| 0 <= j < history@.len() ==> !calls_tool(#[trigger] history@[j], tool_name@),
        r is Some ==> exists|j: int|
            0 <= j < history@.len() && calls_tool(#[trigger] history@[j], tool_name@)
                && r->0@ == assistant_items(history@[j]) && forall|l: int|
                j < l < history@.len() ==> !calls_tool(#[trigger] history@[l], tool_name@),
{
    let mut i = history.len();
    while i > 0
        invariant
            i <= history.len(),
            forall|l: int| i <= l < history@.len() ==> !calls_tool(#[trigger] history@[l], tool_name@),
        decreases i,
    {
        if let MessageView::Assistant(items) = &history[i - 1] {
            let mut j: usize = 0;
            while j < items.len()
                invariant
                    0 < i <= history.len(),
                    j <= items.len(),
                    assistant_items(history@[i - 1]) == items@,
                    history@[i - 1] is Assistant,
                    forall|l: int| i <= l < history@.len() ==> !calls_tool(#[trigger] history@[l], tool_name@),
                    forall|l: int| 0 <= l < j ==> !is_call_of(#[trigger] items@[l], tool_name@),
                decreases items.len() - j,
            {
                if let AssistantContent::ToolCall(tc) = &items[j] {
                    if str_eq(tc.name.as_str(), tool_name) {
                        assert(is_call_of(assistant_items(history@[i - 1])[j as int], tool_name@));
                        assert(calls_tool(history@[i - 1], tool_name@));
                        return Some(copy_items(items));
                    }
                }
                j = j + 1;
            }
        }
        i = i - 1;
    }
    None
}

// ---------------------------------------------------------------------------
// Tool results written back to the model
// ---------------------------------------------------------------------------

/// How executing a tool call went.
#[derive(Clone, Debug)]
pub enum ToolOutcome {
    /// The tool returned this output.
    Output(String),
    /// The tool failed; its error, rendered as text.
    Failed(String),
    /// The tool did not finish within the time limit.
    TimedOut,
}

/// A tool-result message for the next model turn.
#[derive(Clone, Debug)]
pub struct ToolResultMessage {
    /// The id of the tool call answered.
    pub tool_id: String,
    /// The provider call id, or a generated one.
    pub call_id: String,
    pub text: String,
}

/// `prefix` followed by the decimal cycle number.
pub open spec fn tagged(prefix: Seq<char>, cycle: usize) -> Seq<char> {
    prefix + decimal(cycle as nat)
}

/// The call id a result carries: the call's own, else `prefix` + cycle.
pub open spec fn call_id_of(tc: ToolCall, prefix: Seq<char>, cycle: usize) -> Seq<char> {
    match tc.call_id {
        Some(c) => c@,
        None => tagged(prefix, cycle),
    }
}

/// Builds the result message answering `tc` with `text`.
pub fn tool_result_message(tc: &ToolCall, text: String, prefix: &str, cycle: usize) -> (m:
    ToolResultMessage)
    ensures
        m.tool_id@ == tc.id@,
        m.call_id@ == call_id_of(*tc, prefix@, cycle),
        m.text == text,
{
    let call_id = match &tc.call_id {
        Some(c) => c.clone(),
        None => {
            let mut s = copy_str(prefix);
            push_decimal(&mut s, cycle);
            s
        },
    };
    ToolResultMessage { tool_id: tc.id.clone(), call_id, text }
}

/// The action recording a tool call.
pub fn action_for(tc: &ToolCall, cycle: usize) -> (a: Action)
    ensures
        step_view(ReActStep::Action(a)) == action_view(*tc, cycle),
{
    Action {
        tool_name: tc.name.clone(),
        args: tc.arguments.clone(),
        tool_call_id: Some(tc.id.clone()),
        cycle,
    }
}

/// The text of a timed-out call.
pub open spec fn timeout_text(name: Seq<char>, secs: u64) -> Seq<char> {
    lit("Tool '") + name + lit("' timed out after ") + decimal(secs as nat) + lit("s")
}

/// The observation a tool outcome yields.
pub open spec fn observation_view(
    tc: ToolCall,
    outcome: ToolOutcome,
    cycle: usize,
    timeout_secs: u64,
    duration_ms: u64,
) -> StepView {
    match outcome {
        ToolOutcome::Output(s) => StepView::Observation {
            tool_name: tc.name@,
            result: s@,
            is_error: false,
            cycle,
            duration_ms,
        },
        ToolOutcome::Failed(e) => StepView::Observation {
            tool_name: tc.name@,
            result: e@,
            is_error: true,
            cycle,
            duration_ms,
        },
        ToolOutcome::TimedOut => StepView::Observation {
            tool_name: tc.name@,
            result: timeout_text(tc.name@, timeout_secs),
            is_error: true,
            cycle,
            duration_ms,
        },
    }
}

/// The observation recording how a tool call went.
pub fn observation_for(
    tc: &ToolCall,
    outcome: ToolOutcome,
    cycle: usize,
    timeout_secs: u64,
    duration_ms: u64,
) -> (o: Observation)
    ensures
        step_view(ReActStep::Observation(o)) == observation_view(
            *tc,
            outcome,
            cycle,
            timeout_secs,
            duration_ms,
        ),
{
    let (result, is_error) = match outcome {
        ToolOutcome::Output(s) => (s, false),
        ToolOutcome::Failed(e) => (e, true),
        ToolOutcome::TimedOut => {
            let mut s = copy_str("Tool '");
            push_str(&mut s, tc.name.as_str());
            push_str(&mut s, "' timed out after ");
            push_decimal_u64(&mut s, timeout_secs);
            push_str(&mut s, "s");
            (s, true)
        },
    };
    Observation { tool_name: tc.name.clone(), result, is_error, cycle, duration_ms }
}

// ---------------------------------------------------------------------------
// Recovering from a call of an unknown tool
// ---------------------------------------------------------------------------

/// The feedback given for the call of an unavailable tool.
pub open spec fn unknown_tool_feedback(tool_name: Seq<char>, available: Seq<Seq<char>>) -> Seq<
    char,
> {
    lit("Error: tool '") + tool_name + lit("' is not available. Available tools: [") + join(
        available,
        lit(", "),
    ) + lit("]. Please call one of the available tools.")
}

/// The result given to the other calls of a turn that called an unavailable tool.
pub open spec fn skipped_call_text() -> Seq<char> {
    lit(
        "Tool call skipped because a peer tool call was invalid. Please retry this tool call.",
    )
}

/// What the loop does after the model called an unknown tool.
#[derive(Debug)]
pub enum PromptRecovery {
    /// Continue: `history_extensions` go to the history, `prompt` is the next prompt,
    /// `steps` were added to the trace.
    Recovered {
        history_extensions: Vec<ToolResultMessage>,
        prompt: ToolResultMessage,
        steps: Vec<ReActStep>,
    },
    /// Stop the loop with this error.
    Abort(ReActError),
}

/// The text answering the `i`-th call of a turn in which `tool_name` was unavailable.
pub open spec fn recovery_text(
    tc: ToolCall,
    tool_name: Seq<char>,
    available: Seq<Seq<char>>,
) -> Seq<char> {
    if tc.name@ == tool_name {
        unknown_tool_feedback(tool_name, available)
    } else {
        skipped_call_text()
    }
}

/// The steps recorded for the calls `calls` of a turn in which `tool_name`
/// was unavailable: for each call of that tool, in order, its action and an
/// error observation carrying the feedback.
pub open spec fn recovery_steps(
    calls: Seq<ToolCall>,
    tool_name: Seq<char>,
    available: Seq<Seq<char>>,
    cycle: usize,
) -> Seq<StepView>
    decreases calls.len(),
{
    if calls.len() == 0 {
        Seq::empty()
    } else {
        let prev = recovery_steps(calls.drop_last(), tool_name, available, cycle);
        let tc = calls.last();
        if tc.name@ == tool_name {
            prev.push(action_view(tc, cycle)).push(
                StepView::Observation {
                    tool_name: tc.name@,
                    result: unknown_tool_feedback(tool_name, available),
                    is_error: true,
                    cycle,
                    duration_ms: 0,
                },
            )
        } else {
            prev
        }
    }
}

/// The error when the offending message holds no tool call.
pub open spec fn recovery_failed_text(tool_name: Seq<char>) -> Seq<char> {
    lit("UnknownToolCall recovery failed: no tool calls in assistant message for '") + tool_name
        + lit("'")
}

/// Answers every tool call of the offending assistant message: the call of
/// the unavailable tool gets the list of available tools, the others are
/// told to retry. Every call of the unavailable tool is recorded in the trace
/// as an action followed by an error observation. The last answer becomes the
/// next prompt; with no tool call in the message the loop aborts.
pub fn recover_unknown_tool_call(
    tool_name: &str,
    available_tools: &Vec<String>,
    assistant: &Vec<AssistantContent>,
    cycle: usize,
) -> (r: PromptRecovery)
    ensures
        match r {
            PromptRecovery::Recovered { history_extensions, prompt, steps } => {
                let calls = super::content::tool_calls_of(assistant@);
                let answers = history_extensions@.push(prompt);
                &&& calls.len() > 0
                &&& answers.len() == calls.len()
                &&& forall|i: int|
                    0 <= i < calls.len() ==> {
                        &&& (#[trigger] answers[i]).tool_id@ == calls[i].id@
                        &&& answers[i].call_id@ == call_id_of(calls[i], lit("react-recovery-"), cycle)
                        &&& answers[i].text@ == recovery_text(
                            calls[i],
                            tool_name@,
                            views(available_tools@),
                        )
                    }
                &&& steps_view(steps@) == recovery_steps(calls, tool_name@, views(available_tools@), cycle)
            },
            PromptRecovery::Abort(e) => super::content::tool_calls_of(assistant@).len() == 0
                && (e matches ReActError::Model(m) && m@ == recovery_failed_text(tool_name@)),
        },
{
    let parsed = super::content::classify_assistant_content(assistant);
    let calls = parsed.tool_calls;
    let mut feedback = copy_str("Error: tool '");
    push_str(&mut feedback, tool_name);
    push_str(&mut feedback, "' is not available. Available tools: [");
    let joined = join_strings(available_tools, ", ");
    push_str(&mut feedback, joined.as_str());
    push_str(&mut feedback, "]. Please call one of the available tools.");
    let mut answers: Vec<ToolResultMessage> = Vec::new();
    let mut steps: Vec<ReActStep> = Vec::new();
    let mut i: usize = 0;
    while i < calls.len()
        invariant
            i <= calls.len(),
            calls@ == super::content::tool_calls_of(assistant@),
            feedback@ == unknown_tool_feedback(tool_name@, views(available_tools@)),
            answers@.len() == i,
            forall|k: int|
                0 <= k < i ==> {
                    &&& (#[trigger] answers@[k]).tool_id@ == calls@[k].id@
                    &&& answers@[k].call_id@ == call_id_of(calls@[k], lit("react-recovery-"), cycle)
                    &&& answers@[k].text@ == recovery_text(calls@[k], tool_name@, views(available_tools@))
                },
            steps_view(steps@) == recovery_steps(calls@.take(i as int), tool_name@, views(available_tools@), cycle),
        decreases calls.len() - i,
    {
        proof {
            assert(calls@.take(i + 1).drop_last() =~= calls@.take(i as int));
            assert(calls@.take(i + 1).last() == calls@[i as int]);
        }
        let tc = &calls[i];
        let is_invalid = str_eq(tc.name.as_str(), tool_name);
        let text = if is_invalid {
            feedback.clone()
        } else {
            copy_str(
                "Tool call skipped because a peer tool call was invalid. Please retry this tool call.",
            )
        };
        if is_invalid {
            let ghost before = steps@;
            let a = ReActStep::Action(action_for(tc, cycle));
            steps.push(a);
            let obs = Observation {
                tool_name: tc.name.clone(),
                result: text.clone(),
                is_error: true,
                cycle,
                duration_ms: 0,
            };
            steps.push(ReActStep::Observation(obs));
            proof {
                lemma_steps_view_push(before, a);
                lemma_steps_view_push(before.push(a), ReActStep::Observation(obs));
                assert(steps@ == before.push(a).push(ReActStep::Observation(obs)));
            }
        }
        let m = tool_result_message(tc, text, "react-recovery-", cycle);
        answers.push(m);
        i = i + 1;
    }
    assert(calls@.take(calls.len() as int) =~= calls@);
    match answers.pop() {
        Some(last) => {
            assert(answers@.push(last) =~= old_answers(answers@, last));
            PromptRecovery::Recovered { history_extensions: answers, prompt: last, steps }
        },
        None => {
            let mut msg = copy_str("UnknownToolCall recovery failed: no tool calls in assistant message for '");
            push_str(&mut msg, tool_name);
            push_str(&mut msg, "'");
            PromptRecovery::Abort(ReActError::Model(msg))
        },
    }
}

spec fn old_answers(a: Seq<ToolResultMessage>, last: ToolResultMessage) -> Seq<ToolResultMessage> {
    a.push(last)
}

/// `v` is the history message of the tool result `m`: a user message with
/// the single result of the call `m.tool_id`, whose single text is `m.text`.
pub open spec fn is_tool_result_view(v: MessageView, m: ToolResultMessage) -> bool {
    v matches MessageView::User(u) && u@.len() == 1 && (u@[0] matches UserContent::ToolResult {
        id,
        texts,
    } && id@ == m.tool_id@ && texts@.len() == 1 && texts@[0]@ == m.text@)
}

/// The history message of a tool result.
pub fn tool_result_view(m: &ToolResultMessage) -> (v: MessageView)
    ensures
        is_tool_result_view(v, *m),
{
    let mut texts: Vec<String> = Vec::new();
    texts.push(m.text.clone());
    let mut u: Vec<UserContent> = Vec::new();
    u.push(UserContent::ToolResult { id: m.tool_id.clone(), texts });
    MessageView::User(u)
}

/// Appends the history messages of `results`, in order.
pub fn append_tool_results(history: &mut Vec<MessageView>, results: &Vec<ToolResultMessage>)
    ensures
        final(history)@.len() == old(history)@.len() + results@.len(),
        old(history)@.is_prefix_of(final(history)@),
        forall|i: int|
            0 <= i < results@.len() ==> is_tool_result_view(
                #[trigger] final(history)@[old(history)@.len() + i],
                results@[i],
            ),
{
    let ghost start = history@;
    let mut i: usize = 0;
    while i < results.len()
        invariant
            i <= results.len(),
            history@.len() == start.len() + i,
            start.is_prefix_of(history@),
            forall|k: int|
                0 <= k < i ==> is_tool_result_view(#[trigger] history@[start.len() + k], results@[k]),
        decreases results.len() - i,
    {
        let ghost before = history@;
        history.push(tool_result_view(&results[i]));
        proof {
            assert forall|k: int| 0 <= k < i + 1 implies is_tool_result_view(
                #[trigger] history@[start.len() + k],
                results@[k],
            ) by {
                if k < i {
                    assert(history@[start.len() + k] == before[start.len() + k]);
                }
            }
            assert(history@.subrange(0, start.len() as int) =~= before.subrange(0, start.len() as int));
        }
        i = i + 1;
    }
}

/// Splits the answers of a turn's tool calls: all but the last go to the
/// history, the last is the next prompt.
pub fn split_tool_results(results: Vec<ToolResultMessage>) -> (r: (
    Vec<ToolResultMessage>,
    Option<ToolResultMessage>,
))
    ensures
        results@.len() == 0 ==> r.0@.len() == 0 && r.1 is None,
        results@.len() > 0 ==> r.0@ == results@.drop_last() && r.1 == Some(results@.last()),
{
    let mut rest = results;
    let last = rest.pop();
    (rest, last)
}

// ---------------------------------------------------------------------------
// Reasoning in history
// ---------------------------------------------------------------------------

/// Whether an assistant item is kept in persisted history: every item but
/// reasoning.
pub open spec fn kept_item(item: AssistantContent) -> bool {
    !(item is Reasoning)
}

/// The items of `items` kept in persisted history.
pub open spec fn kept_items(items: Seq<AssistantContent>) -> Seq<AssistantContent> {
    items.filter(|i: AssistantContent| kept_item(i))
}

/// Whether a message survives the removal of reasoning: an assistant message
/// only when something besides reasoning is left.
pub open spec fn survives(m: MessageView) -> bool {
    match m {
        MessageView::Assistant(items) => kept_items(items@).len() > 0,
        _ => true,
    }
}

/// The messages of `msgs` that survive the removal of reasoning.
pub open spec fn surviving(msgs: Seq<MessageView>) -> Seq<MessageView> {
    msgs.filter(|m: MessageView| survives(m))
}

/// `o` is the message `m` without its reasoning.
pub open spec fn stripped_as(m: MessageView, o: MessageView) -> bool {
    match m {
        MessageView::Assistant(items) => (o matches MessageView::Assistant(oi) && oi@ == kept_items(items@)),
        _ => o == m,
    }
}

/// Whether an assistant item is kept in persisted history.
pub fn keeps_item(item: &AssistantContent) -> (r: bool)
    ensures
        r == kept_item(*item),
{
    match item {
        AssistantContent::Reasoning(_) => false,
        _ => true,
    }
}

fn strip_items(items: Vec<AssistantContent>) -> (r: Vec<AssistantContent>)
    ensures
        r@ == kept_items(items@),
{
    let ghost orig = items@;
    let mut rest = items;
    let mut kept: Vec<AssistantContent> = Vec::new();
    let ghost mut k: int = 0;
    assert(orig.take(0) =~= Seq::<AssistantContent>::empty());
    proof {
        reveal(Seq::filter);
    }
    while rest.len() > 0
        invariant
            0 <= k <= orig.len(),
            rest@ == orig.subrange(k, orig.len() as int),
            kept@ == kept_items(orig.take(k)),
        decreases rest.len(),
    {
        let item = rest.remove(0);
        proof {
            assert(item == orig[k]);
            assert(orig.take(k + 1).drop_last() =~= orig.take(k));
            assert(orig.take(k + 1).last() == orig[k]);
            assert(rest@ =~= orig.subrange(k + 1, orig.len() as int));
        }
        let keep = match &item {
            AssistantContent::Reasoning(_) => false,
            _ => true,
        };
        proof {
            reveal(Seq::filter);
        }
        if keep {
            kept.push(item);
        }
        proof {
            k = k + 1;
        }
    }
    assert(orig.take(k) =~= orig);
    kept
}

/// Removes the reasoning blocks from history that is persisted and fed back
/// to the model; an assistant message that held only reasoning is dropped.
pub fn strip_reasoning_from_history(history: Vec<MessageView>) -> (r: Vec<MessageView>)
    ensures
        r@.len() == surviving(history@).len(),
        forall|i: int|
            0 <= i < r@.len() ==> stripped_as(
                #[trigger] surviving(history@)[i],
                r@[i],
            ),
{
    let ghost orig = history@;
    let mut rest = history;
    let mut out: Vec<MessageView> = Vec::new();
    let ghost mut k: int = 0;
    assert(orig.take(0) =~= Seq::<MessageView>::empty());
    proof {
        reveal(Seq::filter);
    }
    while rest.len() > 0
        invariant
            0 <= k <= orig.len(),
            rest@ == orig.subrange(k, orig.len() as int),
            out@.len() == surviving(orig.take(k)).len(),
            forall|i: int|
                0 <= i < out@.len() ==> stripped_as(
                    #[trigger] surviving(orig.take(k))[i],
                    out@[i],
                ),
        decreases rest.len(),
    {
        let m = rest.remove(0);
        let ghost prev = surviving(orig.take(k));
        proof {
            reveal(Seq::filter);
            assert(m == orig[k]);
            assert(orig.take(k + 1).drop_last() =~= orig.take(k));
            assert(orig.take(k + 1).last() == orig[k]);
            assert(rest@ =~= orig.subrange(k + 1, orig.len() as int));
        }
        match m {
            MessageView::Assistant(items) => {
                let filtered = strip_items(items);
                if filtered.len() > 0 {
                    out.push(MessageView::Assistant(filtered));
                    proof {
                        let cur = surviving(orig.take(k + 1));
                        assert(cur == prev.push(orig[k]));
                        assert forall|i: int| 0 <= i < out@.len() implies stripped_as(
                            #[trigger] cur[i],
                            out@[i],
                        ) by {
                            if i < prev.len() {
                                assert(cur[i] == prev[i]);
                            }
                        }
                    }
                } else {
                    proof {
                        let cur = surviving(orig.take(k + 1));
                        assert(cur == prev);
                    }
                }
            },
            other => {
                out.push(other);
                proof {
                    let cur = surviving(orig.take(k + 1));
                    assert(cur == prev.push(orig[k]));
                    assert forall|i: int| 0 <= i < out@.len() implies stripped_as(
                        #[trigger] cur[i],
                        out@[i],
                    ) by {
                        if i < prev.len() {
                            assert(cur[i] == prev[i]);
                        }
                    }
                }
            },
        }
        proof {
            k = k + 1;
        }
    }
    assert(orig.take(k) =~= orig);
    out
}

/// The text of the first text item of a user message, if any.
pub open spec fn first_user_text(items: Seq<UserContent>) -> Option<Seq<char>>
    decreases items.len(),
{
    if items.len() == 0 {
        None
    } else {
        match items[0] {
            UserContent::Text(t) => Some(t@),
            _ => first_user_text(items.drop_first()),
        }
    }
}

/// The text a prompt is compacted against: the first text item of a user
/// prompt, else `fallback`.
pub fn extract_prompt_text(prompt: &MessageView, fallback: &str) -> (r: String)
    ensures
        r@ == match *prompt {
            MessageView::User(items) => match first_user_text(items@) {
                Some(t) => t,
                None => fallback@,
            },
            _ => fallback@,
        },
{
    match prompt {
        MessageView::User(items) => {
            let mut i: usize = 0;
            assert(items@.skip(0) =~= items@);
            while i < items.len()
                invariant
                    i <= items.len(),
                    *prompt == MessageView::User(*items),
                    first_user_text(items@) == first_user_text(items@.skip(i as int)),
                decreases items.len() - i,
            {
                assert(items@.skip(i as int)[0] == items@[i as int]);
                match &items[i] {
                    UserContent::Text(t) => {
                        assert(first_user_text(items@.skip(i as int)) == Some(t@));
                        return t.clone();
                    },
                    _ => {},
                }
                assert(items@.skip(i as int).drop_first() =~= items@.skip(i + 1));
                i = i + 1;
            }
            assert(items@.skip(i as int).len() == 0);
            copy_str(fallback)
        },
        _ => copy_str(fallback),
    }
}

} // verus!
