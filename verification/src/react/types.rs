//! The records a ReAct run produces: thoughts, actions, observations, the
//! final answer, the trace that collects them, and the loop's errors.
use vstd::prelude::*;

use crate::text::{copy_str, decimal, lit, push_decimal, push_str};

verus! {

/// A reasoning step emitted by the model in a given cycle.
#[derive(Clone, Debug)]
pub struct Thought {
    pub reasoning: String,
    pub cycle: usize,
}

/// A tool call selected by the model.
#[derive(Clone, Debug)]
pub struct Action {
    pub tool_name: String,
    pub args: String,
    pub tool_call_id: Option<String>,
    pub cycle: usize,
}

/// The result of executing a tool call.
#[derive(Clone, Debug)]
pub struct Observation {
    pub tool_name: String,
    pub result: String,
    pub is_error: bool,
    pub cycle: usize,
    /// Wall-clock time the tool took, in milliseconds.
    pub duration_ms: u64,
}

/// The answer a run terminated with, and how many cycles it took.
#[derive(Clone, Debug)]
pub struct FinalAnswer {
    pub text: String,
    pub cycles: usize,
}

/// One entry of a [`ReActTrace`].
#[derive(Clone, Debug)]
pub enum ReActStep {
    Thought(Thought),
    Action(Action),
    Observation(Observation),
    FinalAnswer(FinalAnswer),
}

/// Everything a run produced, in order.
#[derive(Clone, Debug)]
pub struct ReActTrace {
    pub prompt: String,
    pub steps: Vec<ReActStep>,
    pub final_answer: Option<FinalAnswer>,
}

/// Why a ReAct run stopped without an answer.
#[derive(Clone, Debug)]
pub enum ReActError {
    /// The model (or compaction) call failed with this message.
    Model(String),
    /// The model answered with neither a tool call nor any text.
    NoToolCallsAndNoFinalAnswer { cycle: usize },
    /// The cycle budget ran out.
    MaxCyclesExceeded { cycles: usize },
}

/// The view of an optional string.
pub open spec fn opt_view(o: Option<String>) -> Option<Seq<char>> {
    match o {
        Some(s) => Some(s@),
        None => None,
    }
}

/// The message of an error, as its `Display` renders it.
pub open spec fn error_message(e: ReActError) -> Seq<char> {
    match e {
        ReActError::Model(m) => lit("model error: ") + m@,
        ReActError::NoToolCallsAndNoFinalAnswer { cycle } => lit(
            "model returned no tool calls and no final answer in cycle ",
        ) + decimal(cycle as nat),
        ReActError::MaxCyclesExceeded { cycles } => lit("maximum number of cycles exceeded: ")
            + decimal(cycles as nat),
    }
}

impl ReActError {
    /// The human-readable message of this error.
    pub fn message(&self) -> (r: String)
        ensures
            r@ == error_message(*self),
    {
        match self {
            ReActError::Model(m) => {
                let mut r = copy_str("model error: ");
                push_str(&mut r, m.as_str());
                r
            },
            ReActError::NoToolCallsAndNoFinalAnswer { cycle } => {
                let mut r = copy_str("model returned no tool calls and no final answer in cycle ");
                push_decimal(&mut r, *cycle);
                r
            },
            ReActError::MaxCyclesExceeded { cycles } => {
                let mut r = copy_str("maximum number of cycles exceeded: ");
                push_decimal(&mut r, *cycles);
                r
            },
        }
    }
}

/// A trace with no steps yet.
pub fn new_trace(prompt: &str) -> (t: ReActTrace)
    ensures
        t.prompt@ == prompt@,
        t.steps@.len() == 0,
        t.final_answer is None,
{
    ReActTrace { prompt: copy_str(prompt), steps: Vec::new(), final_answer: None }
}

} // verus!
