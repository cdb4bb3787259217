//! Observation of a ReAct run's progress, for tracing spans.
use vstd::prelude::*;

use super::types::{Action, Observation, ReActError, ReActTrace, Thought};

verus! {

/// Receives the events of a ReAct run; every method does nothing unless
/// overridden.
pub trait ReActSpanEmitter {
    /// A thought was recorded.
    fn emit_thought(&self, thought: &Thought) {
    }

    /// A cycle starts.
    fn emit_cycle_start(&self, cycle: usize) {
    }

    /// A cycle ended with this trace so far.
    fn emit_cycle_end(&self, cycle: usize, trace_so_far: &ReActTrace) {
    }

    /// An action was selected.
    fn emit_action(&self, action: &Action) {
    }

    /// An observation was recorded.
    fn emit_observation(&self, observation: &Observation) {
    }

    /// The run failed with `error`.
    fn emit_error(&self, error: &ReActError) {
    }
}

/// An emitter that ignores every event.
#[derive(Clone, Copy, Debug)]
pub struct NoopSpanEmitter;

impl ReActSpanEmitter for NoopSpanEmitter {
}

} // verus!
