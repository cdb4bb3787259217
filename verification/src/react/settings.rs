//! The settings a ReAct agent is built with, and how the builder's setters
//! change them.
use vstd::prelude::*;

use crate::invalid_tool::InvalidToolPolicy;

verus! {

/// Marks a builder without history compaction.
#[derive(Clone, Copy, Debug)]
pub struct NoCompaction;

/// The settings of a ReAct agent.
#[derive(Clone, Debug)]
pub struct ReActSettings {
    pub max_cycles: usize,
    pub max_retries: u32,
    pub invalid_tool_policy: InvalidToolPolicy,
    pub max_invalid_tool_call_retries: u32,
    /// Whether the retry budget for invalid tool calls was set explicitly.
    pub invalid_tool_retries_explicit: bool,
    pub tool_timeout_secs: u64,
    pub react_preamble: Option<String>,
    pub cycle_limit_reminder_msg: Option<String>,
    /// The token count above which history is compacted; `None` without compaction.
    pub compaction_threshold: Option<usize>,
}

/// The retry budget the `Retry` policy gets unless one was set explicitly.
pub const RETRY_POLICY_DEFAULT_RETRIES: u32 = 2;

/// The settings after choosing `policy` for invalid tool calls: `Retry`
/// brings a budget of 2 retries unless one was set explicitly.
pub open spec fn with_policy(s: ReActSettings, policy: InvalidToolPolicy) -> ReActSettings {
    ReActSettings {
        invalid_tool_policy: policy,
        max_invalid_tool_call_retries: if policy == InvalidToolPolicy::Retry
            && !s.invalid_tool_retries_explicit {
            RETRY_POLICY_DEFAULT_RETRIES
        } else {
            s.max_invalid_tool_call_retries
        },
        ..s
    }
}

/// The settings after setting the retry budget for invalid tool calls.
pub open spec fn with_retries(s: ReActSettings, n: u32) -> ReActSettings {
    ReActSettings { max_invalid_tool_call_retries: n, invalid_tool_retries_explicit: true, ..s }
}

impl ReActSettings {
    /// The defaults: 20 cycles, 3 retries, skip invalid tool calls with no
    /// retry budget, a 60 s tool timeout, no preamble, no reminder and no
    /// compaction.
    pub fn new() -> (r: Self)
        ensures
            r.max_cycles == 20,
            r.max_retries == 3,
            r.invalid_tool_policy == InvalidToolPolicy::Skip,
            r.max_invalid_tool_call_retries == 0,
            !r.invalid_tool_retries_explicit,
            r.tool_timeout_secs == 60,
            r.react_preamble is None,
            r.cycle_limit_reminder_msg is None,
            r.compaction_threshold is None,
    {
        ReActSettings {
            max_cycles: 20,
            max_retries: 3,
            invalid_tool_policy: InvalidToolPolicy::Skip,
            max_invalid_tool_call_retries: 0,
            invalid_tool_retries_explicit: false,
            tool_timeout_secs: 60,
            react_preamble: None,
            cycle_limit_reminder_msg: None,
            compaction_threshold: None,
        }
    }

    /// Sets the cycle limit, which must be at least 1.
    pub fn max_cycles(self, max_cycles: usize) -> (r: Self)
        requires
            max_cycles > 0,
        ensures
            r == (ReActSettings { max_cycles, ..self }),
    {
        ReActSettings { max_cycles, ..self }
    }

    /// Sets how often a failed model call is retried.
    pub fn max_retries(self, max_retries: u32) -> (r: Self)
        ensures
            r == (ReActSettings { max_retries, ..self }),
    {
        ReActSettings { max_retries, ..self }
    }

    /// Sets the invalid tool call policy; `Retry` brings a budget of 2
    /// retries unless one was set explicitly.
    pub fn invalid_tool_policy(self, policy: InvalidToolPolicy) -> (r: Self)
        ensures
            r == with_policy(self, policy),
    {
        let mut s = self;
        s.invalid_tool_policy = policy;
        if policy == InvalidToolPolicy::Retry && !s.invalid_tool_retries_explicit {
            s.max_invalid_tool_call_retries = RETRY_POLICY_DEFAULT_RETRIES;
        }
        s
    }

    /// Sets the retry budget for invalid tool calls explicitly.
    pub fn max_invalid_tool_call_retries(self, n: u32) -> (r: Self)
        ensures
            r == with_retries(self, n),
    {
        ReActSettings { max_invalid_tool_call_retries: n, invalid_tool_retries_explicit: true, ..self }
    }

    /// Sets the time a tool call may take, in seconds.
    pub fn tool_timeout_secs(self, secs: u64) -> (r: Self)
        ensures
            r == (ReActSettings { tool_timeout_secs: secs, ..self }),
    {
        ReActSettings { tool_timeout_secs: secs, ..self }
    }

    /// Sets the preamble given before the user prompt.
    pub fn react_preamble(self, preamble: Option<String>) -> (r: Self)
        ensures
            r == (ReActSettings { react_preamble: preamble, ..self }),
    {
        ReActSettings { react_preamble: preamble, ..self }
    }

    /// Sets the reminder given when the cycle limit nears.
    pub fn set_cycle_limit_reminder_msg(self, msg: Option<String>) -> (r: Self)
        ensures
            r == (ReActSettings { cycle_limit_reminder_msg: msg, ..self }),
    {
        ReActSettings { cycle_limit_reminder_msg: msg, ..self }
    }

    /// Turns compaction on, with a threshold of 0 until one is set.
    pub fn with_compaction(self) -> (r: Self)
        ensures
            r == (ReActSettings { compaction_threshold: Some(0usize), ..self }),
    {
        ReActSettings { compaction_threshold: Some(0), ..self }
    }

    /// Sets the compaction threshold, which must be positive.
    pub fn threshold(self, n: usize) -> (r: Self)
        requires
            n > 0,
        ensures
            r == (ReActSettings { compaction_threshold: Some(n), ..self }),
    {
        ReActSettings { compaction_threshold: Some(n), ..self }
    }
}

/// A retry budget set explicitly survives any later choice of policy,
/// whichever order the two setters are called in.
pub proof fn lemma_explicit_retries_kept(s: ReActSettings, n: u32, policy: InvalidToolPolicy)
    ensures
        with_policy(with_retries(s, n), policy).max_invalid_tool_call_retries == n,
        with_retries(with_policy(s, policy), n).max_invalid_tool_call_retries == n,
        with_policy(with_retries(s, n), policy).invalid_tool_policy == policy,
{
}

/// Choosing `Retry` without an explicit budget gives a budget of 2.
pub proof fn lemma_retry_policy_budget(s: ReActSettings)
    requires
        !s.invalid_tool_retries_explicit,
    ensures
        with_policy(s, InvalidToolPolicy::Retry).max_invalid_tool_call_retries == RETRY_POLICY_DEFAULT_RETRIES,
{
}

} // verus!
