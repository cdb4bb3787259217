//! The managed agent: a chat with retries and optional history compaction.
//! The caller runs the model and the compaction model; the library holds the
//! agent's settings and says what the conversation history becomes.
use vstd::prelude::*;

use crate::invalid_tool::InvalidToolPolicy;
use crate::react::content::AssistantContent;
use crate::react::messages::{MessageView, UserContent};
use crate::react::settings::RETRY_POLICY_DEFAULT_RETRIES;
use crate::react::stream::{is_assistant_text, is_user_text};
use crate::text::copy_str;

verus! {

/// The settings of a managed agent.
#[derive(Clone, Copy, Debug)]
pub struct ManagedSettings {
    /// How often a failed chat is tried in all.
    pub max_retries: u32,
    pub invalid_tool_policy: InvalidToolPolicy,
    pub max_invalid_tool_call_retries: u32,
    /// Whether the retry budget for invalid tool calls was set explicitly.
    pub invalid_tool_retries_explicit: bool,
    /// The token count above which history is compacted; `None` without
    /// compaction, `Some(0)` while compaction awaits its threshold.
    pub compaction_threshold: Option<usize>,
}

/// The settings after choosing `policy` for invalid tool calls: `Retry`
/// brings a budget of 2 retries unless one was set explicitly.
pub open spec fn managed_with_policy(s: ManagedSettings, policy: InvalidToolPolicy) -> ManagedSettings {
    ManagedSettings {
        invalid_tool_policy: policy,
        max_invalid_tool_call_retries: if policy == InvalidToolPolicy::Retry
            && !s.invalid_tool_retries_explicit {
            RETRY_POLICY_DEFAULT_RETRIES
        } else {
            s.max_invalid_tool_call_retries
        },
        ..s
    }
}

impl ManagedSettings {
    /// The defaults: 3 tries, invalid tool calls skipped with no retry
    /// budget, no compaction.
    pub fn new() -> (r: Self)
        ensures
            r.max_retries == 3,
            r.invalid_tool_policy == InvalidToolPolicy::Skip,
            r.max_invalid_tool_call_retries == 0,
            !r.invalid_tool_retries_explicit,
            r.compaction_threshold is None,
    {
        ManagedSettings {
            max_retries: 3,
            invalid_tool_policy: InvalidToolPolicy::Skip,
            max_invalid_tool_call_retries: 0,
            invalid_tool_retries_explicit: false,
            compaction_threshold: None,
        }
    }

    /// Sets how often a failed chat is tried in all.
    pub fn max_retries(self, max_retries: u32) -> (r: Self)
        ensures
            r == (ManagedSettings { max_retries, ..self }),
    {
        ManagedSettings { max_retries, ..self }
    }

    /// Sets the invalid tool call policy; `Retry` brings a budget of 2
    /// retries unless one was set explicitly.
    pub fn invalid_tool_policy(self, policy: InvalidToolPolicy) -> (r: Self)
        ensures
            r == managed_with_policy(self, policy),
    {
        let mut s = self;
        s.invalid_tool_policy = policy;
        if policy == InvalidToolPolicy::Retry && !s.invalid_tool_retries_explicit {
            s.max_invalid_tool_call_retries = RETRY_POLICY_DEFAULT_RETRIES;
        }
        s
    }

    /// Sets the retry budget for invalid tool calls explicitly.
    pub fn max_invalid_tool_call_retries(self, n: u32) -> (r: Self)
        ensures
            r == (ManagedSettings {
                max_invalid_tool_call_retries: n,
                invalid_tool_retries_explicit: true,
                ..self
            }),
    {
        ManagedSettings { max_invalid_tool_call_retries: n, invalid_tool_retries_explicit: true, ..self }
    }

    /// Turns compaction on; a threshold must be set before the agent is used.
    pub fn with_compaction(self) -> (r: Self)
        ensures
            r == (ManagedSettings { compaction_threshold: Some(0usize), ..self }),
    {
        ManagedSettings { compaction_threshold: Some(0), ..self }
    }

    /// Sets the compaction threshold, which must be positive.
    pub fn threshold(self, n: usize) -> (r: Self)
        requires
            n > 0,
        ensures
            r == (ManagedSettings { compaction_threshold: Some(n), ..self }),
    {
        ManagedSettings { compaction_threshold: Some(n), ..self }
    }

    /// The settings are ready for use: compaction, when on, has a threshold.
    pub open spec fn ready(&self) -> bool {
        self.compaction_threshold != Some(0usize)
    }

    /// Whether the settings are ready for use.
    pub fn is_ready(&self) -> (r: bool)
        ensures
            r == self.ready(),
    {
        match self.compaction_threshold {
            Some(n) => n > 0,
            None => true,
        }
    }
}

/// The user message of `msg`.
pub fn user_text(msg: &str) -> (m: MessageView)
    ensures
        is_user_text(m, msg@),
{
    let mut u: Vec<UserContent> = Vec::new();
    u.push(UserContent::Text(copy_str(msg)));
    MessageView::User(u)
}

/// The assistant message of `answer`.
pub fn assistant_text(answer: &str) -> (m: MessageView)
    ensures
        is_assistant_text(m, answer@),
{
    let mut a: Vec<AssistantContent> = Vec::new();
    a.push(AssistantContent::Text(copy_str(answer)));
    MessageView::Assistant(a)
}

/// The history after a managed chat of `msg` on top of `working` (the
/// history as the chat saw it, after any compaction): when the chat failed
/// (`reply` is `None`) the caller's `history` stays as it was; when it
/// answered, the history is `working` followed by the user message and the
/// assistant's reply.
pub fn managed_chat_history(
    history: Vec<MessageView>,
    working: Vec<MessageView>,
    msg: &str,
    reply: Option<&str>,
) -> (r: Vec<MessageView>)
    ensures
        reply is None ==> r@ == history@,
        reply matches Some(s) ==> r@.len() == working@.len() + 2 && r@.take(working@.len() as int)
            == working@ && is_user_text(r@[working@.len() as int], msg@) && is_assistant_text(
            r@.last(),
            s@,
        ),
{
    match reply {
        None => history,
        Some(s) => {
            let mut r = working;
            let ghost w = r@;
            r.push(user_text(msg));
            r.push(assistant_text(s));
            assert(r@.take(w.len() as int) =~= w);
            r
        },
    }
}

/// A retry budget set explicitly survives a later choice of policy.
pub proof fn lemma_managed_explicit_retries_kept(s: ManagedSettings, n: u32, policy: InvalidToolPolicy)
    ensures
        managed_with_policy(
            ManagedSettings { max_invalid_tool_call_retries: n, invalid_tool_retries_explicit: true, ..s },
            policy,
        ).max_invalid_tool_call_retries == n,
{
}

} // verus!
