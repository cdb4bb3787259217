//! Recovery from tool calls that name an unknown or disallowed tool.
use vstd::prelude::*;

use crate::text::{copy_str, join, join_strings, lit, push_str, views};

verus! {

/// Policy for handling tool calls that name an unknown or disallowed tool.
#[derive(Clone, Copy, Debug, PartialEq, Eq, Structural)]
pub enum InvalidToolPolicy {
    /// Abort the run with an error.
    Fail,
    /// Inject corrective feedback into the model's next turn.
    Skip,
    /// Re-run the model with the corrective feedback, within the retry budget.
    Retry,
}

impl Default for InvalidToolPolicy {
    /// The default policy is `Skip`.
    fn default() -> (r: Self)
        ensures
            r == InvalidToolPolicy::Skip,
    {
        InvalidToolPolicy::Skip
    }
}

/// The corrective feedback for a call of `tool_name` when `allowed` are the
/// names the model may use.
pub open spec fn feedback_text(tool_name: Seq<char>, allowed: Seq<Seq<char>>) -> Seq<char> {
    lit("Error: tool `") + tool_name + lit("` is unknown or not allowed this turn.\nUse one of these exact names: [")
        + join(allowed, lit(", ")) + lit(
        "].\nDo not invent tool names. Call a listed tool or produce a final answer.",
    )
}

/// Builds the corrective feedback injected when a tool call names an unknown
/// or disallowed tool: an error line listing the exact allowed names and an
/// instruction to call one of them or produce a final answer.
pub fn invalid_tool_feedback(tool_name: &str, allowed_tools: &Vec<String>) -> (r: String)
    ensures
        r@ == feedback_text(tool_name@, views(allowed_tools@)),
{
    let allowed = join_strings(allowed_tools, ", ");
    let mut r = copy_str("Error: tool `");
    push_str(&mut r, tool_name);
    push_str(&mut r, "` is unknown or not allowed this turn.\nUse one of these exact names: [");
    push_str(&mut r, allowed.as_str());
    push_str(&mut r, "].\nDo not invent tool names. Call a listed tool or produce a final answer.");
    r
}

/// What the run does after an invalid tool call.
#[derive(Debug)]
pub enum RecoveryFlow {
    /// Skip the call and give the model this feedback.
    Skip(String),
    /// Abort the run.
    Fail,
    /// Run the model again with this feedback.
    Retry(String),
}

/// Recovers from invalid tool calls according to its policy, turning a hard
/// failure into corrective feedback for the model.
#[derive(Clone, Copy, Debug)]
pub struct InvalidToolRecoveryHook {
    policy: InvalidToolPolicy,
}

impl InvalidToolRecoveryHook {
    /// The policy this hook applies.
    pub closed spec fn spec_policy(&self) -> InvalidToolPolicy {
        self.policy
    }

    /// A hook with the given recovery policy.
    pub fn new(policy: InvalidToolPolicy) -> (r: Self)
        ensures
            r.spec_policy() == policy,
    {
        InvalidToolRecoveryHook { policy }
    }

    /// The policy this hook applies.
    pub fn policy(&self) -> (r: InvalidToolPolicy)
        ensures
            r == self.spec_policy(),
    {
        self.policy
    }

    /// The answer to a call of `tool_name`: the feedback lists the names
    /// allowed this turn, or every available name when none is restricted.
    pub fn on_invalid_tool_call(
        &self,
        tool_name: &str,
        allowed_tools: &Vec<String>,
        available_tools: &Vec<String>,
    ) -> (r: RecoveryFlow)
        ensures
            ({
                let names = if allowed_tools@.len() > 0 {
                    views(allowed_tools@)
                } else {
                    views(available_tools@)
                };
                match self.spec_policy() {
                    InvalidToolPolicy::Skip => r matches RecoveryFlow::Skip(t) && t@ == feedback_text(
                        tool_name@,
                        names,
                    ),
                    InvalidToolPolicy::Fail => r is Fail,
                    InvalidToolPolicy::Retry => r matches RecoveryFlow::Retry(t) && t@
                        == feedback_text(tool_name@, names),
                }
            }),
    {
        let allowed = if allowed_tools.len() > 0 {
            allowed_tools
        } else {
            available_tools
        };
        match self.policy {
            InvalidToolPolicy::Skip => RecoveryFlow::Skip(invalid_tool_feedback(tool_name, allowed)),
            InvalidToolPolicy::Fail => RecoveryFlow::Fail,
            InvalidToolPolicy::Retry => RecoveryFlow::Retry(invalid_tool_feedback(tool_name, allowed)),
        }
    }
}

} // verus!
