//! The `think` tool: a place for the model to reason before acting, which
//! records the thought and acknowledges it.
use vstd::prelude::*;

use crate::text::{copy_str, lit};

verus! {

/// Arguments of the `think` tool.
#[derive(Clone, Debug)]
pub struct ThinkArgs {
    /// The reasoning or plan to record.
    pub thought: String,
}

/// The answer of the `think` tool.
#[derive(Clone, Debug)]
pub struct ThinkOutput {
    /// The recorded thought.
    pub thought: String,
    /// Always `true`.
    pub acknowledged: bool,
}

/// A reasoning tool with no side effects.
#[derive(Clone, Copy, Debug)]
pub struct ThinkTool;

impl ThinkTool {
    /// What the tool tells the model it does.
    pub fn description(&self) -> (r: String)
        ensures
            r@ == lit(
                "Use this tool to think through complex reasoning before acting. Records the thought in the agent's working memory.",
            ),
    {
        copy_str(
            "Use this tool to think through complex reasoning before acting. Records the thought in the agent's working memory.",
        )
    }

    /// Records the thought: it is echoed back, acknowledged.
    pub fn call(&self, args: ThinkArgs) -> (r: ThinkOutput)
        ensures
            r.thought == args.thought,
            r.acknowledged,
    {
        ThinkOutput { thought: args.thought, acknowledged: true }
    }
}

} // verus!
