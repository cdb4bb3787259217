//! The `compact` tool: the prompt that asks a model to summarize history.
use vstd::prelude::*;

use crate::text::{copy_str, lit, push_str};

verus! {

/// Arguments of the `compact` tool.
#[derive(Clone, Debug)]
pub struct CompactArgs {
    /// The conversation history or text to summarize.
    pub text: String,
}

/// The prompt asking for a summary of `text`.
pub open spec fn compact_prompt_text(text: Seq<char>) -> Seq<char> {
    lit(
        "Summarize the following conversation history while preserving key information, names, dates, and important technical details. Keep the summary concise:\n\n",
    ) + text
}

/// The prompt the `compact` tool sends to its model for `args`.
pub fn compact_prompt(args: &CompactArgs) -> (r: String)
    ensures
        r@ == compact_prompt_text(args.text@),
{
    let mut r = copy_str(
        "Summarize the following conversation history while preserving key information, names, dates, and important technical details. Keep the summary concise:\n\n",
    );
    push_str(&mut r, args.text.as_str());
    r
}

} // verus!
