//! What the loop reads out of an assistant message: reasoning, tool calls
//! and trailing text, and the `Final Answer:` sentinel.
use vstd::prelude::*;

use super::types::opt_view;
use crate::text::{
    ascii_fold, chars_of, copy_str, fold_ascii, join, join_strings, push_str, string_of_range, trim,
    trim_str, views,
};

verus! {

/// A tool call as the model emitted it.
#[derive(Clone, Debug)]
pub struct ToolCall {
    /// The provider's id of the call.
    pub id: String,
    /// The separate call id some providers attach, if any.
    pub call_id: Option<String>,
    /// The name of the tool the model asked for.
    pub name: String,
    /// The arguments, rendered as JSON text.
    pub arguments: String,
}

impl ToolCall {
    /// A field-by-field copy of this call.
    pub fn duplicate(&self) -> (r: Self)
        ensures
            r == *self,
    {
        ToolCall {
            id: self.id.clone(),
            call_id: match &self.call_id {
                Some(c) => Some(c.clone()),
                None => None,
            },
            name: self.name.clone(),
            arguments: self.arguments.clone(),
        }
    }
}

/// One item of an assistant message.
#[derive(Clone, Debug)]
pub enum AssistantContent {
    Text(String),
    /// A reasoning block, by its display text.
    Reasoning(String),
    ToolCall(ToolCall),
    Image,
}

impl AssistantContent {
    /// A field-by-field copy of this item.
    pub fn duplicate(&self) -> (r: Self)
        ensures
            r == *self,
    {
        match self {
            AssistantContent::Text(t) => AssistantContent::Text(t.clone()),
            AssistantContent::Reasoning(t) => AssistantContent::Reasoning(t.clone()),
            AssistantContent::ToolCall(tc) => AssistantContent::ToolCall(tc.duplicate()),
            AssistantContent::Image => AssistantContent::Image,
        }
    }
}

/// A copy of a sequence of assistant items.
pub fn copy_items(v: &Vec<AssistantContent>) -> (r: Vec<AssistantContent>)
    ensures
        r@ == v@,
{
    let mut r: Vec<AssistantContent> = Vec::new();
    let mut i: usize = 0;
    while i < v.len()
        invariant
            i <= v.len(),
            r@ == v@.take(i as int),
        decreases v.len() - i,
    {
        r.push(v[i].duplicate());
        assert(r@ =~= v@.take(i + 1));
        i = i + 1;
    }
    assert(v@.take(v.len() as int) =~= v@);
    r
}

/// An assistant message split by the role each item plays.
#[derive(Clone, Debug)]
pub struct ParsedAssistantContent {
    /// Reasoning blocks with text, and text items before the first tool call.
    pub reasoning_texts: Vec<String>,
    /// The tool calls, in order.
    pub tool_calls: Vec<ToolCall>,
    /// Text items after the last tool call.
    pub trailing_texts: Vec<String>,
}

/// `items` holds a tool call.
pub open spec fn has_tool_call(items: Seq<AssistantContent>) -> bool {
    exists|i: int| 0 <= i < items.len() && items[i] is ToolCall
}

/// The reasoning texts of `items`: non-empty reasoning blocks, and text
/// items that no tool call precedes.
pub open spec fn reasoning_of(items: Seq<AssistantContent>) -> Seq<Seq<char>>
    decreases items.len(),
{
    if items.len() == 0 {
        Seq::empty()
    } else {
        let prev = reasoning_of(items.drop_last());
        match items.last() {
            AssistantContent::Reasoning(t) => if t@.len() > 0 {
                prev.push(t@)
            } else {
                prev
            },
            AssistantContent::Text(t) => if has_tool_call(items.drop_last()) {
                prev
            } else {
                prev.push(t@)
            },
            _ => prev,
        }
    }
}

/// The tool calls of `items`, in order.
pub open spec fn tool_calls_of(items: Seq<AssistantContent>) -> Seq<ToolCall>
    decreases items.len(),
{
    if items.len() == 0 {
        Seq::empty()
    } else {
        let prev = tool_calls_of(items.drop_last());
        match items.last() {
            AssistantContent::ToolCall(tc) => prev.push(tc),
            _ => prev,
        }
    }
}

/// The text items of `items` that come after its last tool call (none when
/// it holds no tool call).
pub open spec fn trailing_of(items: Seq<AssistantContent>) -> Seq<Seq<char>>
    decreases items.len(),
{
    if items.len() == 0 {
        Seq::empty()
    } else {
        let prev = trailing_of(items.drop_last());
        match items.last() {
            AssistantContent::Text(t) => if has_tool_call(items.drop_last()) {
                prev.push(t@)
            } else {
                prev
            },
            AssistantContent::ToolCall(_) => Seq::empty(),
            _ => prev,
        }
    }
}

/// `p` is the classification of `items`.
pub open spec fn classifies(p: ParsedAssistantContent, items: Seq<AssistantContent>) -> bool {
    &&& views(p.reasoning_texts@) == reasoning_of(items)
    &&& p.tool_calls@ == tool_calls_of(items)
    &&& views(p.trailing_texts@) == trailing_of(items)
}

proof fn lemma_tool_calls_nonempty(items: Seq<AssistantContent>)
    ensures
        has_tool_call(items) <==> tool_calls_of(items).len() > 0,
    decreases items.len(),
{
    if items.len() > 0 {
        lemma_tool_calls_nonempty(items.drop_last());
        if has_tool_call(items) && !has_tool_call(items.drop_last()) {
            let i = choose|i: int| 0 <= i < items.len() && items[i] is ToolCall;
            if i < items.len() - 1 {
                assert(items.drop_last()[i] is ToolCall);
            }
        }
        if has_tool_call(items.drop_last()) {
            let i = choose|i: int| 0 <= i < items.len() - 1 && items.drop_last()[i] is ToolCall;
            assert(items[i] is ToolCall);
        }
        if items.last() is ToolCall {
            assert(items[items.len() - 1] is ToolCall);
        }
    }
}

/// Splits an assistant message into reasoning, tool calls and trailing text.
pub fn classify_assistant_content(content: &Vec<AssistantContent>) -> (p: ParsedAssistantContent)
    ensures
        classifies(p, content@),
        p.tool_calls@.len() == 0 <==> !has_tool_call(content@),
{
    let mut reasoning_texts: Vec<String> = Vec::new();
    let mut tool_calls: Vec<ToolCall> = Vec::new();
    let mut trailing_texts: Vec<String> = Vec::new();
    let mut seen_tool_call = false;
    let mut i: usize = 0;
    while i < content.len()
        invariant
            i <= content.len(),
            seen_tool_call == has_tool_call(content@.take(i as int)),
            views(reasoning_texts@) == reasoning_of(content@.take(i as int)),
            tool_calls@ == tool_calls_of(content@.take(i as int)),
            views(trailing_texts@) == trailing_of(content@.take(i as int)),
        decreases content.len() - i,
    {
        let ghost pre = content@.take(i as int);
        let ghost next = content@.take(i + 1);
        proof {
            assert(next.drop_last() =~= pre);
            assert(next.last() == content@[i as int]);
            assert(has_tool_call(next) == (has_tool_call(pre) || content@[i as int] is ToolCall))
                by {
                if has_tool_call(next) {
                    let k = choose|k: int| 0 <= k < next.len() && next[k] is ToolCall;
                    if k < i {
                        assert(pre[k] is ToolCall);
                    }
                }
                if has_tool_call(pre) {
                    let k = choose|k: int| 0 <= k < pre.len() && pre[k] is ToolCall;
                    assert(next[k] is ToolCall);
                }
                if content@[i as int] is ToolCall {
                    assert(next[i as int] is ToolCall);
                }
            }
        }
        match &content[i] {
            AssistantContent::Reasoning(t) => {
                if t.as_str().unicode_len() > 0 {
                    reasoning_texts.push(t.clone());
                    assert(views(reasoning_texts@) =~= views(reasoning_texts@).drop_last().push(
                        t@,
                    ));
                }
            },
            AssistantContent::Text(t) => {
                if seen_tool_call {
                    trailing_texts.push(t.clone());
                    assert(views(trailing_texts@) =~= views(trailing_texts@).drop_last().push(
                        t@,
                    ));
                } else {
                    reasoning_texts.push(t.clone());
                    assert(views(reasoning_texts@) =~= views(reasoning_texts@).drop_last().push(
                        t@,
                    ));
                }
            },
            AssistantContent::ToolCall(tc) => {
                seen_tool_call = true;
                tool_calls.push(tc.duplicate());
                trailing_texts = Vec::new();
            },
            AssistantContent::Image => {},
        }
        proof {
            assert(views(reasoning_texts@) =~= reasoning_of(next));
            assert(views(trailing_texts@) =~= trailing_of(next));
            assert(tool_calls@ =~= tool_calls_of(next));
        }
        i = i + 1;
    }
    proof {
        assert(content@.take(content.len() as int) =~= content@);
        lemma_tool_calls_nonempty(content@);
    }
    ParsedAssistantContent { reasoning_texts, tool_calls, trailing_texts }
}

// ---------------------------------------------------------------------------
// Final-answer sentinel
// ---------------------------------------------------------------------------

/// The sentinel, in lower case.
pub open spec fn final_answer_marker() -> Seq<char> {
    seq!['f', 'i', 'n', 'a', 'l', ' ', 'a', 'n', 's', 'w', 'e', 'r', ':']
}

/// `s` starts with the sentinel, ignoring ASCII case.
pub open spec fn starts_with_marker(s: Seq<char>) -> bool {
    &&& s.len() >= 13
    &&& forall|i: int| 0 <= i < 13 ==> ascii_fold(#[trigger] s[i]) == final_answer_marker()[i] as u32
}

/// What follows a leading `Final Answer:` sentinel (any ASCII case), trimmed,
/// when that is non-empty.
pub open spec fn final_answer_in(s: Seq<char>) -> Option<Seq<char>> {
    if starts_with_marker(s) && trim(s.skip(13)).len() > 0 {
        Some(trim(s.skip(13)))
    } else {
        None
    }
}

fn marker_char(i: usize) -> (c: char)
    requires
        i < 13,
    ensures
        c == final_answer_marker()[i as int],
{
    let m = ['f', 'i', 'n', 'a', 'l', ' ', 'a', 'n', 's', 'w', 'e', 'r', ':'];
    assert(m@ =~= final_answer_marker());
    m[i]
}

/// Detects a `Final Answer:` / `FINAL ANSWER:` sentinel at the start of `text`.
///
/// Returns the trimmed text after the sentinel, or `None` when the sentinel is
/// absent or nothing follows it.
pub fn detect_final_answer(text: &str) -> (r: Option<String>)
    ensures
        opt_view(r) == final_answer_in(text@),
{
    let v = chars_of(text);
    if v.len() < 13 {
        return None;
    }
    let mut i: usize = 0;
    while i < 13
        invariant
            i <= 13 <= v.len(),
            v@ == text@,
            forall|k: int| 0 <= k < i ==> ascii_fold(#[trigger] v@[k])
                == final_answer_marker()[k] as u32,
        decreases 13 - i,
    {
        if fold_ascii(v[i]) != marker_char(i) as u32 {
            assert(!starts_with_marker(text@)) by {
                assert(ascii_fold(text@[i as int]) != final_answer_marker()[i as int] as u32);
            }
            return None;
        }
        i = i + 1;
    }
    let rest = string_of_range(&v, 13, v.len());
    assert(rest@ =~= text@.skip(13));
    let answer = trim_str(rest.as_str());
    if answer.as_str().unicode_len() == 0 {
        None
    } else {
        Some(answer)
    }
}

/// The final answer carried by the text after the last tool call: the
/// trailing texts concatenated and trimmed, then searched for the sentinel.
pub open spec fn trailing_final_answer(trailing: Seq<Seq<char>>) -> Option<Seq<char>> {
    final_answer_in(trim(join(trailing, Seq::empty())))
}

/// Tries to detect a final answer in the text that follows the tool calls.
pub fn try_detect_final_answer(trailing_texts: &Vec<String>) -> (r: Option<String>)
    ensures
        opt_view(r) == trailing_final_answer(views(trailing_texts@)),
{
    let joined = join_strings(trailing_texts, "");
    assert(""@ =~= Seq::<char>::empty()) by {
        reveal_strlit("");
    }
    let full = trim_str(joined.as_str());
    detect_final_answer(full.as_str())
}

/// The thought text of a cycle: the reasoning texts joined by newlines, trimmed.
pub open spec fn thought_text_of(reasoning: Seq<Seq<char>>) -> Seq<char> {
    trim(join(reasoning, seq!['\n']))
}

/// Computes the thought text of a cycle.
pub fn thought_text(reasoning_texts: &Vec<String>) -> (r: String)
    ensures
        r@ == thought_text_of(views(reasoning_texts@)),
{
    let joined = join_strings(reasoning_texts, "\n");
    assert("\n"@ =~= seq!['\n']) by {
        reveal_strlit("\n");
    }
    trim_str(joined.as_str())
}

/// The prompt actually sent: the preamble, a blank line, then the prompt.
pub open spec fn effective_prompt_of(preamble: Option<Seq<char>>, prompt: Seq<char>) -> Seq<
    char,
> {
    match preamble {
        Some(p) => p + seq!['\n', '\n'] + prompt,
        None => prompt,
    }
}

/// Prepends the ReAct preamble, if any, to the user prompt.
pub fn effective_prompt(preamble: &Option<String>, prompt: &str) -> (r: String)
    ensures
        r@ == effective_prompt_of(opt_view(*preamble), prompt@),
{
    match preamble {
        Some(p) => {
            let mut r = p.clone();
            push_str(&mut r, "\n\n");
            assert("\n\n"@ =~= seq!['\n', '\n']) by {
                reveal_strlit("\n\n");
            }
            push_str(&mut r, prompt);
            r
        },
        None => copy_str(prompt),
    }
}

/// The preamble of a model call that carries a system suffix: the agent's
/// preamble, a blank line, the suffix and a newline; or the suffix alone.
pub open spec fn preamble_with_suffix_of(preamble: Option<Seq<char>>, suffix: Seq<char>) -> Seq<char> {
    match preamble {
        Some(p) => p + seq!['\n', '\n'] + suffix + seq!['\n'],
        None => suffix,
    }
}

/// Appends a system suffix to the agent's preamble for one model call.
pub fn preamble_with_suffix(preamble: &Option<String>, suffix: &str) -> (r: String)
    ensures
        r@ == preamble_with_suffix_of(opt_view(*preamble), suffix@),
{
    match preamble {
        Some(p) => {
            let mut r = p.clone();
            push_str(&mut r, "\n\n");
            push_str(&mut r, suffix);
            push_str(&mut r, "\n");
            proof {
                reveal_strlit("\n\n");
                reveal_strlit("\n");
            }
            r
        },
        None => copy_str(suffix),
    }
}

} // verus!
