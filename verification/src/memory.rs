//! Token accounting of conversation history and the decisions of history
//! compaction.
use vstd::prelude::*;

use crate::react::messages::MessageView;
use crate::text::{chars_of, copy_str, lit, push_str};

verus! {

/// The number of tokens of `text` in the cl100k_base encoding, special
/// tokens allowed, or `None` when that encoding cannot be loaded or the text
/// cannot be encoded.
pub uninterp spec fn cl100k_count(text: Seq<char>) -> Option<nat>;

/// Counts the tokens of `text` with `tiktoken_rs::cl100k_base` and
/// `CoreBPE::count`, every special token allowed (`CoreBPE::special_tokens`);
/// `None` when loading the encoding or encoding the text fails. The contract
/// claims only that the result is `cl100k_count` of the input, a function of
/// the input alone.
#[verifier::external_body]
fn cl100k_tokens(text: &str) -> (r: Option<usize>)
    ensures
        r matches Some(n) ==> cl100k_count(text@) == Some(n as nat),
        r is None ==> cl100k_count(text@) is None,
{
    let bpe = tiktoken_rs::cl100k_base().ok()?;
    let special = bpe.special_tokens();
    bpe.count(text, &special).ok()
}

/// The token estimate of a string: its cl100k_base token count, or a
/// quarter of its characters when the encoding is unavailable.
pub open spec fn string_tokens(text: Seq<char>) -> nat {
    match cl100k_count(text) {
        Some(n) => n,
        None => text.len() / 4,
    }
}

/// The token estimate of `text` given what the tokenizer counted.
pub fn tokens_or_estimate(counted: Option<usize>, text: &str) -> (r: usize)
    ensures
        counted matches Some(n) ==> r == n,
        counted is None ==> r == text@.len() / 4,
{
    match counted {
        Some(n) => n,
        None => chars_of(text).len() / 4,
    }
}

/// The token estimate of `text`.
pub fn count_string_tokens(text: &str) -> (r: usize)
    ensures
        r == string_tokens(text@),
{
    tokens_or_estimate(cl100k_tokens(text), text)
}

/// `n`, or the largest `usize` when `n` does not fit in one.
pub open spec fn saturated(n: int) -> int {
    if n > usize::MAX {
        usize::MAX as int
    } else {
        n
    }
}

/// The token estimate of one message given as its texts (each content item's
/// text, or its serialization): the texts' tokens plus 4.
pub open spec fn message_tokens(parts: Seq<Seq<char>>) -> int
    decreases parts.len(),
{
    if parts.len() == 0 {
        4
    } else {
        message_tokens(parts.drop_last()) + string_tokens(parts.last())
    }
}

/// The token estimate of messages.
pub open spec fn messages_tokens(messages: Seq<Seq<Seq<char>>>) -> int
    decreases messages.len(),
{
    if messages.len() == 0 {
        0
    } else {
        messages_tokens(messages.drop_last()) + message_tokens(messages.last())
    }
}

proof fn lemma_message_tokens_grow(parts: Seq<Seq<char>>)
    ensures
        message_tokens(parts) >= 4,
    decreases parts.len(),
{
    if parts.len() > 0 {
        lemma_message_tokens_grow(parts.drop_last());
    }
}

proof fn lemma_messages_tokens_grow(messages: Seq<Seq<Seq<char>>>)
    ensures
        messages_tokens(messages) >= 0,
    decreases messages.len(),
{
    if messages.len() > 0 {
        lemma_messages_tokens_grow(messages.drop_last());
        lemma_message_tokens_grow(messages.last());
    }
}

/// Every text of a message counts: appending a text `t` to a message raises
/// its estimate by exactly the estimate of `t`, and a message made of the
/// texts of `a` followed by those of `b` is estimated at the sum of the two
/// estimates, less the 4 counted once per message.
pub proof fn lemma_message_tokens_each_text(parts: Seq<Seq<char>>, t: Seq<char>, b: Seq<Seq<char>>)
    ensures
        message_tokens(parts.push(t)) == message_tokens(parts) + string_tokens(t),
        message_tokens(parts + b) == message_tokens(parts) + message_tokens(b) - 4,
    decreases b.len(),
{
    assert(parts.push(t).drop_last() =~= parts);
    if b.len() == 0 {
        assert(parts + b =~= parts);
    } else {
        lemma_message_tokens_each_text(parts, t, b.drop_last());
        assert((parts + b).drop_last() =~= parts + b.drop_last());
        assert((parts + b).last() == b.last());
    }
}

/// The token estimate of a conversation is the sum of its parts: the
/// estimate of `a` followed by `b` is that of `a` plus that of `b`.
pub proof fn lemma_messages_tokens_sum(a: Seq<Seq<Seq<char>>>, b: Seq<Seq<Seq<char>>>)
    ensures
        messages_tokens(a + b) == messages_tokens(a) + messages_tokens(b),
    decreases b.len(),
{
    if b.len() == 0 {
        assert(a + b =~= a);
    } else {
        lemma_messages_tokens_sum(a, b.drop_last());
        assert((a + b).drop_last() =~= a + b.drop_last());
        assert((a + b).last() == b.last());
    }
}

/// The texts of each message, by their characters.
pub open spec fn message_texts(messages: Seq<Vec<String>>) -> Seq<Seq<Seq<char>>> {
    messages.map_values(|m: Vec<String>| m@.map_values(|s: String| s@))
}

/// The token estimate of messages, each given as the texts of its content
/// items: 4 per message plus the tokens of its texts, capped at the largest
/// `usize`.
pub fn count_messages_tokens(messages: &Vec<Vec<String>>) -> (r: usize)
    ensures
        r == saturated(messages_tokens(message_texts(messages@))),
{
    let ghost all = message_texts(messages@);
    let mut total: usize = 0;
    let mut i: usize = 0;
    assert(all.take(0) =~= Seq::<Seq<Seq<char>>>::empty());
    while i < messages.len()
        invariant
            i <= messages.len(),
            all == message_texts(messages@),
            total == saturated(messages_tokens(all.take(i as int))),
        decreases messages.len() - i,
    {
        let parts = &messages[i];
        let ghost pv = all[i as int];
        assert(pv == parts@.map_values(|s: String| s@));
        let mut sum: usize = 4;
        let mut j: usize = 0;
        assert(pv.take(0) =~= Seq::<Seq<char>>::empty());
        while j < parts.len()
            invariant
                j <= parts.len(),
                pv == parts@.map_values(|s: String| s@),
                sum == saturated(message_tokens(pv.take(j as int))),
            decreases parts.len() - j,
        {
            let n = count_string_tokens(parts[j].as_str());
            proof {
                assert(pv.take(j + 1).drop_last() =~= pv.take(j as int));
                assert(pv.take(j + 1).last() == parts@[j as int]@);
                lemma_message_tokens_grow(pv.take(j as int));
            }
            sum = sum.saturating_add(n);
            j = j + 1;
        }
        assert(pv.take(parts.len() as int) =~= pv);
        proof {
            assert(all.take(i + 1).drop_last() =~= all.take(i as int));
            assert(all.take(i + 1).last() == pv);
            lemma_messages_tokens_grow(all.take(i as int));
            lemma_message_tokens_grow(pv);
        }
        total = total.saturating_add(sum);
        i = i + 1;
    }
    assert(all.take(messages.len() as int) =~= all);
    total
}

/// The token estimate of history plus the prompt, capped at the largest `usize`.
pub fn estimate_tokens(history_tokens: usize, prompt: &str) -> (r: usize)
    ensures
        r == saturated(history_tokens + string_tokens(prompt@)),
{
    history_tokens.saturating_add(count_string_tokens(prompt))
}

/// History is compacted when the estimate exceeds the threshold and there is
/// history to compact.
pub fn needs_compaction(current_tokens: usize, threshold: usize, history_len: usize) -> (r: bool)
    ensures
        r == (current_tokens > threshold && history_len > 0),
{
    current_tokens > threshold && history_len > 0
}

/// The prompt asking the compaction model to summarize history.
pub open spec fn compaction_prompt_text(history_text: Seq<char>) -> Seq<char> {
    lit(
        "Summarize the following conversation history concisely, preserving key facts, names, dates, and technical details. This summary will serve as the memory for future interactions:\n\n",
    ) + history_text
}

/// The default compaction prompt for the serialized history.
pub fn default_compaction_prompt(history_text: &str) -> (r: String)
    ensures
        r@ == compaction_prompt_text(history_text@),
{
    let mut r = copy_str(
        "Summarize the following conversation history concisely, preserving key facts, names, dates, and technical details. This summary will serve as the memory for future interactions:\n\n",
    );
    push_str(&mut r, history_text);
    r
}

/// The compaction prompt for the serialized history: the configured
/// formatter's, or the default one when none is configured.
pub fn compaction_prompt<F: Fn(&str) -> String>(formatter: Option<&F>, history_text: &str) -> (r: String)
    requires
        formatter matches Some(f) ==> call_requires(*f, (history_text,)),
    ensures
        formatter is None ==> r@ == compaction_prompt_text(history_text@),
        formatter matches Some(f) ==> call_ensures(*f, (history_text,), r),
{
    match formatter {
        Some(f) => f(history_text),
        None => default_compaction_prompt(history_text),
    }
}

/// The history after compaction: the summary as its only, system, message.
pub fn compacted_history(summary: String) -> (r: Vec<MessageView>)
    ensures
        r@.len() == 1,
        r@[0] matches MessageView::System(s) && s == summary,
{
    let mut r: Vec<MessageView> = Vec::new();
    r.push(MessageView::System(summary));
    r
}

} // verus!
