//! Retrying transient model errors with exponential backoff.
use vstd::arithmetic::power::pow;
use vstd::arithmetic::power2::{
    lemma2_to64_rest, lemma_pow2, lemma_pow2_strictly_increases, lemma_pow2_unfold, pow2,
};
use vstd::prelude::*;

verus! {

/// The pause before the retry that follows the `k+1`-th failed attempt:
/// `500 * 2^k` milliseconds.
pub open spec fn retry_delay(k: nat) -> nat {
    500 * pow2(k)
}

/// Computes `500 * 2^k` milliseconds.
pub fn backoff_delay_ms(k: u32) -> (r: u64)
    requires
        k <= 55,
    ensures
        r == retry_delay(k as nat),
{
    proof {
        lemma2_to64_rest();
        if k < 55 {
            lemma_pow2_strictly_increases(k as nat, 55);
        }
        lemma_pow2(0);
        reveal(pow);
    }
    let mut p: u64 = 1;
    let mut i: u32 = 0;
    while i < k
        invariant
            i <= k <= 55,
            p == pow2(i as nat),
            pow2(k as nat) <= 0x80000000000000,
        decreases k - i,
    {
        proof {
            lemma_pow2_unfold((i + 1) as nat);
            if i + 1 < k {
                lemma_pow2_strictly_increases((i + 1) as nat, k as nat);
            }
        }
        p = p * 2;
        i = i + 1;
    }
    500 * p
}

/// The kinds of error a model call can fail with.
#[derive(Clone, Copy, Debug, PartialEq, Eq, Structural)]
pub enum PromptErrorKind {
    /// A transport error talking to the provider.
    Http,
    /// The provider answered with an error.
    Provider,
    /// Any other completion error (request building, response parsing, ...).
    OtherCompletion,
    /// The model's own tool loop ran out of turns.
    MaxTurns,
    /// The model called a tool that does not exist.
    UnknownToolCall,
    /// Any other error.
    Other,
}

/// Only transport and provider errors are worth retrying.
pub open spec fn retryable(kind: PromptErrorKind) -> bool {
    kind == PromptErrorKind::Http || kind == PromptErrorKind::Provider
}

/// Whether an error of this kind is transient and worth retrying.
pub fn is_retryable(kind: PromptErrorKind) -> (r: bool)
    ensures
        r == retryable(kind),
{
    match kind {
        PromptErrorKind::Http | PromptErrorKind::Provider => true,
        _ => false,
    }
}

/// The attempts made so far at one operation, retried with backoff.
#[derive(Debug)]
pub struct Backoff {
    pub attempt: u32,
    pub max_retries: u32,
}

/// What to do after an attempt failed.
#[derive(Debug, PartialEq, Eq, Structural)]
pub enum RetryStep {
    /// Sleep this many milliseconds, then try again.
    Sleep(u64),
    /// Give up and return the error.
    GiveUp,
}

impl Backoff {
    /// No attempt made yet.
    pub fn new(max_retries: u32) -> (r: Self)
        ensures
            r.attempt == 0,
            r.max_retries == max_retries,
    {
        Backoff { attempt: 0, max_retries }
    }

    /// An attempt failed with an error of kind `kind`: retry when the error
    /// is transient and fewer than `max_retries` attempts were made.
    pub fn on_failure(&mut self, kind: PromptErrorKind) -> (r: RetryStep)
        requires
            old(self).attempt < u32::MAX,
            retryable(kind) && old(self).attempt + 1 < old(self).max_retries ==> old(self).attempt
                <= 55,
        ensures
            final(self).attempt == old(self).attempt + 1,
            final(self).max_retries == old(self).max_retries,
            retryable(kind) && final(self).attempt < old(self).max_retries ==> r == RetryStep::Sleep(
                retry_delay(old(self).attempt as nat) as u64,
            ),
            !(retryable(kind) && final(self).attempt < old(self).max_retries) ==> r
                == RetryStep::GiveUp,
    {
        self.attempt = self.attempt + 1;
        if is_retryable(kind) && self.attempt < self.max_retries {
            RetryStep::Sleep(backoff_delay_ms(self.attempt - 1))
        } else {
            RetryStep::GiveUp
        }
    }
}

/// Each pause is twice the one before.
pub proof fn lemma_delay_doubles(k: nat)
    ensures
        retry_delay(k + 1) == 2 * retry_delay(k),
{
    lemma_pow2_unfold(k + 1);
}

} // verus!
