//! The embedding service: how texts are split into provider batches, how
//! document fragments are traced back to their documents, and the checks on
//! what the provider returns.
use vstd::prelude::*;

use crate::text::{copy_str, decimal, lit, push_decimal, push_str};

verus! {

/// Embeds texts with a model, in batches the provider accepts.
#[derive(Clone, Debug)]
pub struct EmbeddingService<M> {
    model: M,
    ndims: usize,
    max_documents: usize,
}

impl<M> EmbeddingService<M> {
    /// The model.
    pub closed spec fn spec_model(&self) -> M {
        self.model
    }

    /// The dimensions of the model's embeddings.
    pub closed spec fn spec_ndims(&self) -> usize {
        self.ndims
    }

    /// The largest batch the model accepts, as the model states it.
    pub closed spec fn model_max_documents(&self) -> usize {
        self.max_documents
    }

    /// A service over `model`, whose embeddings have `ndims` dimensions and
    /// which accepts batches of at most `max_documents` texts.
    pub fn new(model: M, ndims: usize, max_documents: usize) -> (r: Self)
        ensures
            r.spec_model() == model,
            r.spec_ndims() == ndims,
            r.model_max_documents() == max_documents,
    {
        EmbeddingService { model, ndims, max_documents }
    }

    /// The model.
    pub fn model(&self) -> (r: &M)
        ensures
            *r == self.spec_model(),
    {
        &self.model
    }

    /// The dimensions of the embeddings.
    pub fn ndims(&self) -> (r: usize)
        ensures
            r == self.spec_ndims(),
    {
        self.ndims
    }

    /// The batch size used: the model's limit, but at least 1.
    pub fn max_documents(&self) -> (r: usize)
        ensures
            r == if self.model_max_documents() >= 1 {
                self.model_max_documents()
            } else {
                1
            },
    {
        if self.max_documents >= 1 {
            self.max_documents
        } else {
            1
        }
    }
}

/// The batches of `n` texts, `size` at a time: `[k * size, min((k + 1) * size, n))`.
pub open spec fn batches_ok(b: Seq<(usize, usize)>, n: int, size: int) -> bool {
    &&& n == 0 ==> b.len() == 0
    &&& n > 0 ==> b.len() > 0 && b[b.len() - 1].1 == n
    &&& forall|k: int|
        0 <= k < b.len() ==> (#[trigger] b[k]).0 == k * size && b[k].1 == (if k * size + size < n {
            k * size + size
        } else {
            n
        }) && b[k].0 < n
}

/// The batches to send for `n` texts with batch size `size`.
pub fn plan_batches(n: usize, size: usize) -> (r: Vec<(usize, usize)>)
    requires
        size >= 1,
    ensures
        batches_ok(r@, n as int, size as int),
{
    let mut r: Vec<(usize, usize)> = Vec::new();
    let mut start: usize = 0;
    assert(0 * size == 0) by (nonlinear_arith);
    while start < n
        invariant
            size >= 1,
            start <= n,
            start < n ==> start == r@.len() * size,
            start == 0 ==> r@.len() == 0,
            n > 0 && start == n ==> r@.len() > 0 && r@[r@.len() - 1].1 == n,
            start < n ==> forall|k: int| 0 <= k < r@.len() ==> (#[trigger] r@[k]).1 < n,
            forall|k: int|
                0 <= k < r@.len() ==> (#[trigger] r@[k]).0 == k * size && r@[k].1 == if k * size + size
                    < n {
                    k * size + size
                } else {
                    n as int
                } && r@[k].0 < n,
        decreases n - start,
    {
        let end = if size < n - start {
            start + size
        } else {
            n
        };
        proof {
            assert((r@.len() + 1) * size == r@.len() * size + size) by (nonlinear_arith);
        }
        r.push((start, end));
        start = end;
    }
    r
}

/// The error for an empty request.
pub open spec fn empty_texts_text() -> Seq<char> {
    lit("cannot embed an empty text collection")
}

/// Refuses to embed no text.
pub fn check_texts(n: usize) -> (r: Result<(), String>)
    ensures
        n == 0 ==> (r matches Err(m) && m@ == empty_texts_text()),
        n > 0 ==> r is Ok,
{
    if n == 0 {
        Err(copy_str("cannot embed an empty text collection"))
    } else {
        Ok(())
    }
}

/// The error when the provider answers a batch with the wrong number of
/// embeddings.
pub open spec fn count_mismatch_text(returned: nat, expected: nat, what: Seq<char>) -> Seq<char> {
    lit("provider returned ") + decimal(returned) + lit(" embeddings for ") + decimal(expected) + lit(
        " ",
    ) + what
}

/// Checks that the provider returned one embedding per text of the batch;
/// `fragments` says whether the texts are document fragments.
pub fn check_batch(returned: usize, expected: usize, fragments: bool) -> (r: Result<(), String>)
    ensures
        returned == expected ==> r is Ok,
        returned != expected ==> (r matches Err(m) && m@ == count_mismatch_text(
            returned as nat,
            expected as nat,
            if fragments {
                lit("document fragments")
            } else {
                lit("texts")
            },
        )),
{
    if returned == expected {
        return Ok(());
    }
    let mut m = copy_str("provider returned ");
    push_decimal(&mut m, returned);
    push_str(&mut m, " embeddings for ");
    push_decimal(&mut m, expected);
    push_str(&mut m, " ");
    if fragments {
        push_str(&mut m, "document fragments");
    } else {
        push_str(&mut m, "texts");
    }
    Err(m)
}

/// Why documents could not be prepared for embedding.
#[derive(Clone, Copy, Debug, PartialEq, Eq, Structural)]
pub enum FragmentError {
    /// A document produced no text to embed.
    EmptyDocument,
    /// There is no document.
    NoDocuments,
}

/// The message of a fragment error.
pub open spec fn fragment_error_text(e: FragmentError) -> Seq<char> {
    match e {
        FragmentError::EmptyDocument => lit("a document produced no embeddable text values"),
        FragmentError::NoDocuments => lit("cannot embed an empty document collection"),
    }
}

impl FragmentError {
    /// The message of this error.
    pub fn message(&self) -> (r: String)
        ensures
            r@ == fragment_error_text(*self),
    {
        match self {
            FragmentError::EmptyDocument => copy_str("a document produced no embeddable text values"),
            FragmentError::NoDocuments => copy_str("cannot embed an empty document collection"),
        }
    }
}

/// The document each fragment comes from, when document `d` has `counts[d]`
/// fragments: `counts[0]` zeros, then `counts[1]` ones, and so on.
pub open spec fn owners_of(counts: Seq<usize>) -> Seq<usize>
    decreases counts.len(),
{
    if counts.len() == 0 {
        Seq::empty()
    } else {
        owners_of(counts.drop_last()) + Seq::new(counts.last() as nat, |i: int| (counts.len() - 1) as usize)
    }
}

/// For the flattened fragments of documents with `counts` fragments each,
/// the document of each fragment. Every document must have a fragment and
/// there must be a document.
pub fn fragment_owners(counts: &Vec<usize>) -> (r: Result<Vec<usize>, FragmentError>)
    ensures
        counts@.len() == 0 ==> r == Err::<Vec<usize>, FragmentError>(FragmentError::NoDocuments),
        counts@.len() > 0 && (exists|d: int| 0 <= d < counts@.len() && counts@[d] == 0) ==> r
            == Err::<Vec<usize>, FragmentError>(FragmentError::EmptyDocument),
        counts@.len() > 0 && (forall|d: int| 0 <= d < counts@.len() ==> counts@[d] > 0) ==> (r matches Ok(
            v,
        ) && v@ == owners_of(counts@)),
{
    let mut d: usize = 0;
    while d < counts.len()
        invariant
            d <= counts.len(),
            forall|k: int| 0 <= k < d ==> counts@[k] > 0,
        decreases counts.len() - d,
    {
        if counts[d] == 0 {
            return Err(FragmentError::EmptyDocument);
        }
        d = d + 1;
    }
    if counts.len() == 0 {
        return Err(FragmentError::NoDocuments);
    }
    let mut out: Vec<usize> = Vec::new();
    let mut i: usize = 0;
    assert(counts@.take(0) =~= Seq::<usize>::empty());
    while i < counts.len()
        invariant
            i <= counts.len(),
            out@ == owners_of(counts@.take(i as int)),
        decreases counts.len() - i,
    {
        let ghost before = out@;
        let mut j: usize = 0;
        while j < counts[i]
            invariant
                i < counts.len(),
                j <= counts@[i as int],
                out@ == before + Seq::new(j as nat, |k: int| i),
            decreases counts@[i as int] - j,
        {
            out.push(i);
            assert(out@ =~= before + Seq::new((j + 1) as nat, |k: int| i));
            j = j + 1;
        }
        proof {
            assert(counts@.take(i + 1).drop_last() =~= counts@.take(i as int));
            assert(counts@.take(i + 1).last() == counts@[i as int]);
            assert(out@ =~= owners_of(counts@.take(i + 1)));
        }
        i = i + 1;
    }
    assert(counts@.take(counts.len() as int) =~= counts@);
    Ok(out)
}

} // verus!
