//! The error type of the workspace tools and the helpers they share.
use vstd::prelude::*;

use crate::text::{contains_string, copy_str, decimal, join, join_strings, lit, push_decimal, push_str, views};

verus! {

/// Why a workspace tool failed.
#[derive(Clone, Debug, PartialEq, Eq)]
pub enum DocumentError {
    /// Reading or writing failed.
    Io(String),
    /// The path or pattern leaves the sandbox.
    SandboxEscape(String),
    /// The file's extension is not supported.
    UnsupportedExtension(String),
    /// Text could not be extracted from a PDF.
    Pdf(String),
    /// A RAG operation failed.
    Rag(String),
    /// The permission policy denied the operation.
    PermissionDenied(String),
}

/// The most matches a search reports.
pub const MAX_RESULTS: usize = 100;

/// `matches` one per line, with a note when the limit `max_results` was reached.
pub open spec fn truncated_text(matches: Seq<Seq<char>>, max_results: nat) -> Seq<char> {
    let body = join(matches, lit("\n"));
    if matches.len() >= max_results {
        body + lit("\n... [Truncated: reached limit of ") + decimal(max_results) + lit(" matches]")
    } else {
        body
    }
}

/// Joins `matches` one per line and notes when the limit was reached.
pub fn truncated_output(matches: &Vec<String>, max_results: usize) -> (r: String)
    ensures
        r@ == truncated_text(views(matches@), max_results as nat),
{
    let count = matches.len();
    let mut output = join_strings(matches, "\n");
    if count >= max_results {
        push_str(&mut output, "\n... [Truncated: reached limit of ");
        push_decimal(&mut output, max_results);
        push_str(&mut output, " matches]");
    }
    output
}

/// Accepts `ext` when `allowed` holds it; otherwise the error names it.
pub fn check_extension(ext: &str, allowed: &Vec<String>) -> (r: Result<(), DocumentError>)
    ensures
        views(allowed@).contains(ext@) ==> r is Ok,
        !views(allowed@).contains(ext@) ==> (r matches Err(DocumentError::UnsupportedExtension(e))
            && e@ == ext@),
{
    if !contains_string(allowed, ext) {
        return Err(DocumentError::UnsupportedExtension(copy_str(ext)));
    }
    Ok(())
}

} // verus!
