//! The `read_document` and `write_document` tools: which files they accept,
//! how a file is read or written, and their answers.
use vstd::prelude::*;

use crate::path::{extension, extension_of};
use crate::permission::PermissionPolicy;
use crate::text::{contains_string, copy_str, lit, push_str, str_eq, views};
use crate::tools::registry::checked_extension;
use crate::tools::search::{supported_list, supported_text};
use crate::tools::util::DocumentError;

verus! {

/// Arguments of the `read_document` tool.
#[derive(Clone, Debug)]
pub struct ReadDocumentArgs {
    /// The file, relative to the sandbox root.
    pub path: String,
}

/// Arguments of the `write_document` tool.
#[derive(Clone, Debug)]
pub struct WriteDocumentArgs {
    /// The file, relative to the sandbox root.
    pub path: String,
    /// The text to write.
    pub content: String,
    /// Append instead of overwriting.
    pub append: Option<bool>,
}

/// Reads documents (text, or PDF by text extraction) with allowed extensions.
#[derive(Clone, Debug)]
pub struct ReadDocumentTool<S, G> {
    pub sandbox: S,
    pub allowed_extensions: Vec<String>,
    pub policy: PermissionPolicy<G>,
}

/// Writes or appends to documents with allowed extensions.
#[derive(Clone, Debug)]
pub struct WriteDocumentTool<S, G> {
    pub sandbox: S,
    pub allowed_extensions: Vec<String>,
    pub policy: PermissionPolicy<G>,
}

/// How a document is read.
#[derive(Clone, Copy, Debug, PartialEq, Eq, Structural)]
pub enum ReadKind {
    /// Extract the text of a PDF.
    Pdf,
    /// Read the file as text.
    Text,
}

/// How a document is written.
#[derive(Clone, Copy, Debug, PartialEq, Eq, Structural)]
pub enum WriteMode {
    Append,
    Overwrite,
}

/// The tool's text describing what it reads.
pub open spec fn read_tool_text(exts: Seq<Seq<char>>) -> Seq<char> {
    lit("Read the content of a document or text file. Supports: ") + supported_text(exts) + lit(
        ". Paths are resolved within the configured sandbox root(s).",
    )
}

/// The tool's text describing what it writes.
pub open spec fn write_tool_text(exts: Seq<Seq<char>>) -> Seq<char> {
    lit("Write or edit a document or text file. Supports: ") + supported_text(exts) + lit(
        ". Paths are resolved within the configured sandbox root(s).",
    )
}

/// Accepts a resolved path whose extension (or the empty one) is allowed.
fn checked(resolved: &str, allowed: &Vec<String>) -> (r: Result<String, DocumentError>)
    ensures
        views(allowed@).contains(checked_extension(resolved@)) ==> (r matches Ok(e) && e@
            == checked_extension(resolved@)),
        !views(allowed@).contains(checked_extension(resolved@)) ==> (r matches Err(
            DocumentError::UnsupportedExtension(e),
        ) && e@ == checked_extension(resolved@)),
{
    let ext = match extension(resolved) {
        Some(e) => e,
        None => String::new(),
    };
    if !contains_string(allowed, ext.as_str()) {
        return Err(DocumentError::UnsupportedExtension(ext));
    }
    Ok(ext)
}

impl<S, G> ReadDocumentTool<S, G> {
    /// A reading tool over `sandbox` for `allowed_extensions`, gated by `policy`.
    pub fn new(sandbox: S, allowed_extensions: Vec<String>, policy: PermissionPolicy<G>) -> (r: Self)
        ensures
            r.sandbox == sandbox,
            r.allowed_extensions == allowed_extensions,
            r.policy == policy,
    {
        ReadDocumentTool { sandbox, allowed_extensions, policy }
    }

    /// What the tool tells the model it does.
    pub fn description(&self) -> (r: String)
        ensures
            r@ == read_tool_text(views(self.allowed_extensions@)),
    {
        let mut r = copy_str("Read the content of a document or text file. Supports: ");
        let s = supported_list(&self.allowed_extensions);
        push_str(&mut r, s.as_str());
        push_str(&mut r, ". Paths are resolved within the configured sandbox root(s).");
        r
    }

    /// How the file at the resolved path is read: PDFs by text extraction,
    /// other allowed files as text; other extensions are refused.
    pub fn read_kind(&self, resolved: &str) -> (r: Result<ReadKind, DocumentError>)
        ensures
            views(self.allowed_extensions@).contains(checked_extension(resolved@)) ==> (r matches Ok(k)
                && (k == ReadKind::Pdf <==> checked_extension(resolved@) == lit("pdf"))),
            !views(self.allowed_extensions@).contains(checked_extension(resolved@)) ==> (r matches Err(
                DocumentError::UnsupportedExtension(e),
            ) && e@ == checked_extension(resolved@)),
    {
        let ext = checked(resolved, &self.allowed_extensions)?;
        if str_eq(ext.as_str(), "pdf") {
            Ok(ReadKind::Pdf)
        } else {
            Ok(ReadKind::Text)
        }
    }
}

impl<S, G> WriteDocumentTool<S, G> {
    /// A writing tool over `sandbox` for `allowed_extensions`, gated by `policy`.
    pub fn new(sandbox: S, allowed_extensions: Vec<String>, policy: PermissionPolicy<G>) -> (r: Self)
        ensures
            r.sandbox == sandbox,
            r.allowed_extensions == allowed_extensions,
            r.policy == policy,
    {
        WriteDocumentTool { sandbox, allowed_extensions, policy }
    }

    /// What the tool tells the model it does.
    pub fn description(&self) -> (r: String)
        ensures
            r@ == write_tool_text(views(self.allowed_extensions@)),
    {
        let mut r = copy_str("Write or edit a document or text file. Supports: ");
        let s = supported_list(&self.allowed_extensions);
        push_str(&mut r, s.as_str());
        push_str(&mut r, ". Paths are resolved within the configured sandbox root(s).");
        r
    }

    /// How the file at the resolved path is written: appended to only when
    /// `append` is `Some(true)`; files with other extensions are refused.
    pub fn write_mode(&self, resolved: &str, append: Option<bool>) -> (r: Result<WriteMode, DocumentError>)
        ensures
            views(self.allowed_extensions@).contains(checked_extension(resolved@)) ==> (r matches Ok(m)
                && (m == WriteMode::Append <==> append == Some(true))),
            !views(self.allowed_extensions@).contains(checked_extension(resolved@)) ==> (r matches Err(
                DocumentError::UnsupportedExtension(e),
            ) && e@ == checked_extension(resolved@)),
    {
        checked(resolved, &self.allowed_extensions)?;
        match append {
            Some(true) => Ok(WriteMode::Append),
            _ => Ok(WriteMode::Overwrite),
        }
    }
}

/// The description of a read, shown to the permission gate.
pub fn read_description(path: &str) -> (r: String)
    ensures
        r@ == lit("Wants to read file asset at [") + path@ + lit("]"),
{
    let mut r = copy_str("Wants to read file asset at [");
    push_str(&mut r, path);
    push_str(&mut r, "]");
    r
}

/// The description of a write, shown to the permission gate.
pub fn write_description(path: &str) -> (r: String)
    ensures
        r@ == lit("Wants to modify/write file asset at [") + path@ + lit("]"),
{
    let mut r = copy_str("Wants to modify/write file asset at [");
    push_str(&mut r, path);
    push_str(&mut r, "]");
    r
}

/// The answer of a successful write.
pub fn write_confirmation(path: &str) -> (r: String)
    ensures
        r@ == lit("Successfully wrote to ") + path@,
{
    let mut r = copy_str("Successfully wrote to ");
    push_str(&mut r, path);
    r
}

} // verus!
