//! The `grep_search` tool: which files are searched, how a file's lines are
//! matched against the query, and the tool's answer.
use vstd::prelude::*;

use crate::path::{extension, extension_of};
use crate::permission::{lowercase, to_lowercase, PermissionPolicy};
use crate::text::{
    chars_of, contains_chars, contains_seq, contains_string, copy_str, decimal, join, lit,
    push_decimal, push_str, string_of, trim, trim_str, views,
};
use crate::tools::util::{truncated_output, truncated_text, MAX_RESULTS};

verus! {

/// Arguments of the `grep_search` tool.
#[derive(Clone, Debug)]
pub struct GrepSearchArgs {
    /// The substring to search for.
    pub query: String,
    /// A directory or file to search, relative to the sandbox root.
    pub path: Option<String>,
    /// Whether case matters (it does not by default).
    pub case_sensitive: Option<bool>,
}

/// Searches workspace text files with allowed extensions for a substring.
#[derive(Clone, Debug)]
pub struct GrepSearchTool<S, G> {
    pub sandbox: S,
    pub allowed_extensions: Vec<String>,
    pub policy: PermissionPolicy<G>,
}

impl<S, G> GrepSearchTool<S, G> {
    /// A search tool over `sandbox` for files with `allowed_extensions`,
    /// gated by `policy`.
    pub fn new(sandbox: S, allowed_extensions: Vec<String>, policy: PermissionPolicy<G>) -> (r: Self)
        ensures
            r.sandbox == sandbox,
            r.allowed_extensions == allowed_extensions,
            r.policy == policy,
    {
        GrepSearchTool { sandbox, allowed_extensions, policy }
    }

    /// What the tool tells the model it does.
    pub fn description(&self) -> (r: String)
        ensures
            r@ == lit("Search for a pattern/substring in workspace text files. Supports extensions: ")
                + supported_text(views(self.allowed_extensions@)) + lit(
                ". Paths are relative to sandbox root(s).",
            ),
    {
        let mut r = copy_str("Search for a pattern/substring in workspace text files. Supports extensions: ");
        let s = supported_list(&self.allowed_extensions);
        push_str(&mut r, s.as_str());
        push_str(&mut r, ". Paths are relative to sandbox root(s).");
        r
    }
}

/// How deep below the searched path directories are walked.
pub const MAX_SEARCH_DEPTH: usize = 10;

/// Whether the walk visits a path at `depth` below the searched one when
/// `found` matches were reported: not once the limit is reached, nor below
/// the deepest level.
pub fn should_visit(found: usize, max_results: usize, depth: usize) -> (r: bool)
    ensures
        r == (found < max_results && depth <= MAX_SEARCH_DEPTH),
{
    found < max_results && depth <= MAX_SEARCH_DEPTH
}

/// The extensions as the tools list them: each with its dot, comma-separated.
pub open spec fn supported_text(exts: Seq<Seq<char>>) -> Seq<char> {
    join(exts.map_values(|e: Seq<char>| lit(".") + e), lit(", "))
}

/// Lists `exts` as `.a, .b`.
pub fn supported_list(exts: &Vec<String>) -> (r: String)
    ensures
        r@ == supported_text(views(exts@)),
{
    let mut dotted: Vec<String> = Vec::new();
    let mut i: usize = 0;
    while i < exts.len()
        invariant
            i <= exts.len(),
            views(dotted@) == views(exts@).take(i as int).map_values(|e: Seq<char>| lit(".") + e),
        decreases exts.len() - i,
    {
        let mut d = copy_str(".");
        push_str(&mut d, exts[i].as_str());
        let ghost before = dotted@;
        dotted.push(d);
        assert(views(dotted@) =~= views(exts@).take(i + 1).map_values(|e: Seq<char>| lit(".") + e)) by {
            assert(views(dotted@) =~= views(before).push(d@));
        }
        i = i + 1;
    }
    assert(views(exts@).take(exts.len() as int) =~= views(exts@));
    crate::text::join_strings(&dotted, ", ")
}

/// The description shown to the permission gate.
pub open spec fn grep_description_text(query: Seq<char>, path: Option<Seq<char>>) -> Seq<char> {
    lit("Wants to search for substring '") + query + lit("' at [") + match path {
        Some(p) => p,
        None => lit("."),
    } + lit("]")
}

/// The description of a `grep_search` call.
pub fn grep_description(args: &GrepSearchArgs) -> (r: String)
    ensures
        r@ == grep_description_text(
            args.query@,
            match args.path {
                Some(p) => Some(p@),
                None => None,
            },
        ),
{
    let mut r = copy_str("Wants to search for substring '");
    push_str(&mut r, args.query.as_str());
    push_str(&mut r, "' at [");
    match &args.path {
        Some(p) => push_str(&mut r, p.as_str()),
        None => push_str(&mut r, "."),
    }
    push_str(&mut r, "]");
    r
}

/// Whether the file at `path` is searched: it has an allowed extension.
pub fn file_searchable(path: &str, allowed: &Vec<String>) -> (r: bool)
    ensures
        r == (extension_of(path@) matches Some(e) && views(allowed@).contains(e)),
{
    match extension(path) {
        Some(e) => contains_string(allowed, e.as_str()),
        None => false,
    }
}

/// Reading `s` from the left: the lines ended so far and the line in progress.
pub open spec fn scan_lines(s: Seq<char>) -> (Seq<Seq<char>>, Seq<char>)
    decreases s.len(),
{
    if s.len() == 0 {
        (Seq::empty(), Seq::empty())
    } else {
        let (done, cur) = scan_lines(s.drop_last());
        if s.last() == '\n' {
            (done.push(strip_cr(cur)), Seq::empty())
        } else {
            (done, cur.push(s.last()))
        }
    }
}

/// A line without the `\r` of a `\r\n` ending.
pub open spec fn strip_cr(line: Seq<char>) -> Seq<char> {
    if line.len() > 0 && line.last() == '\r' {
        line.drop_last()
    } else {
        line
    }
}

/// The lines of `s` (`str::lines`): split at `\n` or `\r\n`, where a final
/// line ending adds no empty line.
pub open spec fn lines(s: Seq<char>) -> Seq<Seq<char>> {
    let (done, cur) = scan_lines(s);
    if cur.len() > 0 {
        done.push(cur)
    } else {
        done
    }
}

/// The lines of `s`.
pub fn split_lines(s: &str) -> (r: Vec<String>)
    ensures
        views(r@) == lines(s@),
{
    let v = chars_of(s);
    let mut done: Vec<String> = Vec::new();
    let mut cur: Vec<char> = Vec::new();
    let mut i: usize = 0;
    while i < v.len()
        invariant
            i <= v.len(),
            v@ == s@,
            (views(done@), cur@) == scan_lines(v@.take(i as int)),
        decreases v.len() - i,
    {
        proof {
            assert(v@.take(i + 1).drop_last() =~= v@.take(i as int));
        }
        if v[i] == '\n' {
            if cur.len() > 0 && cur[cur.len() - 1] == '\r' {
                cur.pop();
            }
            assert(cur@ == strip_cr(scan_lines(v@.take(i as int)).1)) by {
                let c = scan_lines(v@.take(i as int)).1;
                if c.len() > 0 && c.last() == '\r' {
                    assert(cur@ =~= c.drop_last());
                }
            }
            let line = string_of(&cur);
            let ghost before = done@;
            done.push(line);
            assert(views(done@) =~= views(before).push(line@));
            cur = Vec::new();
        } else {
            cur.push(v[i]);
        }
        i = i + 1;
    }
    assert(v@.take(v.len() as int) =~= v@);
    if cur.len() > 0 {
        let line = string_of(&cur);
        let ghost before = done@;
        done.push(line);
        assert(views(done@) =~= views(before).push(line@));
    }
    done
}

/// Whether `line` matches `query`: as a substring, ignoring case unless
/// `case_sensitive`.
pub open spec fn line_matches(line: Seq<char>, query: Seq<char>, case_sensitive: bool) -> bool {
    if case_sensitive {
        contains_seq(line, query)
    } else {
        contains_seq(lowercase(line), lowercase(query))
    }
}

/// The report of a matching line: `path:number: trimmed line`, numbered from 1.
pub open spec fn match_entry(rel: Seq<char>, number: nat, line: Seq<char>) -> Seq<char> {
    rel + lit(":") + decimal(number) + lit(": ") + trim(line)
}

/// The reports of the matching lines among `ls`, in order.
pub open spec fn matched_entries(ls: Seq<Seq<char>>, rel: Seq<char>, query: Seq<char>, case_sensitive: bool) -> Seq<Seq<char>>
    decreases ls.len(),
{
    if ls.len() == 0 {
        Seq::empty()
    } else {
        let prev = matched_entries(ls.drop_last(), rel, query, case_sensitive);
        if line_matches(ls.last(), query, case_sensitive) {
            prev.push(match_entry(rel, ls.len(), ls.last()))
        } else {
            prev
        }
    }
}

/// Without case sensitivity the case of the query does not matter: two
/// queries that lower-case alike match the same lines and so report the same
/// entries (searching `Hello` reports what searching `hello` does), and a line
/// equal to the query up to case matches it.
pub proof fn lemma_case_insensitive_query(
    ls: Seq<Seq<char>>,
    rel: Seq<char>,
    q1: Seq<char>,
    q2: Seq<char>,
    line: Seq<char>,
)
    requires
        lowercase(q1) == lowercase(q2),
    ensures
        line_matches(line, q1, false) == line_matches(line, q2, false),
        matched_entries(ls, rel, q1, false) == matched_entries(ls, rel, q2, false),
        lowercase(line) == lowercase(q1) ==> line_matches(line, q1, false),
    decreases ls.len(),
{
    if lowercase(line) == lowercase(q1) {
        let x = lowercase(line);
        assert(x.subrange(0, x.len() as int) =~= x);
        assert(crate::text::occurs_at(x, lowercase(q1), 0));
    }
    if ls.len() > 0 {
        lemma_case_insensitive_query(ls.drop_last(), rel, q1, q2, ls.last());
    }
}

/// `results` extended by `found` until it holds `max_results` entries.
pub open spec fn append_until(results: Seq<Seq<char>>, found: Seq<Seq<char>>, max_results: nat) -> Seq<Seq<char>> {
    if results.len() >= max_results {
        results
    } else if results.len() + found.len() <= max_results {
        results + found
    } else {
        results + found.take(max_results - results.len())
    }
}

fn line_matches_exec(line: &str, query_chars: &Vec<char>, query_lower: &Vec<char>, query: &str, case_sensitive: bool) -> (r: bool)
    requires
        query_chars@ == query@,
        query_lower@ == lowercase(query@),
    ensures
        r == line_matches(line@, query@, case_sensitive),
{
    if case_sensitive {
        let l = chars_of(line);
        contains_chars(&l, query_chars)
    } else {
        let low = to_lowercase(line);
        let l = chars_of(low.as_str());
        contains_chars(&l, query_lower)
    }
}

/// Searches the text of the file shown as `rel` for `query`, appending a
/// report per matching line to `results` until they number `max_results`.
pub fn search_content(
    content: &str,
    rel: &str,
    query: &str,
    case_sensitive: bool,
    results: &mut Vec<String>,
    max_results: usize,
)
    ensures
        views(final(results)@) == append_until(
            views(old(results)@),
            matched_entries(lines(content@), rel@, query@, case_sensitive),
            max_results as nat,
        ),
{
    let ghost start = views(results@);
    if results.len() >= max_results {
        return;
    }
    let ls = split_lines(content);
    let query_chars = chars_of(query);
    let lowered = to_lowercase(query);
    let query_lower = chars_of(lowered.as_str());
    let ghost lv = lines(content@);
    let mut i: usize = 0;
    proof {
        assert(lv.take(0) =~= Seq::<Seq<char>>::empty());
        assert(start + matched_entries(lv.take(0), rel@, query@, case_sensitive) =~= start);
    }
    while i < ls.len()
        invariant
            i <= ls.len(),
            views(ls@) == lv,
            lv == lines(content@),
            start == views(old(results)@),
            query_chars@ == query@,
            query_lower@ == lowercase(query@),
            start.len() < max_results,
            views(results@) == start + matched_entries(lv.take(i as int), rel@, query@, case_sensitive),
            results@.len() < max_results,
        decreases ls.len() - i,
    {
        proof {
            assert(lv.take(i + 1).drop_last() =~= lv.take(i as int));
            assert(lv.take(i + 1).last() == ls@[i as int]@);
        }
        if line_matches_exec(ls[i].as_str(), &query_chars, &query_lower, query, case_sensitive) {
            let mut entry = copy_str(rel);
            push_str(&mut entry, ":");
            push_decimal(&mut entry, i + 1);
            push_str(&mut entry, ": ");
            let t = trim_str(ls[i].as_str());
            push_str(&mut entry, t.as_str());
            let ghost before = results@;
            results.push(entry);
            proof {
                assert(views(results@) =~= views(before).push(entry@));
            }
            if results.len() >= max_results {
                proof {
                    let m = matched_entries(lv, rel@, query@, case_sensitive);
                    lemma_matched_prefix(lv, i + 1, rel@, query@, case_sensitive);
                    let mi = matched_entries(lv.take(i + 1), rel@, query@, case_sensitive);
                    assert(m.take(mi.len() as int) == mi);
                    assert(start.len() + mi.len() == max_results);
                    assert(mi =~= m.take(max_results - start.len()));
                    if start.len() + m.len() <= max_results {
                        assert(m.take(m.len() as int) =~= m);
                        assert(mi =~= m);
                    }
                    assert(views(results@) =~= append_until(start, m, max_results as nat));
                }
                return;
            }
        }
        i = i + 1;
    }
    proof {
        assert(lv.take(ls.len() as int) =~= lv);
    }
}

proof fn lemma_matched_prefix(ls: Seq<Seq<char>>, k: int, rel: Seq<char>, query: Seq<char>, cs: bool)
    requires
        0 <= k <= ls.len(),
    ensures
        matched_entries(ls.take(k), rel, query, cs).len() <= matched_entries(ls, rel, query, cs).len(),
        matched_entries(ls, rel, query, cs).take(matched_entries(ls.take(k), rel, query, cs).len() as int)
            == matched_entries(ls.take(k), rel, query, cs),
    decreases ls.len() - k,
{
    if k == ls.len() {
        assert(ls.take(k) =~= ls);
        assert(matched_entries(ls, rel, query, cs).take(matched_entries(ls, rel, query, cs).len() as int)
            =~= matched_entries(ls, rel, query, cs));
    } else {
        lemma_matched_prefix(ls.drop_last(), k, rel, query, cs);
        assert(ls.drop_last().take(k) =~= ls.take(k));
        let a = matched_entries(ls.take(k), rel, query, cs);
        let b = matched_entries(ls.drop_last(), rel, query, cs);
        let c = matched_entries(ls, rel, query, cs);
        assert(c.take(a.len() as int) =~= b.take(a.len() as int));
    }
}

/// The answer of a search for `query` that found `results`.
pub open spec fn grep_output_text(query: Seq<char>, results: Seq<Seq<char>>) -> Seq<char> {
    if results.len() == 0 {
        lit("No matches found for query: '") + query + lit("'")
    } else {
        truncated_text(results, MAX_RESULTS as nat)
    }
}

/// The answer of a search for `query` that found `results`.
pub fn grep_output(query: &str, results: &Vec<String>) -> (r: String)
    ensures
        r@ == grep_output_text(query@, views(results@)),
{
    if results.len() == 0 {
        let mut r = copy_str("No matches found for query: '");
        push_str(&mut r, query);
        push_str(&mut r, "'");
        r
    } else {
        truncated_output(results, MAX_RESULTS)
    }
}

} // verus!
