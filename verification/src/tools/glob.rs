//! The `glob_search` tool: pattern safety, collection of matches relative to
//! the searched root, and the tool's answer.
use vstd::prelude::*;

use crate::permission::PermissionPolicy;
use crate::text::{chars_of, copy_str, lit, push_char, push_str, str_eq, views};
use crate::tools::util::{truncated_output, truncated_text, DocumentError, MAX_RESULTS};

verus! {

/// Arguments of the `glob_search` tool.
#[derive(Clone, Debug)]
pub struct GlobSearchArgs {
    /// The pattern, e.g. `src/**/*.rs`.
    pub pattern: String,
    /// A directory to search within, relative to the sandbox root.
    pub directory: Option<String>,
}

/// Finds files and directories matching a glob pattern within the sandbox.
#[derive(Clone, Debug)]
pub struct GlobSearchTool<S, G> {
    pub sandbox: S,
    pub policy: PermissionPolicy<G>,
}

impl<S, G> GlobSearchTool<S, G> {
    /// A glob tool over `sandbox`, gated by `policy`.
    pub fn new(sandbox: S, policy: PermissionPolicy<G>) -> (r: Self)
        ensures
            r.sandbox == sandbox,
            r.policy == policy,
    {
        GlobSearchTool { sandbox, policy }
    }
}

/// The description shown to the permission gate.
pub open spec fn glob_description_text(pattern: Seq<char>, directory: Option<Seq<char>>) -> Seq<char> {
    lit("Wants to match glob pattern '") + pattern + lit("' in [") + match directory {
        Some(d) => d,
        None => lit("."),
    } + lit("]")
}

/// The description of a `glob_search` call.
pub fn glob_description(args: &GlobSearchArgs) -> (r: String)
    ensures
        r@ == glob_description_text(
            args.pattern@,
            match args.directory {
                Some(d) => Some(d@),
                None => None,
            },
        ),
{
    let mut r = copy_str("Wants to match glob pattern '");
    push_str(&mut r, args.pattern.as_str());
    push_str(&mut r, "' in [");
    match &args.directory {
        Some(d) => push_str(&mut r, d.as_str()),
        None => push_str(&mut r, "."),
    }
    push_str(&mut r, "]");
    r
}

/// A `..` segment of a `/`-separated pattern starts at `i`.
pub open spec fn parent_segment_at(s: Seq<char>, i: int) -> bool {
    &&& 0 <= i
    &&& i + 2 <= s.len()
    &&& s[i] == '.'
    &&& s[i + 1] == '.'
    &&& (i == 0 || s[i - 1] == '/')
    &&& (i + 2 == s.len() || s[i + 2] == '/')
}

/// A pattern is refused when it is absolute or has a `..` segment.
pub open spec fn pattern_escapes(s: Seq<char>) -> bool {
    (s.len() > 0 && s[0] == '/') || exists|i: int| parent_segment_at(s, i)
}

/// Refuses absolute patterns and patterns with a `..` segment.
pub fn check_glob_pattern(pattern: &str) -> (r: Result<(), DocumentError>)
    ensures
        !pattern_escapes(pattern@) ==> r is Ok,
        pattern_escapes(pattern@) ==> (r matches Err(DocumentError::SandboxEscape(m)) && m@ == lit(
            "Access denied: Absolute patterns or path traversals containing '..' are not allowed: ",
        ) + pattern@),
{
    let v = chars_of(pattern);
    let mut escapes = v.len() > 0 && v[0] == '/';
    let mut i: usize = 0;
    while i < v.len() && v.len() - i >= 2 && !escapes
        invariant
            i <= v.len(),
            v@ == pattern@,
            escapes == (v@.len() > 0 && v@[0] == '/'),
            forall|k: int| 0 <= k < i ==> !parent_segment_at(v@, k),
        decreases v.len() - i,
    {
        if v[i] == '.' && v[i + 1] == '.' && (i == 0 || v[i - 1] == '/') && (i + 2 == v.len() || v[i
            + 2] == '/') {
            assert(parent_segment_at(v@, i as int));
            let mut m = copy_str(
                "Access denied: Absolute patterns or path traversals containing '..' are not allowed: ",
            );
            push_str(&mut m, pattern);
            return Err(DocumentError::SandboxEscape(m));
        }
        i = i + 1;
    }
    if escapes {
        let mut m = copy_str(
            "Access denied: Absolute patterns or path traversals containing '..' are not allowed: ",
        );
        push_str(&mut m, pattern);
        return Err(DocumentError::SandboxEscape(m));
    }
    assert forall|k: int| !parent_segment_at(pattern@, k) by {
        if 0 <= k < i {
        }
    }
    Ok(())
}

/// `path` relative to `root` when it lies under it, else `path` itself.
pub open spec fn relative_to(path: Seq<char>, root: Seq<char>) -> Seq<char> {
    if path == root {
        Seq::empty()
    } else if root.len() < path.len() && path.subrange(0, root.len() as int) == root && path[root.len() as int] == '/' {
        path.subrange(root.len() as int + 1, path.len() as int)
    } else {
        path
    }
}

/// `s` with every backslash made a forward slash.
pub open spec fn forward_slashes(s: Seq<char>) -> Seq<char> {
    s.map_values(|c: char| if c == '\\' { '/' } else { c })
}

/// How a match is reported: relative to the searched root, with forward
/// slashes.
pub fn normalized_match(path: &str, root: &str) -> (r: String)
    ensures
        r@ == forward_slashes(relative_to(path@, root@)),
{
    let p = chars_of(path);
    let q = chars_of(root);
    let mut from: usize = 0;
    if str_eq(path, root) {
        from = p.len();
    } else if q.len() < p.len() && p[q.len()] == '/' {
        let mut k: usize = 0;
        let mut same = true;
        while k < q.len()
            invariant
                k <= q.len() < p.len(),
                same == (forall|j: int| 0 <= j < k ==> p@[j] == q@[j]),
            decreases q.len() - k,
        {
            if p[k] != q[k] {
                same = false;
            }
            k = k + 1;
        }
        if same {
            assert(p@.subrange(0, q.len() as int) =~= q@);
            from = q.len() + 1;
        } else {
            assert(p@.subrange(0, q.len() as int) != q@) by {
                let j = choose|j: int| 0 <= j < q.len() && p@[j] != q@[j];
                assert(p@.subrange(0, q.len() as int)[j] == p@[j]);
            }
        }
    }
    let ghost rel = relative_to(path@, root@);
    assert(rel =~= p@.subrange(from as int, p.len() as int));
    let mut r = String::new();
    let mut i = from;
    while i < p.len()
        invariant
            from <= i <= p.len(),
            rel == p@.subrange(from as int, p.len() as int),
            r@ == forward_slashes(p@.subrange(from as int, i as int)),
        decreases p.len() - i,
    {
        let c = if p[i] == '\\' {
            '/'
        } else {
            p[i]
        };
        push_char(&mut r, c);
        assert(forward_slashes(p@.subrange(from as int, i + 1)) =~= forward_slashes(
            p@.subrange(from as int, i as int),
        ).push(c));
        i = i + 1;
    }
    r
}

/// The matches found so far: distinct, in order of first appearance,
/// bounded by `max_results`.
#[derive(Clone, Debug)]
pub struct GlobMatches {
    matches: Vec<String>,
    max_results: usize,
}

impl GlobMatches {
    /// The matches, in order.
    pub closed spec fn view(&self) -> Seq<Seq<char>> {
        views(self.matches@)
    }

    /// The limit.
    pub closed spec fn limit(&self) -> nat {
        self.max_results as nat
    }

    /// No collection of matches, with the given limit.
    pub fn new(max_results: usize) -> (r: Self)
        ensures
            r@ == Seq::<Seq<char>>::empty(),
            r.limit() == max_results,
    {
        let r = GlobMatches { matches: Vec::new(), max_results };
        assert(r@ =~= Seq::<Seq<char>>::empty());
        r
    }

    /// Records `m` unless it was recorded already; whether the limit is reached.
    pub fn record(&mut self, m: String) -> (full: bool)
        ensures
            final(self).limit() == old(self).limit(),
            old(self)@.contains(m@) ==> final(self)@ == old(self)@,
            !old(self)@.contains(m@) ==> final(self)@ == old(self)@.push(m@),
            full == (final(self)@.len() >= final(self).limit()),
    {
        let mut i: usize = 0;
        let mut seen = false;
        while i < self.matches.len()
            invariant
                i <= self.matches.len(),
                seen == (exists|k: int| 0 <= k < i && self@[k] == m@),
            decreases self.matches.len() - i,
        {
            if str_eq(self.matches[i].as_str(), m.as_str()) {
                assert(self@[i as int] == m@);
                seen = true;
            }
            i = i + 1;
        }
        proof {
            if seen {
                let k = choose|k: int| 0 <= k < i && self@[k] == m@;
                assert(self@.contains(m@));
            } else {
                assert forall|k: int| 0 <= k < self@.len() implies self@[k] != m@ by {}
            }
        }
        if !seen {
            let ghost before = self.matches@;
            self.matches.push(m);
            assert(views(self.matches@) =~= views(before).push(self.matches@.last()@));
        }
        self.matches.len() >= self.max_results
    }

    /// The matches, in order.
    pub fn into_matches(self) -> (r: Vec<String>)
        ensures
            views(r@) == self@,
    {
        self.matches
    }
}

/// Recording a match keeps the matches free of duplicates.
pub proof fn lemma_record_keeps_distinct(matches: Seq<Seq<char>>, m: Seq<char>)
    requires
        matches.no_duplicates(),
    ensures
        (if matches.contains(m) {
            matches
        } else {
            matches.push(m)
        }).no_duplicates(),
{
    if !matches.contains(m) {
        let r = matches.push(m);
        assert forall|i: int, j: int| 0 <= i < r.len() && 0 <= j < r.len() && i != j implies r[i]
            != r[j] by {
            if i < matches.len() && j < matches.len() {
            } else if i < matches.len() {
                assert(r[i] == matches[i]);
            } else {
                assert(r[j] == matches[j]);
            }
        }
    }
}

/// The answer of a glob search: the matches one per line (noting when the
/// limit was reached), or a note that nothing matched.
pub open spec fn glob_output_text(pattern: Seq<char>, matches: Seq<Seq<char>>) -> Seq<char> {
    if matches.len() == 0 {
        lit("No files matched pattern: '") + pattern + lit("'")
    } else {
        truncated_text(matches, MAX_RESULTS as nat)
    }
}

/// The answer of a glob search for `pattern` that found `matches`.
pub fn glob_output(pattern: &str, matches: &Vec<String>) -> (r: String)
    ensures
        r@ == glob_output_text(pattern@, views(matches@)),
{
    if matches.len() == 0 {
        let mut r = copy_str("No files matched pattern: '");
        push_str(&mut r, pattern);
        push_str(&mut r, "'");
        r
    } else {
        truncated_output(matches, MAX_RESULTS)
    }
}

} // verus!
