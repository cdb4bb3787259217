//! The registry of RAG sources (files and directories), and the planning of
//! the `manage_rag` tool's actions.
use vstd::prelude::*;

use crate::path::{extension, extension_of};
use crate::text::{contains_string, copy_str, decimal, join, lit, push_decimal, push_str, str_eq, views};
use crate::tools::util::DocumentError;

verus! {

/// Whether a source is a single file or a directory.
#[derive(Clone, Copy, Debug, PartialEq, Eq, Structural)]
pub enum RagSourceType {
    File,
    Directory,
}

/// A registered source: its canonical path and its type.
#[derive(Clone, Debug)]
pub struct RagSource {
    pub path: String,
    pub source_type: RagSourceType,
}

/// What the file system says a canonical path is.
#[derive(Clone, Copy, Debug, PartialEq, Eq, Structural)]
pub enum PathKind {
    File,
    Directory,
    Missing,
}

/// A registered source by its path's characters.
pub open spec fn source_view(s: RagSource) -> (Seq<char>, RagSourceType) {
    (s.path@, s.source_type)
}

/// Whether `path` is registered in `sources`.
pub open spec fn registered(sources: Seq<(Seq<char>, RagSourceType)>, path: Seq<char>) -> bool {
    exists|i: int| 0 <= i < sources.len() && (#[trigger] sources[i]).0 == path
}

/// No path is registered twice.
pub open spec fn distinct_paths(sources: Seq<(Seq<char>, RagSourceType)>) -> bool {
    forall|i: int, j: int|
        0 <= i < sources.len() && 0 <= j < sources.len() && i != j ==> (#[trigger] sources[i]).0
            != (#[trigger] sources[j]).0
}

/// The extension checked against the supported set: the canonical path's,
/// or empty when it has none.
pub open spec fn checked_extension(canonical: Seq<char>) -> Seq<char> {
    match extension_of(canonical) {
        Some(e) => e,
        None => Seq::empty(),
    }
}

/// Whether adding `canonical` of kind `kind` is refused.
pub open spec fn add_refused(
    sources: Seq<(Seq<char>, RagSourceType)>,
    supported: Seq<Seq<char>>,
    canonical: Seq<char>,
    kind: PathKind,
) -> bool {
    !registered(sources, canonical) && match kind {
        PathKind::File => !supported.contains(checked_extension(canonical)),
        PathKind::Directory => false,
        PathKind::Missing => true,
    }
}

/// The sources after adding `canonical` of kind `kind`: unchanged when it
/// is registered already or refused, else with the new source at the end.
pub open spec fn add_step(
    sources: Seq<(Seq<char>, RagSourceType)>,
    supported: Seq<Seq<char>>,
    canonical: Seq<char>,
    kind: PathKind,
) -> Seq<(Seq<char>, RagSourceType)> {
    if registered(sources, canonical) || add_refused(sources, supported, canonical, kind) {
        sources
    } else if kind == PathKind::File {
        sources.push((canonical, RagSourceType::File))
    } else {
        sources.push((canonical, RagSourceType::Directory))
    }
}

/// `sources` without the entries whose path is `path`.
pub open spec fn without_path(sources: Seq<(Seq<char>, RagSourceType)>, path: Seq<char>) -> Seq<
    (Seq<char>, RagSourceType),
>
    decreases sources.len(),
{
    if sources.len() == 0 {
        sources
    } else if sources.last().0 == path {
        without_path(sources.drop_last(), path)
    } else {
        without_path(sources.drop_last(), path).push(sources.last())
    }
}

/// The confirmation for a path registered already.
pub open spec fn already_indexed_text(display: Seq<char>, total: nat) -> Seq<char> {
    lit("Source already indexed: ") + display + lit(" (total: ") + decimal(total) + lit(")")
}

/// The refusal of a path outside the sandbox.
pub open spec fn sandbox_escape_text(display: Seq<char>) -> Seq<char> {
    lit("Access denied: path resolves outside the sandbox: ") + display
}

/// The confirmation for an added source.
pub open spec fn added_text(display: Seq<char>, total: nat) -> Seq<char> {
    lit("Added source '") + display + lit("' (total: ") + decimal(total) + lit(")")
}

/// The confirmation for a removed source.
pub open spec fn removed_text(path: Seq<char>, total: nat) -> Seq<char> {
    lit("Removed source '") + path + lit("' (total: ") + decimal(total) + lit(")")
}

/// The listing line of a source.
pub open spec fn source_line(s: (Seq<char>, RagSourceType)) -> Seq<char> {
    match s.1 {
        RagSourceType::File => lit("[FILE] ") + s.0,
        RagSourceType::Directory => lit("[DIR] ") + s.0,
    }
}

/// The listing of `sources`.
pub open spec fn listing(sources: Seq<(Seq<char>, RagSourceType)>) -> Seq<char> {
    if sources.len() == 0 {
        lit("No sources registered.")
    } else {
        join(sources.map_values(|s: (Seq<char>, RagSourceType)| source_line(s)), lit("\n"))
    }
}

proof fn lemma_without_path(sources: Seq<(Seq<char>, RagSourceType)>, path: Seq<char>)
    ensures
        without_path(sources, path).len() <= sources.len(),
        without_path(sources, path).len() == sources.len() <==> !registered(sources, path),
        !registered(without_path(sources, path), path),
        forall|q: Seq<char>| q != path ==> (registered(without_path(sources, path), q) <==> registered(sources, q)),
        distinct_paths(sources) ==> distinct_paths(without_path(sources, path)),
        !registered(sources, path) ==> without_path(sources, path) == sources,
    decreases sources.len(),
{
    if sources.len() > 0 {
        let d = sources.drop_last();
        lemma_without_path(d, path);
        let w = without_path(d, path);
        assert forall|q: Seq<char>| registered(sources, q) <==> (registered(d, q) || sources.last().0 == q) by {
            if registered(sources, q) {
                let i = choose|i: int| 0 <= i < sources.len() && (#[trigger] sources[i]).0 == q;
                if i < d.len() {
                    assert(d[i] == sources[i]);
                }
            }
            if registered(d, q) {
                let i = choose|i: int| 0 <= i < d.len() && (#[trigger] d[i]).0 == q;
                assert(sources[i] == d[i]);
            }
            if sources.last().0 == q {
                assert(sources[sources.len() - 1].0 == q);
            }
        }
        if sources.last().0 != path {
            let r = w.push(sources.last());
            assert forall|q: Seq<char>| registered(r, q) <==> (registered(w, q) || sources.last().0 == q) by {
                if registered(r, q) {
                    let i = choose|i: int| 0 <= i < r.len() && (#[trigger] r[i]).0 == q;
                    if i < w.len() {
                        assert(w[i] == r[i]);
                    }
                }
                if registered(w, q) {
                    let i = choose|i: int| 0 <= i < w.len() && (#[trigger] w[i]).0 == q;
                    assert(r[i] == w[i]);
                }
                if sources.last().0 == q {
                    assert(r[r.len() - 1].0 == q);
                }
            }
            if distinct_paths(sources) {
                assert(distinct_paths(d)) by {
                    assert forall|i: int, j: int|
                        0 <= i < d.len() && 0 <= j < d.len() && i != j implies (#[trigger] d[i]).0
                            != (#[trigger] d[j]).0 by {
                        assert(d[i] == sources[i] && d[j] == sources[j]);
                    }
                }
                assert(!registered(d, sources.last().0)) by {
                    if registered(d, sources.last().0) {
                        let i = choose|i: int| 0 <= i < d.len() && (#[trigger] d[i]).0 == sources.last().0;
                        assert(sources[i] == d[i]);
                        assert(sources[sources.len() - 1] == sources.last());
                    }
                }
                assert(!registered(w, sources.last().0));
                assert forall|i: int, j: int|
                    0 <= i < r.len() && 0 <= j < r.len() && i != j implies (#[trigger] r[i]).0
                        != (#[trigger] r[j]).0 by {
                    if i < w.len() && j < w.len() {
                        assert(r[i] == w[i] && r[j] == w[j]);
                    } else if i < w.len() {
                        assert(r[i] == w[i]);
                    } else if j < w.len() {
                        assert(r[j] == w[j]);
                    }
                }
            }
            if !registered(sources, path) {
                assert(r =~= sources);
            }
        } else {
            assert(registered(sources, path));
            if distinct_paths(sources) {
                assert(distinct_paths(d)) by {
                    assert forall|i: int, j: int|
                        0 <= i < d.len() && 0 <= j < d.len() && i != j implies (#[trigger] d[i]).0
                            != (#[trigger] d[j]).0 by {
                        assert(d[i] == sources[i] && d[j] == sources[j]);
                    }
                }
            }
        }
    }
}

/// Adding a path twice registers it once: a second add changes nothing.
pub proof fn lemma_add_idempotent(
    sources: Seq<(Seq<char>, RagSourceType)>,
    supported: Seq<Seq<char>>,
    canonical: Seq<char>,
    kind: PathKind,
)
    ensures
        add_step(add_step(sources, supported, canonical, kind), supported, canonical, kind)
            == add_step(sources, supported, canonical, kind),
{
    let once = add_step(sources, supported, canonical, kind);
    if !registered(sources, canonical) && !add_refused(sources, supported, canonical, kind) {
        assert(once[once.len() - 1].0 == canonical);
        assert(registered(once, canonical));
    }
}

/// Adding keeps the order of registration: the sources before an add are a
/// prefix of those after it, and a new source comes last.
pub proof fn lemma_add_keeps_order(
    sources: Seq<(Seq<char>, RagSourceType)>,
    supported: Seq<Seq<char>>,
    canonical: Seq<char>,
    kind: PathKind,
)
    ensures
        sources.is_prefix_of(add_step(sources, supported, canonical, kind)),
        add_step(sources, supported, canonical, kind).len() > sources.len() ==> add_step(
            sources,
            supported,
            canonical,
            kind,
        ).last().0 == canonical,
{
    let once = add_step(sources, supported, canonical, kind);
    assert(once.take(sources.len() as int) =~= sources);
}

/// The sources after adding each of `requests` (canonical path and kind),
/// first to last.
pub open spec fn add_all(
    sources: Seq<(Seq<char>, RagSourceType)>,
    supported: Seq<Seq<char>>,
    requests: Seq<(Seq<char>, PathKind)>,
) -> Seq<(Seq<char>, RagSourceType)>
    decreases requests.len(),
{
    if requests.len() == 0 {
        sources
    } else {
        add_step(
            add_all(sources, supported, requests.drop_last()),
            supported,
            requests.last().0,
            requests.last().1,
        )
    }
}

/// Each of `requests` was added as a new source (its add answered "Added
/// source"): when its turn came, its path was not registered and not refused.
pub open spec fn all_accepted(
    sources: Seq<(Seq<char>, RagSourceType)>,
    supported: Seq<Seq<char>>,
    requests: Seq<(Seq<char>, PathKind)>,
) -> bool {
    forall|i: int|
        0 <= i < requests.len() ==> {
            let before = #[trigger] add_all(sources, supported, requests.take(i));
            &&& !registered(before, requests[i].0)
            &&& !add_refused(before, supported, requests[i].0, requests[i].1)
        }
}

/// The entry an accepted request adds.
pub open spec fn entry_of(request: (Seq<char>, PathKind)) -> (Seq<char>, RagSourceType) {
    (request.0, if request.1 == PathKind::File { RagSourceType::File } else { RagSourceType::Directory })
}

/// After adds that each answered "Added source", the registry holds the
/// sources it held before followed by the added paths, in the order they
/// were added, and nothing else: from an empty registry, exactly the added
/// paths in insertion order.
pub proof fn lemma_adds_in_insertion_order(
    sources: Seq<(Seq<char>, RagSourceType)>,
    supported: Seq<Seq<char>>,
    requests: Seq<(Seq<char>, PathKind)>,
)
    requires
        all_accepted(sources, supported, requests),
    ensures
        add_all(sources, supported, requests) == sources + requests.map_values(
            |q: (Seq<char>, PathKind)| entry_of(q),
        ),
    decreases requests.len(),
{
    let f = |q: (Seq<char>, PathKind)| entry_of(q);
    if requests.len() == 0 {
        assert(sources + requests.map_values(f) =~= sources);
    } else {
        let d = requests.drop_last();
        let n = requests.len() - 1;
        assert forall|i: int| 0 <= i < d.len() implies {
            let before = #[trigger] add_all(sources, supported, d.take(i));
            &&& !registered(before, d[i].0)
            &&& !add_refused(before, supported, d[i].0, d[i].1)
        } by {
            assert(d.take(i) =~= requests.take(i));
            assert(d[i] == requests[i]);
        }
        lemma_add_adds_in_order_step(sources, supported, requests);
        lemma_adds_in_insertion_order(sources, supported, d);
        assert(requests.take(n) =~= d);
        let before = add_all(sources, supported, requests.take(n));
        assert(!registered(before, requests[n].0));
        assert(requests.map_values(f) =~= d.map_values(f).push(entry_of(requests.last())));
    }
}

proof fn lemma_add_adds_in_order_step(
    sources: Seq<(Seq<char>, RagSourceType)>,
    supported: Seq<Seq<char>>,
    requests: Seq<(Seq<char>, PathKind)>,
)
    requires
        requests.len() > 0,
        all_accepted(sources, supported, requests),
    ensures
        !registered(add_all(sources, supported, requests.drop_last()), requests.last().0),
        !add_refused(add_all(sources, supported, requests.drop_last()), supported, requests.last().0, requests.last().1),
{
    let n = requests.len() - 1;
    assert(requests.take(n) =~= requests.drop_last());
    let before = add_all(sources, supported, requests.take(n));
    assert(requests[n] == requests.last());
}

/// A path that is accepted is registered afterwards.
pub proof fn lemma_added_is_registered(
    sources: Seq<(Seq<char>, RagSourceType)>,
    supported: Seq<Seq<char>>,
    canonical: Seq<char>,
    kind: PathKind,
)
    requires
        !add_refused(sources, supported, canonical, kind),
    ensures
        registered(add_step(sources, supported, canonical, kind), canonical),
{
    let once = add_step(sources, supported, canonical, kind);
    if !registered(sources, canonical) {
        assert(once[once.len() - 1].0 == canonical);
    }
}

/// Removing a path that was just added restores the registry.
pub proof fn lemma_remove_undoes_add(
    sources: Seq<(Seq<char>, RagSourceType)>,
    supported: Seq<Seq<char>>,
    canonical: Seq<char>,
    kind: PathKind,
)
    requires
        !registered(sources, canonical),
    ensures
        without_path(add_step(sources, supported, canonical, kind), canonical) == sources,
{
    lemma_without_path(sources, canonical);
    let once = add_step(sources, supported, canonical, kind);
    if !add_refused(sources, supported, canonical, kind) {
        assert(once.drop_last() =~= sources);
    }
}

/// Removing a path leaves it unregistered and every other path as it was.
pub proof fn lemma_remove_forgets_only_path(
    sources: Seq<(Seq<char>, RagSourceType)>,
    path: Seq<char>,
    other: Seq<char>,
)
    requires
        other != path,
    ensures
        !registered(without_path(sources, path), path),
        registered(without_path(sources, path), other) == registered(sources, other),
{
    lemma_without_path(sources, path);
}

/// The sources by their views.
pub open spec fn source_views(s: Seq<RagSource>) -> Seq<(Seq<char>, RagSourceType)> {
    s.map_values(|x: RagSource| source_view(x))
}

/// The listing of `sources`: one line per source, `[FILE] path` or
/// `[DIR] path`, or a note that none is registered.
pub fn list_text(sources: &[RagSource]) -> (r: String)
    ensures
        r@ == listing(source_views(sources@)),
{
    if sources.len() == 0 {
        return copy_str("No sources registered.");
    }
    let ghost sv = source_views(sources@);
    let mut out = String::new();
    let mut i: usize = 0;
    while i < sources.len()
        invariant
            0 < sources.len(),
            i <= sources.len(),
            sv == source_views(sources@),
            i == 0 ==> out@ == Seq::<char>::empty(),
            i > 0 ==> out@ == join(
                sv.take(i as int).map_values(|s: (Seq<char>, RagSourceType)| source_line(s)),
                lit("\n"),
            ),
        decreases sources.len() - i,
    {
        let ghost lines = sv.take(i + 1).map_values(|s: (Seq<char>, RagSourceType)| source_line(s));
        proof {
            assert(lines.drop_last() =~= sv.take(i as int).map_values(
                |s: (Seq<char>, RagSourceType)| source_line(s),
            ));
            assert(lines.last() == source_line(sv[i as int]));
            assert(sv[i as int] == source_view(sources@[i as int]));
        }
        if i > 0 {
            push_str(&mut out, "\n");
        }
        match sources[i].source_type {
            RagSourceType::File => push_str(&mut out, "[FILE] "),
            RagSourceType::Directory => push_str(&mut out, "[DIR] "),
        }
        push_str(&mut out, sources[i].path.as_str());
        proof {
            if i == 0 {
                assert(lines.len() == 1);
                assert(out@ =~= lines[0]);
            } else {
                assert(out@ =~= join(lines.drop_last(), lit("\n")) + lit("\n") + lines.last());
            }
        }
        i = i + 1;
    }
    assert(sv.take(sources.len() as int) =~= sv);
    out
}

/// The sources that can be indexed, with the file extensions the consumer
/// can load. A path is registered at most once.
#[derive(Clone, Debug)]
pub struct RagSourceRegistry {
    sources: Vec<RagSource>,
    supported_extensions: Vec<String>,
}

impl RagSourceRegistry {
    /// The registered sources, in order of registration.
    pub closed spec fn view(&self) -> Seq<(Seq<char>, RagSourceType)> {
        source_views(self.sources@)
    }

    /// The supported file extensions (without the dot).
    pub closed spec fn supported(&self) -> Seq<Seq<char>> {
        views(self.supported_extensions@)
    }

    /// No path is registered twice.
    pub open spec fn wf(&self) -> bool {
        distinct_paths(self@)
    }

    /// An empty registry accepting files with the given extensions.
    pub fn new(supported_extensions: Vec<String>) -> (r: Self)
        ensures
            r@ == Seq::<(Seq<char>, RagSourceType)>::empty(),
            r.supported() == views(supported_extensions@),
            r.wf(),
    {
        let r = RagSourceRegistry { sources: Vec::new(), supported_extensions };
        assert(r@ =~= Seq::<(Seq<char>, RagSourceType)>::empty());
        r
    }

    fn find(&self, path: &str) -> (r: bool)
        ensures
            r == registered(self@, path@),
    {
        let mut i: usize = 0;
        while i < self.sources.len()
            invariant
                i <= self.sources.len(),
                forall|k: int| 0 <= k < i ==> self@[k].0 != path@,
            decreases self.sources.len() - i,
        {
            if str_eq(self.sources[i].path.as_str(), path) {
                assert(self@[i as int].0 == path@);
                return true;
            }
            i = i + 1;
        }
        false
    }

    /// Adds the source at `canonical`, which the caller resolved from
    /// `display` and found to be of kind `kind`; `in_sandbox` says whether it
    /// lies within a root of the sandbox. A path outside the sandbox is
    /// refused and the registry left as it was. Adding a registered path
    /// changes nothing. A file is accepted only with a supported extension.
    pub fn add_source(
        &mut self,
        display: &str,
        canonical: &str,
        kind: PathKind,
        in_sandbox: bool,
    ) -> (r: Result<String, DocumentError>)
        requires
            old(self).wf(),
        ensures
            final(self).wf(),
            final(self).supported() == old(self).supported(),
            !in_sandbox ==> (r matches Err(DocumentError::SandboxEscape(m)) && m@ == sandbox_escape_text(
                display@,
            )) && final(self)@ == old(self)@,
            in_sandbox ==> final(self)@ == add_step(old(self)@, old(self).supported(), canonical@, kind),
            in_sandbox ==> old(self)@.is_prefix_of(final(self)@),
            in_sandbox && registered(old(self)@, canonical@) ==> (r matches Ok(m) && m@ == already_indexed_text(
                display@,
                old(self)@.len(),
            )),
            in_sandbox && !registered(old(self)@, canonical@) && !add_refused(
                old(self)@,
                old(self).supported(),
                canonical@,
                kind,
            ) ==> (r matches Ok(m) && m@ == added_text(display@, old(self)@.len() + 1)),
            in_sandbox && add_refused(old(self)@, old(self).supported(), canonical@, kind) && kind == PathKind::File
                ==> (r matches Err(DocumentError::UnsupportedExtension(e)) && e@ == checked_extension(
                canonical@,
            )),
            in_sandbox && add_refused(old(self)@, old(self).supported(), canonical@, kind) && kind
                == PathKind::Missing ==> (r matches Err(DocumentError::Rag(m)) && m@ == lit(
                "Path does not exist: ",
            ) + display@),
    {
        if !in_sandbox {
            let mut m = copy_str("Access denied: path resolves outside the sandbox: ");
            push_str(&mut m, display);
            return Err(DocumentError::SandboxEscape(m));
        }
        if self.find(canonical) {
            let mut m = copy_str("Source already indexed: ");
            push_str(&mut m, display);
            push_str(&mut m, " (total: ");
            push_decimal(&mut m, self.sources.len());
            push_str(&mut m, ")");
            return Ok(m);
        }
        let ghost before = self@;
        match kind {
            PathKind::File => {
                let ext = match extension(canonical) {
                    Some(e) => e,
                    None => String::new(),
                };
                if !contains_string(&self.supported_extensions, ext.as_str()) {
                    return Err(DocumentError::UnsupportedExtension(ext));
                }
                self.sources.push(RagSource { path: copy_str(canonical), source_type: RagSourceType::File });
            },
            PathKind::Directory => {
                self.sources.push(
                    RagSource { path: copy_str(canonical), source_type: RagSourceType::Directory },
                );
            },
            PathKind::Missing => {
                let mut m = copy_str("Path does not exist: ");
                push_str(&mut m, display);
                return Err(DocumentError::Rag(m));
            },
        }
        proof {
            assert(self@ =~= before.push(self@.last()));
            let s = self@;
            assert forall|i: int, j: int|
                0 <= i < s.len() && 0 <= j < s.len() && i != j implies (#[trigger] s[i]).0
                    != (#[trigger] s[j]).0 by {
                if i < before.len() && j < before.len() {
                    assert(s[i] == before[i] && s[j] == before[j]);
                } else if i < before.len() {
                    assert(s[i] == before[i]);
                    assert(before[i].0 != canonical@);
                } else if j < before.len() {
                    assert(s[j] == before[j]);
                    assert(before[j].0 != canonical@);
                }
            }
        }
        let mut m = copy_str("Added source '");
        push_str(&mut m, display);
        push_str(&mut m, "' (total: ");
        push_decimal(&mut m, self.sources.len());
        push_str(&mut m, ")");
        Ok(m)
    }

    /// Removes the source registered at `canonical_path`.
    pub fn remove_source(&mut self, canonical_path: &str) -> (r: Result<String, DocumentError>)
        requires
            old(self).wf(),
        ensures
            final(self).wf(),
            final(self).supported() == old(self).supported(),
            final(self)@ == without_path(old(self)@, canonical_path@),
            registered(old(self)@, canonical_path@) ==> (r matches Ok(m) && m@ == removed_text(
                canonical_path@,
                final(self)@.len(),
            )),
            !registered(old(self)@, canonical_path@) ==> (r matches Err(DocumentError::Rag(m)) && m@
                == lit("Source not found: ") + canonical_path@),
    {
        let ghost before = self@;
        let before_len = self.sources.len();
        let mut kept: Vec<RagSource> = Vec::new();
        let mut i: usize = 0;
        proof {
            assert(before.take(0) =~= Seq::<(Seq<char>, RagSourceType)>::empty());
        }
        while i < self.sources.len()
            invariant
                i <= self.sources.len(),
                before == self@,
                source_views(kept@) == without_path(
                    before.take(i as int),
                    canonical_path@,
                ),
            decreases self.sources.len() - i,
        {
            proof {
                assert(before.take(i + 1).drop_last() =~= before.take(i as int));
            }
            if !str_eq(self.sources[i].path.as_str(), canonical_path) {
                let s = RagSource {
                    path: self.sources[i].path.clone(),
                    source_type: self.sources[i].source_type,
                };
                kept.push(s);
                proof {
                    assert(source_views(kept@) =~= without_path(
                        before.take(i as int),
                        canonical_path@,
                    ).push(before[i as int]));
                }
            }
            i = i + 1;
        }
        proof {
            assert(before.take(before.len() as int) =~= before);
            lemma_without_path(before, canonical_path@);
        }
        self.sources = kept;
        if self.sources.len() == before_len {
            let mut m = copy_str("Source not found: ");
            push_str(&mut m, canonical_path);
            return Err(DocumentError::Rag(m));
        }
        let mut m = copy_str("Removed source '");
        push_str(&mut m, canonical_path);
        push_str(&mut m, "' (total: ");
        push_decimal(&mut m, self.sources.len());
        push_str(&mut m, ")");
        Ok(m)
    }

    /// The registered sources.
    pub fn sources(&self) -> (r: &[RagSource])
        ensures
            source_views(r@) == self@,
    {
        self.sources.as_slice()
    }

    /// One line per source, `[FILE] path` or `[DIR] path`, or a note that
    /// none is registered.
    pub fn list_sources(&self) -> (r: String)
        ensures
            r@ == listing(self@),
    {
        list_text(self.sources.as_slice())
    }

    /// Whether no source is registered.
    pub fn is_empty(&self) -> (r: bool)
        ensures
            r == (self@.len() == 0),
    {
        self.sources.len() == 0
    }
}

/// Arguments of the `manage_rag` tool.
#[derive(Clone, Debug)]
pub struct ManageRagArgs {
    /// `"add"`, `"remove"` or `"list"`.
    pub action: String,
    /// The file or directory, relative to the sandbox root; required for
    /// `"add"` and `"remove"`.
    pub path: Option<String>,
}

/// What the `manage_rag` tool asks of the indexer.
#[derive(Clone, Debug)]
pub enum RagRequest {
    Add(String),
    Remove(String),
    List,
}

/// The `manage_rag` tool's plan for one call.
#[derive(Debug)]
pub struct RagPlan {
    /// The description shown to the permission gate.
    pub description: String,
    /// Whether the permission gate must be consulted first.
    pub needs_gate: bool,
    /// The request, or the error for a missing `path`.
    pub request: Result<RagRequest, DocumentError>,
}

/// A tool that adds, removes and lists RAG sources, consulting the
/// permission policy for paths outside the sandbox.
#[derive(Clone, Debug)]
pub struct ManageRagTool<I, G> {
    pub indexer: I,
    pub policy: crate::permission::PermissionPolicy<G>,
}

/// The path argument, or empty.
pub open spec fn path_or_empty(path: Option<String>) -> Seq<char> {
    match path {
        Some(p) => p@,
        None => Seq::empty(),
    }
}

/// The error for an unknown action.
pub open spec fn unknown_action_text(action: Seq<char>) -> Seq<char> {
    lit("Unknown action '") + action + lit("'. Valid actions: add, remove, list")
}

/// The error for a missing path.
pub open spec fn missing_path_text(action: Seq<char>) -> Seq<char> {
    lit("The 'path' argument is required for the '") + action + lit("' action")
}

/// The plan for `args`, where `path_in_sandbox` says whether the path
/// resolves within the sandbox.
pub open spec fn plan_ok(args: ManageRagArgs, path_in_sandbox: bool, p: RagPlan) -> bool {
    let a = args.action@;
    let path = path_or_empty(args.path);
    &&& a == lit("add") ==> p.description@ == lit("Wants to add RAG source [") + path + lit("]")
    &&& a == lit("remove") ==> p.description@ == lit("Wants to remove RAG source [") + path + lit("]")
    &&& a == lit("list") ==> p.description@ == lit("Wants to list all RAG sources")
    &&& p.needs_gate == (a != lit("list") && !path_in_sandbox)
    &&& a == lit("list") ==> (p.request matches Ok(RagRequest::List))
    &&& a != lit("list") ==> match args.path {
        Some(q) => if a == lit("add") {
            (p.request matches Ok(RagRequest::Add(x)) && x@ == q@)
        } else {
            (p.request matches Ok(RagRequest::Remove(x)) && x@ == q@)
        },
        None => (p.request matches Err(DocumentError::Rag(m)) && m@ == missing_path_text(a)),
    }
}

impl<I, G> ManageRagTool<I, G> {
    /// A tool over `indexer`, gated by `policy`.
    pub fn new(indexer: I, policy: crate::permission::PermissionPolicy<G>) -> (r: Self)
        ensures
            r.indexer == indexer,
            r.policy == policy,
    {
        ManageRagTool { indexer, policy }
    }
}

/// Plans a `manage_rag` call: its description, whether the permission gate
/// is consulted (not for `list`, nor for paths within the sandbox), and the
/// request. An unknown action is an error.
pub fn plan_manage_rag(args: &ManageRagArgs, path_in_sandbox: bool) -> (r: Result<RagPlan, DocumentError>)
    ensures
        (args.action@ == lit("add") || args.action@ == lit("remove") || args.action@ == lit("list"))
            ==> (r matches Ok(p) && plan_ok(*args, path_in_sandbox, p)),
        !(args.action@ == lit("add") || args.action@ == lit("remove") || args.action@ == lit("list"))
            ==> (r matches Err(DocumentError::Rag(m)) && m@ == unknown_action_text(args.action@)),
{
    let a = args.action.as_str();
    let path = match &args.path {
        Some(p) => p.as_str(),
        None => "",
    };
    let is_add = str_eq(a, "add");
    let is_remove = str_eq(a, "remove");
    let is_list = str_eq(a, "list");
    proof {
        reveal_strlit("add");
        reveal_strlit("remove");
        reveal_strlit("list");
        reveal_strlit("");
        assert(path@ == path_or_empty(args.path));
        assert("add"@.len() == 3 && "remove"@.len() == 6 && "list"@.len() == 4);
    }
    let description = if is_add {
        let mut d = copy_str("Wants to add RAG source [");
        push_str(&mut d, path);
        push_str(&mut d, "]");
        d
    } else if is_remove {
        let mut d = copy_str("Wants to remove RAG source [");
        push_str(&mut d, path);
        push_str(&mut d, "]");
        d
    } else if is_list {
        copy_str("Wants to list all RAG sources")
    } else {
        let mut m = copy_str("Unknown action '");
        push_str(&mut m, a);
        push_str(&mut m, "'. Valid actions: add, remove, list");
        return Err(DocumentError::Rag(m));
    };
    let needs_gate = !is_list && !path_in_sandbox;
    let request = if is_list {
        Ok(RagRequest::List)
    } else {
        match &args.path {
            Some(p) => if is_add {
                Ok(RagRequest::Add(p.clone()))
            } else {
                Ok(RagRequest::Remove(p.clone()))
            },
            None => {
                let mut m = copy_str("The 'path' argument is required for the '");
                push_str(&mut m, a);
                push_str(&mut m, "' action");
                Err(DocumentError::Rag(m))
            },
        }
    };
    Ok(RagPlan { description, needs_gate, request })
}

/// The tool's answer once the indexer handled `request`: how many chunks
/// were indexed or removed, or the indexer's error.
pub fn rag_outcome(request: &RagRequest, handled: Result<usize, String>) -> (r: Result<String, DocumentError>)
    ensures
        handled matches Err(e) ==> (r matches Err(DocumentError::Rag(m)) && m@ == e@),
        handled matches Ok(n) ==> (r matches Ok(m) && m@ == (if request is Add {
            lit("indexed ")
        } else {
            lit("removed ")
        }) + decimal(n as nat) + lit(" chunks")),
{
    match handled {
        Err(e) => Err(DocumentError::Rag(e)),
        Ok(n) => {
            let mut m = match request {
                RagRequest::Add(_) => copy_str("indexed "),
                _ => copy_str("removed "),
            };
            push_decimal(&mut m, n);
            push_str(&mut m, " chunks");
            Ok(m)
        },
    }
}

} // verus!
