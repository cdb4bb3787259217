//! The `list_directory` tool: directories first, then files, each group in
//! case-insensitive order, one entry per line.
use vstd::prelude::*;

use crate::permission::{lowercase, to_lowercase, PermissionPolicy};
use crate::text::{chars_of, copy_str, decimal, join, lemma_lex_total, lemma_lex_trans, lex_le, lex_le_exec, lit, push_decimal_u64, push_str};

verus! {

broadcast use vstd::seq_lib::group_to_multiset_ensures;

/// Arguments of the `list_directory` tool.
#[derive(Clone, Debug)]
pub struct ListDirectoryArgs {
    /// The directory, relative to the sandbox root (`.` when absent).
    pub path: Option<String>,
}

/// Lists a directory within the sandbox.
#[derive(Clone, Debug)]
pub struct ListDirectoryTool<S, G> {
    pub sandbox: S,
    pub policy: PermissionPolicy<G>,
}

impl<S, G> ListDirectoryTool<S, G> {
    /// A listing tool over `sandbox`, gated by `policy`.
    pub fn new(sandbox: S, policy: PermissionPolicy<G>) -> (r: Self)
        ensures
            r.sandbox == sandbox,
            r.policy == policy,
    {
        ListDirectoryTool { sandbox, policy }
    }
}

/// The description of a listing, shown to the permission gate.
pub fn list_description(args: &ListDirectoryArgs) -> (r: String)
    ensures
        r@ == lit("Wants to list directory content at [") + match args.path {
            Some(p) => p@,
            None => lit("."),
        } + lit("]"),
{
    let mut r = copy_str("Wants to list directory content at [");
    match &args.path {
        Some(p) => push_str(&mut r, p.as_str()),
        None => push_str(&mut r, "."),
    }
    push_str(&mut r, "]");
    r
}

/// An entry of a directory: its name, whether it is a directory, its size.
#[derive(Clone, Debug)]
pub struct DirEntryInfo {
    pub name: String,
    pub is_dir: bool,
    pub size: u64,
}

/// An entry by its name's characters.
pub open spec fn entry_view(e: DirEntryInfo) -> (Seq<char>, bool, u64) {
    (e.name@, e.is_dir, e.size)
}

/// The entries of a sequence, by their views.
pub open spec fn entry_views(s: Seq<DirEntryInfo>) -> Seq<(Seq<char>, bool, u64)> {
    s.map_values(|e: DirEntryInfo| entry_view(e))
}

/// Directories before files; within a group by lower-cased name.
pub open spec fn entry_le(a: (Seq<char>, bool, u64), b: (Seq<char>, bool, u64)) -> bool {
    if a.1 && !b.1 {
        true
    } else if !a.1 && b.1 {
        false
    } else {
        lex_le(lowercase(a.0), lowercase(b.0))
    }
}

/// `s` is in listing order.
pub open spec fn listing_sorted(s: Seq<(Seq<char>, bool, u64)>) -> bool {
    forall|i: int, j: int| 0 <= i < j < s.len() ==> entry_le(#[trigger] s[i], #[trigger] s[j])
}

proof fn lemma_entry_total(a: (Seq<char>, bool, u64), b: (Seq<char>, bool, u64))
    ensures
        entry_le(a, b) || entry_le(b, a),
{
    lemma_lex_total(lowercase(a.0), lowercase(b.0));
}

proof fn lemma_entry_trans(a: (Seq<char>, bool, u64), b: (Seq<char>, bool, u64), c: (Seq<char>, bool, u64))
    requires
        entry_le(a, b),
        entry_le(b, c),
    ensures
        entry_le(a, c),
{
    if a.1 == b.1 && b.1 == c.1 {
        lemma_lex_trans(lowercase(a.0), lowercase(b.0), lowercase(c.0));
    }
}

/// What listing order means: every directory comes before every file, and
/// within each group (files as well as directories) an entry comes before
/// another only if its lower-cased name is lexicographically at most the
/// other's.
pub proof fn lemma_listing_order(s: Seq<(Seq<char>, bool, u64)>)
    requires
        listing_sorted(s),
    ensures
        forall|i: int, j: int|
            0 <= i < j < s.len() && (#[trigger] s[j]).1 ==> (#[trigger] s[i]).1,
        forall|i: int, j: int|
            0 <= i < j < s.len() && (#[trigger] s[i]).1 == (#[trigger] s[j]).1 ==> lex_le(
                lowercase(s[i].0),
                lowercase(s[j].0),
            ),
{
    assert forall|i: int, j: int| 0 <= i < j < s.len() && (#[trigger] s[j]).1 implies (#[trigger] s[i]).1 by {
        assert(entry_le(s[i], s[j]));
    }
    assert forall|i: int, j: int|
        0 <= i < j < s.len() && (#[trigger] s[i]).1 == (#[trigger] s[j]).1 implies lex_le(
            lowercase(s[i].0),
            lowercase(s[j].0),
        ) by {
        assert(entry_le(s[i], s[j]));
    }
}

/// Names that differ only in letter case compare equal: two entries of the
/// same kind whose names lower-case alike may come in either order.
pub proof fn lemma_case_only_differences_tie(a: (Seq<char>, bool, u64), b: (Seq<char>, bool, u64))
    requires
        a.1 == b.1,
        lowercase(a.0) == lowercase(b.0),
    ensures
        entry_le(a, b),
        entry_le(b, a),
{
    lemma_lex_total(lowercase(a.0), lowercase(b.0));
}

/// Sorts entries into listing order, keeping the order of entries that
/// compare equal.
pub fn sort_entries(entries: Vec<DirEntryInfo>) -> (r: Vec<DirEntryInfo>)
    ensures
        entry_views(r@).to_multiset() == entry_views(entries@).to_multiset(),
        listing_sorted(entry_views(r@)),
        forall|i: int, j: int| 0 <= i < j < r@.len() && (#[trigger] r@[j]).is_dir ==> (#[trigger] r@[i]).is_dir,
        forall|i: int, j: int|
            0 <= i < j < r@.len() && (#[trigger] r@[i]).is_dir == (#[trigger] r@[j]).is_dir ==> lex_le(
                lowercase(r@[i].name@),
                lowercase(r@[j].name@),
            ),
{
    let mut out: Vec<DirEntryInfo> = Vec::new();
    let mut keys: Vec<Vec<char>> = Vec::new();
    let mut i: usize = 0;
    proof {
        assert(entry_views(entries@).take(0) =~= Seq::<(Seq<char>, bool, u64)>::empty());
        assert(entry_views(out@) =~= Seq::<(Seq<char>, bool, u64)>::empty());
    }
    while i < entries.len()
        invariant
            i <= entries.len(),
            keys@.len() == out@.len(),
            forall|k: int| 0 <= k < keys@.len() ==> (#[trigger] keys@[k])@ == lowercase(out@[k].name@),
            entry_views(out@).to_multiset() == entry_views(entries@).take(i as int).to_multiset(),
            listing_sorted(entry_views(out@)),
        decreases entries.len() - i,
    {
        let e = DirEntryInfo { name: entries[i].name.clone(), is_dir: entries[i].is_dir, size: entries[i].size };
        let low = to_lowercase(e.name.as_str());
        let key = chars_of(low.as_str());
        let ghost ov = entry_views(out@);
        let ghost ev = entry_view(entries@[i as int]);
        let mut p: usize = 0;
        while p < out.len() && (out[p].is_dir && !e.is_dir || out[p].is_dir == e.is_dir && lex_le_exec(&keys[p], &key))
            invariant
                p <= out.len(),
                ov == entry_views(out@),
                keys@.len() == out@.len(),
                forall|k: int| 0 <= k < keys@.len() ==> (#[trigger] keys@[k])@ == lowercase(out@[k].name@),
                key@ == lowercase(e.name@),
                ev == (e.name@, e.is_dir, e.size),
                forall|k: int| 0 <= k < p ==> entry_le(#[trigger] ov[k], ev),
            decreases out.len() - p,
        {
            assert(ov[p as int] == entry_view(out@[p as int]));
            p = p + 1;
        }
        proof {
            if p < out.len() {
                assert(ov[p as int] == entry_view(out@[p as int]));
                assert(!entry_le(ov[p as int], ev));
                lemma_entry_total(ov[p as int], ev);
            }
        }
        out.insert(p, e);
        keys.insert(p, key);
        proof {
            let nv = entry_views(out@);
            assert(nv =~= ov.insert(p as int, ev));
            assert(entry_views(entries@).take(i + 1) =~= entry_views(entries@).take(i as int).push(ev));
            vstd::seq_lib::to_multiset_insert(ov, p as int, ev);
            vstd::seq_lib::to_multiset_build(entry_views(entries@).take(i as int), ev);
            assert forall|a: int, b: int| 0 <= a < b < nv.len() implies entry_le(#[trigger] nv[a], #[trigger] nv[b]) by {
                if b < p {
                    assert(nv[a] == ov[a] && nv[b] == ov[b]);
                } else if b == p {
                    assert(nv[a] == ov[a]);
                } else if a < p {
                    assert(nv[a] == ov[a] && nv[b] == ov[b - 1]);
                    assert(entry_le(ov[a], ev));
                    assert(entry_le(ev, ov[p as int]));
                    if p < b - 1 {
                        lemma_entry_trans(ev, ov[p as int], ov[b - 1]);
                    }
                    lemma_entry_trans(ov[a], ev, ov[b - 1]);
                } else if a == p {
                    assert(nv[b] == ov[b - 1]);
                    if p < b - 1 {
                        lemma_entry_trans(ev, ov[p as int], ov[b - 1]);
                    }
                } else {
                    assert(nv[a] == ov[a - 1] && nv[b] == ov[b - 1]);
                }
            }
        }
        i = i + 1;
    }
    assert(entry_views(entries@).take(entries.len() as int) =~= entry_views(entries@));
    proof {
        let v = entry_views(out@);
        lemma_listing_order(v);
        assert forall|i: int, j: int| 0 <= i < j < out@.len() && (#[trigger] out@[j]).is_dir implies (
        #[trigger] out@[i]).is_dir by {
            assert(v[i] == entry_view(out@[i]) && v[j] == entry_view(out@[j]));
        }
        assert forall|i: int, j: int|
            0 <= i < j < out@.len() && (#[trigger] out@[i]).is_dir == (#[trigger] out@[j]).is_dir implies lex_le(
                lowercase(out@[i].name@),
                lowercase(out@[j].name@),
            ) by {
            assert(v[i] == entry_view(out@[i]) && v[j] == entry_view(out@[j]));
        }
    }
    out
}

/// The line of an entry: `[DIR]  name`, or `[FILE] name (size bytes)`.
pub open spec fn entry_line(e: (Seq<char>, bool, u64)) -> Seq<char> {
    if e.1 {
        lit("[DIR]  ") + e.0
    } else {
        lit("[FILE] ") + e.0 + lit(" (") + decimal(e.2 as nat) + lit(" bytes)")
    }
}

/// The listing of entries already in listing order.
pub open spec fn listing_text(s: Seq<(Seq<char>, bool, u64)>) -> Seq<char> {
    if s.len() == 0 {
        lit("Directory is empty.")
    } else {
        join(s.map_values(|e: (Seq<char>, bool, u64)| entry_line(e)), lit("\n"))
    }
}

/// Lists the entries of a directory: directories first, then files, each
/// group by case-insensitive name, one line each.
pub fn directory_listing(entries: Vec<DirEntryInfo>) -> (r: String)
    ensures
        exists|s: Seq<(Seq<char>, bool, u64)>|
            #![trigger listing_text(s)]
            s.to_multiset() == entry_views(entries@).to_multiset() && listing_sorted(s) && r@
                == listing_text(s),
{
    let sorted = sort_entries(entries);
    let ghost sv = entry_views(sorted@);
    if sorted.len() == 0 {
        let r = copy_str("Directory is empty.");
        assert(r@ == listing_text(sv));
        return r;
    }
    let mut out = String::new();
    let mut i: usize = 0;
    while i < sorted.len()
        invariant
            0 < sorted.len(),
            i <= sorted.len(),
            sv == entry_views(sorted@),
            i == 0 ==> out@ == Seq::<char>::empty(),
            i > 0 ==> out@ == join(
                sv.take(i as int).map_values(|e: (Seq<char>, bool, u64)| entry_line(e)),
                lit("\n"),
            ),
        decreases sorted.len() - i,
    {
        let ghost ls = sv.take(i + 1).map_values(|e: (Seq<char>, bool, u64)| entry_line(e));
        proof {
            assert(ls.drop_last() =~= sv.take(i as int).map_values(
                |e: (Seq<char>, bool, u64)| entry_line(e),
            ));
            assert(ls.last() == entry_line(sv[i as int]));
            assert(sv[i as int] == entry_view(sorted@[i as int]));
        }
        if i > 0 {
            push_str(&mut out, "\n");
        }
        let e = &sorted[i];
        if e.is_dir {
            push_str(&mut out, "[DIR]  ");
            push_str(&mut out, e.name.as_str());
        } else {
            push_str(&mut out, "[FILE] ");
            push_str(&mut out, e.name.as_str());
            push_str(&mut out, " (");
            push_decimal_u64(&mut out, e.size);
            push_str(&mut out, " bytes)");
        }
        proof {
            if i == 0 {
                assert(out@ =~= ls[0]);
            } else {
                assert(out@ =~= join(ls.drop_last(), lit("\n")) + lit("\n") + ls.last());
            }
        }
        i = i + 1;
    }
    assert(sv.take(sorted.len() as int) =~= sv);
    assert(out@ == listing_text(sv));
    out
}

} // verus!
