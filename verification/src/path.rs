//! File names and extensions of slash-separated paths, as `std::path::Path`
//! reads them on Unix.
use vstd::prelude::*;

use crate::text::{chars_of, string_of_range};

verus! {

/// The characters of `s` after its last `/` (all of `s` when it has none).
pub open spec fn last_segment(s: Seq<char>) -> Seq<char>
    decreases s.len(),
{
    if s.len() == 0 || s.last() == '/' {
        Seq::empty()
    } else {
        last_segment(s.drop_last()).push(s.last())
    }
}

/// The file name of a path (`Path::file_name`): its last component, where
/// trailing slashes and `.` components do not count; none when that
/// component is `..` or the path has no component.
pub open spec fn file_name_of(s: Seq<char>) -> Option<Seq<char>>
    decreases s.len(),
{
    if s.len() == 0 {
        None
    } else if s.last() == '/' {
        file_name_of(s.drop_last())
    } else {
        let seg = last_segment(s);
        if seg == seq!['.'] {
            file_name_of(s.subrange(0, s.len() - 1))
        } else if seg == seq!['.', '.'] {
            None
        } else {
            Some(seg)
        }
    }
}

/// The index of the last `.` in `s`, or -1.
pub open spec fn last_dot(s: Seq<char>) -> int
    decreases s.len(),
{
    if s.len() == 0 {
        -1
    } else if s.last() == '.' {
        s.len() - 1
    } else {
        last_dot(s.drop_last())
    }
}

/// The extension of a file name (`Path::extension` of that name): what
/// follows its last `.`, unless the name has no `.`, starts with its only
/// `.`, or is `..`.
pub open spec fn extension_of_name(name: Seq<char>) -> Option<Seq<char>> {
    let i = last_dot(name);
    if name == seq!['.', '.'] || i <= 0 {
        None
    } else {
        Some(name.subrange(i + 1, name.len() as int))
    }
}

/// The extension of a path: that of its file name.
pub open spec fn extension_of(s: Seq<char>) -> Option<Seq<char>> {
    match file_name_of(s) {
        Some(n) => extension_of_name(n),
        None => None,
    }
}

proof fn lemma_last_segment(s: Seq<char>)
    ensures
        last_segment(s).len() <= s.len(),
        last_segment(s) =~= s.subrange(s.len() - last_segment(s).len(), s.len() as int),
        forall|k: int|
            s.len() - last_segment(s).len() <= k < s.len() ==> s[k] != '/',
        last_segment(s).len() < s.len() ==> s[s.len() - last_segment(s).len() - 1] == '/',
    decreases s.len(),
{
    if s.len() > 0 && s.last() != '/' {
        let d = s.drop_last();
        lemma_last_segment(d);
        assert forall|k: int| s.len() - last_segment(s).len() <= k < s.len() implies s[k] != '/' by {
            if k < s.len() - 1 {
                assert(s[k] == d[k]);
            }
        }
        if last_segment(s).len() < s.len() {
            assert(s[s.len() - last_segment(s).len() - 1] == d[d.len() - last_segment(d).len() - 1]);
        }
    }
}

/// The start of the last segment of `v[0..end]`.
fn segment_start(v: &Vec<char>, end: usize) -> (start: usize)
    requires
        end <= v.len(),
    ensures
        start <= end,
        start == end - last_segment(v@.subrange(0, end as int)).len(),
{
    let mut start = end;
    proof {
        lemma_last_segment(v@.subrange(0, end as int));
    }
    while start > 0 && v[start - 1] != '/'
        invariant
            start <= end <= v.len(),
            forall|k: int| start <= k < end ==> v@[k] != '/',
        decreases start,
    {
        start = start - 1;
    }
    proof {
        let p = v@.subrange(0, end as int);
        lemma_last_segment(p);
        let n = last_segment(p).len();
        if end - n < start {
            assert(p[end - n - 1] == '/' || end - n == 0);
            assert(v@[start - 1] == '/');
            assert(p[start - 1] == '/');
        }
        if start < end - n {
            assert(p[start - 1] == '/');
        }
    }
    start
}

/// The file name of `path`, if it has one.
pub fn file_name(path: &str) -> (r: Option<String>)
    ensures
        r matches Some(n) ==> file_name_of(path@) == Some(n@),
        r is None ==> file_name_of(path@) is None,
{
    let v = chars_of(path);
    let mut end = v.len();
    assert(v@.subrange(0, end as int) =~= path@);
    while end > 0
        invariant
            end <= v.len(),
            file_name_of(v@.subrange(0, end as int)) == file_name_of(path@),
        decreases end,
    {
        let ghost p = v@.subrange(0, end as int);
        if v[end - 1] == '/' {
            assert(p.drop_last() =~= v@.subrange(0, end - 1));
            end = end - 1;
        } else {
            let start = segment_start(&v, end);
            proof {
                lemma_last_segment(p);
            }
            let len = end - start;
            if len == 1 && v[start] == '.' {
                assert(last_segment(p) =~= seq!['.']);
                assert(p.subrange(0, p.len() - 1) =~= v@.subrange(0, start as int));
                end = start;
            } else if len == 2 && v[start] == '.' && v[start + 1] == '.' {
                assert(last_segment(p) =~= seq!['.', '.']);
                return None;
            } else {
                proof {
                    if last_segment(p) == seq!['.'] {
                        assert(last_segment(p)[0] == v@[start as int]);
                    }
                    if last_segment(p) == seq!['.', '.'] {
                        assert(last_segment(p)[0] == v@[start as int]);
                        assert(last_segment(p)[1] == v@[start + 1]);
                    }
                }
                let name = string_of_range(&v, start, end);
                assert(name@ =~= last_segment(p));
                return Some(name);
            }
        }
    }
    assert(v@.subrange(0, 0) =~= Seq::<char>::empty());
    None
}

/// The extension of the file name `name`, if it has one.
pub fn name_extension(name: &str) -> (r: Option<String>)
    ensures
        r matches Some(e) ==> extension_of_name(name@) == Some(e@),
        r is None ==> extension_of_name(name@) is None,
{
    let v = chars_of(name);
    let mut i = v.len();
    assert(v@.subrange(0, i as int) =~= v@);
    while i > 0 && v[i - 1] != '.'
        invariant
            i <= v.len(),
            v@ == name@,
            last_dot(v@.subrange(0, i as int)) == last_dot(name@),
        decreases i,
    {
        assert(v@.subrange(0, i as int).drop_last() =~= v@.subrange(0, i - 1));
        i = i - 1;
    }
    if i == 0 {
        assert(v@.subrange(0, 0) =~= Seq::<char>::empty());
        return None;
    }
    assert(last_dot(v@.subrange(0, i as int)) == i - 1);
    if v.len() == 2 && v[0] == '.' && v[1] == '.' {
        assert(name@ =~= seq!['.', '.']);
        return None;
    }
    if i == 1 {
        return None;
    }
    proof {
        if name@ == seq!['.', '.'] {
            assert(name@[0] == v@[0]);
        }
    }
    let e = string_of_range(&v, i, v.len());
    Some(e)
}

/// The extension of `path`, if it has one.
pub fn extension(path: &str) -> (r: Option<String>)
    ensures
        r matches Some(e) ==> extension_of(path@) == Some(e@),
        r is None ==> extension_of(path@) is None,
{
    match file_name(path) {
        Some(n) => name_extension(n.as_str()),
        None => None,
    }
}

} // verus!
