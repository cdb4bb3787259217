//! A small string-keyed table (tool-call id to tool name), with the
//! insert/lookup/remove behaviour of a hash map.
use vstd::prelude::*;

use crate::text::str_eq;

verus! {

/// Pairs from tool-call id to tool name; a later pair for the same id hides
/// an earlier one.
#[derive(Debug)]
pub struct PendingCalls {
    pub entries: Vec<(String, String)>,
}

/// The table `entries` stands for: each id maps to the name of its last pair.
pub open spec fn table_of(entries: Seq<(String, String)>) -> Map<Seq<char>, Seq<char>>
    decreases entries.len(),
{
    if entries.len() == 0 {
        Map::empty()
    } else {
        table_of(entries.drop_last()).insert(entries.last().0@, entries.last().1@)
    }
}

/// `entries` without the pairs whose id is `k`.
pub open spec fn without_key(entries: Seq<(String, String)>, k: Seq<char>) -> Seq<(String, String)>
    decreases entries.len(),
{
    if entries.len() == 0 {
        Seq::empty()
    } else if entries.last().0@ == k {
        without_key(entries.drop_last(), k)
    } else {
        without_key(entries.drop_last(), k).push(entries.last())
    }
}

proof fn lemma_without_key(entries: Seq<(String, String)>, k: Seq<char>)
    ensures
        table_of(without_key(entries, k)) =~= table_of(entries).remove(k),
    decreases entries.len(),
{
    if entries.len() > 0 {
        let dl = entries.drop_last();
        lemma_without_key(dl, k);
        if entries.last().0@ != k {
            assert(without_key(entries, k).drop_last() =~= without_key(dl, k));
        }
    }
}

/// The value of the last pair of `entries` whose key is `key`, if any.
pub fn lookup(entries: &Vec<(String, String)>, key: &str) -> (r: Option<String>)
    ensures
        r is Some <==> table_of(entries@).dom().contains(key@),
        r is Some ==> r->0@ == table_of(entries@)[key@],
{
    let mut i = entries.len();
    assert(entries@.take(i as int) =~= entries@);
    while i > 0
        invariant
            i <= entries.len(),
            table_of(entries@).dom().contains(key@) <==> table_of(entries@.take(i as int)).dom().contains(
                key@,
            ),
            table_of(entries@).dom().contains(key@) ==> table_of(entries@)[key@] == table_of(
                entries@.take(i as int),
            )[key@],
        decreases i,
    {
        let ghost pre = entries@.take(i as int);
        assert(pre.drop_last() =~= entries@.take(i - 1));
        if str_eq(entries[i - 1].0.as_str(), key) {
            assert(pre.last() == entries@[i - 1]);
            return Some(entries[i - 1].1.clone());
        }
        i = i - 1;
    }
    assert(entries@.take(0) =~= Seq::<(String, String)>::empty());
    None
}

impl PendingCalls {
    /// The table this value stands for.
    pub open spec fn view(&self) -> Map<Seq<char>, Seq<char>> {
        table_of(self.entries@)
    }

    /// An empty table.
    pub fn new() -> (r: Self)
        ensures
            r.view() == Map::<Seq<char>, Seq<char>>::empty(),
    {
        PendingCalls { entries: Vec::new() }
    }

    /// Maps `id` to `name`, replacing any earlier name.
    pub fn insert(&mut self, id: String, name: String)
        ensures
            final(self).view() == old(self).view().insert(id@, name@),
    {
        self.entries.push((id, name));
        assert(self.entries@.drop_last() =~= old(self).entries@);
    }

    /// The name recorded for `id`, if any.
    pub fn get(&self, id: &str) -> (r: Option<String>)
        ensures
            r is Some <==> self.view().dom().contains(id@),
            r is Some ==> r->0@ == self.view()[id@],
    {
        lookup(&self.entries, id)
    }

    /// Removes `id` and returns its name, if it had one.
    pub fn remove(&mut self, id: &str) -> (r: Option<String>)
        ensures
            r is Some <==> old(self).view().dom().contains(id@),
            r is Some ==> r->0@ == old(self).view()[id@],
            final(self).view() == old(self).view().remove(id@),
    {
        let r = self.get(id);
        let mut kept: Vec<(String, String)> = Vec::new();
        let mut i: usize = 0;
        while i < self.entries.len()
            invariant
                i <= self.entries.len(),
                kept@ == without_key(self.entries@.take(i as int), id@),
            decreases self.entries.len() - i,
        {
            assert(self.entries@.take(i + 1).drop_last() =~= self.entries@.take(i as int));
            if !str_eq(self.entries[i].0.as_str(), id) {
                let e = (self.entries[i].0.clone(), self.entries[i].1.clone());
                kept.push(e);
            }
            i = i + 1;
        }
        proof {
            assert(self.entries@.take(self.entries.len() as int) =~= self.entries@);
            lemma_without_key(self.entries@, id@);
        }
        self.entries = kept;
        r
    }
}

} // verus!
