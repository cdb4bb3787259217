//! The registry of tools by group: each tool name is registered once, and
//! the tools of the enabled groups are the active ones.
use vstd::prelude::*;

use crate::text::{
    chars_of, contains_string, copy_str, lemma_lex_antisym, lemma_lex_total, lemma_lex_trans, lex_le,
    lex_le_exec, lit, push_str, str_eq, views,
};

verus! {

/// A registered tool: its group, its name and what makes an instance of it.
#[derive(Clone, Debug)]
pub struct RegisteredTool<F> {
    pub group: String,
    pub tool_name: String,
    pub factory: F,
}

/// The names of registered tools, in order.
pub open spec fn tool_names<F>(entries: Seq<RegisteredTool<F>>) -> Seq<Seq<char>> {
    entries.map_values(|e: RegisteredTool<F>| e.tool_name@)
}

/// The groups of registered tools, in order of registration.
pub open spec fn tool_groups<F>(entries: Seq<RegisteredTool<F>>) -> Seq<Seq<char>> {
    entries.map_values(|e: RegisteredTool<F>| e.group@)
}

/// The names of named pairs, in order.
pub open spec fn pair_names<F>(pairs: Seq<(String, F)>) -> Seq<Seq<char>> {
    pairs.map_values(|t: (String, F)| t.0@)
}

/// Collects tools and the groups to enable.
#[derive(Debug)]
pub struct ToolRegistryBuilder<F> {
    entries: Vec<RegisteredTool<F>>,
    enabled: Vec<String>,
}

/// The error for a tool name registered twice.
pub open spec fn duplicate_text(mcp: bool, name: Seq<char>) -> Seq<char> {
    (if mcp {
        lit("duplicate MCP tool `")
    } else {
        lit("duplicate tool `")
    }) + name + lit("` already registered")
}

impl<F> ToolRegistryBuilder<F> {
    /// The registered tools, in order.
    pub closed spec fn entries(&self) -> Seq<RegisteredTool<F>> {
        self.entries@
    }

    /// The enabled groups.
    pub closed spec fn enabled(&self) -> Set<Seq<char>> {
        views(self.enabled@).to_set()
    }

    /// No tool name is registered twice.
    pub open spec fn wf(&self) -> bool {
        tool_names(self.entries()).no_duplicates()
    }

    /// A builder without tools or enabled groups.
    pub fn new() -> (r: Self)
        ensures
            r.entries() == Seq::<RegisteredTool<F>>::empty(),
            r.enabled() == Set::<Seq<char>>::empty(),
            r.wf(),
    {
        let r = ToolRegistryBuilder { entries: Vec::new(), enabled: Vec::new() };
        assert(views(r.enabled@).to_set() =~= Set::<Seq<char>>::empty());
        assert(tool_names(r.entries@) =~= Seq::<Seq<char>>::empty());
        r
    }

    fn has_name(&self, name: &str) -> (r: bool)
        ensures
            r == tool_names(self.entries()).contains(name@),
    {
        let mut i: usize = 0;
        while i < self.entries.len()
            invariant
                i <= self.entries.len(),
                forall|k: int| 0 <= k < i ==> tool_names(self.entries@)[k] != name@,
            decreases self.entries.len() - i,
        {
            if str_eq(self.entries[i].tool_name.as_str(), name) {
                assert(tool_names(self.entries@)[i as int] == name@);
                return true;
            }
            i = i + 1;
        }
        false
    }

    fn push_entry(&mut self, group: &str, tool_name: String, factory: F)
        requires
            old(self).wf(),
            !tool_names(old(self).entries()).contains(tool_name@),
        ensures
            final(self).wf(),
            final(self).enabled() == old(self).enabled(),
            final(self).entries() == old(self).entries().push(
                RegisteredTool { group: final(self).entries().last().group, tool_name, factory },
            ),
            final(self).entries().last().group@ == group@,
    {
        let ghost before = self.entries@;
        self.entries.push(RegisteredTool { group: copy_str(group), tool_name, factory });
        assert(tool_names(self.entries@) =~= tool_names(before).push(self.entries@.last().tool_name@));
    }

    /// Registers the tool `tool_name` of `group`, made by `factory`; a name
    /// registered already is refused.
    pub fn register(self, group: &str, tool_name: String, factory: F) -> (r: Result<Self, String>)
        requires
            self.wf(),
        ensures
            tool_names(self.entries()).contains(tool_name@) ==> (r matches Err(m) && m@
                == duplicate_text(false, tool_name@)),
            !tool_names(self.entries()).contains(tool_name@) ==> (r matches Ok(b) && b.wf()
                && b.enabled() == self.enabled() && b.entries().len() == self.entries().len() + 1
                && b.entries().drop_last() == self.entries() && b.entries().last().group@ == group@
                && b.entries().last().tool_name == tool_name && b.entries().last().factory == factory),
    {
        if self.has_name(tool_name.as_str()) {
            let mut m = copy_str("duplicate tool `");
            push_str(&mut m, tool_name.as_str());
            push_str(&mut m, "` already registered");
            return Err(m);
        }
        let mut s = self;
        s.push_entry(group, tool_name, factory);
        Ok(s)
    }

    /// Registers the tools of an MCP server under `group`, in order; the
    /// first name registered already (earlier, or earlier in `tools`) is refused.
    pub fn register_mcp(self, group: &str, tools: Vec<(String, F)>) -> (r: Result<Self, String>)
        requires
            self.wf(),
        ensures
            r matches Ok(b) ==> b.wf() && b.enabled() == self.enabled() && tool_names(b.entries())
                == tool_names(self.entries()) + pair_names(tools@),
            r matches Err(m) ==> exists|i: int|
                0 <= i < tools@.len() && m@ == duplicate_text(true, tools@[i].0@) && (tool_names(
                    self.entries(),
                ) + pair_names(tools@.take(i))).contains(tools@[i].0@),
            (tool_names(self.entries()) + pair_names(tools@)).no_duplicates()
                ==> r is Ok,
    {
        let ghost start = tool_names(self.entries());
        let ghost all = tools@;
        let mut s = self;
        let mut rest = tools;
        let ghost mut k: int = 0;
        assert(all.take(0).map_values(|t: (String, F)| t.0@) =~= Seq::<Seq<char>>::empty());
        assert(start + Seq::<Seq<char>>::empty() =~= start);
        while rest.len() > 0
            invariant
                0 <= k <= all.len(),
                all == tools@,
                start == tool_names(self.entries()),
                rest@ == all.subrange(k, all.len() as int),
                s.wf(),
                s.enabled() == self.enabled(),
                tool_names(s.entries()) == start + pair_names(all.take(k)),
            decreases rest.len(),
        {
            let (name, factory) = rest.remove(0);
            proof {
                assert(all[k] == (name, factory));
                assert(rest@ =~= all.subrange(k + 1, all.len() as int));
                assert(pair_names(all.take(k + 1)) =~= pair_names(all.take(k)).push(name@));
            }
            if s.has_name(name.as_str()) {
                let mut m = copy_str("duplicate MCP tool `");
                push_str(&mut m, name.as_str());
                push_str(&mut m, "` already registered");
                proof {
                    let full = start + pair_names(all);
                    let pre = tool_names(s.entries());
                    let j = choose|j: int| 0 <= j < pre.len() && pre[j] == name@;
                    assert(full[j] == pre[j]) by {
                        if j < start.len() {
                        } else {
                            assert(pair_names(all.take(k))[j - start.len()]
                                == all[j - start.len()].0@);
                        }
                    }
                    assert(full[start.len() + k] == name@);
                    assert(!full.no_duplicates());
                    assert(all[k].0@ == name@);
                    assert((start + pair_names(all.take(k))).contains(all[k].0@));
                }
                return Err(m);
            }
            let ghost names_before = tool_names(s.entries());
            let ghost nv = name@;
            s.push_entry(group, name, factory);
            proof {
                assert(tool_names(s.entries()) =~= names_before.push(nv));
                k = k + 1;
            }
        }
        assert(all.take(k) =~= all);
        Ok(s)
    }

    /// Enables `groups` as well.
    pub fn enable(self, groups: &Vec<String>) -> (r: Self)
        ensures
            r.entries() == self.entries(),
            r.enabled() == self.enabled().union(views(groups@).to_set()),
    {
        let mut s = self;
        let ghost before = views(s.enabled@);
        let mut i: usize = 0;
        while i < groups.len()
            invariant
                i <= groups.len(),
                s.entries() == self.entries(),
                views(s.enabled@).to_set() == before.to_set().union(views(groups@).take(i as int).to_set()),
            decreases groups.len() - i,
        {
            let ghost prev = views(s.enabled@);
            s.enabled.push(groups[i].clone());
            proof {
                let g = groups@[i as int]@;
                assert(views(s.enabled@) =~= prev.push(g));
                assert(views(groups@).take(i + 1) =~= views(groups@).take(i as int).push(g));
                prev.lemma_push_to_set_commute(g);
                views(groups@).take(i as int).lemma_push_to_set_commute(g);
                assert(views(s.enabled@).to_set() =~= before.to_set().union(views(groups@).take(i + 1).to_set()));
            }
            i = i + 1;
        }
        assert(views(groups@).take(groups.len() as int) =~= views(groups@));
        s
    }

    /// The registry of the registered tools and enabled groups.
    pub fn build(self) -> (r: ToolRegistry<F>)
        ensures
            r.entries() == self.entries(),
            r.enabled() == self.enabled(),
    {
        ToolRegistry { entries: self.entries, enabled: self.enabled }
    }
}

/// Registered tools and the groups whose tools are active.
#[derive(Debug)]
pub struct ToolRegistry<F> {
    entries: Vec<RegisteredTool<F>>,
    enabled: Vec<String>,
}

/// The positions of the entries whose group is enabled.
pub open spec fn active_positions<F>(entries: Seq<RegisteredTool<F>>, enabled: Set<Seq<char>>, n: int) -> Seq<int>
    decreases n,
{
    if n <= 0 {
        Seq::empty()
    } else {
        let prev = active_positions(entries, enabled, n - 1);
        if enabled.contains(entries[n - 1].group@) {
            prev.push(n - 1)
        } else {
            prev
        }
    }
}

/// `s` is in strictly increasing lexicographic order.
pub open spec fn strictly_sorted(s: Seq<Seq<char>>) -> bool {
    forall|i: int, j: int| 0 <= i < j < s.len() ==> lex_le(#[trigger] s[i], #[trigger] s[j]) && s[i] != s[j]
}

impl<F> ToolRegistry<F> {
    /// The registered tools, in order.
    pub closed spec fn entries(&self) -> Seq<RegisteredTool<F>> {
        self.entries@
    }

    /// The enabled groups.
    pub closed spec fn enabled(&self) -> Set<Seq<char>> {
        views(self.enabled@).to_set()
    }

    /// The factories of the tools of enabled groups, in order of registration.
    pub fn active_tools(&self) -> (r: Vec<&F>)
        ensures
            r@.len() == active_positions(self.entries(), self.enabled(), self.entries().len() as int).len(),
            forall|i: int|
                0 <= i < r@.len() ==> *r@[i] == self.entries()[#[trigger] active_positions(
                    self.entries(),
                    self.enabled(),
                    self.entries().len() as int,
                )[i]].factory,
    {
        let mut r: Vec<&F> = Vec::new();
        let mut i: usize = 0;
        while i < self.entries.len()
            invariant
                i <= self.entries.len(),
                r@.len() == active_positions(self.entries@, self.enabled(), i as int).len(),
                forall|k: int|
                    0 <= k < r@.len() ==> *r@[k] == self.entries@[#[trigger] active_positions(
                        self.entries@,
                        self.enabled(),
                        i as int,
                    )[k]].factory,
            decreases self.entries.len() - i,
        {
            let on = contains_string(&self.enabled, self.entries[i].group.as_str());
            proof {
                assert(views(self.enabled@).to_set().contains(self.entries@[i as int].group@) == views(
                    self.enabled@,
                ).contains(self.entries@[i as int].group@));
            }
            if on {
                r.push(&self.entries[i].factory);
            }
            proof {
                let prev = active_positions(self.entries@, self.enabled(), i as int);
                let cur = active_positions(self.entries@, self.enabled(), i + 1);
                assert forall|k: int| 0 <= k < r@.len() implies *r@[k] == self.entries@[#[trigger] cur[k]].factory by {
                    if k < prev.len() {
                        assert(cur[k] == prev[k]);
                    }
                }
            }
            i = i + 1;
        }
        r
    }

    /// Disables `group`.
    pub fn disable_group(&mut self, group: &str)
        ensures
            final(self).entries() == old(self).entries(),
            final(self).enabled() == old(self).enabled().remove(group@),
    {
        let ghost before = views(self.enabled@);
        let mut kept: Vec<String> = Vec::new();
        let mut i: usize = 0;
        while i < self.enabled.len()
            invariant
                i <= self.enabled.len(),
                before == views(self.enabled@),
                views(kept@).to_set() == views(self.enabled@).take(i as int).to_set().remove(group@),
            decreases self.enabled.len() - i,
        {
            let ghost prev = views(kept@);
            let ghost e = self.enabled@[i as int]@;
            proof {
                assert(views(self.enabled@).take(i + 1) =~= views(self.enabled@).take(i as int).push(e));
                views(self.enabled@).take(i as int).lemma_push_to_set_commute(e);
            }
            if !str_eq(self.enabled[i].as_str(), group) {
                kept.push(self.enabled[i].clone());
                assert(views(kept@) =~= prev.push(e));
                proof {
                    prev.lemma_push_to_set_commute(e);
                }
            }
            assert(views(kept@).to_set() =~= views(self.enabled@).take(i + 1).to_set().remove(group@));
            i = i + 1;
        }
        assert(views(self.enabled@).take(self.enabled.len() as int) =~= views(self.enabled@));
        self.enabled = kept;
    }

    /// Enables `group`.
    pub fn enable_group(&mut self, group: &str)
        ensures
            final(self).entries() == old(self).entries(),
            final(self).enabled() == old(self).enabled().insert(group@),
    {
        let ghost before = views(self.enabled@);
        self.enabled.push(copy_str(group));
        assert(views(self.enabled@) =~= before.push(group@));
        proof {
            before.lemma_push_to_set_commute(group@);
        }
    }

    /// The groups of the registered tools, each once, in lexicographic order.
    pub fn groups(&self) -> (r: Vec<String>)
        ensures
            strictly_sorted(views(r@)),
            views(r@).to_set() == tool_groups(self.entries()).to_set(),
    {
        let mut out: Vec<String> = Vec::new();
        let mut keys: Vec<Vec<char>> = Vec::new();
        let mut i: usize = 0;
        proof {
            assert(tool_groups(self.entries@).take(0) =~= Seq::<Seq<char>>::empty());
            assert(views(out@).to_set() =~= Set::<Seq<char>>::empty());
        }
        while i < self.entries.len()
            invariant
                i <= self.entries.len(),
                keys@.len() == out@.len(),
                forall|k: int| 0 <= k < keys@.len() ==> (#[trigger] keys@[k])@ == out@[k]@,
                strictly_sorted(views(out@)),
                views(out@).to_set() == tool_groups(self.entries@).take(i as int).to_set(),
            decreases self.entries.len() - i,
        {
            let g = &self.entries[i].group;
            let key = chars_of(g.as_str());
            let ghost ov = views(out@);
            let ghost gv = g@;
            proof {
                assert(tool_groups(self.entries@).take(i + 1) =~= tool_groups(self.entries@).take(
                    i as int,
                ).push(gv));
                tool_groups(self.entries@).take(i as int).lemma_push_to_set_commute(gv);
            }
            let mut p: usize = 0;
            while p < out.len() && lex_le_exec(&keys[p], &key) && !str_eq(out[p].as_str(), g.as_str())
                invariant
                    p <= out.len(),
                    ov == views(out@),
                    keys@.len() == out@.len(),
                    forall|k: int| 0 <= k < keys@.len() ==> (#[trigger] keys@[k])@ == out@[k]@,
                    key@ == gv,
                    g@ == gv,
                    forall|k: int| 0 <= k < p ==> lex_le(#[trigger] ov[k], gv) && ov[k] != gv,
                decreases out.len() - p,
            {
                assert(ov[p as int] == out@[p as int]@);
                assert(keys@[p as int]@ == out@[p as int]@);
                p = p + 1;
            }
            if p < out.len() && str_eq(out[p].as_str(), g.as_str()) {
                assert(views(out@).to_set() =~= tool_groups(self.entries@).take(i + 1).to_set()) by {
                    assert(ov[p as int] == out@[p as int]@);
                    assert(ov[p as int] == gv);
                    assert(ov.contains(gv));
                }
            } else {
                proof {
                    if p < out.len() {
                        assert(ov[p as int] == out@[p as int]@);
                        if lex_le(ov[p as int], gv) {
                            assert(ov[p as int] == gv);
                        }
                        lemma_lex_total(ov[p as int], gv);
                    }
                }
                out.insert(p, g.clone());
                keys.insert(p, key);
                proof {
                    let nv = views(out@);
                    assert(nv =~= ov.insert(p as int, gv));
                    assert(nv.to_set() =~= ov.to_set().insert(gv)) by {
                        assert forall|x: Seq<char>| nv.to_set().contains(x) <==> ov.to_set().insert(gv).contains(x) by {
                            if nv.contains(x) {
                                let j = choose|j: int| 0 <= j < nv.len() && nv[j] == x;
                                if j < p {
                                    assert(ov[j] == x);
                                } else if j > p {
                                    assert(ov[j - 1] == x);
                                }
                            }
                            if ov.contains(x) {
                                let j = choose|j: int| 0 <= j < ov.len() && ov[j] == x;
                                if j < p {
                                    assert(nv[j] == x);
                                } else {
                                    assert(nv[j + 1] == x);
                                }
                            }
                            if x == gv {
                                assert(nv[p as int] == x);
                            }
                        }
                    }
                    assert forall|a: int, b: int| 0 <= a < b < nv.len() implies lex_le(#[trigger] nv[a], #[trigger] nv[b]) && nv[a] != nv[b] by {
                        if b < p {
                            assert(nv[a] == ov[a] && nv[b] == ov[b]);
                        } else if b == p {
                            assert(nv[a] == ov[a]);
                        } else if a < p {
                            assert(nv[a] == ov[a] && nv[b] == ov[b - 1]);
                            assert(lex_le(gv, ov[p as int]) && gv != ov[p as int]);
                            if p < b - 1 {
                                lemma_lex_trans(gv, ov[p as int], ov[b - 1]);
                            }
                            lemma_lex_trans(ov[a], gv, ov[b - 1]);
                            if ov[a] == ov[b - 1] {
                                lemma_lex_antisym(ov[a], gv);
                            }
                        } else if a == p {
                            assert(nv[b] == ov[b - 1]);
                            if p < b - 1 {
                                lemma_lex_trans(gv, ov[p as int], ov[b - 1]);
                                if gv == ov[b - 1] {
                                    lemma_lex_antisym(gv, ov[p as int]);
                                }
                            }
                        } else {
                            assert(nv[a] == ov[a - 1] && nv[b] == ov[b - 1]);
                        }
                    }
                }
            }
            i = i + 1;
        }
        assert(tool_groups(self.entries@).take(self.entries.len() as int) =~= tool_groups(self.entries@));
        out
    }
}

} // verus!
