//! Named agents and the dispatcher that routes requests to them by name.
use vstd::prelude::*;

use crate::react::types::ReActTrace;
use crate::text::{copy_str, lit, push_str, str_eq, views};

verus! {

/// The kind of loop an agent runs.
#[derive(Clone, Copy, Debug, PartialEq, Eq, Structural)]
pub enum AgentKind {
    ReAct,
    Managed,
}

/// What an agent answered, with the trace of a ReAct run.
#[derive(Clone, Debug)]
pub struct AgentOutput {
    pub answer: String,
    pub trace: Option<ReActTrace>,
}

/// An agent that can be registered with a dispatcher.
pub trait AgentDefinition {
    /// The name requests use.
    fn name(&self) -> String;

    /// The kind of loop it runs.
    fn kind(&self) -> AgentKind;
}

/// Agents by name; a name is registered at most once.
#[derive(Debug)]
pub struct AgentDispatcher<D> {
    agents: Vec<(String, D)>,
}

/// The names of registered agents, in order of registration.
pub open spec fn names_of<D>(agents: Seq<(String, D)>) -> Seq<Seq<char>> {
    agents.map_values(|a: (String, D)| a.0@)
}

impl<D> AgentDispatcher<D> {
    /// The registered names, in order of registration.
    pub closed spec fn names_view(&self) -> Seq<Seq<char>> {
        names_of(self.agents@)
    }

    /// The agent registered under the `i`-th name.
    pub closed spec fn agent_at(&self, i: int) -> D {
        self.agents@[i].1
    }

    /// The registered agents, in order of registration.
    pub closed spec fn agents_view(&self) -> Seq<D> {
        self.agents@.map_values(|a: (String, D)| a.1)
    }

    /// No name is registered twice.
    pub open spec fn wf(&self) -> bool {
        self.names_view().no_duplicates()
    }

    /// A dispatcher without agents.
    pub fn new() -> (r: Self)
        ensures
            r.names_view() == Seq::<Seq<char>>::empty(),
    {
        let r = AgentDispatcher { agents: Vec::new() };
        assert(r.names_view() =~= Seq::<Seq<char>>::empty());
        r
    }

    fn position(&self, name: &str) -> (r: Option<usize>)
        ensures
            r matches Some(i) ==> i < self.names_view().len() && self.names_view()[i as int] == name@,
            r is None ==> !self.names_view().contains(name@),
    {
        let mut i: usize = 0;
        while i < self.agents.len()
            invariant
                i <= self.agents.len(),
                forall|k: int| 0 <= k < i ==> self.names_view()[k] != name@,
            decreases self.agents.len() - i,
        {
            if str_eq(self.agents[i].0.as_str(), name) {
                return Some(i);
            }
            i = i + 1;
        }
        None
    }

    /// Registers `def` under `name`; a name already registered is refused.
    pub fn register_named(&mut self, name: String, def: D) -> (r: Result<(), String>)
        requires
            old(self).wf(),
        ensures
            final(self).wf(),
            old(self).names_view().contains(name@) ==> (r matches Err(m) && m@ == lit("agent `")
                + name@ + lit("` is already registered")) && final(self).names_view() == old(
                self,
            ).names_view() && final(self).agents_view() == old(self).agents_view(),
            forall|i: int|
                0 <= i < old(self).names_view().len() ==> final(self).agent_at(i) == old(
                    self,
                ).agent_at(i),
            !old(self).names_view().contains(name@) ==> r is Ok && final(self).names_view() == old(
                self,
            ).names_view().push(name@) && final(self).agent_at(old(self).names_view().len() as int)
                == def,
    {
        if self.position(name.as_str()).is_some() {
            let mut m = copy_str("agent `");
            push_str(&mut m, name.as_str());
            push_str(&mut m, "` is already registered");
            return Err(m);
        }
        let ghost before = self.agents@;
        self.agents.push((name, def));
        assert(names_of(self.agents@) =~= names_of(before).push(self.agents@.last().0@));
        Ok(())
    }

    /// The agent registered under `name`, if any.
    pub fn get(&self, name: &str) -> (r: Option<&D>)
        ensures
            r is None <==> !self.names_view().contains(name@),
            r matches Some(d) ==> exists|i: int|
                0 <= i < self.names_view().len() && self.names_view()[i] == name@ && *d
                    == self.agent_at(i),
    {
        match self.position(name) {
            Some(i) => {
                assert(self.agent_at(i as int) == self.agents@[i as int].1);
                assert(self.names_view()[i as int] == name@);
                Some(&self.agents[i].1)
            },
            None => None,
        }
    }

    /// The agent to dispatch a request for `name` to, or the error for an
    /// unknown name.
    pub fn route(&self, name: &str) -> (r: Result<&D, String>)
        ensures
            !self.names_view().contains(name@) ==> (r matches Err(m) && m@ == lit("no agent named `")
                + name@ + lit("`")),
            r matches Ok(d) ==> exists|i: int|
                0 <= i < self.names_view().len() && self.names_view()[i] == name@ && *d
                    == self.agent_at(i),
            self.names_view().contains(name@) ==> r is Ok,
    {
        match self.get(name) {
            Some(d) => Ok(d),
            None => {
                let mut m = copy_str("no agent named `");
                push_str(&mut m, name);
                push_str(&mut m, "`");
                Err(m)
            },
        }
    }

    /// The registered names.
    pub fn names(&self) -> (r: Vec<String>)
        ensures
            views(r@) == self.names_view(),
    {
        let mut r: Vec<String> = Vec::new();
        let mut i: usize = 0;
        while i < self.agents.len()
            invariant
                i <= self.agents.len(),
                views(r@) == self.names_view().take(i as int),
            decreases self.agents.len() - i,
        {
            let ghost before = r@;
            r.push(self.agents[i].0.clone());
            assert(views(r@) =~= views(before).push(self.agents@[i as int].0@));
            assert(self.names_view().take(i + 1) =~= self.names_view().take(i as int).push(
                self.agents@[i as int].0@,
            ));
            i = i + 1;
        }
        assert(self.names_view().take(self.agents.len() as int) =~= self.names_view());
        r
    }
}

impl<D: AgentDefinition> AgentDispatcher<D> {
    /// Registers `def` under its own name, the one `def.name()` gives; a name
    /// already registered is refused.
    pub fn register(&mut self, def: D) -> (r: Result<(), String>)
        requires
            old(self).wf(),
        ensures
            final(self).wf(),
            exists|name: String|
                #[trigger] call_ensures(D::name, (&def,), name) && if old(self).names_view().contains(
                    name@,
                ) {
                    &&& r matches Err(m) && m@ == lit("agent `") + name@ + lit("` is already registered")
                    &&& final(self).names_view() == old(self).names_view()
                    &&& final(self).agents_view() == old(self).agents_view()
                } else {
                    &&& r is Ok
                    &&& final(self).names_view() == old(self).names_view().push(name@)
                    &&& final(self).agent_at(old(self).names_view().len() as int) == def
                    &&& forall|i: int|
                        0 <= i < old(self).names_view().len() ==> final(self).agent_at(i) == old(
                            self,
                        ).agent_at(i)
                },
    {
        let name = def.name();
        assert(call_ensures(D::name, (&def,), name));
        let ghost n = name;
        let r = self.register_named(name, def);
        assert(call_ensures(D::name, (&def,), n));
        r
    }
}

} // verus!
