//! Permission policies gating tool execution, and the per-tool policy map.
use vstd::prelude::*;

use crate::text::{copy_str, lit, str_eq, trim};

verus! {

/// The result of a permission evaluation.
#[derive(Clone, Debug, PartialEq, Eq)]
pub enum PermissionResult {
    /// The operation is allowed.
    Allow,
    /// The operation is denied with a reason.
    Deny { reason: String },
    /// The operation should be deferred to the user (not yet supported).
    DeferToUser,
}

impl PermissionResult {
    /// A copy of this result.
    pub fn duplicate(&self) -> (r: Self)
        ensures
            r == *self,
    {
        match self {
            PermissionResult::Allow => PermissionResult::Allow,
            PermissionResult::Deny { reason } => PermissionResult::Deny { reason: reason.clone() },
            PermissionResult::DeferToUser => PermissionResult::DeferToUser,
        }
    }

    /// Returns `true` if this result is `Allow`.
    pub fn is_allow(&self) -> (r: bool)
        ensures
            r == (*self is Allow),
    {
        match self {
            PermissionResult::Allow => true,
            _ => false,
        }
    }
}

/// A gate that decides on tool executions.
pub trait PermissionGate {
    /// Whether the tool `tool_name` may perform the action `description`.
    fn check_permission(&self, tool_name: &str, description: &str) -> PermissionResult;
}

/// How tool executions are permitted.
///
/// `G` is the custom gate a `Custom` policy delegates to.
#[derive(Clone, Debug)]
pub enum PermissionPolicy<G> {
    /// Every tool execution is allowed.
    AllowAll,
    /// Every tool execution is denied.
    DenyAll,
    /// The user is asked on the terminal.
    CliPrompt,
    /// A custom gate decides.
    Custom(G),
}

/// The reason given by the `DenyAll` policy.
pub open spec fn deny_all_reason() -> Seq<char> {
    lit("denied by DenyAll policy")
}

/// The reason given when the user does not approve.
pub open spec fn user_denied_reason() -> Seq<char> {
    lit("user denied prompt")
}

impl<G> PermissionPolicy<G> {
    /// The result of the policies that decide on their own: `AllowAll`
    /// allows, `DenyAll` denies. `None` for the policies that ask the user
    /// or a custom gate.
    pub fn fixed_result(&self) -> (r: Option<PermissionResult>)
        ensures
            *self is AllowAll ==> r == Some(PermissionResult::Allow),
            *self is DenyAll ==> (r matches Some(PermissionResult::Deny { reason }) && reason@
                == deny_all_reason()),
            (*self is CliPrompt || *self is Custom) ==> r is None,
    {
        match self {
            PermissionPolicy::AllowAll => Some(PermissionResult::Allow),
            PermissionPolicy::DenyAll => Some(
                PermissionResult::Deny { reason: copy_str("denied by DenyAll policy") },
            ),
            _ => None,
        }
    }
}

/// The name of a policy's variant.
pub open spec fn variant_name_of<G>(p: PermissionPolicy<G>) -> Seq<char> {
    match p {
        PermissionPolicy::AllowAll => lit("AllowAll"),
        PermissionPolicy::DenyAll => lit("DenyAll"),
        PermissionPolicy::CliPrompt => lit("CliPrompt"),
        PermissionPolicy::Custom(_) => lit("Custom"),
    }
}

/// The name of a policy's variant (`"AllowAll"`, `"DenyAll"`, `"CliPrompt"`
/// or `"Custom"`).
pub fn variant_name<G>(p: &PermissionPolicy<G>) -> (r: &'static str)
    ensures
        r@ == variant_name_of(*p),
{
    match p {
        PermissionPolicy::AllowAll => "AllowAll",
        PermissionPolicy::DenyAll => "DenyAll",
        PermissionPolicy::CliPrompt => "CliPrompt",
        PermissionPolicy::Custom(_) => "Custom",
    }
}

/// The lower-case mapping of a string, as `str::to_lowercase` computes it.
pub uninterp spec fn lowercase(s: Seq<char>) -> Seq<char>;

/// Lower-cases `s` with `str::to_lowercase`. The contract claims only that
/// the result is `lowercase` of the input, a function of the input alone.
#[verifier::external_body]
pub(crate) fn to_lowercase(s: &str) -> (r: String)
    ensures
        r@ == lowercase(s@),
{
    s.to_lowercase()
}

/// A trimmed, lower-cased answer approves when it is `y` or `yes`.
pub open spec fn approving(lowered: Seq<char>) -> bool {
    lowered == lit("y") || lowered == lit("yes")
}

/// The user approves when the trimmed, lower-cased answer is `y` or `yes`.
pub open spec fn approves(answer: Seq<char>) -> bool {
    approving(lowercase(trim(answer)))
}

/// Whether a trimmed, lower-cased answer approves: it is `y` or `yes`.
pub fn approves_lowered(l: &str) -> (r: bool)
    ensures
        r == approving(l@),
{
    str_eq(l, "y") || str_eq(l, "yes")
}

/// Turns the user's answer to a permission prompt into a result; `None`
/// stands for no answer (the prompt timed out or stdin failed).
pub fn cli_decision(answer: Option<&str>) -> (r: PermissionResult)
    ensures
        answer matches Some(a) && approves(a@) ==> r == PermissionResult::Allow,
        !(answer matches Some(a) && approves(a@)) ==> (r matches PermissionResult::Deny { reason }
            && reason@ == user_denied_reason()),
{
    match answer {
        Some(a) => {
            let t = crate::text::trim_str(a);
            let l = to_lowercase(t.as_str());
            if approves_lowered(l.as_str()) {
                PermissionResult::Allow
            } else {
                PermissionResult::Deny { reason: copy_str("user denied prompt") }
            }
        },
        None => PermissionResult::Deny { reason: copy_str("user denied prompt") },
    }
}

/// One evaluation, as observers see it.
#[derive(Clone, Debug)]
pub struct PermissionEvent {
    pub tool_name: String,
    pub description: String,
    pub result: PermissionResult,
    /// The name of the policy that decided (`"AllowAll"`, `"Override"`, ...).
    pub policy_variant: String,
    /// When the evaluation completed: a monotonic clock reading in
    /// milliseconds, taken by the caller.
    pub timestamp_ms: u64,
}

/// Observes permission evaluations.
pub trait PermissionObserver {
    /// Called after each evaluation.
    fn on_evaluation(&self, event: &PermissionEvent);
}

/// Maps tool names to policies, falling back to a default policy; an
/// optional observer sees every evaluation.
#[derive(Clone, Debug)]
pub struct PolicyMap<G, O> {
    pub default: PermissionPolicy<G>,
    pub overrides: Vec<(String, PermissionPolicy<G>)>,
    pub observer: Option<O>,
}

/// The override table `entries` stands for: a later entry for a tool hides
/// an earlier one.
pub open spec fn overrides_of<G>(entries: Seq<(String, PermissionPolicy<G>)>) -> Map<
    Seq<char>,
    PermissionPolicy<G>,
>
    decreases entries.len(),
{
    if entries.len() == 0 {
        Map::empty()
    } else {
        overrides_of(entries.drop_last()).insert(entries.last().0@, entries.last().1)
    }
}

impl<G, O> PolicyMap<G, O> {
    /// The per-tool overrides.
    pub open spec fn table(&self) -> Map<Seq<char>, PermissionPolicy<G>> {
        overrides_of(self.overrides@)
    }

    /// A map that applies `default` to every tool.
    pub fn new(default: PermissionPolicy<G>) -> (r: Self)
        ensures
            r.default == default,
            r.table() == Map::<Seq<char>, PermissionPolicy<G>>::empty(),
            r.observer is None,
    {
        PolicyMap { default, overrides: Vec::new(), observer: None }
    }

    /// Applies `policy` to the tool named `name`, replacing any earlier override.
    pub fn tool(self, name: String, policy: PermissionPolicy<G>) -> (r: Self)
        ensures
            r.table() == self.table().insert(name@, policy),
            r.default == self.default,
            r.observer == self.observer,
    {
        let mut s = self;
        s.overrides.push((name, policy));
        assert(s.overrides@.drop_last() =~= self.overrides@);
        s
    }

    /// Registers an observer of every evaluation.
    pub fn with_observer(self, observer: O) -> (r: Self)
        ensures
            r.table() == self.table(),
            r.default == self.default,
            r.observer == Some(observer),
    {
        PolicyMap { default: self.default, overrides: self.overrides, observer: Some(observer) }
    }

    /// The policy that decides for `tool_name` and its name for observers:
    /// the tool's override (named `"Override"`), else the default policy
    /// (named after its variant).
    pub fn select(&self, tool_name: &str) -> (r: (&PermissionPolicy<G>, &'static str))
        ensures
            self.table().dom().contains(tool_name@) ==> *r.0 == self.table()[tool_name@] && r.1@
                == lit("Override"),
            !self.table().dom().contains(tool_name@) ==> *r.0 == self.default && r.1@
                == variant_name_of(self.default),
    {
        let mut i = self.overrides.len();
        assert(self.overrides@.take(i as int) =~= self.overrides@);
        while i > 0
            invariant
                i <= self.overrides.len(),
                overrides_of(self.overrides@).dom().contains(tool_name@) <==> overrides_of(
                    self.overrides@.take(i as int),
                ).dom().contains(tool_name@),
                overrides_of(self.overrides@).dom().contains(tool_name@) ==> overrides_of(
                    self.overrides@,
                )[tool_name@] == overrides_of(self.overrides@.take(i as int))[tool_name@],
            decreases i,
        {
            let ghost pre = self.overrides@.take(i as int);
            assert(pre.drop_last() =~= self.overrides@.take(i - 1));
            assert(pre.last() == self.overrides@[i - 1]);
            if str_eq(self.overrides[i - 1].0.as_str(), tool_name) {
                return (&self.overrides[i - 1].1, "Override");
            }
            i = i - 1;
        }
        (&self.default, variant_name(&self.default))
    }
}

impl<G: PermissionGate> PermissionPolicy<G> {
    /// Evaluates the policy for a tool invocation. `cli_answer` is the
    /// user's answer to the terminal prompt (`None` when there was none);
    /// only `CliPrompt` reads it.
    pub fn evaluate(&self, tool_name: &str, description: &str, cli_answer: Option<&str>) -> (r: PermissionResult)
        ensures
            *self is AllowAll ==> r == PermissionResult::Allow,
            *self is DenyAll ==> (r matches PermissionResult::Deny { reason } && reason@
                == deny_all_reason()),
            *self is CliPrompt ==> (cli_answer matches Some(a) && approves(a@) ==> r
                == PermissionResult::Allow) && (!(cli_answer matches Some(a) && approves(a@)) ==> (
            r matches PermissionResult::Deny { reason } && reason@ == user_denied_reason())),
            *self matches PermissionPolicy::Custom(g) ==> call_ensures(
                G::check_permission,
                (&g, tool_name, description),
                r,
            ),
    {
        match self {
            PermissionPolicy::AllowAll => PermissionResult::Allow,
            PermissionPolicy::DenyAll => PermissionResult::Deny { reason: copy_str("denied by DenyAll policy") },
            PermissionPolicy::CliPrompt => cli_decision(cli_answer),
            PermissionPolicy::Custom(gate) => gate.check_permission(tool_name, description),
        }
    }
}

impl<G: PermissionGate, O: PermissionObserver> PolicyMap<G, O> {
    /// Evaluates the policy that decides for `tool_name` (its override,
    /// else the default) and reports the evaluation, stamped `timestamp_ms`,
    /// to the observer.
    pub fn evaluate(
        &self,
        tool_name: &str,
        description: &str,
        cli_answer: Option<&str>,
        timestamp_ms: u64,
    ) -> (r: PermissionResult)
        ensures
            ({
                let p = if self.table().dom().contains(tool_name@) {
                    self.table()[tool_name@]
                } else {
                    self.default
                };
                &&& p is AllowAll ==> r == PermissionResult::Allow
                &&& p is DenyAll ==> (r matches PermissionResult::Deny { reason } && reason@
                    == deny_all_reason())
                &&& p is CliPrompt ==> (cli_answer matches Some(a) && approves(a@) ==> r
                    == PermissionResult::Allow) && (!(cli_answer matches Some(a) && approves(a@))
                    ==> (r matches PermissionResult::Deny { reason } && reason@
                    == user_denied_reason()))
                &&& p matches PermissionPolicy::Custom(g) ==> call_ensures(
                    G::check_permission,
                    (&g, tool_name, description),
                    r,
                )
            }),
            self.observer matches Some(o) ==> exists|e: PermissionEvent|
                #[trigger] call_ensures(O::on_evaluation, (&o, &e), ()) && e.tool_name@ == tool_name@
                    && e.description@ == description@ && e.result == r && e.policy_variant@ == (
                if self.table().dom().contains(tool_name@) {
                    lit("Override")
                } else {
                    variant_name_of(self.default)
                }) && e.timestamp_ms == timestamp_ms,
    {
        let (policy, variant) = self.select(tool_name);
        let result = policy.evaluate(tool_name, description, cli_answer);
        match &self.observer {
            Some(o) => {
                let event = PermissionEvent {
                    tool_name: copy_str(tool_name),
                    description: copy_str(description),
                    result: result.duplicate(),
                    policy_variant: copy_str(variant),
                    timestamp_ms,
                };
                o.on_evaluation(&event);
                assert(call_ensures(O::on_evaluation, (o, &event), ()));
            },
            None => {},
        }
        result
    }
}

} // verus!
