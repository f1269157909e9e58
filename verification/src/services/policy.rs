//! Enterprise policy enforcement.
//!
//! Three caps, each of them optional: tokens per request and per session, invocations of
//! a tool per session, and a list of the models that are accepted.

use vstd::prelude::*;

use crate::scan;
use crate::string_map::{StringMap, StringSet};
use crate::text;

verus! {

/// Policy-related errors surfaced to call sites.
#[derive(Clone, Debug, PartialEq, Eq)]
pub enum PolicyError {
    /// The requested model is not in the configured allowlist.
    ModelDenied {
        /// The model the caller asked for.
        model: String,
    },
    /// Tokens exceed the configured cap.
    TokenCapExceeded {
        /// Estimated size.
        estimated: usize,
        /// Configured ceiling.
        cap: usize,
        /// `"request"` or `"session"`.
        scope: &'static str,
    },
    /// A tool has been called as often as its cap allows in this session.
    ToolCapExceeded {
        /// Canonical tool name.
        tool: String,
        /// Configured ceiling.
        cap: usize,
        /// How many invocations have already been allowed.
        consumed: usize,
    },
}

/// What a policy error says.
pub enum PolicyErrorView {
    ModelDenied(Seq<char>),
    TokenCap(usize, usize, Seq<char>),
    ToolCap(Seq<char>, usize, nat),
}

impl View for PolicyError {
    type V = PolicyErrorView;

    open spec fn view(&self) -> PolicyErrorView {
        match self {
            PolicyError::ModelDenied { model } => PolicyErrorView::ModelDenied(model@),
            PolicyError::TokenCapExceeded { estimated, cap, scope } => PolicyErrorView::TokenCap(
                *estimated,
                *cap,
                scope@,
            ),
            PolicyError::ToolCapExceeded { tool, cap, consumed } => PolicyErrorView::ToolCap(
                tool@,
                *cap,
                *consumed as nat,
            ),
        }
    }
}

/// The message for a policy error.
pub open spec fn policy_error_text(e: PolicyErrorView) -> Seq<char> {
    match e {
        PolicyErrorView::ModelDenied(model) => "model `"@ + model
            + "` is not in the enterprise allowlist"@,
        PolicyErrorView::TokenCap(estimated, cap, scope) => "request exceeds policy token cap: "@
            + text::decimal(estimated as nat) + " > "@ + text::decimal(cap as nat) + " (per-"@
            + scope + ")"@,
        PolicyErrorView::ToolCap(tool, cap, consumed) => "tool `"@ + tool
            + "` exceeded per-session cap of "@ + text::decimal(cap as nat) + "; consumed="@
            + text::decimal(consumed),
    }
}

impl PolicyError {
    /// The message for the error.
    pub fn message(&self) -> (out: String)
        ensures
            out@ == policy_error_text(self@),
    {
        match self {
            PolicyError::ModelDenied { model } => {
                let mut out = "model `".to_owned();
                out.append(model.as_str());
                out.append("` is not in the enterprise allowlist");
                out
            },
            PolicyError::TokenCapExceeded { estimated, cap, scope } => {
                let mut out = "request exceeds policy token cap: ".to_owned();
                text::push_decimal(&mut out, *estimated as u64);
                out.append(" > ");
                text::push_decimal(&mut out, *cap as u64);
                out.append(" (per-");
                out.append(*scope);
                out.append(")");
                out
            },
            PolicyError::ToolCapExceeded { tool, cap, consumed } => {
                let mut out = "tool `".to_owned();
                out.append(tool.as_str());
                out.append("` exceeded per-session cap of ");
                text::push_decimal(&mut out, *cap as u64);
                out.append("; consumed=");
                text::push_decimal(&mut out, *consumed as u64);
                out
            },
        }
    }
}

/// What a check that may be refused answers: `Ok` where there is no error.
pub open spec fn checked(error: Option<PolicyErrorView>, r: Result<(), PolicyError>) -> bool {
    match error {
        None => r is Ok,
        Some(error) => r matches Err(e) && e@ == error,
    }
}

/// Per-tool invocation caps, by canonical tool name.
pub type ToolCaps = StringMap<usize>;

/// Operator-facing enterprise policy block. Absent fields disable that part.
#[derive(Clone, Debug)]
pub struct EnterprisePolicy {
    /// Hard ceiling on tokens per request.
    pub max_request_tokens: Option<usize>,
    /// Hard ceiling on projected tokens per session: what the session has used, the
    /// estimated input and the output budget.
    pub max_session_tokens: Option<usize>,
    /// Per-tool invocation caps. Other tools are uncapped.
    pub tool_caps: ToolCaps,
    /// Model allowlist. When non-empty, only listed models are accepted.
    pub model_allowlist: StringSet,
}

impl Default for EnterprisePolicy {
    fn default() -> (p: EnterprisePolicy)
        ensures
            p.max_request_tokens is None,
            p.max_session_tokens is None,
            p.tool_caps@ == Map::<Seq<char>, usize>::empty(),
            p.model_allowlist@ == Set::<Seq<char>>::empty(),
    {
        EnterprisePolicy {
            max_request_tokens: None,
            max_session_tokens: None,
            tool_caps: StringMap::new(),
            model_allowlist: StringSet::new(),
        }
    }
}

/// Why the policy refuses a model.
pub open spec fn model_refusal(p: EnterprisePolicy, model: Seq<char>) -> Option<PolicyErrorView> {
    if p.model_allowlist@ == Set::<Seq<char>>::empty() || p.model_allowlist@.contains(model) {
        None
    } else {
        Some(PolicyErrorView::ModelDenied(model))
    }
}

/// Why a cap refuses a number of tokens.
pub open spec fn token_refusal(
    cap: Option<usize>,
    tokens: usize,
    scope: Seq<char>,
) -> Option<PolicyErrorView> {
    match cap {
        Some(cap) if tokens > cap => Some(PolicyErrorView::TokenCap(tokens, cap, scope)),
        _ => None,
    }
}

impl EnterprisePolicy {
    /// Check whether the model is acceptable.
    pub fn check_model(&self, model: &str) -> (r: Result<(), PolicyError>)
        ensures
            checked(model_refusal(*self, model@), r),
    {
        if self.model_allowlist.is_empty() {
            return Ok(());
        }
        if self.model_allowlist.contains(model) {
            return Ok(());
        }
        Err(PolicyError::ModelDenied { model: model.to_owned() })
    }

    /// Check the per-request token cap.
    pub fn check_request_tokens(&self, estimated: usize) -> (r: Result<(), PolicyError>)
        ensures
            checked(token_refusal(self.max_request_tokens, estimated, "request"@), r),
    {
        if let Some(cap) = self.max_request_tokens {
            if estimated > cap {
                return Err(PolicyError::TokenCapExceeded { estimated, cap, scope: "request" });
            }
        }
        Ok(())
    }

    /// Check the per-session token cap.
    pub fn check_session_tokens(&self, cumulative: usize) -> (r: Result<(), PolicyError>)
        ensures
            checked(token_refusal(self.max_session_tokens, cumulative, "session"@), r),
    {
        if let Some(cap) = self.max_session_tokens {
            if cumulative > cap {
                return Err(
                    PolicyError::TokenCapExceeded { estimated: cumulative, cap, scope: "session" },
                );
            }
        }
        Ok(())
    }
}

/// Decision returned by [`PolicyEnforcer::evaluate_tool_call`].
#[derive(Clone, Copy, Debug, PartialEq, Eq, Structural)]
pub enum PolicyDecision {
    /// Allow the call. It is counted only by [`PolicyEnforcer::record_tool_invocation`].
    Allow,
    /// Deny the call: the cap is exhausted for this session.
    Deny,
}

/// What is asked of the policy about a request to a provider.
#[derive(Clone, Copy, Debug)]
pub struct ProviderRequestPolicyInput<'a> {
    /// Model that will be sent to the provider.
    pub model: &'a str,
    /// Estimated input/context tokens for this request.
    pub estimated_input_tokens: usize,
    /// Maximum output token budget requested from the provider.
    pub output_token_budget: usize,
    /// Cumulative tokens already recorded for the current session.
    pub cumulative_session_tokens: u64,
}

/// `n`, or the largest `usize` where it does not fit.
pub open spec fn clamped(n: int) -> usize {
    if n > usize::MAX {
        usize::MAX
    } else {
        n as usize
    }
}

/// The output budget of a request that may name one.
pub open spec fn output_budget(max_tokens: Option<u32>, default_max_tokens: u32) -> usize {
    clamped(
        match max_tokens {
            Some(n) => n as int,
            None => default_max_tokens as int,
        },
    )
}

/// Convert an optional request output cap into policy accounting units.
/// `default_max_tokens` is the budget of a request that names none.
pub fn request_output_token_budget(max_tokens: Option<u32>, default_max_tokens: u32) -> (n: usize)
    ensures
        n == output_budget(max_tokens, default_max_tokens),
{
    match max_tokens {
        Some(n) => n as usize,
        None => default_max_tokens as usize,
    }
}

/// Session projection used by every provider request policy gate: the sum, or the
/// largest `usize` where it does not fit.
pub fn projected_session_policy_tokens(
    cumulative_total: u64,
    estimated_input: usize,
    output_budget: usize,
) -> (n: usize)
    ensures
        n == clamped(cumulative_total + estimated_input + output_budget),
{
    let cumulative: usize = if cumulative_total > usize::MAX as u64 {
        usize::MAX
    } else {
        cumulative_total as usize
    };
    cumulative.saturating_add(estimated_input).saturating_add(output_budget)
}

impl<'a> ProviderRequestPolicyInput<'a> {
    /// Build input for a request that may name its output cap.
    pub fn new(
        model: &'a str,
        estimated_input_tokens: usize,
        max_tokens: Option<u32>,
        cumulative_session_tokens: u64,
        default_max_tokens: u32,
    ) -> (input: ProviderRequestPolicyInput<'a>)
        ensures
            input.model == model,
            input.estimated_input_tokens == estimated_input_tokens,
            input.output_token_budget == output_budget(max_tokens, default_max_tokens),
            input.cumulative_session_tokens == cumulative_session_tokens,
    {
        ProviderRequestPolicyInput {
            model,
            estimated_input_tokens,
            output_token_budget: request_output_token_budget(max_tokens, default_max_tokens),
            cumulative_session_tokens,
        }
    }
}

/// Shared request policy gate for provider-bound calls.
pub struct ProviderRequestPolicy<'a> {
    policy: &'a EnterprisePolicy,
}

/// Why the policy refuses a request: for the model, then for its size, then for what the
/// session would come to.
pub open spec fn request_refusal(
    p: EnterprisePolicy,
    input: ProviderRequestPolicyInput<'_>,
) -> Option<PolicyErrorView> {
    if model_refusal(p, input.model@) is Some {
        model_refusal(p, input.model@)
    } else if token_refusal(
        p.max_request_tokens,
        input.estimated_input_tokens,
        "request"@,
    ) is Some {
        token_refusal(p.max_request_tokens, input.estimated_input_tokens, "request"@)
    } else {
        token_refusal(
            p.max_session_tokens,
            clamped(
                input.cumulative_session_tokens + input.estimated_input_tokens
                    + input.output_token_budget,
            ),
            "session"@,
        )
    }
}

impl<'a> ProviderRequestPolicy<'a> {
    /// The policy that requests are held to.
    pub closed spec fn of(&self) -> EnterprisePolicy {
        *self.policy
    }

    /// Create a request policy gate from a policy.
    pub fn new(policy: &'a EnterprisePolicy) -> (gate: ProviderRequestPolicy<'a>)
        ensures
            gate.of() == *policy,
    {
        ProviderRequestPolicy { policy }
    }

    /// Check model allowlist, per-request token cap, and projected per-session token cap.
    /// Returns the first error.
    pub fn check(&self, input: ProviderRequestPolicyInput<'_>) -> (r: Result<(), PolicyError>)
        ensures
            checked(request_refusal(self.of(), input), r),
    {
        match self.policy.check_model(input.model) {
            Ok(()) => {},
            Err(e) => {
                return Err(e);
            },
        }
        match self.policy.check_request_tokens(input.estimated_input_tokens) {
            Ok(()) => {},
            Err(e) => {
                return Err(e);
            },
        }
        self.policy.check_session_tokens(
            projected_session_policy_tokens(
                input.cumulative_session_tokens,
                input.estimated_input_tokens,
                input.output_token_budget,
            ),
        )
    }
}

/// Invocations by session and tool.
#[derive(Debug)]
struct ToolCounters {
    inner: StringMap<StringMap<usize>>,
}

/// How often the tool was counted in the session.
spec fn counted(
    inner: Map<Seq<char>, StringMap<usize>>,
    session: Seq<char>,
    tool: Seq<char>,
) -> nat {
    if inner.dom().contains(session) && inner[session]@.dom().contains(tool) {
        inner[session]@[tool] as nat
    } else {
        0
    }
}

/// One more invocation of the tool in the session.
pub open spec fn bumped(
    counts: spec_fn(Seq<char>, Seq<char>) -> nat,
    session: Seq<char>,
    tool: Seq<char>,
) -> spec_fn(Seq<char>, Seq<char>) -> nat {
    |s: Seq<char>, t: Seq<char>|
        if s == session && t == tool {
            counts(s, t) + 1
        } else {
            counts(s, t)
        }
}

/// No invocation in the session.
pub open spec fn cleared(
    counts: spec_fn(Seq<char>, Seq<char>) -> nat,
    session: Seq<char>,
) -> spec_fn(Seq<char>, Seq<char>) -> nat {
    |s: Seq<char>, t: Seq<char>|
        if s == session {
            0
        } else {
            counts(s, t)
        }
}

/// No invocation at all.
pub open spec fn no_counts() -> spec_fn(Seq<char>, Seq<char>) -> nat {
    |s: Seq<char>, t: Seq<char>| 0
}

impl ToolCounters {
    spec fn counts(&self) -> spec_fn(Seq<char>, Seq<char>) -> nat {
        |s: Seq<char>, t: Seq<char>| counted(self.inner@, s, t)
    }

    fn new() -> (c: ToolCounters)
        ensures
            c.counts() == no_counts(),
    {
        let c = ToolCounters { inner: StringMap::new() };
        assert(c.counts() =~= no_counts());
        c
    }

    fn count(&self, session_id: &str, tool: &str) -> (n: usize)
        ensures
            n == self.counts()(session_id@, tool@),
    {
        match self.inner.get(session_id) {
            Some(tools) => match tools.get(tool) {
                Some(n) => *n,
                None => 0,
            },
            None => 0,
        }
    }

    fn increment(&mut self, session_id: &str, tool: &str)
        requires
            old(self).counts()(session_id@, tool@) < usize::MAX,
        ensures
            final(self).counts() == bumped(old(self).counts(), session_id@, tool@),
    {
        let n: usize = self.count(session_id, tool);
        let mut tools = match self.inner.remove(session_id) {
            Some(tools) => tools,
            None => StringMap::new(),
        };
        tools.insert(tool.to_owned(), n + 1);
        self.inner.insert(session_id.to_owned(), tools);
        assert(self.counts() =~= bumped(old(self).counts(), session_id@, tool@));
    }

    fn reset_session(&mut self, session_id: &str)
        ensures
            final(self).counts() == cleared(old(self).counts(), session_id@),
    {
        self.inner.remove(session_id);
        assert(self.counts() =~= cleared(old(self).counts(), session_id@));
    }
}

/// Policy enforcer that owns the per-session tool counters.
#[derive(Debug)]
pub struct PolicyEnforcer {
    policy: EnterprisePolicy,
    counters: ToolCounters,
}

/// What an enforcer holds: the policy and the invocations by session and tool.
pub struct EnforcerView {
    pub policy: EnterprisePolicy,
    pub counts: spec_fn(Seq<char>, Seq<char>) -> nat,
}

impl View for PolicyEnforcer {
    type V = EnforcerView;

    closed spec fn view(&self) -> EnforcerView {
        EnforcerView { policy: self.policy, counts: self.counters.counts() }
    }
}

/// Why an enforcer refuses a tool in a session.
pub open spec fn tool_refusal(
    e: EnforcerView,
    session: Seq<char>,
    tool: Seq<char>,
) -> Option<PolicyErrorView> {
    if e.policy.tool_caps@.dom().contains(tool) && (e.counts)(session, tool)
        >= e.policy.tool_caps@[tool] {
        Some(
            PolicyErrorView::ToolCap(tool, e.policy.tool_caps@[tool], (e.counts)(session, tool)),
        )
    } else {
        None
    }
}

impl PolicyEnforcer {
    /// Build an enforcer around a policy.
    pub fn new(policy: EnterprisePolicy) -> (e: PolicyEnforcer)
        ensures
            e@ == (EnforcerView { policy, counts: no_counts() }),
    {
        PolicyEnforcer { policy, counters: ToolCounters::new() }
    }

    /// The policy.
    pub fn policy(&self) -> (p: &EnterprisePolicy)
        ensures
            *p == self@.policy,
    {
        &self.policy
    }

    /// Would invoking `tool` in `session_id` be allowed? Counts nothing.
    pub fn evaluate_tool_call(&self, session_id: &str, tool: &str) -> (d: PolicyDecision)
        ensures
            d == (if tool_refusal(self@, session_id@, tool@) is None {
                PolicyDecision::Allow
            } else {
                PolicyDecision::Deny
            }),
            (self@.counts)(session_id@, tool@) <= usize::MAX,
    {
        match self.policy.tool_caps.get(tool) {
            Some(cap) => if self.counters.count(session_id, tool) >= *cap {
                PolicyDecision::Deny
            } else {
                PolicyDecision::Allow
            },
            None => PolicyDecision::Allow,
        }
    }

    /// Record a tool invocation against the per-session counter.
    pub fn record_tool_invocation(&mut self, session_id: &str, tool: &str)
        requires
            (old(self)@.counts)(session_id@, tool@) < usize::MAX,
        ensures
            final(self)@ == (EnforcerView {
                counts: bumped(old(self)@.counts, session_id@, tool@),
                ..old(self)@
            }),
    {
        self.counters.increment(session_id, tool);
    }

    /// Check a tool invocation without consuming the cap.
    pub fn check_tool(&self, session_id: &str, tool: &str) -> (r: Result<(), PolicyError>)
        ensures
            checked(tool_refusal(self@, session_id@, tool@), r),
            (self@.counts)(session_id@, tool@) <= usize::MAX,
    {
        let consumed: usize = self.counters.count(session_id, tool);
        if let Some(cap) = self.policy.tool_caps.get(tool) {
            if consumed >= *cap {
                return Err(
                    PolicyError::ToolCapExceeded { tool: tool.to_owned(), cap: *cap, consumed },
                );
            }
        }
        Ok(())
    }

    /// Check a tool invocation and count it if it is allowed.
    pub fn check_and_record_tool(&mut self, session_id: &str, tool: &str) -> (r: Result<
        (),
        PolicyError,
    >)
        requires
            tool_refusal(old(self)@, session_id@, tool@) is None ==> (old(self)@.counts)(
                session_id@,
                tool@,
            ) < usize::MAX,
        ensures
            checked(tool_refusal(old(self)@, session_id@, tool@), r),
            final(self)@ == (if r is Ok {
                EnforcerView {
                    counts: bumped(old(self)@.counts, session_id@, tool@),
                    ..old(self)@
                }
            } else {
                old(self)@
            }),
    {
        match self.check_tool(session_id, tool) {
            Ok(()) => {
                self.counters.increment(session_id, tool);
                Ok(())
            },
            Err(e) => Err(e),
        }
    }

    /// Reset every counter of the session.
    pub fn reset_session(&mut self, session_id: &str)
        ensures
            final(self)@ == (EnforcerView {
                counts: cleared(old(self)@.counts, session_id@),
                ..old(self)@
            }),
    {
        self.counters.reset_session(session_id);
    }
}

/// Shared tool policy gate for paths that hold a policy enforcer and a session id.
///
/// Without either of them nothing is refused and nothing counted.
pub struct ToolExecutionPolicy<'a> {
    pub enforcer: Option<&'a mut PolicyEnforcer>,
    pub session_id: Option<&'a str>,
}

/// Why a gate refuses a tool.
pub open spec fn gate_refusal(
    enforcer: Option<EnforcerView>,
    session: Option<Seq<char>>,
    tool: Seq<char>,
) -> Option<PolicyErrorView> {
    match (enforcer, session) {
        (Some(e), Some(session)) => tool_refusal(e, session, tool),
        _ => None,
    }
}

impl<'a> ToolExecutionPolicy<'a> {
    /// The enforcer as it stands.
    pub open spec fn enforcer(&self) -> Option<EnforcerView> {
        match self.enforcer {
            Some(e) => Some((*e)@),
            None => None,
        }
    }

    /// The session id.
    pub open spec fn session(&self) -> Option<Seq<char>> {
        crate::json::str_view(self.session_id)
    }

    /// Build a tool policy gate.
    pub fn new(enforcer: Option<&'a mut PolicyEnforcer>, session_id: Option<&'a str>) -> (gate:
        ToolExecutionPolicy<'a>)
        ensures
            gate.session() == crate::json::str_view(session_id),
            enforcer matches Some(e) ==> gate.enforcer() == Some((*e)@),
            enforcer is None ==> gate.enforcer() is None,
            gate.enforcer == enforcer,
    {
        ToolExecutionPolicy { enforcer, session_id }
    }

    /// Check a tool invocation without consuming the cap.
    pub fn check_tool(&self, tool: &str) -> (r: Result<(), PolicyError>)
        ensures
            checked(gate_refusal(self.enforcer(), self.session(), tool@), r),
    {
        match (&self.enforcer, self.session_id) {
            (Some(enforcer), Some(session_id)) => enforcer.check_tool(session_id, tool),
            _ => Ok(()),
        }
    }

    /// Check a tool invocation and count it if it is allowed.
    pub fn check_and_record_tool(&mut self, tool: &str) -> (r: Result<(), PolicyError>)
        requires
            old(self).enforcer() matches Some(e) ==> old(self).session() matches Some(session)
                ==> tool_refusal(e, session, tool@) is None ==> (e.counts)(session, tool@)
                < usize::MAX,
        ensures
            checked(gate_refusal(old(self).enforcer(), old(self).session(), tool@), r),
            final(self).session() == old(self).session(),
            final(self).enforcer is Some == old(self).enforcer is Some,
            old(self).enforcer is Some ==> *final(final(self).enforcer->0) == *final(old(self).enforcer->0),
            final(self).enforcer() == (match (old(self).enforcer(), old(self).session()) {
                (Some(e), Some(session)) if r is Ok => Some(
                    EnforcerView { counts: bumped(e.counts, session, tool@), ..e },
                ),
                _ => old(self).enforcer(),
            }),
    {
        match (&mut self.enforcer, self.session_id) {
            (Some(enforcer), Some(session_id)) => enforcer.check_and_record_tool(session_id, tool),
            _ => Ok(()),
        }
    }
}

/// The counts after `k` invocations of the tool in the session.
pub open spec fn bumped_times(
    counts: spec_fn(Seq<char>, Seq<char>) -> nat,
    session: Seq<char>,
    tool: Seq<char>,
    k: nat,
) -> spec_fn(Seq<char>, Seq<char>) -> nat
    decreases k,
{
    if k == 0 {
        counts
    } else {
        bumped(bumped_times(counts, session, tool, (k - 1) as nat), session, tool)
    }
}

/// Invocations of a tool in a session add up there and nowhere else.
pub proof fn invocations_add_up(
    counts: spec_fn(Seq<char>, Seq<char>) -> nat,
    session: Seq<char>,
    tool: Seq<char>,
    k: nat,
    other_session: Seq<char>,
    other_tool: Seq<char>,
)
    ensures
        bumped_times(counts, session, tool, k)(session, tool) == counts(session, tool) + k,
        other_session != session || other_tool != tool ==> bumped_times(counts, session, tool, k)(
            other_session,
            other_tool,
        ) == counts(other_session, other_tool),
    decreases k,
{
    if k > 0 {
        invocations_add_up(counts, session, tool, (k - 1) as nat, other_session, other_tool);
    }
}

/// Of a tool with a cap, exactly as many invocations are allowed in a session as the cap
/// says, and those in other sessions do not count.
pub proof fn cap_allows_so_many_invocations(
    policy: EnterprisePolicy,
    session: Seq<char>,
    tool: Seq<char>,
    k: nat,
    other_session: Seq<char>,
    other_k: nat,
)
    requires
        policy.tool_caps@.dom().contains(tool),
        other_session != session,
    ensures
        tool_refusal(
            EnforcerView {
                policy,
                counts: bumped_times(
                    bumped_times(no_counts(), other_session, tool, other_k),
                    session,
                    tool,
                    k,
                ),
            },
            session,
            tool,
        ) is None <==> k < policy.tool_caps@[tool],
{
    let elsewhere = bumped_times(no_counts(), other_session, tool, other_k);
    invocations_add_up(no_counts(), other_session, tool, other_k, session, tool);
    invocations_add_up(elsewhere, session, tool, k, session, tool);
}

/// A tool is refused exactly if it has a cap and was invoked at least as often; the refusal
/// gives the cap and the recorded count.
pub proof fn refusals_tell_the_count(e: EnforcerView, session: Seq<char>, tool: Seq<char>)
    ensures
        tool_refusal(e, session, tool) is Some <==> e.policy.tool_caps@.dom().contains(tool) && (
        e.counts)(session, tool) >= e.policy.tool_caps@[tool],
        tool_refusal(e, session, tool) matches Some(refusal) ==> refusal
            == PolicyErrorView::ToolCap(
            tool,
            e.policy.tool_caps@[tool],
            (e.counts)(session, tool),
        ),
{
}

/// A tool without a cap is never refused.
pub proof fn uncapped_tools_are_allowed(e: EnforcerView, session: Seq<char>, tool: Seq<char>)
    requires
        !e.policy.tool_caps@.dom().contains(tool),
    ensures
        tool_refusal(e, session, tool) is None,
{
}

/// A reset gives a session its whole budget back and leaves other sessions alone.
pub proof fn reset_restores_the_budget(
    e: EnforcerView,
    session: Seq<char>,
    tool: Seq<char>,
    other_session: Seq<char>,
)
    requires
        other_session != session,
    ensures
        ({
            let after = EnforcerView { counts: cleared(e.counts, session), ..e };
            &&& tool_refusal(after, session, tool) is Some <==> e.policy.tool_caps@.dom().contains(
                tool,
            ) && e.policy.tool_caps@[tool] == 0
            &&& tool_refusal(after, other_session, tool) == tool_refusal(e, other_session, tool)
        }),
{
}

/// With an allowlist only its models pass, and the refusal names the model; without one every
/// model does.
pub proof fn the_allowlist_decides(p: EnterprisePolicy, model: Seq<char>)
    ensures
        p.model_allowlist@.contains(model) ==> model_refusal(p, model) is None,
        p.model_allowlist@ == Set::<Seq<char>>::empty() ==> model_refusal(p, model) is None,
        !p.model_allowlist@.contains(model) && p.model_allowlist@ != Set::<Seq<char>>::empty()
            ==> model_refusal(p, model) == Some(PolicyErrorView::ModelDenied(model)),
{
}

/// A request passes if its model does, its input is within the cap for requests, and what the
/// session has used, the input and the budget for output together are within the cap for
/// sessions; otherwise it is refused for the first of these that fails.
pub proof fn requests_stay_within_the_caps(
    p: EnterprisePolicy,
    input: ProviderRequestPolicyInput<'_>,
)
    requires
        input.cumulative_session_tokens + input.estimated_input_tokens + input.output_token_budget
            <= usize::MAX,
    ensures
        request_refusal(p, input) is None <==> {
            &&& model_refusal(p, input.model@) is None
            &&& p.max_request_tokens matches Some(cap) ==> input.estimated_input_tokens <= cap
            &&& p.max_session_tokens matches Some(cap) ==> input.cumulative_session_tokens
                + input.estimated_input_tokens + input.output_token_budget <= cap
        },
        request_refusal(p, input) matches Some(PolicyErrorView::TokenCap(tokens, cap, scope)) ==> (
        (scope == "request"@ && tokens == input.estimated_input_tokens && Some(cap)
            == p.max_request_tokens) || (scope == "session"@ && tokens
            == input.cumulative_session_tokens + input.estimated_input_tokens
            + input.output_token_budget && Some(cap) == p.max_session_tokens)),
        model_refusal(p, input.model@) is Some ==> request_refusal(p, input) == model_refusal(
            p,
            input.model@,
        ),
{
}

/// A session that has used more than can be counted is over any cap that can be set below that.
pub proof fn uncountable_sessions_are_over_the_cap(
    p: EnterprisePolicy,
    input: ProviderRequestPolicyInput<'_>,
)
    requires
        input.cumulative_session_tokens + input.estimated_input_tokens + input.output_token_budget
            > usize::MAX,
        p.max_session_tokens matches Some(cap) && cap < usize::MAX,
    ensures
        request_refusal(p, input) is Some,
{
}

/// The budget for output is what the request asks for, or else the default.
pub proof fn requests_set_their_budget(asked: u32, default: u32)
    requires
        asked <= usize::MAX,
        default <= usize::MAX,
    ensures
        output_budget(Some(asked), default) == asked,
        output_budget(None, default) == default,
{
}

/// A refusal tells what was refused: the model, or the tokens and the cap, or the tool, its cap
/// and how often it ran.
pub proof fn refusals_tell_what_was_refused(
    model: Seq<char>,
    tokens: usize,
    cap: usize,
    scope: Seq<char>,
    tool: Seq<char>,
    count: nat,
)
    ensures
        scan::occurs(policy_error_text(PolicyErrorView::ModelDenied(model)), "`"@ + model + "`"@),
        scan::occurs(
            policy_error_text(PolicyErrorView::TokenCap(tokens, cap, scope)),
            text::decimal(tokens as nat) + " > "@ + text::decimal(cap as nat),
        ),
        scan::occurs(
            policy_error_text(PolicyErrorView::TokenCap(tokens, cap, scope)),
            " (per-"@ + scope + ")"@,
        ),
        scan::occurs(
            policy_error_text(PolicyErrorView::ToolCap(tool, cap, count)),
            "`"@ + tool + "`"@,
        ),
        scan::occurs(
            policy_error_text(PolicyErrorView::ToolCap(tool, cap, count)),
            " cap of "@ + text::decimal(cap as nat),
        ),
        scan::occurs(
            policy_error_text(PolicyErrorView::ToolCap(tool, cap, count)),
            "consumed="@ + text::decimal(count),
        ),
{
    let none = Seq::<char>::empty();
    lemma_quoted_words();
    let m = "`"@ + model + "`"@;
    let a = policy_error_text(PolicyErrorView::ModelDenied(model));
    assert(a =~= "model "@ + m + " is not in the enterprise allowlist"@);
    scan::lemma_part_occurs("model "@, m, " is not in the enterprise allowlist"@);
    let both = text::decimal(tokens as nat) + " > "@ + text::decimal(cap as nat);
    let per = " (per-"@ + scope + ")"@;
    let b = policy_error_text(PolicyErrorView::TokenCap(tokens, cap, scope));
    let lead = "request exceeds policy token cap: "@;
    assert(b =~= lead + both + per);
    scan::lemma_part_occurs(lead, both, per);
    assert(b =~= (lead + both) + per + none);
    scan::lemma_part_occurs(lead + both, per, none);
    let t = "`"@ + tool + "`"@;
    let of = " cap of "@ + text::decimal(cap as nat);
    let ran = "consumed="@ + text::decimal(count);
    let c = policy_error_text(PolicyErrorView::ToolCap(tool, cap, count));
    let more = " exceeded per-session"@;
    assert(c =~= "tool "@ + t + (more + of + "; "@ + ran));
    scan::lemma_part_occurs("tool "@, t, more + of + "; "@ + ran);
    assert(c =~= ("tool "@ + t + more) + of + ("; "@ + ran));
    scan::lemma_part_occurs("tool "@ + t + more, of, "; "@ + ran);
    assert(c =~= ("tool "@ + t + more + of + "; "@) + ran + none);
    scan::lemma_part_occurs("tool "@ + t + more + of + "; "@, ran, none);
}

proof fn lemma_quoted_words()
    ensures
        "model `"@ == "model "@ + "`"@,
        "` is not in the enterprise allowlist"@ == "`"@ + " is not in the enterprise allowlist"@,
        "tool `"@ == "tool "@ + "`"@,
        "` exceeded per-session cap of "@ == "`"@ + " exceeded per-session"@ + " cap of "@,
        "; consumed="@ == "; "@ + "consumed="@,
{
    reveal_strlit("`");
    reveal_strlit("model `");
    reveal_strlit("model ");
    reveal_strlit("` is not in the enterprise allowlist");
    reveal_strlit(" is not in the enterprise allowlist");
    reveal_strlit("tool `");
    reveal_strlit("tool ");
    reveal_strlit("` exceeded per-session cap of ");
    reveal_strlit(" exceeded per-session");
    reveal_strlit(" cap of ");
    reveal_strlit("; consumed=");
    reveal_strlit("; ");
    reveal_strlit("consumed=");
    assert("model `"@ =~= "model "@ + "`"@);
    assert("` is not in the enterprise allowlist"@ =~= "`"@
        + " is not in the enterprise allowlist"@);
    assert("tool `"@ =~= "tool "@ + "`"@);
    assert("` exceeded per-session cap of "@ =~= "`"@ + " exceeded per-session"@ + " cap of "@);
    assert("; consumed="@ =~= "; "@ + "consumed="@);
}

/// A tool is gated only where there is an enforcer and a session: then as the enforcer says.
pub proof fn gates_need_an_enforcer_and_a_session(
    e: EnforcerView,
    session: Seq<char>,
    tool: Seq<char>,
)
    ensures
        gate_refusal(Some(e), Some(session), tool) == tool_refusal(e, session, tool),
        gate_refusal(None, Some(session), tool) is None,
        gate_refusal(Some(e), None, tool) is None,
        gate_refusal(None, None, tool) is None,
{
}

} // verus!
