//! Decides when a request is to be compacted.

use vstd::prelude::*;

verus! {

/// When a request is compacted.
#[derive(Debug, Clone, Copy, PartialEq, Eq, Structural)]
pub enum AutoCompactPolicy {
    /// When the compactor's own analysis calls for it.
    Auto,
    /// Whenever the request is at or above the budget.
    AlwaysOverBudget,
}

impl Default for AutoCompactPolicy {
    fn default() -> (p: AutoCompactPolicy)
        ensures
            p == AutoCompactPolicy::Auto,
    {
        AutoCompactPolicy::Auto
    }
}

/// What a compactor finds out about a request.
#[derive(Debug, Clone, Copy)]
pub struct CompactionAnalysis {
    /// The analysis calls for compaction.
    pub needs_compaction: bool,
    /// The tokens that the request takes.
    pub current_tokens: usize,
    /// The tokens that it may take.
    pub max_tokens: usize,
}

/// The request is compacted under the policy.
pub open spec fn compacts(policy: AutoCompactPolicy, analysis: CompactionAnalysis) -> bool {
    match policy {
        AutoCompactPolicy::Auto => analysis.needs_compaction,
        AutoCompactPolicy::AlwaysOverBudget => analysis.current_tokens >= analysis.max_tokens,
    }
}

/// A compactor with a policy that says when it is used.
#[derive(Clone, Debug)]
pub struct AutoCompactor<C> {
    compactor: C,
    policy: AutoCompactPolicy,
}

impl<C> AutoCompactor<C> {
    /// The compactor.
    pub closed spec fn inner(&self) -> C {
        self.compactor
    }

    /// The policy.
    pub closed spec fn policy(&self) -> AutoCompactPolicy {
        self.policy
    }

    /// A compactor with a policy.
    pub fn new(compactor: C, policy: AutoCompactPolicy) -> (a: AutoCompactor<C>)
        ensures
            a.inner() == compactor,
            a.policy() == policy,
    {
        AutoCompactor { compactor, policy }
    }

    /// A compactor that follows its own analysis.
    pub fn auto(compactor: C) -> (a: AutoCompactor<C>)
        ensures
            a.inner() == compactor,
            a.policy() == AutoCompactPolicy::Auto,
    {
        AutoCompactor::new(compactor, AutoCompactPolicy::Auto)
    }

    /// Borrow the compactor.
    pub fn compactor(&self) -> (c: &C)
        ensures
            *c == self.inner(),
    {
        &self.compactor
    }

    /// Whether the request with this analysis is compacted.
    pub fn should_compact(&self, analysis: &CompactionAnalysis) -> (b: bool)
        ensures
            b == compacts(self.policy(), *analysis),
    {
        match self.policy {
            AutoCompactPolicy::Auto => analysis.needs_compaction,
            AutoCompactPolicy::AlwaysOverBudget => analysis.current_tokens >= analysis.max_tokens,
        }
    }
}

/// By itself a request is compacted when its analysis calls for it, whatever its size; over its
/// budget always, whatever the analysis calls for.
pub proof fn policies_decide_on_compaction(needs: bool, current: usize, max: usize)
    ensures
        compacts(
            AutoCompactPolicy::Auto,
            CompactionAnalysis { needs_compaction: needs, current_tokens: current, max_tokens: max },
        ) == needs,
        compacts(
            AutoCompactPolicy::AlwaysOverBudget,
            CompactionAnalysis { needs_compaction: needs, current_tokens: current, max_tokens: max },
        ) <==> current >= max,
{
}

} // verus!
