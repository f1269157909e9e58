//! Rate-limit mocking for development and tests.

use vstd::prelude::*;

verus! {

/// What the next live request should observe under mock pressure.
#[derive(Debug, PartialEq, Eq)]
pub enum MockResponse {
    /// Request proceeds as normal.
    Proceed,
    /// Synthetic refusal: the caller should surface a retry-after.
    Throttle {
        /// Suggested back-off.
        retry_after: std::time::Duration,
        /// Human-readable reason.
        reason: String,
    },
}

/// A rate-limit emulator.
pub trait RateLimitMock: Send + Sync {
    /// What to do for the next outbound request.
    fn next_response(&mut self) -> MockResponse;

    /// Record that a live request was actually sent.
    fn record_call(&mut self);
}

/// Deterministic mock with a step-counted throttle window.
#[derive(Debug)]
pub struct MockRateLimit {
    enabled: bool,
    remaining_throttle: usize,
    retry_after: Option<std::time::Duration>,
    reason: String,
    calls_recorded: usize,
}

/// What a mock holds. The back-off is that of the last throttle window.
pub struct MockView {
    pub enabled: bool,
    pub remaining: nat,
    pub retry_after: Option<std::time::Duration>,
    pub reason: Seq<char>,
    pub calls: nat,
}

impl View for MockRateLimit {
    type V = MockView;

    closed spec fn view(&self) -> MockView {
        MockView {
            enabled: self.enabled,
            remaining: self.remaining_throttle as nat,
            retry_after: self.retry_after,
            reason: self.reason@,
            calls: self.calls_recorded as nat,
        }
    }
}

/// The next request is refused.
pub open spec fn throttles(m: MockView) -> bool {
    m.enabled && m.remaining > 0
}

/// A mock once it has answered a request.
pub open spec fn answered(m: MockView) -> MockView {
    if throttles(m) {
        MockView { remaining: (m.remaining - 1) as nat, ..m }
    } else {
        m
    }
}

/// A mock once it has seen a call. The count stops at the largest `usize`.
pub open spec fn recorded(m: MockView) -> MockView {
    if m.calls < usize::MAX {
        MockView { calls: m.calls + 1, ..m }
    } else {
        m
    }
}

/// What the mock answers.
pub open spec fn answer_of(m: MockView, r: MockResponse) -> bool {
    if throttles(m) {
        r matches MockResponse::Throttle { retry_after, reason } && m.retry_after == Some(
            retry_after,
        ) && reason@ == m.reason
    } else {
        r is Proceed
    }
}

/// A mock with everything turned off.
pub open spec fn dormant_mock() -> MockView {
    MockView {
        enabled: false,
        remaining: 0,
        retry_after: None,
        reason: "rate-limit mock dormant"@,
        calls: 0,
    }
}

impl Default for MockRateLimit {
    fn default() -> (m: MockRateLimit)
        ensures
            m@ == dormant_mock(),
    {
        MockRateLimit::dormant()
    }
}

impl MockRateLimit {
    #[verifier::type_invariant]
    spec fn window_has_back_off(self) -> bool {
        self.remaining_throttle > 0 ==> self.retry_after is Some
    }

    /// A mock with everything turned off.
    pub fn dormant() -> (m: MockRateLimit)
        ensures
            m@ == dormant_mock(),
    {
        MockRateLimit {
            enabled: false,
            remaining_throttle: 0,
            retry_after: None,
            reason: "rate-limit mock dormant".to_owned(),
            calls_recorded: 0,
        }
    }

    /// Throttle the next `count` requests with `retry_after` back-off and a reason.
    pub fn throttle_next(&mut self, count: usize, retry_after: std::time::Duration, reason: &str)
        ensures
            final(self)@ == (MockView {
                enabled: true,
                remaining: count as nat,
                retry_after: Some(retry_after),
                reason: reason@,
                ..old(self)@
            }),
    {
        proof {
            use_type_invariant(&*self);
        }
        self.enabled = true;
        self.remaining_throttle = 0;
        self.retry_after = Some(retry_after);
        self.remaining_throttle = count;
        self.reason = reason.to_owned();
    }

    /// Flip the kill switch. `false` means that every request proceeds; `true` puts the
    /// window that is left in force again.
    pub fn set_enabled(&mut self, enabled: bool)
        ensures
            final(self)@ == (MockView { enabled, ..old(self)@ }),
    {
        proof {
            use_type_invariant(&*self);
        }
        self.enabled = enabled;
    }

    /// Number of `record_call` invocations the mock has seen.
    pub fn calls_recorded(&self) -> (n: usize)
        ensures
            n == self@.calls,
    {
        self.calls_recorded
    }

    /// Reset the mock to the dormant state.
    pub fn reset(&mut self)
        ensures
            final(self)@ == (MockView { enabled: false, remaining: 0, calls: 0, ..old(self)@ }),
    {
        proof {
            use_type_invariant(&*self);
        }
        self.enabled = false;
        self.remaining_throttle = 0;
        self.calls_recorded = 0;
    }
}

impl RateLimitMock for MockRateLimit {
    fn next_response(&mut self) -> (r: MockResponse)
        ensures
            answer_of(old(self)@, r),
            final(self)@ == answered(old(self)@),
    {
        proof {
            use_type_invariant(&*self);
        }
        if !self.enabled || self.remaining_throttle == 0 {
            return MockResponse::Proceed;
        }
        match self.retry_after {
            Some(retry_after) => {
                self.remaining_throttle = self.remaining_throttle - 1;
                MockResponse::Throttle { retry_after, reason: self.reason.clone() }
            },
            None => MockResponse::Proceed,
        }
    }

    fn record_call(&mut self)
        ensures
            final(self)@ == recorded(old(self)@),
    {
        proof {
            use_type_invariant(&*self);
        }
        if self.calls_recorded < usize::MAX {
            self.calls_recorded = self.calls_recorded + 1;
        }
    }
}

/// A mock that has answered `k` requests.
pub open spec fn answered_times(m: MockView, k: nat) -> MockView
    decreases k,
{
    if k == 0 {
        m
    } else {
        answered(answered_times(m, (k - 1) as nat))
    }
}

/// A window of `count` refuses exactly the next `count` requests.
pub proof fn window_refuses_so_many(m: MockView, k: nat)
    requires
        m.enabled,
    ensures
        throttles(answered_times(m, k)) <==> k < m.remaining,
        answered_times(m, k).enabled,
        answered_times(m, k).remaining == (if k < m.remaining {
            (m.remaining - k) as nat
        } else {
            0
        }),
    decreases k,
{
    if k > 0 {
        window_refuses_so_many(m, (k - 1) as nat);
    }
}

/// The kill switch keeps the window: turned back on, it refuses as before.
pub proof fn kill_switch_keeps_the_window(m: MockView, k: nat)
    requires
        m.enabled,
    ensures
        ({
            let off = MockView { enabled: false, ..m };
            &&& !throttles(answered_times(off, k))
            &&& MockView { enabled: true, ..answered_times(off, k) } == m
        }),
    decreases k,
{
    if k > 0 {
        kill_switch_keeps_the_window(m, (k - 1) as nat);
    }
}

/// Calls are counted one by one; an answer counts none.
pub proof fn calls_are_counted(m: MockView)
    ensures
        m.calls < usize::MAX ==> recorded(m).calls == m.calls + 1,
        m.calls == usize::MAX ==> recorded(m).calls == m.calls,
        recorded(m).remaining == m.remaining,
        recorded(m).enabled == m.enabled,
        answered(m).calls == m.calls,
        answered(m).retry_after == m.retry_after,
        answered(m).reason == m.reason,
{
}

/// A refusal gives the back-off and the reason of the window; where there is no window, or the
/// switch is off, nothing is refused.
pub proof fn refusals_tell_the_window(m: MockView, r: MockResponse)
    requires
        answer_of(m, r),
    ensures
        m.enabled && m.remaining > 0 ==> (r matches MockResponse::Throttle { retry_after, reason }
            && m.retry_after == Some(retry_after) && reason@ == m.reason),
        !m.enabled || m.remaining == 0 ==> r is Proceed,
{
}

/// A dormant mock lets everything through and has counted nothing.
pub proof fn dormant_mocks_refuse_nothing(k: nat)
    ensures
        !throttles(answered_times(dormant_mock(), k)),
        answered_times(dormant_mock(), k) == dormant_mock(),
        dormant_mock().calls == 0,
    decreases k,
{
    if k > 0 {
        dormant_mocks_refuse_nothing((k - 1) as nat);
    }
}

} // verus!
