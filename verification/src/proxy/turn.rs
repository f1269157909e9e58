//! One turn through the proxy: its policy checks, its token estimate, what is done with the
//! reply, and the count of turns in loop mode.

use vstd::prelude::*;

use crate::json;
use crate::json::{Json, JsonView};
use crate::proxy::errors::{ErrorView, ProxyError};
use crate::proxy::message::ChatMessage;
use crate::services::policy;
use crate::services::policy::{
    EnterprisePolicy, PolicyError, ProviderRequestPolicy, ProviderRequestPolicyInput,
};
use crate::session::record::Session;
use crate::session::state::{usage_total, TokenUsage};
use crate::text;

verus! {

// ---------------------------------------------------------------------------
// Policy

/// The policy lets a request pass, or this is the error.
pub open spec fn policed(refusal: Option<policy::PolicyErrorView>, r: Result<(), ProxyError>) -> bool {
    match (refusal, r) {
        (None, Ok(_)) => true,
        (Some(e), Err(error)) => error@ == ErrorView::PolicyDenied(policy::policy_error_text(e)),
        _ => false,
    }
}

/// The error of a request that the policy denies.
pub fn proxy_policy_error(error: &PolicyError) -> (e: ProxyError)
    ensures
        e@ == ErrorView::PolicyDenied(policy::policy_error_text(error@)),
{
    ProxyError::PolicyDenied(error.message())
}

/// Checks the model of a request before anything is done for it.
pub fn enforce_model_policy(p: &EnterprisePolicy, model: &str) -> (r: Result<(), ProxyError>)
    ensures
        policed(policy::model_refusal(*p, model@), r),
{
    match p.check_model(model) {
        Ok(()) => Ok(()),
        Err(e) => Err(proxy_policy_error(&e)),
    }
}

/// The tokens that a session has used.
pub open spec fn used_tokens(cumulative: Option<&TokenUsage>) -> int {
    match cumulative {
        Some(u) => usage_total(*u),
        None => 0,
    }
}

/// Checks the size of a request, and what the session would come to with it.
pub fn enforce_token_policy(
    p: &EnterprisePolicy,
    model: &str,
    estimated_input: usize,
    max_tokens: Option<u32>,
    default_max_tokens: u32,
    cumulative: Option<&TokenUsage>,
) -> (r: Result<(), ProxyError>)
    requires
        used_tokens(cumulative) <= u64::MAX,
    ensures
        policed(
            policy::request_refusal(
                *p,
                (ProviderRequestPolicyInput {
                    model,
                    estimated_input_tokens: estimated_input,
                    output_token_budget: policy::output_budget(max_tokens, default_max_tokens),
                    cumulative_session_tokens: used_tokens(cumulative) as u64,
                }),
            ),
            r,
        ),
{
    let used: u64 = match cumulative {
        Some(u) => u.total(),
        None => 0,
    };
    let input = ProviderRequestPolicyInput::new(
        model,
        estimated_input,
        max_tokens,
        used,
        default_max_tokens,
    );
    match ProviderRequestPolicy::new(p).check(input) {
        Ok(()) => Ok(()),
        Err(e) => Err(proxy_policy_error(&e)),
    }
}

// ---------------------------------------------------------------------------
// Estimate

/// The tokens of the system messages among the first `n`.
pub open spec fn system_tokens(messages: Seq<ChatMessage>, tokens: Seq<usize>, n: int) -> nat
    decreases n,
{
    if n <= 0 {
        0
    } else if messages[n - 1].role@ == "system"@ {
        system_tokens(messages, tokens, n - 1) + tokens[n - 1] as nat
    } else {
        system_tokens(messages, tokens, n - 1)
    }
}

/// The first `n` of some numbers added up.
pub open spec fn total(tokens: Seq<usize>, n: int) -> nat
    decreases n,
{
    if n <= 0 {
        0
    } else {
        total(tokens, n - 1) + tokens[n - 1] as nat
    }
}

/// What the parts of a request take.
#[derive(Debug, Clone, Copy, PartialEq, Eq, Structural)]
pub struct TokenParts {
    pub system_prompt: usize,
    pub tool_defs: usize,
    /// Both together.
    pub injected: usize,
}

proof fn lemma_total_grows(tokens: Seq<usize>, i: int, n: int)
    requires
        0 <= i <= n <= tokens.len(),
    ensures
        total(tokens, i) <= total(tokens, n),
    decreases n - i,
{
    if i < n {
        lemma_total_grows(tokens, i, n - 1);
    }
}

proof fn lemma_system_grows(messages: Seq<ChatMessage>, tokens: Seq<usize>, i: int, n: int)
    requires
        0 <= i <= n <= messages.len(),
    ensures
        system_tokens(messages, tokens, i) <= system_tokens(messages, tokens, n),
    decreases n - i,
{
    if i < n {
        lemma_system_grows(messages, tokens, i, n - 1);
    }
}

/// What the system messages and the tools of a request take, given the estimate for each
/// message and each tool.
pub fn token_parts(
    messages: &Vec<ChatMessage>,
    message_tokens: &Vec<usize>,
    tool_tokens: &Vec<usize>,
) -> (parts: TokenParts)
    requires
        message_tokens@.len() == messages@.len(),
        system_tokens(messages@, message_tokens@, messages@.len() as int) + total(
            tool_tokens@,
            tool_tokens@.len() as int,
        ) <= usize::MAX,
    ensures
        parts.system_prompt == system_tokens(
            messages@,
            message_tokens@,
            messages@.len() as int,
        ),
        parts.tool_defs == total(tool_tokens@, tool_tokens@.len() as int),
        parts.injected == parts.system_prompt + parts.tool_defs,
{
    let ghost all = system_tokens(messages@, message_tokens@, messages@.len() as int);
    let mut system_prompt: usize = 0;
    let mut i: usize = 0;
    while i < messages.len()
        invariant
            0 <= i <= messages@.len(),
            message_tokens@.len() == messages@.len(),
            all == system_tokens(messages@, message_tokens@, messages@.len() as int),
            all <= usize::MAX,
            system_prompt == system_tokens(messages@, message_tokens@, i as int),
        decreases messages@.len() - i,
    {
        proof {
            lemma_system_grows(messages@, message_tokens@, i + 1, messages@.len() as int);
        }
        if text::str_eq(messages[i].role.as_str(), "system") {
            system_prompt = system_prompt + message_tokens[i];
        }
        i += 1;
    }
    let mut tool_defs: usize = 0;
    let mut j: usize = 0;
    while j < tool_tokens.len()
        invariant
            0 <= j <= tool_tokens@.len(),
            total(tool_tokens@, tool_tokens@.len() as int) <= usize::MAX,
            tool_defs == total(tool_tokens@, j as int),
        decreases tool_tokens@.len() - j,
    {
        proof {
            lemma_total_grows(tool_tokens@, j + 1, tool_tokens@.len() as int);
        }
        tool_defs = tool_defs + tool_tokens[j];
        j += 1;
    }
    TokenParts { system_prompt, tool_defs, injected: system_prompt + tool_defs }
}

/// How much of its window a request takes, in tenths of a percent. A request of more tokens
/// than can be counted in thousandths takes as many as can. A window of nothing is taken
/// by nothing.
pub open spec fn utilization(estimated: usize, window: usize) -> usize {
    if window == 0 {
        0
    } else if estimated * 1000 > usize::MAX {
        usize::MAX / window
    } else {
        ((estimated * 1000) as usize) / window
    }
}

/// How much of its window a request takes, in tenths of a percent.
pub fn utilization_pct_x10(estimated_input: usize, context_window: usize) -> (n: usize)
    ensures
        n == utilization(estimated_input, context_window),
{
    if context_window == 0 {
        return 0;
    }
    let scaled: usize = match estimated_input.checked_mul(1000) {
        Some(n) => n,
        None => usize::MAX,
    };
    scaled / context_window
}

/// Tenths of a percent in words.
pub open spec fn percent_text(tenths: nat) -> Seq<char> {
    text::decimal(tenths / 10) + "."@ + text::decimal(tenths % 10) + "%"@
}

/// Tenths of a percent in words.
pub fn percent(tenths: u32) -> (out: String)
    ensures
        out@ == percent_text(tenths as nat),
{
    let mut out = text::decimal_string((tenths / 10) as u64);
    out.append(".");
    text::push_decimal(&mut out, (tenths % 10) as u64);
    out.append("%");
    out
}

/// A request takes all of its window where its tokens are as many as fit.
pub proof fn full_window_is_a_hundred_percent(window: usize)
    requires
        window > 0,
        window * 1000 <= usize::MAX,
    ensures
        utilization(window, window) == 1000,
        utilization(0, window) == 0,
{
    let scaled = (window * 1000) as int;
    assert(scaled / (window as int) == 1000) by (nonlinear_arith)
        requires
            scaled == window * 1000,
            window > 0,
    ;
}

/// The input that the last turn of a session was billed, if it is known. A number that does
/// not fit counts as the largest that does.
pub open spec fn billed_input(session: Option<&Session>) -> Option<usize> {
    match session {
        Some(s) => if s.turn_metrics@.len() > 0 {
            match s.turn_metrics@.last().actual_usage {
                Some(u) => Some(
                    if u.input_tokens > usize::MAX {
                        usize::MAX
                    } else {
                        u.input_tokens as usize
                    },
                ),
                None => None,
            }
        } else {
            None
        },
        None => None,
    }
}

/// The input that the last turn of a session was billed.
pub fn actual_token_hint(session: Option<&Session>) -> (hint: Option<usize>)
    ensures
        hint == billed_input(session),
{
    match session {
        Some(s) => {
            let n: usize = s.turn_metrics.len();
            if n == 0 {
                return None;
            }
            match s.turn_metrics[n - 1].actual_usage {
                Some(u) => if u.input_tokens > usize::MAX as u64 {
                    Some(usize::MAX)
                } else {
                    Some(u.input_tokens as usize)
                },
                None => None,
            }
        },
        None => None,
    }
}

/// What came of compacting a request.
#[derive(Debug)]
pub struct Compaction {
    pub compacted: bool,
    pub summary: Option<String>,
}

/// The length of a summary in bytes.
pub open spec fn summary_len(summary: Option<Seq<char>>) -> nat {
    match summary {
        Some(s) => text::utf8_len(s),
        None => 0,
    }
}

/// What is notified of a compaction: the length of its summary. A request that was not
/// compacted, or could not be, is sent as it is, and nothing is notified.
pub fn compaction_notice(result: &Option<Compaction>) -> (payload: Option<Json>)
    ensures
        match (*result, payload) {
            (Some(c), Some(j)) => c.compacted && j@ == JsonView::Object(
                json::fields().push(
                    (
                        "summary_length"@,
                        json::count_view(summary_len(text::opt_view(c.summary)) as u64),
                    ),
                ),
            ),
            (Some(c), None) => !c.compacted,
            (None, None) => true,
            (None, Some(_)) => false,
        },
{
    match result {
        Some(c) => if c.compacted {
            let n: usize = match &c.summary {
                Some(s) => text::byte_len(s.as_str()),
                None => 0,
            };
            let mut m = json::no_members();
            json::push_member(&mut m, "summary_length", Json::number(n as u64));
            Some(json::object(m))
        } else {
            None
        },
        None => None,
    }
}

// ---------------------------------------------------------------------------
// Steps

/// A step of a turn. One that fails ends the turn.
#[derive(Debug, Clone, Copy, PartialEq, Eq, Structural)]
pub enum TurnStep {
    /// Check the model against the policy.
    CheckModel,
    /// Find the provider and the key.
    Resolve,
    /// Count the request in the session.
    CountRequest,
    /// Prepare the request.
    Prepare,
    /// Compact the request, if it needs it. This step does not fail.
    Compact,
    /// Check the estimated tokens against the policy.
    CheckTokens,
    /// Record the estimate in the session.
    RecordEstimate,
    /// Send the request to the provider.
    Forward,
    /// Hand the reply on as it is.
    HandOn,
    /// Turn the reply into the shape of the chat completions endpoint.
    Transform,
    /// Record the usage in the session, if it is known.
    RecordUsage,
    /// Have an adversary look at the reply, if there is one.
    Review,
    /// Count the turn in loop mode.
    CompleteIteration,
}

/// A step where it applies.
pub open spec fn step_if(steps: Seq<TurnStep>, applies: bool, step: TurnStep) -> Seq<TurnStep> {
    if applies {
        steps.push(step)
    } else {
        steps
    }
}

/// The steps of a turn up to the request to the provider.
pub open spec fn steps_out(tracking: bool) -> Seq<TurnStep> {
    step_if(
        Seq::<TurnStep>::empty().push(TurnStep::CheckModel).push(TurnStep::Resolve).push(
            TurnStep::CountRequest,
        ).push(TurnStep::Prepare).push(TurnStep::Compact).push(TurnStep::CheckTokens),
        tracking,
        TurnStep::RecordEstimate,
    ).push(TurnStep::Forward)
}

/// The steps of a turn. A stream is handed on; anything else is transformed, and where tokens
/// are tracked, recorded and reviewed.
pub open spec fn steps_of(tracking: bool, is_stream: bool) -> Seq<TurnStep> {
    if is_stream {
        steps_out(tracking).push(TurnStep::HandOn).push(TurnStep::CompleteIteration)
    } else {
        step_if(
            step_if(
                steps_out(tracking).push(TurnStep::Transform),
                tracking,
                TurnStep::RecordUsage,
            ),
            tracking,
            TurnStep::Review,
        ).push(TurnStep::CompleteIteration)
    }
}

/// The steps of a turn, given whether tokens are tracked and whether the reply is a stream.
pub fn turn_steps(tracking: bool, is_stream: bool) -> (steps: Vec<TurnStep>)
    ensures
        steps@ == steps_of(tracking, is_stream),
{
    let mut steps: Vec<TurnStep> = Vec::new();
    steps.push(TurnStep::CheckModel);
    steps.push(TurnStep::Resolve);
    steps.push(TurnStep::CountRequest);
    steps.push(TurnStep::Prepare);
    steps.push(TurnStep::Compact);
    steps.push(TurnStep::CheckTokens);
    if tracking {
        steps.push(TurnStep::RecordEstimate);
    }
    steps.push(TurnStep::Forward);
    if is_stream {
        steps.push(TurnStep::HandOn);
    } else {
        steps.push(TurnStep::Transform);
        if tracking {
            steps.push(TurnStep::RecordUsage);
            steps.push(TurnStep::Review);
        }
    }
    steps.push(TurnStep::CompleteIteration);
    steps
}

/// No request is sent before the policy passed its model and its tokens and it was prepared,
/// and a turn counts once, at its end.
pub proof fn requests_are_checked_before_they_are_sent(tracking: bool, is_stream: bool, i: int)
    requires
        0 <= i < steps_of(tracking, is_stream).len(),
        steps_of(tracking, is_stream)[i] == TurnStep::Forward,
    ensures
        i >= 6,
        steps_of(tracking, is_stream)[0] == TurnStep::CheckModel,
        steps_of(tracking, is_stream)[3] == TurnStep::Prepare,
        steps_of(tracking, is_stream)[5] == TurnStep::CheckTokens,
        steps_of(tracking, is_stream).last() == TurnStep::CompleteIteration,
        forall|j: int|
            0 <= j < steps_of(tracking, is_stream).len() - 1 ==> #[trigger] steps_of(
                tracking,
                is_stream,
            )[j] != TurnStep::CompleteIteration,
{
}

/// A turn under way: its steps, and the one that is being taken.
#[derive(Debug)]
pub struct Turn {
    steps: Vec<TurnStep>,
    at: usize,
}

/// What a turn under way says.
#[verifier::ext_equal]
pub struct TurnView {
    pub steps: Seq<TurnStep>,
    pub at: int,
}

impl View for Turn {
    type V = TurnView;

    closed spec fn view(&self) -> TurnView {
        TurnView { steps: self.steps@, at: self.at as int }
    }
}

/// The step that is being taken, unless the turn is over.
pub open spec fn step_at(t: TurnView) -> Option<TurnStep> {
    if t.at < t.steps.len() {
        Some(t.steps[t.at])
    } else {
        None
    }
}

/// The turn once the step came out well, or did not.
pub open spec fn stepped(t: TurnView, well: bool) -> TurnView {
    if well && t.at < t.steps.len() {
        TurnView { at: t.at + 1, ..t }
    } else {
        TurnView { at: t.steps.len() as int, ..t }
    }
}

impl Turn {
    #[verifier::type_invariant]
    spec fn is_within(self) -> bool {
        self.at <= self.steps@.len()
    }

    /// A turn at its first step.
    pub fn start(tracking: bool, is_stream: bool) -> (t: Turn)
        ensures
            t@ == (TurnView { steps: steps_of(tracking, is_stream), at: 0 }),
    {
        Turn { steps: turn_steps(tracking, is_stream), at: 0 }
    }

    /// The step that is to be taken, unless the turn is over.
    pub fn step(&self) -> (step: Option<TurnStep>)
        ensures
            step == step_at(self@),
    {
        if self.at < self.steps.len() {
            Some(self.steps[self.at])
        } else {
            None
        }
    }

    /// Goes on to the next step. One that failed ends the turn with its error.
    pub fn advance(&mut self, outcome: Result<(), ProxyError>) -> (r: Result<
        Option<TurnStep>,
        ProxyError,
    >)
        ensures
            final(self)@ == stepped(old(self)@, outcome is Ok),
            match (outcome, r) {
                (Ok(_), Ok(step)) => step == step_at(final(self)@),
                (Err(e), Err(error)) => error == e,
                _ => false,
            },
    {
        proof {
            use_type_invariant(&*self);
        }
        let n: usize = self.steps.len();
        match outcome {
            Ok(()) => {
                if self.at < n {
                    self.at = self.at + 1;
                }
                Ok(self.step())
            },
            Err(e) => {
                self.at = n;
                Err(e)
            },
        }
    }
}

/// A turn after a number of its steps, which came out well or did not.
pub open spec fn turn_after(tracking: bool, is_stream: bool, outcomes: Seq<bool>) -> TurnView
    decreases outcomes.len(),
{
    if outcomes.len() == 0 {
        TurnView { steps: steps_of(tracking, is_stream), at: 0 }
    } else {
        stepped(turn_after(tracking, is_stream, outcomes.drop_last()), outcomes.last())
    }
}

/// A step is taken only after all steps ahead of it came out well. So a request whose policy
/// check or preparation failed is not sent, and a turn counts only if nothing in it failed.
pub proof fn steps_follow_success(tracking: bool, is_stream: bool, outcomes: Seq<bool>)
    ensures
        turn_after(tracking, is_stream, outcomes).steps == steps_of(tracking, is_stream),
        0 <= turn_after(tracking, is_stream, outcomes).at <= steps_of(tracking, is_stream).len(),
        step_at(turn_after(tracking, is_stream, outcomes)) is Some ==> {
            &&& turn_after(tracking, is_stream, outcomes).at == outcomes.len()
            &&& forall|i: int| 0 <= i < outcomes.len() ==> #[trigger] outcomes[i]
        },
    decreases outcomes.len(),
{
    if outcomes.len() > 0 {
        let before = outcomes.drop_last();
        steps_follow_success(tracking, is_stream, before);
        if step_at(turn_after(tracking, is_stream, outcomes)) is Some {
            assert forall|i: int| 0 <= i < outcomes.len() implies #[trigger] outcomes[i] by {
                if i < before.len() {
                    assert(before[i]);
                }
            }
        }
    }
}

// ---------------------------------------------------------------------------
// Loop mode

/// The count of turns in loop mode, and how many there may be. No limit is a limit of zero.
#[derive(Debug)]
pub struct LoopControl {
    max_iterations: u32,
    completed_iterations: u32,
}

/// The limit is reached.
pub open spec fn at_limit(max: u32, iteration: u32) -> bool {
    max > 0 && iteration >= max
}

impl LoopControl {
    /// How many turns there may be.
    pub closed spec fn max(&self) -> u32 {
        self.max_iterations
    }

    /// How many turns there were.
    pub closed spec fn completed(&self) -> u32 {
        self.completed_iterations
    }

    /// A count of no turns.
    pub fn new(max_iterations: u32) -> (c: LoopControl)
        ensures
            c.max() == max_iterations,
            c.completed() == 0,
    {
        LoopControl { max_iterations, completed_iterations: 0 }
    }

    /// How many turns there were.
    pub fn completed_iterations(&self) -> (n: u32)
        ensures
            n == self.completed(),
    {
        self.completed_iterations
    }

    /// Counts a turn. Returns its number.
    pub fn mark_completed_iteration(&mut self) -> (n: u32)
        requires
            old(self).completed() < u32::MAX,
        ensures
            n == old(self).completed() + 1,
            final(self).completed() == n,
            final(self).max() == old(self).max(),
    {
        self.completed_iterations = self.completed_iterations + 1;
        self.completed_iterations
    }

    /// Whether the limit is reached.
    pub fn reached_limit(&self, iteration: u32) -> (b: bool)
        ensures
            b == at_limit(self.max(), iteration),
    {
        self.max_iterations > 0 && iteration >= self.max_iterations
    }

    /// Whether the server shuts down after a turn: where the hook on it asks for it, or where
    /// the limit is reached.
    pub fn shuts_down(&self, iteration: u32, hook_allowed: bool) -> (b: bool)
        ensures
            b == (!hook_allowed || at_limit(self.max(), iteration)),
    {
        !hook_allowed || self.reached_limit(iteration)
    }

    /// The limit in words.
    pub fn limit_text(&self) -> (out: String)
        ensures
            out@ == (if self.max() == 0 {
                "unlimited"@
            } else {
                text::decimal(self.max() as nat)
            }),
    {
        if self.max_iterations == 0 {
            "unlimited".to_owned()
        } else {
            text::decimal_string(self.max_iterations as u64)
        }
    }
}

/// Where there is a limit, the server shuts down after as many turns and not before, unless a
/// hook asks for it; without one it never does of its own.
pub proof fn loop_ends_at_its_limit(max: u32, iteration: u32)
    ensures
        max > 0 ==> at_limit(max, max),
        iteration < max ==> !at_limit(max, iteration),
        !at_limit(0, iteration),
{
}

/// What is handed over at the end of loop mode.
pub fn loop_handoff(completed: u32) -> (out: String)
    ensures
        out@ == "Loop mode completed after "@ + text::decimal(completed as nat)
            + " iteration(s).\nSession ended after "@ + text::decimal(completed as nat)
            + " iteration(s)."@,
{
    let mut out = "Loop mode completed after ".to_owned();
    text::push_decimal(&mut out, completed as u64);
    out.append(" iteration(s).\nSession ended after ");
    text::push_decimal(&mut out, completed as u64);
    out.append(" iteration(s).");
    out
}

/// Whether the session that loop mode began with is still the active one, and so is ended
/// with it.
pub fn ends_session(active: Option<&str>, started: &str) -> (b: bool)
    ensures
        b == (json::str_view(active) == Some(started@)),
{
    match active {
        Some(id) => text::str_eq(id, started),
        None => false,
    }
}

/// The steps of a turn: what is checked and counted before the request is sent, and what is
/// done with the reply. Without tracking nothing is recorded and nothing reviewed; of a stream
/// the usage is not known yet.
pub proof fn steps_of_every_turn()
    ensures
        steps_of(true, false) == seq![
            TurnStep::CheckModel,
            TurnStep::Resolve,
            TurnStep::CountRequest,
            TurnStep::Prepare,
            TurnStep::Compact,
            TurnStep::CheckTokens,
            TurnStep::RecordEstimate,
            TurnStep::Forward,
            TurnStep::Transform,
            TurnStep::RecordUsage,
            TurnStep::Review,
            TurnStep::CompleteIteration,
        ],
        steps_of(false, false) == seq![
            TurnStep::CheckModel,
            TurnStep::Resolve,
            TurnStep::CountRequest,
            TurnStep::Prepare,
            TurnStep::Compact,
            TurnStep::CheckTokens,
            TurnStep::Forward,
            TurnStep::Transform,
            TurnStep::CompleteIteration,
        ],
        steps_of(true, true) == seq![
            TurnStep::CheckModel,
            TurnStep::Resolve,
            TurnStep::CountRequest,
            TurnStep::Prepare,
            TurnStep::Compact,
            TurnStep::CheckTokens,
            TurnStep::RecordEstimate,
            TurnStep::Forward,
            TurnStep::HandOn,
            TurnStep::CompleteIteration,
        ],
        steps_of(false, true) == seq![
            TurnStep::CheckModel,
            TurnStep::Resolve,
            TurnStep::CountRequest,
            TurnStep::Prepare,
            TurnStep::Compact,
            TurnStep::CheckTokens,
            TurnStep::Forward,
            TurnStep::HandOn,
            TurnStep::CompleteIteration,
        ],
{
}

/// A turn whose steps all go well takes every one of them, in order.
pub proof fn every_step_is_taken(tracking: bool, is_stream: bool, k: nat)
    requires
        k <= steps_of(tracking, is_stream).len(),
    ensures
        ({
            let after = turn_after(tracking, is_stream, Seq::new(k, |i: int| true));
            &&& after.at == k
            &&& step_at(after) == (if k < steps_of(tracking, is_stream).len() {
                Some(steps_of(tracking, is_stream)[k as int])
            } else {
                None
            })
        }),
    decreases k,
{
    let all = Seq::new(k, |i: int| true);
    if k > 0 {
        let before = Seq::new((k - 1) as nat, |i: int| true);
        assert(all.drop_last() =~= before);
        every_step_is_taken(tracking, is_stream, (k - 1) as nat);
        steps_follow_success(tracking, is_stream, before);
    }
}

/// A step that fails is the last one, whatever is tried after it.
pub proof fn a_failed_step_ends_the_turn(t: TurnView, well: bool)
    ensures
        step_at(stepped(t, false)) is None,
        step_at(stepped(stepped(t, false), well)) is None,
{
}

/// The tokens of the system prompt are those of every message of the system, and of no other.
pub proof fn system_messages_are_counted(
    messages: Seq<ChatMessage>,
    tokens: Seq<usize>,
    message: ChatMessage,
    more: usize,
)
    requires
        messages.len() == tokens.len(),
    ensures
        system_tokens(seq![], seq![], 0) == 0,
        system_tokens(messages.push(message), tokens.push(more), messages.len() + 1int)
            == system_tokens(messages, tokens, messages.len() as int) + (if message.role@
            == "system"@ {
            more as nat
        } else {
            0nat
        }),
{
    lemma_system_ahead(
        messages.push(message),
        messages,
        tokens.push(more),
        tokens,
        messages.len() as int,
    );
}

proof fn lemma_system_ahead(
    a: Seq<ChatMessage>,
    b: Seq<ChatMessage>,
    s: Seq<usize>,
    t: Seq<usize>,
    n: int,
)
    requires
        n <= a.len(),
        n <= b.len(),
        n <= s.len(),
        n <= t.len(),
        forall|i: int| 0 <= i < n ==> a[i] == b[i],
        forall|i: int| 0 <= i < n ==> s[i] == t[i],
    ensures
        system_tokens(a, s, n) == system_tokens(b, t, n),
    decreases n,
{
    if n > 0 {
        lemma_system_ahead(a, b, s, t, n - 1);
    }
}

/// Every tool is counted.
pub proof fn every_tool_is_counted(tokens: Seq<usize>, more: usize)
    ensures
        total(seq![], 0) == 0,
        total(tokens.push(more), tokens.len() + 1int) == total(tokens, tokens.len() as int) + more,
{
    lemma_total_ahead(tokens.push(more), tokens, tokens.len() as int);
}

proof fn lemma_total_ahead(a: Seq<usize>, b: Seq<usize>, n: int)
    requires
        n <= a.len(),
        n <= b.len(),
        forall|i: int| 0 <= i < n ==> a[i] == b[i],
    ensures
        total(a, n) == total(b, n),
    decreases n,
{
    if n > 0 {
        lemma_total_ahead(a, b, n - 1);
    }
}

/// The utilization is the share of the window that the estimate takes, in tenths of a percent,
/// rounded down; of a window of no size it is nothing.
pub proof fn utilization_is_the_share_of_the_window(estimated: usize, window: usize)
    requires
        window > 0,
        estimated * 1000 <= usize::MAX,
    ensures
        utilization(estimated, window) * window <= estimated * 1000,
        estimated * 1000 < (utilization(estimated, window) + 1) * window,
        utilization(estimated, 0) == 0,
{
    let x = estimated * 1000;
    let w = window as int;
    let q = utilization(estimated, window) as int;
    assert(q == x / w);
    assert(q * w <= x < (q + 1) * w) by (nonlinear_arith)
        requires
            q == x / w,
            w > 0,
            x >= 0,
    ;
}

/// A share in tenths of a percent is written with one place behind the point.
pub proof fn shares_are_written_with_one_place(whole: nat, tenth: nat)
    requires
        tenth < 10,
    ensures
        percent_text(10 * whole + tenth) == text::decimal(whole) + "."@ + text::decimal(tenth)
            + "%"@,
{
    assert((10 * whole + tenth) / 10 == whole);
    assert((10 * whole + tenth) % 10 == tenth);
}

/// The hint is what the provider billed for the input of the last turn, and there is none
/// before the provider has said so.
pub proof fn the_last_bill_is_the_hint(session: Session, u: TokenUsage)
    requires
        session.turn_metrics@.len() > 0,
        u.input_tokens <= usize::MAX,
    ensures
        session.turn_metrics@.last().actual_usage == Some(u) ==> billed_input(Some(&session))
            == Some(u.input_tokens as usize),
        session.turn_metrics@.last().actual_usage is None ==> billed_input(Some(&session)) is None,
        billed_input(None) is None,
{
}

} // verus!
