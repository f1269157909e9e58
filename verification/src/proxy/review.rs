//! The adversarial review of replies: which hooks it fires, what it leaves for the next
//! turn, and which body the client gets.

use vstd::prelude::*;

use crate::json;
use crate::json::{Json, JsonView, NumberView};
use crate::text;

verus! {

/// The events on which hooks run.
#[derive(Debug, Clone, Copy, PartialEq, Eq, Structural)]
pub enum HookEvent {
    SessionStart,
    UserPromptSubmit,
    PreToolUse,
    Stop,
    PreAdversaryReview,
    PostAdversaryReview,
    VddConflict,
    VddConverged,
}

/// What became of a finding.
#[derive(Debug, Clone, Copy, PartialEq, Eq, Structural)]
pub enum FindingStatus {
    Genuine,
    FalsePositive,
    Unresolved,
}

/// What a review that only advises found.
#[derive(Debug)]
pub struct VddAdvisoryResult {
    /// What became of each finding.
    pub findings: Vec<FindingStatus>,
    /// What is put into the next request.
    pub context_injection: String,
    /// How many static analyses ran.
    pub static_analysis: usize,
}

/// How a review that blocks went.
#[derive(Debug)]
pub struct VddSession {
    pub iterations: usize,
    pub total_findings: usize,
    pub total_genuine: usize,
    pub total_false_positives: usize,
    pub converged: bool,
    pub termination_reason: Option<String>,
}

/// What a review that blocks came to.
#[derive(Debug)]
pub struct VddBlockingResult {
    /// The reply in place of the one that was reviewed.
    pub final_response: Json,
    pub session: VddSession,
    /// How many issues were filed.
    pub crosslink_issues: usize,
}

/// What a review came to.
#[derive(Debug)]
pub enum VddResult {
    Advisory(VddAdvisoryResult),
    Blocking(VddBlockingResult),
    /// There was none, for this reason.
    Skipped(String),
}

/// How many of the first `n` findings are genuine.
pub open spec fn genuine(findings: Seq<FindingStatus>, n: int) -> nat
    decreases n,
{
    if n <= 0 {
        0
    } else if findings[n - 1] == FindingStatus::Genuine {
        genuine(findings, n - 1) + 1
    } else {
        genuine(findings, n - 1)
    }
}

/// How many findings are genuine.
pub fn count_genuine(findings: &Vec<FindingStatus>) -> (n: usize)
    ensures
        n == genuine(findings@, findings@.len() as int),
        n <= findings@.len(),
{
    let mut n: usize = 0;
    let mut i: usize = 0;
    while i < findings.len()
        invariant
            0 <= i <= findings@.len(),
            n == genuine(findings@, i as int),
            n <= i,
        decreases findings@.len() - i,
    {
        if findings[i] == FindingStatus::Genuine {
            n = n + 1;
        }
        i += 1;
    }
    n
}

/// A count as JSON.
pub open spec fn count(n: nat) -> JsonView {
    JsonView::Number(NumberView::Unsigned(n as u64))
}

/// A text that may be missing, as JSON.
pub open spec fn optional_text(s: Option<Seq<char>>) -> JsonView {
    match s {
        Some(s) => JsonView::Str(s),
        None => JsonView::Null,
    }
}

/// What hooks learn of a review that only advised.
pub open spec fn advisory_payload(a: VddAdvisoryResult) -> JsonView {
    JsonView::Object(
        json::fields().push(("ok"@, JsonView::Bool(true))).push(
            ("result"@, JsonView::Str("advisory"@)),
        ).push(("total_findings"@, count(a.findings@.len()))).push(
            ("genuine_findings"@, count(genuine(a.findings@, a.findings@.len() as int))),
        ).push(("static_analysis_results"@, count(a.static_analysis as nat))).push(
            ("context_injection_bytes"@, count(text::utf8_len(a.context_injection@))),
        ),
    )
}

/// What hooks learn of a review that blocked.
pub open spec fn blocking_payload(b: VddBlockingResult) -> JsonView {
    JsonView::Object(
        json::fields().push(("ok"@, JsonView::Bool(true))).push(
            ("result"@, JsonView::Str("blocking"@)),
        ).push(("iterations"@, count(b.session.iterations as nat))).push(
            ("total_findings"@, count(b.session.total_findings as nat)),
        ).push(("genuine_findings"@, count(b.session.total_genuine as nat))).push(
            ("false_positives"@, count(b.session.total_false_positives as nat)),
        ).push(("converged"@, JsonView::Bool(b.session.converged))).push(
            ("crosslink_issues"@, count(b.crosslink_issues as nat)),
        ),
    )
}

/// What hooks learn of genuine findings.
pub open spec fn conflict_payload(result: Seq<char>, n: nat) -> JsonView {
    JsonView::Object(
        json::fields().push(("result"@, JsonView::Str(result))).push(
            ("genuine_findings"@, count(n)),
        ),
    )
}

/// What hooks learn of a review that came to an end of its own.
pub open spec fn converged_payload(b: VddBlockingResult) -> JsonView {
    JsonView::Object(
        json::fields().push(("result"@, JsonView::Str("blocking"@))).push(
            ("iterations"@, count(b.session.iterations as nat)),
        ).push(
            (
                "termination_reason"@,
                optional_text(text::opt_view(b.session.termination_reason)),
            ),
        ),
    )
}

/// What hooks learn of a review that did not take place.
pub open spec fn skipped_payload(reason: Seq<char>) -> JsonView {
    JsonView::Object(
        json::fields().push(("ok"@, JsonView::Bool(true))).push(
            ("result"@, JsonView::Str("skipped"@)),
        ).push(("reason"@, JsonView::Str(reason))),
    )
}

/// One event.
pub open spec fn event(e: HookEvent, payload: JsonView) -> Seq<(HookEvent, JsonView)> {
    Seq::<(HookEvent, JsonView)>::empty().push((e, payload))
}

/// The event and those that precede it, if it took place.
pub open spec fn event_if(
    before: Seq<(HookEvent, JsonView)>,
    happened: bool,
    e: HookEvent,
    payload: JsonView,
) -> Seq<(HookEvent, JsonView)> {
    if happened {
        before.push((e, payload))
    } else {
        before
    }
}

/// The events of a review: that it is over, that there are genuine findings, and that it came
/// to an end of its own.
pub open spec fn review_events(result: VddResult) -> Seq<(HookEvent, JsonView)> {
    match result {
        VddResult::Advisory(a) => {
            let n = genuine(a.findings@, a.findings@.len() as int);
            event_if(
                event(HookEvent::PostAdversaryReview, advisory_payload(a)),
                n > 0,
                HookEvent::VddConflict,
                conflict_payload("advisory"@, n),
            )
        },
        VddResult::Blocking(b) => event_if(
            event_if(
                event(HookEvent::PostAdversaryReview, blocking_payload(b)),
                b.session.total_genuine > 0,
                HookEvent::VddConflict,
                conflict_payload("blocking"@, b.session.total_genuine as nat),
            ),
            b.session.converged,
            HookEvent::VddConverged,
            converged_payload(b),
        ),
        VddResult::Skipped(reason) => event(
            HookEvent::PostAdversaryReview,
            skipped_payload(reason@),
        ),
    }
}

/// What a list of events says.
pub open spec fn event_views(list: Seq<(HookEvent, Json)>) -> Seq<(HookEvent, JsonView)> {
    Seq::new(list.len(), |i: int| (list[i].0, list[i].1@))
}

fn push_event(list: &mut Vec<(HookEvent, Json)>, e: HookEvent, payload: Json)
    ensures
        event_views(final(list)@) == event_views(old(list)@).push((e, payload@)),
{
    let ghost before = event_views(list@);
    list.push((e, payload));
    assert(event_views(list@) =~= before.push((e, payload@)));
}

fn first_event(e: HookEvent, payload: Json) -> (list: Vec<(HookEvent, Json)>)
    ensures
        event_views(list@) == event(e, payload@),
{
    let mut list: Vec<(HookEvent, Json)> = Vec::new();
    assert(event_views(list@) =~= Seq::<(HookEvent, JsonView)>::empty());
    push_event(&mut list, e, payload);
    list
}

fn advisory_json(a: &VddAdvisoryResult) -> (j: Json)
    ensures
        j@ == advisory_payload(*a),
{
    let mut m = json::no_members();
    json::push_member(&mut m, "ok", json::truth(true));
    json::push_member(&mut m, "result", Json::string("advisory"));
    json::push_member(&mut m, "total_findings", Json::number(a.findings.len() as u64));
    json::push_member(
        &mut m,
        "genuine_findings",
        Json::number(count_genuine(&a.findings) as u64),
    );
    json::push_member(&mut m, "static_analysis_results", Json::number(a.static_analysis as u64));
    json::push_member(
        &mut m,
        "context_injection_bytes",
        Json::number(text::byte_len(a.context_injection.as_str()) as u64),
    );
    json::object(m)
}

fn blocking_json(b: &VddBlockingResult) -> (j: Json)
    ensures
        j@ == blocking_payload(*b),
{
    let mut m = json::no_members();
    json::push_member(&mut m, "ok", json::truth(true));
    json::push_member(&mut m, "result", Json::string("blocking"));
    json::push_member(&mut m, "iterations", Json::number(b.session.iterations as u64));
    json::push_member(&mut m, "total_findings", Json::number(b.session.total_findings as u64));
    json::push_member(&mut m, "genuine_findings", Json::number(b.session.total_genuine as u64));
    json::push_member(
        &mut m,
        "false_positives",
        Json::number(b.session.total_false_positives as u64),
    );
    json::push_member(&mut m, "converged", json::truth(b.session.converged));
    json::push_member(&mut m, "crosslink_issues", Json::number(b.crosslink_issues as u64));
    json::object(m)
}

fn conflict_json(result: &str, n: usize) -> (j: Json)
    ensures
        j@ == conflict_payload(result@, n as nat),
{
    let mut m = json::no_members();
    json::push_member(&mut m, "result", Json::string(result));
    json::push_member(&mut m, "genuine_findings", Json::number(n as u64));
    json::object(m)
}

fn optional_json(s: &Option<String>) -> (j: Json)
    ensures
        j@ == optional_text(text::opt_view(*s)),
{
    match s {
        Some(s) => Json::string(s.as_str()),
        None => Json::Null,
    }
}

fn converged_json(b: &VddBlockingResult) -> (j: Json)
    ensures
        j@ == converged_payload(*b),
{
    let mut m = json::no_members();
    json::push_member(&mut m, "result", Json::string("blocking"));
    json::push_member(&mut m, "iterations", Json::number(b.session.iterations as u64));
    json::push_member(
        &mut m,
        "termination_reason",
        optional_json(&b.session.termination_reason),
    );
    json::object(m)
}

fn skipped_json(reason: &str) -> (j: Json)
    ensures
        j@ == skipped_payload(reason@),
{
    let mut m = json::no_members();
    json::push_member(&mut m, "ok", json::truth(true));
    json::push_member(&mut m, "result", Json::string("skipped"));
    json::push_member(&mut m, "reason", Json::string(reason));
    json::object(m)
}

/// The events of a review, in the order in which hooks run on them.
pub fn vdd_result_hook_plan(result: &VddResult) -> (plan: Vec<(HookEvent, Json)>)
    ensures
        event_views(plan@) == review_events(*result),
{
    match result {
        VddResult::Advisory(a) => {
            let mut plan = first_event(HookEvent::PostAdversaryReview, advisory_json(a));
            let n: usize = count_genuine(&a.findings);
            if n > 0 {
                push_event(&mut plan, HookEvent::VddConflict, conflict_json("advisory", n));
            }
            plan
        },
        VddResult::Blocking(b) => {
            let mut plan = first_event(HookEvent::PostAdversaryReview, blocking_json(b));
            if b.session.total_genuine > 0 {
                push_event(
                    &mut plan,
                    HookEvent::VddConflict,
                    conflict_json("blocking", b.session.total_genuine),
                );
            }
            if b.session.converged {
                push_event(&mut plan, HookEvent::VddConverged, converged_json(b));
            }
            plan
        },
        VddResult::Skipped(reason) => first_event(
            HookEvent::PostAdversaryReview,
            skipped_json(reason.as_str()),
        ),
    }
}

/// Every review is reported over, first and once.
pub proof fn reviews_are_reported_over(result: VddResult)
    ensures
        review_events(result).len() >= 1,
        review_events(result)[0].0 == HookEvent::PostAdversaryReview,
        forall|i: int|
            0 < i < review_events(result).len() ==> (#[trigger] review_events(result)[i]).0
                != HookEvent::PostAdversaryReview,
{
}

/// What becomes of a reply that is to be reviewed.
#[derive(Debug)]
pub enum ReviewStart {
    /// It could not be read: the client gets an empty body.
    Empty,
    /// It is not JSON: the client gets it as it is.
    AsIs,
    /// It is reviewed. Hooks learn of it first.
    Review { reply: Json, payload: Json },
}

/// What hooks learn of a review that is about to begin.
pub open spec fn start_payload(mode: Seq<char>, bytes: nat) -> JsonView {
    JsonView::Object(
        json::fields().push(("mode"@, JsonView::Str(mode))).push(
            ("response_bytes"@, count(bytes)),
        ),
    )
}

/// What becomes of a reply, given what it says as JSON.
pub fn review_parsed(mode: &str, bytes: usize, parsed: Result<Json, String>) -> (r: ReviewStart)
    ensures
        match (r, parsed) {
            (ReviewStart::AsIs, Err(_)) => true,
            (ReviewStart::Review { reply, payload }, Ok(j)) => reply == j && payload@
                == start_payload(mode@, bytes as nat),
            _ => false,
        },
{
    match parsed {
        Err(_) => ReviewStart::AsIs,
        Ok(reply) => {
            let mut m = json::no_members();
            json::push_member(&mut m, "mode", Json::string(mode));
            json::push_member(&mut m, "response_bytes", Json::number(bytes as u64));
            ReviewStart::Review { reply, payload: json::object(m) }
        },
    }
}

/// What becomes of a reply, given its bytes, where they could be read.
pub fn begin_review(mode: &str, body: Option<&[u8]>) -> (r: ReviewStart)
    ensures
        match (r, body) {
            (ReviewStart::Empty, None) => true,
            (ReviewStart::AsIs, Some(bytes)) => json::parsed_bytes(bytes@) is Err,
            (ReviewStart::Review { reply, payload }, Some(bytes)) => json::parsed_bytes(bytes@)
                == Ok::<JsonView, Seq<char>>(reply@) && payload@ == start_payload(
                mode@,
                bytes@.len(),
            ),
            _ => false,
        },
{
    match body {
        None => ReviewStart::Empty,
        Some(bytes) => review_parsed(mode, bytes.len(), json::parse_bytes(bytes)),
    }
}

/// What a review leaves behind.
#[derive(Debug)]
pub struct ReviewOutcome {
    /// The events on which hooks run.
    pub events: Vec<(HookEvent, Json)>,
    /// What is put into the next request.
    pub advisory: Option<String>,
    /// The reply in place of the one that was reviewed.
    pub replacement: Option<Json>,
}

/// What hooks learn of a review that failed.
pub open spec fn failed_payload(error: Seq<char>) -> JsonView {
    JsonView::Object(
        json::fields().push(("ok"@, JsonView::Bool(false))).push(("error"@, JsonView::Str(error))),
    )
}

/// The events of a review that may have failed.
pub open spec fn outcome_events(result: Result<VddResult, String>) -> Seq<(HookEvent, JsonView)> {
    match result {
        Ok(result) => review_events(result),
        Err(e) => event(HookEvent::PostAdversaryReview, failed_payload(e@)),
    }
}

/// What a review puts into the next request.
pub open spec fn advisory_of(result: Result<VddResult, String>) -> Option<Seq<char>> {
    match result {
        Ok(VddResult::Advisory(a)) if a.context_injection@.len() > 0 => Some(
            a.context_injection@,
        ),
        _ => None,
    }
}

/// The reply in place of the one that was reviewed: only a review that blocks has one.
pub open spec fn replacement_of(result: Result<VddResult, String>) -> Option<JsonView> {
    match result {
        Ok(VddResult::Blocking(b)) => Some(b.final_response@),
        _ => None,
    }
}

/// What a review leaves behind. One that failed leaves the reply as it is.
pub fn apply_vdd_review(result: Result<VddResult, String>) -> (o: ReviewOutcome)
    ensures
        event_views(o.events@) == outcome_events(result),
        text::opt_view(o.advisory) == advisory_of(result),
        (match o.replacement {
            Some(j) => Some(j@),
            None => None,
        }) == replacement_of(result),
{
    match result {
        Err(e) => {
            let mut m = json::no_members();
            json::push_member(&mut m, "ok", json::truth(false));
            json::push_member(&mut m, "error", Json::string(e.as_str()));
            ReviewOutcome {
                events: first_event(HookEvent::PostAdversaryReview, json::object(m)),
                advisory: None,
                replacement: None,
            }
        },
        Ok(result) => {
            let events = vdd_result_hook_plan(&result);
            match result {
                VddResult::Advisory(a) => {
                    proof {
                        reveal_strlit("");
                        assert(a.context_injection@.len() == 0 ==> a.context_injection@ =~= ""@);
                    }
                    let advisory = if text::str_eq(a.context_injection.as_str(), "") {
                        None
                    } else {
                        Some(a.context_injection)
                    };
                    ReviewOutcome { events, advisory, replacement: None }
                },
                VddResult::Blocking(b) => ReviewOutcome {
                    events,
                    advisory: None,
                    replacement: Some(b.final_response),
                },
                VddResult::Skipped(_) => ReviewOutcome { events, advisory: None, replacement: None },
            }
        },
    }
}

/// What a hook on a review is told.
pub fn review_extras(provider: &str, model: &str, payload: Json) -> (extras: Vec<(String, Json)>)
    ensures
        json::members_view(extras@) == json::fields().push(
            ("provider"@, JsonView::Str(provider@)),
        ).push(("model"@, JsonView::Str(model@))).push(("payload"@, payload@)),
{
    let mut m = json::no_members();
    json::push_member(&mut m, "provider", Json::string(provider));
    json::push_member(&mut m, "model", Json::string(model));
    json::push_member(&mut m, "payload", payload);
    m
}

/// Each genuine finding counts once and no other counts.
pub proof fn every_genuine_finding_counts(a: Seq<FindingStatus>, f: FindingStatus)
    ensures
        genuine(seq![], 0) == 0,
        genuine(a.push(f), a.len() + 1int) == genuine(a, a.len() as int) + (if f is Genuine {
            1nat
        } else {
            0nat
        }),
{
    lemma_genuine_ahead(a.push(f), a, a.len() as int);
}

proof fn lemma_genuine_ahead(a: Seq<FindingStatus>, b: Seq<FindingStatus>, n: int)
    requires
        n <= a.len(),
        n <= b.len(),
        forall|i: int| 0 <= i < n ==> a[i] == b[i],
    ensures
        genuine(a, n) == genuine(b, n),
    decreases n,
{
    if n > 0 {
        lemma_genuine_ahead(a, b, n - 1);
    }
}

/// Hooks learn of every count of an advisory, and of a conflict if a finding is genuine, and
/// only then.
pub proof fn advisories_are_reported(a: VddAdvisoryResult)
    ensures
        ({
            let events = review_events(VddResult::Advisory(a));
            let n = genuine(a.findings@, a.findings@.len() as int);
            let told = events[0].1;
            &&& events[0].0 == HookEvent::PostAdversaryReview
            &&& json::says(told, "ok"@, JsonView::Bool(true))
            &&& json::says(told, "result"@, JsonView::Str("advisory"@))
            &&& json::says(told, "total_findings"@, count(a.findings@.len()))
            &&& json::says(told, "genuine_findings"@, count(n))
            &&& json::says(told, "static_analysis_results"@, count(a.static_analysis as nat))
            &&& json::says(
                told,
                "context_injection_bytes"@,
                count(text::utf8_len(a.context_injection@)),
            )
            &&& events.len() == (if n > 0 {
                2nat
            } else {
                1nat
            })
            &&& n > 0 ==> events[1].0 == HookEvent::VddConflict && json::says(
                events[1].1,
                "result"@,
                JsonView::Str("advisory"@),
            ) && json::says(events[1].1, "genuine_findings"@, count(n))
        }),
{
    let told = advisory_payload(a);
    let m = told->Object_0;
    let n = genuine(a.findings@, a.findings@.len() as int);
    assert(m[0].0 == "ok"@ && m[1].0 == "result"@ && m[2].0 == "total_findings"@);
    assert(m[3].0 == "genuine_findings"@ && m[4].0 == "static_analysis_results"@);
    assert(m[5].0 == "context_injection_bytes"@);
    let c = conflict_payload("advisory"@, n)->Object_0;
    assert(c[0].0 == "result"@ && c[1].0 == "genuine_findings"@);
}

/// Hooks learn of every count of a review that blocks, of a conflict if a finding is genuine,
/// and last that the review converged if it did.
pub proof fn blocking_reviews_are_reported(b: VddBlockingResult)
    ensures
        ({
            let events = review_events(VddResult::Blocking(b));
            let told = events[0].1;
            &&& events[0].0 == HookEvent::PostAdversaryReview
            &&& json::says(told, "ok"@, JsonView::Bool(true))
            &&& json::says(told, "result"@, JsonView::Str("blocking"@))
            &&& json::says(told, "iterations"@, count(b.session.iterations as nat))
            &&& json::says(told, "total_findings"@, count(b.session.total_findings as nat))
            &&& json::says(told, "genuine_findings"@, count(b.session.total_genuine as nat))
            &&& json::says(
                told,
                "false_positives"@,
                count(b.session.total_false_positives as nat),
            )
            &&& json::says(told, "converged"@, JsonView::Bool(b.session.converged))
            &&& json::says(told, "crosslink_issues"@, count(b.crosslink_issues as nat))
            &&& (exists|i: int|
                0 <= i < events.len() && (#[trigger] events[i]).0 == HookEvent::VddConflict)
                <==> b.session.total_genuine > 0
            &&& b.session.total_genuine > 0 ==> events[1].0 == HookEvent::VddConflict
                && json::says(
                events[1].1,
                "genuine_findings"@,
                count(b.session.total_genuine as nat),
            ) && json::says(events[1].1, "result"@, JsonView::Str("blocking"@))
            &&& (exists|i: int|
                0 <= i < events.len() && (#[trigger] events[i]).0 == HookEvent::VddConverged)
                <==> b.session.converged
            &&& b.session.converged ==> events.last().0 == HookEvent::VddConverged && json::says(
                events.last().1,
                "iterations"@,
                count(b.session.iterations as nat),
            ) && (b.session.termination_reason matches Some(reason) ==> json::says(
                events.last().1,
                "termination_reason"@,
                JsonView::Str(reason@),
            ))
        }),
{
    let events = review_events(VddResult::Blocking(b));
    let m = blocking_payload(b)->Object_0;
    assert(m[0].0 == "ok"@ && m[1].0 == "result"@ && m[2].0 == "iterations"@);
    assert(m[3].0 == "total_findings"@ && m[4].0 == "genuine_findings"@);
    assert(m[5].0 == "false_positives"@ && m[6].0 == "converged"@);
    assert(m[7].0 == "crosslink_issues"@);
    let c = conflict_payload("blocking"@, b.session.total_genuine as nat)->Object_0;
    assert(c[0].0 == "result"@ && c[1].0 == "genuine_findings"@);
    let d = converged_payload(b)->Object_0;
    assert(d[0].0 == "result"@ && d[1].0 == "iterations"@ && d[2].0 == "termination_reason"@);
    if b.session.total_genuine > 0 {
        assert(events[1].0 == HookEvent::VddConflict);
    }
    if b.session.converged {
        assert(events[events.len() - 1].0 == HookEvent::VddConverged);
    }
}

/// Hooks learn why there was no review, and why one failed; neither changes the reply nor
/// leaves an advisory.
pub proof fn missing_reviews_are_reported(reason: String, error: String)
    ensures
        review_events(VddResult::Skipped(reason)).len() == 1,
        review_events(VddResult::Skipped(reason))[0].0 == HookEvent::PostAdversaryReview,
        json::says(
            review_events(VddResult::Skipped(reason))[0].1,
            "reason"@,
            JsonView::Str(reason@),
        ),
        json::says(
            review_events(VddResult::Skipped(reason))[0].1,
            "ok"@,
            JsonView::Bool(true),
        ),
        outcome_events(Err(error)).len() == 1,
        outcome_events(Err(error))[0].0 == HookEvent::PostAdversaryReview,
        json::says(outcome_events(Err(error))[0].1, "ok"@, JsonView::Bool(false)),
        json::says(outcome_events(Err(error))[0].1, "error"@, JsonView::Str(error@)),
        replacement_of(Err(error)) is None,
        advisory_of(Err(error)) is None,
        replacement_of(Ok(VddResult::Skipped(reason))) is None,
        advisory_of(Ok(VddResult::Skipped(reason))) is None,
{
    let m = skipped_payload(reason@)->Object_0;
    assert(m[0].0 == "ok"@ && m[1].0 == "result"@ && m[2].0 == "reason"@);
    let f = failed_payload(error@)->Object_0;
    assert(f[0].0 == "ok"@ && f[1].0 == "error"@);
}

/// A review that blocks replaces the reply and leaves no advisory; one that advises leaves its
/// text for the next request, if it has any, and the reply as it is.
pub proof fn reviews_replace_or_advise(a: VddAdvisoryResult, b: VddBlockingResult)
    ensures
        replacement_of(Ok(VddResult::Blocking(b))) == Some(b.final_response@),
        advisory_of(Ok(VddResult::Blocking(b))) is None,
        replacement_of(Ok(VddResult::Advisory(a))) is None,
        a.context_injection@.len() > 0 ==> advisory_of(Ok(VddResult::Advisory(a))) == Some(
            a.context_injection@,
        ),
        a.context_injection@.len() == 0 ==> advisory_of(Ok(VddResult::Advisory(a))) is None,
{
}

} // verus!
