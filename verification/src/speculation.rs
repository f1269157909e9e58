//! Speculation: guessing the next tool call of a model before the model makes it.
//!
//! An engine is shown the last messages of a conversation and may predict a call. Later it
//! learns what happened. Shares such as a confidence are given in thousandths.

use std::sync::Arc;

use vstd::prelude::*;

use crate::json;
use crate::json::{Json, JsonView};
use crate::text;

verus! {

/// The bytes of a message that an engine is shown.
pub const CONTENT_PREFIX_BYTES: usize = 256;

/// The id that stands for no prediction.
pub const NO_PREDICTION: &'static str = "__no_prediction__";

/// Identifier of a prediction. The engine assigns it.
#[derive(Debug, Clone, PartialEq, Eq, Hash)]
pub struct PredictionId(String);

impl View for PredictionId {
    type V = Seq<char>;

    closed spec fn view(&self) -> Seq<char> {
        self.0@
    }
}

impl PredictionId {
    /// The identifier with the given text.
    pub fn new(raw: String) -> (id: PredictionId)
        ensures
            id@ == raw@,
    {
        PredictionId(raw)
    }

    /// The text of the identifier.
    pub fn as_str(&self) -> (s: &str)
        ensures
            s@ == self@,
    {
        self.0.as_str()
    }

    /// A copy of the text of the identifier.
    pub fn to_string(&self) -> (s: String)
        ensures
            s@ == self@,
    {
        self.0.clone()
    }

    /// A copy of the identifier.
    pub fn copy(&self) -> (id: PredictionId)
        ensures
            id@ == self@,
    {
        PredictionId(self.0.clone())
    }
}

/// What an engine is shown of a message.
#[derive(Clone, Debug, PartialEq, Eq)]
pub struct MessageSummary {
    /// Who the message is from.
    pub role: String,
    /// The start of its text.
    pub content_prefix: String,
    /// The tool that it calls first, if it calls any.
    pub tool_name: Option<String>,
}

/// What a message summary says.
#[verifier::ext_equal]
pub struct SummaryView {
    pub role: Seq<char>,
    pub content_prefix: Seq<char>,
    pub tool_name: Option<Seq<char>>,
}

impl View for MessageSummary {
    type V = SummaryView;

    open spec fn view(&self) -> SummaryView {
        SummaryView {
            role: self.role@,
            content_prefix: self.content_prefix@,
            tool_name: text::opt_view(self.tool_name),
        }
    }
}

/// What a list of message summaries says.
pub open spec fn summary_views(list: Seq<MessageSummary>) -> Seq<SummaryView> {
    Seq::new(list.len(), |i: int| list[i]@)
}

/// What an engine is shown at the start of a turn.
#[derive(Clone, Debug, PartialEq, Eq)]
pub struct SpeculationHint {
    /// The last messages of the conversation, the most recent last.
    pub recent_messages: Vec<MessageSummary>,
    /// Tool calls that are already on their way.
    pub pending_tool_names: Vec<String>,
}

/// A tool call that an engine expects.
#[derive(Clone, Debug, PartialEq, Eq)]
pub struct SpeculationPrediction {
    /// Identifier that the engine assigned.
    pub id: PredictionId,
    /// The tool.
    pub tool_name: String,
    /// The arguments, as far as they can be guessed.
    pub predicted_args: Json,
    /// How confident the engine is, in thousandths.
    pub confidence: u32,
}

/// How a prediction compares with what happened.
#[derive(Debug, Clone, Copy, PartialEq, Eq, Structural)]
pub enum PredictionOutcome {
    /// The call was made.
    Hit,
    /// The tool was called with other arguments.
    PartialMiss,
    /// Another tool was called.
    Miss,
    /// No tool was called, or nothing was predicted.
    NoToolCall,
}

/// What happened in a turn.
#[derive(Clone, Debug, PartialEq, Eq)]
pub struct ActualOutcome {
    /// The prediction that it is about.
    pub prediction_id: PredictionId,
    /// How the prediction compares.
    pub outcome: PredictionOutcome,
    /// The tool that was called first, if any was.
    pub actual_tool_name: Option<String>,
}

/// What an outcome says.
#[verifier::ext_equal]
pub struct OutcomeView {
    pub prediction_id: Seq<char>,
    pub outcome: PredictionOutcome,
    pub actual_tool_name: Option<Seq<char>>,
}

impl View for ActualOutcome {
    type V = OutcomeView;

    open spec fn view(&self) -> OutcomeView {
        OutcomeView {
            prediction_id: self.prediction_id@,
            outcome: self.outcome,
            actual_tool_name: text::opt_view(self.actual_tool_name),
        }
    }
}

/// Configuration of an engine.
#[derive(Debug, Clone, Copy)]
pub struct SpeculationConfig {
    /// Whether the engine is consulted at all.
    pub enabled: bool,
    /// The least confidence on which a prediction is acted, in thousandths.
    pub confidence_threshold: u32,
    /// How many recent messages an engine is shown.
    pub context_depth: usize,
    /// How many predictions are run at a time.
    pub max_concurrent: usize,
}

impl Default for SpeculationConfig {
    fn default() -> (c: SpeculationConfig)
        ensures
            !c.enabled,
            c.confidence_threshold == 700,
            c.context_depth == 6,
            c.max_concurrent == 2,
    {
        SpeculationConfig {
            enabled: false,
            confidence_threshold: 700,
            context_depth: 6,
            max_concurrent: 2,
        }
    }
}

/// An engine that predicts tool calls.
pub trait SpeculationEngine: Send + Sync + 'static {
    /// The tool call that is expected next, if any is.
    fn predict(&self, hint: &SpeculationHint) -> Option<SpeculationPrediction>;

    /// Learns what happened in a turn.
    fn submit_result(&self, outcome: &ActualOutcome);

    /// Whether a predicted call is being run.
    fn has_pending(&self) -> bool;

    /// The name of the engine.
    fn name(&self) -> &'static str;

    /// The share of predictions that came true, in thousandths, once there are any.
    fn hit_rate(&self) -> Option<u32>;
}

/// An engine that predicts nothing.
#[derive(Clone, Copy, Debug, Default)]
pub struct NoOpSpeculationEngine;

impl SpeculationEngine for NoOpSpeculationEngine {
    fn predict(&self, hint: &SpeculationHint) -> (p: Option<SpeculationPrediction>)
        ensures
            p is None,
    {
        None
    }

    fn submit_result(&self, outcome: &ActualOutcome) {
    }

    fn has_pending(&self) -> (b: bool)
        ensures
            !b,
    {
        false
    }

    fn name(&self) -> (name: &'static str)
        ensures
            name@ == "no-op"@,
    {
        "no-op"
    }

    fn hit_rate(&self) -> (r: Option<u32>)
        ensures
            r is None,
    {
        None
    }
}

/// The engine for a configuration. Whether it is enabled or not, this is the one that
/// predicts nothing: there is no other yet.
pub fn build_engine(cfg: &SpeculationConfig) -> (engine: Arc<NoOpSpeculationEngine>)
    ensures
        *engine == NoOpSpeculationEngine,
{
    Arc::new(NoOpSpeculationEngine)
}

/// The tool that a message calls first.
pub open spec fn first_tool(message: JsonView) -> Option<Seq<char>> {
    match json::member(message, "tool_calls"@) {
        Some(JsonView::Array(calls)) if calls.len() > 0 => json::str_opt(
            json::member_opt(json::member(calls[0], "function"@), "name"@),
        ),
        _ => None,
    }
}

/// What an engine is shown of a message.
pub open spec fn summary_of(message: JsonView) -> SummaryView {
    SummaryView {
        role: match json::str_opt(json::member(message, "role"@)) {
            Some(role) => role,
            None => "unknown"@,
        },
        content_prefix: match json::str_opt(json::member(message, "content"@)) {
            Some(content) => text::clipped(content, CONTENT_PREFIX_BYTES as nat),
            None => seq![],
        },
        tool_name: first_tool(message),
    }
}

/// The messages that an engine is shown: the last ones, as many as it is configured for.
pub open spec fn shown(messages: Seq<JsonView>, depth: nat) -> Seq<SummaryView> {
    let last = if messages.len() <= depth {
        messages
    } else {
        messages.skip(messages.len() - depth)
    };
    Seq::new(last.len(), |i: int| summary_of(last[i]))
}

fn tool_called_first(message: &Json) -> (name: Option<String>)
    ensures
        text::opt_view(name) == first_tool(message@),
{
    match message.get("tool_calls") {
        Some(Json::Array(calls)) => {
            if calls.len() == 0 {
                return None;
            }
            proof {
                json::lemma_items_view(calls@);
                assert(json::items_view(calls@)[0] == calls@[0]@);
            }
            match calls[0].get("function") {
                Some(function) => match function.get_str("name") {
                    Some(name) => Some(name.to_owned()),
                    None => None,
                },
                None => None,
            }
        },
        _ => None,
    }
}

fn summarise(message: &Json) -> (s: MessageSummary)
    ensures
        s@ == summary_of(message@),
{
    let role = match message.get_str("role") {
        Some(role) => role.to_owned(),
        None => "unknown".to_owned(),
    };
    let content_prefix = match message.get_str("content") {
        Some(content) => text::clip(content, CONTENT_PREFIX_BYTES),
        None => {
            let none = String::new();
            assert(none@ =~= seq![]);
            none
        },
    };
    MessageSummary { role, content_prefix, tool_name: tool_called_first(message) }
}

/// What an engine is shown of a conversation: the last `depth` messages.
pub fn build_hint_from_messages(messages: &Vec<Json>, depth: usize) -> (hint: SpeculationHint)
    ensures
        summary_views(hint.recent_messages@) == shown(json::items_view(messages@), depth as nat),
        hint.pending_tool_names@.len() == 0,
{
    let n: usize = messages.len();
    let start: usize = if n <= depth {
        0
    } else {
        n - depth
    };
    let ghost v = json::items_view(messages@);
    let ghost all = shown(v, depth as nat);
    proof {
        json::lemma_items_view(messages@);
    }
    let mut recent_messages: Vec<MessageSummary> = Vec::new();
    let mut i: usize = start;
    while i < n
        invariant
            start <= i <= n,
            n == messages@.len(),
            v.len() == n,
            start == (if n <= depth {
                0
            } else {
                n - depth
            }),
            all == shown(v, depth as nat),
            all.len() == n - start,
            forall|j: int|
                0 <= j < messages@.len() ==> #[trigger] v[j] == json::value_view(messages@[j]),
            summary_views(recent_messages@) =~= all.take(i - start),
        decreases n - i,
    {
        let ghost before = summary_views(recent_messages@);
        let summary = summarise(&messages[i]);
        proof {
            assert(v[i as int] == messages@[i as int]@);
            assert(all[i - start] == summary_of(v[i as int]));
        }
        recent_messages.push(summary);
        assert(summary_views(recent_messages@) =~= before.push(summary@));
        i += 1;
    }
    assert(all.take(n - start) =~= all);
    SpeculationHint { recent_messages, pending_tool_names: Vec::new() }
}

/// An engine is shown no more messages than it is configured for, and of each no more bytes
/// than the cap allows.
pub proof fn hints_are_bounded(messages: Seq<JsonView>, depth: nat, i: int)
    requires
        0 <= i < shown(messages, depth).len(),
    ensures
        shown(messages, depth).len() <= depth,
        shown(messages, depth).len() <= messages.len(),
        text::utf8_len(shown(messages, depth)[i].content_prefix) <= CONTENT_PREFIX_BYTES,
{
    let last = if messages.len() <= depth {
        messages
    } else {
        messages.skip(messages.len() - depth)
    };
    if let Some(content) = json::str_opt(json::member(last[i], "content"@)) {
        text::lemma_clip_fits(content, CONTENT_PREFIX_BYTES as nat);
    }
}

/// How a prediction compares with the tools that were called.
pub open spec fn compared(predicted: Option<Seq<char>>, called: Seq<Seq<char>>) -> PredictionOutcome {
    match predicted {
        Some(tool) if called.len() > 0 => if called.contains(tool) {
            PredictionOutcome::Hit
        } else {
            PredictionOutcome::Miss
        },
        _ => PredictionOutcome::NoToolCall,
    }
}

/// The first of some texts.
pub open spec fn first_text(list: Seq<Seq<char>>) -> Option<Seq<char>> {
    if list.len() == 0 {
        None
    } else {
        Some(list[0])
    }
}

/// What an engine is told of a turn, given its prediction and the tools that were called.
pub open spec fn outcome_of(
    prediction: Option<SpeculationPrediction>,
    called: Seq<Seq<char>>,
) -> OutcomeView {
    match prediction {
        Some(p) => OutcomeView {
            prediction_id: p.id@,
            outcome: compared(Some(p.tool_name@), called),
            actual_tool_name: first_text(called),
        },
        None => OutcomeView {
            prediction_id: NO_PREDICTION@,
            outcome: PredictionOutcome::NoToolCall,
            actual_tool_name: first_text(called),
        },
    }
}

/// What an engine is told of a turn, given its prediction and the tools that were called.
pub fn turn_outcome(prediction: &Option<SpeculationPrediction>, called: &Vec<String>) -> (o:
    ActualOutcome)
    ensures
        o@ == outcome_of(*prediction, text::views(called@)),
{
    let actual_tool_name = if called.len() > 0 {
        assert(text::views(called@)[0] == called@[0]@);
        Some(called[0].clone())
    } else {
        None
    };
    match prediction {
        Some(p) => {
            let outcome = if called.len() == 0 {
                PredictionOutcome::NoToolCall
            } else if text::contains(called, p.tool_name.as_str()) {
                PredictionOutcome::Hit
            } else {
                PredictionOutcome::Miss
            };
            ActualOutcome { prediction_id: p.id.copy(), outcome, actual_tool_name }
        },
        None => ActualOutcome {
            prediction_id: PredictionId::new(NO_PREDICTION.to_owned()),
            outcome: PredictionOutcome::NoToolCall,
            actual_tool_name,
        },
    }
}

/// Asks an engine for its prediction after a turn, and tells it what happened. Returns what
/// it was told. An engine that is not enabled is neither asked nor told.
pub fn after_turn<E: SpeculationEngine>(
    engine: &E,
    messages: &Vec<Json>,
    tool_names_called: &Vec<String>,
    config: &SpeculationConfig,
) -> (told: Option<ActualOutcome>)
    ensures
        told is Some == config.enabled,
        told matches Some(o) ==> exists|
            hint: SpeculationHint,
            prediction: Option<SpeculationPrediction>,
        | #[trigger]
            call_ensures(E::predict, (engine, &hint), prediction) && summary_views(
                hint.recent_messages@,
            ) == shown(json::items_view(messages@), config.context_depth as nat)
                && hint.pending_tool_names@.len() == 0 && o@ == outcome_of(
                prediction,
                text::views(tool_names_called@),
            ),
        told matches Some(o) ==> call_ensures(E::submit_result, (engine, &o), ()),
        told matches Some(o) ==> {
            &&& o@.actual_tool_name == first_text(text::views(tool_names_called@))
            &&& tool_names_called@.len() == 0 ==> o@.outcome == PredictionOutcome::NoToolCall
            &&& o@.outcome != PredictionOutcome::PartialMiss
        },
{
    if !config.enabled {
        return None;
    }
    let hint = build_hint_from_messages(messages, config.context_depth);
    let prediction = engine.predict(&hint);
    assert(call_ensures(E::predict, (engine, &hint), prediction));
    let outcome = turn_outcome(&prediction, tool_names_called);
    engine.submit_result(&outcome);
    Some(outcome)
}

/// An engine is shown the last messages, as many as it may see, in their order: who each is
/// from, the start of its text and the tool that it calls first.
pub proof fn the_last_messages_are_shown(messages: Seq<JsonView>, depth: nat, i: int)
    requires
        0 <= i < messages.len(),
        i < depth,
    ensures
        shown(messages, depth).len() == (if messages.len() <= depth {
            messages.len()
        } else {
            depth
        }),
        shown(messages, depth)[shown(messages, depth).len() - 1 - i] == summary_of(
            messages[messages.len() - 1 - i],
        ),
{
}

/// A summary tells the role and the start of the text: all of a short one, and of a long one as
/// much as fits.
pub proof fn summaries_tell_role_and_text(message: JsonView, role: Seq<char>, content: Seq<char>)
    ensures
        json::member(message, "role"@) == Some(JsonView::Str(role)) ==> summary_of(message).role
            == role,
        json::member(message, "role"@) is None ==> summary_of(message).role == "unknown"@,
        json::member(message, "content"@) == Some(JsonView::Str(content)) ==> summary_of(
            message,
        ).content_prefix.is_prefix_of(content) && (text::utf8_len(content) <= 256 ==> summary_of(
            message,
        ).content_prefix == content) && text::utf8_len(summary_of(message).content_prefix) <= 256,
        json::member(message, "content"@) is None ==> summary_of(message).content_prefix.len()
            == 0,
{
    text::lemma_clip_fits(content, 256);
    if text::utf8_len(content) <= 256 {
        assert(content.take(content.len() as int) =~= content);
        text::lemma_clipped(content, 256, content.len() as int);
    }
}

/// A summary tells the first of the tools that the message calls, and none where it calls none.
pub proof fn summaries_tell_the_first_tool(
    message: JsonView,
    calls: Seq<JsonView>,
    function: JsonView,
    name: Seq<char>,
)
    ensures
        json::member(message, "tool_calls"@) == Some(JsonView::Array(calls)) && calls.len() > 0
            && json::member(calls[0], "function"@) == Some(function) && json::member(
            function,
            "name"@,
        ) == Some(JsonView::Str(name)) ==> summary_of(message).tool_name == Some(name),
        json::member(message, "tool_calls"@) is None ==> summary_of(message).tool_name is None,
        json::member(message, "tool_calls"@) == Some(JsonView::Array(calls)) && calls.len() == 0
            ==> summary_of(message).tool_name is None,
{
}

/// A prediction has come true if its tool is among those that were called, wherever it stands
/// among them, and has not if others were called; where nothing was predicted or nothing
/// called there is nothing to compare.
pub proof fn predictions_are_compared(
    p: SpeculationPrediction,
    called: Seq<Seq<char>>,
    i: int,
)
    requires
        0 <= i < called.len(),
    ensures
        called[i] == p.tool_name@ ==> outcome_of(Some(p), called).outcome == PredictionOutcome::Hit,
        (forall|k: int| 0 <= k < called.len() ==> #[trigger] called[k] != p.tool_name@)
            ==> outcome_of(Some(p), called).outcome == PredictionOutcome::Miss,
        outcome_of(Some(p), called).prediction_id == p.id@,
        outcome_of(Some(p), called).actual_tool_name == Some(called[0]),
        outcome_of(Some(p), seq![]).outcome == PredictionOutcome::NoToolCall,
        outcome_of(Some(p), seq![]).actual_tool_name is None,
        outcome_of(None, called).outcome == PredictionOutcome::NoToolCall,
        outcome_of(None, called).actual_tool_name == Some(called[0]),
        outcome_of(None, called).prediction_id == "__no_prediction__"@,
{
}

} // verus!
