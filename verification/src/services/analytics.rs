//! Analytics sink: where lifecycle and usage events get recorded.

use vstd::prelude::*;

use crate::text;

verus! {

/// Structured events.
#[derive(Clone, Debug, PartialEq, Eq)]
pub enum AnalyticsEvent {
    /// A new session started.
    SessionStart { session_id: String },
    /// A session ended, with its count of messages.
    SessionEnd { session_id: String, messages: usize },
    /// A tool ran.
    ToolUsed { tool: String, success: bool },
    /// A prompt was submitted. The length of its text, not the text.
    PromptSubmitted { prompt_chars: usize },
    /// Context was compacted.
    ContextCompacted { trigger: &'static str, tokens_freed: usize },
    /// A request was sent to the provider.
    ApiRequest { provider: String, model: String },
    /// A thinking burst happened, with its budget.
    ThinkingEmitted { budget: u32 },
}

/// Sink of events. Implementors decide what to do with them.
pub trait AnalyticsSink: Send + Sync {
    /// Record a single event. Must not panic.
    fn record(&self, event: AnalyticsEvent);
}

/// Discards every event.
pub struct NoopAnalytics;

impl AnalyticsSink for NoopAnalytics {
    fn record(&self, event: AnalyticsEvent) {
    }
}

/// A value in a log record.
#[derive(Debug, PartialEq, Eq)]
pub enum LogValue {
    Text(String),
    Count(u64),
    Flag(bool),
}

/// An event as it is logged: its name, then its fields.
#[derive(Debug, PartialEq, Eq)]
pub struct LogRecord {
    pub event: &'static str,
    pub fields: Vec<(&'static str, LogValue)>,
}

/// What a value in a log record says.
pub enum LogValueView {
    Text(Seq<char>),
    Count(nat),
    Flag(bool),
}

impl View for LogValue {
    type V = LogValueView;

    open spec fn view(&self) -> LogValueView {
        match self {
            LogValue::Text(s) => LogValueView::Text(s@),
            LogValue::Count(n) => LogValueView::Count(*n as nat),
            LogValue::Flag(b) => LogValueView::Flag(*b),
        }
    }
}

/// What the fields of a log record say.
pub open spec fn fields_view(fields: Seq<(&'static str, LogValue)>) -> Seq<
    (Seq<char>, LogValueView),
> {
    Seq::new(fields.len(), |i: int| (fields[i].0@, fields[i].1@))
}

/// The name under which an event is logged.
pub open spec fn event_name(event: AnalyticsEvent) -> Seq<char> {
    match event {
        AnalyticsEvent::SessionStart { .. } => "session_start"@,
        AnalyticsEvent::SessionEnd { .. } => "session_end"@,
        AnalyticsEvent::ToolUsed { .. } => "tool_used"@,
        AnalyticsEvent::PromptSubmitted { .. } => "prompt_submitted"@,
        AnalyticsEvent::ContextCompacted { .. } => "context_compacted"@,
        AnalyticsEvent::ApiRequest { .. } => "api_request"@,
        AnalyticsEvent::ThinkingEmitted { .. } => "thinking_emitted"@,
    }
}

/// The fields with which an event is logged.
pub open spec fn event_fields(event: AnalyticsEvent) -> Seq<(Seq<char>, LogValueView)> {
    match event {
        AnalyticsEvent::SessionStart { session_id } => seq![
            ("session_id"@, LogValueView::Text(session_id@)),
        ],
        AnalyticsEvent::SessionEnd { session_id, messages } => seq![
            ("session_id"@, LogValueView::Text(session_id@)),
            ("messages"@, LogValueView::Count(messages as nat)),
        ],
        AnalyticsEvent::ToolUsed { tool, success } => seq![
            ("tool"@, LogValueView::Text(tool@)),
            ("success"@, LogValueView::Flag(success)),
        ],
        AnalyticsEvent::PromptSubmitted { prompt_chars } => seq![
            ("prompt_chars"@, LogValueView::Count(prompt_chars as nat)),
        ],
        AnalyticsEvent::ContextCompacted { trigger, tokens_freed } => seq![
            ("trigger"@, LogValueView::Text(trigger@)),
            ("tokens_freed"@, LogValueView::Count(tokens_freed as nat)),
        ],
        AnalyticsEvent::ApiRequest { provider, model } => seq![
            ("provider"@, LogValueView::Text(provider@)),
            ("model"@, LogValueView::Text(model@)),
        ],
        AnalyticsEvent::ThinkingEmitted { budget } => seq![
            ("budget"@, LogValueView::Count(budget as nat)),
        ],
    }
}

/// Turns events into log records under a stable target, so that operators can filter
/// them.
pub struct TracingAnalytics;

/// The target under which events are logged.
pub const ANALYTICS_TARGET: &'static str = "openclaudia::analytics";

impl TracingAnalytics {
    /// The log record of an event.
    pub fn log_record(&self, event: &AnalyticsEvent) -> (r: LogRecord)
        ensures
            r.event@ == event_name(*event),
            fields_view(r.fields@) == event_fields(*event),
    {
        let r = match event {
            AnalyticsEvent::SessionStart { session_id } => LogRecord {
                event: "session_start",
                fields: vec![("session_id", LogValue::Text(session_id.clone()))],
            },
            AnalyticsEvent::SessionEnd { session_id, messages } => LogRecord {
                event: "session_end",
                fields: vec![
                    ("session_id", LogValue::Text(session_id.clone())),
                    ("messages", LogValue::Count(*messages as u64)),
                ],
            },
            AnalyticsEvent::ToolUsed { tool, success } => LogRecord {
                event: "tool_used",
                fields: vec![
                    ("tool", LogValue::Text(tool.clone())),
                    ("success", LogValue::Flag(*success)),
                ],
            },
            AnalyticsEvent::PromptSubmitted { prompt_chars } => LogRecord {
                event: "prompt_submitted",
                fields: vec![("prompt_chars", LogValue::Count(*prompt_chars as u64))],
            },
            AnalyticsEvent::ContextCompacted { trigger, tokens_freed } => LogRecord {
                event: "context_compacted",
                fields: vec![
                    ("trigger", LogValue::Text((*trigger).to_owned())),
                    ("tokens_freed", LogValue::Count(*tokens_freed as u64)),
                ],
            },
            AnalyticsEvent::ApiRequest { provider, model } => LogRecord {
                event: "api_request",
                fields: vec![
                    ("provider", LogValue::Text(provider.clone())),
                    ("model", LogValue::Text(model.clone())),
                ],
            },
            AnalyticsEvent::ThinkingEmitted { budget } => LogRecord {
                event: "thinking_emitted",
                fields: vec![("budget", LogValue::Count(*budget as u64))],
            },
        };
        assert(fields_view(r.fields@) =~= event_fields(*event));
        r
    }
}

/// Each event is recorded with all that it tells.
pub proof fn events_tell_their_fields(
    session_id: String,
    tool: String,
    trigger: &'static str,
    provider: String,
    model: String,
    n: usize,
    budget: u32,
    success: bool,
)
    ensures
        event_fields(AnalyticsEvent::SessionStart { session_id }).contains(
            ("session_id"@, LogValueView::Text(session_id@)),
        ),
        event_fields(AnalyticsEvent::SessionEnd { session_id, messages: n }).contains(
            ("session_id"@, LogValueView::Text(session_id@)),
        ),
        event_fields(AnalyticsEvent::SessionEnd { session_id, messages: n }).contains(
            ("messages"@, LogValueView::Count(n as nat)),
        ),
        event_fields(AnalyticsEvent::ToolUsed { tool, success }).contains(
            ("tool"@, LogValueView::Text(tool@)),
        ),
        event_fields(AnalyticsEvent::ToolUsed { tool, success }).contains(
            ("success"@, LogValueView::Flag(success)),
        ),
        event_fields(AnalyticsEvent::PromptSubmitted { prompt_chars: n }).contains(
            ("prompt_chars"@, LogValueView::Count(n as nat)),
        ),
        event_fields(AnalyticsEvent::ContextCompacted { trigger, tokens_freed: n }).contains(
            ("trigger"@, LogValueView::Text(trigger@)),
        ),
        event_fields(AnalyticsEvent::ContextCompacted { trigger, tokens_freed: n }).contains(
            ("tokens_freed"@, LogValueView::Count(n as nat)),
        ),
        event_fields(AnalyticsEvent::ApiRequest { provider, model }).contains(
            ("provider"@, LogValueView::Text(provider@)),
        ),
        event_fields(AnalyticsEvent::ApiRequest { provider, model }).contains(
            ("model"@, LogValueView::Text(model@)),
        ),
        event_fields(AnalyticsEvent::ThinkingEmitted { budget }).contains(
            ("budget"@, LogValueView::Count(budget as nat)),
        ),
{
    let start = event_fields(AnalyticsEvent::SessionStart { session_id });
    let end = event_fields(AnalyticsEvent::SessionEnd { session_id, messages: n });
    let used = event_fields(AnalyticsEvent::ToolUsed { tool, success });
    let prompt = event_fields(AnalyticsEvent::PromptSubmitted { prompt_chars: n });
    let compacted = event_fields(AnalyticsEvent::ContextCompacted { trigger, tokens_freed: n });
    let request = event_fields(AnalyticsEvent::ApiRequest { provider, model });
    let thinking = event_fields(AnalyticsEvent::ThinkingEmitted { budget });
    assert(start[0].0 == "session_id"@);
    assert(end[0].0 == "session_id"@ && end[1].0 == "messages"@);
    assert(used[0].0 == "tool"@ && used[1].0 == "success"@);
    assert(prompt[0].0 == "prompt_chars"@);
    assert(compacted[0].0 == "trigger"@ && compacted[1].0 == "tokens_freed"@);
    assert(request[0].0 == "provider"@ && request[1].0 == "model"@);
    assert(thinking[0].0 == "budget"@);
}

/// Events of different kinds have different names.
pub proof fn event_names_differ(a: AnalyticsEvent, b: AnalyticsEvent)
    requires
        event_name(a) == event_name(b),
    ensures
        a is SessionStart <==> b is SessionStart,
        a is SessionEnd <==> b is SessionEnd,
        a is ToolUsed <==> b is ToolUsed,
        a is PromptSubmitted <==> b is PromptSubmitted,
        a is ContextCompacted <==> b is ContextCompacted,
        a is ApiRequest <==> b is ApiRequest,
        a is ThinkingEmitted <==> b is ThinkingEmitted,
{
    reveal_strlit("session_start");
    reveal_strlit("session_end");
    reveal_strlit("tool_used");
    reveal_strlit("prompt_submitted");
    reveal_strlit("context_compacted");
    reveal_strlit("api_request");
    reveal_strlit("thinking_emitted");
    assert("session_start"@.len() == 13 && "session_end"@.len() == 11);
    assert("tool_used"@.len() == 9 && "context_compacted"@.len() == 17);
    assert("prompt_submitted"@.len() == 16 && "prompt_submitted"@[0] == 'p');
    assert("thinking_emitted"@.len() == 16 && "thinking_emitted"@[0] == 't');
    assert("api_request"@.len() == 11 && "api_request"@[0] == 'a');
    assert("session_end"@[0] == 's');
}

} // verus!
