//! Token usage in the replies of providers.

use vstd::prelude::*;

use crate::json;
use crate::json::{Json, JsonView};
use crate::session::state::TokenUsage;

verus! {

/// A counter of a value that may be missing: zero unless it is there and is a number.
pub open spec fn counter(j: JsonView, key: Seq<char>) -> u64 {
    match json::u64_opt(json::member(j, key)) {
        Some(n) => n,
        None => 0,
    }
}

/// The first of two counters that is there.
pub open spec fn either(a: Option<u64>, b: Option<u64>) -> u64 {
    match a {
        Some(n) => n,
        None => match b {
            Some(n) => n,
            None => 0,
        },
    }
}

/// The number of the member called `key`.
pub open spec fn number_at(j: JsonView, key: Seq<char>) -> Option<u64> {
    json::u64_opt(json::member(j, key))
}

/// The usage that a reply reports, in either of the two shapes that providers use.
pub open spec fn reported_usage(response: JsonView) -> TokenUsage {
    match json::member(response, "usage"@) {
        None => crate::session::state::no_usage(),
        Some(usage) => TokenUsage {
            input_tokens: either(
                number_at(usage, "prompt_tokens"@),
                number_at(usage, "input_tokens"@),
            ),
            output_tokens: either(
                number_at(usage, "completion_tokens"@),
                number_at(usage, "output_tokens"@),
            ),
            cache_read_tokens: either(
                number_at(usage, "cache_read_input_tokens"@),
                json::u64_opt(
                    json::member_opt(
                        json::member(usage, "prompt_tokens_details"@),
                        "cached_tokens"@,
                    ),
                ),
            ),
            cache_write_tokens: counter(usage, "cache_creation_input_tokens"@),
        },
    }
}

fn first_of(a: Option<u64>, b: Option<u64>) -> (n: u64)
    ensures
        n == either(a, b),
{
    match a {
        Some(n) => n,
        None => match b {
            Some(n) => n,
            None => 0,
        },
    }
}

fn count(j: &Json, key: &str) -> (n: u64)
    ensures
        n == counter(j@, key@),
{
    match j.get_u64(key) {
        Some(n) => n,
        None => 0,
    }
}

/// Token usage in a reply: `prompt_tokens` and `completion_tokens`, or `input_tokens` and
/// `output_tokens`, and the cache counters of either shape.
pub fn extract_usage_from_response(response: &Json) -> (u: TokenUsage)
    ensures
        u == reported_usage(response@),
{
    match response.get("usage") {
        None => TokenUsage::default(),
        Some(usage) => {
            let cached = match usage.get("prompt_tokens_details") {
                Some(details) => details.get_u64("cached_tokens"),
                None => None,
            };
            TokenUsage {
                input_tokens: first_of(usage.get_u64("prompt_tokens"), usage.get_u64("input_tokens")),
                output_tokens: first_of(
                    usage.get_u64("completion_tokens"),
                    usage.get_u64("output_tokens"),
                ),
                cache_read_tokens: first_of(usage.get_u64("cache_read_input_tokens"), cached),
                cache_write_tokens: count(usage, "cache_creation_input_tokens"),
            }
        },
    }
}

/// What a `message_delta` event reports: the output so far.
pub open spec fn delta_usage(event: JsonView) -> Option<TokenUsage> {
    match json::member(event, "usage"@) {
        Some(usage) => if counter(usage, "output_tokens"@) > 0 {
            Some(
                TokenUsage {
                    input_tokens: 0,
                    output_tokens: counter(usage, "output_tokens"@),
                    cache_read_tokens: 0,
                    cache_write_tokens: 0,
                },
            )
        } else {
            None
        },
        None => None,
    }
}

/// What a `message_start` event reports: the input.
pub open spec fn start_usage(event: JsonView) -> Option<TokenUsage> {
    match json::member_opt(json::member(event, "message"@), "usage"@) {
        Some(usage) => {
            let u = TokenUsage {
                input_tokens: counter(usage, "input_tokens"@),
                output_tokens: 0,
                cache_read_tokens: counter(usage, "cache_read_input_tokens"@),
                cache_write_tokens: counter(usage, "cache_creation_input_tokens"@),
            };
            if u.input_tokens > 0 || u.cache_read_tokens > 0 || u.cache_write_tokens > 0 {
                Some(u)
            } else {
                None
            }
        },
        None => None,
    }
}

/// What the last chunk of a stream reports.
pub open spec fn chunk_usage(event: JsonView) -> Option<TokenUsage> {
    match json::member(event, "usage"@) {
        Some(usage) => {
            let u = reported_usage(event);
            if usage is Object && (u.input_tokens > 0 || u.output_tokens > 0) {
                Some(u)
            } else {
                None
            }
        },
        None => None,
    }
}

/// The first usage that is there.
pub open spec fn first_usage(a: Option<TokenUsage>, b: Option<TokenUsage>) -> Option<TokenUsage> {
    match a {
        Some(_) => a,
        None => b,
    }
}

/// What an event of a stream reports, if it reports any tokens.
pub open spec fn event_usage(event: JsonView) -> Option<TokenUsage> {
    let kind = json::str_opt(json::member(event, "type"@));
    if kind == Some("message_delta"@) {
        first_usage(delta_usage(event), chunk_usage(event))
    } else if kind == Some("message_start"@) {
        first_usage(start_usage(event), chunk_usage(event))
    } else {
        chunk_usage(event)
    }
}

fn usage_of_delta(event: &Json) -> (u: Option<TokenUsage>)
    ensures
        u == delta_usage(event@),
{
    match event.get("usage") {
        Some(usage) => {
            let output_tokens: u64 = count(usage, "output_tokens");
            if output_tokens > 0 {
                Some(
                    TokenUsage {
                        input_tokens: 0,
                        output_tokens,
                        cache_read_tokens: 0,
                        cache_write_tokens: 0,
                    },
                )
            } else {
                None
            }
        },
        None => None,
    }
}

fn usage_of_start(event: &Json) -> (u: Option<TokenUsage>)
    ensures
        u == start_usage(event@),
{
    let message = match event.get("message") {
        Some(message) => message,
        None => {
            return None;
        },
    };
    match message.get("usage") {
        Some(usage) => {
            let u = TokenUsage {
                input_tokens: count(usage, "input_tokens"),
                output_tokens: 0,
                cache_read_tokens: count(usage, "cache_read_input_tokens"),
                cache_write_tokens: count(usage, "cache_creation_input_tokens"),
            };
            if u.input_tokens > 0 || u.cache_read_tokens > 0 || u.cache_write_tokens > 0 {
                Some(u)
            } else {
                None
            }
        },
        None => None,
    }
}

fn usage_of_chunk(event: &Json) -> (u: Option<TokenUsage>)
    ensures
        u == chunk_usage(event@),
{
    match event.get("usage") {
        Some(Json::Object(_)) => {
            let u = extract_usage_from_response(event);
            if u.input_tokens > 0 || u.output_tokens > 0 {
                Some(u)
            } else {
                None
            }
        },
        _ => None,
    }
}

/// Token usage in the data of a server-sent event: the input in `message_start`, the output
/// in `message_delta`, all of it in the last chunk of the other shape. `None` where no
/// tokens are reported.
pub fn extract_usage_from_sse_event(event: &Json) -> (u: Option<TokenUsage>)
    ensures
        u == event_usage(event@),
{
    let found = match event.get_str("type") {
        Some(kind) => if crate::text::str_eq(kind, "message_delta") {
            usage_of_delta(event)
        } else if crate::text::str_eq(kind, "message_start") {
            usage_of_start(event)
        } else {
            None
        },
        None => None,
    };
    proof {
        reveal_strlit("message_delta");
        reveal_strlit("message_start");
        assert("message_delta"@[8] != "message_start"@[8]);
    }
    match found {
        Some(u) => Some(u),
        None => usage_of_chunk(event),
    }
}

/// An event is never read as a report of nothing.
pub proof fn reported_events_report_something(event: JsonView)
    ensures
        event_usage(event) matches Some(u) ==> u != crate::session::state::no_usage(),
{
}

/// The usage of a reply is read under either pair of names: `prompt_tokens` and
/// `completion_tokens`, or where one of them is not a number `input_tokens` and
/// `output_tokens`. What is read under neither name is zero.
pub proof fn usage_is_read_under_either_name(response: JsonView, usage: JsonView, n: u64)
    requires
        json::member(response, "usage"@) == Some(usage),
    ensures
        json::member(usage, "prompt_tokens"@) == Some(
            JsonView::Number(json::NumberView::Unsigned(n)),
        ) ==> reported_usage(response).input_tokens == n,
        json::u64_opt(json::member(usage, "prompt_tokens"@)) is None && json::member(usage, "input_tokens"@)
            == Some(JsonView::Number(json::NumberView::Unsigned(n))) ==> reported_usage(
            response,
        ).input_tokens == n,
        json::member(usage, "completion_tokens"@) == Some(
            JsonView::Number(json::NumberView::Unsigned(n)),
        ) ==> reported_usage(response).output_tokens == n,
        json::u64_opt(json::member(usage, "completion_tokens"@)) is None && json::member(usage, "output_tokens"@)
            == Some(JsonView::Number(json::NumberView::Unsigned(n))) ==> reported_usage(
            response,
        ).output_tokens == n,
        json::u64_opt(json::member(usage, "prompt_tokens"@)) is None && json::u64_opt(json::member(usage, "input_tokens"@)) is None ==> reported_usage(response).input_tokens == 0,
        json::u64_opt(json::member(usage, "completion_tokens"@)) is None && json::u64_opt(json::member(usage, "output_tokens"@)) is None ==> reported_usage(response).output_tokens == 0,
{
}

/// What was read from the cache is read under `cache_read_input_tokens`, or else under
/// `cached_tokens` among the details of the prompt; what was written to it under
/// `cache_creation_input_tokens`. What is not there is zero.
pub proof fn cache_use_is_read(response: JsonView, usage: JsonView, details: JsonView, n: u64)
    requires
        json::member(response, "usage"@) == Some(usage),
    ensures
        json::member(usage, "cache_read_input_tokens"@) == Some(
            JsonView::Number(json::NumberView::Unsigned(n)),
        ) ==> reported_usage(response).cache_read_tokens == n,
        json::u64_opt(json::member(usage, "cache_read_input_tokens"@)) is None && json::member(
            usage,
            "prompt_tokens_details"@,
        ) == Some(details) && json::member(details, "cached_tokens"@) == Some(
            JsonView::Number(json::NumberView::Unsigned(n)),
        ) ==> reported_usage(response).cache_read_tokens == n,
        json::u64_opt(json::member(usage, "cache_read_input_tokens"@)) is None && json::member(
            usage,
            "prompt_tokens_details"@,
        ) is None ==> reported_usage(response).cache_read_tokens == 0,
        json::member(usage, "cache_creation_input_tokens"@) == Some(
            JsonView::Number(json::NumberView::Unsigned(n)),
        ) ==> reported_usage(response).cache_write_tokens == n,
        json::u64_opt(json::member(usage, "cache_creation_input_tokens"@)) is None ==> reported_usage(
            response,
        ).cache_write_tokens == 0,
{
}

/// The same usage is read the same, whichever of the two shapes tells it.
pub proof fn both_shapes_tell_the_same_usage(
    a: JsonView,
    b: JsonView,
    told: JsonView,
    also: JsonView,
)
    requires
        json::member(a, "usage"@) == Some(told),
        json::member(b, "usage"@) == Some(also),
        json::member(told, "input_tokens"@) is None,
        json::member(told, "output_tokens"@) is None,
        json::member(also, "prompt_tokens"@) is None,
        json::member(also, "completion_tokens"@) is None,
        json::member(told, "prompt_tokens"@) == json::member(also, "input_tokens"@),
        json::member(told, "completion_tokens"@) == json::member(also, "output_tokens"@),
        json::member(told, "cache_read_input_tokens"@) is None,
        json::member(also, "prompt_tokens_details"@) is None,
        json::member_opt(json::member(told, "prompt_tokens_details"@), "cached_tokens"@)
            == json::member(also, "cache_read_input_tokens"@),
        json::member(told, "cache_creation_input_tokens"@) == json::member(
            also,
            "cache_creation_input_tokens"@,
        ),
    ensures
        reported_usage(a) == reported_usage(b),
{
}

/// A reply that says nothing of its usage used nothing.
pub proof fn silence_is_no_usage(response: JsonView)
    requires
        json::member(response, "usage"@) is None,
    ensures
        reported_usage(response).input_tokens == 0,
        reported_usage(response).output_tokens == 0,
        reported_usage(response).cache_read_tokens == 0,
        reported_usage(response).cache_write_tokens == 0,
        event_usage(response) matches Some(u) ==> json::member(response, "type"@) == Some(
            JsonView::Str("message_start"@),
        ),
{
}

/// The last event of a message tells its output, and nothing else is counted again.
pub proof fn the_end_of_a_message_tells_the_output(event: JsonView, usage: JsonView, n: u64)
    requires
        json::member(event, "type"@) == Some(JsonView::Str("message_delta"@)),
        json::member(event, "usage"@) == Some(usage),
        json::member(usage, "output_tokens"@) == Some(
            JsonView::Number(json::NumberView::Unsigned(n)),
        ),
        n > 0,
    ensures
        event_usage(event) matches Some(u) && u.output_tokens == n && u.input_tokens == 0
            && u.cache_read_tokens == 0 && u.cache_write_tokens == 0,
{
}

/// The first event of a message tells its input and its use of the cache, and no output yet.
pub proof fn the_start_of_a_message_tells_the_input(
    event: JsonView,
    message: JsonView,
    usage: JsonView,
    input: u64,
    read: u64,
    written: u64,
)
    requires
        json::member(event, "type"@) == Some(JsonView::Str("message_start"@)),
        json::member(event, "message"@) == Some(message),
        json::member(message, "usage"@) == Some(usage),
        json::member(usage, "input_tokens"@) == Some(
            JsonView::Number(json::NumberView::Unsigned(input)),
        ),
        json::member(usage, "cache_read_input_tokens"@) == Some(
            JsonView::Number(json::NumberView::Unsigned(read)),
        ),
        json::member(usage, "cache_creation_input_tokens"@) == Some(
            JsonView::Number(json::NumberView::Unsigned(written)),
        ),
        input > 0 || read > 0 || written > 0,
    ensures
        event_usage(event) matches Some(u) && u.input_tokens == input && u.cache_read_tokens
            == read && u.cache_write_tokens == written && u.output_tokens == 0,
{
    reveal_strlit("message_delta");
    reveal_strlit("message_start");
    assert("message_delta"@[8] != "message_start"@[8]);
}

/// Of any other event the usage is read as that of a reply, if it tells of input or output.
pub proof fn other_events_are_read_as_replies(event: JsonView, usage: JsonView)
    requires
        json::member(event, "usage"@) == Some(usage),
        usage is Object,
        json::member(event, "type"@) != Some(JsonView::Str("message_delta"@)),
        json::member(event, "type"@) != Some(JsonView::Str("message_start"@)),
    ensures
        event_usage(event) == (if reported_usage(event).input_tokens > 0 || reported_usage(
            event,
        ).output_tokens > 0 {
            Some(reported_usage(event))
        } else {
            None
        }),
{
}

} // verus!
