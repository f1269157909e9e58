//! What the proxy tells about its session and its authentication.

use vstd::prelude::*;

use crate::json;
use crate::json::{Json, JsonView};
use crate::session::record::{Session, SessionMode};
use crate::session::state::{usage_total, TokenUsage, TurnMetrics};

verus! {

/// The name of a mode on the wire.
pub open spec fn mode_name(mode: SessionMode) -> Seq<char> {
    match mode {
        SessionMode::Initializer => "initializer"@,
        SessionMode::Coding => "coding"@,
    }
}

/// The counters of a usage.
pub open spec fn usage_members(u: TokenUsage) -> Seq<(Seq<char>, JsonView)> {
    json::fields().push(("input_tokens"@, json::count_view(u.input_tokens))).push(
        ("output_tokens"@, json::count_view(u.output_tokens)),
    ).push(("cache_read_tokens"@, json::count_view(u.cache_read_tokens))).push(
        ("cache_write_tokens"@, json::count_view(u.cache_write_tokens)),
    )
}

/// The usage of a turn, if it is known.
pub open spec fn actual_view(u: Option<TokenUsage>) -> JsonView {
    match u {
        Some(u) => JsonView::Object(usage_members(u)),
        None => JsonView::Null,
    }
}

/// What is told of a turn.
pub open spec fn turn_view(t: TurnMetrics) -> JsonView {
    JsonView::Object(
        json::fields().push(("turn_number"@, json::count_view(t.turn_number))).push(
            ("estimated_input_tokens"@, json::count_view(t.estimated_input_tokens as u64)),
        ).push(
            ("injected_context_tokens"@, json::count_view(t.injected_context_tokens as u64)),
        ).push(("system_prompt_tokens"@, json::count_view(t.system_prompt_tokens as u64))).push(
            ("tool_def_tokens"@, json::count_view(t.tool_def_tokens as u64)),
        ).push(("actual_usage"@, actual_view(t.actual_usage))),
    )
}

/// What is told of the last turn.
pub open spec fn last_turn_view(turns: Seq<TurnMetrics>) -> JsonView {
    if turns.len() == 0 {
        JsonView::Null
    } else {
        turn_view(turns.last())
    }
}

/// What is told of the active session.
pub open spec fn stats_view(session: Option<&Session>) -> JsonView {
    match session {
        None => JsonView::Object(
            json::fields().push(("error"@, JsonView::Str("No active session"@))),
        ),
        Some(s) => JsonView::Object(
            json::fields().push(("session_id"@, JsonView::Str(s.id@))).push(
                ("mode"@, JsonView::Str(mode_name(s.mode))),
            ).push(("request_count"@, json::count_view(s.request_count))).push(
                ("turns"@, json::count_view(s.turn_metrics@.len() as u64)),
            ).push(
                (
                    "cumulative_usage"@,
                    JsonView::Object(
                        usage_members(s.cumulative_usage).push(
                            (
                                "total_tokens"@,
                                json::count_view(usage_total(s.cumulative_usage) as u64),
                            ),
                        ),
                    ),
                ),
            ).push(("last_turn"@, last_turn_view(s.turn_metrics@))),
        ),
    }
}

fn counters(u: &TokenUsage) -> (m: Vec<(String, Json)>)
    ensures
        json::members_view(m@) == usage_members(*u),
{
    let mut m = json::no_members();
    json::push_member(&mut m, "input_tokens", Json::number(u.input_tokens));
    json::push_member(&mut m, "output_tokens", Json::number(u.output_tokens));
    json::push_member(&mut m, "cache_read_tokens", Json::number(u.cache_read_tokens));
    json::push_member(&mut m, "cache_write_tokens", Json::number(u.cache_write_tokens));
    m
}

fn actual_json(u: &Option<TokenUsage>) -> (j: Json)
    ensures
        j@ == actual_view(*u),
{
    match u {
        Some(u) => json::object(counters(u)),
        None => Json::Null,
    }
}

fn turn_json(t: &TurnMetrics) -> (j: Json)
    ensures
        j@ == turn_view(*t),
{
    let mut m = json::no_members();
    json::push_member(&mut m, "turn_number", Json::number(t.turn_number));
    json::push_member(
        &mut m,
        "estimated_input_tokens",
        Json::number(t.estimated_input_tokens as u64),
    );
    json::push_member(
        &mut m,
        "injected_context_tokens",
        Json::number(t.injected_context_tokens as u64),
    );
    json::push_member(
        &mut m,
        "system_prompt_tokens",
        Json::number(t.system_prompt_tokens as u64),
    );
    json::push_member(&mut m, "tool_def_tokens", Json::number(t.tool_def_tokens as u64));
    json::push_member(&mut m, "actual_usage", actual_json(&t.actual_usage));
    json::object(m)
}

fn mode_json(mode: SessionMode) -> (j: Json)
    ensures
        j@ == JsonView::Str(mode_name(mode)),
{
    match mode {
        SessionMode::Initializer => Json::string("initializer"),
        SessionMode::Coding => Json::string("coding"),
    }
}

fn last_turn_json(turns: &Vec<TurnMetrics>) -> (j: Json)
    ensures
        j@ == last_turn_view(turns@),
{
    let n: usize = turns.len();
    if n == 0 {
        Json::Null
    } else {
        turn_json(&turns[n - 1])
    }
}

/// What is told of the active session: its tokens and its last turn.
pub fn session_stats(session: Option<&Session>) -> (j: Json)
    requires
        session matches Some(s) ==> usage_total(s.cumulative_usage) <= u64::MAX,
    ensures
        j@ == stats_view(session),
{
    match session {
        None => {
            let mut m = json::no_members();
            json::push_member(&mut m, "error", Json::string("No active session"));
            json::object(m)
        },
        Some(s) => {
            let mut usage = counters(&s.cumulative_usage);
            json::push_member(
                &mut usage,
                "total_tokens",
                Json::number(s.cumulative_usage.total()),
            );
            let mut m = json::no_members();
            json::push_member(&mut m, "session_id", Json::string(s.id.as_str()));
            json::push_member(&mut m, "mode", mode_json(s.mode));
            json::push_member(&mut m, "request_count", Json::number(s.request_count));
            json::push_member(&mut m, "turns", Json::number(s.turn_metrics.len() as u64));
            json::push_member(&mut m, "cumulative_usage", json::object(usage));
            json::push_member(&mut m, "last_turn", last_turn_json(&s.turn_metrics));
            json::object(m)
        },
    }
}

/// What is told of the authentication: whether there is a session, and which.
pub fn auth_status(session_id: Option<&str>) -> (j: Json)
    ensures
        j@ == JsonView::Object(
            json::fields().push(("authenticated"@, JsonView::Bool(session_id is Some))).push(
                (
                    "session_id"@,
                    (match session_id {
                        Some(id) => JsonView::Str(id@),
                        None => JsonView::Null,
                    }),
                ),
            ),
        ),
{
    let mut m = json::no_members();
    json::push_member(&mut m, "authenticated", json::truth(session_id.is_some()));
    match session_id {
        Some(id) => {
            json::push_member(&mut m, "session_id", Json::string(id));
        },
        None => {
            json::push_member(&mut m, "session_id", Json::Null);
        },
    }
    json::object(m)
}

/// What is notified of a tool that failed.
pub fn tool_error_payload(tool_name: &str, error: &str) -> (j: Json)
    ensures
        j@ == JsonView::Object(
            json::fields().push(("tool"@, JsonView::Str(tool_name@))).push(
                ("error"@, JsonView::Str(error@)),
            ),
        ),
{
    let mut m = json::no_members();
    json::push_member(&mut m, "tool", Json::string(tool_name));
    json::push_member(&mut m, "error", Json::string(error));
    json::object(m)
}

/// What is told of the health of the proxy.
pub fn health(version: &str) -> (j: Json)
    ensures
        j@ == JsonView::Object(
            json::fields().push(("status"@, JsonView::Str("ok"@))).push(
                ("service"@, JsonView::Str("openclaudia"@)),
            ).push(("version"@, JsonView::Str(version@))),
        ),
{
    let mut m = json::no_members();
    json::push_member(&mut m, "status", Json::string("ok"));
    json::push_member(&mut m, "service", Json::string("openclaudia"));
    json::push_member(&mut m, "version", Json::string(version));
    json::object(m)
}

/// What the client is told of a sign-in that began: where the user goes, and its state.
pub fn sign_in_started(auth_url: &str, oauth_state: &str) -> (j: Json)
    ensures
        j@ == JsonView::Object(
            json::fields().push(("auth_url"@, JsonView::Str(auth_url@))).push(
                ("state"@, JsonView::Str(oauth_state@)),
            ),
        ),
{
    let mut m = json::no_members();
    json::push_member(&mut m, "auth_url", Json::string(auth_url));
    json::push_member(&mut m, "state", Json::string(oauth_state));
    json::object(m)
}

/// What the client is told of a sign-in that succeeded.
pub fn signed_in(session_id: &str) -> (j: Json)
    ensures
        j@ == JsonView::Object(
            json::fields().push(("success"@, JsonView::Bool(true))).push(
                ("message"@, JsonView::Str("Authentication successful"@)),
            ).push(("session_id"@, JsonView::Str(session_id@))),
        ),
{
    let mut m = json::no_members();
    json::push_member(&mut m, "success", json::truth(true));
    json::push_member(&mut m, "message", Json::string("Authentication successful"));
    json::push_member(&mut m, "session_id", Json::string(session_id));
    json::object(m)
}

/// The statistics tell every count of the session.
pub proof fn statistics_tell_every_count(s: Session)
    requires
        s.turn_metrics@.len() <= u64::MAX,
    ensures
        ({
            let told = stats_view(Some(&s));
            &&& json::says(told, "session_id"@, JsonView::Str(s.id@))
            &&& json::says(
                told,
                "request_count"@,
                JsonView::Number(json::NumberView::Unsigned(s.request_count)),
            )
            &&& json::says(
                told,
                "turns"@,
                JsonView::Number(json::NumberView::Unsigned(s.turn_metrics@.len() as u64)),
            )
            &&& s.mode is Initializer ==> json::says(told, "mode"@, JsonView::Str("initializer"@))
            &&& s.mode is Coding ==> json::says(told, "mode"@, JsonView::Str("coding"@))
            &&& told->Object_0[4].0 == "cumulative_usage"@
            &&& tells_usage(told->Object_0[4].1, s.cumulative_usage)
            &&& json::says(
                told->Object_0[4].1,
                "total_tokens"@,
                JsonView::Number(
                    json::NumberView::Unsigned(
                        (s.cumulative_usage.input_tokens + s.cumulative_usage.output_tokens) as u64,
                    ),
                ),
            )
            &&& told->Object_0[5].0 == "last_turn"@
            &&& s.turn_metrics@.len() == 0 ==> told->Object_0[5].1 == JsonView::Null
        }),
{
    let m = stats_view(Some(&s))->Object_0;
    assert(m[0].0 == "session_id"@ && m[1].0 == "mode"@ && m[2].0 == "request_count"@);
    assert(m[3].0 == "turns"@ && m[4].0 == "cumulative_usage"@ && m[5].0 == "last_turn"@);
    let u = m[4].1->Object_0;
    assert(u[0].0 == "input_tokens"@ && u[1].0 == "output_tokens"@);
    assert(u[2].0 == "cache_read_tokens"@ && u[3].0 == "cache_write_tokens"@);
    assert(u[4].0 == "total_tokens"@);
}

/// The value tells the usage, each kind of tokens under its name.
pub open spec fn tells_usage(told: JsonView, u: TokenUsage) -> bool {
    &&& json::says(
        told,
        "input_tokens"@,
        JsonView::Number(json::NumberView::Unsigned(u.input_tokens)),
    )
    &&& json::says(
        told,
        "output_tokens"@,
        JsonView::Number(json::NumberView::Unsigned(u.output_tokens)),
    )
    &&& json::says(
        told,
        "cache_read_tokens"@,
        JsonView::Number(json::NumberView::Unsigned(u.cache_read_tokens)),
    )
    &&& json::says(
        told,
        "cache_write_tokens"@,
        JsonView::Number(json::NumberView::Unsigned(u.cache_write_tokens)),
    )
}

/// The statistics tell the last turn: its number, its estimates and, once it is known, its
/// usage.
pub proof fn statistics_tell_the_last_turn(turns: Seq<TurnMetrics>)
    requires
        turns.len() > 0,
    ensures
        ({
            let told = last_turn_view(turns);
            let t = turns.last();
            &&& json::says(
                told,
                "turn_number"@,
                JsonView::Number(json::NumberView::Unsigned(t.turn_number)),
            )
            &&& json::says(
                told,
                "estimated_input_tokens"@,
                JsonView::Number(json::NumberView::Unsigned(t.estimated_input_tokens as u64)),
            )
            &&& json::says(
                told,
                "injected_context_tokens"@,
                JsonView::Number(json::NumberView::Unsigned(t.injected_context_tokens as u64)),
            )
            &&& json::says(
                told,
                "system_prompt_tokens"@,
                JsonView::Number(json::NumberView::Unsigned(t.system_prompt_tokens as u64)),
            )
            &&& json::says(
                told,
                "tool_def_tokens"@,
                JsonView::Number(json::NumberView::Unsigned(t.tool_def_tokens as u64)),
            )
            &&& told->Object_0[5].0 == "actual_usage"@
            &&& t.actual_usage matches Some(u) ==> tells_usage(told->Object_0[5].1, u)
            &&& t.actual_usage is None ==> told->Object_0[5].1 == JsonView::Null
        }),
{
    let m = last_turn_view(turns)->Object_0;
    assert(m[0].0 == "turn_number"@ && m[1].0 == "estimated_input_tokens"@);
    assert(m[2].0 == "injected_context_tokens"@ && m[3].0 == "system_prompt_tokens"@);
    assert(m[4].0 == "tool_def_tokens"@ && m[5].0 == "actual_usage"@);
    if let Some(u) = turns.last().actual_usage {
        let c = m[5].1->Object_0;
        assert(c[0].0 == "input_tokens"@ && c[1].0 == "output_tokens"@);
        assert(c[2].0 == "cache_read_tokens"@ && c[3].0 == "cache_write_tokens"@);
    }
}

} // verus!
