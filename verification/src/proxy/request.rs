//! Requests as they come in, and where they go.

use vstd::prelude::*;

use crate::json;
use crate::json::{Json, JsonView};
use crate::proxy::errors::{ErrorView, ProxyError};
use crate::proxy::url;
use crate::rules;
use crate::text;

verus! {

/// The model of a completion request that names none.
pub const DEFAULT_COMPLETION_MODEL: &'static str = "gpt-3.5-turbo-instruct";

/// What becomes of the body of a request, given what it says as JSON.
pub open spec fn json_request(parsed: Result<JsonView, Seq<char>>) -> Result<JsonView, ErrorView> {
    match parsed {
        Ok(j) => Ok(j),
        Err(text) => Err(ErrorView::InvalidBody(text)),
    }
}

/// The body of a request, given what it says as JSON.
pub fn checked_request(parsed: Result<Json, String>) -> (r: Result<Json, ProxyError>)
    ensures
        match r {
            Ok(j) => json_request(json::parse_view(parsed)) == Ok::<JsonView, ErrorView>(j@),
            Err(e) => json_request(json::parse_view(parsed)) == Err::<JsonView, ErrorView>(e@),
        },
{
    match parsed {
        Ok(j) => Ok(j),
        Err(e) => Err(ProxyError::InvalidBody(e)),
    }
}

/// The body of a request as JSON.
pub fn parse_request(body: &str) -> (r: Result<Json, ProxyError>)
    ensures
        match r {
            Ok(j) => json_request(json::parsed(body@)) == Ok::<JsonView, ErrorView>(j@),
            Err(e) => json_request(json::parsed(body@)) == Err::<JsonView, ErrorView>(e@),
        },
{
    checked_request(json::parse(body))
}

/// The model that a completion request names, or the default one.
pub open spec fn model_named(request: JsonView) -> Seq<char> {
    match json::str_opt(json::member(request, "model"@)) {
        Some(model) => model,
        None => DEFAULT_COMPLETION_MODEL@,
    }
}

/// The model that a completion request names, or the default one.
pub fn completion_model(request: &Json) -> (model: String)
    ensures
        model@ == model_named(request@),
{
    match request.get_str("model") {
        Some(model) => model.to_owned(),
        None => DEFAULT_COMPLETION_MODEL.to_owned(),
    }
}

/// A request wants its reply as a stream.
pub open spec fn wants_stream(request: JsonView) -> bool {
    json::member(request, "stream"@) == Some(JsonView::Bool(true))
}

/// Whether a request wants its reply as a stream. One that does not say so does not.
pub fn is_stream(request: &Json) -> (b: bool)
    ensures
        b == wants_stream(request@),
{
    match request.get("stream") {
        Some(Json::Bool(b)) => *b,
        _ => false,
    }
}

/// The URL of an endpoint of a provider.
pub fn endpoint_url(base_url: &str, path: &str) -> (out: String)
    ensures
        out@ == url::normalized(base_url@) + path@,
{
    let mut out = url::normalize_base_url(base_url);
    out.append(path);
    out
}

/// What the hook on a tool call is told of the files that the call is about: their
/// extensions, if any are known.
pub fn hook_extensions(tool_name: &str, input: &Json) -> (extra: Option<Json>)
    ensures
        match (rules::tool_extension(tool_name@, input@), extra) {
            (Some(ext), Some(j)) => j@ == JsonView::Array(
                Seq::<JsonView>::empty().push(JsonView::Str(ext)),
            ),
            (None, None) => true,
            _ => false,
        },
{
    let found = rules::extract_extensions_from_tool_input(tool_name, input);
    assert(text::views(found@).len() == found@.len());
    if found.len() == 0 {
        return None;
    }
    assert(text::views(found@)[0] == found@[0]@);
    let mut items: Vec<Json> = Vec::new();
    assert(json::items_view(items@) =~= Seq::<JsonView>::empty());
    json::push_item(&mut items, Json::string(found[0].as_str()));
    Some(json::array(items))
}

/// The model is the one that the request names; one that names none gets the default. A stream
/// is what asks for one in so many words.
pub proof fn requests_name_their_model(request: JsonView, model: Seq<char>)
    ensures
        json::member(request, "model"@) == Some(JsonView::Str(model)) ==> model_named(request)
            == model,
        json::member(request, "model"@) is None ==> model_named(request)
            == "gpt-3.5-turbo-instruct"@,
        json::member(request, "stream"@) == Some(JsonView::Bool(true)) ==> wants_stream(request),
        json::member(request, "stream"@) == Some(JsonView::Bool(false)) ==> !wants_stream(request),
        json::member(request, "stream"@) is None ==> !wants_stream(request),
{
}

} // verus!
