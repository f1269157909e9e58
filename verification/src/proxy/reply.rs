//! Requests on their way to a provider, and what is made of its replies.

use vstd::prelude::*;

use crate::json;
use crate::json::{Json, JsonView};
use crate::proxy::errors::{ErrorView, ProxyError};
use crate::proxy::usage;
use crate::scan;
use crate::session::state::TokenUsage;
use crate::text;

verus! {

/// A stream of events is taken for stalled where no data arrive for so many seconds.
pub const SSE_STREAM_TIMEOUT_SECS: u64 = 300;

/// The bytes that a line of a stream of events may have.
pub const MAX_SSE_LINE_BYTES: usize = 1048576;

/// The error about a reply that is too long.
pub open spec fn too_long(max_bytes: usize) -> ErrorView {
    ErrorView::InvalidBody(
        "upstream response exceeded "@ + text::decimal(max_bytes as nat) + "-byte limit"@,
    )
}

/// The bytes of a reply as they come in. There are never more than the limit.
#[derive(Debug)]
pub struct BodyBuffer {
    bytes: Vec<u8>,
    max_bytes: usize,
}

/// The bytes of a buffer, and how many there may be.
#[verifier::ext_equal]
pub struct BufferView {
    pub bytes: Seq<u8>,
    pub limit: usize,
}

impl View for BodyBuffer {
    type V = BufferView;

    closed spec fn view(&self) -> BufferView {
        BufferView { bytes: self.bytes@, limit: self.max_bytes }
    }
}

impl BodyBuffer {
    #[verifier::type_invariant]
    spec fn within_limit(self) -> bool {
        self.bytes@.len() <= self.max_bytes
    }

    /// A buffer without bytes.
    pub fn new(max_bytes: usize) -> (b: BodyBuffer)
        ensures
            b@ == (BufferView { bytes: Seq::empty(), limit: max_bytes }),
    {
        BodyBuffer { bytes: Vec::new(), max_bytes }
    }

    /// Adds the bytes that came in, unless the reply gets too long.
    pub fn push(&mut self, chunk: &[u8]) -> (r: Result<(), ProxyError>)
        ensures
            match r {
                Ok(_) => old(self)@.bytes.len() + chunk@.len() <= old(self)@.limit && final(self)@
                    == (BufferView { bytes: old(self)@.bytes + chunk@, ..old(self)@ }),
                Err(e) => old(self)@.bytes.len() + chunk@.len() > old(self)@.limit && final(self)@
                    == old(self)@ && e@ == too_long(old(self)@.limit),
            },
    {
        proof {
            use_type_invariant(&*self);
        }
        if chunk.len() > self.max_bytes - self.bytes.len() {
            let mut message = "upstream response exceeded ".to_owned();
            text::push_decimal(&mut message, self.max_bytes as u64);
            message.append("-byte limit");
            return Err(ProxyError::InvalidBody(message));
        }
        let mut bytes: Vec<u8> = Vec::new();
        std::mem::swap(&mut bytes, &mut self.bytes);
        let ghost before = bytes@;
        let mut i: usize = 0;
        while i < chunk.len()
            invariant
                0 <= i <= chunk@.len(),
                bytes@ =~= before + chunk@.take(i as int),
            decreases chunk@.len() - i,
        {
            bytes.push(chunk[i]);
            i += 1;
        }
        assert(chunk@.take(i as int) =~= chunk@);
        self.bytes = bytes;
        Ok(())
    }

    /// The bytes that came in.
    pub fn into_bytes(self) -> (bytes: Vec<u8>)
        ensures
            bytes@ == self@.bytes,
            bytes@.len() <= self@.limit,
    {
        proof {
            use_type_invariant(&self);
        }
        self.bytes
    }
}

/// The error of a reply that broke off.
pub fn read_failed(error: &str) -> (e: ProxyError)
    ensures
        e@ == ErrorView::InvalidBody("upstream body read error: "@ + error@),
{
    let mut message = "upstream body read error: ".to_owned();
    message.append(error);
    ProxyError::InvalidBody(message)
}

/// The error of a reply that could not be turned into the shape of the chat completions
/// endpoint.
pub fn transform_failed(error: &str) -> (e: ProxyError)
    ensures
        e@ == ErrorView::InvalidBody("Provider response transform failed: "@ + error@),
{
    let mut message = "Provider response transform failed: ".to_owned();
    message.append(error);
    ProxyError::InvalidBody(message)
}

/// Chunks one after the other.
pub open spec fn concatenated(chunks: Seq<Seq<u8>>) -> Seq<u8>
    decreases chunks.len(),
{
    if chunks.len() == 0 {
        seq![]
    } else {
        concatenated(chunks.drop_last()) + chunks.last()
    }
}

/// What is read of chunks under a limit: all of them, or nothing once there are too many
/// bytes.
pub open spec fn read_capped(chunks: Seq<Seq<u8>>, limit: usize) -> Option<Seq<u8>>
    decreases chunks.len(),
{
    if chunks.len() == 0 {
        Some(seq![])
    } else {
        match read_capped(chunks.drop_last(), limit) {
            Some(bytes) => if bytes.len() + chunks.last().len() <= limit {
                Some(bytes + chunks.last())
            } else {
                None
            },
            None => None,
        }
    }
}

/// A reply is read whole where it keeps to the limit, and refused where it does not, however
/// it is cut into chunks.
pub proof fn bodies_are_read_whole_or_refused(chunks: Seq<Seq<u8>>, limit: usize)
    ensures
        read_capped(chunks, limit) == (if concatenated(chunks).len() <= limit {
            Some(concatenated(chunks))
        } else {
            None
        }),
    decreases chunks.len(),
{
    if chunks.len() > 0 {
        bodies_are_read_whole_or_refused(chunks.drop_last(), limit);
    }
}

/// The status tells of success.
pub open spec fn is_success(status: u16) -> bool {
    200 <= status < 300
}

/// A header of a reply is handed on. The length of the body and how it was cut into chunks
/// are not, and its type is not where the body is written anew.
pub open spec fn handed_on(name: Seq<char>, rewritten: bool) -> bool {
    &&& name != "transfer-encoding"@
    &&& name != "content-length"@
    &&& !(rewritten && name == "content-type"@)
}

/// Whether a header of a reply is handed on.
pub fn keeps_header(name: &str, rewritten: bool) -> (b: bool)
    ensures
        b == handed_on(name@, rewritten),
{
    !text::str_eq(name, "transfer-encoding") && !text::str_eq(name, "content-length") && !(
    rewritten && text::str_eq(name, "content-type"))
}

/// What becomes of the body of a reply to a chat completion.
#[derive(Debug)]
pub enum ReplyBody {
    /// It is handed on as it is.
    AsIs,
    /// It is turned into the shape of the chat completions endpoint.
    Transform(Json),
}

/// What becomes of the body of a reply that tells of success, given what it says as JSON.
pub open spec fn json_reply(parsed: Result<JsonView, Seq<char>>) -> Result<JsonView, ErrorView> {
    match parsed {
        Ok(j) => Ok(j),
        Err(text) => Err(
            ErrorView::InvalidBody("Failed to parse provider response JSON: "@ + text),
        ),
    }
}

/// The body of a reply that tells of success, given what it says as JSON.
pub fn checked_reply(parsed: Result<Json, String>) -> (r: Result<Json, ProxyError>)
    ensures
        match r {
            Ok(j) => json_reply(json::parse_view(parsed)) == Ok::<JsonView, ErrorView>(j@),
            Err(e) => json_reply(json::parse_view(parsed)) == Err::<JsonView, ErrorView>(e@),
        },
{
    match parsed {
        Ok(j) => Ok(j),
        Err(e) => {
            let mut message = "Failed to parse provider response JSON: ".to_owned();
            message.append(e.as_str());
            Err(ProxyError::InvalidBody(message))
        },
    }
}

/// What becomes of the body of a reply: an error is handed on, anything else must be JSON.
pub fn reply_body(status: u16, body: &[u8]) -> (r: Result<ReplyBody, ProxyError>)
    ensures
        match r {
            Ok(ReplyBody::AsIs) => !is_success(status),
            Ok(ReplyBody::Transform(j)) => is_success(status) && json_reply(
                json::parsed_bytes(body@),
            ) == Ok::<JsonView, ErrorView>(j@),
            Err(e) => is_success(status) && json_reply(json::parsed_bytes(body@)) == Err::<
                JsonView,
                ErrorView,
            >(e@),
        },
{
    if status < 200 || status >= 300 {
        return Ok(ReplyBody::AsIs);
    }
    match checked_reply(json::parse_bytes(body)) {
        Ok(j) => Ok(ReplyBody::Transform(j)),
        Err(e) => Err(e),
    }
}

/// The usage of a reply: what the provider reported, else what is found in the transformed
/// reply, if that is anything.
pub open spec fn reply_usage(raw: Option<TokenUsage>, transformed: JsonView) -> Option<
    TokenUsage,
> {
    match raw {
        Some(u) => Some(u),
        None => {
            let u = usage::reported_usage(transformed);
            if u.input_tokens > 0 || u.output_tokens > 0 {
                Some(u)
            } else {
                None
            }
        },
    }
}

/// The usage of a reply.
pub fn usage_of_reply(raw: Option<TokenUsage>, transformed: &Json) -> (u: Option<TokenUsage>)
    ensures
        u == reply_usage(raw, transformed@),
{
    match raw {
        Some(u) => Some(u),
        None => {
            let u = usage::extract_usage_from_response(transformed);
            if u.input_tokens > 0 || u.output_tokens > 0 {
                Some(u)
            } else {
                None
            }
        },
    }
}

/// The body looks like a page of HTML.
pub open spec fn is_page(body: Seq<char>) -> bool {
    "<"@.is_prefix_of(scan::trimmed_start(body)) || scan::occurs(body, "<!DOCTYPE"@)
}

/// The error in place of a page.
pub open spec fn page_error(status: u16, status_text: Seq<char>) -> JsonView {
    JsonView::Object(
        json::fields().push(
            (
                "error"@,
                JsonView::Object(
                    json::fields().push(("type"@, JsonView::Str("upstream_error"@))).push(
                        (
                            "message"@,
                            JsonView::Str(
                                "Provider returned HTTP "@ + status_text
                                    + " with HTML error page"@,
                            ),
                        ),
                    ).push(("status"@, json::count_view(status as u64))),
                ),
            ),
        ),
    )
}

/// What is sent in place of a page of HTML that a provider answered a request with which
/// failed.
pub fn clean_error(status: u16, status_text: &str, body: &str) -> (j: Option<Json>)
    ensures
        json::ref_view(
            (match j {
                Some(j) => Some(&j),
                None => None,
            }),
        ) == (if !is_success(status) && is_page(body@) {
            Some(page_error(status, status_text@))
        } else {
            None
        }),
{
    if status >= 200 && status < 300 {
        return None;
    }
    let start = scan::trim_start(body);
    if !text::starts_with(start.as_str(), "<") && !scan::contains_str(body, "<!DOCTYPE") {
        return None;
    }
    let mut message = "Provider returned HTTP ".to_owned();
    message.append(status_text);
    message.append(" with HTML error page");
    let mut error = json::no_members();
    json::push_member(&mut error, "type", Json::string("upstream_error"));
    json::push_member(&mut error, "message", json::owned(message));
    json::push_member(&mut error, "status", Json::number(status as u64));
    let mut members = json::no_members();
    json::push_member(&mut members, "error", json::object(error));
    Some(json::object(members))
}

/// What is sent in place of the bytes that a provider answered with, where they are a page
/// of HTML and the request failed. Otherwise the bytes are handed on.
pub fn clean_reply(status: u16, status_text: &str, body: &[u8]) -> (j: Option<Json>)
    ensures
        json::ref_view(
            (match j {
                Some(j) => Some(&j),
                None => None,
            }),
        ) == (if !is_success(status) && is_page(text::text_in(body@)) {
            Some(page_error(status, status_text@))
        } else {
            None
        }),
{
    let body = text::read_text(body);
    clean_error(status, status_text, body.as_str())
}

/// The headers of a request that are passed on to a provider.
pub open spec fn safe_headers() -> Seq<Seq<char>> {
    seq!["accept"@, "accept-encoding"@, "accept-language"@, "user-agent"@, "content-type"@]
}

/// Whether a header of a request is passed on, whatever the case of its name.
pub fn is_safe_header(name: &str) -> (b: bool)
    ensures
        b == safe_headers().contains(text::lowered(name@)),
{
    let small = text::to_lowercase(name);
    let list: Vec<&'static str> = vec![
        "accept",
        "accept-encoding",
        "accept-language",
        "user-agent",
        "content-type",
    ];
    assert(text::str_views(list@) =~= safe_headers());
    text::listed(&list, small.as_str())
}

/// What pairs of texts say.
pub open spec fn header_views(headers: Seq<(String, String)>) -> Seq<(Seq<char>, Seq<char>)> {
    Seq::new(headers.len(), |i: int| (headers[i].0@, headers[i].1@))
}

/// The headers among the first `n` that are passed on. A value that is no text is not.
pub open spec fn passed_headers(headers: Seq<(String, Option<String>)>, n: int) -> Seq<
    (Seq<char>, Seq<char>),
>
    decreases n,
{
    if n <= 0 {
        seq![]
    } else {
        match headers[n - 1].1 {
            Some(value) if safe_headers().contains(text::lowered(headers[n - 1].0@)) =>
                passed_headers(headers, n - 1).push((headers[n - 1].0@, value@)),
            _ => passed_headers(headers, n - 1),
        }
    }
}

/// The headers of a request that are passed on to a provider.
pub fn passthrough_headers(headers: &Vec<(String, Option<String>)>) -> (out: Vec<(String, String)>)
    ensures
        header_views(out@) == passed_headers(headers@, headers@.len() as int),
{
    let mut out: Vec<(String, String)> = Vec::new();
    let mut i: usize = 0;
    assert(header_views(out@) =~= seq![]);
    while i < headers.len()
        invariant
            0 <= i <= headers@.len(),
            header_views(out@) == passed_headers(headers@, i as int),
        decreases headers@.len() - i,
    {
        let ghost before = header_views(out@);
        if is_safe_header(headers[i].0.as_str()) {
            if let Some(value) = &headers[i].1 {
                out.push((headers[i].0.clone(), value.clone()));
                assert(header_views(out@) =~= before.push((headers@[i as int].0@, value@)));
            }
        }
        i += 1;
    }
    out
}

/// The headers of a request to a provider: those of its adapter, or the type of the body
/// where there is no key.
pub fn adapter_headers(with_key: Option<Vec<(String, String)>>) -> (headers: Vec<(String, String)>)
    ensures
        header_views(headers@) == (match with_key {
            Some(list) => header_views(list@),
            None => seq![("content-type"@, "application/json"@)],
        }),
{
    match with_key {
        Some(list) => list,
        None => {
            let mut list: Vec<(String, String)> = Vec::new();
            list.push(("content-type".to_owned(), "application/json".to_owned()));
            assert(header_views(list@) =~= seq![("content-type"@, "application/json"@)]);
            list
        },
    }
}

/// The option that makes a provider report usage at the end of a stream.
pub open spec fn usage_option() -> JsonView {
    JsonView::Object(json::fields().push(("include_usage"@, JsonView::Bool(true))))
}

/// A request with the option that makes its stream report usage. It is put into a request
/// that is streamed, unless the provider reports usage anyway or the request has options of
/// its own.
pub open spec fn with_stream_options(
    request: JsonView,
    is_stream: bool,
    provider: Seq<char>,
) -> JsonView {
    match request {
        JsonView::Object(members) if is_stream && !scan::occurs(provider, "anthropic"@)
            && json::member(request, "stream_options"@) is None => JsonView::Object(
            members.push(("stream_options"@, usage_option())),
        ),
        _ => request,
    }
}

/// Puts the option that makes a stream report usage into a request that needs it.
pub fn inject_stream_options_if_needed(request: Json, is_stream: bool, provider_name: &str) -> (r:
    Json)
    ensures
        r@ == with_stream_options(request@, is_stream, provider_name@),
{
    if !is_stream || scan::contains_str(provider_name, "anthropic") {
        return request;
    }
    let known = request.get("stream_options").is_some();
    match request {
        Json::Object(members) => {
            if known {
                return json::object(members);
            }
            let mut members = members;
            let mut option = json::no_members();
            json::push_member(&mut option, "include_usage", json::truth(true));
            json::push_member(&mut members, "stream_options", json::object(option));
            json::object(members)
        },
        other => other,
    }
}

/// To put the option in twice is to put it in once.
pub proof fn stream_options_are_put_in_once(request: JsonView, is_stream: bool, provider: Seq<char>)
    ensures
        ({
            let once = with_stream_options(request, is_stream, provider);
            with_stream_options(once, is_stream, provider) == once
        }),
{
    let once = with_stream_options(request, is_stream, provider);
    if once != request {
        let members = request->Object_0;
        let key = "stream_options"@;
        let p = json::called(key);
        let all = members.push((key, usage_option()));
        assert(once == JsonView::Object(all));
        assert(p(all[members.len() as int]));
        if crate::seqs::first_where(all, p) is None {
            crate::seqs::lemma_no_first_where(all, p, members.len() as int);
        }
        assert(json::member(once, key) is Some);
    }
}

/// The headers of a reply are handed on, but for those that tell of a body that is put
/// together anew: its length and its encoding, and its type where it is rewritten.
pub proof fn replies_keep_their_headers(name: Seq<char>)
    ensures
        name != "transfer-encoding"@ && name != "content-length"@ && name != "content-type"@
            ==> handed_on(name, true) && handed_on(name, false),
        handed_on("content-type"@, false),
        !handed_on("content-type"@, true),
        !handed_on("transfer-encoding"@, false),
        !handed_on("transfer-encoding"@, true),
        !handed_on("content-length"@, false),
        !handed_on("content-length"@, true),
{
    reveal_strlit("content-type");
    reveal_strlit("content-length");
    reveal_strlit("transfer-encoding");
    assert("content-type"@.len() == 12);
    assert("content-length"@.len() == 14);
    assert("transfer-encoding"@.len() == 17);
}

/// The usage that the provider's own reply tells is what counts; that of the transformed reply
/// is for where it tells none, and where neither tells of a token there is none.
pub proof fn the_providers_count_comes_first(
    raw: TokenUsage,
    transformed: JsonView,
    told: JsonView,
    input: u64,
    output: u64,
)
    ensures
        reply_usage(Some(raw), transformed) == Some(raw),
        json::member(transformed, "usage"@) is None ==> reply_usage(None, transformed) is None,
        json::member(transformed, "usage"@) == Some(told) && json::member(
            told,
            "prompt_tokens"@,
        ) is None && json::member(told, "completion_tokens"@) is None && json::member(
            told,
            "input_tokens"@,
        ) == Some(JsonView::Number(json::NumberView::Unsigned(input))) && json::member(
            told,
            "output_tokens"@,
        ) == Some(JsonView::Number(json::NumberView::Unsigned(output))) && input + output > 0
            ==> (reply_usage(None, transformed) matches Some(u) && u.input_tokens == input
            && u.output_tokens == output),
{
}

/// A page is told by the bracket that it begins with, whatever white space stands ahead of it,
/// or by its document type anywhere.
pub proof fn pages_are_told(space: Seq<char>, rest: Seq<char>)
    requires
        scan::is_blank(space),
    ensures
        is_page(space + "<"@ + rest),
        is_page(rest + "<!DOCTYPE"@ + space),
        scan::trimmed_start(rest) == rest && rest.len() > 0 && rest[0] != '<' && !scan::occurs(
            rest,
            "<!DOCTYPE"@,
        ) ==> !is_page(rest),
{
    reveal_strlit("<");
    scan::lemma_part_occurs(rest, "<!DOCTYPE"@, space);
    let page = space + "<"@ + rest;
    scan::lemma_blank_is_trimmed(space, "<"@ + rest);
    assert(page =~= space + ("<"@ + rest));
    let trimmed = scan::trimmed_start(page);
    assert(trimmed.subrange(0, 1) =~= "<"@);
    if scan::trimmed_start(rest) == rest && rest.len() > 0 && rest[0] != '<' {
        if "<"@.is_prefix_of(rest) {
            assert(rest.subrange(0, 1)[0] == rest[0]);
        }
    }
}

/// The error in place of a page tells the status.
pub proof fn the_error_tells_the_status(status: u16, status_text: Seq<char>)
    ensures
        page_error(status, status_text) matches JsonView::Object(outer) && outer.len() == 1
            && outer[0].0 == "error"@ && json::says(
            outer[0].1,
            "status"@,
            JsonView::Number(json::NumberView::Unsigned(status as u64)),
        ) && json::says(outer[0].1, "type"@, JsonView::Str("upstream_error"@)) && json::says(
            outer[0].1,
            "message"@,
            JsonView::Str(
                "Provider returned HTTP "@ + status_text + " with HTML error page"@,
            ),
        ),
{
    let outer = page_error(status, status_text)->Object_0;
    let inner = outer[0].1->Object_0;
    assert(inner[0].0 == "type"@ && inner[1].0 == "message"@ && inner[2].0 == "status"@);
}

/// Headers are passed on one by one, in their order: a safe one that is a text as it is, and
/// any other not at all. Keys and cookies of the client are among the others.
pub proof fn safe_headers_are_passed_on(
    headers: Seq<(String, Option<String>)>,
    header: (String, Option<String>),
)
    ensures
        passed_headers(headers.push(header), headers.len() + 1int) == (match header.1 {
            Some(value) if text::lowered(header.0@) == "accept"@ || text::lowered(header.0@)
                == "accept-encoding"@ || text::lowered(header.0@) == "accept-language"@
                || text::lowered(header.0@) == "user-agent"@ || text::lowered(header.0@)
                == "content-type"@ => passed_headers(headers, headers.len() as int).push(
                (header.0@, value@),
            ),
            _ => passed_headers(headers, headers.len() as int),
        }),
{
    lemma_headers_ahead(headers.push(header), headers, headers.len() as int);
    let safe = safe_headers();
    assert(safe[0] == "accept"@ && safe[1] == "accept-encoding"@ && safe[2]
        == "accept-language"@ && safe[3] == "user-agent"@ && safe[4] == "content-type"@);
}

proof fn lemma_headers_ahead(
    a: Seq<(String, Option<String>)>,
    b: Seq<(String, Option<String>)>,
    n: int,
)
    requires
        n <= a.len(),
        n <= b.len(),
        forall|i: int| 0 <= i < n ==> a[i] == b[i],
    ensures
        passed_headers(a, n) == passed_headers(b, n),
    decreases n,
{
    if n > 0 {
        lemma_headers_ahead(a, b, n - 1);
    }
}

/// A stream is asked for its usage, and nothing else of the request changes; a request that is
/// no stream, one to Anthropic and one that says itself what it wants are left as they are.
pub proof fn streams_are_asked_for_their_usage(
    members: Seq<(Seq<char>, JsonView)>,
    provider: Seq<char>,
    i: int,
)
    requires
        0 <= i < members.len(),
    ensures
        ({
            let request = JsonView::Object(members);
            let after = with_stream_options(request, true, provider);
            &&& with_stream_options(request, false, provider) == request
            &&& scan::occurs(provider, "anthropic"@) ==> after == request
            &&& json::member(request, "stream_options"@) is Some ==> after == request
            &&& !scan::occurs(provider, "anthropic"@) && json::member(
                request,
                "stream_options"@,
            ) is None ==> after->Object_0.len() == members.len() + 1 && after->Object_0[i]
                == members[i] && after->Object_0.last().0 == "stream_options"@ && json::says(
                after->Object_0.last().1,
                "include_usage"@,
                JsonView::Bool(true),
            )
        }),
{
    let option = usage_option()->Object_0;
    assert(option[0] == ("include_usage"@, JsonView::Bool(true)));
}

/// Statuses from 200 up to 299 tell success.
pub proof fn two_hundreds_are_success(status: u16)
    ensures
        is_success(status) <==> status / 100 == 2,
{
}

} // verus!
