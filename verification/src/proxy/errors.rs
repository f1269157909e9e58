//! What can go wrong with a proxied request, and how the client is told.

use vstd::prelude::*;

use crate::json;
use crate::json::{Json, JsonView};

verus! {

/// Errors of the proxy.
#[derive(Clone, Debug, PartialEq, Eq)]
pub enum ProxyError {
    /// The provider has no configuration.
    ProviderNotConfigured(String),
    /// No key is configured for the provider.
    NoApiKey(String),
    /// The request to the provider failed.
    RequestError(String),
    /// The request or the reply could not be used.
    InvalidBody(String),
    /// JSON could not be read or written.
    JsonError(String),
    /// A hook blocked the request.
    HookBlocked(String),
    /// The policy denied the request.
    PolicyDenied(String),
}

/// What a proxy error says.
#[verifier::ext_equal]
pub enum ErrorView {
    ProviderNotConfigured(Seq<char>),
    NoApiKey(Seq<char>),
    RequestError(Seq<char>),
    InvalidBody(Seq<char>),
    JsonError(Seq<char>),
    HookBlocked(Seq<char>),
    PolicyDenied(Seq<char>),
}

impl View for ProxyError {
    type V = ErrorView;

    open spec fn view(&self) -> ErrorView {
        match self {
            ProxyError::ProviderNotConfigured(s) => ErrorView::ProviderNotConfigured(s@),
            ProxyError::NoApiKey(s) => ErrorView::NoApiKey(s@),
            ProxyError::RequestError(s) => ErrorView::RequestError(s@),
            ProxyError::InvalidBody(s) => ErrorView::InvalidBody(s@),
            ProxyError::JsonError(s) => ErrorView::JsonError(s@),
            ProxyError::HookBlocked(s) => ErrorView::HookBlocked(s@),
            ProxyError::PolicyDenied(s) => ErrorView::PolicyDenied(s@),
        }
    }
}

/// The error in words.
pub open spec fn error_text(e: ErrorView) -> Seq<char> {
    match e {
        ErrorView::ProviderNotConfigured(s) => "Provider not configured: "@ + s,
        ErrorView::NoApiKey(s) => "No API key configured for provider: "@ + s,
        ErrorView::RequestError(s) => "Request error: "@ + s,
        ErrorView::InvalidBody(s) => "Invalid request body: "@ + s,
        ErrorView::JsonError(s) => "JSON error: "@ + s,
        ErrorView::HookBlocked(s) => "Hook blocked request: "@ + s,
        ErrorView::PolicyDenied(s) => "Policy denied request: "@ + s,
    }
}

/// The HTTP status of an error.
pub open spec fn error_status(e: ErrorView) -> u16 {
    match e {
        ErrorView::NoApiKey(_) => 401,
        ErrorView::RequestError(_) => 502,
        ErrorView::HookBlocked(_) => 403,
        ErrorView::PolicyDenied(_) => 403,
        ErrorView::ProviderNotConfigured(_) => 400,
        ErrorView::InvalidBody(_) => 400,
        ErrorView::JsonError(_) => 400,
    }
}

/// The body of the reply to a request that failed.
pub open spec fn error_body(e: ErrorView) -> JsonView {
    JsonView::Object(
        json::fields().push(
            (
                "error"@,
                JsonView::Object(
                    json::fields().push(("message"@, JsonView::Str(error_text(e)))).push(
                        ("type"@, JsonView::Str("proxy_error"@)),
                    ),
                ),
            ),
        ),
    )
}

impl ProxyError {
    /// The error in words.
    pub fn message(&self) -> (out: String)
        ensures
            out@ == error_text(self@),
    {
        match self {
            ProxyError::ProviderNotConfigured(s) => {
                let mut out = "Provider not configured: ".to_owned();
                out.append(s.as_str());
                out
            },
            ProxyError::NoApiKey(s) => {
                let mut out = "No API key configured for provider: ".to_owned();
                out.append(s.as_str());
                out
            },
            ProxyError::RequestError(s) => {
                let mut out = "Request error: ".to_owned();
                out.append(s.as_str());
                out
            },
            ProxyError::InvalidBody(s) => {
                let mut out = "Invalid request body: ".to_owned();
                out.append(s.as_str());
                out
            },
            ProxyError::JsonError(s) => {
                let mut out = "JSON error: ".to_owned();
                out.append(s.as_str());
                out
            },
            ProxyError::HookBlocked(s) => {
                let mut out = "Hook blocked request: ".to_owned();
                out.append(s.as_str());
                out
            },
            ProxyError::PolicyDenied(s) => {
                let mut out = "Policy denied request: ".to_owned();
                out.append(s.as_str());
                out
            },
        }
    }

    /// The HTTP status of the reply.
    pub fn status(&self) -> (code: u16)
        ensures
            code == error_status(self@),
    {
        match self {
            ProxyError::NoApiKey(_) => 401,
            ProxyError::RequestError(_) => 502,
            ProxyError::HookBlocked(_) | ProxyError::PolicyDenied(_) => 403,
            ProxyError::ProviderNotConfigured(_) | ProxyError::InvalidBody(_)
            | ProxyError::JsonError(_) => 400,
        }
    }

    /// The status and the body of the reply.
    pub fn into_response(self) -> (reply: (u16, Json))
        ensures
            reply.0 == error_status(self@),
            reply.1@ == error_body(self@),
    {
        let mut inner = json::no_members();
        json::push_member(&mut inner, "message", json::owned(self.message()));
        json::push_member(&mut inner, "type", Json::string("proxy_error"));
        let mut body = json::no_members();
        json::push_member(&mut body, "error", json::object(inner));
        (self.status(), json::object(body))
    }
}

/// What is returned in place of a value, or the value.
pub open spec fn outcome<T>(r: Result<T, ProxyError>) -> Result<T, ErrorView> {
    match r {
        Ok(v) => Ok(v),
        Err(e) => Err(e@),
    }
}

/// A client is told no success where a request failed.
pub proof fn failures_have_error_statuses(e: ErrorView)
    ensures
        400 <= error_status(e) < 600,
        e is HookBlocked || e is PolicyDenied <==> error_status(e) == 403,
{
}

/// An error tells what went wrong: the detail stands at the end of its text, which is the
/// message of the reply.
pub proof fn errors_tell_the_detail(detail: Seq<char>)
    ensures
        detail.is_suffix_of(error_text(ErrorView::ProviderNotConfigured(detail))),
        detail.is_suffix_of(error_text(ErrorView::NoApiKey(detail))),
        detail.is_suffix_of(error_text(ErrorView::RequestError(detail))),
        detail.is_suffix_of(error_text(ErrorView::InvalidBody(detail))),
        detail.is_suffix_of(error_text(ErrorView::JsonError(detail))),
        detail.is_suffix_of(error_text(ErrorView::HookBlocked(detail))),
        detail.is_suffix_of(error_text(ErrorView::PolicyDenied(detail))),
{
    lemma_behind("Provider not configured: "@, detail);
    lemma_behind("No API key configured for provider: "@, detail);
    lemma_behind("Request error: "@, detail);
    lemma_behind("Invalid request body: "@, detail);
    lemma_behind("JSON error: "@, detail);
    lemma_behind("Hook blocked request: "@, detail);
    lemma_behind("Policy denied request: "@, detail);
}

proof fn lemma_behind(a: Seq<char>, b: Seq<char>)
    ensures
        b.is_suffix_of(a + b),
{
    assert((a + b).subrange(a.len() as int, (a + b).len() as int) =~= b);
}

/// The reply to a failed request holds the message and says that it is the proxy's.
pub proof fn error_replies_hold_the_message(e: ErrorView)
    ensures
        error_body(e) matches JsonView::Object(outer) && outer.len() == 1 && outer[0].0
            == "error"@ && json::says(
            outer[0].1,
            "message"@,
            JsonView::Str(error_text(e)),
        ) && json::says(outer[0].1, "type"@, JsonView::Str("proxy_error"@)),
{
    let inner = error_body(e)->Object_0[0].1->Object_0;
    assert(inner[0].0 == "message"@ && inner[1].0 == "type"@);
}

/// The status tells whose fault it is: a missing key is unauthorized, what a hook or the policy
/// refuses is forbidden, a provider that fails is a bad gateway, and all else is the request's.
pub proof fn statuses_tell_the_fault(e: ErrorView)
    ensures
        error_status(e) == 401 <==> e is NoApiKey,
        error_status(e) == 403 <==> e is HookBlocked || e is PolicyDenied,
        error_status(e) == 502 <==> e is RequestError,
        error_status(e) == 400 <==> e is ProviderNotConfigured || e is InvalidBody || e
            is JsonError,
{
}

} // verus!
