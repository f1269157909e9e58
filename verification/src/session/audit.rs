//! The audit log of a session: one JSON object per line.

use vstd::prelude::*;

use crate::clock;
use crate::clock::Timestamp;
use crate::json;
use crate::json::{Json, JsonView};

verus! {

/// What can go wrong with the audit log.
#[derive(Clone, Debug, PartialEq, Eq)]
pub enum AuditError {
    /// The directory could not be made.
    Mkdir { path: String, source: String },
    /// The file could not be opened.
    Open { path: String, source: String },
    /// An entry could not be written.
    WriteFailed { source: String },
    /// An entry could not be turned into JSON.
    Serialize { source: String },
}

/// The error in words.
pub open spec fn audit_error_text(e: AuditError) -> Seq<char> {
    match e {
        AuditError::Mkdir { path, source } => "failed to create audit log directory "@ + path@
            + ": "@ + source@,
        AuditError::Open { path, source } => "failed to open audit log "@ + path@ + ": "@
            + source@,
        AuditError::WriteFailed { source } => "failed to write audit entry: "@ + source@,
        AuditError::Serialize { source } => "failed to serialise audit entry: "@ + source@,
    }
}

impl AuditError {
    /// The error in words.
    pub fn message(&self) -> (out: String)
        ensures
            out@ == audit_error_text(*self),
    {
        match self {
            AuditError::Mkdir { path, source } => {
                let mut out = "failed to create audit log directory ".to_owned();
                out.append(path.as_str());
                out.append(": ");
                out.append(source.as_str());
                out
            },
            AuditError::Open { path, source } => {
                let mut out = "failed to open audit log ".to_owned();
                out.append(path.as_str());
                out.append(": ");
                out.append(source.as_str());
                out
            },
            AuditError::WriteFailed { source } => {
                let mut out = "failed to write audit entry: ".to_owned();
                out.append(source.as_str());
                out
            },
            AuditError::Serialize { source } => {
                let mut out = "failed to serialise audit entry: ".to_owned();
                out.append(source.as_str());
                out
            },
        }
    }
}

/// The name of the file with the audit log of a session.
pub fn audit_file_name(session_id: &str) -> (name: String)
    ensures
        name@ == session_id@ + ".jsonl"@,
{
    let mut name = session_id.to_owned();
    name.append(".jsonl");
    name
}

/// An entry of the audit log.
pub open spec fn entry_view(at: Timestamp, event: Seq<char>, data: JsonView) -> JsonView {
    JsonView::Object(
        json::fields().push(("timestamp"@, JsonView::Str(clock::rfc3339_text(at)))).push(
            ("event"@, JsonView::Str(event)),
        ).push(("data"@, data)),
    )
}

/// An entry of the audit log.
pub fn audit_entry(at: &Timestamp, event_type: &str, data: Json) -> (j: Json)
    ensures
        j@ == entry_view(*at, event_type@, data@),
{
    let mut m = json::no_members();
    json::push_member(&mut m, "timestamp", json::owned(clock::format_rfc3339(at)));
    json::push_member(&mut m, "event", Json::string(event_type));
    json::push_member(&mut m, "data", data);
    json::object(m)
}

/// An entry tells when, what and with which data.
pub proof fn entries_tell_the_event(at: Timestamp, event: Seq<char>, data: JsonView)
    ensures
        json::says(entry_view(at, event, data), "event"@, JsonView::Str(event)),
        json::says(entry_view(at, event, data), "data"@, data),
        json::says(
            entry_view(at, event, data),
            "timestamp"@,
            JsonView::Str(clock::rfc3339_text(at)),
        ),
{
    let m = entry_view(at, event, data)->Object_0;
    assert(m[0].0 == "timestamp"@ && m[1].0 == "event"@ && m[2].0 == "data"@);
}

/// The errors of the log tell what the system said, and those on a path tell the path.
pub proof fn audit_errors_tell_the_source(path: String, source: String)
    ensures
        (path@ + ": "@ + source@).is_suffix_of(audit_error_text(AuditError::Mkdir { path, source })),
        (path@ + ": "@ + source@).is_suffix_of(audit_error_text(AuditError::Open { path, source })),
        source@.is_suffix_of(audit_error_text(AuditError::WriteFailed { source })),
        source@.is_suffix_of(audit_error_text(AuditError::Serialize { source })),
{
    let both = path@ + ": "@ + source@;
    lemma_at_the_end("failed to create audit log directory "@, both);
    lemma_at_the_end("failed to open audit log "@, both);
    lemma_at_the_end("failed to write audit entry: "@, source@);
    lemma_at_the_end("failed to serialise audit entry: "@, source@);
    assert("failed to create audit log directory "@ + path@ + ": "@ + source@
        =~= "failed to create audit log directory "@ + both);
    assert("failed to open audit log "@ + path@ + ": "@ + source@ =~= "failed to open audit log "@
        + both);
}

proof fn lemma_at_the_end(a: Seq<char>, b: Seq<char>)
    ensures
        b.is_suffix_of(a + b),
{
    assert((a + b).subrange(a.len() as int, (a + b).len() as int) =~= b);
}

} // verus!
