//! The state of a session as it is kept on disk: with the version of its shape.

use vstd::prelude::*;

use crate::scan;
use crate::state::SessionState;
use crate::text;

verus! {

/// The version of the shape that is written.
pub const CURRENT_VERSION: u32 = 1;

/// The state of a session with the version of its shape.
#[derive(Clone, Debug)]
pub struct SessionStateV1 {
    pub version: u32,
    pub state: SessionState,
}

/// What can go wrong with the state on disk.
#[derive(Clone, Debug, PartialEq, Eq)]
pub enum PersistError {
    /// A file could not be read or written.
    Io(String),
    /// It is not JSON of the right shape.
    Json(String),
    /// A newer program wrote it.
    FutureSchema { found: u32, supported: u32 },
}

/// The error in words.
pub open spec fn persist_error_text(e: PersistError) -> Seq<char> {
    match e {
        PersistError::Io(s) => "IO error: "@ + s@,
        PersistError::Json(s) => "JSON parse error: "@ + s@,
        PersistError::FutureSchema { found, supported } => "schema version "@ + text::decimal(
            found as nat,
        ) + " is newer than the max supported ("@ + text::decimal(supported as nat)
            + "); upgrade your harness"@,
    }
}

impl PersistError {
    /// The error in words.
    pub fn message(&self) -> (out: String)
        ensures
            out@ == persist_error_text(*self),
    {
        match self {
            PersistError::Io(s) => {
                let mut out = "IO error: ".to_owned();
                out.append(s.as_str());
                out
            },
            PersistError::Json(s) => {
                let mut out = "JSON parse error: ".to_owned();
                out.append(s.as_str());
                out
            },
            PersistError::FutureSchema { found, supported } => {
                let mut out = "schema version ".to_owned();
                text::push_decimal(&mut out, *found as u64);
                out.append(" is newer than the max supported (");
                text::push_decimal(&mut out, *supported as u64);
                out.append("); upgrade your harness");
                out
            },
        }
    }
}

/// Whether a version can be read. A file without one is older than all, and can.
pub fn check_version(version: Option<u32>) -> (r: Result<(), PersistError>)
    ensures
        match (version, r) {
            (Some(found), Err(e)) => found > CURRENT_VERSION && e == (PersistError::FutureSchema {
                found,
                supported: CURRENT_VERSION,
            }),
            (Some(found), Ok(_)) => found <= CURRENT_VERSION,
            (None, Ok(_)) => true,
            (None, Err(_)) => false,
        },
{
    let found: u32 = match version {
        Some(found) => found,
        None => 0,
    };
    if found > CURRENT_VERSION {
        Err(PersistError::FutureSchema { found, supported: CURRENT_VERSION })
    } else {
        Ok(())
    }
}

/// What is read of a state with a version.
pub open spec fn unwrapped(v: SessionStateV1) -> Result<SessionState, PersistError> {
    if v.version > CURRENT_VERSION {
        Err(PersistError::FutureSchema { found: v.version, supported: CURRENT_VERSION })
    } else {
        Ok(v.state)
    }
}

/// A state with the version that is written.
pub open spec fn wrapped(state: SessionState) -> SessionStateV1 {
    SessionStateV1 { version: CURRENT_VERSION, state }
}

impl SessionStateV1 {
    /// The state with the version that is written.
    pub fn wrap(state: SessionState) -> (v: SessionStateV1)
        ensures
            v == wrapped(state),
    {
        SessionStateV1 { version: CURRENT_VERSION, state }
    }

    /// The state, whatever the version.
    pub fn into_state(self) -> (state: SessionState)
        ensures
            state == self.state,
    {
        self.state
    }

    /// The state, unless a newer program wrote it.
    pub fn decode(self) -> (r: Result<SessionState, PersistError>)
        ensures
            r == unwrapped(self),
    {
        match check_version(Some(self.version)) {
            Ok(()) => Ok(self.into_state()),
            Err(e) => Err(e),
        }
    }
}

/// What is written is read back, and nothing that a newer program wrote is.
pub proof fn states_are_read_back(state: SessionState, version: u32)
    ensures
        unwrapped(wrapped(state)) == Ok::<SessionState, PersistError>(state),
        version > CURRENT_VERSION ==> unwrapped(SessionStateV1 { version, state }) is Err,
{
}

/// Whatever an older or the same version wrote is read as it is.
pub proof fn older_states_are_read(v: SessionStateV1)
    ensures
        v.version <= 1 ==> unwrapped(v) == Ok::<SessionState, PersistError>(v.state),
        v.version > 1 ==> unwrapped(v) == Err::<SessionState, PersistError>(
            PersistError::FutureSchema { found: v.version, supported: 1 },
        ),
        wrapped(v.state).version == 1,
        wrapped(v.state).state == v.state,
{
}

/// An error tells what went wrong, and a version that is too new together with the newest that
/// can be read.
pub proof fn persist_errors_tell_the_cause(s: String, found: u32, supported: u32)
    ensures
        s@.is_suffix_of(persist_error_text(PersistError::Io(s))),
        s@.is_suffix_of(persist_error_text(PersistError::Json(s))),
        scan::occurs(
            persist_error_text(PersistError::FutureSchema { found, supported }),
            "version "@ + text::decimal(found as nat),
        ),
        scan::occurs(
            persist_error_text(PersistError::FutureSchema { found, supported }),
            "("@ + text::decimal(supported as nat) + ")"@,
        ),
{
    let a = "IO error: "@ + s@;
    let b = "JSON parse error: "@ + s@;
    assert(a.subrange(a.len() - s@.len(), a.len() as int) =~= s@);
    assert(b.subrange(b.len() - s@.len(), b.len() as int) =~= s@);
    let n = text::decimal(found as nat);
    let m = text::decimal(supported as nat);
    let all = persist_error_text(PersistError::FutureSchema { found, supported });
    reveal_strlit("schema version ");
    reveal_strlit("schema ");
    reveal_strlit("version ");
    reveal_strlit(" is newer than the max supported (");
    reveal_strlit(" is newer than the max supported ");
    reveal_strlit("(");
    reveal_strlit(")");
    reveal_strlit("); upgrade your harness");
    reveal_strlit("; upgrade your harness");
    assert("schema version "@ =~= "schema "@ + "version "@);
    assert(" is newer than the max supported ("@ =~= " is newer than the max supported "@ + "("@);
    assert("); upgrade your harness"@ =~= ")"@ + "; upgrade your harness"@);
    let rest = " is newer than the max supported ("@ + m + "); upgrade your harness"@;
    assert(all =~= "schema "@ + ("version "@ + n) + rest);
    scan::lemma_part_occurs("schema "@, "version "@ + n, rest);
    let pre = "schema version "@ + n + " is newer than the max supported "@;
    assert(all =~= pre + ("("@ + m + ")"@) + "; upgrade your harness"@);
    scan::lemma_part_occurs(pre, "("@ + m + ")"@, "; upgrade your harness"@);
}

} // verus!
