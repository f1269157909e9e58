//! Changes of the state of a session, as its subscribers are told of them.

use vstd::prelude::*;

use crate::json::Json;
use crate::state::categories::{EffortLevel, SessionId};

verus! {

/// How many events a slow subscriber may be behind.
pub const EVENT_CHANNEL_CAPACITY: usize = 64;

/// A change of the state.
#[derive(Clone, Debug, PartialEq, Eq)]
pub enum StateEvent {
    /// Another session became the active one.
    SessionSwitched { from: SessionId, to: SessionId },
    /// A message was added, from this role.
    MessageAppended { role: String },
    /// The behavioral mode is another.
    ModeChanged { new: Json },
    /// The effort level is another.
    EffortChanged { new: EffortLevel },
    /// A decision on permissions was made.
    PermissionsMutated,
    /// The messages are gone. The session is the same.
    Cleared,
}

/// The changes that were made under one write lock. Subscribers are told of them once it is
/// released.
#[derive(Debug)]
pub struct StateWriteLog {
    pending: Vec<StateEvent>,
}

impl View for StateWriteLog {
    type V = Seq<StateEvent>;

    closed spec fn view(&self) -> Seq<StateEvent> {
        self.pending@
    }
}

impl StateWriteLog {
    /// No changes.
    pub fn new() -> (l: StateWriteLog)
        ensures
            l@ == Seq::<StateEvent>::empty(),
    {
        StateWriteLog { pending: Vec::new() }
    }

    /// Notes a change.
    pub fn note(&mut self, event: StateEvent)
        ensures
            final(self)@ == old(self)@.push(event),
    {
        self.pending.push(event);
    }

    /// The changes, in the order in which they were noted. Each is handed out once.
    pub fn drain(&mut self) -> (events: Vec<StateEvent>)
        ensures
            events@ == old(self)@,
            final(self)@ == Seq::<StateEvent>::empty(),
    {
        let mut events: Vec<StateEvent> = Vec::new();
        std::mem::swap(&mut events, &mut self.pending);
        events
    }
}

} // verus!
