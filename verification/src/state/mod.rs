//! The state of a session, in one place.

use vstd::prelude::*;

pub mod categories;
pub mod persist;
pub mod store;

pub use categories::{
    AgentMode, BudgetsState, Conversation, EffortLevel, Identity, ModesState, PermissionsState,
    PlanModeUi, SessionId, TranscriptState, UiState,
};
pub use persist::SessionStateV1;
pub use store::{StateEvent, StateWriteLog};

use categories::{blank_ui, is_rooted_at};

verus! {

/// The state of a session, by concern.
#[derive(Clone, Debug)]
pub struct SessionState {
    pub identity: Identity,
    pub conversation: Conversation,
    pub ui: UiState,
    pub modes: ModesState,
    pub permissions: PermissionsState,
    pub budgets: BudgetsState,
    pub transcript: TranscriptState,
}

/// The session has just begun in `cwd`.
pub open spec fn is_blank(s: SessionState, cwd: Seq<char>) -> bool {
    &&& is_rooted_at(s.identity, cwd)
    &&& s.conversation.messages@.len() == 0
    &&& s.conversation.undo_stack@.len() == 0
    &&& s.conversation.approved_plan is None
    &&& s.conversation.plan_mode is None
    &&& s.conversation.behavior_mode == crate::json::Json::Null
    &&& s.ui == blank_ui()
    &&& s.modes == (ModesState { agent_mode: AgentMode::Build, coordinator: false })
    &&& s.permissions == (PermissionsState {
        bypass_mode: false,
        trust_accepted: false,
        persistence_disabled: false,
    })
    &&& s.budgets == (BudgetsState {
        effort_level: EffortLevel::Medium,
        thinking_budget_override: None,
        estimated_tokens: 0,
    })
    &&& s.transcript.watermark == 0
    &&& s.transcript.transcript_cwd@.len() == 0
}

impl SessionState {
    /// The state of a session that begins in `cwd`, with a random identifier.
    pub fn new(cwd: String) -> (s: SessionState)
        ensures
            is_blank(s, cwd@),
    {
        SessionState {
            identity: Identity::rooted_at(cwd),
            conversation: Conversation::default(),
            ui: UiState::default(),
            modes: ModesState::default(),
            permissions: PermissionsState::default(),
            budgets: BudgetsState::default(),
            transcript: TranscriptState::default(),
        }
    }
}

impl Default for SessionState {
    fn default() -> (s: SessionState)
        ensures
            is_blank(s, "."@),
    {
        SessionState::new(".".to_owned())
    }
}

/// A new session stands in its directory, has no past and asks for permission.
pub proof fn new_sessions_are_blank(s: SessionState, cwd: Seq<char>)
    requires
        is_blank(s, cwd),
    ensures
        s.identity.cwd@ == cwd,
        s.identity.original_cwd@ == cwd,
        s.identity.project_root@ == cwd,
        s.identity.session_project_dir@ == cwd,
        s.identity.parent_session_id is None,
        s.conversation.messages@.len() == 0,
        s.conversation.plan_mode is None,
        !s.permissions.bypass_mode,
        !s.permissions.trust_accepted,
        s.modes.agent_mode == AgentMode::Build,
        s.budgets.effort_level == EffortLevel::Medium,
        s.budgets.estimated_tokens == 0,
        s.transcript.watermark == 0,
{
}

} // verus!
