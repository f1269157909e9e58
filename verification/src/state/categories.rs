//! The parts of the state of a session, by concern.

use vstd::prelude::*;

use crate::ids;
use crate::json::Json;
use crate::session::state::PlanModeState;
use crate::text;

verus! {

/// Session identifier.
#[derive(Clone, Debug, PartialEq, Eq, Hash)]
pub struct SessionId(String);

impl View for SessionId {
    type V = Seq<char>;

    closed spec fn view(&self) -> Seq<char> {
        self.0@
    }
}

impl SessionId {
    /// A random identifier.
    pub fn new() -> (id: SessionId)
        ensures
            ids::uuid_shaped(id@),
    {
        SessionId(ids::fresh_uuid())
    }

    /// The text of the identifier.
    pub fn as_str(&self) -> (s: &str)
        ensures
            s@ == self@,
    {
        self.0.as_str()
    }

    /// A copy of the text of the identifier.
    pub fn to_string(&self) -> (s: String)
        ensures
            s@ == self@,
    {
        self.0.clone()
    }

    /// The identifier with the given text, whatever it is.
    pub fn from_raw(s: String) -> (id: SessionId)
        ensures
            id@ == s@,
    {
        SessionId(s)
    }
}

impl Default for SessionId {
    fn default() -> (id: SessionId)
        ensures
            ids::uuid_shaped(id@),
    {
        SessionId::new()
    }
}

/// Who, where and which.
#[derive(Clone, Debug)]
pub struct Identity {
    pub session_id: SessionId,
    /// The session that this one was forked from, if it was.
    pub parent_session_id: Option<SessionId>,
    /// Where the program was started.
    pub original_cwd: String,
    /// The current directory.
    pub cwd: String,
    /// The root of the project.
    pub project_root: String,
    /// Where the files about the session are.
    pub session_project_dir: String,
    /// More directories with instructions for the system prompt.
    pub additional_directories_for_claude_md: Vec<String>,
}

/// Every directory of the identity is `cwd`, and there is nothing else.
pub open spec fn is_rooted_at(id: Identity, cwd: Seq<char>) -> bool {
    &&& ids::uuid_shaped(id.session_id@)
    &&& id.parent_session_id is None
    &&& id.original_cwd@ == cwd
    &&& id.cwd@ == cwd
    &&& id.project_root@ == cwd
    &&& id.session_project_dir@ == cwd
    &&& id.additional_directories_for_claude_md@.len() == 0
}

impl Identity {
    /// An identity with `cwd` for every directory.
    pub fn rooted_at(cwd: String) -> (id: Identity)
        ensures
            is_rooted_at(id, cwd@),
    {
        Identity {
            session_id: SessionId::new(),
            parent_session_id: None,
            original_cwd: cwd.clone(),
            cwd: cwd.clone(),
            project_root: cwd.clone(),
            session_project_dir: cwd,
            additional_directories_for_claude_md: Vec::new(),
        }
    }
}

/// What is said in a session, and what may be undone of it.
#[derive(Clone, Debug)]
pub struct Conversation {
    /// Messages in the shape of the wire.
    pub messages: Vec<Json>,
    /// Pairs of messages, of the user and of the assistant, that were undone.
    pub undo_stack: Vec<(Json, Json)>,
    /// An approved plan that is put into the next turn.
    pub approved_plan: Option<String>,
    /// Plan mode, where it was entered.
    pub plan_mode: Option<PlanModeState>,
    /// The behavioral mode.
    pub behavior_mode: Json,
}

impl Default for Conversation {
    fn default() -> (c: Conversation)
        ensures
            c.messages@.len() == 0,
            c.undo_stack@.len() == 0,
            c.approved_plan is None,
            c.plan_mode is None,
            c.behavior_mode == Json::Null,
    {
        Conversation {
            messages: Vec::new(),
            undo_stack: Vec::new(),
            approved_plan: None,
            plan_mode: None,
            behavior_mode: Json::Null,
        }
    }
}

/// What the interface remembers of plan mode.
#[derive(Clone, Copy, Debug, PartialEq, Eq, Structural)]
pub struct PlanModeUi {
    /// Plan mode was left at least once.
    pub has_exited: bool,
    /// A plan is to be attached to the next message of the user.
    pub needs_exit_attachment: bool,
}

/// What the interface remembers.
#[derive(Clone, Copy, Debug, PartialEq, Eq, Structural)]
pub struct UiState {
    pub plan_mode: PlanModeUi,
    /// Something is to be attached because auto mode was left.
    pub needs_auto_mode_exit_attachment: bool,
    /// The recommendation of a language server was shown.
    pub lsp_recommendation_shown_this_session: bool,
}

/// The interface remembers nothing.
pub open spec fn blank_ui() -> UiState {
    UiState {
        plan_mode: PlanModeUi { has_exited: false, needs_exit_attachment: false },
        needs_auto_mode_exit_attachment: false,
        lsp_recommendation_shown_this_session: false,
    }
}

impl Default for UiState {
    fn default() -> (u: UiState)
        ensures
            u == blank_ui(),
    {
        UiState {
            plan_mode: PlanModeUi { has_exited: false, needs_exit_attachment: false },
            needs_auto_mode_exit_attachment: false,
            lsp_recommendation_shown_this_session: false,
        }
    }
}

/// The mode of the agent.
#[derive(Clone, Copy, Debug, PartialEq, Eq, Structural)]
pub enum AgentMode {
    /// Everything is permitted.
    Build,
    /// Tools that change something are blocked.
    Plan,
}

impl Default for AgentMode {
    fn default() -> (m: AgentMode)
        ensures
            m == AgentMode::Build,
    {
        AgentMode::Build
    }
}

/// Modes of the agent.
#[derive(Clone, Copy, Debug, PartialEq, Eq, Structural)]
pub struct ModesState {
    pub agent_mode: AgentMode,
    /// The agent leads others.
    pub coordinator: bool,
}

impl Default for ModesState {
    fn default() -> (m: ModesState)
        ensures
            m == (ModesState { agent_mode: AgentMode::Build, coordinator: false }),
    {
        ModesState { agent_mode: AgentMode::Build, coordinator: false }
    }
}

/// Decisions on permissions.
#[derive(Clone, Copy, Debug, PartialEq, Eq, Structural)]
pub struct PermissionsState {
    /// Permissions are not asked for.
    pub bypass_mode: bool,
    /// The user trusts the project.
    pub trust_accepted: bool,
    /// Decisions are not kept.
    pub persistence_disabled: bool,
}

impl Default for PermissionsState {
    fn default() -> (p: PermissionsState)
        ensures
            p == (PermissionsState {
                bypass_mode: false,
                trust_accepted: false,
                persistence_disabled: false,
            }),
    {
        PermissionsState { bypass_mode: false, trust_accepted: false, persistence_disabled: false }
    }
}

/// How much a model is to think.
#[derive(Clone, Copy, Debug, PartialEq, Eq, Structural)]
pub enum EffortLevel {
    Low,
    Medium,
    High,
    Max,
}

impl Default for EffortLevel {
    fn default() -> (e: EffortLevel)
        ensures
            e == EffortLevel::Medium,
    {
        EffortLevel::Medium
    }
}

/// The level that a word in small letters stands for.
pub open spec fn effort_of(word: Seq<char>) -> Option<EffortLevel> {
    if word == "low"@ || word == "l"@ {
        Some(EffortLevel::Low)
    } else if word == "medium"@ || word == "med"@ || word == "m"@ {
        Some(EffortLevel::Medium)
    } else if word == "high"@ || word == "h"@ {
        Some(EffortLevel::High)
    } else if word == "max"@ {
        Some(EffortLevel::Max)
    } else {
        None
    }
}

impl EffortLevel {
    /// The word for the level.
    pub open spec fn text(self) -> Seq<char> {
        match self {
            EffortLevel::Low => "low"@,
            EffortLevel::Medium => "medium"@,
            EffortLevel::High => "high"@,
            EffortLevel::Max => "max"@,
        }
    }

    /// The word for the level.
    pub fn as_str(self) -> (s: &'static str)
        ensures
            s@ == self.text(),
    {
        match self {
            EffortLevel::Low => "low",
            EffortLevel::Medium => "medium",
            EffortLevel::High => "high",
            EffortLevel::Max => "max",
        }
    }

    /// The level that a word stands for, in whatever case.
    pub fn parse(s: &str) -> (level: Option<EffortLevel>)
        ensures
            level == effort_of(text::lowered(s@)),
    {
        let word = text::to_lowercase(s);
        let w = word.as_str();
        if text::str_eq(w, "low") || text::str_eq(w, "l") {
            Some(EffortLevel::Low)
        } else if text::str_eq(w, "medium") || text::str_eq(w, "med") || text::str_eq(w, "m") {
            Some(EffortLevel::Medium)
        } else if text::str_eq(w, "high") || text::str_eq(w, "h") {
            Some(EffortLevel::High)
        } else if text::str_eq(w, "max") {
            Some(EffortLevel::Max)
        } else {
            None
        }
    }
}

/// The word for a level stands for the level.
pub proof fn effort_words_are_read_back(level: EffortLevel)
    ensures
        effort_of(text::lowered(level.text())) == Some(level),
{
    reveal_strlit("low");
    reveal_strlit("l");
    reveal_strlit("medium");
    reveal_strlit("med");
    reveal_strlit("m");
    reveal_strlit("high");
    reveal_strlit("h");
    reveal_strlit("max");
    let word = level.text();
    assert(text::ascii_lowercase(word) =~= word);
    assert(vstd::utf8::is_ascii_chars(word));
    assert("medium"@.len() == 6);
    assert("high"@.len() == 4);
    assert("max"@[0] != "low"@[0]);
    assert("max"@[1] != "med"@[1]);
}

/// A word that stands for a level stands for it in small letters too, and of words in ASCII
/// each is read as it is in small letters.
pub proof fn effort_words_are_read_in_any_case(s: Seq<char>)
    ensures
        effort_of(text::lowered(s)) is Some ==> effort_of(text::lowered(text::lowered(s)))
            == effort_of(text::lowered(s)),
        vstd::utf8::is_ascii_chars(s) ==> effort_of(text::lowered(text::lowered(s))) == effort_of(
            text::lowered(s),
        ),
{
    let word = text::lowered(s);
    if effort_of(word) is Some {
        reveal_strlit("low");
        reveal_strlit("l");
        reveal_strlit("medium");
        reveal_strlit("med");
        reveal_strlit("m");
        reveal_strlit("high");
        reveal_strlit("h");
        reveal_strlit("max");
        assert(vstd::utf8::is_ascii_chars(word));
        assert(text::ascii_lowercase(word) =~= word);
    }
    if vstd::utf8::is_ascii_chars(s) {
        assert(vstd::utf8::is_ascii_chars(word));
        assert(text::ascii_lowercase(word) =~= word);
    }
}

/// Budgets.
#[derive(Clone, Copy, Debug, PartialEq, Eq, Structural)]
pub struct BudgetsState {
    pub effort_level: EffortLevel,
    /// Tokens for thinking, in place of those of the effort level.
    pub thinking_budget_override: Option<u32>,
    /// Estimate of the tokens used so far.
    pub estimated_tokens: usize,
}

impl Default for BudgetsState {
    fn default() -> (b: BudgetsState)
        ensures
            b == (BudgetsState {
                effort_level: EffortLevel::Medium,
                thinking_budget_override: None,
                estimated_tokens: 0,
            }),
    {
        BudgetsState {
            effort_level: EffortLevel::Medium,
            thinking_budget_override: None,
            estimated_tokens: 0,
        }
    }
}

/// How far the transcript of the session has been written.
#[derive(Clone, Debug)]
pub struct TranscriptState {
    /// How many messages are in the transcript.
    pub watermark: usize,
    /// The directory in which the transcript was begun.
    pub transcript_cwd: String,
}

impl Default for TranscriptState {
    fn default() -> (t: TranscriptState)
        ensures
            t.watermark == 0,
            t.transcript_cwd@.len() == 0,
    {
        TranscriptState { watermark: 0, transcript_cwd: String::new() }
    }
}

/// An effort level is read from its word, from the first letter of `low`, `medium` and `high`,
/// and from `med`; no other word is read.
pub proof fn effort_words_are_known(word: Seq<char>)
    ensures
        effort_of("low"@) == Some(EffortLevel::Low),
        effort_of("l"@) == Some(EffortLevel::Low),
        effort_of("medium"@) == Some(EffortLevel::Medium),
        effort_of("med"@) == Some(EffortLevel::Medium),
        effort_of("m"@) == Some(EffortLevel::Medium),
        effort_of("high"@) == Some(EffortLevel::High),
        effort_of("h"@) == Some(EffortLevel::High),
        effort_of("max"@) == Some(EffortLevel::Max),
        effort_of(word) matches Some(level) ==> word == level.text() || word.len() == 1 || word
            == "med"@,
        word.len() == 1 && effort_of(word) is Some ==> word[0] == (effort_of(word)->0).text()[0],
        word.len() == 0 ==> effort_of(word) is None,
{
    reveal_strlit("low");
    reveal_strlit("l");
    reveal_strlit("medium");
    reveal_strlit("med");
    reveal_strlit("m");
    reveal_strlit("high");
    reveal_strlit("h");
    reveal_strlit("max");
    assert("low"@[0] == 'l' && "l"@[0] == 'l');
    assert("medium"@[0] == 'm' && "med"@[0] == 'm' && "m"@[0] == 'm');
    assert("high"@[0] == 'h' && "h"@[0] == 'h');
    assert("max"@[0] == 'm');
    assert("med"@[1] == 'e' && "max"@[1] == 'a');
    assert("max"@.len() == 3 && "medium"@.len() == 6 && "high"@.len() == 4);
    assert("l"@.len() == 1 && "m"@.len() == 1 && "h"@.len() == 1);
}

} // verus!
