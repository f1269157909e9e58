use openclaudia::json::{self, Json};
use openclaudia::state::categories::{
    BudgetsState, Conversation, EffortLevel, Identity, PermissionsState, SessionId,
};
use openclaudia::state::persist::{check_version, PersistError, SessionStateV1, CURRENT_VERSION};
use openclaudia::state::store::{StateEvent, StateWriteLog, EVENT_CHANNEL_CAPACITY};
use openclaudia::state::SessionState;

#[test]
fn session_id_is_uuid_shaped() {
    let id = SessionId::new();
    // UUID v4 as a hyphenated string is 36 characters.
    assert_eq!(id.as_str().len(), 36);
    let s = id.to_string();
    assert_eq!(s, id.as_str());
    assert_eq!(s.matches('-').count(), 4);
}

#[test]
fn session_id_round_trips_from_raw() {
    let raw = "abcd-1234";
    let id = SessionId::from_raw(raw.to_string());
    assert_eq!(id.as_str(), raw);
}

#[test]
fn identity_rooted_sets_every_directory_field() {
    let cwd = "/home/user/project";
    let id = Identity::rooted_at(cwd.to_string());
    assert_eq!(id.original_cwd, cwd);
    assert_eq!(id.cwd, cwd);
    assert_eq!(id.project_root, cwd);
    assert_eq!(id.session_project_dir, cwd);
    assert!(id.additional_directories_for_claude_md.is_empty());
    assert!(id.parent_session_id.is_none());
}

#[test]
fn effort_level_parses_common_aliases() {
    assert_eq!(EffortLevel::parse("low"), Some(EffortLevel::Low));
    assert_eq!(EffortLevel::parse("l"), Some(EffortLevel::Low));
    assert_eq!(EffortLevel::parse("MEDIUM"), Some(EffortLevel::Medium));
    assert_eq!(EffortLevel::parse("med"), Some(EffortLevel::Medium));
    assert_eq!(EffortLevel::parse("High"), Some(EffortLevel::High));
    assert_eq!(EffortLevel::parse("max"), Some(EffortLevel::Max));
    assert_eq!(EffortLevel::parse("xxl"), None);
}

#[test]
fn effort_level_as_str_matches_wire_format() {
    assert_eq!(EffortLevel::Low.as_str(), "low");
    assert_eq!(EffortLevel::Medium.as_str(), "medium");
    assert_eq!(EffortLevel::High.as_str(), "high");
    assert_eq!(EffortLevel::Max.as_str(), "max");
}

#[test]
fn effort_words_survive_a_round_trip() {
    for level in [
        EffortLevel::Low,
        EffortLevel::Medium,
        EffortLevel::High,
        EffortLevel::Max,
    ] {
        assert_eq!(EffortLevel::parse(level.as_str()), Some(level));
    }
}

#[test]
fn effort_words_are_read_in_any_case() {
    for word in ["low", "L", "mEdIuM", "MED", "hIGH", "h", "MAX", "xxl", ""] {
        assert_eq!(
            EffortLevel::parse(word),
            EffortLevel::parse(&word.to_lowercase())
        );
        assert_eq!(
            EffortLevel::parse(word),
            EffortLevel::parse(&word.to_uppercase())
        );
    }
    assert_eq!(EffortLevel::parse("mEdIuM"), Some(EffortLevel::Medium));
}

#[test]
fn defaults_match_existing_tui_session_defaults() {
    let conv = Conversation::default();
    assert!(conv.messages.is_empty());
    assert!(conv.undo_stack.is_empty());
    assert!(conv.approved_plan.is_none());

    let budgets = BudgetsState::default();
    assert_eq!(budgets.effort_level, EffortLevel::Medium);
    assert!(budgets.thinking_budget_override.is_none());

    let perms = PermissionsState::default();
    assert!(!perms.bypass_mode);
    assert!(!perms.trust_accepted);
}

#[test]
fn default_is_constructible() {
    let state = SessionState::default();
    assert!(!state.identity.session_id.as_str().is_empty());
    assert!(state.conversation.messages.is_empty());
    assert!(state.transcript.watermark == 0);
}

#[test]
fn new_uses_supplied_cwd() {
    let cwd = "/tmp/some-project";
    let state = SessionState::new(cwd.to_string());
    assert_eq!(state.identity.cwd, cwd);
    assert_eq!(state.identity.original_cwd, cwd);
}

#[test]
fn distinct_sessions_have_distinct_ids() {
    let a = SessionState::default();
    let b = SessionState::default();
    assert_ne!(a.identity.session_id, b.identity.session_id);
}

#[test]
fn encode_round_trips() {
    let mut state = SessionState::new("/tmp/x".to_string());
    state
        .conversation
        .messages
        .push(json::parse(r#"{"role": "user", "content": "hello"}"#).unwrap());
    state.budgets.effort_level = EffortLevel::High;
    state.ui.plan_mode.has_exited = true;
    let decoded = SessionStateV1::wrap(state.clone()).decode().unwrap();
    assert_eq!(decoded.identity.session_id, state.identity.session_id);
    assert_eq!(decoded.identity.cwd, state.identity.cwd);
    assert_eq!(decoded.conversation.messages, state.conversation.messages);
    assert_eq!(decoded.budgets.effort_level, state.budgets.effort_level);
    assert!(decoded.ui.plan_mode.has_exited);
}

#[test]
fn encoded_payload_carries_version_tag() {
    let encoded = SessionStateV1::wrap(SessionState::default());
    assert_eq!(encoded.version, 1);
    assert_eq!(CURRENT_VERSION, 1);
}

#[test]
fn future_schema_is_rejected() {
    // Simulate a file written by a newer program.
    let payload = SessionStateV1 {
        version: 999,
        state: SessionState::default(),
    };
    match payload.decode() {
        Err(PersistError::FutureSchema { found, supported }) => {
            assert_eq!(found, 999);
            assert_eq!(supported, 1);
        }
        other => panic!("expected FutureSchema, got {other:?}"),
    }
}

#[test]
fn missing_version_decodes_as_zero() {
    assert!(check_version(None).is_ok());
    assert!(check_version(Some(0)).is_ok());
    assert!(check_version(Some(1)).is_ok());
    assert!(check_version(Some(2)).is_err());
}

#[test]
fn persist_errors_are_told_in_words() {
    assert_eq!(
        PersistError::Io("denied".to_string()).message(),
        "IO error: denied"
    );
    assert_eq!(
        PersistError::Json("bad".to_string()).message(),
        "JSON parse error: bad"
    );
    assert_eq!(
        check_version(Some(999)).unwrap_err().message(),
        "schema version 999 is newer than the max supported (1); upgrade your harness"
    );
}

#[test]
fn multiple_notes_emit_in_order() {
    let mut log = StateWriteLog::new();
    log.note(StateEvent::EffortChanged {
        new: EffortLevel::High,
    });
    log.note(StateEvent::PermissionsMutated);
    log.note(StateEvent::ModeChanged {
        new: Json::string("plan"),
    });
    let events = log.drain();
    assert_eq!(
        events,
        vec![
            StateEvent::EffortChanged {
                new: EffortLevel::High
            },
            StateEvent::PermissionsMutated,
            StateEvent::ModeChanged {
                new: Json::string("plan")
            },
        ]
    );
    assert!(log.drain().is_empty());
    assert_eq!(EVENT_CHANNEL_CAPACITY, 64);
}
