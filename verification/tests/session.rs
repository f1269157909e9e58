use openclaudia::clock::Timestamp;
use openclaudia::json::{self, Json};
use openclaudia::session::audit::{audit_entry, audit_file_name, AuditError};
use openclaudia::session::manager::{
    accept_loaded, cleanup_old_sessions, is_session_file, session_file_name, sort_sessions,
    staging_name, unique_staging_name, EndSessionError, SessionManager,
};
use openclaudia::session::record::{
    get_session_context, validate_session_file_id, Session, SessionMode, SessionView,
    MAX_TURN_METRICS,
};
use openclaudia::session::state::{
    is_tool_allowed_in_plan_mode, is_tool_allowed_in_plan_mode_with_policy,
    plan_mode_allowed_tools, plan_write_target, FileAnswers, FileFault, FileQuestion,
    PlanModeEntryError, PlanModePolicy, PlanModeState,
};
use openclaudia::session::TokenUsage;

fn usage(input: u64, output: u64, read: u64, write: u64) -> TokenUsage {
    TokenUsage {
        input_tokens: input,
        output_tokens: output,
        cache_read_tokens: read,
        cache_write_tokens: write,
    }
}

fn manager() -> SessionManager {
    SessionManager::new("sessions".to_string())
}

// ── Sessions ────────────────────────────────────────────────────────────

#[test]
fn test_new_initializer_session() {
    let session = Session::new_initializer();
    assert_eq!(session.mode, SessionMode::Initializer);
    assert!(session.parent_session_id.is_none());
    assert_eq!(session.request_count, 0);
    assert_eq!(session.id.len(), 36);
    assert!(session.created_at.secs() > 1_700_000_000);
}

#[test]
fn test_new_coding_session() {
    let session = Session::new_coding("parent-123");
    assert_eq!(session.mode, SessionMode::Coding);
    assert_eq!(session.parent_session_id, Some("parent-123".to_string()));
}

#[test]
fn test_session_progress() {
    let mut session = Session::new_initializer();
    session.complete_task("Task 1".to_string());
    session.add_modified_file("src/main.rs".to_string());
    session.set_handoff_notes("Continue with task 2".to_string());

    assert_eq!(session.progress.completed_tasks.len(), 1);
    assert_eq!(session.progress.files_modified.len(), 1);
    assert!(!session.progress.handoff_notes.is_empty());
}

#[test]
fn test_generate_handoff() {
    let mut session = Session::new_initializer();
    session.complete_task("Implemented feature X".to_string());
    session
        .progress
        .pending_tasks
        .push("Test feature X".to_string());
    session.set_handoff_notes("Feature X works but needs tests".to_string());

    let handoff = session.generate_handoff();
    assert!(handoff.contains("Implemented feature X"));
    assert!(handoff.contains("Test feature X"));
    assert!(handoff.contains("needs tests"));
}

#[test]
fn handoffs_are_told_in_full() {
    let at = Timestamp::new(1_700_000_000, 0).unwrap();
    let mut session = Session::start("s-1".to_string(), None, at);
    session.progress.completed_tasks.push("one".to_string());
    session.progress.in_progress_tasks.push("two".to_string());
    session.progress.decisions.push("three".to_string());
    session.cumulative_usage = usage(7, 3, 2, 0);
    session.total_turns = 4;
    assert_eq!(
        session.generate_handoff(),
        "## Session Handoff\n\n\
         Previous Session: s-1\n\
         Mode: Initializer\n\
         Duration: 2023-11-14 22:13 UTC to 2023-11-14 22:13 UTC\n\n\
         ### Completed Tasks\n- [x] one\n\n\
         ### In Progress\n- [ ] two\n\n\
         ### Key Decisions\n- three\n\n\
         \n### Token Usage\n\
         - Input: 7 tokens\n\
         - Output: 3 tokens\n\
         - Cache read: 2 tokens\n\
         - Turns: 4\n"
    );
}

#[test]
fn stats_are_told_in_full() {
    let at = Timestamp::new(1_700_000_000, 0).unwrap();
    let mut session = Session::start("s-1".to_string(), Some("s-0".to_string()), at);
    session.cumulative_usage = usage(7, 3, 2, 1);
    let stats = session.stats_summary();
    assert!(stats.starts_with("Session: s-1\nMode: Coding\nTurns: 0\nRequests: 0\n"));
    assert!(stats.contains("Total tokens:  10\n"), "{stats}");
}

#[test]
fn token_usage_total_excludes_cache() {
    let u = TokenUsage {
        input_tokens: 100,
        output_tokens: 50,
        cache_read_tokens: 200,
        cache_write_tokens: 300,
    };
    assert_eq!(u.total(), 150, "total() must be input + output only");
}

#[test]
fn token_usage_accumulate_sums_all_fields() {
    let mut acc = TokenUsage {
        input_tokens: 10,
        output_tokens: 5,
        cache_read_tokens: 20,
        cache_write_tokens: 30,
    };
    let delta = TokenUsage {
        input_tokens: 100,
        output_tokens: 50,
        cache_read_tokens: 200,
        cache_write_tokens: 300,
    };
    acc.accumulate(&delta);
    assert_eq!(acc.input_tokens, 110);
    assert_eq!(acc.output_tokens, 55);
    assert_eq!(acc.cache_read_tokens, 220);
    assert_eq!(acc.cache_write_tokens, 330);
}

#[test]
fn session_record_actual_usage_accumulates() {
    let mut session = Session::new_initializer();

    session.record_turn_estimate(1000, 100, 80, 20);
    session.record_actual_usage(usage(500, 250, 0, 0));

    assert_eq!(session.cumulative_usage.input_tokens, 500);
    assert_eq!(session.cumulative_usage.output_tokens, 250);
    assert_eq!(
        session.total_tokens(),
        750,
        "total_tokens() must derive input+output from cumulative_usage"
    );

    // Second turn
    session.record_turn_estimate(800, 90, 70, 20);
    session.record_actual_usage(usage(300, 100, 50, 0));
    assert_eq!(session.cumulative_usage.input_tokens, 800);
    assert_eq!(session.cumulative_usage.output_tokens, 350);
    assert_eq!(session.cumulative_usage.cache_read_tokens, 50);
    assert_eq!(session.total_tokens(), 1150);
    assert_eq!(
        session.turn_metrics[0].actual_usage,
        Some(usage(500, 250, 0, 0))
    );
}

#[test]
fn legacy_total_tokens_in_persisted_json_is_absorbed() {
    let mut session = Session::new_initializer();
    session.legacy_total_tokens = Some(9999);
    // The legacy figure is kept apart from what is counted.
    assert_eq!(session.total_tokens(), 0);
    assert_eq!(session.legacy_persisted_total_tokens(), Some(9999));
}

#[test]
fn session_turn_numbers_monotonically_increasing() {
    let mut session = Session::new_initializer();
    let t1 = session.record_turn_estimate(100, 10, 8, 2);
    let t2 = session.record_turn_estimate(200, 20, 16, 4);
    let t3 = session.record_turn_estimate(300, 30, 24, 6);
    assert_eq!(t1, 1);
    assert_eq!(t2, 2);
    assert_eq!(t3, 3);
    assert_eq!(session.turn_metrics.len(), 3);
}

#[test]
fn session_context_initializer_mode() {
    let session = Session::new_initializer();
    let ctx = get_session_context(&session);
    assert!(
        ctx.contains("Initializer"),
        "initializer mode context must identify the agent role"
    );
}

#[test]
fn session_context_coding_mode_includes_parent() {
    let session = Session::new_coding("parent-abc");
    let ctx = get_session_context(&session);
    assert!(
        ctx.contains("Coding") || ctx.contains("continuing"),
        "coding mode context must identify continuation"
    );
    assert!(
        ctx.contains("parent-abc"),
        "coding mode context must include parent session ID"
    );
}

#[test]
fn add_modified_file_is_idempotent() {
    let mut session = Session::new_initializer();
    session.add_modified_file("src/main.rs".to_string());
    session.add_modified_file("src/main.rs".to_string());
    session.add_modified_file("src/main.rs".to_string());
    assert_eq!(
        session.progress.files_modified.len(),
        1,
        "duplicate file paths must not be added"
    );
}

#[test]
fn issue_285_turn_metrics_stays_bounded_under_push_pressure() {
    let mut session = Session::new_initializer();

    let pushes = MAX_TURN_METRICS * 10; // 10 000 turns
    for _ in 0..pushes {
        session.record_turn_estimate(1_000, 100, 80, 20);
    }

    assert_eq!(
        session.turn_metrics.len(),
        MAX_TURN_METRICS,
        "turn_metrics.len() must be capped at MAX_TURN_METRICS after {pushes} pushes",
    );
    assert_eq!(
        session.total_turns, pushes as u64,
        "total_turns must equal the total number of record_turn_estimate calls"
    );
}

#[test]
fn issue_285_evicted_turn_numbers_remain_monotonic() {
    let mut session = Session::new_initializer();

    // Push cap + 5 entries so eviction has definitely happened.
    let pushes = MAX_TURN_METRICS + 5;
    for _ in 0..pushes {
        session.record_turn_estimate(500, 50, 40, 10);
    }

    let nums: Vec<u64> = session.turn_metrics.iter().map(|t| t.turn_number).collect();
    for window in nums.windows(2) {
        assert!(
            window[0] < window[1],
            "turn_numbers must be strictly increasing after eviction: {:?}",
            &window
        );
    }

    // The oldest retained entry's turn_number must be > the evicted count.
    let evicted = (pushes - MAX_TURN_METRICS) as u64;
    assert!(
        nums[0] > evicted,
        "first retained turn_number ({}) must be > evicted count ({})",
        nums[0],
        evicted
    );
}

#[test]
fn issue_285_cumulative_usage_unaffected_by_eviction() {
    let mut session = Session::new_initializer();

    let turns = MAX_TURN_METRICS + 50;
    for _ in 0..turns {
        session.record_turn_estimate(100, 10, 8, 2);
        session.record_actual_usage(usage(1, 1, 0, 0));
    }

    assert_eq!(
        session.cumulative_usage.input_tokens, turns as u64,
        "cumulative input_tokens must count all turns, not just retained ones"
    );
    assert_eq!(
        session.cumulative_usage.output_tokens, turns as u64,
        "cumulative output_tokens must count all turns, not just retained ones"
    );
}

#[test]
fn issue_458_session_view_is_zero_copy_multi_borrow() {
    let mut session = Session::new_initializer();
    session.record_turn_estimate(123, 45, 6, 7);
    session.record_actual_usage(usage(100, 50, 10, 5));
    session.complete_task("alpha".to_string());
    session.complete_task("beta".to_string());

    let v1 = session.view();
    let v2 = session.view();
    let v3 = SessionView::new(&session);

    // All three views point at the same underlying session pointer.
    assert!(std::ptr::eq(v1.as_session(), v2.as_session()));
    assert!(std::ptr::eq(v1.as_session(), v3.as_session()));

    assert_eq!(v1.id(), session.id);
    assert_eq!(v2.turn_metrics().len(), 1);
    assert_eq!(v3.progress().completed_tasks.len(), 2);
    assert_eq!(v1.cumulative_usage().input_tokens, 100);
    assert_eq!(v2.total_turns(), 1);
}

#[test]
fn issue_458_turn_metrics_tracking_visible_through_view() {
    let mut session = Session::new_initializer();

    let pushes = MAX_TURN_METRICS + 7;
    for _ in 0..pushes {
        session.record_turn_estimate(1_000, 100, 80, 20);
        session.record_actual_usage(usage(1, 1, 0, 0));
    }

    let view = session.view();

    // 1. Ring is bounded.
    assert_eq!(
        view.turn_metrics().len(),
        MAX_TURN_METRICS,
        "view must observe the same bounded ring as the direct-field path"
    );

    // 2. total_turns is monotonic and unaffected by eviction.
    assert_eq!(view.total_turns(), pushes as u64);

    // 3. Cumulative usage accumulated across *all* turns.
    assert_eq!(view.cumulative_usage().input_tokens, pushes as u64);
    assert_eq!(view.cumulative_usage().output_tokens, pushes as u64);

    // 4. The retained ring is strictly monotonic in turn_number.
    let nums: Vec<u64> = view.turn_metrics().iter().map(|t| t.turn_number).collect();
    for window in nums.windows(2) {
        assert!(
            window[0] < window[1],
            "turn_numbers must be strictly increasing through SessionView"
        );
    }
    let evicted = (pushes - MAX_TURN_METRICS) as u64;
    assert!(nums[0] > evicted);
}

#[test]
fn views_read_every_field() {
    let mut session = Session::new_coding("p");
    session.increment_requests();
    session.add_tokens(5);
    let view = session.view();
    assert_eq!(view.mode(), SessionMode::Coding);
    assert_eq!(view.parent_session_id(), Some("p"));
    assert_eq!(view.request_count(), 1);
    assert_eq!(view.total_tokens(), 5);
    assert_eq!(*view.created_at(), session.created_at);
    assert_eq!(*view.updated_at(), session.updated_at);
}

#[test]
fn ids_that_hold_a_path_are_refused() {
    assert!(validate_session_file_id("abc-123-X").is_ok());
    assert!(validate_session_file_id(&Session::new_initializer().id).is_ok());
    for id in ["", "../outside", "a/b", "a.b", "a_b", "ü", &"x".repeat(129)] {
        assert!(validate_session_file_id(id).is_err(), "{id}");
    }
}

// ── Manager ─────────────────────────────────────────────────────────────

#[test]
fn test_session_manager_persistence() {
    let mut manager = manager();
    let session = manager.get_or_create_session(None).clone();
    assert_eq!(session.mode, SessionMode::Initializer);

    let (ended, plan) = manager
        .end_session(Some("Test handoff notes"))
        .expect("end_session must succeed for active session");
    assert_eq!(plan.session_file, format!("{}.json", session.id));
    assert_eq!(plan.latest_file, "latest.json");
    assert_eq!(plan.handoff_file, "handoff.md");
    assert!(plan.handoff.contains("Test handoff notes"));

    // Load it back
    let loaded = accept_loaded(ended);
    assert!(loaded.is_some());
    assert_eq!(loaded.unwrap().id, session.id);
}

#[test]
fn load_session_rejects_path_traversal_id() {
    assert!(
        session_file_name("../outside").is_err(),
        "path traversal id must be rejected"
    );
    let mut session = Session::new_initializer();
    session.id = "../outside".to_string();
    assert!(accept_loaded(session).is_none());
}

#[test]
fn persist_session_rejects_invalid_embedded_id_without_writing_outside_dir() {
    let mut manager = manager();
    manager.get_or_create_session(None);
    manager.get_session_mut().unwrap().id = "../outside".to_string();

    let err = manager
        .end_session(None)
        .expect_err("invalid in-memory id must fail persistence");

    assert!(
        matches!(err, EndSessionError::PersistFailed { .. }),
        "expected persist failure, got {err:?}"
    );
    assert!(
        err.message()
            .starts_with("failed to persist session to disk: invalid session id \"../outside\": "),
        "{}",
        err.message()
    );
}

#[test]
fn cleanup_old_sessions_ignores_malicious_embedded_id() {
    let mut malicious = Session::new_initializer();
    malicious.id = "../outside".to_string();
    let kept = Session::new_initializer();
    let stale = Session::new_initializer();
    let files = cleanup_old_sessions(&vec![kept, malicious, stale.clone()], 1);
    assert_eq!(files, vec![format!("{}.json", stale.id)]);
    assert!(cleanup_old_sessions(&vec![stale], 5).is_empty());
}

#[test]
fn test_session_manager_coding_continuation() {
    let mut manager = manager();

    // First session
    let first = manager.get_or_create_session(None).clone();
    manager
        .end_session(None)
        .expect("end_session must succeed for active session");

    // Second session should be coding mode
    let second = manager.get_or_create_session(Some(&first.id)).clone();
    assert_eq!(second.mode, SessionMode::Coding);
    assert_eq!(second.parent_session_id, Some(first.id));
}

#[test]
fn test_session_manager_has_task_manager() {
    let mut manager = manager();
    manager
        .task_manager
        .create_task("Test".to_string(), "Test task".to_string(), None);
    assert_eq!(manager.task_manager.list_tasks().len(), 1);
}

#[test]
fn start_initializer_overrides_history() {
    let mut manager = manager();

    let id = manager.get_or_create_session(None).id.clone();
    manager
        .end_session(None)
        .expect("end_session must succeed for active session");
    manager.get_or_create_session(Some(&id));

    // Force an initializer even though history exists
    let session = manager.start_initializer().clone();
    assert_eq!(
        session.mode,
        SessionMode::Initializer,
        "start_initializer must override history detection"
    );
    assert!(
        session.parent_session_id.is_none(),
        "forced initializer must have no parent"
    );
    let coding = manager.start_coding("parent").clone();
    assert_eq!(coding.parent_session_id.as_deref(), Some("parent"));
    assert_eq!(manager.current_view().unwrap().id(), coding.id);
    assert_eq!(manager.persist_dir(), "sessions");
}

#[test]
fn vdd_context_store_and_take() {
    let mut manager = manager();

    assert!(
        manager.take_vdd_context().is_none(),
        "initially no VDD context"
    );

    manager.store_vdd_context("advisory: review tool calls".to_string());
    let ctx = manager.take_vdd_context();
    assert_eq!(ctx.as_deref(), Some("advisory: review tool calls"));

    // take is destructive — second take returns None
    assert!(
        manager.take_vdd_context().is_none(),
        "take_vdd_context must be destructive"
    );
}

#[test]
fn end_session_happy_path_returns_ok() {
    let mut manager = manager();

    let id = manager.get_or_create_session(None).id.clone();
    let (session, _) = manager
        .end_session(Some("ok"))
        .expect("happy path must be Ok");
    assert_eq!(session.id, id, "returned session must be the active one");
    assert_eq!(
        session.progress.handoff_notes, "ok",
        "handoff notes must be applied before persist"
    );
    assert!(
        manager.get_session().is_none(),
        "current_session must be cleared after end_session"
    );
}

#[test]
fn end_session_unknown_returns_not_found() {
    let mut manager = manager();
    let err = manager
        .end_session(None)
        .expect_err("end_session with no active session must be Err");
    assert!(
        matches!(err, EndSessionError::NotFound),
        "expected EndSessionError::NotFound, got {err:?}"
    );
    assert_eq!(err.message(), "no current session is active");
}

#[test]
fn sessions_are_listed_newest_first() {
    let session = |id: &str, secs: i64| {
        Session::start(id.to_string(), None, Timestamp::new(secs, 0).unwrap())
    };
    let sorted = sort_sessions(vec![
        session("a", 1),
        session("b", 3),
        session("c", 3),
        session("d", 2),
    ]);
    let ids: Vec<&str> = sorted.iter().map(|s| s.id.as_str()).collect();
    assert_eq!(ids, vec!["b", "c", "d", "a"]);
    assert!(is_session_file(Some("abc"), Some("json")));
    assert!(!is_session_file(Some("latest"), Some("json")));
    assert!(!is_session_file(Some("handoff"), Some("md")));
    assert!(!is_session_file(None, None));
}

#[test]
fn staged_files_have_names_of_their_own() {
    assert_eq!(
        staging_name(Some("latest.json"), 42, "t"),
        "latest.json.42.t.tmp"
    );
    assert_eq!(staging_name(None, 1, "t"), "session.1.t.tmp");
    let a = unique_staging_name(Some("x"), 7);
    let b = unique_staging_name(Some("x"), 7);
    assert_ne!(a, b);
    assert_eq!(a.len(), "x.7.".len() + 32 + ".tmp".len());
    assert!(a.starts_with("x.7.") && a.ends_with(".tmp"));
}

// ── Plan mode ───────────────────────────────────────────────────────────

fn fault(not_found: bool, text: &str) -> FileFault {
    FileFault {
        not_found,
        text: text.to_string(),
    }
}

fn regular(realpath: &str) -> FileAnswers {
    FileAnswers {
        is_symlink: Some(Ok(false)),
        open: Some(Ok(())),
        is_regular: Some(Ok(true)),
        realpath: Some(Ok(realpath.to_string())),
    }
}

fn missing() -> FileAnswers {
    FileAnswers {
        is_symlink: Some(Err(fault(true, "not found"))),
        ..FileAnswers::none()
    }
}

fn symlink() -> FileAnswers {
    FileAnswers {
        is_symlink: Some(Ok(true)),
        ..FileAnswers::none()
    }
}

fn refusal(path: &str, answers: &FileAnswers) -> PlanModeEntryError {
    PlanModeState::enter(path.to_string(), answers)
        .expect("no question is open")
        .expect_err("entry must be refused")
}

fn plan_state() -> PlanModeState {
    PlanModeState::enter("plan.md".to_string(), &regular("/tmp/plan.md"))
        .expect("no question is open")
        .expect("enter must succeed")
}

fn path_args(path: &str) -> Json {
    json::parse(&format!(r#"{{"path": "{path}"}}"#)).unwrap()
}

#[test]
fn enter_refuses_nonexistent_plan_file() {
    let err = refusal("does_not_exist.md", &missing());
    assert!(
        matches!(err, PlanModeEntryError::PlanFileMissing { ref path } if path == "does_not_exist.md"),
        "expected PlanFileMissing, got {err:?}"
    );
    assert_eq!(
        err.message(),
        "plan file does not exist: does_not_exist.md"
    );
}

#[test]
fn enter_refuses_symlink_at_plan_file_path() {
    let err = refusal("plan.md", &symlink());
    assert!(
        matches!(err, PlanModeEntryError::PlanFileIsSymlink { ref path } if path == "plan.md"),
        "expected PlanFileIsSymlink, got {err:?}"
    );
}

#[test]
fn enter_refuses_directory_at_plan_file_path() {
    let mut answers = regular("/tmp/plans");
    answers.is_regular = Some(Ok(false));
    match refusal("plans", &answers) {
        PlanModeEntryError::PlanFileNotRegular { path }
        | PlanModeEntryError::OpenFailed { path, .. } => {
            assert_eq!(path, "plans");
        }
        other => panic!("expected NotRegular or OpenFailed, got {other:?}"),
    }
}

#[test]
fn faults_of_the_file_system_are_reported() {
    let mut answers = regular("/tmp/plan.md");
    answers.open = Some(Err(fault(false, "denied")));
    assert_eq!(
        refusal("p", &answers).message(),
        "failed to open plan file p: denied"
    );
    answers.open = Some(Err(fault(true, "gone")));
    assert!(matches!(
        refusal("p", &answers),
        PlanModeEntryError::PlanFileMissing { .. }
    ));
    let mut answers = regular("/tmp/plan.md");
    answers.realpath = Some(Err(fault(false, "loop")));
    assert_eq!(
        refusal("p", &answers).message(),
        "failed to canonicalize plan file p: loop"
    );
}

#[test]
fn questions_are_asked_in_order() {
    let mut answers = FileAnswers::none();
    assert_eq!(answers.next_question(), Some(FileQuestion::IsSymlink));
    assert!(PlanModeState::enter("p".to_string(), &answers).is_none());
    answers.is_symlink = Some(Ok(false));
    assert_eq!(answers.next_question(), Some(FileQuestion::Open));
    answers.open = Some(Ok(()));
    assert_eq!(answers.next_question(), Some(FileQuestion::IsRegular));
    answers.is_regular = Some(Ok(true));
    assert_eq!(answers.next_question(), Some(FileQuestion::Realpath));
    answers.realpath = Some(Ok("/p".to_string()));
    assert_eq!(answers.next_question(), None);
    assert_eq!(symlink().next_question(), None);
}

#[test]
fn allow_check_rejects_symlink_target_even_pointing_at_plan_file() {
    let state = plan_state();
    assert!(
        !is_tool_allowed_in_plan_mode(
            "write_file",
            &state.plan_realpath,
            &path_args("evil_link.md"),
            &symlink()
        ),
        "symlink to plan file must NOT pass the allow-check"
    );
    assert!(
        is_tool_allowed_in_plan_mode(
            "write_file",
            &state.plan_realpath,
            &path_args("plan.md"),
            &regular("/tmp/plan.md")
        ),
        "the real plan-file path must still be allowed"
    );
}

#[test]
fn allow_check_refuses_nonexistent_target_no_string_fallback() {
    let state = plan_state();
    assert!(
        !is_tool_allowed_in_plan_mode(
            "write_file",
            &state.plan_realpath,
            &path_args("ghost.md"),
            &missing()
        ),
        "non-existent target must NOT silently pass"
    );
    assert!(
        !is_tool_allowed_in_plan_mode(
            "write_file",
            &state.plan_realpath,
            &path_args("plan.md"),
            &regular("/other/plan.md")
        ),
        "different file with same basename must NOT pass"
    );
}

#[test]
fn allow_check_relative_target_refused_when_not_resolvable() {
    let state = plan_state();
    assert!(
        !is_tool_allowed_in_plan_mode(
            "write_file",
            &state.plan_realpath,
            &path_args("this_relative_path_does_not_exist_anywhere_334.md"),
            &missing()
        ),
        "relative path that does not resolve must be refused without consulting cwd"
    );
}

/// Whether a tool without arguments is allowed, under the default policy.
fn allowed(tool: &str) -> bool {
    is_tool_allowed_in_plan_mode(
        tool,
        &plan_state().plan_realpath,
        &json::parse("{}").unwrap(),
        &FileAnswers::none(),
    )
}

fn allowed_with(tool: &str, policy: PlanModePolicy) -> bool {
    is_tool_allowed_in_plan_mode_with_policy(
        tool,
        &plan_state().plan_realpath,
        &json::parse("{}").unwrap(),
        policy,
        &FileAnswers::none(),
    )
}

#[test]
fn allow_check_preserves_static_allow_and_block_lists() {
    for tool in plan_mode_allowed_tools() {
        assert!(allowed(tool), "{tool} must remain in the allow-list");
    }
    for blocked in [
        "bash",
        "edit_file",
        "kill_shell",
        "kill_shells_for_agent",
        "todo_write",
    ] {
        assert!(
            !allowed(blocked),
            "{blocked} must be refused by hard default-deny"
        );
    }
    assert!(allowed("enter_plan_mode"));
    assert!(allowed("exit_plan_mode"));
    assert!(!allowed("unknown_tool_xyz"));
}

#[test]
fn known_tool_allowed_in_plan_mode_341() {
    assert!(
        allowed("read_file"),
        "known allow-listed tool must be permitted"
    );
    assert!(
        allowed("grounding_context"),
        "grounding_context must be permitted as a read-only plan-mode tool"
    );
    assert!(allowed("grep"), "known allow-listed tool must be permitted");
}

#[test]
fn unknown_tool_denied_by_hard_default_deny_341() {
    assert!(
        !allowed("totally_made_up_tool_341"),
        "unknown tool must be refused by hard default-deny"
    );
    assert!(
        !allowed("memory_save"),
        "newly added tool not yet in allowlist must be refused"
    );
}

#[test]
fn mcp_prefixed_tool_denied_by_default_341() {
    assert!(
        !allowed("mcp__some_server__exec_shell"),
        "MCP-prefixed tool must be denied by default in plan mode"
    );
    assert!(
        !allowed("mcp__evil__read_file"),
        "MCP tool whose suffix matches an allow-listed name must STILL be denied"
    );
    let permissive = PlanModePolicy {
        allow_mcp_tools: true,
        allow_plugin_tools: false,
    };
    assert!(
        !allowed_with("mcp__some_server__exec_shell", permissive),
        "even with allow_mcp_tools=true, an MCP tool not in the allowlist remains denied"
    );
}

#[test]
fn plugin_prefixed_tool_denied_by_default_341() {
    assert!(
        !allowed("plugin__my_plugin__do_thing"),
        "plugin-prefixed tool must be denied by default in plan mode"
    );
    assert!(
        !allowed("plugin__evil__list_files"),
        "plugin tool whose suffix matches an allow-listed name must STILL be denied"
    );
    let permissive = PlanModePolicy {
        allow_mcp_tools: false,
        allow_plugin_tools: true,
    };
    assert!(
        !allowed_with("plugin__my_plugin__do_thing", permissive),
        "even with allow_plugin_tools=true, a plugin tool not in the allowlist remains denied"
    );
}

#[test]
fn enter_default_has_no_previous_mode_snapshot_618() {
    assert_eq!(
        plan_state().previous_mode,
        None,
        "enter() must not snapshot a mode"
    );
}

#[test]
fn enter_with_previous_mode_records_token_618() {
    let state = PlanModeState::enter_with_previous_mode(
        "plan.md".to_string(),
        Some("refactor".to_string()),
        &regular("/tmp/plan.md"),
    )
    .expect("no question is open")
    .expect("enter must succeed");
    assert_eq!(state.previous_mode.as_deref(), Some("refactor"));
    assert!(state.active);
    assert_eq!(state.plan_file, "plan.md");
    assert_eq!(state.plan_realpath, "/tmp/plan.md");
}

#[test]
fn only_writes_have_a_target() {
    assert_eq!(
        plan_write_target("write_file", &path_args("a.md")),
        Some("a.md")
    );
    assert_eq!(plan_write_target("read_file", &path_args("a.md")), None);
    assert_eq!(plan_write_target("write_file", &Json::Null), None);
}

// ── Audit log ───────────────────────────────────────────────────────────

#[test]
fn happy_path_writes_jsonl_entry() {
    assert_eq!(audit_file_name("happy-session"), "happy-session.jsonl");
    let at = Timestamp::new(1_700_000_000, 0).unwrap();
    let entry = audit_entry(
        &at,
        "test_event",
        json::parse(r#"{"key": "value"}"#).unwrap(),
    );
    assert_eq!(entry.get_str("event"), Some("test_event"));
    assert_eq!(entry.get("data").unwrap().get_str("key"), Some("value"));
    assert_eq!(
        entry.get_str("timestamp"),
        Some("2023-11-14T22:13:20+00:00")
    );
}

#[test]
fn audit_errors_are_told_in_words() {
    let path = || "/var/log".to_string();
    let source = || "denied".to_string();
    assert_eq!(
        AuditError::Mkdir {
            path: path(),
            source: source()
        }
        .message(),
        "failed to create audit log directory /var/log: denied"
    );
    assert_eq!(
        AuditError::Open {
            path: path(),
            source: source()
        }
        .message(),
        "failed to open audit log /var/log: denied"
    );
    assert_eq!(
        AuditError::WriteFailed { source: source() }.message(),
        "failed to write audit entry: denied"
    );
    assert_eq!(
        AuditError::Serialize { source: source() }.message(),
        "failed to serialise audit entry: denied"
    );
}
